//! Bounded single-pass byte scanner.
//!
//! A page is scanned inside a content region bounded by a start and an end
//! marker.  Within the region the scanner looks for tag occurrences, then for
//! an attribute name inside the tag, skips the two opening delimiter bytes
//! (`="`), and takes the value up to the closing delimiter.  A value is kept
//! only when it holds the filter pattern as a substring, and the kept values
//! form a set: exact duplicates collapse to one entry.  Malformed tags
//! without a closing delimiter before end of input are dropped, and the
//! cursor never moves backwards.

use vstd::prelude::*;

verus! {

/// Whether `pat` occurs in `data` exactly at offset `i`.
pub open spec fn matches_at(data: Seq<u8>, i: int, pat: Seq<u8>) -> bool {
    0 <= i && i + pat.len() <= data.len() && data.subrange(i, i + pat.len() as int) == pat
}

/// Whether `needle` occurs somewhere in `hay`.
pub open spec fn contains_sub(hay: Seq<u8>, needle: Seq<u8>) -> bool {
    exists|i: int| matches_at(hay, i, needle)
}

/// The offset of the first occurrence of `pat` at or after `from`.
pub open spec fn spec_find(data: Seq<u8>, from: int, pat: Seq<u8>) -> Option<int>
    decreases data.len() - from + 1,
{
    if from < 0 || from + pat.len() > data.len() {
        None
    } else if matches_at(data, from, pat) {
        Some(from)
    } else {
        spec_find(data, from + 1, pat)
    }
}

/// What a found offset means: it lies at or after `from`, it fits in the
/// data, it matches, and nothing before it matches; a miss means nothing at
/// or after `from` matches.
pub proof fn lemma_find_props(data: Seq<u8>, from: int, pat: Seq<u8>)
    ensures
        spec_find(data, from, pat) matches Some(i) ==> from <= i && 0 <= i && i + pat.len()
            <= data.len() && matches_at(data, i, pat) && (forall|k: int|
            from <= k < i ==> !matches_at(data, k, pat)),
        spec_find(data, from, pat) is None && 0 <= from ==> forall|k: int|
            from <= k ==> !matches_at(data, k, pat),
    decreases data.len() - from + 1,
{
    if from < 0 || from + pat.len() > data.len() {
    } else if matches_at(data, from, pat) {
    } else {
        lemma_find_props(data, from + 1, pat);
    }
}

/// A miss from the start of the data means the pattern is nowhere in it.
pub proof fn lemma_find_none_from_zero(data: Seq<u8>, pat: Seq<u8>)
    ensures
        spec_find(data, 0, pat) is None <==> !contains_sub(data, pat),
{
    lemma_find_props(data, 0, pat);
}

/// The length of the longest common prefix of `a` and `b`.
pub open spec fn lcp(a: Seq<u8>, b: Seq<u8>) -> nat
    decreases a.len(),
{
    if a.len() == 0 || b.len() == 0 || a[0] != b[0] {
        0
    } else {
        1 + lcp(a.drop_first(), b.drop_first())
    }
}

/// Equal-length sequences share a full common prefix exactly when they are
/// equal.
pub proof fn lemma_lcp_full(a: Seq<u8>, b: Seq<u8>)
    requires
        a.len() == b.len(),
    ensures
        lcp(a, b) == b.len() <==> a == b,
    decreases a.len(),
{
    if a.len() == 0 {
        assert(a =~= b);
    } else if a[0] != b[0] {
        assert(a != b);
    } else {
        lemma_lcp_full(a.drop_first(), b.drop_first());
        if lcp(a, b) == b.len() {
            assert(a.drop_first() == b.drop_first());
            assert forall|k: int| 0 <= k < a.len() implies a[k] == b[k] by {
                if k > 0 {
                    assert(a.drop_first()[k - 1] == a[k]);
                    assert(b.drop_first()[k - 1] == b[k]);
                }
            }
            assert(a =~= b);
        }
        if a == b {
            assert(a.drop_first() =~= b.drop_first());
        }
    }
}

/// Counts matching bytes: `count` plus the length of the longest common
/// prefix of `a` and `b`.
pub fn bytes_match(a: &[u8], b: &[u8], count: usize) -> (r: usize)
    requires
        count + a@.len() <= usize::MAX,
    ensures
        r == count + lcp(a@, b@),
    decreases a@.len(),
{
    if a.len() > 0 && b.len() > 0 && *vstd::slice::slice_index_get(a, 0) == *vstd::slice::slice_index_get(b, 0) {
        let ta = crate::strutil::rest(a);
        let tb = crate::strutil::rest(b);
        bytes_match(ta, tb, count + 1)
    } else {
        count
    }
}

/// Whether `pat` lies at offset `i` of `data`, decided by counting matching
/// bytes over a window of the pattern's length.
fn is_match_at(data: &[u8], i: usize, pat: &[u8]) -> (r: bool)
    requires
        i + pat@.len() <= data@.len(),
        data@.len() <= usize::MAX,
    ensures
        r == matches_at(data@, i as int, pat@),
{
    let window = vstd::slice::slice_subrange(data, i, i + pat.len());
    let m = bytes_match(window, pat, 0);
    proof {
        lemma_lcp_full(window@, pat@);
    }
    m == pat.len()
}

/// The first occurrence of `pat` in `data` at or after `from`, with the
/// meaning of hit and miss spelled out for callers.
pub fn find_pat(data: &[u8], from: usize, pat: &[u8]) -> (r: Option<usize>)
    ensures
        r matches Some(j) ==> spec_find(data@, from as int, pat@) == Some(j as int) && from <= j
            && j + pat@.len() <= data@.len() && matches_at(data@, j as int, pat@) && (forall|
        k: int,
        |
            from <= k < j ==> !matches_at(data@, k, pat@)),
        r is None ==> spec_find(data@, from as int, pat@) is None && (forall|k: int|
            from <= k ==> !matches_at(data@, k, pat@)),
{
    proof {
        lemma_find_props(data@, from as int, pat@);
    }
    let dl = data.len();
    let pl = pat.len();
    if pl > dl {
        return None;
    }
    if pl == 0 {
        if from <= dl {
            proof {
                assert(data@.subrange(from as int, from as int) =~= pat@);
            }
            return Some(from);
        } else {
            return None;
        }
    }
    let bound = dl - pl;
    let mut i = from;
    while i <= bound
        invariant
            from <= i,
            1 <= pat@.len() <= data@.len(),
            data@.len() <= usize::MAX,
            bound == data@.len() - pat@.len(),
            spec_find(data@, from as int, pat@) == spec_find(data@, i as int, pat@),
        decreases bound + 1 - i,
    {
        if is_match_at(data, i, pat) {
            proof {
                lemma_find_props(data@, from as int, pat@);
            }
            return Some(i);
        }
        proof {
            assert(spec_find(data@, i as int, pat@) == spec_find(data@, i + 1, pat@));
        }
        i = i + 1;
    }
    proof {
        lemma_find_props(data@, from as int, pat@);
    }
    None
}

/// Whether `needle` occurs somewhere in `hay`.
pub fn contains_pat(hay: &[u8], needle: &[u8]) -> (r: bool)
    ensures
        r == contains_sub(hay@, needle@),
{
    let f = find_pat(hay, 0, needle);
    proof {
        if f is None {
            assert(forall|k: int| matches_at(hay@, k, needle@) ==> 0 <= k);
        }
    }
    f.is_some()
}

/// Whether the region end marker occurs at or before the tag position `t`
/// when searching from `i`.
pub open spec fn region_ended(data: Seq<u8>, i: int, end_m: Seq<u8>, t: int) -> bool {
    match spec_find(data, i, end_m) {
        Some(e) => e <= t,
        None => false,
    }
}

/// The set of attribute values found from cursor position `i` on: at each
/// tag occurrence before the region end, the value between the two bytes
/// after the attribute marker and the next delimiter is taken, and kept when
/// it holds the filter.  The cursor resumes right after the value's
/// delimiter.
pub open spec fn scan_from(
    data: Seq<u8>,
    i: int,
    end_m: Seq<u8>,
    tag: Seq<u8>,
    attr: Seq<u8>,
    filter: Seq<u8>,
    term: Seq<u8>,
) -> Set<Seq<u8>>
    decreases data.len() - i + 1,
    via scan_from_dec
{
    match spec_find(data, i, tag) {
        None => Set::empty(),
        Some(t) => if region_ended(data, i, end_m, t) {
            Set::empty()
        } else {
            match spec_find(data, t + tag.len(), attr) {
                None => Set::empty(),
                Some(a) => match spec_find(data, a + attr.len() + 2, term) {
                    None => Set::empty(),
                    Some(e) => {
                        let v = data.subrange(a + attr.len() + 2, e);
                        let tail = scan_from(data, e + term.len(), end_m, tag, attr, filter, term);
                        if contains_sub(v, filter) {
                            tail.insert(v)
                        } else {
                            tail
                        }
                    },
                },
            }
        },
    }
}

#[via_fn]
proof fn scan_from_dec(
    data: Seq<u8>,
    i: int,
    end_m: Seq<u8>,
    tag: Seq<u8>,
    attr: Seq<u8>,
    filter: Seq<u8>,
    term: Seq<u8>,
) {
    lemma_find_props(data, i, tag);
    match spec_find(data, i, tag) {
        None => {},
        Some(t) => {
            lemma_find_props(data, t + tag.len(), attr);
            match spec_find(data, t + tag.len(), attr) {
                None => {},
                Some(a) => {
                    lemma_find_props(data, a + attr.len() + 2, term);
                },
            }
        },
    }
}

/// The scan of a whole page: nothing when the region start marker is absent,
/// else everything found from just after its first occurrence.
pub open spec fn full_scan(
    data: Seq<u8>,
    start_m: Seq<u8>,
    end_m: Seq<u8>,
    tag: Seq<u8>,
    attr: Seq<u8>,
    filter: Seq<u8>,
    term: Seq<u8>,
) -> Set<Seq<u8>> {
    match spec_find(data, 0, start_m) {
        None => Set::empty(),
        Some(s) => scan_from(data, s + start_m.len(), end_m, tag, attr, filter, term),
    }
}

/// Every value the scan keeps holds the filter as a substring.
pub proof fn lemma_scan_from_filter(
    data: Seq<u8>,
    i: int,
    end_m: Seq<u8>,
    tag: Seq<u8>,
    attr: Seq<u8>,
    filter: Seq<u8>,
    term: Seq<u8>,
)
    ensures
        forall|v: Seq<u8>| #[trigger]
            scan_from(data, i, end_m, tag, attr, filter, term).contains(v) ==> contains_sub(
                v,
                filter,
            ),
    decreases data.len() - i + 1,
{
    lemma_find_props(data, i, tag);
    match spec_find(data, i, tag) {
        None => {},
        Some(t) => {
            if !region_ended(data, i, end_m, t) {
                lemma_find_props(data, t + tag.len(), attr);
                match spec_find(data, t + tag.len(), attr) {
                    None => {},
                    Some(a) => {
                        lemma_find_props(data, a + attr.len() + 2, term);
                        match spec_find(data, a + attr.len() + 2, term) {
                            None => {},
                            Some(e) => {
                                lemma_scan_from_filter(
                                    data,
                                    e + term.len(),
                                    end_m,
                                    tag,
                                    attr,
                                    filter,
                                    term,
                                );
                                let v0 = data.subrange(a + attr.len() + 2, e);
                                let tail = scan_from(
                                    data,
                                    e + term.len(),
                                    end_m,
                                    tag,
                                    attr,
                                    filter,
                                    term,
                                );
                                if contains_sub(v0, filter) {
                                    assert(scan_from(data, i, end_m, tag, attr, filter, term)
                                        == tail.insert(v0));
                                    assert forall|v: Seq<u8>| #[trigger]
                                        scan_from(
                                            data,
                                            i,
                                            end_m,
                                            tag,
                                            attr,
                                            filter,
                                            term,
                                        ).contains(v) implies contains_sub(v, filter) by {
                                        if v != v0 {
                                            assert(tail.contains(v));
                                        }
                                    }
                                } else {
                                    assert(scan_from(data, i, end_m, tag, attr, filter, term)
                                        == tail);
                                }
                            },
                        }
                    },
                }
            }
        },
    }
}

/// Every value of a whole-page scan holds the filter as a substring.
pub proof fn lemma_full_scan_filter(
    data: Seq<u8>,
    start_m: Seq<u8>,
    end_m: Seq<u8>,
    tag: Seq<u8>,
    attr: Seq<u8>,
    filter: Seq<u8>,
    term: Seq<u8>,
)
    ensures
        forall|v: Seq<u8>| #[trigger]
            full_scan(data, start_m, end_m, tag, attr, filter, term).contains(v) ==> contains_sub(
                v,
                filter,
            ),
{
    match spec_find(data, 0, start_m) {
        None => {},
        Some(s) => {
            lemma_scan_from_filter(data, s + start_m.len(), end_m, tag, attr, filter, term);
        },
    }
}

/// A page without the region start marker scans to the empty set.
pub proof fn lemma_scan_without_region(
    data: Seq<u8>,
    start_m: Seq<u8>,
    end_m: Seq<u8>,
    tag: Seq<u8>,
    attr: Seq<u8>,
    filter: Seq<u8>,
    term: Seq<u8>,
)
    requires
        !contains_sub(data, start_m),
    ensures
        full_scan(data, start_m, end_m, tag, attr, filter, term) == Set::<Seq<u8>>::empty(),
{
    lemma_find_none_from_zero(data, start_m);
}

/// Scanning is a pure function of page and markers: any two result
/// sequences whose sets are the scan's set carry one and the same set, so
/// repeating a call cannot change what was found.
pub proof fn lemma_scan_idempotent(
    r1: Seq<Seq<u8>>,
    r2: Seq<Seq<u8>>,
    data: Seq<u8>,
    start_m: Seq<u8>,
    end_m: Seq<u8>,
    tag: Seq<u8>,
    attr: Seq<u8>,
    filter: Seq<u8>,
    term: Seq<u8>,
)
    requires
        r1.to_set() == full_scan(data, start_m, end_m, tag, attr, filter, term),
        r2.to_set() == full_scan(data, start_m, end_m, tag, attr, filter, term),
    ensures
        r1.to_set() == r2.to_set(),
{
}

/// Pushing a fresh element onto a sequence inserts it into the sequence's
/// set.
pub proof fn lemma_to_set_push(s: Seq<Seq<u8>>, x: Seq<u8>)
    ensures
        s.push(x).to_set() =~= s.to_set().insert(x),
{
    assert forall|a: Seq<u8>| #[trigger] s.push(x).contains(a) implies s.contains(a) || a == x by {
        let i = choose|i: int| 0 <= i < s.push(x).len() && s.push(x)[i] == a;
        if i < s.len() {
            assert(s[i] == a);
        }
    }
    assert forall|a: Seq<u8>| #[trigger] s.contains(a) implies s.push(x).contains(a) by {
        let i = choose|i: int| 0 <= i < s.len() && s[i] == a;
        assert(s.push(x)[i] == a);
    }
    assert(s.push(x)[s.len() as int] == x);
    assert(s.push(x).contains(x));
}

/// The deep view of a byte vector is its plain view.
pub broadcast proof fn lemma_bytes_deep_view(v: Vec<u8>)
    ensures
        #[trigger] v.deep_view() == v@,
{
    assert(v.deep_view() =~= v@);
}

/// Byte-for-byte equality of two vectors.
fn vecs_eq(a: &Vec<u8>, b: &Vec<u8>) -> (r: bool)
    ensures
        r == (a@ == b@),
{
    if a.len() != b.len() {
        assert(a@ != b@);
        return false;
    }
    let mut i: usize = 0;
    while i < a.len()
        invariant
            i <= a@.len(),
            a@.len() == b@.len(),
            forall|j: int| 0 <= j < i ==> a@[j] == b@[j],
        decreases a@.len() - i,
    {
        if a[i] != b[i] {
            assert(a@ != b@);
            return false;
        }
        i = i + 1;
    }
    proof {
        assert(a@ =~= b@);
    }
    true
}

/// Whether the value `v` was already collected.
fn already_collected(found: &Vec<Vec<u8>>, v: &Vec<u8>) -> (r: bool)
    ensures
        r == found.deep_view().contains(v@),
{
    let mut i: usize = 0;
    while i < found.len()
        invariant
            i <= found@.len(),
            forall|j: int| 0 <= j < i ==> found.deep_view()[j] != v@,
        decreases found@.len() - i,
    {
        let elem = vstd::slice::slice_index_get(found.as_slice(), i);
        proof {
            broadcast use lemma_bytes_deep_view;

            assert(found.deep_view()[i as int] == found@[i as int].deep_view());
        }
        if vecs_eq(elem, v) {
            proof {
                broadcast use lemma_bytes_deep_view;

                assert(found.deep_view()[i as int] == v@);
            }
            return true;
        }
        proof {
            broadcast use lemma_bytes_deep_view;

            assert(found.deep_view()[i as int] != v@);
        }
        i = i + 1;
    }
    proof {
        assert forall|j: int| 0 <= j < found.deep_view().len() implies found.deep_view()[j] != v@
            by {}
    }
    false
}

/// Scans a page for attribute values: from the first occurrence of
/// `content_marker` up to `end_content_marker`, each `tag_marker` occurrence
/// is searched for `attribute_marker`, the two delimiter bytes after it are
/// skipped, and the value up to `deliminator_marker` is kept when it holds
/// `pattern_marker`.  The result carries each value once, in the order first
/// found, and equals the specified scan set.
pub fn proper_scan_bytes(
    data: &[u8],
    content_marker: &[u8],
    end_content_marker: &[u8],
    tag_marker: &[u8],
    attribute_marker: &[u8],
    pattern_marker: &[u8],
    deliminator_marker: &[u8],
) -> (r: Vec<Vec<u8>>)
    ensures
        r.deep_view().to_set() == full_scan(
            data@,
            content_marker@,
            end_content_marker@,
            tag_marker@,
            attribute_marker@,
            pattern_marker@,
            deliminator_marker@,
        ),
        r.deep_view().no_duplicates(),
        forall|k: int|
            0 <= k < r.deep_view().len() ==> contains_sub(r.deep_view()[k], pattern_marker@),
        !contains_sub(data@, content_marker@) ==> r@.len() == 0,
{
    broadcast use lemma_bytes_deep_view;

    let ghost goal = full_scan(
        data@,
        content_marker@,
        end_content_marker@,
        tag_marker@,
        attribute_marker@,
        pattern_marker@,
        deliminator_marker@,
    );
    let mut found: Vec<Vec<u8>> = Vec::new();
    let start = match find_pat(data, 0, content_marker) {
        None => {
            proof {
                assert(found.deep_view() =~= Seq::<Seq<u8>>::empty());
                assert(found.deep_view().to_set() =~= goal);
            }
            return found;
        },
        Some(s) => s,
    };
    proof {
        assert(contains_sub(data@, content_marker@));
    }
    let dl = data.len();
    let mut i: usize = start + content_marker.len();
    proof {
        assert(goal == scan_from(
            data@,
            i as int,
            end_content_marker@,
            tag_marker@,
            attribute_marker@,
            pattern_marker@,
            deliminator_marker@,
        ));
        assert(found.deep_view() =~= Seq::<Seq<u8>>::empty());
    }
    loop
        invariant_except_break
            i <= data@.len(),
            dl == data@.len(),
            found.deep_view().no_duplicates(),
            forall|k: int|
                0 <= k < found.deep_view().len() ==> contains_sub(
                    found.deep_view()[k],
                    pattern_marker@,
                ),
            goal == found.deep_view().to_set().union(
                scan_from(
                    data@,
                    i as int,
                    end_content_marker@,
                    tag_marker@,
                    attribute_marker@,
                    pattern_marker@,
                    deliminator_marker@,
                ),
            ),
        ensures
            found.deep_view().no_duplicates(),
            forall|k: int|
                0 <= k < found.deep_view().len() ==> contains_sub(
                    found.deep_view()[k],
                    pattern_marker@,
                ),
            goal == found.deep_view().to_set(),
        decreases data@.len() - i,
    {
        let ghost tail_before = scan_from(
            data@,
            i as int,
            end_content_marker@,
            tag_marker@,
            attribute_marker@,
            pattern_marker@,
            deliminator_marker@,
        );
        match find_pat(data, i, tag_marker) {
            None => {
                proof {
                    assert(tail_before =~= Set::<Seq<u8>>::empty());
                    assert(goal =~= found.deep_view().to_set());
                }
                break;
            },
            Some(t) => {
                let ended = match find_pat(data, i, end_content_marker) {
                    Some(e) => e <= t,
                    None => false,
                };
                proof {
                    assert(ended == region_ended(data@, i as int, end_content_marker@, t as int));
                }
                if ended {
                    proof {
                        assert(tail_before =~= Set::<Seq<u8>>::empty());
                        assert(goal =~= found.deep_view().to_set());
                    }
                    break;
                }
                match find_pat(data, t + tag_marker.len(), attribute_marker) {
                    None => {
                        proof {
                            assert(tail_before =~= Set::<Seq<u8>>::empty());
                            assert(goal =~= found.deep_view().to_set());
                        }
                        break;
                    },
                    Some(a) => {
                        if data.len() - (a + attribute_marker.len()) < 2 {
                            proof {
                                assert(spec_find(
                                    data@,
                                    a + attribute_marker@.len() + 2,
                                    deliminator_marker@,
                                ) is None);
                                assert(tail_before =~= Set::<Seq<u8>>::empty());
                                assert(goal =~= found.deep_view().to_set());
                            }
                            break;
                        }
                        let vstart = a + attribute_marker.len() + 2;
                        match find_pat(data, vstart, deliminator_marker) {
                            None => {
                                proof {
                                    assert(tail_before =~= Set::<Seq<u8>>::empty());
                                    assert(goal =~= found.deep_view().to_set());
                                }
                                break;
                            },
                            Some(e) => {
                                let v = vstd::slice::slice_to_vec(
                                    vstd::slice::slice_subrange(data, vstart, e),
                                );
                                let ghost tail_after = scan_from(
                                    data@,
                                    e + deliminator_marker@.len(),
                                    end_content_marker@,
                                    tag_marker@,
                                    attribute_marker@,
                                    pattern_marker@,
                                    deliminator_marker@,
                                );
                                if contains_pat(v.as_slice(), pattern_marker) {
                                    proof {
                                        assert(tail_before == tail_after.insert(v@));
                                    }
                                    if !already_collected(&found, &v) {
                                        let ghost pre = found.deep_view();
                                        let ghost vv = v@;
                                        found.push(v);
                                        proof {
                                            broadcast use lemma_bytes_deep_view;

                                            assert(found.deep_view() =~= pre.push(vv));
                                            lemma_to_set_push(pre, vv);
                                            assert(pre.to_set().union(tail_after.insert(vv))
                                                =~= pre.push(vv).to_set().union(tail_after));
                                        }
                                    } else {
                                        proof {
                                            assert(found.deep_view().to_set().contains(v@));
                                            assert(found.deep_view().to_set().union(
                                                tail_after.insert(v@),
                                            ) =~= found.deep_view().to_set().union(tail_after));
                                        }
                                    }
                                } else {
                                    proof {
                                        assert(tail_before == tail_after);
                                    }
                                }
                                i = e + deliminator_marker.len();
                            },
                        }
                    },
                }
            },
        }
    }
    found
}

} // verus!
