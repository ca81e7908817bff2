//! Asset resolution.
//!
//! A scan match that begins with `/` is root-relative and is prefixed with
//! the origin host; any other match is taken as already absolute; an empty
//! match names nothing and is skipped.  The local file name of a downloaded
//! asset is the last `/`-delimited path segment of its final URL, with the
//! query string stripped and percent-encoded spaces decoded, or a fixed
//! fallback name when no segment can be derived.

use vstd::prelude::*;

verus! {

/// The byte that marks a root-relative match.
pub open spec fn slash_byte() -> u8 {
    47u8
}

/// The absolute URL bytes a match resolves to, when it resolves at all.
pub open spec fn resolves_url(m: Seq<u8>, origin: Seq<u8>, u: Seq<u8>) -> bool {
    m.len() > 0 && u == if m[0] == slash_byte() {
        origin + m
    } else {
        m
    }
}

/// The set of absolute URLs that a set of scan matches resolves to.
pub open spec fn resolved_set(ms: Set<Seq<u8>>, origin: Seq<u8>) -> Set<Seq<u8>> {
    Set::new(|u: Seq<u8>| exists|m: Seq<u8>| #[trigger] ms.contains(m) && resolves_url(m, origin, u))
}

/// Resolves one scan match against the origin host; an empty match resolves
/// to nothing.
pub fn resolve(m: &[u8], origin: &[u8]) -> (r: Option<Vec<u8>>)
    ensures
        m@.len() == 0 ==> r is None,
        m@.len() > 0 ==> (r matches Some(u) && resolves_url(m@, origin@, u@)),
{
    if m.len() == 0 {
        None
    } else if *vstd::slice::slice_index_get(m, 0) == 47u8 {
        let mut u = vstd::slice::slice_to_vec(origin);
        let mut tail = vstd::slice::slice_to_vec(m);
        u.append(&mut tail);
        Some(u)
    } else {
        Some(vstd::slice::slice_to_vec(m))
    }
}

/// The origin bytes that scan matches resolve against: the configured
/// origin string with a trailing `/` removed, in its UTF-8 bytes.
pub open spec fn origin_of(base: Seq<char>) -> Seq<u8> {
    vstd::utf8::encode_utf8(strip_slash(base))
}

/// Resolving distributes over set union.
pub proof fn lemma_resolved_union(s1: Set<Seq<u8>>, s2: Set<Seq<u8>>, origin: Seq<u8>)
    ensures
        resolved_set(s1.union(s2), origin) =~= resolved_set(s1, origin).union(
            resolved_set(s2, origin),
        ),
{
    assert forall|u: Seq<u8>| resolved_set(s1.union(s2), origin).contains(u) implies resolved_set(
        s1,
        origin,
    ).union(resolved_set(s2, origin)).contains(u) by {
        let m = choose|m: Seq<u8>| #[trigger]
            s1.union(s2).contains(m) && resolves_url(m, origin, u);
        if s1.contains(m) {
            assert(resolved_set(s1, origin).contains(u));
        } else {
            assert(s2.contains(m));
            assert(resolved_set(s2, origin).contains(u));
        }
    }
    assert forall|u: Seq<u8>|
        resolved_set(s1, origin).union(resolved_set(s2, origin)).contains(
            u,
        ) implies resolved_set(s1.union(s2), origin).contains(u) by {
        if resolved_set(s1, origin).contains(u) {
            let m = choose|m: Seq<u8>| #[trigger] s1.contains(m) && resolves_url(m, origin, u);
            assert(s1.union(s2).contains(m));
        } else {
            let m = choose|m: Seq<u8>| #[trigger] s2.contains(m) && resolves_url(m, origin, u);
            assert(s1.union(s2).contains(m));
        }
    }
}

/// Nothing resolves out of no matches.
pub proof fn lemma_resolved_empty(origin: Seq<u8>)
    ensures
        resolved_set(Set::<Seq<u8>>::empty(), origin) =~= Set::<Seq<u8>>::empty(),
{
}

/// One more match adds its resolution, or nothing when the match is empty.
pub proof fn lemma_resolved_insert(s: Set<Seq<u8>>, m: Seq<u8>, origin: Seq<u8>)
    ensures
        m.len() == 0 ==> resolved_set(s.insert(m), origin) =~= resolved_set(s, origin),
        m.len() > 0 && m[0] == slash_byte() ==> resolved_set(s.insert(m), origin) =~= resolved_set(
            s,
            origin,
        ).insert(origin + m),
        m.len() > 0 && m[0] != slash_byte() ==> resolved_set(s.insert(m), origin) =~= resolved_set(
            s,
            origin,
        ).insert(m),
{
    assert forall|u: Seq<u8>| #[trigger]
        resolved_set(s.insert(m), origin).contains(u) implies (resolved_set(s, origin).contains(u)
        || resolves_url(m, origin, u)) by {
        let w = choose|w: Seq<u8>| #[trigger] s.insert(m).contains(w) && resolves_url(w, origin, u);
        if w != m {
            assert(s.contains(w));
            assert(resolved_set(s, origin).contains(u));
        }
    }
    assert forall|u: Seq<u8>| resolved_set(s, origin).contains(u) implies resolved_set(
        s.insert(m),
        origin,
    ).contains(u) by {
        let w = choose|w: Seq<u8>| #[trigger] s.contains(w) && resolves_url(w, origin, u);
        assert(s.insert(m).contains(w));
    }
    if m.len() > 0 {
        assert(s.insert(m).contains(m));
        if m[0] == slash_byte() {
            assert(resolves_url(m, origin, origin + m));
            assert(resolved_set(s.insert(m), origin).contains(origin + m));
        } else {
            assert(resolves_url(m, origin, m));
            assert(resolved_set(s.insert(m), origin).contains(m));
        }
    }
}

/// Resolves every match of one scan against the origin, keeping the ones
/// that name a URL, onto the end of `acc`.
pub fn resolve_all(ms: &Vec<Vec<u8>>, origin: &[u8], acc: &mut Vec<Vec<u8>>)
    ensures
        final(acc).deep_view().to_set() == old(acc).deep_view().to_set().union(
            resolved_set(ms.deep_view().to_set(), origin@),
        ),
{
    let mut k: usize = 0;
    proof {
        assert(ms.deep_view().take(0) =~= Seq::<Seq<u8>>::empty());
        lemma_resolved_empty(origin@);
        assert(acc.deep_view().to_set() =~= old(acc).deep_view().to_set().union(
            resolved_set(ms.deep_view().take(0).to_set(), origin@),
        ));
    }
    while k < ms.len()
        invariant
            k <= ms@.len(),
            ms@.len() == ms.deep_view().len(),
            acc.deep_view().to_set() == old(acc).deep_view().to_set().union(
                resolved_set(ms.deep_view().take(k as int).to_set(), origin@),
            ),
        decreases ms@.len() - k,
    {
        let m = vstd::slice::slice_index_get(ms.as_slice(), k);
        let ghost prefix = ms.deep_view().take(k as int);
        proof {
            crate::scanner::lemma_bytes_deep_view(ms@[k as int]);
            assert(ms.deep_view()[k as int] == ms@[k as int]@);
            assert(ms.deep_view().take(k + 1) =~= prefix.push(ms@[k as int]@));
            crate::scanner::lemma_to_set_push(prefix, ms@[k as int]@);
            lemma_resolved_insert(prefix.to_set(), ms@[k as int]@, origin@);
        }
        match resolve(m.as_slice(), origin) {
            Some(u) => {
                let ghost pre_acc = acc.deep_view();
                let ghost uu = u@;
                acc.push(u);
                proof {
                    broadcast use crate::scanner::lemma_bytes_deep_view;

                    assert(acc.deep_view() =~= pre_acc.push(uu));
                    crate::scanner::lemma_to_set_push(pre_acc, uu);
                    assert(acc.deep_view().to_set() =~= old(acc).deep_view().to_set().union(
                        resolved_set(ms.deep_view().take(k + 1).to_set(), origin@),
                    ));
                }
            },
            None => {
                proof {
                    assert(acc.deep_view().to_set() =~= old(acc).deep_view().to_set().union(
                        resolved_set(ms.deep_view().take(k + 1).to_set(), origin@),
                    ));
                }
            },
        }
        k = k + 1;
    }
    proof {
        assert(ms.deep_view().take(ms@.len() as int) =~= ms.deep_view());
    }
}

/// The string up to the first `?`, or all of it when there is none.
pub open spec fn strip_query(s: Seq<char>) -> Seq<char> {
    match find_char_spec(s, 0, '?') {
        Some(q) => s.take(q),
        None => s,
    }
}

/// The string after its last `/`, or all of it when there is none.
pub open spec fn last_segment(s: Seq<char>) -> Seq<char> {
    match rfind_char_spec(s, '/') {
        Some(p) => s.skip(p + 1),
        None => s,
    }
}

/// The string with every `%20` decoded to a space, scanning left to right.
pub open spec fn decode_spaces(s: Seq<char>) -> Seq<char>
    decreases s.len(),
{
    if s.len() == 0 {
        Seq::empty()
    } else if s.len() >= 3 && s[0] == '%' && s[1] == '2' && s[2] == '0' {
        seq![' '] + decode_spaces(s.skip(3))
    } else {
        seq![s[0]] + decode_spaces(s.skip(1))
    }
}

/// The local file name derived from an asset URL: its last path segment
/// without the query string, spaces decoded; the fallback name when the
/// segment is empty.
pub open spec fn local_name(u: Seq<char>) -> Seq<char> {
    if last_segment(strip_query(u)).len() == 0 {
        "tmp.bin"@
    } else {
        decode_spaces(last_segment(strip_query(u)))
    }
}

/// The position of the first `c` in `s` at or after `from`.
pub open spec fn find_char_spec(s: Seq<char>, from: int, c: char) -> Option<int>
    decreases s.len() - from + 1,
{
    if from < 0 || from >= s.len() {
        None
    } else if s[from] == c {
        Some(from)
    } else {
        find_char_spec(s, from + 1, c)
    }
}

/// The position of the last `c` in `s`.
pub open spec fn rfind_char_spec(s: Seq<char>, c: char) -> Option<int>
    decreases s.len(),
{
    if s.len() == 0 {
        None
    } else if s.last() == c {
        Some(s.len() - 1)
    } else {
        rfind_char_spec(s.drop_last(), c)
    }
}

/// The position of the first `c` in `s` at or after `from`.
fn find_char(s: &str, from: usize, c: char) -> (r: Option<usize>)
    ensures
        r matches Some(j) ==> find_char_spec(s@, from as int, c) == Some(j as int) && j < s@.len(),
        r is None ==> find_char_spec(s@, from as int, c) is None,
{
    let n = s.unicode_len();
    let mut i = from;
    while i < n
        invariant
            from <= i,
            n == s@.len(),
            find_char_spec(s@, from as int, c) == find_char_spec(s@, i as int, c),
        decreases n - i,
    {
        if s.get_char(i) == c {
            return Some(i);
        }
        proof {
            assert(find_char_spec(s@, i as int, c) == find_char_spec(s@, i + 1, c));
        }
        i = i + 1;
    }
    None
}

/// The position of the last `c` in `s`.
fn rfind_char(s: &str, c: char) -> (r: Option<usize>)
    ensures
        r matches Some(j) ==> rfind_char_spec(s@, c) == Some(j as int) && j < s@.len(),
        r is None ==> rfind_char_spec(s@, c) is None,
{
    let n = s.unicode_len();
    let mut k = n;
    proof {
        assert(s@.take(n as int) =~= s@);
    }
    while k > 0
        invariant
            k <= n,
            n == s@.len(),
            rfind_char_spec(s@, c) == rfind_char_spec(s@.take(k as int), c),
        decreases k,
    {
        let ch = s.get_char(k - 1);
        proof {
            assert(s@.take(k as int).last() == s@[k - 1]);
            assert(s@.take(k as int).drop_last() =~= s@.take(k - 1));
        }
        if ch == c {
            return Some(k - 1);
        }
        k = k - 1;
    }
    proof {
        assert(s@.take(0) =~= Seq::<char>::empty());
    }
    None
}

/// Derives the local file name for a downloaded asset from its URL.
pub fn derive_local_name(url: &str) -> (r: String)
    ensures
        r@ == local_name(url@),
{
    let n = url.unicode_len();
    let qpos = match find_char(url, 0, '?') {
        Some(q) => q,
        None => n,
    };
    let stripped = url.substring_char(0, qpos);
    proof {
        assert(url@.take(n as int) =~= url@);
        assert(stripped@ == strip_query(url@));
    }
    let seg = match rfind_char(stripped, '/') {
        Some(p) => stripped.substring_char(p + 1, stripped.unicode_len()),
        None => stripped,
    };
    proof {
        assert(stripped@.skip(0) =~= stripped@);
        assert(seg@ == last_segment(strip_query(url@)));
    }
    let m = seg.unicode_len();
    if m == 0 {
        return String::from_str("tmp.bin");
    }
    let mut acc = String::new();
    let mut i: usize = 0;
    proof {
        assert(seg@.skip(0) =~= seg@);
    }
    while i < m
        invariant
            i <= m,
            m == seg@.len(),
            acc@ + decode_spaces(seg@.skip(i as int)) =~= decode_spaces(seg@),
        decreases m - i,
    {
        let ghost suffix = seg@.skip(i as int);
        proof {
            assert(suffix[0] == seg@[i as int]);
        }
        let c = seg.get_char(i);
        if c == '%' && m - i > 2 && seg.get_char(i + 1) == '2' && seg.get_char(i + 2) == '0' {
            proof {
                assert(suffix.len() >= 3);
                assert(suffix[1] == seg@[i + 1]);
                assert(suffix[2] == seg@[i + 2]);
                assert(suffix.skip(3) =~= seg@.skip(i + 3));
            }
            crate::strutil::push_char(&mut acc, ' ');
            i = i + 3;
        } else {
            proof {
                if suffix.len() >= 3 {
                    assert(suffix[1] == seg@[i + 1]);
                    assert(suffix[2] == seg@[i + 2]);
                }
                assert(suffix.skip(1) =~= seg@.skip(i + 1));
            }
            crate::strutil::push_char(&mut acc, c);
            i = i + 1;
        }
    }
    proof {
        assert(seg@.skip(m as int) =~= Seq::<char>::empty());
        assert(acc@ =~= decode_spaces(seg@));
    }
    acc
}

/// The origin with a trailing `/` removed, so a root-relative match can be
/// appended without doubling the separator.
pub open spec fn strip_slash(s: Seq<char>) -> Seq<char> {
    if s.len() > 0 && s.last() == '/' {
        s.drop_last()
    } else {
        s
    }
}

/// Removes one trailing `/` from the origin, when there is one.
pub fn strip_trailing_slash(s: &str) -> (r: String)
    ensures
        r@ == strip_slash(s@),
{
    let n = s.unicode_len();
    if n > 0 && s.get_char(n - 1) == '/' {
        let r = s.substring_char(0, n - 1).to_owned();
        proof {
            assert(r@ =~= s@.drop_last());
        }
        r
    } else {
        s.to_owned()
    }
}

} // verus!
