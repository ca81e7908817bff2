//! Targets: the pages one run archives.
//!
//! A target is one page, named by a base segment and an ordered extension
//! path.  Its URL joins the segments with `/`; its store name joins the
//! extension segments with `-` and adds a `.txt` suffix.  The run's targets
//! form a queue drained from the back of the target list.

use crate::strutil::concat_join;
use crate::strutil::tokenize;
use vstd::prelude::*;

verus! {

/// One page to archive: a base segment and its slash-joined extension
/// path.
pub struct Target {
    pub base: String,
    pub extension: String,
}

/// The extension string with every `/` replaced by `-`.
pub open spec fn dash_map(s: Seq<char>) -> Seq<char> {
    Seq::new(
        s.len(),
        |i: int|
            if s[i] == '/' {
                '-'
            } else {
                s[i]
            },
    )
}

impl Target {
    /// A target from the segments of one target-list line: the first
    /// segment is the base, the rest join with `/` into the extension.
    pub fn build(t: &[String]) -> (r: Target)
        ensures
            t@.len() == 0 ==> r.base@ == Seq::<char>::empty() && r.extension@ == Seq::<
                char,
            >::empty(),
            t@.len() > 0 ==> r.base@ == t.deep_view()[0] && r.extension@ == concat_join(
                t.deep_view().drop_first(),
                "/"@,
            ),
    {
        if t.len() == 0 {
            Target { base: String::new(), extension: String::new() }
        } else {
            let base = vstd::slice::slice_index_get(t, 0).clone();
            let tail = crate::strutil::rest(t);
            proof {
                assert(tail.deep_view() =~= t.deep_view().drop_first());
            }
            let extension = crate::strutil::join_with(tail, "/");
            proof {
                assert(extension@ =~= concat_join(t.deep_view().drop_first(), "/"@));
            }
            Target { base, extension }
        }
    }

    /// The base segment followed by `/`.
    pub fn to_path(&self) -> (r: String)
        ensures
            r@ == self.base@ + "/"@,
    {
        self.base.clone().concat("/")
    }

    /// The target's URL path: base, `/`, and the extension.
    pub fn to_url(&self) -> (r: String)
        ensures
            r@ == self.base@ + "/"@ + self.extension@,
    {
        self.to_path().concat(self.extension.as_str())
    }

    /// The target's store file name: the extension with `/` turned into
    /// `-`, then `.txt`.
    pub fn to_store(&self) -> (r: String)
        ensures
            r@ == dash_map(self.extension@) + ".txt"@,
    {
        let n = self.extension.as_str().unicode_len();
        let mut acc = String::new();
        let mut i: usize = 0;
        while i < n
            invariant
                i <= n,
                n == self.extension@.len(),
                acc@ =~= dash_map(self.extension@).take(i as int),
            decreases n - i,
        {
            let c = self.extension.as_str().get_char(i);
            if c == '/' {
                crate::strutil::push_char(&mut acc, '-');
            } else {
                crate::strutil::push_char(&mut acc, c);
            }
            proof {
                assert(acc@ =~= dash_map(self.extension@).take(i + 1));
            }
            i = i + 1;
        }
        proof {
            assert(dash_map(self.extension@).take(n as int) =~= dash_map(self.extension@));
        }
        acc.concat(".txt")
    }

}

/// Replacing `/` by `-` distributes over concatenation.
proof fn lemma_dash_map_add(a: Seq<char>, b: Seq<char>)
    ensures
        dash_map(a + b) == dash_map(a) + dash_map(b),
{
    assert forall|i: int| 0 <= i < a.len() + b.len() implies dash_map(a + b)[i] == (dash_map(a)
        + dash_map(b))[i] by {
        if i < a.len() {
            assert((a + b)[i] == a[i]);
        } else {
            assert((a + b)[i] == b[i - a.len()]);
        }
    }
    assert(dash_map(a + b) =~= dash_map(a) + dash_map(b));
}

/// The store name's formula: joining segments with `/` and then turning
/// every `/` into `-` is the same as joining them with `-` outright, as
/// long as no segment holds a `/` itself — and a segment split at `/`
/// never does.
pub proof fn lemma_store_name(segs: Seq<Seq<char>>)
    requires
        forall|i: int| 0 <= i < segs.len() ==> !(#[trigger] segs[i]).contains('/'),
    ensures
        dash_map(concat_join(segs, "/"@)) == concat_join(segs, "-"@),
    decreases segs.len(),
{
    reveal_strlit("/");
    reveal_strlit("-");
    if segs.len() == 0 {
        assert(dash_map(concat_join(segs, "/"@)) =~= concat_join(segs, "-"@));
    } else if segs.len() == 1 {
        assert(dash_map(segs[0]) =~= segs[0]);
    } else {
        lemma_store_name(segs.drop_first());
        lemma_dash_map_add(segs[0], "/"@ + concat_join(segs.drop_first(), "/"@));
        lemma_dash_map_add("/"@, concat_join(segs.drop_first(), "/"@));
        assert(dash_map(segs[0]) =~= segs[0]);
        assert(dash_map("/"@) =~= "-"@);
        assert(segs[0] + "/"@ + concat_join(segs.drop_first(), "/"@) =~= segs[0] + ("/"@
            + concat_join(segs.drop_first(), "/"@)));
        assert(dash_map(concat_join(segs, "/"@)) =~= concat_join(segs, "-"@));
    }
}

/// The queue of targets still to archive within one run.
pub struct Targets {
    pub targets: Vec<Target>,
}

impl Targets {
    /// The queue over the prepared target list; a missing list leaves the
    /// queue empty.
    pub fn build(prepped: Option<Vec<Target>>) -> (r: Targets)
        ensures
            prepped matches Some(p) ==> r.targets == p,
            prepped is None ==> r.targets@ =~= Seq::<Target>::empty(),
    {
        Targets {
            targets: match prepped {
                Some(p) => p,
                None => Vec::new(),
            },
        }
    }

    /// Takes the next target from the back of the queue.
    pub fn pop(&mut self) -> (r: Option<Target>)
        ensures
            old(self).targets@.len() > 0 ==> r == Some(old(self).targets@.last())
                && final(self).targets@ == old(self).targets@.drop_last(),
            old(self).targets@.len() == 0 ==> r is None
                && final(self).targets@ == old(self).targets@,
    {
        let r = self.targets.pop();
        proof {
            if old(self).targets@.len() > 0 {
                assert(self.targets@ =~= old(self).targets@.drop_last());
            }
        }
        r
    }

    /// The separator character of a target-list line.
    pub fn target_separators() -> (r: Vec<char>)
        ensures
            r@ =~= seq!['/'],
    {
        let mut v: Vec<char> = Vec::new();
        v.push('/');
        v
    }

    /// A target from every target-list line: each line is tokenized at `/`
    /// and built into a target.
    pub fn prep_targets(lines: &Vec<String>) -> (r: Vec<Target>)
        ensures
            r@.len() == lines@.len(),
            forall|j: int|
                0 <= j < lines@.len() ==> (#[trigger] r@[j]).base@ == tokenize(
                    lines@[j]@,
                    seq!['/'],
                    Seq::empty(),
                )[0] && r@[j].extension@ == concat_join(
                    tokenize(lines@[j]@, seq!['/'], Seq::empty()).drop_first(),
                    "/"@,
                ),
    {
        let seps = Targets::target_separators();
        let mut r: Vec<Target> = Vec::new();
        let mut i: usize = 0;
        while i < lines.len()
            invariant
                i <= lines@.len(),
                seps@ =~= seq!['/'],
                r@.len() == i,
                forall|j: int|
                    0 <= j < i ==> (#[trigger] r@[j]).base@ == tokenize(
                        lines@[j]@,
                        seq!['/'],
                        Seq::empty(),
                    )[0] && r@[j].extension@ == concat_join(
                        tokenize(lines@[j]@, seq!['/'], Seq::empty()).drop_first(),
                        "/"@,
                    ),
            decreases lines@.len() - i,
        {
            let line = vstd::slice::slice_index_get(lines.as_slice(), i);
            let toks = crate::strutil::split_line(line.as_str(), &seps);
            let tok_slice = toks.as_slice();
            proof {
                assert(tok_slice.deep_view() =~= toks.deep_view());
                assert(toks.deep_view().len() > 0);
            }
            r.push(Target::build(tok_slice));
            i = i + 1;
        }
        r
    }
}

} // verus!
