//! String joining and line tokenization.
//!
//! Configuration and target files are line oriented: a line is split at
//! separator characters into segments (spaces dropped), and segments are
//! joined back into paths and URLs, with or without a trailing separator.

use vstd::prelude::*;

verus! {

/// The concatenation of all the sequences in `ss`, in order.
pub open spec fn concat_all(ss: Seq<Seq<char>>) -> Seq<char>
    decreases ss.len(),
{
    if ss.len() == 0 {
        Seq::empty()
    } else {
        ss[0] + concat_all(ss.drop_first())
    }
}

/// The concatenation of all the sequences in `ss`, each followed by `sep`.
pub open spec fn concat_sep(ss: Seq<Seq<char>>, sep: Seq<char>) -> Seq<char>
    decreases ss.len(),
{
    if ss.len() == 0 {
        Seq::empty()
    } else {
        ss[0] + sep + concat_sep(ss.drop_first(), sep)
    }
}

/// Relies on `String::push`: appends one character at the end of the string.
#[verifier::external_body]
pub fn push_char(s: &mut String, c: char)
    ensures
        final(s)@ == old(s)@.push(c),
{
    s.push(c)
}

/// Relies on `str`'s `==`: two string slices are equal exactly when their
/// character sequences are equal.
#[verifier::external_body]
pub fn str_eq(a: &str, b: &str) -> (r: bool)
    ensures
        r == (a@ == b@),
{
    a == b
}

/// All elements of `data` but the first; an empty slice is handed back as is.
pub fn rest<T>(data: &[T]) -> (r: &[T])
    ensures
        data@.len() == 0 ==> r@ == data@,
        data@.len() > 0 ==> r@ == data@.drop_first(),
{
    if data.len() == 0 {
        data
    } else {
        let r = vstd::slice::slice_subrange(data, 1, data.len());
        proof {
            assert(r@ =~= data@.drop_first());
        }
        r
    }
}

/// `acc` followed by every segment of `s`, with nothing in between.
pub fn join(s: &[String], acc: String) -> (r: String)
    ensures
        r@ == acc@ + concat_all(s.deep_view()),
    decreases s@.len(),
{
    if s.len() == 0 {
        proof {
            assert(acc@ + concat_all(s.deep_view()) =~= acc@);
        }
        acc
    } else {
        let first = vstd::slice::slice_index_get(s, 0);
        let acc2 = acc.concat(first.as_str());
        let tail = rest(s);
        proof {
            assert(tail.deep_view() =~= s.deep_view().drop_first());
        }
        let r = join(tail, acc2);
        proof {
            assert((acc@ + first@) + concat_all(s.deep_view().drop_first()) =~= acc@
                + concat_all(s.deep_view()));
        }
        r
    }
}

/// `acc` followed by every segment of `s`, each segment followed by `sep`.
pub fn join_by(s: &[String], acc: String, sep: &str) -> (r: String)
    ensures
        r@ == acc@ + concat_sep(s.deep_view(), sep@),
    decreases s@.len(),
{
    if s.len() > 0 {
        let first = vstd::slice::slice_index_get(s, 0);
        let acc2 = acc.concat(first.as_str()).concat(sep);
        let tail = rest(s);
        proof {
            assert(tail.deep_view() =~= s.deep_view().drop_first());
        }
        let r = join_by(tail, acc2, sep);
        proof {
            assert(((acc@ + first@) + sep@) + concat_sep(s.deep_view().drop_first(), sep@)
                =~= acc@ + concat_sep(s.deep_view(), sep@));
        }
        r
    } else {
        proof {
            assert(acc@ + concat_sep(s.deep_view(), sep@) =~= acc@);
        }
        join(s, acc)
    }
}

/// The concatenation of all the sequences in `ss` with `sep` between each
/// pair, and nothing at the end.
pub open spec fn concat_join(ss: Seq<Seq<char>>, sep: Seq<char>) -> Seq<char>
    decreases ss.len(),
{
    if ss.len() == 0 {
        Seq::empty()
    } else if ss.len() == 1 {
        ss[0]
    } else {
        ss[0] + sep + concat_join(ss.drop_first(), sep)
    }
}

/// Every segment of `s` joined by `sep`, with no trailing separator.
pub fn join_with(s: &[String], sep: &str) -> (r: String)
    ensures
        r@ == concat_join(s.deep_view(), sep@),
    decreases s@.len(),
{
    if s.len() == 0 {
        String::new()
    } else {
        let first = vstd::slice::slice_index_get(s, 0).clone();
        if s.len() == 1 {
            first
        } else {
            let tail = rest(s);
            proof {
                assert(tail.deep_view() =~= s.deep_view().drop_first());
            }
            let r = first.concat(sep).concat(join_with(tail, sep).as_str());
            proof {
                assert(r@ =~= s.deep_view()[0] + sep@ + concat_join(
                    s.deep_view().drop_first(),
                    sep@,
                ));
            }
            r
        }
    }
}

/// The segments of `s` split at the characters of `seps`, spaces dropped,
/// starting from a partial segment `cur`.  A separator ends the current
/// segment, and the segment reaching the end of the line is kept too, so an
/// empty line still yields one empty segment.
pub open spec fn tokenize(s: Seq<char>, seps: Seq<char>, cur: Seq<char>) -> Seq<Seq<char>>
    decreases s.len(),
{
    if s.len() == 0 {
        seq![cur]
    } else if seps.contains(s[0]) {
        seq![cur] + tokenize(s.drop_first(), seps, Seq::empty())
    } else if s[0] == ' ' {
        tokenize(s.drop_first(), seps, cur)
    } else {
        tokenize(s.drop_first(), seps, cur.push(s[0]))
    }
}

/// A segment split off at the separators never holds a separator itself,
/// as long as the partial segment brought in holds none.
pub proof fn lemma_tokenize_no_sep(s: Seq<char>, seps: Seq<char>, cur: Seq<char>)
    requires
        forall|c: char| seps.contains(c) ==> !cur.contains(c),
    ensures
        forall|k: int, c: char|
            0 <= k < tokenize(s, seps, cur).len() && seps.contains(c) ==> !(#[trigger] tokenize(
                s,
                seps,
                cur,
            )[k].contains(c)),
    decreases s.len(),
{
    if s.len() == 0 {
    } else if seps.contains(s[0]) {
        lemma_tokenize_no_sep(s.drop_first(), seps, Seq::empty());
        assert forall|k: int, c: char|
            0 <= k < tokenize(s, seps, cur).len() && seps.contains(c) implies !(#[trigger] tokenize(
            s,
            seps,
            cur,
        )[k].contains(c)) by {
            if k == 0 {
                assert(tokenize(s, seps, cur)[0] == cur);
            } else {
                assert(tokenize(s, seps, cur)[k] == tokenize(s.drop_first(), seps, Seq::empty())[k
                    - 1]);
            }
        }
    } else if s[0] == ' ' {
        lemma_tokenize_no_sep(s.drop_first(), seps, cur);
        assert forall|k: int, c: char|
            0 <= k < tokenize(s, seps, cur).len() && seps.contains(c) implies !(#[trigger] tokenize(
            s,
            seps,
            cur,
        )[k].contains(c)) by {
            assert(!tokenize(s.drop_first(), seps, cur)[k].contains(c));
        }
    } else {
        assert forall|c: char| seps.contains(c) implies !cur.push(s[0]).contains(c) by {
            if cur.push(s[0]).contains(c) {
                let i = choose|i: int| 0 <= i < cur.push(s[0]).len() && cur.push(s[0])[i] == c;
                if i < cur.len() {
                    assert(cur[i] == c);
                }
            }
        }
        lemma_tokenize_no_sep(s.drop_first(), seps, cur.push(s[0]));
        assert forall|k: int, c: char|
            0 <= k < tokenize(s, seps, cur).len() && seps.contains(c) implies !(#[trigger] tokenize(
            s,
            seps,
            cur,
        )[k].contains(c)) by {
            assert(!tokenize(s.drop_first(), seps, cur.push(s[0]))[k].contains(c));
        }
    }
}

/// Splits one line at the given separator characters, dropping spaces.
pub fn split_line(line: &str, seps: &Vec<char>) -> (r: Vec<String>)
    ensures
        r.deep_view() == tokenize(line@, seps@, Seq::empty()),
        r@.len() >= 1,
{
    let n = line.unicode_len();
    let mut tot: Vec<String> = Vec::new();
    let mut cur: String = String::new();
    let mut i: usize = 0;
    proof {
        assert(line@.skip(0) =~= line@);
        assert(tot.deep_view() =~= Seq::<Seq<char>>::empty());
    }
    while i < n
        invariant
            i <= n,
            n == line@.len(),
            tokenize(line@, seps@, Seq::empty()) =~= tot.deep_view() + tokenize(
                line@.skip(i as int),
                seps@,
                cur@,
            ),
        decreases n - i,
    {
        let c = line.get_char(i);
        let ghost pre_tot = tot.deep_view();
        let ghost pre_cur = cur@;
        proof {
            assert(line@.skip(i as int)[0] == line@[i as int]);
            assert(line@.skip(i as int).drop_first() =~= line@.skip(i + 1));
        }
        if contains_char(seps, c) {
            tot.push(cur);
            cur = String::new();
            proof {
                assert(tot.deep_view() =~= pre_tot.push(pre_cur));
                assert(pre_tot.push(pre_cur) + tokenize(line@.skip(i + 1), seps@, Seq::empty())
                    =~= pre_tot + (seq![pre_cur] + tokenize(
                    line@.skip(i + 1),
                    seps@,
                    Seq::empty(),
                )));
            }
        } else if c == ' ' {
        } else {
            push_char(&mut cur, c);
        }
        i = i + 1;
    }
    proof {
        assert(line@.skip(n as int) =~= Seq::<char>::empty());
    }
    let ghost pre_tot = tot.deep_view();
    let ghost pre_cur = cur@;
    tot.push(cur);
    proof {
        assert(tot.deep_view() =~= pre_tot.push(pre_cur));
        assert(pre_tot.push(pre_cur) =~= pre_tot + seq![pre_cur]);
        assert(tot.deep_view() =~= tokenize(line@, seps@, Seq::empty()));
    }
    tot
}

/// Whether `c` occurs in `seps`.
pub fn contains_char(seps: &Vec<char>, c: char) -> (r: bool)
    ensures
        r == seps@.contains(c),
{
    let mut i: usize = 0;
    while i < seps.len()
        invariant
            i <= seps@.len(),
            forall|j: int| 0 <= j < i ==> seps@[j] != c,
        decreases seps@.len() - i,
    {
        if seps[i] == c {
            return true;
        }
        i = i + 1;
    }
    false
}

} // verus!
