//! Plain-text helpers: substring search and newline joining.
//!
//! The pipeline rules are defined over marker substrings of captured
//! process output, and the full-submission flow concatenates the user's
//! code with the hidden snippets of a challenge; both operations are
//! implemented and specified here.

use vstd::prelude::*;
use vstd::string::*;

verus! {

/// `p` occurs in `t` starting at index `i`.
pub open spec fn matches_at(t: Seq<char>, p: Seq<char>, i: int) -> bool {
    0 <= i && i + p.len() <= t.len() && t.subrange(i, i + p.len() as int) == p
}

/// `p` occurs somewhere in `t`.
pub open spec fn has_substring(t: Seq<char>, p: Seq<char>) -> bool {
    exists|i: int| matches_at(t, p, i)
}

/// Relies on String::push: appends exactly the given character.
#[verifier::external_body]
pub(crate) fn push_char(s: &mut String, c: char)
    ensures
        final(s)@ == old(s)@.push(c),
{
    s.push(c);
}

/// The characters of `s`, in order.
pub fn chars_of(s: &str) -> (r: Vec<char>)
    ensures
        r@ == s@,
{
    let n = s.unicode_len();
    let mut v: Vec<char> = Vec::new();
    let mut i: usize = 0;
    while i < n
        invariant
            n == s@.len(),
            i <= n,
            v@ =~= s@.take(i as int),
        decreases n - i,
    {
        v.push(s.get_char(i));
        i = i + 1;
    }
    proof {
        assert(v@ =~= s@);
    }
    v
}

/// Naive substring search, the executable form of [`has_substring`].
pub fn contains_substring(text: &str, pat: &str) -> (r: bool)
    ensures
        r == has_substring(text@, pat@),
{
    let t = chars_of(text);
    let p = chars_of(pat);
    let tn = t.len();
    let pn = p.len();
    if pn > tn {
        proof {
            assert(forall|i: int| !matches_at(text@, pat@, i));
        }
        return false;
    }
    let mut i: usize = 0;
    while i <= tn - pn
        invariant
            pn <= tn,
            tn == t@.len(),
            pn == p@.len(),
            t@ == text@,
            p@ == pat@,
            i <= tn - pn + 1,
            forall|k: int| 0 <= k < i ==> !matches_at(text@, pat@, k),
        decreases tn - pn - i + 1,
    {
        let mut j: usize = 0;
        while j < pn && t[i + j] == p[j]
            invariant
                pn <= tn,
                i + pn <= tn,
                tn == t@.len(),
                pn == p@.len(),
                t@ == text@,
                p@ == pat@,
                j <= pn,
                forall|m: int| 0 <= m < j ==> t@[i + m] == p@[m],
            decreases pn - j,
        {
            j = j + 1;
        }
        if j == pn {
            proof {
                assert(text@.subrange(i as int, i + pn as int) =~= pat@);
                assert(matches_at(text@, pat@, i as int));
            }
            return true;
        }
        proof {
            assert(!matches_at(text@, pat@, i as int)) by {
                if matches_at(text@, pat@, i as int) {
                    assert(text@.subrange(i as int, i + pn as int)[j as int] == pat@[j as int]);
                }
            }
        }
        i = i + 1;
    }
    proof {
        assert(forall|k: int| !matches_at(text@, pat@, k)) by {
            assert(forall|k: int| k > tn - pn ==> !matches_at(text@, pat@, k));
        }
    }
    false
}

/// The elements of `xs` joined with single newline separators.
pub open spec fn join_nl(xs: Seq<Seq<char>>) -> Seq<char>
    decreases xs.len(),
{
    if xs.len() == 0 {
        Seq::empty()
    } else if xs.len() == 1 {
        xs[0]
    } else {
        join_nl(xs.drop_last()) + seq!['\n'] + xs.last()
    }
}

/// The source text the full-submission flow materializes: the submitted
/// code, a newline, then the hidden snippets in catalog order joined by
/// newlines.
pub open spec fn combined_source(code: Seq<char>, snippets: Seq<Seq<char>>) -> Seq<char> {
    code + seq!['\n'] + join_nl(snippets)
}

/// Concatenates submitted code with the hidden snippets of a challenge.
pub fn combine_source(code: &str, snippets: &Vec<String>) -> (r: String)
    ensures
        r@ == combined_source(code@, snippets.deep_view()),
{
    let ghost model = snippets.deep_view();
    let mut r = String::new();
    r.append(code);
    push_char(&mut r, '\n');
    let mut i: usize = 0;
    while i < snippets.len()
        invariant
            model == snippets.deep_view(),
            model.len() == snippets@.len(),
            i <= snippets@.len(),
            r@ == code@ + seq!['\n'] + join_nl(model.take(i as int)),
        decreases snippets@.len() - i,
    {
        if i > 0 {
            push_char(&mut r, '\n');
        }
        r.append(snippets[i].as_str());
        proof {
            assert(model[i as int] == snippets@[i as int].deep_view());
            assert(model.take(i + 1).drop_last() =~= model.take(i as int));
            assert(model.take(i + 1).last() == model[i as int]);
            if i == 0 {
                assert(join_nl(model.take(1)) == model[0]);
                assert(r@ =~= code@ + seq!['\n'] + join_nl(model.take(1)));
            } else {
                assert(join_nl(model.take(i + 1)) == join_nl(model.take(i as int)) + seq!['\n']
                    + model[i as int]);
                assert(r@ =~= code@ + seq!['\n'] + join_nl(model.take(i + 1)));
            }
        }
        i = i + 1;
    }
    proof {
        assert(model.take(snippets@.len() as int) =~= model);
    }
    r
}

} // verus!
