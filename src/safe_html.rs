//! Brace escaping for rendered HTML that a template engine will read.
use vstd::prelude::*;

use crate::text::{chars_of, push_char, push_str};

verus! {

/// `{` and `}` as HTML entities, other characters as they are.
pub open spec fn brace_escape_char(c: char) -> Seq<char> {
    if c == '{' {
        "&lbrace;"@
    } else if c == '}' {
        "&rbrace;"@
    } else {
        seq![c]
    }
}

/// A text with its braces written as HTML entities.
pub open spec fn braces_escaped(s: Seq<char>) -> Seq<char>
    decreases s.len(),
{
    if s.len() == 0 {
        Seq::empty()
    } else {
        braces_escaped(s.drop_last()) + brace_escape_char(s.last())
    }
}

/// Writes `{` and `}` as `&lbrace;` and `&rbrace;`, so that template engines
/// leave code alone.
pub fn escape_braces(text: &str) -> (r: String)
    ensures
        r@ == braces_escaped(text@),
{
    let v = chars_of(text);
    let mut out = String::new();
    let mut i: usize = 0;
    assert(v@.subrange(0, 0) =~= Seq::<char>::empty());
    while i < v.len()
        invariant
            i <= v.len(),
            v@ == text@,
            out@ == braces_escaped(v@.subrange(0, i as int)),
        decreases v.len() - i,
    {
        let c = v[i];
        let ghost prev = out@;
        if c == '{' {
            push_str(&mut out, "&lbrace;");
        } else if c == '}' {
            push_str(&mut out, "&rbrace;");
        } else {
            push_char(&mut out, c);
            assert(out@ =~= prev + seq![c]);
        }
        assert(v@.subrange(0, i + 1).drop_last() =~= v@.subrange(0, i as int));
        i += 1;
    }
    assert(v@.subrange(0, i as int) =~= v@);
    out
}

pub open spec fn escaped_lbrace() -> Seq<char> {
    "&amp;lbrace;"@
}

pub open spec fn escaped_rbrace() -> Seq<char> {
    "&amp;rbrace;"@
}

/// A text with every `&amp;lbrace;` and `&amp;rbrace;` (a brace entity escaped a
/// second time) turned back into `&lbrace;` and `&rbrace;`, left to right.
pub open spec fn braces_restored(s: Seq<char>) -> Seq<char>
    decreases s.len(),
{
    if s.len() == 0 {
        Seq::empty()
    } else if s.len() >= 12 && s.subrange(0, 12) == escaped_lbrace() {
        "&lbrace;"@ + braces_restored(s.subrange(12, s.len() as int))
    } else if s.len() >= 12 && s.subrange(0, 12) == escaped_rbrace() {
        "&rbrace;"@ + braces_restored(s.subrange(12, s.len() as int))
    } else {
        seq![s[0]] + braces_restored(s.drop_first())
    }
}

/// Whether `p` stands in `v` at `i`.
fn occurs_at(v: &Vec<char>, i: usize, p: &Vec<char>) -> (r: bool)
    requires
        i <= v.len(),
    ensures
        r == (i + p.len() <= v.len() && v@.subrange(i as int, i + p.len()) == p@),
{
    if p.len() > v.len() - i {
        return false;
    }
    let mut k: usize = 0;
    while k < p.len()
        invariant
            k <= p.len(),
            i + p.len() <= v.len(),
            forall|j: int| 0 <= j < k ==> v@[i + j] == p@[j],
        decreases p.len() - k,
    {
        if v[i + k] != p[k] {
            assert(v@.subrange(i as int, i + p.len())[k as int] != p@[k as int]);
            return false;
        }
        k += 1;
    }
    assert(v@.subrange(i as int, i + p.len()) =~= p@);
    true
}

/// Turns brace entities that were escaped a second time back into entities.
pub fn restore_escaped_braces(html: &str) -> (r: String)
    ensures
        r@ == braces_restored(html@),
{
    proof {
        reveal_strlit("&amp;lbrace;");
        reveal_strlit("&amp;rbrace;");
    }
    let v = chars_of(html);
    let lb = chars_of("&amp;lbrace;");
    let rb = chars_of("&amp;rbrace;");
    let mut out = String::new();
    let mut i: usize = 0;
    assert(v@.subrange(0, v@.len() as int) =~= v@);
    while i < v.len()
        invariant
            i <= v.len(),
            v@ == html@,
            lb@ == escaped_lbrace(),
            rb@ == escaped_rbrace(),
            lb@.len() == 12,
            rb@.len() == 12,
            out@ + braces_restored(v@.subrange(i as int, v@.len() as int)) == braces_restored(v@),
        decreases v.len() - i,
    {
        let ghost rest = v@.subrange(i as int, v@.len() as int);
        let ghost prev = out@;
        if occurs_at(&v, i, &lb) {
            assert(rest.subrange(0, 12) =~= v@.subrange(i as int, i + 12));
            assert(rest.subrange(12, rest.len() as int) =~= v@.subrange(i + 12, v@.len() as int));
            push_str(&mut out, "&lbrace;");
            i += 12;
            assert(prev + ("&lbrace;"@ + braces_restored(v@.subrange(i as int, v@.len() as int))) =~= out@ + braces_restored(v@.subrange(i as int, v@.len() as int)));
        } else if occurs_at(&v, i, &rb) {
            assert(rest.len() >= 12 ==> rest.subrange(0, 12) =~= v@.subrange(i as int, i + 12));
            assert(rest.subrange(12, rest.len() as int) =~= v@.subrange(i + 12, v@.len() as int));
            push_str(&mut out, "&rbrace;");
            i += 12;
            assert(prev + ("&rbrace;"@ + braces_restored(v@.subrange(i as int, v@.len() as int))) =~= out@ + braces_restored(v@.subrange(i as int, v@.len() as int)));
        } else {
            assert(rest.len() >= 12 ==> rest.subrange(0, 12) =~= v@.subrange(i as int, i + 12));
            assert(rest.drop_first() =~= v@.subrange(i + 1, v@.len() as int));
            push_char(&mut out, v[i]);
            i += 1;
            assert(prev + (seq![v@[i - 1]] + braces_restored(v@.subrange(i as int, v@.len() as int))) =~= out@ + braces_restored(v@.subrange(i as int, v@.len() as int)));
        }
    }
    assert(v@.subrange(i as int, v@.len() as int) =~= Seq::<char>::empty());
    assert(out@ + Seq::<char>::empty() =~= out@);
    out
}

} // verus!
