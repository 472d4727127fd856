//! Line-range lists such as `"1,3-5"`: the numbers they name, in order.
use vstd::prelude::*;

use crate::config::ExLineSpec;
use crate::render::{decimal, digit_char, push_decimal};
use crate::text::{
    all_digits, chars_of, digits_value, first_index, find_char, is_digit, lemma_split_on_nonempty,
    parse_usize, parse_usize_range, push_char, split_on, trim, trim_range,
};

verus! {

/// `a, a + 1, ..., b`; empty when `a > b`.
pub open spec fn range_seq(a: usize, b: usize) -> Seq<usize> {
    Seq::new(if a <= b { (b - a + 1) as nat } else { 0 }, |j: int| (a + j) as usize)
}

/// The lines `a-b` names, where `t` holds the `-` at `k`; blanks are allowed
/// around each number.
pub open spec fn dash_lines(t: Seq<char>, k: int) -> Seq<usize> {
    match (
        parse_usize(trim(t.subrange(0, k))),
        parse_usize(trim(t.subrange(k + 1, t.len() as int))),
    ) {
        (Some(a), Some(b)) => range_seq(a, b),
        _ => Seq::empty(),
    }
}

/// The line a lone number names.
pub open spec fn single_lines(t: Seq<char>) -> Seq<usize> {
    match parse_usize(t) {
        Some(n) => seq![n],
        None => Seq::empty(),
    }
}

/// The lines one comma-separated part names: `n`, `a-b`, or nothing when the
/// part is malformed.
pub open spec fn part_lines(p: Seq<char>) -> Seq<usize> {
    match first_index(trim(p), '-') {
        Some(k) => dash_lines(trim(p), k),
        None => single_lines(trim(p)),
    }
}

/// The lines each part names, one part after the other.
pub open spec fn lines_of_parts(parts: Seq<Seq<char>>) -> Seq<usize>
    decreases parts.len(),
{
    if parts.len() == 0 {
        Seq::empty()
    } else {
        lines_of_parts(parts.drop_last()) + part_lines(parts.last())
    }
}

/// The lines a line-range list names.
pub open spec fn lines_of_spec(s: Seq<char>) -> Seq<usize> {
    lines_of_parts(split_on(s, ','))
}

/// The lines one specification names.
pub open spec fn line_spec_lines(l: ExLineSpec) -> Seq<usize> {
    match l {
        ExLineSpec::Single(n) => seq![n],
        ExLineSpec::Range { start, end } => range_seq(start, end),
    }
}

/// The lines a list of specifications names, one after the other.
pub open spec fn lines_of_line_specs(ls: Seq<ExLineSpec>) -> Seq<usize>
    decreases ls.len(),
{
    if ls.len() == 0 {
        Seq::empty()
    } else {
        lines_of_line_specs(ls.drop_last()) + line_spec_lines(ls.last())
    }
}

/// Appends `a, a + 1, ..., b` to `out`.
fn push_range(out: &mut Vec<usize>, a: usize, b: usize)
    ensures
        final(out)@ == old(out)@ + range_seq(a, b),
{
    if a > b {
        assert(range_seq(a, b) =~= Seq::<usize>::empty());
        assert(out@ + range_seq(a, b) =~= out@);
        return;
    }
    let ghost base = out@;
    let mut x = a;
    out.push(x);
    while x < b
        invariant
            a <= x <= b,
            out@ =~= base + range_seq(a, x),
        decreases b - x,
    {
        x += 1;
        out.push(x);
    }
    assert(range_seq(a, x) =~= range_seq(a, b));
}

/// The lines that `[a, b)` of `v`, holding a `-` at `k`, names.
fn dash_lines_range(v: &Vec<char>, a: usize, k: usize, b: usize, out: &mut Vec<usize>)
    requires
        a <= k < b <= v.len(),
    ensures
        final(out)@ == old(out)@ + dash_lines(v@.subrange(a as int, b as int), k - a),
{
    let ghost t = v@.subrange(a as int, b as int);
    let ghost kk = (k - a) as int;
    assert(t.subrange(0, kk) =~= v@.subrange(a as int, k as int));
    assert(t.subrange(kk + 1, t.len() as int) =~= v@.subrange(k + 1, b as int));
    let (a1, b1) = trim_range(v, a, k);
    let (a2, b2) = trim_range(v, k + 1, b);
    let first = parse_usize_range(v, a1, b1);
    let second = parse_usize_range(v, a2, b2);
    match (first, second) {
        (Some(x), Some(y)) => push_range(out, x, y),
        _ => {
            assert(out@ + dash_lines(t, kk) =~= out@);
        },
    }
}

/// The lines that `[lo, hi)` of `v`, one part of a list, names.
fn part_lines_range(v: &Vec<char>, lo: usize, hi: usize, out: &mut Vec<usize>)
    requires
        lo <= hi <= v.len(),
    ensures
        final(out)@ == old(out)@ + part_lines(v@.subrange(lo as int, hi as int)),
{
    let ghost p = v@.subrange(lo as int, hi as int);
    let (a, b) = trim_range(v, lo, hi);
    let ghost t = v@.subrange(a as int, b as int);
    assert(t == trim(p));
    match find_char(v, a, b, '-') {
        Some(k) => {
            assert(first_index(t, '-') == Some((k - a) as int));
            dash_lines_range(v, a, k, b, out);
        },
        None => {
            assert(first_index(t, '-') is None);
            match parse_usize_range(v, a, b) {
                Some(n) => {
                    let ghost before = out@;
                    out.push(n);
                    assert(out@ =~= before + single_lines(v@.subrange(a as int, b as int)));
                },
                None => {
                    assert(out@ + single_lines(v@.subrange(a as int, b as int)) =~= out@);
                },
            }
        },
    }
}

/// Every line number a list such as `"1,3-5,9"` names, ranges expanded with both
/// ends included. Malformed parts (not a number, a reversed range) are skipped.
pub fn parse_highlight_lines(line_spec: &str) -> (r: Vec<usize>)
    ensures
        r@ == lines_of_spec(line_spec@),
{
    let v = chars_of(line_spec);
    let mut out: Vec<usize> = Vec::new();
    let mut part_start: usize = 0;
    let mut i: usize = 0;
    proof {
        assert(v@.subrange(0, 0) =~= Seq::<char>::empty());
    }
    while i < v.len()
        invariant
            part_start <= i <= v.len(),
            out@ == lines_of_parts(split_on(v@.subrange(0, i as int), ',').drop_last()),
            split_on(v@.subrange(0, i as int), ',').len() >= 1,
            split_on(v@.subrange(0, i as int), ',').last() == v@.subrange(part_start as int, i as int),
        decreases v.len() - i,
    {
        let ghost before = split_on(v@.subrange(0, i as int), ',');
        assert(v@.subrange(0, i + 1).drop_last() =~= v@.subrange(0, i as int));
        if v[i] == ',' {
            part_lines_range(&v, part_start, i, &mut out);
            proof {
                let after = split_on(v@.subrange(0, i + 1), ',');
                assert(after == before.push(Seq::<char>::empty()));
                assert(after.drop_last() =~= before);
                assert(before.drop_last() =~= before.subrange(0, before.len() - 1));
            }
            part_start = i + 1;
            i += 1;
            assert(v@.subrange(part_start as int, i as int) =~= Seq::<char>::empty());
        } else {
            proof {
                let after = split_on(v@.subrange(0, i + 1), ',');
                assert(after.drop_last() =~= before.drop_last());
                assert(after.last() =~= v@.subrange(part_start as int, i + 1));
            }
            i += 1;
        }
    }
    part_lines_range(&v, part_start, v.len(), &mut out);
    proof {
        let parts = split_on(v@.subrange(0, i as int), ',');
        assert(v@.subrange(0, i as int) =~= v@);
        assert(parts.drop_last() =~= parts.subrange(0, parts.len() - 1));
    }
    out
}

impl ExLineSpec {
    /// The inclusive range this specification names.
    pub fn to_range_inclusive(&self) -> (r: std::ops::RangeInclusive<usize>)
        ensures
            r@.start == self.first(),
            r@.end == self.last(),
            r@.exhausted == false,
    {
        match self {
            ExLineSpec::Single(line) => std::ops::RangeInclusive::new(*line, *line),
            ExLineSpec::Range { start, end } => std::ops::RangeInclusive::new(*start, *end),
        }
    }

    pub open spec fn first(&self) -> usize {
        match self {
            ExLineSpec::Single(n) => *n,
            ExLineSpec::Range { start, .. } => *start,
        }
    }

    pub open spec fn last(&self) -> usize {
        match self {
            ExLineSpec::Single(n) => *n,
            ExLineSpec::Range { end, .. } => *end,
        }
    }
}

/// Every line a list of specifications names, in order, ranges expanded.
pub fn convert_line_specs(lines: &[ExLineSpec]) -> (r: Vec<usize>)
    ensures
        r@ == lines_of_line_specs(lines@),
{
    let mut result: Vec<usize> = Vec::new();
    let mut i: usize = 0;
    while i < lines.len()
        invariant
            i <= lines.len(),
            result@ == lines_of_line_specs(lines@.subrange(0, i as int)),
        decreases lines.len() - i,
    {
        assert(lines@.subrange(0, i + 1).drop_last() =~= lines@.subrange(0, i as int));
        match &lines[i] {
            ExLineSpec::Single(n) => {
                result.push(*n);
            },
            ExLineSpec::Range { start, end } => {
                push_range(&mut result, *start, *end);
            },
        }
        i += 1;
    }
    assert(lines@.subrange(0, i as int) =~= lines@);
    result
}

} // verus!

verus! {

/// The text of one specification: `n`, or `a-b`.
pub open spec fn line_spec_text(l: ExLineSpec) -> Seq<char> {
    match l {
        ExLineSpec::Single(n) => decimal(n as nat),
        ExLineSpec::Range { start, end } => decimal(start as nat) + seq!['-'] + decimal(end as nat),
    }
}

/// The text of a list of specifications, joined with `,`.
pub open spec fn line_specs_text(ls: Seq<ExLineSpec>) -> Seq<char>
    decreases ls.len(),
{
    if ls.len() == 0 {
        Seq::empty()
    } else if ls.len() == 1 {
        line_spec_text(ls[0])
    } else {
        line_specs_text(ls.drop_last()) + seq![','] + line_spec_text(ls.last())
    }
}

/// Writes specifications as a line-range list, such as `1,3-5,12`.
pub fn render_line_specs(lines: &[ExLineSpec]) -> (r: String)
    ensures
        r@ == line_specs_text(lines@),
{
    let mut out = String::new();
    let mut i: usize = 0;
    while i < lines.len()
        invariant
            i <= lines.len(),
            out@ == line_specs_text(lines@.subrange(0, i as int)),
        decreases lines.len() - i,
    {
        let ghost before = out@;
        if i > 0 {
            push_char(&mut out, ',');
        }
        match &lines[i] {
            ExLineSpec::Single(n) => push_decimal(&mut out, *n),
            ExLineSpec::Range { start, end } => {
                push_decimal(&mut out, *start);
                push_char(&mut out, '-');
                push_decimal(&mut out, *end);
            },
        }
        proof {
            let p = lines@.subrange(0, i + 1);
            assert(p.drop_last() =~= lines@.subrange(0, i as int));
            assert(p.last() == lines@[i as int]);
            if i == 0 {
                assert(before =~= Seq::<char>::empty());
            }
            assert(out@ =~= line_specs_text(p));
        }
        i += 1;
    }
    assert(lines@.subrange(0, i as int) =~= lines@);
    out
}

pub open spec fn lacks(s: Seq<char>, c: char) -> bool {
    forall|i: int| 0 <= i < s.len() ==> s[i] != c
}

proof fn lemma_digit_char(d: nat)
    requires
        d < 10,
    ensures
        is_digit(digit_char(d)),
        (digit_char(d) as u32) - 48 == d,
{
}

/// The decimal digits of `n` read back as `n`.
proof fn lemma_decimal(n: nat)
    ensures
        decimal(n).len() >= 1,
        all_digits(decimal(n)),
        digits_value(decimal(n)) == n,
    decreases n,
{
    if n < 10 {
        lemma_digit_char(n);
        let d = decimal(n);
        assert(d.drop_last() =~= Seq::<char>::empty());
        assert(d.last() == digit_char(n));
        assert(digits_value(d) == digits_value(d.drop_last()) * 10 + ((d.last() as u32) - 48) as nat);
    } else {
        lemma_decimal(n / 10);
        lemma_digit_char(n % 10);
        let d = decimal(n);
        assert(d.drop_last() =~= decimal(n / 10));
        assert(all_digits(d)) by {
            assert forall|i: int| 0 <= i < d.len() implies is_digit(#[trigger] d[i]) by {
                if i < d.len() - 1 {
                    assert(d[i] == decimal(n / 10)[i]);
                }
            }
        }
        assert(d.last() == digit_char(n % 10));
        assert(digits_value(d) == digits_value(d.drop_last()) * 10 + ((d.last() as u32) - 48) as nat);
        assert(n == (n / 10) * 10 + n % 10);
    }
}

proof fn lemma_digits_lack(s: Seq<char>, c: char)
    requires
        all_digits(s),
        !is_digit(c),
    ensures
        lacks(s, c),
        first_index(s, c) is None,
{
    reveal(first_index);
    assert forall|i: int| 0 <= i < s.len() implies s[i] != c by {
        assert(is_digit(s[i]));
    }
}

proof fn lemma_trim_digit_ends(s: Seq<char>)
    requires
        s.len() >= 1,
        is_digit(s[0]),
        is_digit(s.last()),
    ensures
        trim(s) == s,
{
}

/// The digits of `n` name the line `n`, and in a range its bounds.
proof fn lemma_decimal_parses(n: usize)
    ensures
        parse_usize(decimal(n as nat)) == Some(n),
        trim(decimal(n as nat)) == decimal(n as nat),
        lacks(decimal(n as nat), ','),
        first_index(decimal(n as nat), '-') is None,
{
    let d = decimal(n as nat);
    lemma_decimal(n as nat);
    assert(is_digit(d[0]));
    assert(is_digit(d.last()));
    lemma_trim_digit_ends(d);
    lemma_digits_lack(d, ',');
    lemma_digits_lack(d, '-');
}

proof fn lemma_part_lines_of_text(l: ExLineSpec)
    ensures
        part_lines(line_spec_text(l)) == line_spec_lines(l),
        lacks(line_spec_text(l), ','),
{
    match l {
        ExLineSpec::Single(n) => {
            lemma_decimal_parses(n);
            assert(single_lines(decimal(n as nat)) == seq![n]);
        },
        ExLineSpec::Range { start, end } => {
            let da = decimal(start as nat);
            let db = decimal(end as nat);
            lemma_decimal_parses(start);
            lemma_decimal_parses(end);
            lemma_decimal(start as nat);
            lemma_decimal(end as nat);
            let s = da + seq!['-'] + db;
            assert(s[0] == da[0]);
            assert(s.last() == db.last());
            assert(is_digit(da[0]));
            assert(is_digit(db.last()));
            lemma_trim_digit_ends(s);
            let k = da.len() as int;
            assert(first_index(s, '-') == Some(k)) by {
                reveal(first_index);
                assert(s[k] == '-');
                assert forall|j: int| 0 <= j < k implies s[j] != '-' by {
                    assert(s[j] == da[j]);
                    assert(is_digit(da[j]));
                }
                let w = choose|w: int|
                    0 <= w < s.len() && s[w] == '-' && forall|j: int| 0 <= j < w ==> s[j] != '-';
                if w < k {
                    assert(s[w] == da[w]);
                    assert(is_digit(da[w]));
                }
            }
            assert(s.subrange(0, k) =~= da);
            assert(s.subrange(k + 1, s.len() as int) =~= db);
            assert forall|i: int| 0 <= i < s.len() implies s[i] != ',' by {
                if i < k {
                    assert(s[i] == da[i]);
                    assert(is_digit(da[i]));
                } else if i > k {
                    assert(s[i] == db[i - k - 1]);
                    assert(is_digit(db[i - k - 1]));
                }
            }
        },
    }
}

/// Appending text without the separator extends the last piece.
proof fn lemma_split_append_plain(s: Seq<char>, t: Seq<char>, sep: char)
    requires
        lacks(t, sep),
    ensures
        split_on(s + t, sep) == split_on(s, sep).update(
            split_on(s, sep).len() - 1,
            split_on(s, sep).last() + t,
        ),
    decreases t.len(),
{
    lemma_split_on_nonempty(s, sep);
    if t.len() == 0 {
        assert(s + t =~= s);
        assert(split_on(s, sep).last() + t =~= split_on(s, sep).last());
        assert(split_on(s, sep).update(split_on(s, sep).len() - 1, split_on(s, sep).last())
            =~= split_on(s, sep));
    } else {
        let t1 = t.drop_last();
        assert(lacks(t1, sep));
        lemma_split_append_plain(s, t1, sep);
        assert((s + t).drop_last() =~= s + t1);
        assert((s + t).last() == t.last());
        assert(t.last() != sep);
        let base = split_on(s, sep);
        let rest = split_on(s + t1, sep);
        assert(rest.len() == base.len());
        assert(rest.last() == base.last() + t1);
        assert(split_on(s + t, sep) == rest.update(rest.len() - 1, rest.last().push(t.last())));
        assert((base.last() + t1).push(t.last()) =~= base.last() + t);
        assert(split_on(s + t, sep) =~= base.update(base.len() - 1, base.last() + t));
    }
}

proof fn lemma_split_join(x: Seq<char>, y: Seq<char>)
    requires
        lacks(y, ','),
    ensures
        split_on(x + seq![','] + y, ',') == split_on(x, ',').push(y),
{
    let xc = x + seq![','];
    assert(xc.drop_last() =~= x);
    assert(split_on(xc, ',') == split_on(x, ',').push(Seq::<char>::empty()));
    lemma_split_append_plain(xc, y, ',');
    assert(Seq::<char>::empty() + y =~= y);
    assert(split_on(xc, ',').update(split_on(xc, ',').len() - 1, split_on(xc, ',').last() + y)
        =~= split_on(x, ',').push(y));
}

/// Round trip: writing specifications as a line-range list and parsing it back
/// names the same lines, in the same order, as expanding them directly.
pub proof fn lemma_line_specs_round_trip(ls: Seq<ExLineSpec>)
    ensures
        lines_of_spec(line_specs_text(ls)) == lines_of_line_specs(ls),
    decreases ls.len(),
{
    if ls.len() == 0 {
        let e = Seq::<char>::empty();
        assert(split_on(e, ',') == seq![e]);
        assert(seq![e].drop_last() =~= Seq::<Seq<char>>::empty());
        assert(trim(e) == e);
        assert(first_index(e, '-') is None) by {
            reveal(first_index);
        }
        assert(part_lines(e) =~= Seq::<usize>::empty());
        assert(seq![e].last() == e);
        assert(lines_of_parts(seq![e].drop_last()) =~= Seq::<usize>::empty());
        assert(lines_of_parts(seq![e]) =~= Seq::<usize>::empty());
    } else if ls.len() == 1 {
        let t = line_spec_text(ls[0]);
        lemma_part_lines_of_text(ls[0]);
        lemma_split_append_plain(Seq::<char>::empty(), t, ',');
        assert(Seq::<char>::empty() + t =~= t);
        let e = Seq::<char>::empty();
        assert(split_on(e, ',') == seq![e]);
        assert(seq![e].update(0, e + t) =~= seq![t]);
        assert(seq![t].drop_last() =~= Seq::<Seq<char>>::empty());
        assert(ls.drop_last() =~= Seq::<ExLineSpec>::empty());
        assert(seq![t].last() == t);
        assert(lines_of_parts(seq![t].drop_last()) =~= Seq::<usize>::empty());
        assert(lines_of_parts(seq![t]) =~= part_lines(t));
        assert(ls.last() == ls[0]);
        assert(lines_of_line_specs(ls.drop_last()) =~= Seq::<usize>::empty());
        assert(lines_of_line_specs(ls) =~= line_spec_lines(ls[0]));
    } else {
        let prev = ls.drop_last();
        let t = line_spec_text(ls.last());
        lemma_line_specs_round_trip(prev);
        lemma_part_lines_of_text(ls.last());
        lemma_split_join(line_specs_text(prev), t);
        let parts = split_on(line_specs_text(prev), ',').push(t);
        assert(parts.drop_last() =~= split_on(line_specs_text(prev), ','));
    }
}

} // verus!
