//! From highlight events to the line-wrapped HTML body of a code block.
use vstd::prelude::*;

use crate::config::opt_view;
use crate::highlight_lines::{config_view, HighlightLineConfig, LineConfigView};
pub use crate::lumis_out::{inline_span, linked_span};
use crate::lumis_out::segment_view;
use crate::text::{push_char, push_str, split_on};

verus! {

/// A highlight event: the bytes `[start, end)` of the source carry `scope`
/// (empty for text no scope covers).
#[derive(Debug)]
pub struct Segment {
    pub start: usize,
    pub end: usize,
    pub scope: String,
}

/// A run of source characters `[start, end)` and the scope it is drawn with.
#[derive(Debug)]
pub struct Piece {
    pub start: usize,
    pub end: usize,
    pub scope: String,
}

/// `ps` cuts `[0, n)` into non-empty runs, in order, with nothing left out and
/// nothing covered twice.
pub open spec fn tiles(ps: Seq<Piece>, n: int) -> bool {
    &&& (ps.len() == 0 <==> n == 0)
    &&& ps.len() > 0 ==> ps[0].start == 0 && ps.last().end == n
    &&& forall|i: int| 0 <= i < ps.len() ==> (#[trigger] ps[i]).start < ps[i].end
    &&& forall|i: int| 0 <= i < ps.len() - 1 ==> (#[trigger] ps[i]).end == ps[i + 1].start
}

/// The text of each run, one after the other.
pub open spec fn pieces_text(src: Seq<char>, ps: Seq<Piece>) -> Seq<char>
    decreases ps.len(),
{
    if ps.len() == 0 {
        Seq::empty()
    } else {
        pieces_text(src, ps.drop_last()) + src.subrange(ps.last().start as int, ps.last().end as int)
    }
}

/// Runs that cut `[0, m)` give back the first `m` characters of the source.
proof fn lemma_pieces_text_prefix(src: Seq<char>, ps: Seq<Piece>, m: int)
    requires
        tiles(ps, m),
        m <= src.len(),
    ensures
        pieces_text(src, ps) == src.subrange(0, m),
    decreases ps.len(),
{
    if ps.len() > 0 {
        let q = ps.drop_last();
        let last = ps.last();
        if q.len() > 0 {
            assert(q.last() == ps[ps.len() - 2]);
            assert(tiles(q, last.start as int)) by {
                assert forall|i: int| 0 <= i < q.len() implies (#[trigger] q[i]).start < q[i].end by {
                    assert(q[i] == ps[i]);
                }
                assert forall|i: int| 0 <= i < q.len() - 1 implies (#[trigger] q[i]).end == q[i
                    + 1].start by {
                    assert(q[i] == ps[i]);
                    assert(q[i + 1] == ps[i + 1]);
                }
            }
        } else {
            assert(ps.len() == 1);
            assert(tiles(q, 0));
        }
        assert(ps[ps.len() - 1].start < ps[ps.len() - 1].end);
        lemma_pieces_text_prefix(src, q, last.start as int);
        assert(src.subrange(0, last.start as int) + src.subrange(last.start as int, m) =~= src.subrange(0, m));
    } else {
        assert(src.subrange(0, 0) =~= Seq::<char>::empty());
    }
}

/// Highlight coverage: the text of the highlighted runs and of the gaps between
/// them, put back together, is the source exactly.
pub proof fn lemma_pieces_cover_source(src: Seq<char>, ps: Seq<Piece>)
    requires
        tiles(ps, src.len() as int),
    ensures
        pieces_text(src, ps) == src,
{
    lemma_pieces_text_prefix(src, ps, src.len() as int);
    assert(src.subrange(0, src.len() as int) =~= src);
}

/// How many UTF-8 bytes a character takes.
pub open spec fn utf8_width(c: char) -> nat {
    let u = c as u32;
    if u < 0x80 {
        1
    } else if u < 0x800 {
        2
    } else if u < 0x10000 {
        3
    } else {
        4
    }
}

fn utf8_width_exec(c: char) -> (r: usize)
    ensures
        r == utf8_width(c),
{
    let u = c as u32;
    if u < 0x80 {
        1
    } else if u < 0x800 {
        2
    } else if u < 0x10000 {
        3
    } else {
        4
    }
}

/// The byte offset at which each character starts, then the end offset, as far
/// as the offsets fit a `usize`.
pub open spec fn utf8_offsets(s: Seq<char>) -> Seq<usize>
    decreases s.len(),
{
    if s.len() == 0 {
        seq![0usize]
    } else {
        let p = utf8_offsets(s.drop_last());
        if p.len() == s.len() && p.last() + utf8_width(s.last()) <= usize::MAX {
            p.push((p.last() + utf8_width(s.last())) as usize)
        } else {
            p
        }
    }
}

pub proof fn lemma_utf8_offsets_len(s: Seq<char>)
    ensures
        1 <= utf8_offsets(s).len() <= s.len() + 1,
    decreases s.len(),
{
    if s.len() > 0 {
        lemma_utf8_offsets_len(s.drop_last());
    }
}

/// The byte offset at which each character starts, and the end offset.
pub fn char_byte_offsets(v: &Vec<char>) -> (r: Vec<usize>)
    ensures
        r@ == utf8_offsets(v@),
{
    let mut out: Vec<usize> = Vec::new();
    out.push(0);
    let mut i: usize = 0;
    assert(v@.subrange(0, 0) =~= Seq::<char>::empty());
    while i < v.len()
        invariant
            i <= v.len(),
            out@ == utf8_offsets(v@.subrange(0, i as int)),
        decreases v.len() - i,
    {
        proof {
            lemma_utf8_offsets_len(v@.subrange(0, i as int));
        }
        assert(v@.subrange(0, i + 1).drop_last() =~= v@.subrange(0, i as int));
        let w = utf8_width_exec(v[i]);
        if out.len() == i + 1 {
            let last = out[i];
            if let Some(next) = last.checked_add(w) {
                out.push(next);
            }
        }
        i += 1;
    }
    assert(v@.subrange(0, i as int) =~= v@);
    out
}

/// The first `k` from `from` on with `offsets[k] == byte`.
pub open spec fn first_offset(offsets: Seq<usize>, from: int, byte: usize) -> Option<int>
    decreases offsets.len() - from,
{
    if from < 0 || from >= offsets.len() {
        None
    } else if offsets[from] == byte {
        Some(from)
    } else {
        first_offset(offsets, from + 1, byte)
    }
}

/// The first `k` in `[from, offsets.len())` with `offsets[k] == byte`.
fn char_index_of(offsets: &Vec<usize>, from: usize, byte: usize) -> (r: Option<usize>)
    requires
        from <= offsets.len(),
    ensures
        match first_offset(offsets@, from as int, byte) {
            Some(k) => r == Some(k as usize) && from <= k < offsets.len(),
            None => r is None,
        },
{
    let mut k = from;
    while k < offsets.len()
        invariant
            from <= k <= offsets.len(),
            first_offset(offsets@, from as int, byte) == first_offset(offsets@, k as int, byte),
            forall|j: int| from <= j < k ==> first_offset(offsets@, j, byte) == first_offset(offsets@, k as int, byte),
        decreases offsets.len() - k,
    {
        if offsets[k] == byte {
            return Some(k);
        }
        k += 1;
    }
    None
}

/// What a run stands for: its bounds and its scope.
pub open spec fn piece_view(p: Piece) -> (int, int, Seq<char>) {
    (p.start as int, p.end as int, p.scope@)
}

pub open spec fn pieces_view(ps: Seq<Piece>) -> Seq<(int, int, Seq<char>)> {
    ps.map_values(|p: Piece| piece_view(p))
}

/// The runs the events make, in order, and how far they reach: an event whose
/// bounds fall on character starts at or after the reach so far becomes a run
/// with its scope, after an unscoped run over any gap before it; any other event
/// is passed over.
pub open spec fn cut_events(offsets: Seq<usize>, events: Seq<(usize, usize, Seq<char>)>) -> (
    int,
    Seq<(int, int, Seq<char>)>,
)
    decreases events.len(),
{
    if events.len() == 0 {
        (0, Seq::empty())
    } else {
        let (pos, ps) = cut_events(offsets, events.drop_last());
        let e = events.last();
        if pos < offsets.len() {
            match first_offset(offsets, pos, e.0) {
                Some(cs) => match first_offset(offsets, cs, e.1) {
                    Some(ce) => {
                        let ps1 = if cs > pos {
                            ps.push((pos, cs, Seq::empty()))
                        } else {
                            ps
                        };
                        let ps2 = if ce > cs {
                            ps1.push((cs, ce, e.2))
                        } else {
                            ps1
                        };
                        (ce, ps2)
                    },
                    None => (pos, ps),
                },
                None => (pos, ps),
            }
        } else {
            (pos, ps)
        }
    }
}

/// The runs of a source of `n` characters: those the events make, then an
/// unscoped run over what they leave at the end.
pub open spec fn cut_source(n: int, offsets: Seq<usize>, events: Seq<(usize, usize, Seq<char>)>) -> Seq<
    (int, int, Seq<char>),
> {
    let (pos, ps) = cut_events(offsets, events);
    if pos < n {
        ps.push((pos, n, Seq::empty()))
    } else {
        ps
    }
}

fn push_piece(ps: &mut Vec<Piece>, start: usize, end: usize, scope: String)
    requires
        start < end,
        tiles(old(ps)@, start as int),
    ensures
        tiles(final(ps)@, end as int),
        final(ps)@.len() == old(ps)@.len() + 1,
        pieces_view(final(ps)@) == pieces_view(old(ps)@).push((start as int, end as int, scope@)),
{
    let ghost before = ps@;
    let ghost sv = scope@;
    ps.push(Piece { start, end, scope });
    assert(pieces_view(ps@) =~= pieces_view(before).push((start as int, end as int, sv)));
    proof {
        let after = ps@;
        assert forall|i: int| 0 <= i < after.len() implies (#[trigger] after[i]).start
            < after[i].end by {
            if i < before.len() {
                assert(after[i] == before[i]);
            }
        }
        assert forall|i: int| 0 <= i < after.len() - 1 implies (#[trigger] after[i]).end
            == after[i + 1].start by {
            assert(after[i] == before[i]);
            if i + 1 < before.len() {
                assert(after[i + 1] == before[i + 1]);
            }
        }
    }
}

/// Cuts the `n` characters of a source into runs from the highlight events: each
/// event's text is a run with its scope, and the text between events is a run with
/// no scope. An event out of order, or off a character boundary, is passed over;
/// its text then falls in a gap.
pub fn pieces_from_segments(n: usize, offsets: &Vec<usize>, segments: &Vec<Segment>) -> (r: Vec<
    Piece,
>)
    requires
        offsets.len() <= n + 1,
    ensures
        tiles(r@, n as int),
        pieces_view(r@) == cut_source(
            n as int,
            offsets@,
            segments@.map_values(|s: Segment| segment_view(s)),
        ),
{
    let ghost events = segments@.map_values(|s: Segment| segment_view(s));
    let mut ps: Vec<Piece> = Vec::new();
    let mut pos: usize = 0;
    let mut i: usize = 0;
    assert(events.subrange(0, 0) =~= Seq::<(usize, usize, Seq<char>)>::empty());
    assert(pieces_view(ps@) =~= Seq::<(int, int, Seq<char>)>::empty());
    while i < segments.len()
        invariant
            pos <= n,
            i <= segments.len(),
            offsets.len() <= n + 1,
            events == segments@.map_values(|s: Segment| segment_view(s)),
            tiles(ps@, pos as int),
            cut_events(offsets@, events.subrange(0, i as int)) == (pos as int, pieces_view(ps@)),
        decreases segments.len() - i,
    {
        let seg = &segments[i];
        let ghost before = ps@;
        assert(events.subrange(0, i + 1).drop_last() =~= events.subrange(0, i as int));
        assert(events.subrange(0, i + 1).last() == segment_view(segments@[i as int]));
        if pos < offsets.len() {
            if let Some(cs) = char_index_of(offsets, pos, seg.start) {
                if let Some(ce) = char_index_of(offsets, cs, seg.end) {
                    if cs > pos {
                        push_piece(&mut ps, pos, cs, String::new());
                        assert(pieces_view(ps@) =~= pieces_view(before).push(
                            (pos as int, cs as int, Seq::<char>::empty()),
                        ));
                    }
                    let ghost mid = ps@;
                    if ce > cs {
                        push_piece(&mut ps, cs, ce, seg.scope.clone());
                        assert(pieces_view(ps@) =~= pieces_view(mid).push(
                            (cs as int, ce as int, seg.scope@),
                        ));
                    }
                    pos = ce;
                }
            }
        }
        i += 1;
    }
    assert(events.subrange(0, i as int) =~= events);
    if pos < n {
        let ghost before = ps@;
        push_piece(&mut ps, pos, n, String::new());
        assert(pieces_view(ps@) =~= pieces_view(before).push(
            (pos as int, n as int, Seq::<char>::empty()),
        ));
    }
    ps
}

/// Where the lines of a source lie: the pieces between `\n`s, without the empty
/// one after a final `\n`.
pub open spec fn source_lines(src: Seq<char>) -> Seq<Seq<char>> {
    let parts = split_on(src, '\n');
    if src.len() > 0 && src.last() == '\n' {
        parts.drop_last()
    } else {
        parts
    }
}

/// Where the pieces between the `sep`s of `s` lie, as `[start, end)` bounds.
pub open spec fn split_bounds(s: Seq<char>, sep: char) -> Seq<(int, int)>
    decreases s.len(),
{
    if s.len() == 0 {
        seq![(0int, 0int)]
    } else {
        let rest = split_bounds(s.drop_last(), sep);
        if s.last() == sep {
            rest.push((s.len() as int, s.len() as int))
        } else {
            rest.update(rest.len() - 1, (rest.last().0, s.len() as int))
        }
    }
}

/// Where the lines of a source lie, as `source_lines` cuts it.
pub open spec fn source_line_bounds(src: Seq<char>) -> Seq<(int, int)> {
    let parts = split_bounds(src, '\n');
    if src.len() > 0 && src.last() == '\n' {
        parts.drop_last()
    } else {
        parts
    }
}

pub open spec fn bounds_view(b: Seq<(usize, usize)>) -> Seq<(int, int)> {
    b.map_values(|p: (usize, usize)| (p.0 as int, p.1 as int))
}

/// The bounds of each line of `v`, as `source_lines` cuts it.
pub fn line_bounds(v: &Vec<char>) -> (r: Vec<(usize, usize)>)
    ensures
        r@.len() == source_lines(v@).len(),
        bounds_view(r@) == source_line_bounds(v@),
        forall|k: int|
            0 <= k < r@.len() ==> (#[trigger] r@[k]).0 <= r@[k].1 <= v.len() && v@.subrange(
                r@[k].0 as int,
                r@[k].1 as int,
            ) == source_lines(v@)[k],
{
    let mut out: Vec<(usize, usize)> = Vec::new();
    let mut line_start: usize = 0;
    let mut i: usize = 0;
    assert(v@.subrange(0, 0) =~= Seq::<char>::empty());
    assert(bounds_view(out@).push((0int, 0int)) =~= seq![(0int, 0int)]);
    while i < v.len()
        invariant
            line_start <= i <= v.len(),
            split_on(v@.subrange(0, i as int), '\n').len() == out@.len() + 1,
            split_on(v@.subrange(0, i as int), '\n').last() == v@.subrange(
                line_start as int,
                i as int,
            ),
            split_bounds(v@.subrange(0, i as int), '\n') == bounds_view(out@).push(
                (line_start as int, i as int),
            ),
            forall|k: int|
                0 <= k < out@.len() ==> (#[trigger] out@[k]).0 <= out@[k].1 <= v.len()
                    && v@.subrange(out@[k].0 as int, out@[k].1 as int) == split_on(
                    v@.subrange(0, i as int),
                    '\n',
                )[k],
        decreases v.len() - i,
    {
        let ghost before = split_on(v@.subrange(0, i as int), '\n');
        let ghost bbefore = split_bounds(v@.subrange(0, i as int), '\n');
        let ghost obefore = bounds_view(out@);
        assert(v@.subrange(0, i + 1).drop_last() =~= v@.subrange(0, i as int));
        if v[i] == '\n' {
            out.push((line_start, i));
            line_start = i + 1;
            i += 1;
            proof {
                let after = split_on(v@.subrange(0, i as int), '\n');
                assert(after == before.push(Seq::<char>::empty()));
                assert forall|k: int| 0 <= k < out@.len() implies (#[trigger] out@[k]).0
                    <= out@[k].1 <= v.len() && v@.subrange(out@[k].0 as int, out@[k].1 as int)
                    == after[k] by {
                    assert(after[k] == before[k]);
                }
                assert(v@.subrange(line_start as int, i as int) =~= Seq::<char>::empty());
                assert(bounds_view(out@) =~= bbefore);
                assert(split_bounds(v@.subrange(0, i as int), '\n') =~= bbefore.push(
                    (i as int, i as int),
                ));
            }
        } else {
            i += 1;
            proof {
                let after = split_on(v@.subrange(0, i as int), '\n');
                assert(after == before.update(before.len() - 1, before.last().push(v@[i - 1])));
                assert(after.last() =~= v@.subrange(line_start as int, i as int));
                assert forall|k: int| 0 <= k < out@.len() implies (#[trigger] out@[k]).0
                    <= out@[k].1 <= v.len() && v@.subrange(out@[k].0 as int, out@[k].1 as int)
                    == after[k] by {
                    assert(after[k] == before[k]);
                }
                assert(split_bounds(v@.subrange(0, i as int), '\n') =~= obefore.push(
                    (line_start as int, i as int),
                ));
            }
        }
    }
    assert(v@.subrange(0, i as int) =~= v@);
    if !(v.len() > 0 && v[v.len() - 1] == '\n') {
        let ghost obefore = bounds_view(out@);
        out.push((line_start, v.len()));
        proof {
            let parts = split_on(v@, '\n');
            assert(bounds_view(out@) =~= obefore.push((line_start as int, v.len() as int)));
            assert forall|k: int| 0 <= k < out@.len() implies (#[trigger] out@[k]).0
                <= out@[k].1 <= v.len() && v@.subrange(out@[k].0 as int, out@[k].1 as int)
                == source_lines(v@)[k] by {
                if k == out@.len() - 1 {
                    assert(parts.last() == parts[k]);
                }
            }
        }
    } else {
        proof {
            let parts = split_on(v@, '\n');
            let pb = split_bounds(v@, '\n');
            assert(pb.drop_last() =~= bounds_view(out@));
            assert forall|k: int| 0 <= k < out@.len() implies (#[trigger] out@[k]).0
                <= out@[k].1 <= v.len() && v@.subrange(out@[k].0 as int, out@[k].1 as int)
                == source_lines(v@)[k] by {
                assert(parts.drop_last()[k] == parts[k]);
            }
        }
    }
    out
}

/// Whether a text is white space only.
pub open spec fn is_blank(s: Seq<char>) -> bool {
    forall|i: int| 0 <= i < s.len() ==> crate::text::is_ws(#[trigger] s[i])
}

/// The parts of the runs that fall in the line `[lo, hi)`, in order.
pub open spec fn line_runs(ps: Seq<(int, int, Seq<char>)>, lo: int, hi: int) -> Seq<
    (int, int, Seq<char>),
>
    decreases ps.len(),
{
    if ps.len() == 0 {
        Seq::empty()
    } else {
        let rest = line_runs(ps.drop_last(), lo, hi);
        let p = ps.last();
        let a = if p.0 > lo {
            p.0
        } else {
            lo
        };
        let b = if p.1 < hi {
            p.1
        } else {
            hi
        };
        if a < b {
            rest.push((a, b, p.2))
        } else {
            rest
        }
    }
}

/// Whether a run is drawn as a span: it has a scope and is not blank.
pub open spec fn is_span_run(src: Seq<char>, run: (int, int, Seq<char>)) -> bool {
    run.2.len() > 0 && !is_blank(src.subrange(run.0, run.1))
}

/// A run as markup: `span` where it is drawn as a span, else its escaped text.
pub open spec fn run_html(src: Seq<char>, run: (int, int, Seq<char>), span: Seq<char>) -> Seq<char> {
    if is_span_run(src, run) {
        span
    } else {
        escape_html(src.subrange(run.0, run.1))
    }
}

/// The runs of a line as markup, the `k`-th span drawn as `spans[k]`.
pub open spec fn runs_html(
    src: Seq<char>,
    runs: Seq<(int, int, Seq<char>)>,
    spans: Seq<Seq<char>>,
) -> Seq<char>
    decreases runs.len(),
{
    if runs.len() == 0 {
        Seq::empty()
    } else {
        runs_html(src, runs.drop_last(), spans.drop_last()) + run_html(
            src,
            runs.last(),
            spans.last(),
        )
    }
}

/// What is known of the spans a back end draws: the linked back end's are
/// lumis's class spans; the inline back end's, with a registry theme, are lumis's
/// inline spans for that theme; of the others nothing is named.
pub enum SpanWriter {
    Linked,
    Inline { language: Seq<char>, theme: Seq<char>, italic: bool, include_highlights: bool },
    Unnamed,
}

/// The span a writer draws for a text of a scope, where it is named.
pub open spec fn drawn_span(w: SpanWriter, text: Seq<char>, scope: Seq<char>) -> Option<Seq<char>> {
    match w {
        SpanWriter::Linked => Some(linked_span(text, scope)),
        SpanWriter::Inline { language, theme, italic, include_highlights } => Some(
            inline_span(text, scope, language, theme, italic, include_highlights),
        ),
        SpanWriter::Unnamed => None,
    }
}

/// Each span of a line is the one the writer draws for its run, where named.
pub open spec fn spans_drawn(
    src: Seq<char>,
    runs: Seq<(int, int, Seq<char>)>,
    spans: Seq<Seq<char>>,
    w: SpanWriter,
) -> bool {
    forall|j: int|
        0 <= j < runs.len() && is_span_run(src, #[trigger] runs[j]) && drawn_span(
            w,
            src.subrange(runs[j].0, runs[j].1),
            runs[j].2,
        ) is Some ==> spans[j] == drawn_span(w, src.subrange(runs[j].0, runs[j].1), runs[j].2)->0
}

/// The HTML escape of one character, as lumis escapes text.
pub open spec fn escape_char(c: char) -> Seq<char> {
    if c == '&' {
        "&amp;"@
    } else if c == '<' {
        "&lt;"@
    } else if c == '>' {
        "&gt;"@
    } else if c == '"' {
        "&quot;"@
    } else if c == '\'' {
        "&#39;"@
    } else {
        seq![c]
    }
}

/// The HTML escape of a text.
pub open spec fn escape_html(s: Seq<char>) -> Seq<char>
    decreases s.len(),
{
    if s.len() == 0 {
        Seq::empty()
    } else {
        escape_html(s.drop_last()) + escape_char(s.last())
    }
}

/// Appends the HTML escape of `[lo, hi)` of `v` to `out`.
pub fn push_escaped(out: &mut String, v: &Vec<char>, lo: usize, hi: usize)
    requires
        lo <= hi <= v.len(),
    ensures
        final(out)@ == old(out)@ + escape_html(v@.subrange(lo as int, hi as int)),
{
    let ghost base = out@;
    let mut i = lo;
    assert(v@.subrange(lo as int, lo as int) =~= Seq::<char>::empty());
    assert(base + Seq::<char>::empty() =~= base);
    while i < hi
        invariant
            lo <= i <= hi <= v.len(),
            out@ == base + escape_html(v@.subrange(lo as int, i as int)),
        decreases hi - i,
    {
        let c = v[i];
        let ghost prev = out@;
        if c == '&' {
            push_str(out, "&amp;");
        } else if c == '<' {
            push_str(out, "&lt;");
        } else if c == '>' {
            push_str(out, "&gt;");
        } else if c == '"' {
            push_str(out, "&quot;");
        } else if c == '\'' {
            push_str(out, "&#39;");
        } else {
            push_char(out, c);
            assert(out@ =~= prev + seq![c]);
        }
        assert(v@.subrange(lo as int, i + 1).drop_last() =~= v@.subrange(lo as int, i as int));
        i += 1;
        assert(out@ =~= base + escape_html(v@.subrange(lo as int, i as int)));
    }
}

/// The character of a decimal digit.
pub open spec fn digit_char(d: nat) -> char {
    if d == 0 {
        '0'
    } else if d == 1 {
        '1'
    } else if d == 2 {
        '2'
    } else if d == 3 {
        '3'
    } else if d == 4 {
        '4'
    } else if d == 5 {
        '5'
    } else if d == 6 {
        '6'
    } else if d == 7 {
        '7'
    } else if d == 8 {
        '8'
    } else {
        '9'
    }
}

fn digit_char_exec(d: usize) -> (r: char)
    ensures
        r == digit_char(d as nat),
{
    if d == 0 {
        '0'
    } else if d == 1 {
        '1'
    } else if d == 2 {
        '2'
    } else if d == 3 {
        '3'
    } else if d == 4 {
        '4'
    } else if d == 5 {
        '5'
    } else if d == 6 {
        '6'
    } else if d == 7 {
        '7'
    } else if d == 8 {
        '8'
    } else {
        '9'
    }
}

/// The decimal digits of `n`.
pub open spec fn decimal(n: nat) -> Seq<char>
    decreases n,
{
    if n < 10 {
        seq![digit_char(n)]
    } else {
        decimal(n / 10).push(digit_char(n % 10))
    }
}

/// Appends the decimal digits of `n` to `out`.
pub fn push_decimal(out: &mut String, n: usize)
    ensures
        final(out)@ == old(out)@ + decimal(n as nat),
    decreases n,
{
    let ghost base = out@;
    if n >= 10 {
        push_decimal(out, n / 10);
    }
    let c = digit_char_exec(n % 10);
    push_char(out, c);
    assert(out@ =~= base + decimal(n as nat));
}

/// Whether line `n` (counted from 1) is highlighted.
pub open spec fn is_highlighted(cfg: Option<LineConfigView>, n: int) -> bool {
    match cfg {
        Some((lines, _, _)) => lines.contains(n as usize),
        None => false,
    }
}

/// The class highlighted lines carry.
pub open spec fn highlight_class(cfg: Option<LineConfigView>) -> Option<Seq<char>> {
    match cfg {
        Some((_, _, class)) => class,
        None => None,
    }
}

/// The style highlighted lines carry.
pub open spec fn highlight_style(cfg: Option<LineConfigView>) -> Option<Seq<char>> {
    match cfg {
        Some((_, style, _)) => style,
        None => None,
    }
}

/// The wrapper of line `n` around its content: the `line` class, the highlight
/// class and style where the line is highlighted, and its number.
pub open spec fn line_html(cfg: Option<LineConfigView>, n: nat, content: Seq<char>) -> Seq<char> {
    let hl = is_highlighted(cfg, n as int);
    let class_part = if hl && highlight_class(cfg) is Some {
        " "@ + highlight_class(cfg)->0
    } else {
        Seq::empty()
    };
    let style_part = if hl && highlight_style(cfg) is Some {
        " style=\""@ + highlight_style(cfg)->0 + "\""@
    } else {
        Seq::empty()
    };
    "<div class=\"line"@ + class_part + "\""@ + style_part + " data-line=\""@ + decimal(n)
        + "\">"@ + content + "\n</div>"@
}

/// Every line wrapped, one after the other, numbered from 1.
pub open spec fn lines_html(cfg: Option<LineConfigView>, contents: Seq<Seq<char>>) -> Seq<char>
    decreases contents.len(),
{
    if contents.len() == 0 {
        Seq::empty()
    } else {
        lines_html(cfg, contents.drop_last()) + line_html(
            cfg,
            contents.len(),
            contents.last(),
        )
    }
}

fn contains_line(lines: &Vec<usize>, n: usize) -> (r: bool)
    ensures
        r == lines@.contains(n),
{
    let mut i: usize = 0;
    while i < lines.len()
        invariant
            i <= lines.len(),
            forall|j: int| 0 <= j < i ==> lines@[j] != n,
        decreases lines.len() - i,
    {
        if lines[i] == n {
            assert(lines@[i as int] == n);
            return true;
        }
        i += 1;
    }
    false
}

/// Appends the wrapper of line `n` around `content`.
pub fn push_line(out: &mut String, cfg: &Option<HighlightLineConfig>, n: usize, content: &str)
    ensures
        final(out)@ == old(out)@ + line_html(config_view(*cfg), n as nat, content@),
{
    let ghost base = out@;
    let hl = match cfg {
        Some(c) => contains_line(&c.lines, n),
        None => false,
    };
    push_str(out, "<div class=\"line");
    if hl {
        if let Some(c) = cfg {
            if let Some(class) = &c.class {
                push_str(out, " ");
                push_str(out, class.as_str());
            }
        }
    }
    push_str(out, "\"");
    if hl {
        if let Some(c) = cfg {
            if let Some(style) = &c.style {
                push_str(out, " style=\"");
                push_str(out, style.as_str());
                push_str(out, "\"");
            }
        }
    }
    push_str(out, " data-line=\"");
    push_decimal(out, n);
    push_str(out, "\">");
    push_str(out, content);
    push_str(out, "\n</div>");
    assert(out@ =~= base + line_html(config_view(*cfg), n as nat, content@));
}

/// Wraps each line in its own element, numbered from 1, with the highlight class
/// and style on the lines the configuration names.
pub fn wrap_lines(contents: &Vec<String>, cfg: &Option<HighlightLineConfig>) -> (r: String)
    ensures
        r@ == lines_html(config_view(*cfg), contents@.map_values(|c: String| c@)),
{
    let ghost views = contents@.map_values(|c: String| c@);
    let mut out = String::new();
    let mut i: usize = 0;
    while i < contents.len()
        invariant
            i <= contents.len(),
            views == contents@.map_values(|c: String| c@),
            out@ == lines_html(config_view(*cfg), views.subrange(0, i as int)),
        decreases contents.len() - i,
    {
        push_line(&mut out, cfg, i + 1, contents[i].as_str());
        proof {
            let p = views.subrange(0, i + 1);
            assert(p.drop_last() =~= views.subrange(0, i as int));
            assert(p.last() == contents@[i as int]@);
        }
        i += 1;
    }
    assert(views.subrange(0, i as int) =~= views);
    out
}

} // verus!

verus! {

/// Line count: a source that does not end in `\n` is wrapped as one line per
/// piece that `\n` separates (a final `\n` closes the last line, and opens none).
pub proof fn lemma_line_count(src: Seq<char>)
    requires
        !(src.len() > 0 && src.last() == '\n'),
    ensures
        source_lines(src).len() == split_on(src, '\n').len(),
        source_lines(src).len() >= 1,
{
    crate::text::lemma_split_on_nonempty(src, '\n');
}

} // verus!

verus! {

/// `ps` cuts `[0, n)` into non-empty runs, in order, with nothing left out and
/// nothing covered twice.
pub open spec fn tiles_view(ps: Seq<(int, int, Seq<char>)>, n: int) -> bool {
    &&& (ps.len() == 0 <==> n == 0)
    &&& ps.len() > 0 ==> ps[0].0 == 0 && ps.last().1 == n
    &&& forall|i: int| 0 <= i < ps.len() ==> 0 <= (#[trigger] ps[i]).0 < ps[i].1
    &&& forall|i: int|
        #![trigger ps[i], ps[i + 1]]
        0 <= i < ps.len() - 1 ==> ps[i].1 == ps[i + 1].0
}

/// Without its last run, a cut of `[0, m)` cuts `[0, start of that run)`.
proof fn lemma_tiles_view_prefix(ps: Seq<(int, int, Seq<char>)>, m: int)
    requires
        tiles_view(ps, m),
        ps.len() > 0,
    ensures
        tiles_view(ps.drop_last(), ps.last().0),
        0 <= ps.last().0 < ps.last().1 == m,
{
    let q = ps.drop_last();
    assert(ps.last() == ps[ps.len() - 1]);
    if q.len() > 0 {
        assert(q.last() == ps[ps.len() - 2]);
        let k = ps.len() - 2;
        assert(ps[k].1 == ps[k + 1].0);
        assert(q[0] == ps[0]);
    }
    assert forall|i: int| 0 <= i < q.len() implies 0 <= (#[trigger] q[i]).0 < q[i].1 by {
        assert(q[i] == ps[i]);
    }
    assert forall|i: int| #![trigger q[i], q[i + 1]] 0 <= i < q.len() - 1 implies q[i].1 == q[i
        + 1].0 by {
        assert(q[i] == ps[i]);
        assert(q[i + 1] == ps[i + 1]);
    }
}

pub proof fn lemma_tiles_view(ps: Seq<Piece>, n: int)
    requires
        tiles(ps, n),
    ensures
        tiles_view(pieces_view(ps), n),
{
    let v = pieces_view(ps);
    assert forall|i: int| 0 <= i < v.len() implies 0 <= (#[trigger] v[i]).0 < v[i].1 by {
        assert(v[i] == piece_view(ps[i]));
    }
    assert forall|i: int| #![trigger v[i], v[i + 1]] 0 <= i < v.len() - 1 implies v[i].1 == v[i
        + 1].0 by {
        assert(v[i] == piece_view(ps[i]));
        assert(v[i + 1] == piece_view(ps[i + 1]));
    }
    if v.len() > 0 {
        assert(v[0] == piece_view(ps[0]));
        assert(v.last() == piece_view(ps.last()));
    }
}

/// The text of each run, one after the other.
pub open spec fn runs_text(src: Seq<char>, runs: Seq<(int, int, Seq<char>)>) -> Seq<char>
    decreases runs.len(),
{
    if runs.len() == 0 {
        Seq::empty()
    } else {
        runs_text(src, runs.drop_last()) + src.subrange(runs.last().0, runs.last().1)
    }
}

pub open spec fn min_int(a: int, b: int) -> int {
    if a < b {
        a
    } else {
        b
    }
}

#[verifier::rlimit(40)]
/// Highlight coverage, line by line: the parts of the runs that fall in a line,
/// gaps and highlighted text alike, put back together give the line's text.
pub proof fn lemma_line_runs_cover(
    src: Seq<char>,
    ps: Seq<(int, int, Seq<char>)>,
    m: int,
    lo: int,
    hi: int,
)
    requires
        tiles_view(ps, m),
        m <= src.len(),
        0 <= lo <= hi,
    ensures
        runs_text(src, line_runs(ps, lo, hi)) == src.subrange(min_int(lo, m), min_int(hi, m)),
    decreases ps.len(),
{
    if ps.len() == 0 {
        assert(src.subrange(0, 0) =~= Seq::<char>::empty());
    } else {
        let q = ps.drop_last();
        let p = ps.last();
        let s = p.0;
        lemma_tiles_view_prefix(ps, m);
        lemma_line_runs_cover(src, q, s, lo, hi);
        let a = if s > lo {
            s
        } else {
            lo
        };
        let b = if p.1 < hi {
            p.1
        } else {
            hi
        };
        let prev = src.subrange(min_int(lo, s), min_int(hi, s));
        let runs = line_runs(ps, lo, hi);
        let rq = line_runs(q, lo, hi);
        assert(p.1 == m);
        if a < b {
            assert(runs == rq.push((a, b, p.2)));
            assert(runs.drop_last() =~= rq);
            assert(runs_text(src, runs) == runs_text(src, rq) + src.subrange(a, b));
            assert(min_int(hi, s) == s);
            assert(b == min_int(hi, m));
            if lo <= s {
                assert(a == s);
                assert(src.subrange(lo, s) + src.subrange(s, b) =~= src.subrange(lo, b));
            } else {
                assert(min_int(lo, s) == s);
                assert(prev =~= Seq::<char>::empty());
                assert(a == lo);
                assert(Seq::<char>::empty() + src.subrange(lo, b) =~= src.subrange(lo, b));
            }
        } else {
            assert(runs == rq);
            if hi <= s {
                assert(min_int(hi, s) == hi && min_int(hi, m) == hi);
            } else {
                assert(min_int(hi, s) == s);
                assert(min_int(lo, s) == s || lo == hi);
                assert(prev =~= Seq::<char>::empty());
                assert(src.subrange(min_int(lo, m), min_int(hi, m)) =~= Seq::<char>::empty());
            }
        }
    }
}

} // verus!
