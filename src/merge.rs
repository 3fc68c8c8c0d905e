//! Merging the lines of a buffer with the categorized spans of its syntax
//! tokens into highlighted lines: each line is cut into maximal runs of one
//! category, and bytes that no span covers are uncategorized.
use vstd::prelude::*;
use vstd::string::StringSliceAdditionalSpecFns;
use crate::highlight::{HighlightType, HighlightedText};
use crate::text::{on_boundary, slice_bytes, utf8, views};
use crate::text_buffer::{cursor_le, valid_cursor, Cursor};

verus! {

/// A span of the buffer with the category of the token that spans it.
#[derive(Clone, Copy, Debug, PartialEq, Eq, Structural)]
pub struct Span {
    pub start: Cursor,
    pub end: Cursor,
    pub category: HighlightType,
}

/// `s` may follow the spans `prev`: both its ends are valid, it is not
/// empty, and it starts where the last of `prev` ended or later.
pub open spec fn admissible(lines: Seq<Seq<u8>>, prev: Seq<Span>, s: Span) -> bool {
    &&& valid_cursor(lines, s.start)
    &&& valid_cursor(lines, s.end)
    &&& !cursor_le(s.end, s.start)
    &&& prev.len() > 0 ==> cursor_le(prev.last().end, s.start)
}

/// `s` with an end that runs past the text clipped: an end below the last
/// line moves to the end of the last line, and an end past the end of its
/// line moves to the end of that line.
pub open spec fn clip_end(lines: Seq<Seq<u8>>, s: Span) -> Span {
    if lines.len() > 0 && s.end.row >= lines.len() {
        Span {
            start: s.start,
            end: Cursor { row: (lines.len() - 1) as usize, column: lines.last().len() as usize },
            category: s.category,
        }
    } else if s.end.row < lines.len() && s.end.column > lines[s.end.row as int].len() {
        Span {
            start: s.start,
            end: Cursor { row: s.end.row, column: lines[s.end.row as int].len() as usize },
            category: s.category,
        }
    } else {
        s
    }
}

/// The spans kept from `spans`, in order: each one, clipped to the text,
/// that is admissible after those kept before it.
pub open spec fn kept_spans(lines: Seq<Seq<u8>>, spans: Seq<Span>) -> Seq<Span>
    decreases spans.len(),
{
    if spans.len() == 0 {
        Seq::empty()
    } else {
        let prev = kept_spans(lines, spans.drop_last());
        let s = clip_end(lines, spans.last());
        if admissible(lines, prev, s) {
            prev.push(s)
        } else {
            prev
        }
    }
}

/// Position `(ar, ac)` is not after `(br, bc)`.
pub open spec fn le_pos(ar: int, ac: int, br: int, bc: int) -> bool {
    ar < br || (ar == br && ac <= bc)
}

/// The byte at column `c` of line `r` lies in `s`.
pub open spec fn covers(s: Span, r: int, c: int) -> bool {
    le_pos(s.start.row as int, s.start.column as int, r, c) && !le_pos(
        s.end.row as int,
        s.end.column as int,
        r,
        c,
    )
}

/// The category of the byte at column `c` of line `r`: that of the span
/// covering it, or uncategorized where none does.
pub open spec fn cat_at(spans: Seq<Span>, r: int, c: int) -> HighlightType {
    if exists|i: int| 0 <= i < spans.len() && covers(#[trigger] spans[i], r, c) {
        spans[choose|i: int| 0 <= i < spans.len() && covers(#[trigger] spans[i], r, c)].category
    } else {
        HighlightType::Uncategorized
    }
}

/// Each span is non-empty with both ends valid in `lines`, and the spans
/// come in document order without overlapping.
pub open spec fn wf_spans(lines: Seq<Seq<u8>>, spans: Seq<Span>) -> bool {
    &&& forall|i: int|
        0 <= i < spans.len() ==> valid_cursor(lines, #[trigger] spans[i].start) && valid_cursor(
            lines,
            spans[i].end,
        ) && !cursor_le(spans[i].end, spans[i].start)
    &&& forall|i: int, j: int|
        0 <= i < j < spans.len() ==> cursor_le(#[trigger] spans[i].end, #[trigger] spans[j].start)
}

/// The bytes of all fragments, in order.
pub open spec fn flatten(frags: Seq<(HighlightType, Seq<u8>)>) -> Seq<u8>
    decreases frags.len(),
{
    if frags.len() == 0 {
        Seq::empty()
    } else {
        flatten(frags.drop_last()) + frags.last().1
    }
}

/// The fragments of line `r`: an empty line has one empty uncategorized
/// fragment; any other line is cut as `cut_ok` says.
pub open spec fn fragments_ok(
    frags: Seq<(HighlightType, Seq<u8>)>,
    line: Seq<u8>,
    r: int,
    spans: Seq<Span>,
) -> bool {
    if line.len() == 0 {
        frags == seq![(HighlightType::Uncategorized, Seq::<u8>::empty())]
    } else {
        cut_ok(frags, line, r, spans)
    }
}

/// Fragments that, together, are the line, none empty, no two neighbours
/// sharing a category, each byte with the category that `cat_at` gives it.
pub open spec fn cut_ok(
    frags: Seq<(HighlightType, Seq<u8>)>,
    line: Seq<u8>,
    r: int,
    spans: Seq<Span>,
) -> bool {
    &&& flatten(frags) == line
    &&& forall|k: int| 0 <= k < frags.len() ==> (#[trigger] frags[k]).1.len() > 0
    &&& forall|k: int| 0 <= k < frags.len() - 1 ==> (#[trigger] frags[k]).0 != frags[k + 1].0
    &&& forall|k: int, c: int|
        #![trigger frags[k], cat_at(spans, r, c)]
        0 <= k < frags.len() && offset(frags, k) <= c < offset(frags, k) + frags[k].1.len()
            ==> cat_at(spans, r, c) == frags[k].0
}

/// Where fragment `k` starts in its line.
pub open spec fn offset(frags: Seq<(HighlightType, Seq<u8>)>, k: int) -> int {
    flatten(frags.take(k)).len() as int
}

/// Fragments that fit a line make up the line.
pub proof fn lemma_fragments_cover(
    frags: Seq<(HighlightType, Seq<u8>)>,
    line: Seq<u8>,
    r: int,
    spans: Seq<Span>,
)
    requires
        fragments_ok(frags, line, r, spans),
    ensures
        flatten(frags) == line,
{
    if line.len() == 0 {
        assert(frags.drop_last() =~= Seq::<(HighlightType, Seq<u8>)>::empty());
        assert(flatten(frags.drop_last()) == Seq::<u8>::empty());
        assert(flatten(frags) == flatten(frags.drop_last()) + frags.last().1);
        assert(flatten(frags) =~= line);
    }
}

/// The byte views of highlighted lines.
pub open spec fn fragment_views(line: Seq<(HighlightType, String)>) -> Seq<(HighlightType, Seq<u8>)> {
    line.map_values(|f: (HighlightType, String)| (f.0, utf8(f.1@)))
}

/// Runs of one category over columns `[0, upto)` of line `r`, as
/// (category, start, end) triples.
pub open spec fn runs_ok(
    runs: Seq<(HighlightType, usize, usize)>,
    upto: int,
    r: int,
    spans: Seq<Span>,
    line: Seq<u8>,
) -> bool {
    &&& (runs.len() == 0 <==> upto == 0)
    &&& runs.len() > 0 ==> runs[0].1 == 0 && runs.last().2 == upto
    &&& forall|k: int|
        0 <= k < runs.len() ==> (#[trigger] runs[k]).1 < runs[k].2 && on_boundary(
            line,
            runs[k].1 as int,
        ) && on_boundary(line, runs[k].2 as int)
    &&& forall|k: int|
        0 <= k < runs.len() - 1 ==> (#[trigger] runs[k]).2 == runs[k + 1].1 && runs[k].0 != runs[k
            + 1].0
    &&& forall|k: int, c: int|
        #![trigger runs[k], cat_at(spans, r, c)]
        0 <= k < runs.len() && runs[k].1 <= c < runs[k].2 ==> cat_at(spans, r, c) == runs[k].0
}

proof fn lemma_cat_at_covered(lines: Seq<Seq<u8>>, spans: Seq<Span>, i: int, r: int, c: int)
    requires
        wf_spans(lines, spans),
        0 <= i < spans.len(),
        covers(spans[i], r, c),
    ensures
        cat_at(spans, r, c) == spans[i].category,
{
    let j = choose|j: int| 0 <= j < spans.len() && covers(#[trigger] spans[j], r, c);
    if j < i {
        assert(cursor_le(spans[j].end, spans[i].start));
    } else if i < j {
        assert(cursor_le(spans[i].end, spans[j].start));
    }
}

/// Whether `c` is a valid cursor in `lines`.
pub fn cursor_is_valid(lines: &Vec<String>, c: Cursor) -> (b: bool)
    ensures
        b == valid_cursor(views(lines@), c),
{
    if c.row >= lines.len() {
        return false;
    }
    let bytes = lines[c.row].as_str().as_bytes();
    if c.column > bytes.len() {
        return false;
    }
    c.column == bytes.len() || !(0x80 <= bytes[c.column] && bytes[c.column] <= 0xbf)
}

/// Whether `a` is not after `b`.
fn cursor_not_after(a: Cursor, b: Cursor) -> (r: bool)
    ensures
        r == cursor_le(a, b),
{
    a.row < b.row || (a.row == b.row && a.column <= b.column)
}

/// `s` clipped to the text, as `clip_end` says.
fn clip_span(lines: &Vec<String>, s: Span) -> (r: Span)
    ensures
        r == clip_end(views(lines@), s),
{
    let n = lines.len();
    if n > 0 && s.end.row >= n {
        let column = lines[n - 1].as_str().as_bytes().len();
        Span { start: s.start, end: Cursor { row: n - 1, column }, category: s.category }
    } else if s.end.row < n {
        let len = lines[s.end.row].as_str().as_bytes().len();
        if s.end.column > len {
            Span { start: s.start, end: Cursor { row: s.end.row, column: len }, category: s.category }
        } else {
            s
        }
    } else {
        s
    }
}

/// The spans of `spans`, clipped to `lines`, that fit in document order, as
/// `kept_spans` describes them.
pub fn normalize_spans(lines: &Vec<String>, spans: &Vec<Span>) -> (r: Vec<Span>)
    ensures
        r@ == kept_spans(views(lines@), spans@),
        wf_spans(views(lines@), r@),
{
    let ghost lv = views(lines@);
    let mut out: Vec<Span> = Vec::new();
    let mut i: usize = 0;
    while i < spans.len()
        invariant
            i <= spans@.len(),
            lv == views(lines@),
            out@ == kept_spans(lv, spans@.take(i as int)),
            wf_spans(lv, out@),
        decreases spans@.len() - i,
    {
        assert(spans@.take(i as int + 1).drop_last() =~= spans@.take(i as int));
        let s = clip_span(lines, spans[i]);
        let fits = cursor_is_valid(lines, s.start) && cursor_is_valid(lines, s.end)
            && !cursor_not_after(s.end, s.start);
        let ok = fits && (out.len() == 0 || cursor_not_after(out[out.len() - 1].end, s.start));
        if ok {
            let ghost before = out@;
            out.push(s);
            assert forall|a: int, b: int| 0 <= a < b < out@.len() implies cursor_le(
                #[trigger] out@[a].end,
                #[trigger] out@[b].start,
            ) by {
                if b == out@.len() - 1 && a < b - 1 {
                    assert(cursor_le(before[a].end, before[b - 1].start));
                }
            }
        }
        i += 1;
    }
    assert(spans@.take(spans@.len() as int) =~= spans@);
    out
}

/// Whether span position `p` is not after column `c` of line `r`.
fn le_cursor(p: Cursor, r: usize, c: usize) -> (b: bool)
    ensures
        b == le_pos(p.row as int, p.column as int, r as int, c as int),
{
    p.row < r || (p.row == r && p.column <= c)
}

/// The runs of line `r`, of `n` bytes, starting the scan of `spans` at
/// `t0`, before which every span has ended; also returns where the scan
/// stopped.
fn line_runs(
    spans: &Vec<Span>,
    lines: Ghost<Seq<Seq<u8>>>,
    r: usize,
    n: usize,
    t0: usize,
) -> (res: (Vec<(HighlightType, usize, usize)>, usize))
    requires
        wf_spans(lines@, spans@),
        r < lines@.len(),
        n == lines@[r as int].len(),
        on_boundary(lines@[r as int], 0),
        t0 <= spans@.len(),
        forall|j: int|
            0 <= j < t0 ==> le_pos(
                (#[trigger] spans@[j]).end.row as int,
                spans@[j].end.column as int,
                r as int,
                0,
            ),
    ensures
        runs_ok(res.0@, n as int, r as int, spans@, lines@[r as int]),
        t0 <= res.1 <= spans@.len(),
        forall|j: int|
            0 <= j < res.1 ==> le_pos(
                (#[trigger] spans@[j]).end.row as int,
                spans@[j].end.column as int,
                r as int,
                n as int,
            ),
{
    let ghost line = lines@[r as int];
    let ghost sp = spans@;
    let mut runs: Vec<(HighlightType, usize, usize)> = Vec::new();
    let mut pos: usize = 0;
    let mut t: usize = t0;
    while pos < n
        invariant
            wf_spans(lines@, sp),
            sp == spans@,
            r < lines@.len(),
            line == lines@[r as int],
            n == line.len(),
            pos <= n,
            t0 <= t <= sp.len(),
            on_boundary(line, pos as int),
            forall|j: int|
                0 <= j < t ==> le_pos(
                    (#[trigger] sp[j]).end.row as int,
                    sp[j].end.column as int,
                    r as int,
                    pos as int,
                ),
            runs_ok(runs@, pos as int, r as int, sp, line),
        decreases n - pos,
    {
        while t < spans.len() && le_cursor(spans[t].end, r, pos)
            invariant
                t0 <= t <= sp.len(),
                sp == spans@,
                forall|j: int|
                    0 <= j < t ==> le_pos(
                        (#[trigger] sp[j]).end.row as int,
                        sp[j].end.column as int,
                        r as int,
                        pos as int,
                    ),
            decreases sp.len() - t,
        {
            t += 1;
        }
        let mut cat = HighlightType::Uncategorized;
        let mut end = n;
        if t < spans.len() {
            let s = spans[t];
            assert(valid_cursor(lines@, s.start) && valid_cursor(lines@, s.end));
            if le_cursor(s.start, r, pos) {
                cat = s.category;
                if s.end.row == r {
                    end = s.end.column;
                }
                assert forall|c: int| pos <= c < end implies cat_at(sp, r as int, c) == cat by {
                    assert(covers(s, r as int, c));
                    lemma_cat_at_covered(lines@, sp, t as int, r as int, c);
                }
            } else {
                if s.start.row == r {
                    end = s.start.column;
                }
                assert forall|c: int| pos <= c < end implies cat_at(sp, r as int, c) == cat by {
                    assert forall|j: int| 0 <= j < sp.len() implies !covers(#[trigger] sp[j], r as int, c) by {
                        if j > t {
                            assert(cursor_le(sp[t as int].end, sp[j].start));
                        }
                    }
                }
            }
        } else {
            assert forall|c: int| pos <= c < end implies cat_at(sp, r as int, c) == cat by {
                assert forall|j: int| 0 <= j < sp.len() implies !covers(#[trigger] sp[j], r as int, c) by {}
            }
        }
        assert(pos < end <= n);
        assert(on_boundary(line, end as int));
        let ghost old_runs = runs@;
        let k = runs.len();
        if k > 0 && runs[k - 1].0 == cat {
            let last = runs.pop().unwrap();
            runs.push((cat, last.1, end));
            assert(runs_ok(runs@, end as int, r as int, sp, line)) by {
                assert forall|q: int, c: int|
                    #![trigger runs@[q], cat_at(sp, r as int, c)]
                    0 <= q < runs@.len() && runs@[q].1 <= c < runs@[q].2 implies cat_at(sp, r as int, c) == runs@[q].0 by {
                    if q < k - 1 {
                        assert(runs@[q] == old_runs[q]);
                    } else if c < pos {
                        assert(old_runs[q].1 <= c < old_runs[q].2);
                    }
                }
            }
        } else {
            runs.push((cat, pos, end));
            assert(runs_ok(runs@, end as int, r as int, sp, line)) by {
                assert forall|q: int, c: int|
                    #![trigger runs@[q], cat_at(sp, r as int, c)]
                    0 <= q < runs@.len() && runs@[q].1 <= c < runs@[q].2 implies cat_at(sp, r as int, c) == runs@[q].0 by {
                    if q < k {
                        assert(runs@[q] == old_runs[q]);
                    }
                }
            }
        }
        pos = end;
    }
    (runs, t)
}

/// Cuts `line` into the fragments that `runs` describe.
fn fragments_of_runs(
    line: &str,
    runs: &Vec<(HighlightType, usize, usize)>,
    r: Ghost<int>,
    spans: Ghost<Seq<Span>>,
) -> (frags: Vec<(HighlightType, String)>)
    requires
        runs_ok(runs@, line.spec_bytes().len() as int, r@, spans@, line.spec_bytes()),
    ensures
        cut_ok(fragment_views(frags@), line.spec_bytes(), r@, spans@),
{
    let ghost lb = line.spec_bytes();
    let ghost rs = runs@;
    let mut out: Vec<(HighlightType, String)> = Vec::new();
    let mut k: usize = 0;
    while k < runs.len()
        invariant
            rs == runs@,
            runs_ok(rs, lb.len() as int, r@, spans@, lb),
            lb == line.spec_bytes(),
            k <= rs.len(),
            out@.len() == k,
            flatten(fragment_views(out@)) == lb.take(if k == 0 { 0 } else { rs[k - 1].2 as int }),
            forall|q: int|
                0 <= q < k ==> (#[trigger] fragment_views(out@)[q]).0 == rs[q].0
                    && fragment_views(out@)[q].1 == lb.subrange(rs[q].1 as int, rs[q].2 as int)
                    && offset(fragment_views(out@), q) == rs[q].1,
        decreases rs.len() - k,
    {
        let run = runs[k];
        let piece = slice_bytes(line, run.1, run.2);
        let ghost before = fragment_views(out@);
        out.push((run.0, piece));
        let ghost fv = fragment_views(out@);
        assert(fv =~= before.push((run.0, utf8(piece@))));
        assert(fv.drop_last() =~= before);
        assert(fv.take(k as int) =~= before);
        assert forall|q: int| 0 <= q < k implies #[trigger] fv.take(q) == before.take(q) by {
            assert(fv.take(q) =~= before.take(q));
        }
        if k > 0 {
            assert(rs[k - 1].2 == rs[k as int].1);
        }
        assert(flatten(fv) =~= lb.take(run.2 as int));
        k += 1;
    }
    let ghost fv = fragment_views(out@);
    assert(lb.take(lb.len() as int) =~= lb);
    assert forall|q: int| 0 <= q < fv.len() - 1 implies (#[trigger] fv[q]).0 != fv[q + 1].0 by {
        assert(rs[q].0 != rs[q + 1].0);
    }
    assert forall|q: int, c: int|
        #![trigger fv[q], cat_at(spans@, r@, c)]
        0 <= q < fv.len() && offset(fv, q) <= c < offset(fv, q) + fv[q].1.len() implies cat_at(spans@, r@, c) == fv[q].0 by {
        assert(rs[q].1 <= c < rs[q].2);
    }
    out
}

/// Highlights each line of `lines` by the categorized `spans`.
pub fn highlight_lines(lines: &Vec<String>, spans: &Vec<Span>) -> (res: HighlightedText)
    requires
        wf_spans(views(lines@), spans@),
    ensures
        res.text@.len() == lines@.len(),
        forall|r: int|
            0 <= r < lines@.len() ==> fragments_ok(
                fragment_views(#[trigger] res.text@[r]@),
                views(lines@)[r],
                r,
                spans@,
            ),
{
    let ghost lv = views(lines@);
    let mut text: Vec<Vec<(HighlightType, String)>> = Vec::new();
    let mut t: usize = 0;
    let mut r: usize = 0;
    while r < lines.len()
        invariant
            lv == views(lines@),
            wf_spans(lv, spans@),
            r <= lines@.len(),
            text@.len() == r,
            t <= spans@.len(),
            forall|j: int|
                0 <= j < t ==> le_pos(
                    (#[trigger] spans@[j]).end.row as int,
                    spans@[j].end.column as int,
                    r as int,
                    0,
                ),
            forall|q: int|
                0 <= q < r ==> fragments_ok(
                    fragment_views(#[trigger] text@[q]@),
                    lv[q],
                    q,
                    spans@,
                ),
        decreases lines@.len() - r,
    {
        let line = lines[r].as_str();
        let n = line.as_bytes().len();
        proof {
            crate::text::lemma_start_boundary(line@);
        }
        let (runs, t1) = line_runs(spans, Ghost(lv), r, n, t);
        if n == 0 {
            let mut frags: Vec<(HighlightType, String)> = Vec::new();
            frags.push((HighlightType::Uncategorized, String::new()));
            assert(fragment_views(frags@) =~= seq![(HighlightType::Uncategorized, Seq::<u8>::empty())]);
            text.push(frags);
        } else {
            let frags = fragments_of_runs(line, &runs, Ghost(r as int), Ghost(spans@));
            text.push(frags);
        }
        t = t1;
        r += 1;
    }
    HighlightedText { text }
}

} // verus!
