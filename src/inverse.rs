//! Laws relating the edits: an insertion and the removal of what it
//! inserted undo each other, and so do a removal and the insertion of what
//! it removed.
use vstd::prelude::*;
use crate::text::{
    free_of, join, lemma_join_first, lemma_join_split, lemma_split_free, lemma_split_join,
    lemma_split_len, lemma_split_single, lemma_start_boundary, on_boundary, split_on, utf8,
    NEWLINE,
};
use crate::text_buffer::{
    inserted, inserted_piece, is_inserted_cursor, no_newlines, removed, selected,
    valid_cursor, valid_selection, Cursor, Selection,
};

verus! {

/// Inserting text keeps every line free of newlines.
pub proof fn lemma_inserted_no_newlines(lines: Seq<Seq<u8>>, text: Seq<u8>, c: Cursor)
    requires
        no_newlines(lines),
        valid_cursor(lines, c),
    ensures
        no_newlines(inserted(lines, text, c)),
{
    let segs = split_on(text, NEWLINE);
    lemma_split_free(text, NEWLINE);
    lemma_split_len(text, NEWLINE);
    let line = lines[c.row as int];
    let after = inserted(lines, text, c);
    assert forall|i: int| 0 <= i < after.len() implies free_of(#[trigger] after[i], NEWLINE) by {
        if c.row <= i < c.row + segs.len() {
            let j = i - c.row;
            let p = inserted_piece(line, c.column as int, segs, j);
            assert(free_of(line, NEWLINE));
            assert(free_of(segs[j], NEWLINE));
            assert forall|q: int| 0 <= q < p.len() implies #[trigger] p[q] != NEWLINE by {
                let pre = if j == 0 { line.take(c.column as int) } else { Seq::<u8>::empty() };
                if q < pre.len() {
                    assert(p[q] == line[q]);
                } else if q < pre.len() + segs[j].len() {
                    assert(p[q] == segs[j][q - pre.len()]);
                } else {
                    assert(p[q] == line[c.column + q - pre.len() - segs[j].len()]);
                }
            }
        } else if i < c.row {
            assert(after[i] == lines[i]);
        } else {
            assert(after[i] == lines[i - segs.len() + 1]);
        }
    }
}

/// Removing a selection keeps every line free of newlines.
pub proof fn lemma_removed_no_newlines(lines: Seq<Seq<u8>>, s: Selection)
    requires
        no_newlines(lines),
        valid_selection(lines, s),
    ensures
        no_newlines(removed(lines, s)),
{
    let after = removed(lines, s);
    let a = lines[s.start.row as int];
    let b = lines[s.end.row as int];
    assert forall|i: int| 0 <= i < after.len() implies free_of(#[trigger] after[i], NEWLINE) by {
        if i == s.start.row {
            assert(free_of(a, NEWLINE) && free_of(b, NEWLINE));
            let m = after[i];
            assert forall|q: int| 0 <= q < m.len() implies #[trigger] m[q] != NEWLINE by {
                if q < s.start.column {
                    assert(m[q] == a[q]);
                } else {
                    assert(m[q] == b[s.end.column + q - s.start.column]);
                }
            }
        } else if i < s.start.row {
            assert(after[i] == lines[i]);
        } else {
            assert(after[i] == lines[i + s.end.row - s.start.row]);
        }
    }
}

/// Removing exactly what an insertion inserted gives back the inserted
/// text, the cursor where the insertion was made, and the lines as they
/// were before it.
pub proof fn lemma_insert_then_remove(lines: Seq<Seq<u8>>, text: Seq<char>, c: Cursor, end: Cursor)
    requires
        valid_cursor(lines, c),
        is_inserted_cursor(utf8(text), c, end),
    ensures
        valid_selection(inserted(lines, utf8(text), c), Selection { start: c, end }),
        selected(inserted(lines, utf8(text), c), Selection { start: c, end }) == utf8(text),
        removed(inserted(lines, utf8(text), c), Selection { start: c, end }) == lines,
{
    let t = utf8(text);
    let segs = split_on(t, NEWLINE);
    lemma_split_len(t, NEWLINE);
    lemma_join_split(t, NEWLINE);
    lemma_start_boundary(text);
    let k = segs.len() - 1;
    let row = c.row as int;
    let col = c.column as int;
    let line = lines[row];
    let after = inserted(lines, t, c);
    let sel = Selection { start: c, end };
    let mid = Seq::new(segs.len(), |j: int| inserted_piece(line, col, segs, j));
    assert(after =~= lines.take(row) + mid + lines.skip(row + 1));
    assert(after.len() == lines.len() + k);
    assert(after[row] == mid[0]);
    assert(after[row + k] == mid[k]);
    // The first segment begins the text.
    lemma_join_first(segs, seq![NEWLINE]);
    assert(segs[0].len() > 0 ==> segs[0][0] == t[0]) by {
        if segs[0].len() > 0 {
            assert(join(segs, seq![NEWLINE]).take(segs[0].len() as int)[0] == segs[0][0]);
        }
    }
    // The insertion point is still a boundary.
    let m0 = mid[0];
    assert(on_boundary(m0, col)) by {
        if col < m0.len() {
            if segs[0].len() > 0 {
                assert(m0[col] == segs[0][0]);
            } else {
                assert(k == 0);
                assert(m0[col] == line[col]);
            }
        }
    }
    // So is the end of the inserted text.
    let mk = mid[k];
    let pre_len = if k == 0 { col } else { 0 };
    assert(end.column == pre_len + segs[k].len());
    assert(on_boundary(mk, end.column as int)) by {
        if end.column < mk.len() {
            assert(mk[end.column as int] == line[col]);
        }
    }
    assert(valid_selection(after, sel));
    // What the selection spans is the text.
    if k == 0 {
        assert(after[row].subrange(col, end.column as int) =~= segs[0]);
        assert(selected(after, sel) == t);
    } else {
        let parts = seq![after[row].skip(col)] + after.subrange(row + 1, end.row as int) + seq![
            after[end.row as int].take(end.column as int),
        ];
        assert forall|j: int| 0 <= j < parts.len() implies #[trigger] parts[j] == segs[j] by {
            if j == 0 {
                assert(parts[0] =~= segs[0]);
            } else if j < k {
                assert(parts[j] == after[row + j]);
                assert(after[row + j] == mid[j]);
                assert(mid[j] =~= segs[j]);
            } else {
                assert(parts[j] =~= segs[k]);
            }
        }
        assert(parts =~= segs);
    }
    // Removing it gives the lines back.
    assert(after[row].take(col) =~= line.take(col));
    assert(after[end.row as int].skip(end.column as int) =~= line.skip(col));
    assert(line.take(col) + line.skip(col) =~= line);
    assert(removed(after, sel) =~= lines);
}

/// Inserting what a removal removed, where the selection started, gives
/// back the lines as they were and the cursor at the selection's end.
pub proof fn lemma_remove_then_insert(lines: Seq<Seq<u8>>, s: Selection)
    requires
        no_newlines(lines),
        valid_selection(lines, s),
    ensures
        valid_cursor(removed(lines, s), s.start),
        inserted(removed(lines, s), selected(lines, s), s.start) == lines,
        is_inserted_cursor(selected(lines, s), s.start, s.end),
{
    let a = s.start;
    let b = s.end;
    let row = a.row as int;
    let la = lines[row];
    let lb = lines[b.row as int];
    let after = removed(lines, s);
    let m = la.take(a.column as int) + lb.skip(b.column as int);
    assert(after[row] == m);
    assert(valid_cursor(after, a)) by {
        if a.column < m.len() {
            assert(m[a.column as int] == lb[b.column as int]);
        }
    }
    let t = selected(lines, s);
    let segs = split_on(t, NEWLINE);
    assert(free_of(la, NEWLINE) && free_of(lb, NEWLINE));
    if a.row == b.row {
        assert(free_of(t, NEWLINE)) by {
            assert forall|j: int| 0 <= j < t.len() implies #[trigger] t[j] != NEWLINE by {
                assert(t[j] == la[a.column + j]);
            }
        }
        lemma_split_single(t, NEWLINE);
        assert(inserted_piece(m, a.column as int, segs, 0) =~= la);
        assert(inserted(after, t, a) =~= lines);
    } else {
        let parts = seq![la.skip(a.column as int)] + lines.subrange(a.row + 1, b.row as int)
            + seq![lb.take(b.column as int)];
        let k = b.row - a.row;
        assert(parts.len() == k + 1);
        assert forall|j: int| 0 <= j < parts.len() implies free_of(#[trigger] parts[j], NEWLINE) by {
            if j == 0 {
                assert forall|q: int| 0 <= q < parts[0].len() implies #[trigger] parts[0][q] != NEWLINE by {
                    assert(parts[0][q] == la[a.column + q]);
                }
            } else if j < k {
                assert(parts[j] == lines[row + j]);
            } else {
                assert forall|q: int| 0 <= q < parts[j].len() implies #[trigger] parts[j][q] != NEWLINE by {
                    assert(parts[j][q] == lb[q]);
                }
            }
        }
        lemma_split_join(parts, NEWLINE);
        assert(segs == parts);
        let mid = Seq::new(segs.len(), |j: int| inserted_piece(m, a.column as int, segs, j));
        assert forall|j: int| 0 <= j < mid.len() implies #[trigger] mid[j] == lines[row + j] by {
            if j == 0 {
                assert(mid[0] =~= la);
            } else if j < k {
                assert(mid[j] =~= parts[j]);
            } else {
                assert(mid[j] =~= lb);
            }
        }
        assert(inserted(after, t, a) =~= lines);
    }
}

} // verus!
