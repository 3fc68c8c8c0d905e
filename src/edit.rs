//! Edits of a sequence of lines, addressed by cursor and selection.
use vstd::prelude::*;
use vstd::string::StringSliceAdditionalSpecFns;
use crate::text::{
    concat, join, lemma_join_take, lemma_split_len, lemma_start_boundary, newline_str, slice_bytes,
    split_newlines, split_on, utf8, views, NEWLINE,
};
use crate::text_buffer::{
    inserted, inserted_piece, is_inserted_cursor, removed, selected, valid_cursor,
    valid_selection, Cursor, Selection,
};

verus! {

/// Inserts `text` at `cursor` and returns the cursor at the end of the
/// inserted text.
pub fn insert_lines(lines: &mut Vec<String>, text: &str, cursor: Cursor) -> (r: Cursor)
    requires
        valid_cursor(views(old(lines)@), cursor),
    ensures
        views(final(lines)@) == inserted(views(old(lines)@), text.spec_bytes(), cursor),
        is_inserted_cursor(text.spec_bytes(), cursor, r),
{
    let ghost lv = views(lines@);
    let ghost tb = text.spec_bytes();
    let row = cursor.row;
    let col = cursor.column;
    let segs = split_newlines(text);
    let ghost sp = split_on(tb, NEWLINE);
    proof {
        lemma_split_len(tb, NEWLINE);
    }
    let n = segs.len();
    let count = lines.len();
    assert(row < count);
    let mut tail = lines.split_off(row + 1);
    let line = lines.pop().unwrap();
    let ls = line.as_str();
    let ghost lb = ls.spec_bytes();
    assert(lb == lv[row as int]);
    proof {
        lemma_start_boundary(ls@);
    }
    let prefix = slice_bytes(ls, 0, col);
    let suffix = slice_bytes(ls, col, ls.as_bytes().len());
    assert(utf8(prefix@) =~= lb.take(col as int));
    assert(utf8(suffix@) =~= lb.skip(col as int));
    let ghost mid = Seq::new(sp.len(), |j: int| inserted_piece(lb, col as int, sp, j));
    assert(views(lines@) =~= lv.take(row as int));
    let mut column: usize = 0;
    let mut j: usize = 0;
    while j < n
        invariant
            n == sp.len(),
            n >= 1,
            col <= lb.len(),
            j <= n,
            views(segs@) == sp,
            mid == Seq::new(sp.len(), |j: int| inserted_piece(lb, col as int, sp, j)),
            utf8(prefix@) == lb.take(col as int),
            utf8(suffix@) == lb.skip(col as int),
            views(lines@) == lv.take(row as int) + mid.take(j as int),
            j == n ==> column == (if n == 1 {
                col + sp[0].len()
            } else {
                sp[n - 1].len() as int
            }),
        decreases n - j,
    {
        let head = if j == 0 {
            concat(prefix.as_str(), segs[0].as_str())
        } else {
            segs[j].clone()
        };
        assert(utf8(head@) == (if j == 0 { lb.take(col as int) } else { Seq::empty() })
            + sp[j as int]) by {
            if j > 0 {
                assert(Seq::<u8>::empty() + sp[j as int] =~= sp[j as int]);
            }
        }
        assert(utf8(head@).len() == (if j == 0 { col as int } else { 0 }) + sp[j as int].len());
        let piece = if j + 1 == n {
            column = head.as_str().as_bytes().len();
            concat(head.as_str(), suffix.as_str())
        } else {
            head
        };
        assert(utf8(piece@) =~= mid[j as int]);
        let ghost before = lines@;
        lines.push(piece);
        assert(views(lines@) =~= views(before).push(utf8(piece@)));
        assert(mid.take(j as int + 1) =~= mid.take(j as int).push(mid[j as int]));
        j += 1;
    }
    let new_row = lines.len() - 1;
    lines.append(&mut tail);
    assert(mid.take(n as int) =~= mid);
    assert(views(lines@) =~= inserted(lv, tb, cursor));
    Cursor { row: new_row, column }
}

/// The text that `selection` spans.
pub fn selected_text(lines: &Vec<String>, selection: Selection) -> (r: String)
    requires
        valid_selection(views(lines@), selection),
    ensures
        utf8(r@) == selected(views(lines@), selection),
{
    let ghost lv = views(lines@);
    let a = selection.start;
    let b = selection.end;
    let first = lines[a.row].as_str();
    proof {
        lemma_start_boundary(first@);
    }
    if a.row == b.row {
        return slice_bytes(first, a.column, b.column);
    }
    let mut acc = slice_bytes(first, a.column, first.as_bytes().len());
    let ghost parts = seq![lv[a.row as int].skip(a.column as int)] + lv.subrange(
        a.row + 1,
        b.row as int,
    ) + seq![lv[b.row as int].take(b.column as int)];
    let nl = newline_str();
    assert(utf8(acc@) =~= join(parts.take(1), seq![NEWLINE]));
    let mut i: usize = a.row + 1;
    while i < b.row
        invariant
            a.row < i <= b.row,
            b.row < lv.len(),
            lv == views(lines@),
            nl.spec_bytes() == seq![NEWLINE],
            parts.len() == b.row - a.row + 1,
            forall|k: int| 1 <= k < parts.len() - 1 ==> #[trigger] parts[k] == lv[a.row + k],
            utf8(acc@) == join(parts.take(i - a.row), seq![NEWLINE]),
        decreases b.row - i,
    {
        let k = (i - a.row) as usize;
        proof {
            lemma_join_take(parts, seq![NEWLINE], k as int);
        }
        assert(parts[k as int] == lv[i as int]);
        acc = concat(acc.as_str(), nl);
        acc = concat(acc.as_str(), lines[i].as_str());
        assert(utf8(acc@) =~= join(parts.take(k + 1), seq![NEWLINE]));
        i += 1;
    }
    let last = lines[b.row].as_str();
    proof {
        lemma_start_boundary(last@);
    }
    let head = slice_bytes(last, 0, b.column);
    let k = b.row - a.row;
    proof {
        lemma_join_take(parts, seq![NEWLINE], k as int);
    }
    assert(parts.take(k + 1) =~= parts);
    acc = concat(acc.as_str(), nl);
    acc = concat(acc.as_str(), head.as_str());
    assert(utf8(acc@) =~= join(parts, seq![NEWLINE]));
    acc
}

/// Removes the text that `selection` spans and returns it, with the
/// cursor at the start of the selection.
pub fn remove_lines(lines: &mut Vec<String>, selection: Selection) -> (r: String)
    requires
        valid_selection(views(old(lines)@), selection),
    ensures
        views(final(lines)@) == removed(views(old(lines)@), selection),
        utf8(r@) == selected(views(old(lines)@), selection),
{
    let ghost lv = views(lines@);
    let a = selection.start;
    let b = selection.end;
    let text = selected_text(lines, selection);
    let count = lines.len();
    assert(b.row < count);
    let mut tail = lines.split_off(b.row + 1);
    let last = lines.pop().unwrap();
    let ls = last.as_str();
    assert(ls.spec_bytes() == lv[b.row as int]);
    proof {
        lemma_start_boundary(ls@);
    }
    let keep_tail = slice_bytes(ls, b.column, ls.as_bytes().len());
    let first = if a.row == b.row {
        last
    } else {
        lines.truncate(a.row + 1);
        lines.pop().unwrap()
    };
    let fs = first.as_str();
    assert(fs.spec_bytes() == lv[a.row as int]);
    proof {
        lemma_start_boundary(fs@);
    }
    let keep_head = slice_bytes(fs, 0, a.column);
    let joined = concat(keep_head.as_str(), keep_tail.as_str());
    let ghost before = lines@;
    lines.push(joined);
    lines.append(&mut tail);
    assert(views(lines@) =~= removed(lv, selection));
    text
}


} // verus!
