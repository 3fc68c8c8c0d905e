//! The line store and the edits addressed to it by cursor and selection.
use vstd::prelude::*;
use crate::highlight::{
    python_rules, HighlightType, HighlightedText, LanguageHighlightTypeMapping, PythonMapping,
};
use crate::merge::{flatten, fragment_views, fragments_ok, lemma_fragments_cover};
use crate::parser::python_tree_of;
use crate::syntax::{highlight_spans, node_views};
use crate::edit::{insert_lines, remove_lines, selected_text};
use crate::history::{after_edit, after_redo, after_undo, EditKind, EditRecord, HistoryModel};
use crate::inverse::{
    lemma_insert_then_remove, lemma_inserted_no_newlines, lemma_remove_then_insert,
    lemma_removed_no_newlines,
};
use crate::text::{
    free_of, join, join_strings, lemma_split_free, lines_of, on_boundary, split_on, text_lines,
    utf8, views, NEWLINE,
};

verus! {

/// A position in the buffer: a line index and a byte offset into that line.
#[derive(Clone, Copy, Debug, PartialEq, Eq, Structural)]
pub struct Cursor {
    pub row: usize,
    pub column: usize,
}

/// The span from `start` to `end`, with `start` not after `end`.
#[derive(Clone, Copy, Debug, PartialEq, Eq, Structural)]
pub struct Selection {
    pub start: Cursor,
    pub end: Cursor,
}

/// The languages a buffer can be highlighted in.
#[derive(Clone, Copy, Debug, PartialEq, Eq, Structural)]
pub enum Language {
    PlainText,
    Python,
}

/// `c` addresses a line of `lines` and a character boundary within it.
pub open spec fn valid_cursor(lines: Seq<Seq<u8>>, c: Cursor) -> bool {
    &&& c.row < lines.len()
    &&& c.column <= lines[c.row as int].len()
    &&& on_boundary(lines[c.row as int], c.column as int)
}

/// `a` comes before `b` or is equal to it, rows first, then columns.
pub open spec fn cursor_le(a: Cursor, b: Cursor) -> bool {
    a.row < b.row || (a.row == b.row && a.column <= b.column)
}

/// Both ends of `s` are valid, and in order.
pub open spec fn valid_selection(lines: Seq<Seq<u8>>, s: Selection) -> bool {
    valid_cursor(lines, s.start) && valid_cursor(lines, s.end) && cursor_le(s.start, s.end)
}

/// The line that `text` becomes the `j`-th piece of, when it is inserted
/// into `line` at byte `col`.
pub open spec fn inserted_piece(line: Seq<u8>, col: int, segs: Seq<Seq<u8>>, j: int) -> Seq<u8> {
    (if j == 0 { line.take(col) } else { Seq::empty() }) + segs[j] + (if j == segs.len() - 1 {
        line.skip(col)
    } else {
        Seq::empty()
    })
}

/// The lines after `text` is inserted at `c`: the line at `c` is cut there,
/// the first piece of `text` ends its head, each further piece of `text`
/// is a new line, and the last one is followed by the line's tail.
pub open spec fn inserted(lines: Seq<Seq<u8>>, text: Seq<u8>, c: Cursor) -> Seq<Seq<u8>> {
    let segs = split_on(text, NEWLINE);
    lines.take(c.row as int) + Seq::new(
        segs.len(),
        |j: int| inserted_piece(lines[c.row as int], c.column as int, segs, j),
    ) + lines.skip(c.row + 1)
}

/// `r` is where the cursor stands after `text` is inserted at `c`: at the
/// end of the inserted text.
pub open spec fn is_inserted_cursor(text: Seq<u8>, c: Cursor, r: Cursor) -> bool {
    let segs = split_on(text, NEWLINE);
    let k = segs.len() - 1;
    &&& r.row == c.row + k
    &&& r.column == if k == 0 {
        c.column + segs[0].len()
    } else {
        segs[k].len() as int
    }
}

/// No line holds a newline.
pub open spec fn no_newlines(lines: Seq<Seq<u8>>) -> bool {
    forall|i: int| 0 <= i < lines.len() ==> free_of(#[trigger] lines[i], NEWLINE)
}

/// The text that `s` spans: newlines stand between the pieces of the lines
/// it touches.
pub open spec fn selected(lines: Seq<Seq<u8>>, s: Selection) -> Seq<u8> {
    let a = s.start;
    let b = s.end;
    if a.row == b.row {
        lines[a.row as int].subrange(a.column as int, b.column as int)
    } else {
        join(
            seq![lines[a.row as int].skip(a.column as int)] + lines.subrange(
                a.row + 1,
                b.row as int,
            ) + seq![lines[b.row as int].take(b.column as int)],
            seq![NEWLINE],
        )
    }
}

/// The lines after the span of `s` is removed: the head of its first line
/// joins the tail of its last line.
pub open spec fn removed(lines: Seq<Seq<u8>>, s: Selection) -> Seq<Seq<u8>> {
    lines.take(s.start.row as int) + seq![
        lines[s.start.row as int].take(s.start.column as int) + lines[s.end.row as int].skip(
            s.end.column as int,
        ),
    ] + lines.skip(s.end.row + 1)
}

/// The lines after `r`'s edit is applied to `before`, where `r` fits
/// `before`.
pub open spec fn record_ok(r: EditRecord, before: Seq<Seq<u8>>, after: Seq<Seq<u8>>) -> bool {
    let sel = Selection { start: r.start, end: r.end };
    &&& no_newlines(before)
    &&& match r.kind {
        EditKind::Insert => {
            &&& valid_cursor(before, r.start)
            &&& is_inserted_cursor(utf8(r.text@), r.start, r.end)
            &&& after == inserted(before, utf8(r.text@), r.start)
        },
        EditKind::Remove => {
            &&& valid_selection(before, sel)
            &&& utf8(r.text@) == selected(before, sel)
            &&& after == removed(before, sel)
        },
    }
}

/// The pieces of a text's lines hold no newline.
pub proof fn lemma_lines_of_no_newlines(b: Seq<u8>)
    ensures
        no_newlines(lines_of(b)),
{
    if b.len() > 0 {
        let sp = split_on(b, NEWLINE);
        lemma_split_free(b, NEWLINE);
        let ls = lines_of(b);
        assert forall|i: int| 0 <= i < ls.len() implies free_of(#[trigger] ls[i], NEWLINE) by {
            assert(free_of(sp[i], NEWLINE));
            assert forall|q: int| 0 <= q < ls[i].len() implies #[trigger] ls[i][q] != NEWLINE by {
                assert(ls[i][q] == sp[i][q]);
            }
        }
    }
}

/// A text buffer that keeps its text as a sequence of lines, with the
/// history of its edits.
pub struct LineTextBuffer {
    pub file_path: Option<String>,
    pub lines: Vec<String>,
    pub language: Language,
    pub undo_stack: Vec<EditRecord>,
    pub redo_stack: Vec<EditRecord>,
    pub undo_states: Ghost<Seq<Seq<Seq<u8>>>>,
    pub redo_states: Ghost<Seq<Seq<Seq<u8>>>>,
}

impl LineTextBuffer {
    /// The bytes of each line.
    pub open spec fn content(&self) -> Seq<Seq<u8>> {
        views(self.lines@)
    }

    /// The lines now and the states that undo and redo lead to.
    pub open spec fn model(&self) -> HistoryModel {
        HistoryModel { content: self.content(), undo: self.undo_states@, redo: self.redo_states@ }
    }

    /// No line holds a newline, and each recorded edit leads from the state
    /// before it to the state after it.
    pub open spec fn wf(&self) -> bool {
        let u = self.undo_stack@;
        let us = self.undo_states@;
        let d = self.redo_stack@;
        let ds = self.redo_states@;
        &&& no_newlines(self.content())
        &&& u.len() == us.len()
        &&& d.len() == ds.len()
        &&& forall|i: int|
            0 <= i < u.len() ==> record_ok(
                #[trigger] u[i],
                us[i],
                if i + 1 < u.len() {
                    us[i + 1]
                } else {
                    self.content()
                },
            )
        &&& forall|i: int|
            0 <= i < d.len() ==> record_ok(
                #[trigger] d[i],
                if i + 1 < d.len() {
                    ds[i + 1]
                } else {
                    self.content()
                },
                ds[i],
            )
    }

    /// A buffer holding the lines of `initial_text`, linked to no file.
    pub fn new(initial_text: String) -> (r: Self)
        ensures
            r.wf(),
            r.content() == lines_of(utf8(initial_text@)),
            r.model().undo.len() == 0,
            r.model().redo.len() == 0,
            r.file_path is None,
            r.language == Language::PlainText,
    {
        Self::with_path(initial_text, None)
    }

    /// A buffer holding the lines of `initial_text`, linked to the file at
    /// `path`.
    pub fn from_file(initial_text: String, path: String) -> (r: Self)
        ensures
            r.wf(),
            r.content() == lines_of(utf8(initial_text@)),
            r.model().undo.len() == 0,
            r.model().redo.len() == 0,
            r.file_path == Some(path),
            r.language == Language::PlainText,
    {
        Self::with_path(initial_text, Some(path))
    }

    fn with_path(initial_text: String, file_path: Option<String>) -> (r: Self)
        ensures
            r.wf(),
            r.content() == lines_of(utf8(initial_text@)),
            r.model().undo.len() == 0,
            r.model().redo.len() == 0,
            r.file_path == file_path,
            r.language == Language::PlainText,
    {
        proof {
            lemma_lines_of_no_newlines(utf8(initial_text@));
        }
        LineTextBuffer {
            file_path,
            lines: text_lines(initial_text.as_str()),
            language: Language::PlainText,
            undo_stack: Vec::new(),
            redo_stack: Vec::new(),
            undo_states: Ghost(Seq::empty()),
            redo_states: Ghost(Seq::empty()),
        }
    }

    /// Inserts `text` at `cursor`, records the edit, and returns the cursor
    /// at the end of the inserted text.
    pub fn insert_text(&mut self, text: String, cursor: Cursor) -> (r: Cursor)
        requires
            old(self).wf(),
            valid_cursor(old(self).content(), cursor),
        ensures
            final(self).wf(),
            final(self).content() == inserted(old(self).content(), utf8(text@), cursor),
            is_inserted_cursor(utf8(text@), cursor, r),
            final(self).model() == after_edit(old(self).model(), final(self).content()),
            final(self).undo_stack@ == old(self).undo_stack@.push(
                EditRecord { kind: EditKind::Insert, text, start: cursor, end: r },
            ),
            final(self).redo_stack@.len() == 0,
            final(self).file_path == old(self).file_path,
            final(self).language == old(self).language,
    {
        let ghost before = self.content();
        let r = insert_lines(&mut self.lines, text.as_str(), cursor);
        proof {
            lemma_inserted_no_newlines(before, utf8(text@), cursor);
        }
        self.push_record(EditRecord { kind: EditKind::Insert, text, start: cursor, end: r }, Ghost(before));
        r
    }

    /// Removes the text that `selection` spans, records the edit, and
    /// returns the removed text with the cursor at the start of the
    /// selection.
    pub fn remove_text(&mut self, selection: Selection) -> (r: (String, Cursor))
        requires
            old(self).wf(),
            valid_selection(old(self).content(), selection),
        ensures
            final(self).wf(),
            final(self).content() == removed(old(self).content(), selection),
            utf8(r.0@) == selected(old(self).content(), selection),
            r.1 == selection.start,
            final(self).model() == after_edit(old(self).model(), final(self).content()),
            final(self).undo_stack@.len() == old(self).undo_stack@.len() + 1,
            final(self).undo_stack@.drop_last() == old(self).undo_stack@,
            final(self).undo_stack@.last().kind == EditKind::Remove,
            final(self).undo_stack@.last().text@ == r.0@,
            final(self).undo_stack@.last().start == selection.start,
            final(self).undo_stack@.last().end == selection.end,
            final(self).redo_stack@.len() == 0,
            final(self).file_path == old(self).file_path,
            final(self).language == old(self).language,
    {
        let ghost before = self.content();
        let removed_text = remove_lines(&mut self.lines, selection);
        proof {
            lemma_removed_no_newlines(before, selection);
        }
        let record = EditRecord {
            kind: EditKind::Remove,
            text: removed_text.clone(),
            start: selection.start,
            end: selection.end,
        };
        self.push_record(record, Ghost(before));
        (removed_text, selection.start)
    }

    /// Records an edit that led from `before` to the present lines, and
    /// forgets what could be redone.
    fn push_record(&mut self, record: EditRecord, before: Ghost<Seq<Seq<u8>>>)
        requires
            ({
                let u = old(self).undo_stack@;
                let us = old(self).undo_states@;
                &&& u.len() == us.len()
                &&& forall|i: int|
                    0 <= i < u.len() ==> record_ok(
                        #[trigger] u[i],
                        us[i],
                        if i + 1 < u.len() {
                            us[i + 1]
                        } else {
                            before@
                        },
                    )
            }),
            record_ok(record, before@, old(self).content()),
            no_newlines(old(self).content()),
        ensures
            final(self).wf(),
            final(self).lines == old(self).lines,
            final(self).undo_stack@ == old(self).undo_stack@.push(record),
            final(self).redo_stack@.len() == 0,
            final(self).model() == after_edit(
                HistoryModel {
                    content: before@,
                    undo: old(self).undo_states@,
                    redo: old(self).redo_states@,
                },
                old(self).content(),
            ),
            final(self).file_path == old(self).file_path,
            final(self).language == old(self).language,
    {
        self.undo_stack.push(record);
        self.undo_states = Ghost(self.undo_states@.push(before@));
        self.redo_stack.clear();
        self.redo_states = Ghost(Seq::empty());
        assert(self.redo_stack@ =~= Seq::<EditRecord>::empty());
        let ghost u = self.undo_stack@;
        let ghost us = self.undo_states@;
        assert forall|i: int|
            0 <= i < u.len() implies record_ok(
            #[trigger] u[i],
            us[i],
            if i + 1 < u.len() {
                us[i + 1]
            } else {
                self.content()
            },
        ) by {
            if i + 1 < u.len() {
                assert(u[i] == old(self).undo_stack@[i]);
            }
        }
    }

    /// The cursor that undoing `r` leaves: where an insertion was made, or
    /// at the end of the text a removal put back.
    pub open spec fn undo_cursor(r: EditRecord) -> Cursor {
        match r.kind {
            EditKind::Insert => r.start,
            EditKind::Remove => r.end,
        }
    }

    /// The cursor that redoing `r` leaves: at the end of the text inserted
    /// again, or where the removed span started.
    pub open spec fn redo_cursor(r: EditRecord) -> Cursor {
        match r.kind {
            EditKind::Insert => r.end,
            EditKind::Remove => r.start,
        }
    }

    /// Takes back the most recent edit that is not undone yet and returns
    /// the cursor it leaves; `None`, with nothing changed, where there is
    /// none.
    pub fn undo(&mut self) -> (r: Option<Cursor>)
        requires
            old(self).wf(),
        ensures
            final(self).wf(),
            final(self).model() == after_undo(old(self).model()),
            r is None <==> old(self).model().undo.len() == 0,
            r is None ==> final(self).undo_stack@ == old(self).undo_stack@ && final(self).redo_stack@
                == old(self).redo_stack@,
            r is Some ==> r->0 == Self::undo_cursor(old(self).undo_stack@.last()),
            r is Some ==> final(self).undo_stack@ == old(self).undo_stack@.drop_last()
                && final(self).redo_stack@ == old(self).redo_stack@.push(
                old(self).undo_stack@.last(),
            ),
            final(self).file_path == old(self).file_path,
            final(self).language == old(self).language,
    {
        let ghost after = self.content();
        let ghost old_undo = self.undo_stack@;
        let ghost old_redo = self.redo_stack@;
        let record = match self.undo_stack.pop() {
            None => return None,
            Some(record) => record,
        };
        let ghost before = self.undo_states@.last();
        assert(record_ok(record, before, after)) by {
            assert(record == old_undo[old_undo.len() - 1]);
        }
        let sel = Selection { start: record.start, end: record.end };
        let cursor = match record.kind {
            EditKind::Insert => {
                proof {
                    lemma_insert_then_remove(before, record.text@, record.start, record.end);
                }
                let _ = remove_lines(&mut self.lines, sel);
                record.start
            },
            EditKind::Remove => {
                proof {
                    lemma_remove_then_insert(before, sel);
                }
                insert_lines(&mut self.lines, record.text.as_str(), record.start)
            },
        };
        assert(self.content() == before);
        self.undo_states = Ghost(self.undo_states@.drop_last());
        self.redo_stack.push(record);
        self.redo_states = Ghost(self.redo_states@.push(after));
        proof {
            let u = self.undo_stack@;
            let us = self.undo_states@;
            let d = self.redo_stack@;
            let ds = self.redo_states@;
            assert forall|i: int| 0 <= i < u.len() implies record_ok(
                #[trigger] u[i],
                us[i],
                if i + 1 < u.len() {
                    us[i + 1]
                } else {
                    self.content()
                },
            ) by {
                assert(u[i] == old_undo[i]);
            }
            assert forall|i: int| 0 <= i < d.len() implies record_ok(
                #[trigger] d[i],
                if i + 1 < d.len() {
                    ds[i + 1]
                } else {
                    self.content()
                },
                ds[i],
            ) by {
                if i + 1 < d.len() {
                    assert(d[i] == old_redo[i]);
                }
            }
        }
        Some(cursor)
    }

    /// Applies again the most recently undone edit and returns the cursor
    /// it leaves; `None`, with nothing changed, where there is none.
    pub fn redo(&mut self) -> (r: Option<Cursor>)
        requires
            old(self).wf(),
        ensures
            final(self).wf(),
            final(self).model() == after_redo(old(self).model()),
            r is None <==> old(self).model().redo.len() == 0,
            r is None ==> final(self).undo_stack@ == old(self).undo_stack@ && final(self).redo_stack@
                == old(self).redo_stack@,
            r is Some ==> r->0 == Self::redo_cursor(old(self).redo_stack@.last()),
            r is Some ==> final(self).redo_stack@ == old(self).redo_stack@.drop_last()
                && final(self).undo_stack@ == old(self).undo_stack@.push(
                old(self).redo_stack@.last(),
            ),
            final(self).file_path == old(self).file_path,
            final(self).language == old(self).language,
    {
        let ghost before = self.content();
        let ghost old_undo = self.undo_stack@;
        let ghost old_redo = self.redo_stack@;
        let record = match self.redo_stack.pop() {
            None => return None,
            Some(record) => record,
        };
        let ghost after = self.redo_states@.last();
        assert(record_ok(record, before, after)) by {
            assert(record == old_redo[old_redo.len() - 1]);
        }
        let sel = Selection { start: record.start, end: record.end };
        let cursor = match record.kind {
            EditKind::Insert => {
                proof {
                    lemma_inserted_no_newlines(before, utf8(record.text@), record.start);
                }
                insert_lines(&mut self.lines, record.text.as_str(), record.start)
            },
            EditKind::Remove => {
                proof {
                    lemma_removed_no_newlines(before, sel);
                }
                let _ = remove_lines(&mut self.lines, sel);
                record.start
            },
        };
        assert(self.content() == after);
        self.redo_states = Ghost(self.redo_states@.drop_last());
        self.undo_stack.push(record);
        self.undo_states = Ghost(self.undo_states@.push(before));
        proof {
            let u = self.undo_stack@;
            let us = self.undo_states@;
            let d = self.redo_stack@;
            let ds = self.redo_states@;
            assert forall|i: int| 0 <= i < u.len() implies record_ok(
                #[trigger] u[i],
                us[i],
                if i + 1 < u.len() {
                    us[i + 1]
                } else {
                    self.content()
                },
            ) by {
                if i + 1 < u.len() {
                    assert(u[i] == old_undo[i]);
                }
            }
            assert forall|i: int| 0 <= i < d.len() implies record_ok(
                #[trigger] d[i],
                if i + 1 < d.len() {
                    ds[i + 1]
                } else {
                    self.content()
                },
                ds[i],
            ) by {
                assert(d[i] == old_redo[i]);
            }
        }
        Some(cursor)
    }

    /// Whether `cursor` addresses a line and a character boundary in it.
    pub fn is_valid_cursor(&self, cursor: Cursor) -> (r: bool)
        ensures
            r == valid_cursor(self.content(), cursor),
    {
        crate::merge::cursor_is_valid(&self.lines, cursor)
    }

    /// Whether both ends of `selection` are valid and in order.
    pub fn is_valid_selection(&self, selection: Selection) -> (r: bool)
        ensures
            r == valid_selection(self.content(), selection),
    {
        let a = selection.start;
        let b = selection.end;
        self.is_valid_cursor(a) && self.is_valid_cursor(b) && (a.row < b.row || (a.row == b.row
            && a.column <= b.column))
    }

    /// The text that `selection` spans.
    pub fn get_selected_text(&self, selection: Selection) -> (r: String)
        requires
            valid_selection(self.content(), selection),
        ensures
            utf8(r@) == selected(self.content(), selection),
    {
        selected_text(&self.lines, selection)
    }

    /// The whole text, with `eol_sequence` between each two lines.
    pub fn get_content(&self, eol_sequence: String) -> (r: String)
        ensures
            utf8(r@) == join(self.content(), utf8(eol_sequence@)),
    {
        join_strings(&self.lines, eol_sequence.as_str())
    }

    /// The length in bytes of line `row`.
    pub fn get_row_length(&self, row: usize) -> (r: usize)
        requires
            row < self.content().len(),
        ensures
            r == self.content()[row as int].len(),
    {
        self.lines[row].as_str().as_bytes().len()
    }

    /// Each line as one uncategorized fragment.
    pub fn get_highlighted_text(&self) -> (res: HighlightedText)
        ensures
            res.text@.len() == self.lines@.len(),
            forall|r: int|
                0 <= r < self.lines@.len() ==> #[trigger] res.text@[r]@ == seq![
                    (HighlightType::Uncategorized, self.lines@[r]),
                ],
    {
        let mut text: Vec<Vec<(HighlightType, String)>> = Vec::new();
        let mut i: usize = 0;
        while i < self.lines.len()
            invariant
                i <= self.lines@.len(),
                text@.len() == i,
                forall|r: int|
                    0 <= r < i ==> #[trigger] text@[r]@ == seq![
                        (HighlightType::Uncategorized, self.lines@[r]),
                    ],
            decreases self.lines@.len() - i,
        {
            let mut line: Vec<(HighlightType, String)> = Vec::new();
            line.push((HighlightType::Uncategorized, self.lines[i].clone()));
            assert(line@ =~= seq![(HighlightType::Uncategorized, self.lines@[i as int])]);
            text.push(line);
            i += 1;
        }
        HighlightedText { text }
    }

    /// Highlights the whole text in the buffer's language. Python is cut by
    /// the spans of the tree the parser gives, each line into fragments that
    /// together are the line; plain text, or Python the parser gives no tree
    /// for, is one uncategorized fragment per line.
    pub fn highlight_complete_text(&mut self) -> (res: HighlightedText)
        ensures
            *final(self) == *old(self),
            res.text@.len() == old(self).content().len(),
            forall|r: int|
                0 <= r < old(self).content().len() ==> flatten(fragment_views(#[trigger] res.text@[r]@))
                    == old(self).content()[r],
            old(self).language == Language::Python && python_tree_of(old(self).content()) is Some
                ==> forall|r: int|
                0 <= r < old(self).content().len() ==> fragments_ok(
                    fragment_views(#[trigger] res.text@[r]@),
                    old(self).content()[r],
                    r,
                    highlight_spans(
                        old(self).content(),
                        python_tree_of(old(self).content())->0,
                        python_rules(),
                    ),
                ),
            old(self).language == Language::PlainText || python_tree_of(old(self).content()) is None
                ==> forall|r: int|
                0 <= r < old(self).lines@.len() ==> #[trigger] res.text@[r]@ == seq![
                    (HighlightType::Uncategorized, old(self).lines@[r]),
                ],
    {
        let ghost content = self.content();
        let parsed = match self.language {
            Language::Python => crate::parser::parse_python(&self.lines),
            Language::PlainText => None,
        };
        match parsed {
            Some(nodes) => {
                let mapping = PythonMapping::new();
                let res = crate::syntax::highlight_nodes(&self.lines, &nodes, &mapping);
                assert forall|r: int| 0 <= r < content.len() implies flatten(
                    fragment_views(#[trigger] res.text@[r]@),
                ) == content[r] by {
                    lemma_fragments_cover(
                        fragment_views(res.text@[r]@),
                        content[r],
                        r,
                        highlight_spans(content, node_views(nodes@), mapping.rules()),
                    );
                }
                res
            },
            None => {
                let res = self.get_highlighted_text();
                assert forall|r: int| 0 <= r < content.len() implies flatten(
                    fragment_views(#[trigger] res.text@[r]@),
                ) == content[r] by {
                    let f = fragment_views(res.text@[r]@);
                    assert(f =~= seq![(HighlightType::Uncategorized, content[r])]);
                    assert(f.drop_last() =~= Seq::<(HighlightType, Seq<u8>)>::empty());
                    assert(flatten(f.drop_last()) == Seq::<u8>::empty());
                    assert(flatten(f) == flatten(f.drop_last()) + f.last().1);
                    assert(flatten(f) =~= content[r]);
                }
                res
            },
        }
    }

    /// The number of lines.
    pub fn get_lines_length(&self) -> (r: usize)
        ensures
            r == self.content().len(),
    {
        self.lines.len()
    }
}

} // verus!
