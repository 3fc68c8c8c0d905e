//! The undo/redo history of a buffer: what an edit records, and the two
//! stacks of states that undo and redo move between.
use vstd::prelude::*;
use crate::text_buffer::Cursor;

verus! {

/// Which edit a record describes.
#[derive(Clone, Copy, Debug, PartialEq, Eq, Structural)]
pub enum EditKind {
    Insert,
    Remove,
}

/// One edit: `text` was inserted at `start`, ending at `end`; or the span
/// from `start` to `end`, which held `text`, was removed.
pub struct EditRecord {
    pub kind: EditKind,
    pub text: String,
    pub start: Cursor,
    pub end: Cursor,
}

/// The states of a buffer's history: its lines now, the lines before each
/// edit that undo can take back (most recent last), and the lines after
/// each edit that redo can apply again (next one last).
pub struct HistoryModel {
    pub content: Seq<Seq<u8>>,
    pub undo: Seq<Seq<Seq<u8>>>,
    pub redo: Seq<Seq<Seq<u8>>>,
}

/// The history after an edit that leaves the lines `content`.
pub open spec fn after_edit(m: HistoryModel, content: Seq<Seq<u8>>) -> HistoryModel {
    HistoryModel { content, undo: m.undo.push(m.content), redo: Seq::empty() }
}

/// The history after an undo: nothing changes where there is nothing to
/// undo.
pub open spec fn after_undo(m: HistoryModel) -> HistoryModel {
    if m.undo.len() == 0 {
        m
    } else {
        HistoryModel {
            content: m.undo.last(),
            undo: m.undo.drop_last(),
            redo: m.redo.push(m.content),
        }
    }
}

/// The history after a redo: nothing changes where there is nothing to
/// redo.
pub open spec fn after_redo(m: HistoryModel) -> HistoryModel {
    if m.redo.len() == 0 {
        m
    } else {
        HistoryModel {
            content: m.redo.last(),
            undo: m.undo.push(m.content),
            redo: m.redo.drop_last(),
        }
    }
}

/// The history after edits that leave the lines `contents[0]`, then
/// `contents[1]`, and so on.
pub open spec fn apply_edits(m: HistoryModel, contents: Seq<Seq<Seq<u8>>>) -> HistoryModel
    decreases contents.len(),
{
    if contents.len() == 0 {
        m
    } else {
        after_edit(apply_edits(m, contents.drop_last()), contents.last())
    }
}

/// The history after `n` undos.
pub open spec fn undo_times(m: HistoryModel, n: nat) -> HistoryModel
    decreases n,
{
    if n == 0 {
        m
    } else {
        after_undo(undo_times(m, (n - 1) as nat))
    }
}

/// The history after `n` redos.
pub open spec fn redo_times(m: HistoryModel, n: nat) -> HistoryModel
    decreases n,
{
    if n == 0 {
        m
    } else {
        after_redo(redo_times(m, (n - 1) as nat))
    }
}

/// The states a run of edits passes through, the starting one first.
pub open spec fn visited(m: HistoryModel, contents: Seq<Seq<Seq<u8>>>) -> Seq<Seq<Seq<u8>>> {
    seq![m.content] + contents
}

proof fn lemma_edits_shape(m: HistoryModel, contents: Seq<Seq<Seq<u8>>>)
    ensures
        apply_edits(m, contents).content == visited(m, contents)[contents.len() as int],
        apply_edits(m, contents).undo == m.undo + visited(m, contents).take(contents.len() as int),
        contents.len() > 0 ==> apply_edits(m, contents).redo == Seq::<Seq<Seq<u8>>>::empty(),
    decreases contents.len(),
{
    if contents.len() > 0 {
        let init = contents.drop_last();
        lemma_edits_shape(m, init);
        let all = visited(m, contents);
        assert(visited(m, init) =~= all.take(contents.len() as int));
        assert(all.take(init.len() as int) =~= visited(m, init).take(init.len() as int));
        assert(all.take(contents.len() as int) =~= all.take(init.len() as int).push(
            all[init.len() as int],
        ));
    }
}

proof fn lemma_undos_shape(m: HistoryModel, contents: Seq<Seq<Seq<u8>>>, k: nat)
    requires
        k <= contents.len(),
    ensures
        ({
            let n = contents.len() as int;
            let all = visited(m, contents);
            let e = apply_edits(m, contents);
            let u = undo_times(e, k);
            &&& u.content == all[n - k]
            &&& u.undo == m.undo + all.take(n - k)
            &&& u.redo == e.redo + Seq::new(k, |i: int| all[n - i])
        }),
    decreases k,
{
    let n = contents.len() as int;
    let all = visited(m, contents);
    let e = apply_edits(m, contents);
    lemma_edits_shape(m, contents);
    if k == 0 {
        assert(e.redo + Seq::new(0, |i: int| all[n - i]) =~= e.redo);
    } else {
        lemma_undos_shape(m, contents, (k - 1) as nat);
        let prev = undo_times(e, (k - 1) as nat);
        assert(prev.undo.len() > 0);
        assert(prev.undo.last() == all[n - k]);
        assert(prev.undo.drop_last() =~= m.undo + all.take(n - k));
        assert(prev.redo.push(prev.content) =~= e.redo + Seq::new(k, |i: int| all[n - i]));
    }
}

proof fn lemma_redos_shape(m: HistoryModel, contents: Seq<Seq<Seq<u8>>>, j: nat)
    requires
        j <= contents.len(),
    ensures
        ({
            let n = contents.len() as int;
            let all = visited(m, contents);
            let e = apply_edits(m, contents);
            let r = redo_times(undo_times(e, n as nat), j);
            &&& r.content == all[j as int]
            &&& r.undo == m.undo + all.take(j as int)
            &&& r.redo == e.redo + Seq::new((n - j) as nat, |i: int| all[n - i])
        }),
    decreases j,
{
    let n = contents.len() as int;
    let all = visited(m, contents);
    let e = apply_edits(m, contents);
    lemma_undos_shape(m, contents, n as nat);
    if j > 0 {
        lemma_redos_shape(m, contents, (j - 1) as nat);
        let prev = redo_times(undo_times(e, n as nat), (j - 1) as nat);
        assert(prev.redo.len() > 0);
        assert(prev.redo.last() == all[j as int]);
        assert(prev.undo.push(prev.content) =~= m.undo + all.take(j as int));
        assert(prev.redo.drop_last() =~= e.redo + Seq::new((n - j) as nat, |i: int| all[n - i]));
    }
}

/// Undoing as many times as there were edits restores the lines and the
/// undo history from before the edits; redoing as many times again then
/// restores the lines and the undo history from after them. Each undo and
/// each redo in between passes through the states the edits visited.
pub proof fn lemma_undo_redo_symmetry(m: HistoryModel, contents: Seq<Seq<Seq<u8>>>)
    ensures
        ({
            let n = contents.len();
            let e = apply_edits(m, contents);
            let u = undo_times(e, n);
            let r = redo_times(u, n);
            &&& u.content == m.content
            &&& u.undo == m.undo
            &&& r.content == e.content
            &&& r.undo == e.undo
            &&& forall|k: nat| k <= n ==> #[trigger] undo_times(e, k).content == visited(
                m,
                contents,
            )[n - k]
            &&& forall|j: nat| j <= n ==> #[trigger] redo_times(u, j).content == visited(
                m,
                contents,
            )[j as int]
        }),
{
    let n = contents.len();
    let all = visited(m, contents);
    let e = apply_edits(m, contents);
    lemma_edits_shape(m, contents);
    lemma_undos_shape(m, contents, n);
    lemma_redos_shape(m, contents, n);
    assert(all.take(0) =~= Seq::<Seq<Seq<u8>>>::empty());
    assert(m.undo + all.take(0) =~= m.undo);
    assert forall|k: nat| k <= n implies #[trigger] undo_times(e, k).content == all[n - k] by {
        lemma_undos_shape(m, contents, k);
    }
    assert forall|j: nat| j <= n implies #[trigger] redo_times(undo_times(e, n), j).content
        == all[j as int] by {
        lemma_redos_shape(m, contents, j);
    }
}

} // verus!
