//! What previews show of the steps that an application carries out.

use vstd::prelude::*;
use vstd::utf8::{decode_utf8, valid_utf8};

use crate::commit_run::{CommitActionView, CommitEventView, CommitPhase, CommitView};
use crate::edits::{EditView, edited, edits_in_order};
use crate::manifest::PathView;
use crate::mutation_reports::{
    FileContent,
    between_characters,
    content_of,
    law_presentation_shows_what_is_applied,
    line_diff,
    presented,
    step_part,
    steps_text,
};
use crate::path::path_text;
use crate::plan::OperationView;
use crate::staging::undo_place;

verus! {

/// The line that a preview shows of a renaming names the place that the
/// application moves from and then the place that it moves to.
pub proof fn law_shown_renamings_are_carried_out(
    c: CommitView,
    e: CommitEventView,
    from: PathView,
    to: PathView,
    files: Seq<FileContent>,
)
    requires
        c.sound(),
        c.expects(e),
        c.phase != CommitPhase::Start,
        c.operation() is Rename,
        c.next(e).0.phase == CommitPhase::Moving,
        c.next(e).0.done == c.done,
        c.next(e).1 == (CommitActionView::Move { from, to }),
    ensures
        step_part(c.operation(), files) == Some("rename "@ + path_text(from) + " -> "@ + path_text(to) + "\n"@),
        from == c.operation()->Rename_old_path,
        to == c.operation()->Rename_new_path,
{
}

/// The line that a preview shows of a creation names the place at which the
/// application makes or empties a file.
pub proof fn law_shown_creations_are_carried_out(
    c: CommitView,
    e: CommitEventView,
    path: PathView,
    files: Seq<FileContent>,
)
    requires
        c.sound(),
        c.expects(e),
        c.next(e).1 == CommitActionView::Create(path) || c.next(e).1 == CommitActionView::Truncate(path),
    ensures
        step_part(c.operation(), files) == Some("create "@ + path_text(path) + "\n"@),
{
}

/// The line that a preview shows of a deletion names the place from which the
/// application takes something away.
pub proof fn law_shown_deletions_are_carried_out(
    c: CommitView,
    e: CommitEventView,
    from: PathView,
    to: PathView,
    files: Seq<FileContent>,
)
    requires
        c.sound(),
        c.expects(e),
        c.phase != CommitPhase::Start,
        c.operation() is Delete,
        c.next(e).1 == (CommitActionView::Move { from, to }),
    ensures
        step_part(c.operation(), files) == Some("delete "@ + path_text(from) + "\n"@),
        from == c.operation()->Delete_path,
{
}

proof fn lemma_shown_edits(text: Seq<u8>, edits: Seq<EditView>, from: int, cursor: nat)
    requires
        0 <= from,
        edits_in_order(text.len(), edits, from, cursor),
        between_characters(text, cursor as int),
        forall|i: int|
            from <= i < edits.len() ==> between_characters(text, (#[trigger] edits[i]).start as int)
                && between_characters(text, edits[i].end as int),
    ensures
        presented(text, edits, from, cursor) is Some,
    decreases edits.len() - from,
{
    if from < edits.len() {
        lemma_shown_edits(text, edits, from + 1, edits[from].end);
    }
}

/// What a preview shows of changes to a text are the differences, under the
/// path of the text, between the text that stands there and the text that its
/// edits make of it; and it shows them where the edits stand between
/// characters.
pub proof fn law_shown_changes_are_the_edits(op: OperationView, files: Seq<FileContent>, before: Seq<u8>)
    requires
        op is Text,
        content_of(files, op->Text_path) == Some(before),
        valid_utf8(before),
        edits_in_order(before.len(), op->Text_edits, 0, 0),
        between_characters(before, 0),
        forall|i: int|
            0 <= i < op->Text_edits.len() ==> between_characters(before, (#[trigger] op->Text_edits[i]).start as int)
                && between_characters(before, op->Text_edits[i].end as int),
        valid_utf8(edited(before, op->Text_edits, 0, 0)),
    ensures
        step_part(op, files) == Some(
            line_diff(
                path_text(op->Text_path),
                decode_utf8(before),
                decode_utf8(edited(before, op->Text_edits, 0, 0)),
                3,
            ),
        ),
{
    lemma_shown_edits(before, op->Text_edits, 0, 0);
    law_presentation_shows_what_is_applied(before, op->Text_edits);
}

/// Steps are shown one behind the other, in the order in which they are carried
/// out; nothing is shown where one of them cannot be.
pub proof fn law_steps_are_shown_in_order(
    first: Seq<OperationView>,
    second: Seq<OperationView>,
    files: Seq<FileContent>,
)
    ensures
        steps_text(first + second, files) == (match (steps_text(first, files), steps_text(second, files)) {
            (Some(a), Some(b)) => Some(a + b),
            _ => None,
        }),
        forall|op: OperationView|
            #![trigger seq![op]]
            steps_text(seq![op], files) == step_part(op, files),
    decreases second.len(),
{
    assert forall|op: OperationView|
        #![trigger seq![op]]
        steps_text(seq![op], files) == step_part(op, files) by {
        let one = seq![op];
        assert(one.drop_last() =~= Seq::<OperationView>::empty());
        assert(steps_text(one.drop_last(), files) == Some(Seq::<char>::empty()));
        assert(one.last() == op);
        if let Some(part) = step_part(op, files) {
            assert(Seq::<char>::empty() + part =~= part);
        }
    }
    if second.len() == 0 {
        assert(first + second =~= first);
        if let Some(a) = steps_text(first, files) {
            assert(a + Seq::<char>::empty() =~= a);
        }
    } else {
        let rest = second.drop_last();
        law_steps_are_shown_in_order(first, rest, files);
        assert((first + second).drop_last() =~= first + rest);
        assert((first + second).last() == second.last());
        if let (Some(a), Some(b)) = (steps_text(first, files), steps_text(rest, files)) {
            if let Some(part) = step_part(second.last(), files) {
                assert(a + b + part =~= a + (b + part));
            }
        }
    }
}

/// An application makes a file only where none is, empties one only where one
/// is that may be overwritten, leaves one alone where it is to be ignored, and
/// refuses otherwise.
pub proof fn law_creations_respect_what_is_there(c: CommitView, exists: bool)
    requires
        c.sound(),
        c.phase == CommitPhase::LookingAtCreated,
    ensures
        ({
            let action = c.next(CommitEventView::Exists(exists)).1;
            let path = c.operation()->Create_path;
            &&& !exists ==> action == CommitActionView::Create(path)
            &&& exists && c.operation()->Create_overwrite ==> action == CommitActionView::Truncate(path)
            &&& exists && !c.operation()->Create_overwrite && !c.operation()->Create_ignore_if_exists
                ==> action is Refused
            &&& exists && !c.operation()->Create_overwrite && c.operation()->Create_ignore_if_exists
                ==> c.next(CommitEventView::Exists(exists)).0.done == c.done + 1
        }),
{
}

/// An application takes away what is to be deleted only where it is there, and
/// a directory that holds something only where that is asked for.
pub proof fn law_deletions_respect_what_is_there(
    c: CommitView,
    exists: bool,
    directory: bool,
    has_children: bool,
)
    requires
        c.sound(),
        c.phase == CommitPhase::LookingAtDeleted,
    ensures
        ({
            let r = c.next(CommitEventView::Entry { exists, directory, has_children });
            let op = c.operation();
            &&& exists && (op->recursive || !directory || !has_children) ==> r.1 == (CommitActionView::Move {
                from: op->Delete_path,
                to: undo_place(c.artifacts, op->Delete_index),
            })
            &&& exists && directory && has_children && !op->recursive ==> r.1 is Refused
            &&& !exists && op->ignore_if_not_exists ==> r.0.done == c.done + 1
            &&& !exists && !op->ignore_if_not_exists ==> r.1 is Refused
        }),
{
}

} // verus!
