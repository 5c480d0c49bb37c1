//! How changes are staged, carried out and taken back, one by one.

use vstd::prelude::*;

use crate::checks::{backup_place, recorded, same_identity};
use crate::commit_run::{CommitActionView, CommitEventView, CommitPhase, CommitView};
use crate::digest::digest_text;
use crate::edits::{EditView, edited, edits_in_order};
use crate::failure::FailureView;
use crate::manifest::{ManifestView, PathView};
use crate::path::rebased;
use crate::plan::OperationView;
use crate::records::BackupView;
use crate::rollback::restore_one;
use crate::rollback_run::{RollbackActionView, RollbackEventView, RollbackPhase, RollbackView};
use crate::stage_run::{StageActionView, StageEventView, StagePhase, StageRunView};
use crate::staging::{
    StagingView,
    TextInputView,
    TextSourceView,
    after_create,
    after_delete,
    after_rename,
    in_some_tree,
    physical_path,
    rollback_limit_failed,
    staged_place,
    text_source,
    text_staged,
    undo_place,
};
use crate::text::decimal_text;
use crate::timing_laws::law_spelled_numbers_are_read;

verus! {

/// What stands at the destination of a renaming is set aside where it is to be
/// overwritten, and then the renaming is carried out; without leave to
/// overwrite, the renaming is left out where that is asked for, else refused.
pub proof fn law_destinations_are_set_aside(c: CommitView)
    requires
        c.done < c.operations.len(),
        c.operation() is Rename,
    ensures
        ({
            let old_path = c.operation()->Rename_old_path;
            let new_path = c.operation()->Rename_new_path;
            let overwrite = c.operation()->Rename_overwrite;
            let ignore = c.operation()->Rename_ignore_if_exists;
            &&& c.phase == CommitPhase::LookingAtDestination ==> {
                &&& c.next(CommitEventView::Exists(false)).1 == (CommitActionView::Move { from: old_path, to: new_path })
                &&& overwrite ==> c.next(CommitEventView::Exists(true)).1 == (CommitActionView::Move {
                    from: new_path,
                    to: undo_place(c.artifacts, c.operation()->Rename_index),
                })
                &&& !overwrite && ignore ==> c.next(CommitEventView::Exists(true)).0.done == c.done + 1
                &&& !overwrite && !ignore ==> c.next(CommitEventView::Exists(true)).1 is Refused
            }
            &&& c.phase == CommitPhase::SettingAside ==> c.next(CommitEventView::Done).1 == (CommitActionView::Move {
                from: old_path,
                to: new_path,
            })
        }),
{
}

/// A text is written exactly where the text that stands and the text that was
/// staged are the planned ones.
pub proof fn law_texts_are_written_where_they_fit(c: CommitView, bytes: Seq<u8>)
    requires
        c.done < c.operations.len(),
        c.operation() is Text,
        c.phase == CommitPhase::ReadingStaged,
    ensures
        digest_text(c.current) == c.operation()->Text_before_digest && digest_text(bytes)
            == c.operation()->Text_after_digest ==> c.next(CommitEventView::Bytes(bytes)).1
            == (CommitActionView::WriteText { path: c.operation()->Text_path, bytes }),
        digest_text(c.current) != c.operation()->Text_before_digest || digest_text(bytes)
            != c.operation()->Text_after_digest ==> c.next(CommitEventView::Bytes(bytes)).1 is Refused,
{
}

/// What stood before is read from its own place, and what was staged from the
/// place of the operation.
pub proof fn law_staged_texts_are_read_from_their_place(c: CommitView, bytes: Seq<u8>)
    requires
        c.done < c.operations.len(),
        c.operation() is Text,
        c.phase == CommitPhase::ReadingText,
    ensures
        c.next(CommitEventView::Bytes(bytes)).1 == CommitActionView::ReadStaged(
            staged_place(c.artifacts, c.operation()->Text_index),
        ),
        c.next(CommitEventView::Bytes(bytes)).0.current == bytes,
{
}

/// What is staged and what is set aside lie apart, each operation's by itself.
pub proof fn law_artifacts_lie_apart(artifacts: PathView, i: u64, j: u64)
    ensures
        staged_place(artifacts, i) != undo_place(artifacts, j),
        staged_place(artifacts, i) == staged_place(artifacts, j) ==> i == j,
        undo_place(artifacts, i) == undo_place(artifacts, j) ==> i == j,
        staged_place(artifacts, i).drop_last() == artifacts,
        undo_place(artifacts, i).drop_last() == artifacts,
{
    reveal_strlit("text-");
    reveal_strlit("undo-");
    let a = staged_place(artifacts, i);
    let b = staged_place(artifacts, j);
    let c = undo_place(artifacts, i);
    let d = undo_place(artifacts, j);
    assert(a.drop_last() =~= artifacts);
    assert(c.drop_last() =~= artifacts);
    let n = artifacts.len() as int;
    assert(a[n] == "text-"@ + decimal_text(i as nat));
    assert(b[n] == "text-"@ + decimal_text(j as nat));
    assert(c[n] == "undo-"@ + decimal_text(i as nat));
    assert(d[n] == "undo-"@ + decimal_text(j as nat));
    assert(a[n][0] == 't' && d[n][0] == 'u');
    assert(a[n].skip(5) =~= decimal_text(i as nat));
    assert(b[n].skip(5) =~= decimal_text(j as nat));
    assert(c[n].skip(5) =~= decimal_text(i as nat));
    assert(d[n].skip(5) =~= decimal_text(j as nat));
    law_spelled_numbers_are_read(i as nat, u64::MAX as nat);
    law_spelled_numbers_are_read(j as nat, u64::MAX as nat);
}

/// A text is staged exactly where it is the one that was planned for, its
/// edits stand in it in order, what comes out is the planned text, and there is
/// room for it; what is staged is the text with its edits.
pub proof fn law_texts_are_staged_as_planned(
    transaction_id: Seq<char>,
    before: Seq<u8>,
    index: u64,
    before_digest: Seq<char>,
    after_digest: Seq<char>,
    edits: Seq<EditView>,
    staged_bytes: u64,
    limit: u64,
)
    ensures
        ({
            let after = edited(before, edits, 0, 0);
            let staged = text_staged(
                transaction_id,
                TextInputView::Bytes(before),
                index,
                before_digest,
                after_digest,
                edits,
                staged_bytes,
                limit,
            );
            &&& staged is Ok ==> digest_text(before) == before_digest && digest_text(after) == after_digest
                && edits_in_order(before.len(), edits, 0, 0) && staged == Ok::<Seq<u8>, FailureView>(after)
            &&& digest_text(before) == before_digest && digest_text(after) == after_digest && edits_in_order(
                before.len(),
                edits,
                0,
                0,
            ) && staged_bytes + after.len() <= u64::MAX ==> (staged is Ok <==> staged_bytes + after.len() <= limit)
            &&& digest_text(before) == before_digest && digest_text(after) == after_digest && edits_in_order(
                before.len(),
                edits,
                0,
                0,
            ) && staged_bytes + after.len() <= u64::MAX && staged_bytes + after.len() > limit ==> (
            staged matches Err(f) && f.code == "resource_limit_exceeded"@)
        }),
{
}

/// A text that cannot be read is not staged.
pub proof fn law_unread_texts_are_not_staged(
    transaction_id: Seq<char>,
    os_code: Option<i32>,
    index: u64,
    before_digest: Seq<char>,
    after_digest: Seq<char>,
    edits: Seq<EditView>,
    staged_bytes: u64,
    limit: u64,
)
    ensures
        text_staged(
            transaction_id,
            TextInputView::Unread { os_code },
            index,
            before_digest,
            after_digest,
            edits,
            staged_bytes,
            limit,
        ) matches Err(f) && f.code == "state_unavailable"@,
{
}

/// A file below a place that was renamed is read where it still lies, and
/// nothing is read below the place that it was renamed from.
pub proof fn law_renamed_files_are_read_where_they_lie(
    s: StagingView,
    old_path: PathView,
    new_path: PathView,
    path: PathView,
)
    requires
        s.texts.dom() == Set::<PathView>::empty(),
        s.aliases.len() == 0,
        s.unavailable.len() == 0,
        !old_path.is_prefix_of(path),
    ensures
        new_path.is_prefix_of(path) ==> text_source(after_rename(s, old_path, new_path), path)
            == TextSourceView::Physical(rebased(path, new_path, old_path)),
        !new_path.is_prefix_of(path) ==> text_source(after_rename(s, old_path, new_path), path)
            == TextSourceView::Physical(path),
        text_source(after_rename(s, old_path, new_path), old_path) is Unavailable || new_path.is_prefix_of(old_path),
{
    let t = after_rename(s, old_path, new_path);
    assert(s.unavailable =~= seq![]);
    assert(t.unavailable =~= seq![old_path]) by {
        reveal(Seq::filter);
    }
    assert(physical_path(old_path, s.aliases, 0) == old_path);
    assert(t.aliases =~= seq![(new_path, old_path)]);
    assert(!t.texts.dom().contains(path));
    assert(!in_some_tree(t.unavailable, path));
    reveal_with_fuel(physical_path, 3);
    assert(!t.texts.dom().contains(old_path));
    assert(t.unavailable[0].is_prefix_of(old_path)) by {
        assert(old_path =~= old_path.subrange(0, old_path.len() as int));
    }
}

/// Nothing is read of what is deleted, and everything else is read as before.
pub proof fn law_deleted_files_are_not_read(s: StagingView, path: PathView, other: PathView)
    ensures
        path.is_prefix_of(other) ==> text_source(after_delete(s, path), other) is Unavailable,
        !path.is_prefix_of(other) ==> text_source(after_delete(s, path), other) == text_source(s, other),
{
    let t = after_delete(s, path);
    assert(t.unavailable =~= s.unavailable.push(path));
    if path.is_prefix_of(other) {
        assert(t.unavailable[s.unavailable.len() as int] == path);
    } else {
        assert forall|i: int| 0 <= i < t.unavailable.len() && (#[trigger] t.unavailable[i]).is_prefix_of(
            other,
        ) implies in_some_tree(s.unavailable, other) by {
            assert(s.unavailable[i].is_prefix_of(other));
        }
        if in_some_tree(s.unavailable, other) {
            let i = choose|i: int| 0 <= i < s.unavailable.len() && (#[trigger] s.unavailable[i]).is_prefix_of(other);
            assert(t.unavailable[i].is_prefix_of(other));
        }
    }
}

/// Copies for taking a change back are made one after the other, each from
/// where it lies to its own place, till the limit is passed.
pub proof fn law_backups_are_copied_in_order(c: StageRunView, bytes: u64)
    requires
        c.phase == StagePhase::Copying,
        c.copied_bytes + bytes <= u64::MAX,
    ensures
        ({
            let (next, action) = c.next(StageEventView::Copied(bytes));
            &&& next.copied_bytes == c.copied_bytes + bytes
            &&& next.copies == c.copies + 1
            &&& c.copied_bytes + bytes > c.max_rollback_bytes ==> (action matches StageActionView::Unstaged {
                failure,
                artifact_created,
            } && failure.code == "resource_limit_exceeded"@ && artifact_created)
            &&& c.copied_bytes + bytes <= c.max_rollback_bytes && c.copies + 1 < c.transaction.backups.len() ==> action
                == (StageActionView::Copy {
                from: c.transaction.backups[c.copies as int + 1].path,
                to: c.transaction.backups[c.copies as int + 1].backup_path,
            })
        }),
{
    let copied = StageRunView { copies: c.copies + 1, copied_bytes: (c.copied_bytes + bytes) as u64, ..c };
    if c.copied_bytes + bytes <= c.max_rollback_bytes && !(c.copies + 1 < c.transaction.backups.len()) {
        lemma_staging_copies_nothing(copied);
    }
}

proof fn lemma_staging_copies_nothing(c: StageRunView)
    ensures
        c.staging_next().0.copied_bytes == c.copied_bytes,
        c.staging_next().0.copies == c.copies,
    decreases c.transaction.operations.len() - c.staged,
{
    if c.staged < c.transaction.operations.len() {
        match c.operation() {
            OperationView::Text { .. } => {},
            OperationView::Create { path, .. } => {
                lemma_staging_copies_nothing(
                    StageRunView { staged: c.staged + 1, staging: after_create(c.staging, path), ..c },
                );
            },
            OperationView::Rename { old_path, new_path, .. } => {
                lemma_staging_copies_nothing(
                    StageRunView { staged: c.staged + 1, staging: after_rename(c.staging, old_path, new_path), ..c },
                );
            },
            OperationView::Delete { path, .. } => {
                lemma_staging_copies_nothing(
                    StageRunView { staged: c.staged + 1, staging: after_delete(c.staging, path), ..c },
                );
            },
        }
    }
}

/// The limit on what is copied is passed exactly where more is copied.
pub proof fn law_copies_have_a_limit(copied: u64, limit: u64)
    ensures
        rollback_limit_failed(copied, limit) is Some <==> copied > limit,
{
}

/// What a renaming overwrote is put back exactly where it was set aside, is
/// still itself, and its place is free.
pub proof fn law_overwritten_destinations_are_put_back(r: RollbackView, found: ManifestView)
    requires
        r.sound(),
        r.phase == RollbackPhase::LookingAtDestination,
        r.seen.exists,
    ensures
        ({
            let path = r.operation()->Rename_new_path;
            let stood = r.before(path)->0;
            let action = r.next(RollbackEventView::Entry(found)).1;
            let same = !stood.exists || same_identity(stood, r.seen);
            &&& same && !found.exists ==> action == (RollbackActionView::Move {
                from: r.aside(r.operation()->Rename_index),
                to: path,
            })
            &&& !same || found.exists ==> action is Stuck
        }),
{
}

/// A file that is not as it was is filled from its copy, where it is still the
/// same file; what is as it was is left alone.
pub proof fn law_changed_files_are_filled_from_their_copies(
    expected: ManifestView,
    current: Seq<ManifestView>,
    backups: Seq<BackupView>,
    actual: ManifestView,
)
    requires
        recorded(current, expected.path) == Some(actual),
    ensures
        expected == actual ==> restore_one(expected, current, backups) == Ok::<
            Option<(PathView, PathView)>,
            Seq<char>,
        >(None),
        expected != actual && expected.resource_kind is File && actual.resource_kind is File
            && expected.identity_digest == actual.identity_digest && backup_place(backups, expected.path) is Some
            ==> restore_one(expected, current, backups) == Ok::<Option<(PathView, PathView)>, Seq<char>>(
            Some((backup_place(backups, expected.path)->0, expected.path)),
        ),
        expected != actual && expected.identity_digest != actual.identity_digest ==> restore_one(
            expected,
            current,
            backups,
        ) is Err,
{
}

/// Each operation is carried out by looking first at the place that it will
/// change: at the text, at the file to be made, at the destination of the
/// renaming, or at what is to be deleted.
pub proof fn law_commits_look_first(c: CommitView)
    requires
        c.phase == CommitPhase::Start,
    ensures
        c.done >= c.operations.len() ==> c.next(CommitEventView::Begin).1 is Committed,
        c.done < c.operations.len() ==> match c.operation() {
            OperationView::Text { path, .. } => c.next(CommitEventView::Begin).1 == CommitActionView::ReadText(path),
            OperationView::Create { path, .. } => c.next(CommitEventView::Begin).1 == CommitActionView::LookAt(path),
            OperationView::Rename { new_path, .. } => c.next(CommitEventView::Begin).1 == CommitActionView::LookAt(
                new_path,
            ),
            OperationView::Delete { path, .. } => c.next(CommitEventView::Begin).1 == CommitActionView::LookInto(path),
        },
{
}

/// What is deleted is set aside under the operation, and put back from there.
pub proof fn law_deleted_trees_are_set_aside(c: CommitView, directory: bool, has_children: bool)
    requires
        c.done < c.operations.len(),
        c.operation() is Delete,
        c.phase == CommitPhase::LookingAtDeleted,
    ensures
        ({
            let action = c.next(CommitEventView::Entry { exists: true, directory, has_children }).1;
            &&& !directory || !has_children || c.operation()->Delete_recursive ==> action == (CommitActionView::Move {
                from: c.operation()->Delete_path,
                to: undo_place(c.artifacts, c.operation()->Delete_index),
            })
            &&& directory && has_children && !c.operation()->Delete_recursive ==> action is Refused
        }),
{
}

/// Taking back looks first at what the operation changed: at the file that was
/// made, at where something was renamed from, or at what was deleted. A text
/// needs no look of its own.
pub proof fn law_rollbacks_look_first(r: RollbackView)
    requires
        r.phase == RollbackPhase::Start,
        r.left > 0,
    ensures
        ({
            let action = r.next(RollbackEventView::Begin).1;
            match r.operation() {
                OperationView::Text { .. } => true,
                OperationView::Create { path, .. } => r.before(path) is Some ==> action == RollbackActionView::Inspect(
                    path,
                ),
                OperationView::Rename { old_path, .. } => r.before(old_path) is Some ==> action
                    == RollbackActionView::Inspect(old_path),
                OperationView::Delete { path, .. } => r.before(path) is Some ==> action == RollbackActionView::Inspect(
                    path,
                ),
            }
        }),
{
}

} // verus!
