//! How a rollback undoes what an application did.

use vstd::prelude::*;

use crate::checks::{backup_place, mismatch_code, mismatches, recorded, recorded_or_missing, same_identity};
use crate::commit_run::{CommitActionView, CommitEventView, CommitPhase, CommitView};
use crate::manifest::{ManifestView, PathView, ResourceKind};
use crate::records::BackupView;
use crate::rollback::{created_paths, deepest_first, exists_at, new_in, restoration_of, restore_one, restores_from};
use crate::rollback_run::{RollbackActionView, RollbackEventView, RollbackPhase, RollbackView};

verus! {

proof fn lemma_opening_moves_nothing(r: RollbackView)
    requires
        r.left <= r.transaction.operations.len(),
    ensures
        !(r.opened().1 is Move) && !(r.opened().1 is Remove),
    decreases r.left,
{
    if r.left > 0 && r.operation() is Text {
        lemma_opening_moves_nothing(RollbackView { left: (r.left - 1) as nat, ..r });
    }
}

/// A rollback moves a renamed resource back over the way on which the
/// application moved it, puts back what a renaming or a deletion had set aside
/// from where the application put it to where the application found it.
pub proof fn law_rollback_reverses_the_moves(
    c: CommitView,
    done: CommitEventView,
    r: RollbackView,
    seen: RollbackEventView,
    from: PathView,
    to: PathView,
    back_from: PathView,
    back_to: PathView,
)
    requires
        c.sound(),
        c.expects(done),
        c.phase != CommitPhase::Start,
        c.next(done).0.done == c.done,
        c.next(done).1 == (CommitActionView::Move { from, to }),
        r.sound(),
        r.expects(seen),
        r.phase != RollbackPhase::Start,
        r.left > 0,
        r.next(seen).1 == (RollbackActionView::Move { from: back_from, to: back_to }),
        c.operation() == r.operation(),
        c.artifacts == r.transaction.artifact_directory,
    ensures
        c.next(done).0.phase == CommitPhase::Moving && r.next(seen).0.phase == RollbackPhase::MovingBack ==> back_from
            == to && back_to == from,
        c.next(done).0.phase == CommitPhase::SettingAside && r.next(seen).0.phase == RollbackPhase::PuttingBack
            ==> back_from == to && back_to == from,
        c.next(done).0.phase == CommitPhase::Deleting && r.next(seen).0.phase == RollbackPhase::PuttingBackDeleted
            ==> back_from == to && back_to == from,
{
    lemma_opening_moves_nothing(RollbackView { left: (r.left - 1) as nat, ..r });
}

/// A renamed resource is moved back exactly where nothing stands at its old
/// place and what stands at its new one is the resource that stood at the old
/// one; where something else stands there, the rollback stops.
pub proof fn law_renamed_resources_are_moved_back(r: RollbackView, found: ManifestView)
    requires
        r.sound(),
        r.phase == RollbackPhase::LookingAtNew,
        !r.seen.exists,
    ensures
        ({
            let old = r.operation()->Rename_old_path;
            let new = r.operation()->Rename_new_path;
            let stood = r.before(old)->0;
            let action = r.next(RollbackEventView::Entry(found)).1;
            &&& found.exists && (!stood.exists || same_identity(stood, found)) ==> action == (RollbackActionView::Move {
                from: new,
                to: old,
            })
            &&& !found.exists || stood.exists && !same_identity(stood, found) ==> action is Stuck
        }),
{
}

/// A deleted resource is put back exactly where nothing stands at its place and
/// it is still where it was set aside.
pub proof fn law_deleted_resources_are_put_back(r: RollbackView, found: ManifestView)
    requires
        r.sound(),
        r.phase == RollbackPhase::LookingAtDeletedAside,
    ensures
        ({
            let path = r.operation()->Delete_path;
            let stood = r.before(path)->0;
            let action = r.next(RollbackEventView::Entry(found)).1;
            &&& !r.seen.exists && found.exists && (!stood.exists || same_identity(stood, found)) ==> (
            action matches RollbackActionView::Move { from, to } && to == path && from == r.aside(
                r.operation()->Delete_index,
            ))
            &&& !r.seen.exists && (!found.exists || stood.exists && !same_identity(stood, found)) ==> action is Stuck
            &&& r.seen.exists && (found.exists || stood.exists && !same_identity(stood, r.seen)) ==> action is Stuck
        }),
{
}

/// A file that an application made is removed again where nothing stood before,
/// and left where something did.
pub proof fn law_created_files_are_removed(r: RollbackView, found: ManifestView)
    requires
        r.sound(),
        r.phase == RollbackPhase::LookingAtCreated,
    ensures
        ({
            let path = r.operation()->Create_path;
            let stood = r.before(path)->0;
            let action = r.next(RollbackEventView::Entry(found)).1;
            &&& !stood.exists && found.exists ==> action == RollbackActionView::Remove(path)
            &&& stood.exists || !found.exists ==> !(action is Remove)
        }),
{
    lemma_opening_moves_nothing(RollbackView { left: (r.left - 1) as nat, ..r });
}

/// A resource meets what is expected of it exactly where it is there or not as
/// expected, is of the kind that is expected, and has each digest that is
/// expected of it.
pub proof fn law_expectations_are_met_in_full(expected: ManifestView, actual: ManifestView)
    ensures
        mismatch_code(expected, actual) is None <==> expected.exists == actual.exists && expected.resource_kind
            == actual.resource_kind && (expected.identity_digest is Some ==> actual.identity_digest
            == expected.identity_digest) && (expected.content_digest is Some ==> actual.content_digest
            == expected.content_digest) && (expected.metadata_digest is Some ==> actual.metadata_digest
            == expected.metadata_digest),
        expected.exists != actual.exists ==> mismatch_code(expected, actual) == Some("resource_existence"@),
{
}

/// The mismatches of expectations are those of each of them, in their order.
pub proof fn law_mismatches_are_those_of_each(
    expected: Seq<ManifestView>,
    entry: ManifestView,
    actual: Seq<ManifestView>,
)
    ensures
        ({
            let more = mismatches(expected.push(entry), actual);
            let met = mismatch_code(entry, recorded_or_missing(actual, entry.path)) is None;
            &&& met ==> more == mismatches(expected, actual)
            &&& !met ==> more.len() == mismatches(expected, actual).len() + 1 && more.drop_last() == mismatches(
                expected,
                actual,
            )
        }),
{
    assert(expected.push(entry).drop_last() =~= expected);
    let more = mismatches(expected.push(entry), actual);
    if mismatch_code(entry, recorded_or_missing(actual, entry.path)) is Some {
        assert(more.drop_last() =~= mismatches(expected, actual));
    }
}

/// A record is found under its path where no earlier record has that path.
pub proof fn law_records_are_found_by_path(list: Seq<ManifestView>, i: int)
    requires
        0 <= i < list.len(),
        forall|j: int| 0 <= j < i ==> (#[trigger] list[j]).path != list[i].path,
    ensures
        recorded(list, list[i].path) == Some(list[i]),
    decreases i,
{
    if i > 0 {
        let rest = list.drop_first();
        assert(list[0].path != list[i].path);
        assert forall|j: int| 0 <= j < i - 1 implies (#[trigger] rest[j]).path != rest[i - 1].path by {
            assert(rest[j] == list[j + 1]);
        }
        law_records_are_found_by_path(rest, i - 1);
    }
}

/// Whether a file is filled from its backup as it should be: the file is one
/// that stood before, is not as it was, and is kept at the place given.
pub open spec fn fills_rightly(
    pair: (PathView, PathView),
    before: Seq<ManifestView>,
    current: Seq<ManifestView>,
    backups: Seq<BackupView>,
) -> bool {
    exists|i: int|
        0 <= i < before.len() && (#[trigger] before[i]).path == pair.1 && before[i].exists && before[i].resource_kind
            == ResourceKind::File && recorded(current, pair.1) != Some(before[i]) && backup_place(backups, pair.1) == Some(
            pair.0,
        )
}

proof fn lemma_restores(
    before: Seq<ManifestView>,
    i: int,
    current: Seq<ManifestView>,
    backups: Seq<BackupView>,
    found: Seq<(PathView, PathView)>,
)
    requires
        0 <= i <= before.len(),
        forall|k: int| 0 <= k < found.len() ==> fills_rightly(#[trigger] found[k], before, current, backups),
    ensures
        restores_from(before, i, current, backups, found) matches Ok(r) ==> {
            &&& forall|k: int| 0 <= k < r.len() ==> fills_rightly(#[trigger] r[k], before, current, backups)
            &&& forall|k: int| 0 <= k < found.len() ==> r.contains(#[trigger] found[k])
            &&& forall|k: int|
                i <= k < before.len() && (#[trigger] before[k]).exists ==> (recorded(current, before[k].path) == Some(
                    before[k],
                ) || exists|m: int| 0 <= m < r.len() && (#[trigger] r[m]).1 == before[k].path)
        },
    decreases before.len() - i,
{
    if i < before.len() {
        if !before[i].exists {
            lemma_restores(before, i + 1, current, backups, found);
        } else {
            match restore_one(before[i], current, backups) {
                Err(_) => {},
                Ok(None) => {
                    lemma_restores(before, i + 1, current, backups, found);
                },
                Ok(Some(pair)) => {
                    let more = found.push(pair);
                    assert(fills_rightly(pair, before, current, backups)) by {
                        assert(before[i].path == pair.1);
                    }
                    assert forall|k: int| 0 <= k < more.len() implies fills_rightly(
                        #[trigger] more[k],
                        before,
                        current,
                        backups,
                    ) by {
                        if k < found.len() {
                            assert(more[k] == found[k]);
                        }
                    }
                    lemma_restores(before, i + 1, current, backups, more);
                    if let Ok(r) = restores_from(before, i, current, backups, found) {
                        assert forall|k: int| 0 <= k < found.len() implies r.contains(#[trigger] found[k]) by {
                            assert(more[k] == found[k]);
                            assert(r.contains(more[k]));
                        }
                        assert(more[found.len() as int] == pair);
                        assert(r.contains(more[found.len() as int]));
                        let m = r.index_of(pair);
                        assert(r[m].1 == before[i].path);
                    }
                },
            }
        }
    } else {
        assert forall|k: int| 0 <= k < found.len() implies found.contains(#[trigger] found[k]) by {}
    }
}

/// What is left for a rollback is to fill each file that is not as it was from
/// where it is kept, and to remove what stands where nothing stood, whatever
/// lies deeper before what it lies in; and it leaves nothing else to do.
pub proof fn law_restorations_put_things_back(
    before: Seq<ManifestView>,
    current: Seq<ManifestView>,
    backups: Seq<BackupView>,
)
    ensures
        restoration_of(before, current, backups) matches Ok(r) ==> {
            &&& forall|k: int| 0 <= k < r.restore.len() ==> fills_rightly(#[trigger] r.restore[k], before, current, backups)
            &&& forall|k: int|
                0 <= k < before.len() && (#[trigger] before[k]).exists ==> (recorded(current, before[k].path) == Some(
                    before[k],
                ) || exists|m: int| 0 <= m < r.restore.len() && (#[trigger] r.restore[m]).1 == before[k].path)
            &&& forall|p: PathView|
                #[trigger] r.remove.contains(p) <==> exists|k: int|
                    0 <= k < before.len() && (#[trigger] before[k]).path == p && !before[k].exists && exists_at(current, p)
            &&& forall|a: int, b: int|
                0 <= a < b < r.remove.len() ==> (#[trigger] r.remove[a]).len() >= (#[trigger] r.remove[b]).len()
        },
{
    broadcast use vstd::seq_lib::group_filter_ensures;

    lemma_restores(before, 0, current, backups, Seq::empty());
    if let Ok(r) = restoration_of(before, current, backups) {
        let restore = restores_from(before, 0, current, backups, Seq::empty())->Ok_0;
        assert(r.restore == restore);
        assert forall|k: int| 0 <= k < before.len() && (#[trigger] before[k]).exists implies (recorded(
            current,
            before[k].path,
        ) == Some(before[k]) || exists|m: int| 0 <= m < r.restore.len() && (#[trigger] r.restore[m]).1 == before[k].path) by {
            if recorded(current, before[k].path) != Some(before[k]) {
                let m = choose|m: int| 0 <= m < restore.len() && (#[trigger] restore[m]).1 == before[k].path;
                assert(r.restore[m].1 == before[k].path);
            }
        }
        let made = created_paths(before, current);
        let entries = before.filter(new_in(current));
        crate::ranking::law_ranked::<crate::path::NativePath>(made);
        assert(r.remove == deepest_first(made));
        assert forall|a: int, b: int| 0 <= a < b < r.remove.len() implies (#[trigger] r.remove[a]).len() >= (
        #[trigger] r.remove[b]).len() by {
            assert(!<crate::path::NativePath as crate::ranking::Ranked>::before(r.remove[b], r.remove[a]));
        }
        assert forall|p: PathView|
            #[trigger] r.remove.contains(p) <==> exists|k: int|
                0 <= k < before.len() && (#[trigger] before[k]).path == p && !before[k].exists && exists_at(
                    current,
                    p,
                ) by {
            crate::ranking::lemma_ranked_contains::<crate::path::NativePath>(made, p);
            if made.contains(p) {
                let i = choose|i: int| 0 <= i < made.len() && made[i] == p;
                let e = entries[i];
                assert(entries.contains(e));
                before.lemma_filter_contains_rev(new_in(current), e);
                let k = before.index_of(e);
                assert(before[k] == e);
                assert(new_in(current)(e));
                assert(before[k].path == p);
            }
            if exists|k: int|
                0 <= k < before.len() && (#[trigger] before[k]).path == p && !before[k].exists && exists_at(current, p) {
                let k = choose|k: int|
                    0 <= k < before.len() && (#[trigger] before[k]).path == p && !before[k].exists && exists_at(
                        current,
                        p,
                    );
                assert(new_in(current)(before[k]));
                assert(before.contains(before[k]));
                assert(entries.contains(before[k]));
                let i = entries.index_of(before[k]);
                assert(made[i] == p);
            }
        }
    }
}

/// A resource is kept under the place of the tree that it lies in, at the same
/// way below it.
pub proof fn law_backups_keep_the_shape_of_trees(backups: Seq<BackupView>, i: int, below: PathView)
    requires
        0 <= i < backups.len(),
        forall|j: int| 0 <= j < i ==> !(#[trigger] backups[j]).path.is_prefix_of(backups[i].path + below),
    ensures
        backup_place(backups, backups[i].path + below) == Some(backups[i].backup_path + below),
    decreases i,
{
    let path = backups[i].path + below;
    if i > 0 {
        let rest = backups.drop_first();
        assert(!backups[0].path.is_prefix_of(path));
        assert forall|j: int| 0 <= j < i - 1 implies !(#[trigger] rest[j]).path.is_prefix_of(rest[i - 1].path + below) by {
            assert(rest[j] == backups[j + 1]);
        }
        law_backups_keep_the_shape_of_trees(rest, i - 1, below);
    } else {
        assert(path.take(backups[0].path.len() as int) =~= backups[0].path);
        assert(backups[0].path.is_prefix_of(path));
        assert(crate::path::rebased(path, backups[0].path, backups[0].backup_path) =~= backups[0].backup_path + below);
    }
}

} // verus!
