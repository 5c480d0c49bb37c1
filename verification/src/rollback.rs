//! Carrying out operations and undoing them: what each step has to do, given
//! what stands in the filesystem.

use vstd::prelude::*;

use crate::checks::{
    backup_path_for,
    backup_place,
    find_manifest,
    manifest_mismatches,
    mismatches,
    recorded,
    same_identity,
    same_resource_identity,
};
use crate::digest::{digest_raw_bytes, digest_text};
use crate::manifest::{ManifestEntry, ManifestView, PathView, ResourceKind};
use crate::order::Key;
use crate::path::NativePath;
use crate::ranking::{Ranked, insert_ranked, ranked};
use crate::records::{BackupEntry, BackupView};
use crate::text::{opt_view, same, same_opt, views};

verus! {

/// What a creation has to do.
#[derive(Clone, Copy, Debug, PartialEq, Eq, Structural)]
pub enum CreateStep {
    /// Empty the file that stands there.
    Truncate,
    /// Make a new file.
    CreateNew,
    /// Leave what stands there.
    Skip,
    /// Something stands there.
    Refuse,
}

/// What a creation has to do.
pub open spec fn create_choice(exists: bool, overwrite: bool, ignore_if_exists: bool) -> CreateStep {
    if !exists {
        CreateStep::CreateNew
    } else if overwrite {
        CreateStep::Truncate
    } else if ignore_if_exists {
        CreateStep::Skip
    } else {
        CreateStep::Refuse
    }
}

/// What a creation has to do.
pub fn create_step(exists: bool, overwrite: bool, ignore_if_exists: bool) -> (r: CreateStep)
    ensures
        r == create_choice(exists, overwrite, ignore_if_exists),
{
    if !exists {
        CreateStep::CreateNew
    } else if overwrite {
        CreateStep::Truncate
    } else if ignore_if_exists {
        CreateStep::Skip
    } else {
        CreateStep::Refuse
    }
}

/// What a renaming has to do.
#[derive(Clone, Copy, Debug, PartialEq, Eq, Structural)]
pub enum RenameStep {
    /// Set the destination aside, then move.
    SetAsideAndMove,
    /// Move.
    Move,
    /// Leave everything as it is.
    Skip,
    /// Something stands at the destination.
    Refuse,
}

/// What a renaming has to do.
pub open spec fn rename_choice(destination_exists: bool, overwrite: bool, ignore_if_exists: bool) -> RenameStep {
    if !destination_exists {
        RenameStep::Move
    } else if overwrite {
        RenameStep::SetAsideAndMove
    } else if ignore_if_exists {
        RenameStep::Skip
    } else {
        RenameStep::Refuse
    }
}

/// What a renaming has to do.
pub fn rename_step(destination_exists: bool, overwrite: bool, ignore_if_exists: bool) -> (r: RenameStep)
    ensures
        r == rename_choice(destination_exists, overwrite, ignore_if_exists),
{
    if !destination_exists {
        RenameStep::Move
    } else if overwrite {
        RenameStep::SetAsideAndMove
    } else if ignore_if_exists {
        RenameStep::Skip
    } else {
        RenameStep::Refuse
    }
}

/// What a deletion has to do.
#[derive(Clone, Copy, Debug, PartialEq, Eq, Structural)]
pub enum DeleteStep {
    /// Set the resource aside.
    SetAside,
    /// Nothing stands there, and nothing is to be done.
    Skip,
    /// Nothing stands there.
    RefuseMissing,
    /// The directory holds something.
    RefuseNotEmpty,
}

/// What a deletion has to do.
pub open spec fn delete_choice(
    exists: bool,
    is_directory: bool,
    has_children: bool,
    recursive: bool,
    ignore_if_not_exists: bool,
) -> DeleteStep {
    if !exists {
        if ignore_if_not_exists {
            DeleteStep::Skip
        } else {
            DeleteStep::RefuseMissing
        }
    } else if is_directory && !recursive && has_children {
        DeleteStep::RefuseNotEmpty
    } else {
        DeleteStep::SetAside
    }
}

/// What a deletion has to do.
pub fn delete_step(
    exists: bool,
    is_directory: bool,
    has_children: bool,
    recursive: bool,
    ignore_if_not_exists: bool,
) -> (r: DeleteStep)
    ensures
        r == delete_choice(exists, is_directory, has_children, recursive, ignore_if_not_exists),
{
    if !exists {
        if ignore_if_not_exists {
            DeleteStep::Skip
        } else {
            DeleteStep::RefuseMissing
        }
    } else if is_directory && !recursive && has_children {
        DeleteStep::RefuseNotEmpty
    } else {
        DeleteStep::SetAside
    }
}

/// Why a text may not be written, if it may not.
pub open spec fn text_commit_problem(
    current: Seq<u8>,
    before_digest: Seq<char>,
    staged: Seq<u8>,
    after_digest: Seq<char>,
) -> Option<Seq<char>> {
    if digest_text(current) != before_digest {
        Some("Text resource changed during commit."@)
    } else if digest_text(staged) != after_digest {
        Some("Canonical text edit digest does not match."@)
    } else {
        None
    }
}

/// Checks the text that stands and the text that was staged against their
/// digests.
pub fn check_text_commit(current: &Vec<u8>, before_digest: &str, staged: &Vec<u8>, after_digest: &str) -> (r: Option<
    String,
>)
    ensures
        opt_view(r) == text_commit_problem(current@, before_digest@, staged@, after_digest@),
{
    let digest: String = digest_raw_bytes(current);
    if !same(digest.as_str(), before_digest) {
        return Some("Text resource changed during commit.".to_owned());
    }
    let digest: String = digest_raw_bytes(staged);
    if !same(digest.as_str(), after_digest) {
        return Some("Canonical text edit digest does not match.".to_owned());
    }
    None
}

/// Whether undoing a creation removes what stands there.
pub fn undo_create(expected: &ManifestEntry, actual: &ManifestEntry) -> (r: bool)
    ensures
        r == (!expected@.exists && actual@.exists),
{
    !expected.exists && actual.exists
}

/// Whether undoing a renaming moves the resource back, or why it cannot.
pub open spec fn rename_undone(
    expected_old: ManifestView,
    actual_old: ManifestView,
    actual_new: ManifestView,
) -> Result<bool, Seq<char>> {
    if !actual_old.exists {
        if !actual_new.exists || (expected_old.exists && !same_identity(expected_old, actual_new)) {
            Err("The renamed resource identity is unavailable for rollback."@)
        } else {
            Ok(true)
        }
    } else if expected_old.exists && !same_identity(expected_old, actual_old) {
        Err("The original rename source changed before rollback."@)
    } else {
        Ok(false)
    }
}

/// Whether undoing a renaming moves the resource back, or why it cannot.
/// `actual_new` matters only where nothing stands at the old path.
pub fn undo_rename_source(
    expected_old: &ManifestEntry,
    actual_old: &ManifestEntry,
    actual_new: &ManifestEntry,
) -> (r: Result<bool, String>)
    ensures
        match r {
            Ok(b) => rename_undone(expected_old@, actual_old@, actual_new@) == Ok::<bool, Seq<char>>(b),
            Err(reason) => rename_undone(expected_old@, actual_old@, actual_new@) == Err::<bool, Seq<char>>(reason@),
        },
{
    if !actual_old.exists {
        if !actual_new.exists || (expected_old.exists && !same_resource_identity(expected_old, actual_new)) {
            return Err("The renamed resource identity is unavailable for rollback.".to_owned());
        }
        return Ok(true);
    }
    if expected_old.exists && !same_resource_identity(expected_old, actual_old) {
        return Err("The original rename source changed before rollback.".to_owned());
    }
    Ok(false)
}

/// Whether undoing a renaming puts back what it had set aside, or why it
/// cannot.
pub open spec fn destination_undone(
    expected_new: ManifestView,
    undo: ManifestView,
    actual_new: ManifestView,
) -> Result<bool, Seq<char>> {
    if undo.exists {
        if expected_new.exists && !same_identity(expected_new, undo) {
            Err("The overwritten rename destination changed in staging."@)
        } else if actual_new.exists {
            Err("The rename destination is occupied during rollback."@)
        } else {
            Ok(true)
        }
    } else if expected_new.exists && !same_identity(expected_new, actual_new) {
        Err("The original rename destination is unavailable for rollback."@)
    } else if !expected_new.exists && actual_new.exists {
        Err("The rename destination remains occupied after rollback."@)
    } else {
        Ok(false)
    }
}

/// Whether undoing a renaming puts back what it had set aside, or why it
/// cannot. `actual_new` is read after the resource moved back.
pub fn undo_rename_destination(
    expected_new: &ManifestEntry,
    undo: &ManifestEntry,
    actual_new: &ManifestEntry,
) -> (r: Result<bool, String>)
    ensures
        match r {
            Ok(b) => destination_undone(expected_new@, undo@, actual_new@) == Ok::<bool, Seq<char>>(b),
            Err(reason) => destination_undone(expected_new@, undo@, actual_new@) == Err::<bool, Seq<char>>(reason@),
        },
{
    if undo.exists {
        if expected_new.exists && !same_resource_identity(expected_new, undo) {
            return Err("The overwritten rename destination changed in staging.".to_owned());
        }
        if actual_new.exists {
            return Err("The rename destination is occupied during rollback.".to_owned());
        }
        return Ok(true);
    }
    if expected_new.exists && !same_resource_identity(expected_new, actual_new) {
        return Err("The original rename destination is unavailable for rollback.".to_owned());
    }
    if !expected_new.exists && actual_new.exists {
        return Err("The rename destination remains occupied after rollback.".to_owned());
    }
    Ok(false)
}

/// Whether undoing a deletion puts back what it had set aside, or why it
/// cannot.
pub open spec fn delete_undone(expected: ManifestView, actual: ManifestView, undo: ManifestView) -> Result<
    bool,
    Seq<char>,
> {
    if actual.exists {
        if !undo.exists && (!expected.exists || same_identity(expected, actual)) {
            Ok(false)
        } else {
            Err("The deleted resource path is occupied during rollback."@)
        }
    } else if !undo.exists || (expected.exists && !same_identity(expected, undo)) {
        Err("The deleted resource identity is unavailable for rollback."@)
    } else {
        Ok(true)
    }
}

/// Whether undoing a deletion puts back what it had set aside, or why it
/// cannot.
pub fn undo_delete(expected: &ManifestEntry, actual: &ManifestEntry, undo: &ManifestEntry) -> (r: Result<bool, String>)
    ensures
        match r {
            Ok(b) => delete_undone(expected@, actual@, undo@) == Ok::<bool, Seq<char>>(b),
            Err(reason) => delete_undone(expected@, actual@, undo@) == Err::<bool, Seq<char>>(reason@),
        },
{
    if actual.exists {
        if !undo.exists && (!expected.exists || same_resource_identity(expected, actual)) {
            return Ok(false);
        }
        return Err("The deleted resource path is occupied during rollback.".to_owned());
    }
    if !undo.exists || (expected.exists && !same_resource_identity(expected, undo)) {
        return Err("The deleted resource identity is unavailable for rollback.".to_owned());
    }
    Ok(true)
}

/// What is left to do once the resource operations are undone: files to fill
/// from their backups, and resources to remove, the deepest first.
pub struct Restoration {
    pub restore: Vec<(NativePath, NativePath)>,
    pub remove: Vec<NativePath>,
}

/// What a [`Restoration`] stands for.
#[verifier::ext_equal]
pub ghost struct RestorationView {
    pub restore: Seq<(PathView, PathView)>,
    pub remove: Seq<PathView>,
}

impl View for Restoration {
    type V = RestorationView;

    open spec fn view(&self) -> RestorationView {
        RestorationView {
            restore: crate::staging::alias_views(self.restore@),
            remove: views(self.remove@),
        }
    }
}

/// What one existing resource needs to be as it was before.
pub open spec fn restore_one(expected: ManifestView, current: Seq<ManifestView>, backups: Seq<BackupView>) -> Result<
    Option<(PathView, PathView)>,
    Seq<char>,
> {
    match recorded(current, expected.path) {
        None => Err("A pre-Application resource is missing during rollback."@),
        Some(actual) => if expected == actual {
            Ok(None)
        } else if expected.resource_kind == ResourceKind::File && actual.resource_kind == ResourceKind::File
            && expected.identity_digest == actual.identity_digest {
            match backup_place(backups, expected.path) {
                None => Err("A required rollback backup is missing."@),
                Some(backup) => Ok(Some((backup, expected.path))),
            }
        } else {
            Err("Automatic rollback cannot restore the original resource identity."@)
        },
    }
}

/// The files to fill from their backups, from the `i`th record on.
pub open spec fn restores_from(
    before: Seq<ManifestView>,
    i: int,
    current: Seq<ManifestView>,
    backups: Seq<BackupView>,
    found: Seq<(PathView, PathView)>,
) -> Result<Seq<(PathView, PathView)>, Seq<char>>
    decreases before.len() - i,
{
    if i >= before.len() {
        Ok(found)
    } else if !before[i].exists {
        restores_from(before, i + 1, current, backups, found)
    } else {
        match restore_one(before[i], current, backups) {
            Err(reason) => Err(reason),
            Ok(None) => restores_from(before, i + 1, current, backups, found),
            Ok(Some(pair)) => restores_from(before, i + 1, current, backups, found.push(pair)),
        }
    }
}

/// Whether something stands where nothing stood before.
pub open spec fn new_in(current: Seq<ManifestView>) -> spec_fn(ManifestView) -> bool {
    |entry: ManifestView| !entry.exists && exists_at(current, entry.path)
}

/// Whether a manifest records that something exists at a path.
pub open spec fn exists_at(current: Seq<ManifestView>, path: PathView) -> bool {
    exists|i: int| 0 <= i < current.len() && (#[trigger] current[i]).path == path && current[i].exists
}

/// What is to be removed stands with the deepest first.
impl Ranked for NativePath {
    open spec fn before(a: PathView, b: PathView) -> bool {
        a.len() > b.len()
    }

    proof fn lemma_not_before(a: PathView, b: PathView, c: PathView) {
    }

    proof fn lemma_one_way(a: PathView, b: PathView) {
    }

    fn comes_before(&self, other: &Self) -> (r: bool) {
        self.components.len() > other.components.len()
    }
}

/// The paths with the deepest first.
pub open spec fn deepest_first(s: Seq<PathView>) -> Seq<PathView> {
    ranked::<NativePath>(s)
}

/// The paths at which something stands where nothing stood before.
pub open spec fn created_paths(before: Seq<ManifestView>, current: Seq<ManifestView>) -> Seq<PathView> {
    let entries = before.filter(new_in(current));
    Seq::new(entries.len(), |i: int| entries[i].path)
}

/// What is left to do for a rollback.
pub open spec fn restoration_of(
    before: Seq<ManifestView>,
    current: Seq<ManifestView>,
    backups: Seq<BackupView>,
) -> Result<RestorationView, Seq<char>> {
    match restores_from(before, 0, current, backups, Seq::empty()) {
        Err(reason) => Err(reason),
        Ok(restore) => Ok(RestorationView { restore, remove: deepest_first(created_paths(before, current)) }),
    }
}

fn is_new(current: &Vec<ManifestEntry>, path: &NativePath) -> (r: bool)
    ensures
        r == exists_at(views(current@), path@),
{
    let ghost all = views(current@);
    let mut i: usize = 0;
    while i < current.len()
        invariant
            all == views(current@),
            i <= current@.len(),
            forall|j: int| 0 <= j < i ==> !((#[trigger] all[j]).path == path@ && all[j].exists),
        decreases current.len() - i,
    {
        assert(all[i as int] == current@[i as int]@);
        if current[i].exists && current[i].path.same_path(path) {
            return true;
        }
        i += 1;
    }
    false
}

/// What is left to do for a rollback once the resource operations are undone.
pub fn plan_restoration(
    before: &Vec<ManifestEntry>,
    current: &Vec<ManifestEntry>,
    backups: &Vec<BackupEntry>,
) -> (r: Result<Restoration, String>)
    ensures
        match r {
            Ok(plan) => restoration_of(views(before@), views(current@), views(backups@)) == Ok::<
                RestorationView,
                Seq<char>,
            >(plan@),
            Err(reason) => restoration_of(views(before@), views(current@), views(backups@)) == Err::<
                RestorationView,
                Seq<char>,
            >(reason@),
        },
{
    let ghost b = views(before@);
    let ghost c = views(current@);
    let ghost k = views(backups@);
    let mut restore: Vec<(NativePath, NativePath)> = Vec::new();
    let mut i: usize = 0;
    assert(crate::staging::alias_views(restore@) =~= Seq::<(PathView, PathView)>::empty());
    while i < before.len()
        invariant
            b == views(before@),
            c == views(current@),
            k == views(backups@),
            i <= before@.len(),
            restores_from(b, 0, c, k, Seq::empty()) == restores_from(
                b,
                i as int,
                c,
                k,
                crate::staging::alias_views(restore@),
            ),
        decreases before.len() - i,
    {
        let expected: &ManifestEntry = &before[i];
        assert(b[i as int] == expected@);
        if expected.exists {
            match find_manifest(current, &expected.path) {
                None => {
                    return Err("A pre-Application resource is missing during rollback.".to_owned());
                },
                Some(actual) => {
                    if !expected.same_entry(actual) {
                        if expected.resource_kind == ResourceKind::File && actual.resource_kind == ResourceKind::File
                            && same_opt(&expected.identity_digest, &actual.identity_digest) {
                            match backup_path_for(backups, &expected.path) {
                                None => {
                                    return Err("A required rollback backup is missing.".to_owned());
                                },
                                Some(backup) => {
                                    let ghost sofar = restore@;
                                    let ghost pair = (backup@, expected@.path);
                                    restore.push((backup, expected.path.duplicate()));
                                    assert(crate::staging::alias_views(restore@) =~= crate::staging::alias_views(
                                        sofar,
                                    ).push(pair));
                                },
                            }
                        } else {
                            return Err(
                                "Automatic rollback cannot restore the original resource identity.".to_owned(),
                            );
                        }
                    }
                },
            }
        }
        i += 1;
    }
    let ghost test = new_in(c);
    let ghost created = created_paths(b, c);
    let mut remove: Vec<NativePath> = Vec::new();
    let mut j: usize = 0;
    reveal(Seq::filter);
    assert(b.take(0).filter(test).len() == 0);
    assert(views(remove@) =~= deepest_first(created_paths(b.take(0), c)));
    while j < before.len()
        invariant
            b == views(before@),
            c == views(current@),
            test == new_in(c),
            j <= before@.len(),
            views(remove@) == deepest_first(created_paths(b.take(j as int), c)),
        decreases before.len() - j,
    {
        assert(b[j as int] == before@[j as int]@);
        proof { crate::plan_tree::lemma_filter_take(b, test, j as int); }
        let ghost done = created_paths(b.take(j as int), c);
        if !before[j].exists && is_new(current, &before[j].path) {
            proof {
                let more = created_paths(b.take(j + 1), c);
                assert(more =~= done.push(b[j as int].path));
                assert(more.drop_last() =~= done);
            }
            insert_ranked(&mut remove, before[j].path.duplicate());
        } else {
            assert(created_paths(b.take(j + 1), c) =~= done);
        }
        j += 1;
    }
    assert(b.take(j as int) =~= b);
    Ok(Restoration { restore, remove })
}

/// Whether a rollback has restored what was there, or why it has not.
pub fn check_restored(before: &Vec<ManifestEntry>, restored: &Vec<ManifestEntry>) -> (r: Result<(), String>)
    ensures
        match r {
            Ok(_) => mismatches(views(before@), views(restored@)).len() == 0,
            Err(reason) => mismatches(views(before@), views(restored@)).len() > 0 && reason@
                == "The rollback manifest does not match its preconditions."@,
        },
{
    let found: Vec<crate::json::Json> = manifest_mismatches(before, restored);
    assert(crate::json::array_view(found@).len() == found@.len());
    if found.len() == 0 {
        Ok(())
    } else {
        Err("The rollback manifest does not match its preconditions.".to_owned())
    }
}

proof fn lemma_restores_nothing(before: Seq<ManifestView>, i: int, backups: Seq<BackupView>)
    requires
        0 <= i,
        forall|j: int, k: int| 0 <= j < k < before.len() ==> (#[trigger] before[j]).path != (#[trigger] before[k]).path,
    ensures
        restores_from(before, i, before, backups, Seq::empty()) == Ok::<Seq<(PathView, PathView)>, Seq<char>>(
            Seq::empty(),
        ),
    decreases before.len() - i,
{
    if i < before.len() {
        crate::checks::lemma_recorded_self(before, i);
        lemma_restores_nothing(before, i + 1, backups);
    }
}

/// Where everything is as it was, a rollback has nothing left to do.
pub proof fn law_nothing_to_restore(before: Seq<ManifestView>, backups: Seq<BackupView>)
    requires
        forall|j: int, k: int| 0 <= j < k < before.len() ==> (#[trigger] before[j]).path != (#[trigger] before[k]).path,
    ensures
        restoration_of(before, before, backups) == Ok::<RestorationView, Seq<char>>(
            RestorationView { restore: Seq::empty(), remove: Seq::empty() },
        ),
{
    broadcast use vstd::seq_lib::group_filter_ensures;

    lemma_restores_nothing(before, 0, backups);
    let entries = before.filter(new_in(before));
    if entries.len() > 0 {
        assert(entries.contains(entries[0]));
        assert(new_in(before)(entries[0]));
        let e = entries[0];
        before.lemma_filter_contains_rev(new_in(before), e);
        assert(before.contains(e));
        let x = before.index_of(e);
        assert(before[x] == e);
        let i = choose|i: int| 0 <= i < before.len() && (#[trigger] before[i]).path == e.path && before[i].exists;
        if i < x {
            assert(before[i].path != before[x].path);
        } else if x < i {
            assert(before[x].path != before[i].path);
        }
    }
    assert(created_paths(before, before) =~= Seq::empty());
}

} // verus!
