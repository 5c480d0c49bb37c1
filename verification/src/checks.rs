//! Comparing manifests, and where resources are kept for rollback.

use vstd::prelude::*;

use crate::json::{Json, JsonView, array_view, object3, object_view, opt_text_value, opt_text_view, push_field, text_value};
use crate::manifest::{
    ManifestEntry,
    ManifestView,
    PathView,
    ResourceKind,
    kind_name,
    kind_text,
    missing_at,
    missing_manifest,
};
use crate::order::Key;
use crate::path::{NativePath, path_text, rebased};
use crate::plan::{CanonicalOperation, CanonicalPlan, OperationView, PlanView};
use crate::records::{BackupEntry, BackupView};
use crate::sorted::{SortedMap, lemma_listing_exists, listing, lists_keys};
use crate::text::{concat, decimal, decimal_text, opt_ref_view, opt_view, same_opt, views};

verus! {

/// The first record of a path.
pub open spec fn recorded(list: Seq<ManifestView>, path: PathView) -> Option<ManifestView>
    decreases list.len(),
{
    if list.len() == 0 {
        None
    } else if list[0].path == path {
        Some(list[0])
    } else {
        recorded(list.drop_first(), path)
    }
}

/// The first record of a path.
pub fn find_manifest<'a>(list: &'a Vec<ManifestEntry>, path: &NativePath) -> (r: Option<&'a ManifestEntry>)
    ensures
        opt_ref_view(r) == recorded(views(list@), path@),
{
    let ghost all = views(list@);
    let mut i: usize = 0;
    assert(all.skip(0) =~= all);
    while i < list.len()
        invariant
            all == views(list@),
            i <= list@.len(),
            recorded(all, path@) == recorded(all.skip(i as int), path@),
        decreases list.len() - i,
    {
        assert(all.skip(i as int)[0] == list@[i as int]@);
        assert(all.skip(i as int).drop_first() =~= all.skip(i + 1));
        if list[i].path.same_path(path) {
            return Some(&list[i]);
        }
        i += 1;
    }
    None
}

/// The record of a path that a rollback needs.
pub fn manifest_for_path<'a>(list: &'a Vec<ManifestEntry>, path: &NativePath) -> (r: Result<&'a ManifestEntry, String>)
    ensures
        match r {
            Ok(entry) => recorded(views(list@), path@) == Some(entry@),
            Err(reason) => recorded(views(list@), path@) is None && reason@ == "A rollback manifest path is missing."@,
        },
{
    match find_manifest(list, path) {
        Some(entry) => Ok(entry),
        None => Err("A rollback manifest path is missing.".to_owned()),
    }
}

/// Whether a manifest records a directory at a path.
pub open spec fn records_directory(list: Seq<ManifestView>, path: PathView) -> bool {
    match recorded(list, path) {
        Some(entry) => entry.resource_kind == ResourceKind::Directory,
        None => false,
    }
}

/// Whether a manifest records a directory at a path.
pub fn manifest_is_directory(list: &Vec<ManifestEntry>, path: &NativePath) -> (r: bool)
    ensures
        r == records_directory(views(list@), path@),
{
    match find_manifest(list, path) {
        Some(entry) => entry.resource_kind == ResourceKind::Directory,
        None => false,
    }
}

/// Whether two records show one and the same existing resource.
pub open spec fn same_identity(expected: ManifestView, actual: ManifestView) -> bool {
    &&& expected.exists
    &&& actual.exists
    &&& expected.resource_kind == actual.resource_kind
    &&& expected.identity_digest == actual.identity_digest
}

/// Whether two records show one and the same existing resource.
pub fn same_resource_identity(expected: &ManifestEntry, actual: &ManifestEntry) -> (r: bool)
    ensures
        r == same_identity(expected@, actual@),
{
    expected.exists && actual.exists && expected.resource_kind == actual.resource_kind && same_opt(
        &expected.identity_digest,
        &actual.identity_digest,
    )
}

/// In what a resource differs from what is expected of it. Digests that are
/// not recorded are not expected.
pub open spec fn mismatch_code(expected: ManifestView, actual: ManifestView) -> Option<Seq<char>> {
    if expected.exists != actual.exists {
        Some("resource_existence"@)
    } else if expected.resource_kind != actual.resource_kind {
        Some("resource_kind"@)
    } else if expected.identity_digest is Some && expected.identity_digest != actual.identity_digest {
        Some("resource_identity"@)
    } else if expected.content_digest is Some && expected.content_digest != actual.content_digest {
        Some("resource_content"@)
    } else if expected.metadata_digest is Some && expected.metadata_digest != actual.metadata_digest {
        Some("resource_metadata"@)
    } else {
        None
    }
}

/// The record of a path, or that nothing stands there.
pub open spec fn recorded_or_missing(list: Seq<ManifestView>, path: PathView) -> ManifestView {
    match recorded(list, path) {
        Some(entry) => entry,
        None => missing_at(path),
    }
}

/// The report of a mismatch.
pub open spec fn mismatch_json(expected: ManifestView, actual: ManifestView, code: Seq<char>) -> JsonView {
    JsonView::Object(
        seq![
            ("actualDigest"@, opt_text_view(actual.content_digest)),
            ("code"@, JsonView::Text(code)),
            ("expectedDigest"@, opt_text_view(expected.content_digest)),
            ("message"@, JsonView::Text("A filesystem precondition no longer matches."@)),
            ("path"@, JsonView::Text(path_text(expected.path))),
        ],
    )
}

/// The reports of all mismatches.
pub open spec fn mismatches(expected: Seq<ManifestView>, actual: Seq<ManifestView>) -> Seq<JsonView>
    decreases expected.len(),
{
    if expected.len() == 0 {
        Seq::empty()
    } else {
        let rest = mismatches(expected.drop_last(), actual);
        let entry = expected.last();
        let seen = recorded_or_missing(actual, entry.path);
        match mismatch_code(entry, seen) {
            Some(code) => rest.push(mismatch_json(entry, seen, code)),
            None => rest,
        }
    }
}

fn code_of_mismatch(expected: &ManifestEntry, actual: &ManifestEntry) -> (r: Option<&'static str>)
    ensures
        match r {
            Some(code) => mismatch_code(expected@, actual@) == Some(code@),
            None => mismatch_code(expected@, actual@) is None,
        },
{
    if expected.exists != actual.exists {
        Some("resource_existence")
    } else if expected.resource_kind != actual.resource_kind {
        Some("resource_kind")
    } else if expected.identity_digest.is_some() && !same_opt(&expected.identity_digest, &actual.identity_digest) {
        Some("resource_identity")
    } else if expected.content_digest.is_some() && !same_opt(&expected.content_digest, &actual.content_digest) {
        Some("resource_content")
    } else if expected.metadata_digest.is_some() && !same_opt(&expected.metadata_digest, &actual.metadata_digest) {
        Some("resource_metadata")
    } else {
        None
    }
}

fn report_mismatch(expected: &ManifestEntry, actual: &ManifestEntry, code: &str) -> (r: Json)
    ensures
        r@ == mismatch_json(expected@, actual@, code@),
{
    let mut o: Vec<(String, Json)> = Vec::new();
    assert(object_view(o@) =~= seq![]);
    push_field(&mut o, "actualDigest", opt_text_value(actual.content_digest.as_ref()));
    push_field(&mut o, "code", text_value(code));
    push_field(&mut o, "expectedDigest", opt_text_value(expected.content_digest.as_ref()));
    push_field(&mut o, "message", text_value("A filesystem precondition no longer matches."));
    push_field(&mut o, "path", Json::Text(expected.path.to_text()));
    assert(object_view(o@) =~= mismatch_json(expected@, actual@, code@)->Object_0);
    Json::Object(o)
}

/// The reports of all mismatches between what is expected and what is there.
pub fn manifest_mismatches(expected: &Vec<ManifestEntry>, actual: &Vec<ManifestEntry>) -> (r: Vec<Json>)
    ensures
        array_view(r@) == mismatches(views(expected@), views(actual@)),
{
    let ghost all = views(expected@);
    let ghost seen = views(actual@);
    let mut r: Vec<Json> = Vec::new();
    let mut i: usize = 0;
    assert(array_view(r@) =~= mismatches(all.take(0), seen));
    while i < expected.len()
        invariant
            all == views(expected@),
            seen == views(actual@),
            i <= expected@.len(),
            array_view(r@) == mismatches(all.take(i as int), seen),
        decreases expected.len() - i,
    {
        let entry: &ManifestEntry = &expected[i];
        proof {
            assert(all.take(i + 1).drop_last() =~= all.take(i as int));
            assert(all.take(i + 1).last() == entry@);
        }
        let missing: ManifestEntry = missing_manifest(&entry.path);
        let found: &ManifestEntry = match find_manifest(actual, &entry.path) {
            Some(found) => found,
            None => &missing,
        };
        match code_of_mismatch(entry, found) {
            Some(code) => {
                let ghost before = r@;
                let report: Json = report_mismatch(entry, found, code);
                r.push(report);
                assert(array_view(r@) =~= array_view(before).push(report@));
            },
            None => {},
        }
        i += 1;
    }
    assert(all.take(i as int) =~= all);
    r
}

/// Whether an operation takes away what lies at a path of a directory.
pub open spec fn removes_tree_at(op: OperationView, path: PathView) -> bool {
    match op {
        OperationView::Delete { index, uri, path: root, recursive, ignore_if_not_exists } => root.is_prefix_of(path),
        OperationView::Rename { index, old_uri, new_uri, old_path, new_path, overwrite, ignore_if_exists } => {
            old_path.is_prefix_of(path) || (overwrite && new_path.is_prefix_of(path))
        },
        _ => false,
    }
}

/// Whether some operation takes away what lies at a path.
pub open spec fn some_removes_tree_at(ops: Seq<OperationView>, path: PathView) -> bool {
    exists|i: int| 0 <= i < ops.len() && removes_tree_at(#[trigger] ops[i], path)
}

/// Whether a directory is to be taken away though its children are not recorded.
pub open spec fn membership_unbound(entry: ManifestView, ops: Seq<OperationView>) -> bool {
    &&& entry.exists
    &&& entry.resource_kind == ResourceKind::Directory
    &&& entry.content_digest is None
    &&& some_removes_tree_at(ops, entry.path)
}

/// The report of a directory whose children are not recorded.
pub open spec fn unbound_json(path: PathView) -> JsonView {
    JsonView::Object(
        seq![
            ("code"@, JsonView::Text("resource_content"@)),
            (
                "message"@,
                JsonView::Text("Directory membership was not bound by this Preview; create a fresh Preview."@),
            ),
            ("path"@, JsonView::Text(path_text(path))),
        ],
    )
}

/// The reports of directories whose children are not recorded.
pub open spec fn unbound_reports(before: Seq<ManifestView>, ops: Seq<OperationView>) -> Seq<JsonView>
    decreases before.len(),
{
    if before.len() == 0 {
        Seq::empty()
    } else {
        let rest = unbound_reports(before.drop_last(), ops);
        if membership_unbound(before.last(), ops) {
            rest.push(unbound_json(before.last().path))
        } else {
            rest
        }
    }
}

/// Why a preview no longer fits what is there.
pub open spec fn preview_mismatches(plan: PlanView, actual: Seq<ManifestView>) -> Seq<JsonView> {
    mismatches(plan.before_manifest, actual) + unbound_reports(plan.before_manifest, plan.operations)
}

fn any_removes_tree_at(ops: &Vec<CanonicalOperation>, path: &NativePath) -> (r: bool)
    ensures
        r == some_removes_tree_at(views(ops@), path@),
{
    let mut i: usize = 0;
    while i < ops.len()
        invariant
            i <= ops@.len(),
            forall|j: int| 0 <= j < i ==> !removes_tree_at(#[trigger] views(ops@)[j], path@),
        decreases ops.len() - i,
    {
        assert(views(ops@)[i as int] == ops@[i as int]@);
        let removes: bool = match &ops[i] {
            CanonicalOperation::Delete { index: _, uri: _, path: root, recursive: _, ignore_if_not_exists: _ } =>
                path.starts_with(root),
            CanonicalOperation::Rename {
                index: _,
                old_uri: _,
                new_uri: _,
                old_path,
                new_path,
                overwrite,
                ignore_if_exists: _,
            } => path.starts_with(old_path) || (*overwrite && path.starts_with(new_path)),
            _ => false,
        };
        if removes {
            return true;
        }
        i += 1;
    }
    false
}

/// Why a preview no longer fits what is there.
pub fn preview_manifest_mismatches(plan: &CanonicalPlan, actual: &Vec<ManifestEntry>) -> (r: Vec<Json>)
    ensures
        array_view(r@) == preview_mismatches(plan@, views(actual@)),
{
    let ghost before = plan@.before_manifest;
    let ghost ops = plan@.operations;
    let mut r: Vec<Json> = manifest_mismatches(&plan.before_manifest, actual);
    let ghost first = array_view(r@);
    let mut i: usize = 0;
    assert(first + unbound_reports(before.take(0), ops) =~= first);
    while i < plan.before_manifest.len()
        invariant
            before == views(plan.before_manifest@),
            ops == views(plan.operations@),
            i <= plan.before_manifest@.len(),
            array_view(r@) == first + unbound_reports(before.take(i as int), ops),
        decreases plan.before_manifest.len() - i,
    {
        let entry: &ManifestEntry = &plan.before_manifest[i];
        proof {
            assert(before.take(i + 1).drop_last() =~= before.take(i as int));
            assert(before.take(i + 1).last() == entry@);
        }
        if entry.exists && entry.resource_kind == ResourceKind::Directory && entry.content_digest.is_none()
            && any_removes_tree_at(&plan.operations, &entry.path) {
            let ghost sofar = r@;
            let report: Json = object3(
                "code",
                text_value("resource_content"),
                "message",
                text_value("Directory membership was not bound by this Preview; create a fresh Preview."),
                "path",
                Json::Text(entry.path.to_text()),
            );
            r.push(report);
            assert(array_view(r@) =~= array_view(sofar).push(report@));
            assert(array_view(r@) =~= first + unbound_reports(before.take(i + 1), ops));
        }
        i += 1;
    }
    assert(before.take(i as int) =~= before);
    r
}

/// There is no mismatch exactly where each expectation is met.
pub proof fn law_no_mismatch_means_all_met(expected: Seq<ManifestView>, actual: Seq<ManifestView>)
    ensures
        mismatches(expected, actual).len() == 0 <==> forall|i: int|
            0 <= i < expected.len() ==> mismatch_code(
                #[trigger] expected[i],
                recorded_or_missing(actual, expected[i].path),
            ) is None,
    decreases expected.len(),
{
    if expected.len() > 0 {
        law_no_mismatch_means_all_met(expected.drop_last(), actual);
        let n = expected.len() - 1;
        assert(expected.last() == expected[n]);
        if mismatches(expected, actual).len() == 0 {
            assert forall|i: int| 0 <= i < expected.len() implies mismatch_code(
                #[trigger] expected[i],
                recorded_or_missing(actual, expected[i].path),
            ) is None by {
                if i < n {
                    assert(expected.drop_last()[i] == expected[i]);
                }
            }
        } else {
            if mismatches(expected.drop_last(), actual).len() > 0 {
                let i = choose|i: int|
                    0 <= i < n && mismatch_code(
                        #[trigger] expected.drop_last()[i],
                        recorded_or_missing(actual, expected.drop_last()[i].path),
                    ) is Some;
                assert(expected[i] == expected.drop_last()[i]);
            }
        }
    }
}

pub proof fn lemma_recorded_self(list: Seq<ManifestView>, i: int)
    requires
        0 <= i < list.len(),
        forall|j: int, k: int| 0 <= j < k < list.len() ==> (#[trigger] list[j]).path != (#[trigger] list[k]).path,
    ensures
        recorded(list, list[i].path) == Some(list[i]),
    decreases i,
{
    if i > 0 {
        let rest = list.drop_first();
        assert(list[0].path != list[i].path);
        assert(rest[i - 1] == list[i]);
        lemma_recorded_self(rest, i - 1);
    }
}

/// A manifest of different paths meets its own expectations.
pub proof fn law_manifest_meets_itself(list: Seq<ManifestView>)
    requires
        forall|j: int, k: int| 0 <= j < k < list.len() ==> (#[trigger] list[j]).path != (#[trigger] list[k]).path,
    ensures
        mismatches(list, list).len() == 0,
{
    assert forall|i: int| 0 <= i < list.len() implies mismatch_code(
        #[trigger] list[i],
        recorded_or_missing(list, list[i].path),
    ) is None by {
        lemma_recorded_self(list, i);
    }
    law_no_mismatch_means_all_met(list, list);
}

/// The paths of the resources that exist.
pub open spec fn existing_paths(before: Seq<ManifestView>) -> Set<PathView> {
    Set::new(
        |p: PathView| exists|i: int| 0 <= i < before.len() && (#[trigger] before[i]).exists && before[i].path == p,
    )
}

/// Whether no other existing resource lies above a path.
pub open spec fn topmost(existing: Set<PathView>) -> spec_fn(PathView) -> bool {
    |p: PathView| forall|q: PathView| #[trigger] existing.contains(q) && q != p ==> !q.is_prefix_of(p)
}

/// The existing resources that lie below no other, in ascending order.
pub open spec fn backup_roots(before: Seq<ManifestView>) -> Seq<PathView> {
    listing::<NativePath>(existing_paths(before)).filter(topmost(existing_paths(before)))
}

/// Where resources are kept for rollback.
pub open spec fn backups_planned(before: Seq<ManifestView>, artifacts: PathView) -> Seq<BackupView> {
    let roots = backup_roots(before);
    Seq::new(
        roots.len(),
        |i: int|
            BackupView {
                path: roots[i],
                backup_path: artifacts.push("backup-"@ + decimal_text(i as nat)),
                existed: true,
                resource_kind: kind_text(recorded_or_missing(before, roots[i]).resource_kind),
            },
    )
}

fn existing_set(before: &Vec<ManifestEntry>) -> (r: SortedMap<NativePath, ()>)
    ensures
        r@.dom() == existing_paths(views(before@)),
{
    let ghost all = views(before@);
    let mut r: SortedMap<NativePath, ()> = SortedMap::new();
    let mut i: usize = 0;
    while i < before.len()
        invariant
            all == views(before@),
            i <= before@.len(),
            forall|p: PathView| #[trigger]
                r@.dom().contains(p) <==> exists|j: int|
                    0 <= j < i && (#[trigger] all[j]).exists && all[j].path == p,
        decreases before.len() - i,
    {
        let ghost sofar = r@.dom();
        assert(all[i as int] == before@[i as int]@);
        if before[i].exists {
            r.insert(before[i].path.duplicate(), ());
        }
        proof {
            assert forall|p: PathView| #[trigger] r@.dom().contains(p) <==> exists|j: int|
                0 <= j < i + 1 && (#[trigger] all[j]).exists && all[j].path == p by {
                if sofar.contains(p) {
                    let j = choose|j: int| 0 <= j < i && (#[trigger] all[j]).exists && all[j].path == p;
                    assert(0 <= j < i + 1 && all[j].exists && all[j].path == p);
                }
            }
        }
        i += 1;
    }
    assert(r@.dom() =~= existing_paths(all));
    r
}

fn is_topmost(existing: &SortedMap<NativePath, ()>, path: &NativePath) -> (r: bool)
    ensures
        r == topmost(existing@.dom())(path@),
{
    let n: usize = existing.len();
    let mut i: usize = 0;
    while i < n
        invariant
            n == existing.keys().len(),
            i <= n,
            forall|j: int|
                0 <= j < i ==> (#[trigger] existing.keys()[j] != path@ ==> !existing.keys()[j].is_prefix_of(path@)),
        decreases n - i,
    {
        let other: &NativePath = existing.key_at(i);
        if !other.same_path(path) && path.starts_with(other) {
            assert(existing@.dom().contains(other@));
            return false;
        }
        i += 1;
    }
    proof {
        assert forall|q: PathView| #[trigger] existing@.dom().contains(q) && q != path@ implies !q.is_prefix_of(path@) by {
            assert(existing.keys().contains(q));
            let j = existing.keys().index_of(q);
            assert(existing.keys()[j] == q);
        }
    }
    true
}

/// Where resources are kept for rollback: one place for each existing resource
/// that lies below no other.
pub fn planned_backups(before: &Vec<ManifestEntry>, artifact_directory: &NativePath) -> (r: Vec<BackupEntry>)
    ensures
        views(r@) == backups_planned(views(before@), artifact_directory@),
{
    let ghost all = views(before@);
    let existing: SortedMap<NativePath, ()> = existing_set(before);
    let n: usize = existing.len();
    let ghost keys = existing.keys();
    let ghost test = topmost(existing@.dom());
    let ghost roots = backup_roots(all);
    let ghost planned = backups_planned(all, artifact_directory@);
    let mut r: Vec<BackupEntry> = Vec::new();
    let mut i: usize = 0;
    reveal(Seq::filter);
    assert(keys.take(0).filter(test).len() == 0);
    assert(views(r@) =~= planned.take(0));
    while i < n
        invariant
            n == existing.keys().len(),
            keys == existing.keys(),
            keys == listing::<NativePath>(existing_paths(all)),
            existing@.dom() == existing_paths(all),
            all == views(before@),
            test == topmost(existing@.dom()),
            roots == keys.filter(test),
            planned == backups_planned(all, artifact_directory@),
            planned.len() == roots.len(),
            i <= n,
            r@.len() <= i,
            keys.take(i as int).filter(test).len() == r@.len(),
            keys.take(i as int).filter(test).is_prefix_of(roots),
            views(r@) =~= planned.take(r@.len() as int),
        decreases n - i,
    {
        let path: &NativePath = existing.key_at(i);
        proof {
            crate::plan_tree::lemma_filter_take(keys, test, i as int);
            let whole = keys.take(i + 1);
            assert(keys =~= whole + keys.skip(i + 1));
            Seq::filter_distributes_over_add(whole, keys.skip(i + 1), test);
            assert(whole.filter(test).is_prefix_of(roots)) by {
                assert(roots.subrange(0, whole.filter(test).len() as int) =~= whole.filter(test));
            }
        }
        if is_topmost(&existing, path) {
            let ghost k = r@.len() as int;
            let kind: ResourceKind = match find_manifest(before, path) {
                Some(entry) => entry.resource_kind,
                None => ResourceKind::Missing,
            };
            let number: String = decimal(r.len() as u64);
            let name: String = concat("backup-", number.as_str());
            let ghost sofar = r@;
            let entry: BackupEntry = BackupEntry {
                path: path.duplicate(),
                backup_path: artifact_directory.join(name.as_str()),
                existed: true,
                resource_kind: kind_name(kind).to_owned(),
            };
            proof {
                let whole = keys.take(i + 1).filter(test);
                assert(whole[k] == keys[i as int]);
                assert(roots.subrange(0, whole.len() as int)[k] == roots[k]);
                assert(roots[k] == path@);
                assert(entry@ == planned[k]);
            }
            r.push(entry);
            assert(planned.take(k + 1) =~= planned.take(k).push(planned[k]));
            assert(views(r@) =~= views(sofar).push(entry@));
        }
        i += 1;
    }
    assert(keys.take(i as int) =~= keys);
    assert(planned.take(r@.len() as int) =~= planned);
    r
}

/// Where the resource at a path is kept for rollback.
pub open spec fn backup_place(backups: Seq<BackupView>, path: PathView) -> Option<PathView>
    decreases backups.len(),
{
    if backups.len() == 0 {
        None
    } else if backups[0].path.is_prefix_of(path) {
        Some(rebased(path, backups[0].path, backups[0].backup_path))
    } else {
        backup_place(backups.drop_first(), path)
    }
}

/// Where the resource at a path is kept for rollback.
pub fn backup_path_for(backups: &Vec<BackupEntry>, path: &NativePath) -> (r: Option<NativePath>)
    ensures
        opt_view(r) == backup_place(views(backups@), path@),
{
    let ghost all = views(backups@);
    let mut i: usize = 0;
    assert(all.skip(0) =~= all);
    while i < backups.len()
        invariant
            all == views(backups@),
            i <= backups@.len(),
            backup_place(all, path@) == backup_place(all.skip(i as int), path@),
        decreases backups.len() - i,
    {
        assert(all.skip(i as int)[0] == backups@[i as int]@);
        assert(all.skip(i as int).drop_first() =~= all.skip(i + 1));
        if path.starts_with(&backups[i].path) {
            return Some(path.rebase(&backups[i].path, &backups[i].backup_path));
        }
        i += 1;
    }
    None
}

proof fn lemma_backup_place_found(backups: Seq<BackupView>, path: PathView, i: int)
    requires
        0 <= i < backups.len(),
        backups[i].path.is_prefix_of(path),
    ensures
        backup_place(backups, path) is Some,
    decreases backups.len(),
{
    if !backups[0].path.is_prefix_of(path) {
        assert(backups.drop_first()[i - 1] == backups[i]);
        lemma_backup_place_found(backups.drop_first(), path, i - 1);
    }
}

proof fn lemma_root_above(existing: Set<PathView>, keys: Seq<PathView>, p: PathView) -> (root: PathView)
    requires
        lists_keys::<NativePath>(keys, existing),
        existing.contains(p),
    ensures
        keys.filter(topmost(existing)).contains(root),
        root.is_prefix_of(p),
    decreases p.len(),
{
    if topmost(existing)(p) {
        broadcast use vstd::seq_lib::group_filter_ensures;

        assert(keys.contains(p));
        let i = keys.index_of(p);
        assert(keys[i] == p);
        assert(keys.filter(topmost(existing)).contains(keys[i]));
        assert(p.subrange(0, p.len() as int) =~= p);
        p
    } else {
        let q = choose|q: PathView| #[trigger] existing.contains(q) && q != p && q.is_prefix_of(p);
        assert(q.len() < p.len()) by {
            if q.len() == p.len() {
                assert(p.subrange(0, q.len() as int) =~= p);
            }
        }
        let root = lemma_root_above(existing, keys, q);
        assert(p.subrange(0, root.len() as int) =~= root) by {
            assert(q =~= p.subrange(0, q.len() as int));
            assert(root =~= q.subrange(0, root.len() as int));
        }
        root
    }
}

proof fn lemma_existing_finite(before: Seq<ManifestView>)
    ensures
        existing_paths(before).finite(),
{
    let paths = Seq::new(before.len(), |i: int| before[i].path);
    vstd::seq_lib::seq_to_set_is_finite(paths);
    assert forall|p: PathView| existing_paths(before).contains(p) implies paths.to_set().contains(p) by {
        let i = choose|i: int| 0 <= i < before.len() && (#[trigger] before[i]).exists && before[i].path == p;
        assert(paths[i] == p);
    }
    vstd::set_lib::lemma_set_subset_finite(paths.to_set(), existing_paths(before));
}

/// Everything that exists before an application is kept for rollback.
pub proof fn law_everything_has_a_backup(before: Seq<ManifestView>, artifacts: PathView, i: int)
    requires
        0 <= i < before.len(),
        before[i].exists,
    ensures
        backup_place(backups_planned(before, artifacts), before[i].path) is Some,
{
    let existing = existing_paths(before);
    let p = before[i].path;
    assert(existing.contains(p));
    lemma_existing_finite(before);
    lemma_listing_exists::<NativePath>(existing);
    let root = lemma_root_above(existing, listing::<NativePath>(existing), p);
    let roots = backup_roots(before);
    let k = roots.index_of(root);
    assert(roots[k] == root);
    lemma_backup_place_found(backups_planned(before, artifacts), p, k);
}

} // verus!
