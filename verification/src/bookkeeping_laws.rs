//! How things are counted, ordered, looked up and waited for.

use vstd::prelude::*;
use vstd::utf8::encode_utf8;

use crate::config_select::{first_folded, search_path};
use crate::configuration::SourcedView;
use crate::digest::digest_text;
use crate::documents::{
    DocumentView,
    base_path,
    below,
    filter_admits,
    matched_path,
    pattern_admits,
    trimmed_end,
    trimmed_start,
};
use crate::edits::{EditView, edited};
use crate::failure::FailureView;
use crate::glob::glob_matched;
use crate::json::{JsonView, lemma_field_at};
use crate::manifest::{PathView, ResourceKind};
use crate::order::text_precedes;
use crate::path::parent_of;
use crate::plan::{DraftView, WorkspaceView};
use crate::plan_edit::children_in;
use crate::plan_steps::{inserted_bytes, text_changed};
use crate::planner::{WorkspaceEditPlanner, saturating_sum};
use crate::sorted::{lemma_listing_exists, listing, lists_keys};
use crate::state::read_failed;
use crate::store::ReadFault;
use crate::text::folded;
use crate::timing::{LockAttempt, LockStepView, after_attempt, duration_of, lock_timeout_of};
use crate::trust::{TrustView, record_precedes};

verus! {

proof fn lemma_names()
    ensures
        "timeout"@.len() == 7,
        "workspaceUri"@.len() == 12,
{
    reveal_strlit("timeout");
    reveal_strlit("workspaceUri");
}

/// A lock is held once it is taken, waited for till its deadline while another
/// holds it, and then given up with the time that was waited.
pub proof fn law_locks_are_waited_for(
    now: u128,
    deadline: u128,
    workspace_uri: Seq<char>,
    timeout_text: Seq<char>,
    code: Option<i32>,
)
    ensures
        after_attempt(LockAttempt::Taken, now, deadline, workspace_uri, timeout_text) is Hold,
        now < deadline ==> after_attempt(LockAttempt::Busy, now, deadline, workspace_uri, timeout_text) is Wait,
        now >= deadline ==> (after_attempt(
            LockAttempt::Busy,
            now,
            deadline,
            workspace_uri,
            timeout_text,
        ) matches LockStepView::Refuse(f) && f.code == "workspace_lock_timeout"@ && f.retry == "safe"@ && f.data.get(
            "timeout"@,
        ) == Some(JsonView::Text(timeout_text)) && f.data.get("workspaceUri"@) == Some(
            JsonView::Text(workspace_uri),
        )),
        after_attempt(
            LockAttempt::Failed(code),
            now,
            deadline,
            workspace_uri,
            timeout_text,
        ) matches LockStepView::Refuse(f) && f.code == "state_unavailable"@,
        duration_of(timeout_text) matches Some(n) ==> lock_timeout_of(timeout_text) == n,
        duration_of(timeout_text) is None ==> lock_timeout_of(timeout_text) == 30 * 1000,
{
    lemma_names();
    let o = crate::timing::lock_timeout_failed(workspace_uri, timeout_text).data->Object_0;
    lemma_field_at(o, 0, "timeout"@);
    lemma_field_at(o, 1, "workspaceUri"@);
}

/// What lies below a base is what follows it behind a slash; a name that only
/// begins like the base lies not below it.
pub proof fn law_paths_below_a_base(base: Seq<char>, rest: Seq<char>, path: Seq<char>)
    requires
        base.len() > 0,
        base.last() != '/',
    ensures
        rest.len() == 0 || rest[0] != '/' ==> below(base.push('/') + rest, base) == Some(rest),
        rest.len() > 0 && rest[0] != '/' ==> below(base + rest, base) is None,
        !base.is_prefix_of(path) ==> below(path, base) is None,
        below(base, base) == Some(Seq::<char>::empty()),
{
    assert(trimmed_end(base) == base);
    let whole = base.push('/') + rest;
    assert(base =~= whole.subrange(0, base.len() as int));
    let tail = whole.skip(base.len() as int);
    assert(tail =~= seq!['/'] + rest);
    assert(tail.drop_first() =~= rest);
    if rest.len() == 0 || rest[0] != '/' {
        assert(trimmed_start(rest) == rest);
        assert(trimmed_start(tail) == trimmed_start(rest));
    }
    assert(whole[base.len() as int] == '/');
    assert(base =~= (base + rest).subrange(0, base.len() as int));
    assert(base =~= base.subrange(0, base.len() as int));
    assert(base.skip(base.len() as int) =~= Seq::<char>::empty());
}

/// A pattern that is a text is held against the whole path, and one with a
/// base against what lies below the base.
pub proof fn law_patterns_are_held_against_paths(
    pattern: JsonView,
    text: Seq<char>,
    path: Seq<char>,
    base: Seq<char>,
    rest: Seq<char>,
)
    ensures
        pattern_admits(JsonView::Text(text), path, None) == glob_matched(encode_utf8(text), encode_utf8(path)),
        !(pattern is Text) && pattern.text_at("pattern"@) == Some(text) && below(path, base) == Some(rest)
            ==> pattern_admits(pattern, path, Some(base)) == glob_matched(encode_utf8(text), encode_utf8(rest)),
        !(pattern is Text) && below(path, base) is None ==> !pattern_admits(pattern, path, Some(base)),
        !(pattern is Text) ==> !pattern_admits(pattern, path, None),
{
}

/// A filter admits a document of its language, of files, and of its pattern,
/// each where it names one.
pub proof fn law_filters_admit_what_they_name(filter: JsonView, d: DocumentView)
    requires
        filter is Object,
    ensures
        filter.get("language"@) is None && filter.get("scheme"@) is None && filter.get("pattern"@) is None
            ==> filter_admits(filter, d),
        filter.get("language"@) matches Some(JsonView::Text(l)) ==> l != d.language_id ==> !filter_admits(filter, d),
        filter.get("scheme"@) matches Some(JsonView::Text(s)) ==> s != "file"@ ==> !filter_admits(filter, d),
        filter.get("pattern"@) matches Some(p) ==> !pattern_admits(p, matched_path(d), base_path(p)) ==> !filter_admits(
            filter,
            d,
        ),
        filter.get("language"@) == Some(JsonView::Text(d.language_id)) && filter.get("scheme"@) is None && filter.get(
            "pattern"@,
        ) is None ==> filter_admits(filter, d),
{
}

/// The members of a directory after a change are those below it that are to be
/// there, by what they are to be.
pub proof fn law_planned_members_are_those_there(ws: WorkspaceView, directory: PathView, name: Seq<char>)
    requires
        directory.len() > 0,
    ensures
        children_in(ws, directory).dom().contains(name) <==> ws.entries.dom().contains(directory.push(name))
            && ws.entries[directory.push(name)].manifest.exists,
        children_in(ws, directory).dom().contains(name) ==> children_in(ws, directory)[name]
            == ws.entries[directory.push(name)].manifest.resource_kind,
{
    assert(directory.push(name).drop_last() =~= directory);
    assert(parent_of(directory.push(name)) == Some(directory));
}

/// Records of trust are ordered by their workspace and then by their server.
pub proof fn law_records_of_trust_are_ordered(a: TrustView, b: TrustView)
    ensures
        text_precedes(a.workspace_uri, b.workspace_uri) ==> record_precedes(a, b),
        a.workspace_uri == b.workspace_uri ==> (record_precedes(a, b) <==> text_precedes(a.server, b.server)),
        record_precedes(a, b) ==> text_precedes(a.workspace_uri, b.workspace_uri) || a.workspace_uri
            == b.workspace_uri,
{
    if a.workspace_uri == b.workspace_uri {
        crate::order::lemma_text_irreflexive(a.workspace_uri);
    }
}

/// A text that changes is counted with its edits and with the bytes that they
/// put in; one that stays the same changes nothing but those bytes.
pub proof fn law_edits_are_counted(
    d: DraftView,
    index: u64,
    uri: Seq<char>,
    path: PathView,
    bytes: Seq<u8>,
    edits: Seq<EditView>,
    before: Seq<char>,
)
    requires
        d.workspace.entries[path].manifest.content_digest == Some(before),
        d.summary.text_edits + edits.len() <= u64::MAX,
        d.new_text_bytes + inserted_bytes(edits) <= u64::MAX,
    ensures
        ({
            let next = text_changed(d, index, uri, path, bytes, edits);
            let after = edited(bytes, edits, 0, 0);
            &&& next.new_text_bytes == d.new_text_bytes + inserted_bytes(edits)
            &&& digest_text(after) == before ==> next.summary == d.summary && next.operations == d.operations
                && next.workspace == d.workspace
            &&& digest_text(after) != before ==> {
                &&& next.summary.text_edits == d.summary.text_edits + edits.len()
                &&& next.summary.creates == d.summary.creates
                &&& next.summary.renames == d.summary.renames
                &&& next.summary.deletes == d.summary.deletes
                &&& next.operations.len() == d.operations.len() + 1
                &&& next.workspace.affected.contains(path)
                &&& next.workspace.entries[path].text == Some(after)
                &&& next.workspace.entries[path].manifest.content_digest == Some(digest_text(after))
                &&& next.workspace.before == d.workspace.before
            }
        }),
        inserted_bytes(seq![]) == 0,
{
}

/// The bytes that edits put in add up.
pub proof fn law_inserted_bytes_add_up(edits: Seq<EditView>, edit: EditView)
    ensures
        inserted_bytes(edits.push(edit)) == inserted_bytes(edits) + encode_utf8(edit.new_text).len(),
{
    assert(edits.push(edit).drop_last() =~= edits);
}

/// Sums stop at the largest number.
pub proof fn law_sums_stop_at_the_largest(a: u64, b: u64)
    ensures
        a + b <= u64::MAX ==> saturating_sum(a as int, b as int) == a + b,
        a + b > u64::MAX ==> saturating_sum(a as int, b as int) == u64::MAX,
{
}

impl<'a> WorkspaceEditPlanner<'a> {
    /// Taking a file back costs its length, and a directory nothing.
    pub proof fn law_files_cost_their_length(&self, path: PathView, length: u64)
        ensures
            self.observed@.resources.dom().contains(path) && self.observed@.resources[path].length == Some(length)
                ==> self.rollback_cost(path, ResourceKind::File) == length,
            !self.observed@.resources.dom().contains(path) ==> self.rollback_cost(path, ResourceKind::File)
                == u64::MAX,
            self.rollback_cost(path, ResourceKind::Directory) == 0,
    {
    }
}

/// A record that is missing is reported as unknown; one that cannot be opened
/// or read with what the system says, and one that is corrupt as of a version
/// that is not read.
pub proof fn law_faults_are_reported(record_type: Seq<char>, path: Seq<char>, missing: FailureView, code: Option<i32>)
    ensures
        read_failed(ReadFault::Missing(code), record_type, path, missing) == missing,
        read_failed(ReadFault::Open(code), record_type, path, missing).code == "state_unavailable"@,
        read_failed(ReadFault::Read(code), record_type, path, missing).code == "state_unavailable"@,
        read_failed(ReadFault::Corrupt, record_type, path, missing).code == "stored_state_version_unsupported"@,
{
}

proof fn lemma_first_folded(names: Seq<Seq<char>>, name: Seq<char>, i: int)
    requires
        0 <= i,
    ensures
        first_folded(names, name, i) matches Some(found) ==> folded(found) == folded(name) && exists|k: int|
            i <= k < names.len() && #[trigger] names[k] == found,
        first_folded(names, name, i) is None ==> forall|k: int|
            i <= k < names.len() ==> folded(#[trigger] names[k]) != folded(name),
    decreases names.len() - i,
{
    if i < names.len() {
        lemma_first_folded(names, name, i + 1);
        if folded(names[i]) == folded(name) {
            assert(names[i] == names[i]);
        }
    }
}

/// Where letters of names have no case, programs are looked for by the variable
/// in any spelling, and there is no place to look only where no spelling is
/// set.
pub proof fn law_search_ignores_case(environment: Map<Seq<char>, SourcedView<Seq<char>>>, key: Seq<char>)
    requires
        environment.dom().finite(),
    ensures
        search_path(environment, true) matches Some(value) ==> exists|k: Seq<char>| #[trigger]
            environment.dom().contains(k) && folded(k) == folded("PATH"@) && environment[k].value == value,
        environment.dom().contains(key) && folded(key) == folded("PATH"@) ==> search_path(environment, true) is Some,
{
    let names = listing::<String>(environment.dom());
    lemma_listing_exists::<String>(environment.dom());
    assert(lists_keys::<String>(names, environment.dom()));
    lemma_first_folded(names, "PATH"@, 0);
    if let Some(found) = first_folded(names, "PATH"@, 0) {
        assert(names.contains(found));
        assert(environment.dom().contains(found));
    }
    if environment.dom().contains(key) {
        assert(names.contains(key));
        let k = choose|k: int| 0 <= k < names.len() && names[k] == key;
        assert(folded(names[k]) == folded(key));
    }
}

} // verus!
