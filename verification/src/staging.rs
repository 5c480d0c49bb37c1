//! Staging: computing the texts that an application will write, in the order
//! of its operations, before any of them is carried out.

use vstd::prelude::*;

use crate::digest::{digest_raw_bytes, digest_text};
use crate::edits::{CanonicalTextEdit, EditView, apply_canonical_text_edits, edited, edits_in_order};
use crate::failure::{ContractFailure, FailureView, failed, failure};
use crate::json::{Json, JsonView, object4, object_view, push_field, text_value};
use crate::manifest::PathView;
use crate::order::Key;
use crate::path::{NativePath, rebased};
use crate::plan::copy_bytes;
use crate::planner::saturating_sum;
use crate::sorted::SortedMap;
use crate::text::{concat, decimal, decimal_text, opt_view, same, views};

verus! {

/// What staging knows of the files after the operations staged so far: the
/// texts that it made, the trees that are gone, and the trees that moved,
/// each with the place where its files still are.
pub struct Staging {
    pub texts: SortedMap<NativePath, Vec<u8>>,
    pub unavailable: Vec<NativePath>,
    pub aliases: Vec<(NativePath, NativePath)>,
    pub staged_bytes: u64,
}

/// What a [`Staging`] stands for.
#[verifier::ext_equal]
pub ghost struct StagingView {
    pub texts: Map<PathView, Seq<u8>>,
    pub unavailable: Seq<PathView>,
    pub aliases: Seq<(PathView, PathView)>,
    pub staged_bytes: u64,
}

/// What aliases stand for.
pub open spec fn alias_views(s: Seq<(NativePath, NativePath)>) -> Seq<(PathView, PathView)> {
    Seq::new(s.len(), |i: int| (s[i].0@, s[i].1@))
}

impl View for Staging {
    type V = StagingView;

    open spec fn view(&self) -> StagingView {
        StagingView {
            texts: self.texts@,
            unavailable: views(self.unavailable@),
            aliases: alias_views(self.aliases@),
            staged_bytes: self.staged_bytes,
        }
    }
}

/// Where the text of a path comes from.
pub enum TextSource {
    /// Staging made it.
    Known(Vec<u8>),
    /// The path is gone.
    Unavailable,
    /// It is still in a file.
    Physical(NativePath),
}

/// What a [`TextSource`] stands for.
pub ghost enum TextSourceView {
    Known(Seq<u8>),
    Unavailable,
    Physical(PathView),
}

impl View for TextSource {
    type V = TextSourceView;

    open spec fn view(&self) -> TextSourceView {
        match self {
            TextSource::Known(bytes) => TextSourceView::Known(bytes@),
            TextSource::Unavailable => TextSourceView::Unavailable,
            TextSource::Physical(path) => TextSourceView::Physical(path@),
        }
    }
}

/// The place of a path once the first `n` aliases are undone, the last first.
pub open spec fn physical_path(path: PathView, aliases: Seq<(PathView, PathView)>, n: int) -> PathView
    decreases n,
{
    if n <= 0 {
        path
    } else {
        let (virtual_root, physical_root) = aliases[n - 1];
        physical_path(
            if virtual_root.is_prefix_of(path) {
                rebased(path, virtual_root, physical_root)
            } else {
                path
            },
            aliases,
            n - 1,
        )
    }
}

/// The file that still holds what moved to `path`.
pub fn resolve_physical_path(path: &NativePath, aliases: &Vec<(NativePath, NativePath)>) -> (r: NativePath)
    ensures
        r@ == physical_path(path@, alias_views(aliases@), aliases@.len() as int),
{
    let ghost all = alias_views(aliases@);
    let mut resolved: NativePath = path.duplicate();
    let mut n: usize = aliases.len();
    while n > 0
        invariant
            all == alias_views(aliases@),
            n <= aliases@.len(),
            physical_path(path@, all, aliases@.len() as int) == physical_path(resolved@, all, n as int),
        decreases n,
    {
        assert(all[n - 1] == (aliases@[n - 1].0@, aliases@[n - 1].1@));
        if resolved.starts_with(&aliases[n - 1].0) {
            resolved = resolved.rebase(&aliases[n - 1].0, &aliases[n - 1].1);
        }
        n -= 1;
    }
    resolved
}

/// Whether a path lies in one of the trees.
pub open spec fn in_some_tree(roots: Seq<PathView>, path: PathView) -> bool {
    exists|i: int| 0 <= i < roots.len() && (#[trigger] roots[i]).is_prefix_of(path)
}

/// Where the text of a path comes from.
pub open spec fn text_source(s: StagingView, path: PathView) -> TextSourceView {
    if s.texts.dom().contains(path) {
        TextSourceView::Known(s.texts[path])
    } else if in_some_tree(s.unavailable, path) {
        TextSourceView::Unavailable
    } else {
        TextSourceView::Physical(physical_path(path, s.aliases, s.aliases.len() as int))
    }
}

fn lies_in_some_tree(roots: &Vec<NativePath>, path: &NativePath) -> (r: bool)
    ensures
        r == in_some_tree(views(roots@), path@),
{
    let mut i: usize = 0;
    while i < roots.len()
        invariant
            i <= roots@.len(),
            forall|j: int| 0 <= j < i ==> !(#[trigger] views(roots@)[j]).is_prefix_of(path@),
        decreases roots.len() - i,
    {
        assert(views(roots@)[i as int] == roots@[i as int]@);
        if path.starts_with(&roots[i]) {
            return true;
        }
        i += 1;
    }
    false
}

/// The texts outside the tree at `root`.
pub open spec fn texts_outside(texts: Map<PathView, Seq<u8>>, root: PathView) -> Map<PathView, Seq<u8>> {
    Map::new(|p: PathView| texts.dom().contains(p) && !root.is_prefix_of(p), |p: PathView| texts[p])
}

/// The texts after the tree at `old_root` moved to `new_root`.
pub open spec fn texts_moved(
    texts: Map<PathView, Seq<u8>>,
    old_root: PathView,
    new_root: PathView,
) -> Map<PathView, Seq<u8>> {
    Map::new(
        |p: PathView|
            if new_root.is_prefix_of(p) {
                texts.dom().contains(rebased(p, new_root, old_root))
            } else {
                texts.dom().contains(p) && !old_root.is_prefix_of(p)
            },
        |p: PathView|
            if new_root.is_prefix_of(p) {
                texts[rebased(p, new_root, old_root)]
            } else {
                texts[p]
            },
    )
}

/// The paths other than `path`.
pub open spec fn other_than(path: PathView) -> spec_fn(PathView) -> bool {
    |p: PathView| p != path
}

/// The paths outside the tree at `root`.
pub open spec fn outside(root: PathView) -> spec_fn(PathView) -> bool {
    |p: PathView| !root.is_prefix_of(p)
}

fn keep_texts_outside(texts: &SortedMap<NativePath, Vec<u8>>, root: &NativePath) -> (r: SortedMap<NativePath, Vec<u8>>)
    ensures
        r@ == texts_outside(texts@, root@),
{
    let n: usize = texts.len();
    let mut r: SortedMap<NativePath, Vec<u8>> = SortedMap::new();
    let ghost keys = texts.keys();
    let mut i: usize = 0;
    while i < n
        invariant
            n == texts.keys().len(),
            texts.listed(),
            keys == texts.keys(),
            i <= n,
            forall|p: PathView| #[trigger]
                r@.dom().contains(p) <==> keys.take(i as int).contains(p) && !root@.is_prefix_of(p),
            forall|p: PathView| #[trigger] r@.dom().contains(p) ==> r@[p] == texts@[p],
        decreases n - i,
    {
        let path: &NativePath = texts.key_at(i);
        let bytes: &Vec<u8> = texts.value_at(i);
        let ghost before = r@;
        if !path.starts_with(root) {
            r.insert(path.duplicate(), copy_bytes(bytes));
        }
        proof {
            assert(keys.take(i + 1) =~= keys.take(i as int).push(path@));
            assert forall|p: PathView| keys.take(i + 1).contains(p) <==> keys.take(i as int).contains(p) || p == path@ by {
                if keys.take(i as int).contains(p) {
                    let x = keys.take(i as int).index_of(p);
                    assert(keys.take(i + 1)[x] == p);
                }
                if p == path@ {
                    assert(keys.take(i + 1)[i as int] == p);
                }
                if keys.take(i + 1).contains(p) {
                    let x = keys.take(i + 1).index_of(p);
                    assert(keys.take(i + 1)[x] == p);
                    if x < i {
                        assert(keys.take(i as int)[x] == p);
                    }
                }
            }
            assert forall|p: PathView| #[trigger] r@.dom().contains(p) <==> keys.take(i + 1).contains(p)
                && !root@.is_prefix_of(p) by {
                assert(before.dom().contains(p) <==> keys.take(i as int).contains(p) && !root@.is_prefix_of(p));
            }
        }
        i += 1;
    }
    assert(keys.take(i as int) =~= keys);
    assert(r@ =~= texts_outside(texts@, root@));
    r
}

fn move_texts(texts: &SortedMap<NativePath, Vec<u8>>, old_root: &NativePath, new_root: &NativePath) -> (r: SortedMap<
    NativePath,
    Vec<u8>,
>)
    ensures
        r@ == texts_moved(texts@, old_root@, new_root@),
{
    let ghost a = old_root@;
    let ghost b = new_root@;
    let n: usize = texts.len();
    let ghost keys = texts.keys();
    let kept: SortedMap<NativePath, Vec<u8>> = keep_texts_outside(texts, old_root);
    let mut r: SortedMap<NativePath, Vec<u8>> = keep_texts_outside(&kept, new_root);
    let ghost rest = r@;
    let mut i: usize = 0;
    while i < n
        invariant
            n == texts.keys().len(),
            texts.listed(),
            keys == texts.keys(),
            a == old_root@,
            b == new_root@,
            i <= n,
            forall|p: PathView| #[trigger]
                rest.dom().contains(p) <==> texts@.dom().contains(p) && !a.is_prefix_of(p) && !b.is_prefix_of(p),
            forall|p: PathView| #[trigger] rest.dom().contains(p) ==> rest[p] == texts@[p],
            forall|p: PathView| #[trigger]
                r@.dom().contains(p) <==> rest.dom().contains(p) || (b.is_prefix_of(p) && a.is_prefix_of(
                    rebased(p, b, a),
                ) && keys.take(i as int).contains(rebased(p, b, a))),
            forall|p: PathView| #[trigger]
                r@.dom().contains(p) ==> r@[p] == if b.is_prefix_of(p) {
                    texts@[rebased(p, b, a)]
                } else {
                    texts@[p]
                },
        decreases n - i,
    {
        let path: &NativePath = texts.key_at(i);
        let bytes: &Vec<u8> = texts.value_at(i);
        let ghost before = r@;
        let ghost done = keys.take(i as int);
        let ghost more = keys.take(i + 1);
        proof {
            assert(more =~= done.push(path@));
            assert forall|p: PathView| more.contains(p) <==> done.contains(p) || p == path@ by {
                if done.contains(p) {
                    let x = done.index_of(p);
                    assert(more[x] == p);
                }
                if p == path@ {
                    assert(more[i as int] == p);
                }
                if more.contains(p) {
                    let x = more.index_of(p);
                    assert(more[x] == p);
                    if x < i {
                        assert(done[x] == p);
                    }
                }
            }
        }
        if path.starts_with(old_root) {
            let target: NativePath = path.rebase(old_root, new_root);
            r.insert(target.duplicate(), copy_bytes(bytes));
            proof {
                let t = target@;
                assert(t.subrange(0, b.len() as int) =~= b);
                assert(rebased(t, b, a) =~= path@) by {
                    assert(t.skip(b.len() as int) =~= path@.skip(a.len() as int));
                    assert(path@.subrange(0, a.len() as int) =~= a);
                }
                assert forall|p: PathView| b.is_prefix_of(p) && rebased(p, b, a) == path@ implies p == t by {
                    assert(p =~= b + p.skip(b.len() as int)) by {
                        assert(p.subrange(0, b.len() as int) =~= b);
                    }
                    assert(path@.skip(a.len() as int) =~= p.skip(b.len() as int));
                }
            }
        } else {
            assert forall|p: PathView| a.is_prefix_of(rebased(p, b, a)) && rebased(p, b, a) == path@ implies false by {}
        }
        i += 1;
    }
    proof {
        assert(keys.take(i as int) =~= keys);
        assert forall|p: PathView| b.is_prefix_of(p) implies a.is_prefix_of(#[trigger] rebased(p, b, a)) by {
            assert(rebased(p, b, a).subrange(0, a.len() as int) =~= a);
        }
        assert(r@ =~= texts_moved(texts@, a, b));
    }
    r
}

fn keep_paths(paths: &Vec<NativePath>, root: &NativePath, whole_tree: bool) -> (r: Vec<NativePath>)
    ensures
        whole_tree ==> views(r@) == views(paths@).filter(outside(root@)),
        !whole_tree ==> views(r@) == views(paths@).filter(other_than(root@)),
{
    let ghost all = views(paths@);
    let ghost test = if whole_tree { outside(root@) } else { other_than(root@) };
    let mut r: Vec<NativePath> = Vec::new();
    let mut i: usize = 0;
    reveal(Seq::filter);
    assert(views(r@) =~= all.take(0).filter(test));
    while i < paths.len()
        invariant
            all == views(paths@),
            test == if whole_tree { outside(root@) } else { other_than(root@) },
            i <= paths@.len(),
            views(r@) == all.take(i as int).filter(test),
        decreases paths.len() - i,
    {
        let ghost before = r@;
        proof { crate::plan_tree::lemma_filter_take(all, test, i as int); }
        assert(all[i as int] == paths@[i as int]@);
        let drop: bool = if whole_tree { paths[i].starts_with(root) } else { paths[i].same_path(root) };
        if !drop {
            let copy: NativePath = paths[i].duplicate();
            r.push(copy);
            assert(views(r@) =~= views(before).push(all[i as int]));
        }
        i += 1;
    }
    assert(all.take(i as int) =~= all);
    r
}

/// The failure of a staging step.
pub open spec fn stage_failed(transaction_id: Seq<char>, message: Seq<char>, os_code: Option<i32>) -> FailureView {
    let rest = seq![
        ("path"@, JsonView::Text(""@)),
        ("recordType"@, JsonView::Text("transaction"@)),
        ("transactionId"@, JsonView::Text(transaction_id)),
    ];
    failed(
        4,
        "unavailable"@,
        "state_unavailable"@,
        message,
        "persist"@,
        "not_applicable"@,
        "after_change"@,
        JsonView::Object(
            match os_code {
                Some(code) => seq![("osCode"@, JsonView::Int(code as int))] + rest,
                None => rest,
            },
        ),
    )
}

/// The failure of a staging step.
pub fn stage_failure(transaction_id: &str, message: &str, os_code: Option<i32>) -> (r: ContractFailure)
    ensures
        r@ == stage_failed(transaction_id@, message@, os_code),
{
    let mut o: Vec<(String, Json)> = Vec::new();
    assert(object_view(o@) =~= seq![]);
    match os_code {
        Some(code) => {
            push_field(&mut o, "osCode", Json::Negative(code as i64));
        },
        None => {},
    }
    push_field(&mut o, "path", text_value(""));
    push_field(&mut o, "recordType", text_value("transaction"));
    push_field(&mut o, "transactionId", text_value(transaction_id));
    assert(object_view(o@) =~= stage_failed(transaction_id@, message@, os_code).data->Object_0);
    failure(
        4,
        "unavailable",
        "state_unavailable",
        message,
        "persist",
        "not_applicable",
        "after_change",
        Json::Object(o),
    )
}

/// The failure of an application that stages more than it may.
pub open spec fn staging_limit_failed(message: Seq<char>, data: JsonView) -> FailureView {
    failed(
        6,
        "mutation"@,
        "resource_limit_exceeded"@,
        message,
        "stage"@,
        "not_applicable"@,
        "after_change"@,
        data,
    )
}

/// The failure of an application that keeps more for rollback than it may,
/// where it does.
pub open spec fn rollback_limit_failed(copied: u64, limit: u64) -> Option<FailureView> {
    if copied > limit {
        Some(
            staging_limit_failed(
                "Rollback staging exceeds the configured byte limit."@,
                crate::planner::limit_data("rollbackBytes"@, limit as int, copied as int),
            ),
        )
    } else {
        None
    }
}

/// Refuses to keep more for rollback than the limit allows.
pub fn check_rollback_bytes(copied: u64, limit: u64) -> (r: Option<ContractFailure>)
    ensures
        opt_view(r) == rollback_limit_failed(copied, limit),
{
    if copied > limit {
        Some(
            failure(
                6,
                "mutation",
                "resource_limit_exceeded",
                "Rollback staging exceeds the configured byte limit.",
                "stage",
                "not_applicable",
                "after_change",
                crate::planner::limit_value("rollbackBytes", limit, copied),
            ),
        )
    } else {
        None
    }
}

/// The file in which a text is staged.
pub open spec fn staged_place(artifacts: PathView, index: u64) -> PathView {
    artifacts.push("text-"@ + decimal_text(index as nat))
}

/// The file in which a text is staged.
pub fn staged_text_path(artifact_directory: &NativePath, operation_index: u64) -> (r: NativePath)
    ensures
        r@ == staged_place(artifact_directory@, operation_index),
{
    let number: String = decimal(operation_index);
    let name: String = concat("text-", number.as_str());
    artifact_directory.join(name.as_str())
}

/// The place to which an operation moves what it takes away.
pub open spec fn undo_place(artifacts: PathView, index: u64) -> PathView {
    artifacts.push("undo-"@ + decimal_text(index as nat))
}

/// The place to which an operation moves what it takes away.
pub fn undo_resource_path(artifact_directory: &NativePath, operation_index: u64) -> (r: NativePath)
    ensures
        r@ == undo_place(artifact_directory@, operation_index),
{
    let number: String = decimal(operation_index);
    let name: String = concat("undo-", number.as_str());
    artifact_directory.join(name.as_str())
}

/// What was read of a text that is to be edited.
pub enum TextInput {
    Bytes(Vec<u8>),
    Unread { os_code: Option<i32> },
}

/// What a [`TextInput`] stands for.
pub ghost enum TextInputView {
    Bytes(Seq<u8>),
    Unread { os_code: Option<i32> },
}

impl View for TextInput {
    type V = TextInputView;

    open spec fn view(&self) -> TextInputView {
        match self {
            TextInput::Bytes(bytes) => TextInputView::Bytes(bytes@),
            TextInput::Unread { os_code } => TextInputView::Unread { os_code: *os_code },
        }
    }
}

/// The new text of a text operation, or why it cannot be staged.
pub open spec fn text_staged(
    transaction_id: Seq<char>,
    input: TextInputView,
    index: u64,
    before_digest: Seq<char>,
    after_digest: Seq<char>,
    edits: Seq<EditView>,
    staged_bytes: u64,
    limit: u64,
) -> Result<Seq<u8>, FailureView> {
    match input {
        TextInputView::Unread { os_code } => Err(
            stage_failed(transaction_id, "A text input cannot be staged."@, os_code),
        ),
        TextInputView::Bytes(before) => {
            let after = edited(before, edits, 0, 0);
            let total = saturating_sum(staged_bytes as int, after.len() as int);
            if digest_text(before) != before_digest {
                Err(
                    stage_failed(
                        transaction_id,
                        "A staged text input no longer matches its canonical digest."@,
                        None,
                    ),
                )
            } else if !edits_in_order(before.len(), edits, 0, 0) {
                Err(stage_failed(transaction_id, "A canonical staged text edit range is invalid."@, None))
            } else if digest_text(after) != after_digest {
                Err(
                    stage_failed(
                        transaction_id,
                        "A staged text output does not match its canonical digest."@,
                        None,
                    ),
                )
            } else if total > limit {
                Err(
                    staging_limit_failed(
                        "Text staging exceeds the configured byte limit."@,
                        JsonView::Object(
                            seq![
                                ("limit"@, JsonView::Int(limit as int)),
                                ("observed"@, JsonView::Int(total as int)),
                                ("operationIndex"@, JsonView::Int(index as int)),
                                ("resource"@, JsonView::Text("stagedTextBytes"@)),
                            ],
                        ),
                    ),
                )
            } else {
                Ok(after)
            }
        },
    }
}

/// What staging knows after a text operation made `after`.
pub open spec fn after_text(s: StagingView, path: PathView, after: Seq<u8>) -> StagingView {
    StagingView {
        texts: s.texts.insert(path, after),
        unavailable: s.unavailable.filter(other_than(path)),
        staged_bytes: saturating_sum(s.staged_bytes as int, after.len() as int),
        ..s
    }
}

/// What staging knows after a creation.
pub open spec fn after_create(s: StagingView, path: PathView) -> StagingView {
    StagingView {
        texts: texts_outside(s.texts, path).insert(path, Seq::empty()),
        unavailable: s.unavailable.filter(other_than(path)),
        ..s
    }
}

/// What staging knows after a renaming.
pub open spec fn after_rename(s: StagingView, old_path: PathView, new_path: PathView) -> StagingView {
    StagingView {
        texts: texts_moved(s.texts, old_path, new_path),
        unavailable: s.unavailable.filter(outside(new_path)).push(old_path),
        aliases: s.aliases.push((new_path, physical_path(old_path, s.aliases, s.aliases.len() as int))),
        ..s
    }
}

/// What staging knows after a deletion.
pub open spec fn after_delete(s: StagingView, path: PathView) -> StagingView {
    StagingView { texts: texts_outside(s.texts, path), unavailable: s.unavailable.push(path), ..s }
}

impl Staging {
    /// What staging knows at the start.
    pub fn new() -> (r: Staging)
        ensures
            r@ == (StagingView {
                texts: Map::empty(),
                unavailable: Seq::empty(),
                aliases: Seq::empty(),
                staged_bytes: 0,
            }),
    {
        let r = Staging {
            texts: SortedMap::new(),
            unavailable: Vec::new(),
            aliases: Vec::new(),
            staged_bytes: 0,
        };
        assert(views(r.unavailable@) =~= Seq::<PathView>::empty());
        assert(alias_views(r.aliases@) =~= Seq::<(PathView, PathView)>::empty());
        r
    }

    /// Where the text of a path comes from.
    pub fn virtual_text(&self, path: &NativePath) -> (r: TextSource)
        ensures
            r@ == text_source(self@, path@),
    {
        match self.texts.get(path) {
            Some(bytes) => {
                return TextSource::Known(copy_bytes(bytes));
            },
            None => {},
        }
        if lies_in_some_tree(&self.unavailable, path) {
            return TextSource::Unavailable;
        }
        assert(alias_views(self.aliases@).len() == self.aliases@.len());
        TextSource::Physical(resolve_physical_path(path, &self.aliases))
    }

    /// Stages a text operation: computes the new text from what was read, and
    /// checks it against the digests of the plan.
    pub fn stage_text(
        &mut self,
        transaction_id: &str,
        input: &TextInput,
        index: u64,
        path: &NativePath,
        before_digest: &str,
        after_digest: &str,
        edits: &Vec<CanonicalTextEdit>,
        limit: u64,
    ) -> (r: Result<Vec<u8>, ContractFailure>)
        ensures
            match r {
                Ok(after) => text_staged(
                    transaction_id@,
                    input@,
                    index,
                    before_digest@,
                    after_digest@,
                    views(edits@),
                    old(self)@.staged_bytes,
                    limit,
                ) == Ok::<Seq<u8>, FailureView>(after@) && final(self)@ == after_text(old(self)@, path@, after@),
                Err(f) => text_staged(
                    transaction_id@,
                    input@,
                    index,
                    before_digest@,
                    after_digest@,
                    views(edits@),
                    old(self)@.staged_bytes,
                    limit,
                ) == Err::<Seq<u8>, FailureView>(f@) && final(self)@ == old(self)@,
            },
    {
        let before: &Vec<u8> = match input {
            TextInput::Bytes(bytes) => bytes,
            TextInput::Unread { os_code } => {
                return Err(stage_failure(transaction_id, "A text input cannot be staged.", *os_code));
            },
        };
        let digest: String = digest_raw_bytes(before);
        if !same(digest.as_str(), before_digest) {
            return Err(
                stage_failure(
                    transaction_id,
                    "A staged text input no longer matches its canonical digest.",
                    None,
                ),
            );
        }
        let after: Vec<u8> = match apply_canonical_text_edits(before, edits) {
            Ok(after) => after,
            Err(reason) => {
                return Err(stage_failure(transaction_id, reason.as_str(), None));
            },
        };
        let digest: String = digest_raw_bytes(&after);
        if !same(digest.as_str(), after_digest) {
            return Err(
                stage_failure(
                    transaction_id,
                    "A staged text output does not match its canonical digest.",
                    None,
                ),
            );
        }
        let total: u64 = self.staged_bytes.saturating_add(after.len() as u64);
        if total > limit {
            return Err(
                failure(
                    6,
                    "mutation",
                    "resource_limit_exceeded",
                    "Text staging exceeds the configured byte limit.",
                    "stage",
                    "not_applicable",
                    "after_change",
                    object4(
                        "limit",
                        Json::Unsigned(limit),
                        "observed",
                        Json::Unsigned(total),
                        "operationIndex",
                        Json::Unsigned(index),
                        "resource",
                        text_value("stagedTextBytes"),
                    ),
                ),
            );
        }
        self.staged_bytes = total;
        self.texts.insert(path.duplicate(), copy_bytes(&after));
        self.unavailable = keep_paths(&self.unavailable, path, false);
        Ok(after)
    }

    /// Stages a creation.
    pub fn stage_create(&mut self, path: &NativePath)
        ensures
            final(self)@ == after_create(old(self)@, path@),
    {
        let mut texts: SortedMap<NativePath, Vec<u8>> = keep_texts_outside(&self.texts, path);
        let empty: Vec<u8> = Vec::new();
        assert(empty@ =~= Seq::<u8>::empty());
        texts.insert(path.duplicate(), empty);
        self.texts = texts;
        self.unavailable = keep_paths(&self.unavailable, path, false);
    }

    /// Stages a renaming.
    pub fn stage_rename(&mut self, old_path: &NativePath, new_path: &NativePath)
        ensures
            final(self)@ == after_rename(old(self)@, old_path@, new_path@),
    {
        let ghost start = self@;
        assert(alias_views(self.aliases@).len() == self.aliases@.len());
        let physical: NativePath = resolve_physical_path(old_path, &self.aliases);
        self.texts = move_texts(&self.texts, old_path, new_path);
        let mut unavailable: Vec<NativePath> = keep_paths(&self.unavailable, new_path, true);
        let ghost kept = unavailable@;
        unavailable.push(old_path.duplicate());
        assert(views(unavailable@) =~= views(kept).push(old_path@));
        self.unavailable = unavailable;
        let ghost aliases = self.aliases@;
        self.aliases.push((new_path.duplicate(), physical));
        assert(alias_views(self.aliases@) =~= alias_views(aliases).push((new_path@, physical@)));
    }

    /// Stages a deletion.
    pub fn stage_delete(&mut self, path: &NativePath)
        ensures
            final(self)@ == after_delete(old(self)@, path@),
    {
        self.texts = keep_texts_outside(&self.texts, path);
        let ghost before = self.unavailable@;
        self.unavailable.push(path.duplicate());
        assert(views(self.unavailable@) =~= views(before).push(path@));
    }
}

/// A text that was staged is what the path holds from then on.
pub proof fn law_staged_text_is_seen(s: StagingView, path: PathView, after: Seq<u8>)
    ensures
        text_source(after_text(s, path, after), path) == TextSourceView::Known(after),
{
}

/// A file that was created is empty.
pub proof fn law_created_file_is_empty(s: StagingView, path: PathView)
    ensures
        text_source(after_create(s, path), path) == TextSourceView::Known(Seq::empty()),
{
}

/// What was deleted has no text.
pub proof fn law_deleted_text_is_gone(s: StagingView, path: PathView, p: PathView)
    requires
        path.is_prefix_of(p),
    ensures
        text_source(after_delete(s, path), p) == TextSourceView::Unavailable,
{
    let roots = after_delete(s, path).unavailable;
    assert(roots[roots.len() - 1] == path);
}

/// A staged text is found at its new place after its tree is renamed, and no
/// longer at its old one.
pub proof fn law_renamed_text_is_seen(s: StagingView, old_path: PathView, new_path: PathView, p: PathView)
    requires
        old_path.is_prefix_of(p),
        s.texts.dom().contains(p),
        !old_path.is_prefix_of(new_path),
        !new_path.is_prefix_of(old_path),
    ensures
        text_source(after_rename(s, old_path, new_path), rebased(p, old_path, new_path)) == TextSourceView::Known(
            s.texts[p],
        ),
        text_source(after_rename(s, old_path, new_path), p) == TextSourceView::Unavailable,
{
    let q = rebased(p, old_path, new_path);
    assert(q.subrange(0, new_path.len() as int) =~= new_path);
    assert(rebased(q, new_path, old_path) =~= p) by {
        assert(q.skip(new_path.len() as int) =~= p.skip(old_path.len() as int));
        assert(p.subrange(0, old_path.len() as int) =~= old_path);
    }
    let roots = after_rename(s, old_path, new_path).unavailable;
    assert(roots[roots.len() - 1] == old_path);
    if new_path.is_prefix_of(p) {
        crate::plan_tree::lemma_disjoint_trees(old_path, new_path, p);
    }
}

} // verus!
