//! Planning the operations of a workspace edit, one after the other.

use vstd::prelude::*;
use vstd::utf8::{decode_utf8, encode_utf8, valid_utf8};

use crate::digest::{digest_raw_bytes, digest_text};
use crate::edit_syntax::{ParsedTextEdit, ParsedView, lemma_parsed_edit_in_text, parse_text_edit, parsed_edit};
use crate::edits::{CanonicalTextEdit, EditView, apply_canonical_text_edits, edited, edits_in_order};
use crate::json::{Json, JsonView, object2, object_view, opt_text_value, opt_text_view, text_value};
use crate::manifest::{ManifestView, PathView, ResourceKind};
use crate::order::Key;
use crate::path::NativePath;
use crate::plan::{
    CanonicalOperation,
    Draft,
    DraftView,
    OperationView,
    PreviewSummary,
    ProblemView,
    Request,
    RequestView,
    ResourceState,
    StateView,
    Stop,
    StopView,
    WorkspaceEditProblem,
    WorkspaceView,
    plain_problem,
    problem,
};
use crate::planner::{WorkspaceEditPlanner, path_problem, saturating_sum};
use crate::position::byte_len;
use crate::ranking::{
    Ranked,
    insert_ranked,
    law_order_keeps_pairs,
    law_ranked,
    lemma_ranked_contains,
    pairwise,
    ranked,
};
use crate::text::{copy_opt, opt_ref_view, opt_view, same, utf8_text, views};

verus! {

/// What a stop makes of a draft: a problem is recorded, a missing observation
/// is handed on.
pub open spec fn halted(d: DraftView, ws: WorkspaceView, stop: StopView) -> (DraftView, Option<RequestView>) {
    let d = DraftView { workspace: ws, ..d };
    match stop {
        StopView::Problem(p) => (d.with_problem(p), None),
        StopView::Observe(r) => (d, Some(r)),
    }
}

/// The draft with a problem recorded.
pub open spec fn refused(d: DraftView, p: ProblemView) -> (DraftView, Option<RequestView>) {
    (d.with_problem(p), None)
}

impl Draft {
    /// Records a problem, or hands a missing observation on.
    pub fn halt(&mut self, stop: Stop) -> (r: Option<Request>)
        ensures
            (final(self)@, opt_view(r)) == halted(old(self)@, old(self)@.workspace, stop@),
    {
        match stop {
            Stop::Problem(p) => {
                self.push_problem(p);
                None
            },
            Stop::Observe(r) => Some(r),
        }
    }

    /// Records a problem.
    pub fn refuse(&mut self, p: WorkspaceEditProblem) -> (r: Option<Request>)
        ensures
            (final(self)@, opt_view(r)) == refused(old(self)@, p@),
    {
        self.push_problem(p);
        None
    }
}

/// Whether edit `a` comes before edit `b` or at the same place: by start, end
/// and place in the edit list.
pub open spec fn edit_at_most(a: ParsedView, b: ParsedView) -> bool {
    ||| a.edit.start < b.edit.start
    ||| a.edit.start == b.edit.start && a.edit.end < b.edit.end
    ||| a.edit.start == b.edit.start && a.edit.end == b.edit.end && a.ordinal <= b.ordinal
}

/// Edits stand by their ranges, then by their places in the edit list.
impl Ranked for ParsedTextEdit {
    open spec fn before(a: ParsedView, b: ParsedView) -> bool {
        !edit_at_most(b, a)
    }

    proof fn lemma_not_before(a: ParsedView, b: ParsedView, c: ParsedView) {
    }

    proof fn lemma_one_way(a: ParsedView, b: ParsedView) {
    }

    fn comes_before(&self, other: &Self) -> (r: bool) {
        !comes_no_later(other, self)
    }
}

/// The edits in the order of their ranges.
pub open spec fn edits_sorted(s: Seq<ParsedView>) -> Seq<ParsedView> {
    ranked::<ParsedTextEdit>(s)
}

/// Whether two neighbouring edits overlap, or share a start without both
/// being insertions.
pub open spec fn edits_clash(left: EditView, right: EditView) -> bool {
    ||| right.start < left.end
    ||| right.start == left.start && (right.end != right.start || left.end != left.start)
}

/// Whether some neighbouring edits clash.
pub open spec fn some_edits_clash(s: Seq<ParsedView>) -> bool {
    exists|i: int| 0 <= i < s.len() - 1 && #[trigger] edits_clash(s[i].edit, s[i + 1].edit)
}

/// The edits without their places.
pub open spec fn edits_of(s: Seq<ParsedView>) -> Seq<EditView> {
    Seq::new(s.len(), |i: int| s[i].edit)
}

/// The number of bytes that edits put in.
pub open spec fn inserted_bytes(s: Seq<EditView>) -> nat
    decreases s.len(),
{
    if s.len() == 0 {
        0
    } else {
        inserted_bytes(s.drop_last()) + encode_utf8(s.last().new_text).len()
    }
}

/// Whether every edit lies in a text of `length` bytes.
pub open spec fn edits_within(s: Seq<ParsedView>, length: nat) -> bool {
    forall|i: int| 0 <= i < s.len() ==> (#[trigger] s[i]).edit.start <= s[i].edit.end <= length
}

proof fn lemma_sorted_within(s: Seq<ParsedView>, length: nat)
    requires
        edits_within(s, length),
    ensures
        edits_within(edits_sorted(s), length),
{
    let r = edits_sorted(s);
    assert forall|i: int| 0 <= i < r.len() implies (#[trigger] r[i]).edit.start <= r[i].edit.end <= length by {
        lemma_ranked_contains::<ParsedTextEdit>(s, r[i]);
        assert(r.contains(r[i]));
        let j = choose|j: int| 0 <= j < s.len() && s[j] == r[i];
        assert(s[j].edit.end <= length);
    }
}

/// Sorting edits keeps each of them and puts them in order.
pub proof fn law_sorting_edits(s: Seq<ParsedView>)
    ensures
        edits_sorted(s).to_multiset() == s.to_multiset(),
        forall|i: int, j: int|
            0 <= i <= j < edits_sorted(s).len() ==> edit_at_most(
                #[trigger] edits_sorted(s)[i],
                #[trigger] edits_sorted(s)[j],
            ),
{
    law_ranked::<ParsedTextEdit>(s);
    let r = edits_sorted(s);
    assert forall|i: int, j: int| 0 <= i <= j < r.len() implies edit_at_most(#[trigger] r[i], #[trigger] r[j]) by {
        if i < j {
            assert(!ParsedTextEdit::before(r[j], r[i]));
        }
    }
}

proof fn lemma_in_order_from(s: Seq<ParsedView>, length: nat, i: int)
    requires
        edits_within(s, length),
        !some_edits_clash(s),
        0 <= i <= s.len(),
    ensures
        edits_in_order(length, edits_of(s), i, if i == 0 { 0 } else { s[i - 1].edit.end }),
    decreases s.len() - i,
{
    if i < s.len() {
        lemma_in_order_from(s, length, i + 1);
        if i > 0 {
            assert(!edits_clash(s[i - 1].edit, s[i - 1 + 1].edit));
        }
    }
}

/// Edits in a text that do not clash can be applied to it.
pub proof fn law_accepted_edits_apply(s: Seq<ParsedView>, length: nat)
    requires
        edits_within(s, length),
        !some_edits_clash(edits_sorted(s)),
    ensures
        edits_in_order(length, edits_of(edits_sorted(s)), 0, 0),
{
    lemma_sorted_within(s, length);
    lemma_in_order_from(edits_sorted(s), length, 0);
}

/// Whether two edits leave each other alone: one ends where the other starts
/// or before, and they start at one place only where both only put text in.
pub open spec fn edits_apart(a: EditView, b: EditView) -> bool {
    &&& a.end <= b.start || b.end <= a.start
    &&& a.start == b.start ==> a.start == a.end && b.start == b.end
}

/// Whether every two edits of a list leave each other alone.
pub open spec fn all_edits_apart(s: Seq<ParsedView>) -> bool {
    forall|i: int, j: int| 0 <= i < j < s.len() ==> edits_apart((#[trigger] s[i]).edit, (#[trigger] s[j]).edit)
}

proof fn lemma_no_clash_ends(s: Seq<ParsedView>, length: nat, i: int, j: int)
    requires
        edits_within(s, length),
        !some_edits_clash(s),
        0 <= i < j < s.len(),
    ensures
        s[i].edit.end <= s[j].edit.start,
    decreases j - i,
{
    assert(!edits_clash(s[j - 1].edit, s[j - 1 + 1].edit));
    if i < j - 1 {
        lemma_no_clash_ends(s, length, i, j - 1);
        assert(s[j - 1].edit.start <= s[j - 1].edit.end);
    }
}

/// A list of edits in a text clashes exactly where two of its edits do not
/// leave each other alone, wherever in the list they stand.
pub proof fn law_edits_clash_where_they_meet(s: Seq<ParsedView>, length: nat)
    requires
        edits_within(s, length),
    ensures
        some_edits_clash(edits_sorted(s)) <==> !all_edits_apart(s),
{
    let r = edits_sorted(s);
    let apart = |a: ParsedView, b: ParsedView| edits_apart(a.edit, b.edit);
    assert forall|a: ParsedView, b: ParsedView| #[trigger] apart(a, b) implies apart(b, a) by {}
    law_order_keeps_pairs::<ParsedTextEdit>(s, apart);
    lemma_sorted_within(s, length);
    law_sorting_edits(s);
    if pairwise(s, apart) {
        assert forall|i: int, j: int| 0 <= i < j < s.len() implies edits_apart(
            (#[trigger] s[i]).edit,
            (#[trigger] s[j]).edit,
        ) by {
            assert(apart(s[i], s[j]));
        }
        assert forall|i: int| 0 <= i < r.len() - 1 implies !#[trigger] edits_clash(r[i].edit, r[i + 1].edit) by {
            assert(apart(r[i], r[i + 1]));
            assert(edit_at_most(r[i], r[i + 1]));
            assert(r[i].edit.start <= r[i].edit.end && r[i + 1].edit.start <= r[i + 1].edit.end);
        }
    }
    if !some_edits_clash(r) {
        assert forall|i: int, j: int| 0 <= i < j < r.len() implies apart(#[trigger] r[i], #[trigger] r[j]) by {
            lemma_no_clash_ends(r, length, i, j);
            assert(edit_at_most(r[i], r[j - 1]) && edit_at_most(r[j - 1], r[j]));
            assert(!edits_clash(r[j - 1].edit, r[j - 1 + 1].edit));
            assert(r[i].edit.start <= r[i].edit.end);
        }
        assert(pairwise(r, apart));
    }
    if all_edits_apart(s) {
        assert forall|i: int, j: int| 0 <= i < j < s.len() implies apart(#[trigger] s[i], #[trigger] s[j]) by {}
        assert(pairwise(s, apart));
    }
}

/// Whether edit `a` comes before edit `b` or at the same place.
fn comes_no_later(a: &ParsedTextEdit, b: &ParsedTextEdit) -> (r: bool)
    ensures
        r == edit_at_most(a@, b@),
{
    if a.start_byte != b.start_byte {
        a.start_byte < b.start_byte
    } else if a.end_byte != b.end_byte {
        a.end_byte < b.end_byte
    } else {
        a.ordinal <= b.ordinal
    }
}

/// Whether two neighbouring edits of a list clash.
fn has_clash(list: &Vec<ParsedTextEdit>) -> (r: bool)
    ensures
        r == some_edits_clash(views(list@)),
{
    let ghost all = views(list@);
    let mut i: usize = 1;
    while i < list.len()
        invariant
            all == views(list@),
            1 <= i,
            forall|j: int| 0 <= j < i - 1 && j < all.len() - 1 ==> !#[trigger] edits_clash(all[j].edit, all[j + 1].edit),
        decreases list.len() - i,
    {
        let left: &ParsedTextEdit = &list[i - 1];
        let right: &ParsedTextEdit = &list[i];
        assert(all[i - 1] == left@ && all[i - 1 + 1] == right@);
        if right.start_byte < left.end_byte || (right.start_byte == left.start_byte && (right.end_byte
            != right.start_byte || left.end_byte != left.start_byte)) {
            assert(edits_clash(all[i - 1].edit, all[i - 1 + 1].edit));
            return true;
        }
        i += 1;
    }
    false
}

/// The canonical form of edits, and the number of bytes that they put in,
/// added to `total`.
fn canonical_edits(list: &Vec<ParsedTextEdit>, total: u64) -> (r: (Vec<CanonicalTextEdit>, u64))
    ensures
        views(r.0@) == edits_of(views(list@)),
        r.1 == saturating_sum(total as int, inserted_bytes(edits_of(views(list@))) as int),
{
    let ghost all = edits_of(views(list@));
    let mut edits: Vec<CanonicalTextEdit> = Vec::new();
    let mut sum: u64 = total;
    let mut i: usize = 0;
    assert(views(edits@) =~= all.take(0));
    while i < list.len()
        invariant
            all == edits_of(views(list@)),
            i <= list@.len(),
            views(edits@) =~= all.take(i as int),
            sum == saturating_sum(total as int, inserted_bytes(all.take(i as int)) as int),
        decreases list.len() - i,
    {
        let edit: &ParsedTextEdit = &list[i];
        let ghost before = edits@;
        proof {
            assert(all.take(i + 1).drop_last() =~= all.take(i as int));
            assert(all.take(i + 1) =~= all.take(i as int).push(all[i as int]));
        }
        let added: usize = edit.new_text.as_str().as_bytes().len();
        sum = sum.saturating_add(added as u64);
        edits.push(
            CanonicalTextEdit {
                start_byte: edit.start_byte as u64,
                end_byte: edit.end_byte as u64,
                new_text: edit.new_text.clone(),
                annotation_id: copy_opt(&edit.annotation_id),
            },
        );
        assert(views(edits@) =~= views(before).push(all[i as int]));
        i += 1;
    }
    assert(all.take(i as int) =~= all);
    (edits, sum)
}

/// Whether a problem of operation `index` is recorded.
pub open spec fn operation_refused(problems: Seq<ProblemView>, index: u64) -> bool {
    exists|i: int| 0 <= i < problems.len() && (#[trigger] problems[i]).operation_index == Some(index)
}

fn has_problem_of(problems: &Vec<WorkspaceEditProblem>, index: u64) -> (r: bool)
    ensures
        r == operation_refused(views(problems@), index),
{
    let mut i: usize = 0;
    while i < problems.len()
        invariant
            i <= problems@.len(),
            forall|j: int| 0 <= j < i ==> (#[trigger] views(problems@)[j]).operation_index != Some(index),
        decreases problems.len() - i,
    {
        match problems[i].operation_index {
            Some(n) => {
                if n == index {
                    assert(views(problems@)[i as int].operation_index == Some(index));
                    return true;
                }
            },
            None => {},
        }
        i += 1;
    }
    false
}

/// The draft after the text at `path` is changed by edits. Edits that leave
/// the content as it was are left out of the plan.
pub open spec fn text_changed(
    d: DraftView,
    index: u64,
    uri: Seq<char>,
    path: PathView,
    bytes: Seq<u8>,
    edits: Seq<EditView>,
) -> DraftView {
    let state = d.workspace.entries[path];
    let after = edited(bytes, edits, 0, 0);
    let counted = DraftView {
        new_text_bytes: saturating_sum(d.new_text_bytes as int, inserted_bytes(edits) as int),
        ..d
    };
    match state.manifest.content_digest {
        None => counted,
        Some(before_digest) => if digest_text(after) == before_digest {
            counted
        } else {
            DraftView {
                workspace: WorkspaceView {
                    entries: d.workspace.entries.insert(
                        path,
                        StateView {
                            manifest: ManifestView { content_digest: Some(digest_text(after)), ..state.manifest },
                            text: Some(after),
                        },
                    ),
                    affected: d.workspace.affected.insert(path),
                    ..d.workspace
                },
                summary: PreviewSummary {
                    text_edits: saturating_sum(d.summary.text_edits as int, edits.len() as int),
                    ..d.summary
                },
                operations: d.operations.push(
                    OperationView::Text { index, uri, path, before_digest, after_digest: digest_text(after), edits },
                ),
                ..counted
            }
        },
    }
}

impl<'a> WorkspaceEditPlanner<'a> {
    /// The edits among the first `n` that could be read.
    pub open spec fn edits_read(
        &self,
        text: Seq<char>,
        raw: Seq<JsonView>,
        n: int,
        annotations: Seq<(Seq<char>, JsonView)>,
        index: u64,
        path: PathView,
    ) -> Seq<ParsedView>
        decreases n,
    {
        if n <= 0 {
            Seq::empty()
        } else {
            let rest = self.edits_read(text, raw, n - 1, annotations, index, path);
            match parsed_edit(text, raw[n - 1], annotations, self.position_encoding, index, path, (n - 1) as nat) {
                Ok(p) => rest.push(p),
                Err(_) => rest,
            }
        }
    }

    /// The problems of the edits among the first `n` that could not be read.
    pub open spec fn edits_refused(
        &self,
        text: Seq<char>,
        raw: Seq<JsonView>,
        n: int,
        annotations: Seq<(Seq<char>, JsonView)>,
        index: u64,
        path: PathView,
    ) -> Seq<ProblemView>
        decreases n,
    {
        if n <= 0 {
            Seq::empty()
        } else {
            let rest = self.edits_refused(text, raw, n - 1, annotations, index, path);
            match parsed_edit(text, raw[n - 1], annotations, self.position_encoding, index, path, (n - 1) as nat) {
                Ok(_) => rest,
                Err(p) => rest.push(p),
            }
        }
    }

    pub proof fn lemma_edits_read_within(
        &self,
        text: Seq<char>,
        raw: Seq<JsonView>,
        n: int,
        annotations: Seq<(Seq<char>, JsonView)>,
        index: u64,
        path: PathView,
    )
        ensures
            edits_within(self.edits_read(text, raw, n, annotations, index, path), byte_len(text)),
        decreases n,
    {
        if n > 0 {
            self.lemma_edits_read_within(text, raw, n - 1, annotations, index, path);
            lemma_parsed_edit_in_text(
                text,
                raw[n - 1],
                annotations,
                self.position_encoding,
                index,
                path,
                (n - 1) as nat,
            );
        }
    }

    /// The draft after the edits of one document are read and applied.
    pub open spec fn edits_planned(
        &self,
        d: DraftView,
        index: u64,
        uri: Seq<char>,
        path: PathView,
        bytes: Seq<u8>,
        raw: Seq<JsonView>,
        annotations: Seq<(Seq<char>, JsonView)>,
    ) -> DraftView {
        let text = decode_utf8(bytes);
        let sorted = edits_sorted(self.edits_read(text, raw, raw.len() as int, annotations, index, path));
        let d = DraftView {
            problems: d.problems + self.edits_refused(text, raw, raw.len() as int, annotations, index, path),
            ..d
        };
        if some_edits_clash(sorted) {
            d.with_problem(
                path_problem(
                    "overlapping_edits"@,
                    "Text edits overlap or ambiguously share a start position."@,
                    index,
                    path,
                ),
            )
        } else if operation_refused(d.problems, index) {
            d
        } else {
            text_changed(d, index, uri, path, bytes, edits_of(sorted))
        }
    }

    fn plan_edits(
        &self,
        draft: &mut Draft,
        index: u64,
        uri: &str,
        path: &NativePath,
        bytes: &Vec<u8>,
        raw: &Vec<Json>,
        annotations: &Vec<(String, Json)>,
    )
        requires
            old(draft)@.workspace.entries.dom().contains(path@),
            valid_utf8(bytes@),
        ensures
            final(draft)@ == self.edits_planned(
                old(draft)@,
                index,
                uri@,
                path@,
                bytes@,
                crate::json::array_view(raw@),
                object_view(annotations@),
            ),
    {
        let text: String = match utf8_text(bytes) {
            Some(text) => text,
            None => {
                return;
            },
        };
        let ghost items = crate::json::array_view(raw@);
        let ghost notes = object_view(annotations@);
        let ghost start = draft@;
        let mut edits: Vec<ParsedTextEdit> = Vec::new();
        let mut i: usize = 0;
        assert(start.problems + Seq::<ProblemView>::empty() =~= start.problems);
        assert(views(edits@) =~= Seq::<ParsedView>::empty());
        while i < raw.len()
            invariant
                text@ == decode_utf8(bytes@),
                items == crate::json::array_view(raw@),
                notes == object_view(annotations@),
                i <= raw@.len(),
                views(edits@) == edits_sorted(self.edits_read(text@, items, i as int, notes, index, path@)),
                draft@ == (DraftView {
                    problems: start.problems + self.edits_refused(text@, items, i as int, notes, index, path@),
                    ..start
                }),
            decreases raw.len() - i,
        {
            let ghost read = self.edits_read(text@, items, i as int, notes, index, path@);
            let ghost bad = self.edits_refused(text@, items, i as int, notes, index, path@);
            assert(items[i as int] == raw@[i as int]@);
            match parse_text_edit(text.as_str(), &raw[i], annotations, self.position_encoding, index, path, i) {
                Ok(edit) => {
                    assert(read.push(edit@).drop_last() =~= read);
                    insert_ranked(&mut edits, edit);
                },
                Err(p) => {
                    assert((start.problems + bad).push(p@) =~= start.problems + bad.push(p@));
                    draft.push_problem(p);
                },
            }
            i += 1;
        }
        let ghost read = self.edits_read(text@, items, items.len() as int, notes, index, path@);
        if has_clash(&edits) {
            draft.push_problem(
                problem(
                    "overlapping_edits",
                    "Text edits overlap or ambiguously share a start position.",
                    Some(index),
                    Some(path),
                    None,
                ),
            );
            return;
        }
        if has_problem_of(&draft.problems, index) {
            return;
        }
        let (canonical, total) = canonical_edits(&edits, draft.new_text_bytes);
        proof {
            self.lemma_edits_read_within(text@, items, items.len() as int, notes, index, path@);
            vstd::utf8::decode_utf8_encode_utf8(bytes@);
            assert(byte_len(text@) == bytes@.len());
            law_accepted_edits_apply(read, bytes@.len());
        }
        let after: Vec<u8> = match apply_canonical_text_edits(bytes, &canonical) {
            Ok(after) => after,
            Err(_) => {
                return;
            },
        };
        draft.new_text_bytes = total;
        let after_digest: String = digest_raw_bytes(&after);
        let state: ResourceState = match draft.workspace.entries.get(path) {
            Some(state) => state.copy(),
            None => {
                return;
            },
        };
        let before_digest: String = match &state.manifest.content_digest {
            Some(d) => d.clone(),
            None => {
                return;
            },
        };
        if same(after_digest.as_str(), before_digest.as_str()) {
            return;
        }
        let mut next: ResourceState = state;
        next.text = Some(after);
        next.manifest.content_digest = Some(after_digest.clone());
        draft.workspace.entries.insert(path.duplicate(), next);
        let ghost affected = draft.workspace.affected@.dom();
        draft.workspace.affected.insert(path.duplicate(), ());
        assert(draft.workspace.affected@.dom() =~= affected.insert(path@));
        assert(views(canonical@).len() == canonical@.len());
        draft.summary.text_edits = draft.summary.text_edits.saturating_add(canonical.len() as u64);
        draft.push_operation(
            CanonicalOperation::Text {
                index,
                uri: uri.to_owned(),
                path: path.duplicate(),
                before_digest,
                after_digest,
                edits: canonical,
            },
        );
    }

    /// The draft after one text operation.
    pub open spec fn text_planned(
        &self,
        d: DraftView,
        index: u64,
        uri: Seq<char>,
        edits: JsonView,
        annotations: Seq<(Seq<char>, JsonView)>,
        expected_digest: Option<Seq<char>>,
    ) -> (DraftView, Option<RequestView>) {
        match self.file_path(uri, index) {
            Err(stop) => halted(d, d.workspace, stop),
            Ok(path) => match self.loaded(d.workspace, path, index, true) {
                (ws, Some(stop)) => halted(d, ws, stop),
                (ws, None) => {
                    let d = DraftView { workspace: ws, ..d };
                    let actual_digest = if ws.before.dom().contains(path) {
                        ws.before[path].content_digest
                    } else {
                        None
                    };
                    let state = ws.entries[path];
                    if expected_digest is Some && actual_digest != expected_digest {
                        refused(
                            d,
                            plain_problem(
                                "invalid_document_version"@,
                                "The synchronized Document content no longer matches the originating version."@,
                                Some(index),
                                Some(path),
                                Some(
                                    JsonView::Object(
                                        seq![
                                            ("actualDigest"@, opt_text_view(actual_digest)),
                                            ("expectedDigest"@, JsonView::Text(expected_digest->0)),
                                        ],
                                    ),
                                ),
                            ),
                        )
                    } else if state.manifest.resource_kind != ResourceKind::File {
                        refused(
                            d,
                            path_problem(
                                "unsupported_resource_kind"@,
                                "Text edits require a regular file."@,
                                index,
                                path,
                            ),
                        )
                    } else {
                        match state.text {
                            None => refused(
                                d,
                                path_problem(
                                    "resource_limit_exceeded"@,
                                    "The text Document exceeds the Preview per-Document limit."@,
                                    index,
                                    path,
                                ),
                            ),
                            Some(bytes) => if !valid_utf8(bytes) {
                                refused(
                                    d,
                                    path_problem(
                                        "unsupported_resource_kind"@,
                                        "Text edits require a UTF-8 regular file."@,
                                        index,
                                        path,
                                    ),
                                )
                            } else {
                                match edits {
                                    JsonView::Array(raw) => (
                                        self.edits_planned(d, index, uri, path, bytes, raw, annotations),
                                        None,
                                    ),
                                    _ => refused(
                                        d,
                                        path_problem(
                                            "unknown_operation"@,
                                            "TextDocumentEdit.edits must be an array."@,
                                            index,
                                            path,
                                        ),
                                    ),
                                }
                            },
                        }
                    }
                },
            },
        }
    }

    /// Plans the edits of one document.
    pub fn plan_text_operation(
        &self,
        draft: &mut Draft,
        index: u64,
        uri: &str,
        edits_value: &Json,
        annotations: &Vec<(String, Json)>,
        expected_digest: Option<&String>,
    ) -> (r: Option<Request>)
        ensures
            (final(draft)@, opt_view(r)) == self.text_planned(
                old(draft)@,
                index,
                uri@,
                edits_value@,
                object_view(annotations@),
                opt_ref_view(expected_digest),
            ),
    {
        let path: NativePath = match self.path_from_file_uri(uri, index) {
            Ok(path) => path,
            Err(stop) => {
                return draft.halt(stop);
            },
        };
        match self.load_exact_resource(&mut draft.workspace, &path, index, true) {
            Some(stop) => {
                return draft.halt(stop);
            },
            None => {},
        }
        match expected_digest {
            Some(expected) => {
                let actual: Option<String> = match draft.workspace.before.get(&path) {
                    Some(entry) => copy_opt(&entry.content_digest),
                    None => None,
                };
                let matches_expected: bool = match &actual {
                    Some(digest) => same(digest.as_str(), expected.as_str()),
                    None => false,
                };
                if !matches_expected {
                    return draft.refuse(
                        problem(
                            "invalid_document_version",
                            "The synchronized Document content no longer matches the originating version.",
                            Some(index),
                            Some(&path),
                            Some(
                                object2(
                                    "actualDigest",
                                    opt_text_value(actual.as_ref()),
                                    "expectedDigest",
                                    text_value(expected.as_str()),
                                ),
                            ),
                        ),
                    );
                }
            },
            None => {},
        }
        let state: ResourceState = match draft.workspace.entries.get(&path) {
            Some(state) => state.copy(),
            None => {
                return None;
            },
        };
        if state.manifest.resource_kind != ResourceKind::File {
            return draft.refuse(
                problem(
                    "unsupported_resource_kind",
                    "Text edits require a regular file.",
                    Some(index),
                    Some(&path),
                    None,
                ),
            );
        }
        let bytes: Vec<u8> = match state.text {
            Some(bytes) => bytes,
            None => {
                return draft.refuse(
                    problem(
                        "resource_limit_exceeded",
                        "The text Document exceeds the Preview per-Document limit.",
                        Some(index),
                        Some(&path),
                        None,
                    ),
                );
            },
        };
        if utf8_text(&bytes).is_none() {
            return draft.refuse(
                problem(
                    "unsupported_resource_kind",
                    "Text edits require a UTF-8 regular file.",
                    Some(index),
                    Some(&path),
                    None,
                ),
            );
        }
        match edits_value {
            Json::Array(raw) => {
                self.plan_edits(draft, index, uri, &path, &bytes, raw, annotations);
                None
            },
            _ => draft.refuse(
                problem(
                    "unknown_operation",
                    "TextDocumentEdit.edits must be an array.",
                    Some(index),
                    Some(&path),
                    None,
                ),
            ),
        }
    }
}

} // verus!
