//! Canonical text edits and their application.

use vstd::prelude::*;
use vstd::utf8::encode_utf8;

use crate::digest::extend;
use crate::text::{opt_view, views};

verus! {

/// One replacement of a range of bytes.
pub struct CanonicalTextEdit {
    pub start_byte: u64,
    pub end_byte: u64,
    pub new_text: String,
    pub annotation_id: Option<String>,
}

/// What a [`CanonicalTextEdit`] stands for.
#[verifier::ext_equal]
pub ghost struct EditView {
    pub start: nat,
    pub end: nat,
    pub new_text: Seq<char>,
    pub annotation_id: Option<Seq<char>>,
}

impl View for CanonicalTextEdit {
    type V = EditView;

    open spec fn view(&self) -> EditView {
        EditView {
            start: self.start_byte as nat,
            end: self.end_byte as nat,
            new_text: self.new_text@,
            annotation_id: opt_view(self.annotation_id),
        }
    }
}

/// Whether each edit from `from` on lies in the text and begins no earlier
/// than the one before it ends; the first of them no earlier than `cursor`.
pub open spec fn edits_in_order(length: nat, edits: Seq<EditView>, from: int, cursor: nat) -> bool
    decreases edits.len() - from,
{
    if from >= edits.len() {
        true
    } else {
        &&& cursor <= edits[from].start <= edits[from].end <= length
        &&& edits_in_order(length, edits, from + 1, edits[from].end)
    }
}

/// The text from `cursor` on after the edits from `from` on.
pub open spec fn edited(before: Seq<u8>, edits: Seq<EditView>, from: int, cursor: nat) -> Seq<u8>
    decreases edits.len() - from,
{
    if from >= edits.len() {
        before.skip(cursor as int)
    } else {
        before.subrange(cursor as int, edits[from].start as int) + encode_utf8(edits[from].new_text) + edited(
            before,
            edits,
            from + 1,
            edits[from].end,
        )
    }
}

/// Applies edits to a text. Edits that overlap, go backwards or leave the text
/// are refused.
pub fn apply_canonical_text_edits(before: &Vec<u8>, edits: &Vec<CanonicalTextEdit>) -> (r: Result<Vec<u8>, String>)
    ensures
        match r {
            Ok(after) => edits_in_order(before@.len(), views(edits@), 0, 0) && after@ == edited(
                before@,
                views(edits@),
                0,
                0,
            ),
            Err(reason) => !edits_in_order(before@.len(), views(edits@), 0, 0) && reason@
                == "A canonical staged text edit range is invalid."@,
        },
{
    let ghost all = views(edits@);
    let mut after: Vec<u8> = Vec::new();
    let mut cursor: usize = 0;
    let mut i: usize = 0;
    while i < edits.len()
        invariant
            all == views(edits@),
            i <= edits@.len(),
            cursor <= before@.len(),
            edits_in_order(before@.len(), all, 0, 0) == edits_in_order(before@.len(), all, i as int, cursor as nat),
            edits_in_order(before@.len(), all, 0, 0) ==> edited(before@, all, 0, 0) =~= after@ + edited(
                before@,
                all,
                i as int,
                cursor as nat,
            ),
        decreases edits.len() - i,
    {
        let edit: &CanonicalTextEdit = &edits[i];
        assert(all[i as int] == edit@);
        if edit.start_byte < cursor as u64 || edit.end_byte < edit.start_byte || edit.end_byte > before.len() as u64 {
            return Err("A canonical staged text edit range is invalid.".to_owned());
        }
        let start: usize = edit.start_byte as usize;
        let end: usize = edit.end_byte as usize;
        extend(&mut after, vstd::slice::slice_subrange(before.as_slice(), cursor, start));
        extend(&mut after, edit.new_text.as_str().as_bytes());
        cursor = end;
        i += 1;
    }
    extend(&mut after, vstd::slice::slice_subrange(before.as_slice(), cursor, before.len()));
    assert(before@.subrange(cursor as int, before@.len() as int) =~= before@.skip(cursor as int));
    Ok(after)
}

/// Without edits the text stays as it is.
pub proof fn law_no_edits_change_nothing(before: Seq<u8>)
    ensures
        edited(before, Seq::empty(), 0, 0) == before,
{
    assert(before.skip(0) =~= before);
}

proof fn lemma_edited_length(before: Seq<u8>, edits: Seq<EditView>, from: int, cursor: nat)
    requires
        0 <= from,
        cursor <= before.len(),
        edits_in_order(before.len(), edits, from, cursor),
    ensures
        edited(before, edits, from, cursor).len() == before.len() - cursor + growth(edits, from),
    decreases edits.len() - from,
{
    if from < edits.len() {
        lemma_edited_length(before, edits, from + 1, edits[from].end);
    }
}

/// By how much the edits from `from` on lengthen a text.
pub open spec fn growth(edits: Seq<EditView>, from: int) -> int
    decreases edits.len() - from,
{
    if from >= edits.len() {
        0
    } else {
        encode_utf8(edits[from].new_text).len() - (edits[from].end - edits[from].start) + growth(edits, from + 1)
    }
}

/// An edited text is longer by what its edits put in beyond what they take out.
pub proof fn law_edits_account_for_length(before: Seq<u8>, edits: Seq<EditView>)
    requires
        edits_in_order(before.len(), edits, 0, 0),
    ensures
        edited(before, edits, 0, 0).len() == before.len() + growth(edits, 0),
{
    lemma_edited_length(before, edits, 0, 0);
}

} // verus!
