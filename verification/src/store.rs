//! The files in which previews, receipts and journals are kept.

use vstd::prelude::*;

use crate::digest::{canonical_digest, digest_canonical_value, hex_encode, hex_text, lemma_hex_len};
use crate::failure::{ContractFailure, FailureView, failed, failure};
use crate::json::{
    Json,
    JsonView,
    array_view,
    object1,
    object_view,
    push_field,
    text_value,
};
use crate::manifest::PathView;
use crate::order::{Order, text_order, text_precedes};
use crate::path::NativePath;
use crate::records::MUTATION_STATE_VERSION;
use crate::ranking::{insert_ranked, ranked_with};
use crate::reports::texts_json;
use crate::text::{chars_of, concat, same, string_of, strip_prefix, strip_suffix, views};

verus! {

/// Why a file could not be read as a record.
#[derive(Clone, Copy, Debug, PartialEq, Eq, Structural)]
pub enum ReadFault {
    Missing(Option<i32>),
    Open(Option<i32>),
    Read(Option<i32>),
    Corrupt,
}

impl View for ReadFault {
    type V = ReadFault;

    open spec fn view(&self) -> ReadFault {
        *self
    }
}

/// The file of a record.
pub struct RecordFile<T> {
    /// The name of the file without its extension.
    pub id: String,
    /// The size of the file.
    pub bytes: u64,
    pub content: Result<T, ReadFault>,
}

/// What a [`RecordFile`] stands for.
#[verifier::reject_recursive_types(V)]
pub ghost struct FileView<V> {
    pub id: Seq<char>,
    pub bytes: u64,
    pub content: Result<V, ReadFault>,
}

impl<T: View> View for RecordFile<T> {
    type V = FileView<T::V>;

    open spec fn view(&self) -> FileView<T::V> {
        FileView { id: self.id@, bytes: self.bytes, content: crate::failure::result_view(self.content) }
    }
}

/// The place of the file of a record.
pub open spec fn place_of<V>(files: Seq<FileView<V>>, id: Seq<char>) -> Option<int>
    decreases files.len(),
{
    if files.len() == 0 {
        None
    } else {
        match place_of(files.drop_last(), id) {
            Some(i) => Some(i),
            None => if files.last().id == id {
                Some(files.len() - 1)
            } else {
                None
            },
        }
    }
}

proof fn lemma_place<V>(files: Seq<FileView<V>>, id: Seq<char>)
    ensures
        match place_of(files, id) {
            Some(i) => 0 <= i < files.len() && files[i].id == id && forall|j: int|
                0 <= j < i ==> (#[trigger] files[j]).id != id,
            None => forall|j: int| 0 <= j < files.len() ==> (#[trigger] files[j]).id != id,
        },
    decreases files.len(),
{
    if files.len() > 0 {
        let rest = files.drop_last();
        lemma_place(rest, id);
        assert forall|j: int| 0 <= j < rest.len() implies files[j] == #[trigger] rest[j] by {}
        match place_of(rest, id) {
            Some(i) => {
                assert(files[i] == rest[i]);
                assert forall|j: int| 0 <= j < i implies (#[trigger] files[j]).id != id by {
                    assert(rest[j].id != id);
                }
            },
            None => {
                assert forall|j: int| 0 <= j < rest.len() implies (#[trigger] files[j]).id != id by {
                    assert(rest[j].id != id);
                }
            },
        }
    }
}

/// The place of the file of a record is where a file first has its name.
pub proof fn lemma_place_is<V>(files: Seq<FileView<V>>, id: Seq<char>, i: int)
    requires
        0 <= i < files.len(),
        files[i].id == id,
        forall|j: int| 0 <= j < i ==> (#[trigger] files[j]).id != id,
    ensures
        place_of(files, id) == Some(i),
{
    lemma_place(files, id);
}

/// Where no file has the name of a record, it has no place.
pub proof fn lemma_no_place<V>(files: Seq<FileView<V>>, id: Seq<char>)
    requires
        forall|j: int| 0 <= j < files.len() ==> (#[trigger] files[j]).id != id,
    ensures
        place_of(files, id) is None,
{
    lemma_place(files, id);
}

/// The place of the file of a record.
pub fn find_file<T: View>(files: &Vec<RecordFile<T>>, id: &str) -> (r: Option<usize>)
    ensures
        match r {
            Some(i) => place_of(views(files@), id@) == Some(i as int) && i < files@.len() && files@[i as int].id@ == id@,
            None => place_of(views(files@), id@) is None,
        },
{
    let ghost all = views(files@);
    let mut i: usize = 0;
    while i < files.len()
        invariant
            i <= files@.len(),
            all == views(files@),
            forall|j: int| 0 <= j < i ==> (#[trigger] all[j]).id != id@,
        decreases files.len() - i,
    {
        assert(all[i as int].id == files@[i as int].id@);
        if same(files[i].id.as_str(), id) {
            proof { lemma_place_is(all, id@, i as int); }
            return Some(i);
        }
        i += 1;
    }
    proof { lemma_no_place(all, id@); }
    None
}

/// The name of the file of a record.
pub open spec fn file_name(id: Seq<char>) -> Seq<char> {
    id + ".json"@
}

/// Where the file of a new record stands in the order of names.
pub open spec fn slot_for<V>(files: Seq<FileView<V>>, id: Seq<char>, from: int) -> int
    decreases files.len() - from,
{
    if from < 0 || from >= files.len() || text_precedes(file_name(id), file_name(files[from].id)) {
        from
    } else {
        slot_for(files, id, from + 1)
    }
}

/// The files once a record is written.
pub open spec fn written<V>(files: Seq<FileView<V>>, f: FileView<V>) -> Seq<FileView<V>> {
    match place_of(files, f.id) {
        Some(i) => files.update(i, f),
        None => files.insert(slot_for(files, f.id, 0), f),
    }
}

proof fn lemma_slot<V>(files: Seq<FileView<V>>, id: Seq<char>, from: int)
    requires
        0 <= from <= files.len(),
    ensures
        from <= slot_for(files, id, from) <= files.len(),
    decreases files.len() - from,
{
    if from < files.len() && !text_precedes(file_name(id), file_name(files[from].id)) {
        lemma_slot(files, id, from + 1);
    }
}

/// Writes a record.
pub fn put_file<T: View>(files: &mut Vec<RecordFile<T>>, f: RecordFile<T>)
    ensures
        views(final(files)@) == written(views(old(files)@), f@),
{
    let ghost all = views(files@);
    match find_file(files, f.id.as_str()) {
        Some(i) => {
            files.set(i, f);
            assert(views(files@) =~= all.update(i as int, f@));
        },
        None => {
            let name: String = concat(f.id.as_str(), ".json");
            let mut i: usize = 0;
            let mut found: bool = false;
            while i < files.len() && !found
                invariant
                    i <= files@.len(),
                    all == views(files@),
                    name@ == file_name(f.id@),
                    slot_for(all, f.id@, 0) == slot_for(all, f.id@, i as int),
                    found ==> slot_for(all, f.id@, i as int) == i,
                decreases files.len() - i, if found { 0int } else { 1int },
            {
                assert(all[i as int].id == files@[i as int].id@);
                let other: String = concat(files[i].id.as_str(), ".json");
                match text_order(name.as_str(), other.as_str()) {
                    Order::Less => {
                        found = true;
                    },
                    _ => {
                        i += 1;
                    },
                }
            }
            proof {
                if !found {
                    assert(slot_for(all, f.id@, i as int) == i);
                }
            }
            files.insert(i, f);
            assert(views(files@) =~= all.insert(i as int, f@));
        },
    }
}

/// The files without that of a record.
pub open spec fn removed<V>(files: Seq<FileView<V>>, id: Seq<char>) -> Seq<FileView<V>> {
    match place_of(files, id) {
        Some(i) => files.remove(i),
        None => files,
    }
}

/// Removes a record.
pub fn drop_file<T: View>(files: &mut Vec<RecordFile<T>>, id: &str)
    ensures
        views(final(files)@) == removed(views(old(files)@), id@),
{
    let ghost all = views(files@);
    match find_file(files, id) {
        Some(i) => {
            let _ = files.remove(i);
            assert(views(files@) =~= all.remove(i as int));
        },
        None => {},
    }
}

/// What was written is read back, and where it was not written before, there is
/// one file more.
pub proof fn law_written_is_read<V>(files: Seq<FileView<V>>, f: FileView<V>)
    ensures
        place_of(written(files, f), f.id) is Some,
        written(files, f)[place_of(written(files, f), f.id)->0] == f,
        written(files, f).len() == files.len() + (if place_of(files, f.id) is Some { 0int } else { 1int }),
{
    let after = written(files, f);
    lemma_place(files, f.id);
    lemma_place(after, f.id);
    match place_of(files, f.id) {
        Some(i) => {
            assert(after[i] == f);
            lemma_place_is(after, f.id, i);
        },
        None => {
            lemma_slot(files, f.id, 0);
            let i = slot_for(files, f.id, 0);
            assert(after[i] == f);
            assert forall|j: int| 0 <= j < i implies (#[trigger] after[j]).id != f.id by {
                assert(after[j] == files[j]);
            }
            lemma_place_is(after, f.id, i);
        },
    }
}

/// Writing one record leaves each other where it is found.
pub proof fn law_writing_leaves_others<V>(files: Seq<FileView<V>>, f: FileView<V>, other: Seq<char>)
    requires
        f.id != other,
    ensures
        match place_of(files, other) {
            Some(i) => place_of(written(files, f), other) matches Some(j) && written(files, f)[j] == files[i],
            None => place_of(written(files, f), other) is None,
        },
{
    let after = written(files, f);
    lemma_place(files, f.id);
    lemma_place(files, other);
    lemma_slot(files, f.id, 0);
    let new = place_of(files, f.id) is None;
    let at = slot_for(files, f.id, 0);
    let moved = |j: int| if new && j >= at { j + 1 } else { j };
    assert forall|j: int| 0 <= j < after.len() && (#[trigger] after[j]).id == other implies exists|m: int|
        0 <= m < files.len() && moved(m) == j && #[trigger] files[m] == after[j] by {
        let m = if new && j > at { j - 1 } else { j };
        assert(files[m] == after[j]);
    }
    match place_of(files, other) {
        Some(i) => {
            let j = moved(i);
            assert(after[j] == files[i]);
            assert forall|k: int| 0 <= k < j implies (#[trigger] after[k]).id != other by {
                if after[k].id == other {
                    let m = choose|m: int| 0 <= m < files.len() && moved(m) == k && #[trigger] files[m] == after[k];
                    assert(files[m].id == other);
                }
            }
            lemma_place_is(after, other, j);
        },
        None => {
            assert forall|k: int| 0 <= k < after.len() implies (#[trigger] after[k]).id != other by {
                if after[k].id == other {
                    let m = choose|m: int| 0 <= m < files.len() && moved(m) == k && #[trigger] files[m] == after[k];
                    assert(files[m].id == other);
                }
            }
            lemma_no_place(after, other);
        },
    }
}

/// What was removed is not found again, where each name is used once.
pub proof fn law_removed_is_gone<V>(files: Seq<FileView<V>>, id: Seq<char>)
    requires
        forall|i: int, j: int| 0 <= i < j < files.len() ==> (#[trigger] files[i]).id != (#[trigger] files[j]).id,
    ensures
        place_of(removed(files, id), id) is None,
{
    let after = removed(files, id);
    lemma_place(files, id);
    match place_of(files, id) {
        Some(i) => {
            assert forall|j: int| 0 <= j < after.len() implies (#[trigger] after[j]).id != id by {
                if j < i {
                    assert(after[j] == files[j]);
                } else {
                    assert(after[j] == files[j + 1]);
                }
            }
            lemma_no_place(after, id);
        },
        None => {},
    }
}

/// Removing one record leaves each other where it is found.
pub proof fn law_removal_leaves_others<V>(files: Seq<FileView<V>>, id: Seq<char>, other: Seq<char>)
    requires
        id != other,
    ensures
        match place_of(files, other) {
            Some(i) => place_of(removed(files, id), other) matches Some(j) && removed(files, id)[j] == files[i],
            None => place_of(removed(files, id), other) is None,
        },
{
    let after = removed(files, id);
    lemma_place(files, id);
    lemma_place(files, other);
    if let Some(k) = place_of(files, id) {
        match place_of(files, other) {
            Some(i) => {
                let j = if i < k { i } else { i - 1 };
                assert(after[j] == files[i]);
                assert forall|m: int| 0 <= m < j implies (#[trigger] after[m]).id != other by {
                    if m < k {
                        assert(after[m] == files[m]);
                    } else {
                        assert(after[m] == files[m + 1]);
                    }
                }
                lemma_place_is(after, other, j);
            },
            None => {
                assert forall|m: int| 0 <= m < after.len() implies (#[trigger] after[m]).id != other by {
                    if m < k {
                        assert(after[m] == files[m]);
                    } else {
                        assert(after[m] == files[m + 1]);
                    }
                }
                lemma_no_place(after, other);
            },
        }
    }
}

/// Whether a file name is that of a record.
pub open spec fn is_record_name(name: Seq<char>) -> bool {
    ".json"@.is_suffix_of(name) && name.len() > ".json"@.len()
}

/// Where the last dot of a name stands.
pub open spec fn last_dot(name: Seq<char>) -> Option<int>
    decreases name.len(),
{
    if name.len() == 0 {
        None
    } else if name.last() == '.' {
        Some(name.len() - 1)
    } else {
        last_dot(name.drop_last())
    }
}

/// The name of a file without its extension: what stands before the last dot,
/// unless nothing does. Dots alone that stand for a directory name no file.
pub open spec fn stem_of(name: Seq<char>) -> Seq<char> {
    if name == "."@ || name == ".."@ {
        Seq::empty()
    } else {
        match last_dot(name) {
            Some(k) => if k > 0 {
                name.take(k)
            } else {
                name
            },
            None => name,
        }
    }
}

/// The name of a file without its extension.
pub fn file_stem(name: &str) -> (r: String)
    ensures
        r@ == stem_of(name@),
{
    if same(name, ".") || same(name, "..") {
        return String::new();
    }
    let c: Vec<char> = chars_of(name);
    let mut k: usize = c.len();
    assert(name@.take(k as int) =~= name@);
    while k > 0
        invariant
            k <= c@.len(),
            c@ == name@,
            name@ != "."@,
            name@ != ".."@,
            last_dot(name@) == last_dot(name@.take(k as int)),
        decreases k,
    {
        assert(name@.take(k as int).last() == c@[k - 1]);
        assert(name@.take(k as int).drop_last() =~= name@.take(k - 1));
        if c[k - 1] == '.' {
            if k == 1 {
                return name.to_owned();
            }
            let stem: String = string_of(&c, 0, k - 1);
            assert(stem@ =~= name@.take(k - 1));
            return stem;
        }
        k -= 1;
    }
    name.to_owned()
}

/// The name of the file of a record without its extension is the name of the
/// record.
pub proof fn law_stem_of_file_name(id: Seq<char>)
    requires
        id.len() > 0,
    ensures
        is_record_name(file_name(id)),
        stem_of(file_name(id)) == id,
{
    let name = file_name(id);
    assert(name.subrange(name.len() - ".json"@.len(), name.len() as int) =~= ".json"@);
    reveal_strlit(".json");
    reveal_strlit(".");
    reveal_strlit("..");
    reveal_with_fuel(last_dot, 6);
    let n = id.len() as int;
    assert(name.drop_last() =~= name.take(n + 4));
    assert(name.take(n + 4).drop_last() =~= name.take(n + 3));
    assert(name.take(n + 3).drop_last() =~= name.take(n + 2));
    assert(name.take(n + 2).drop_last() =~= name.take(n + 1));
    assert(last_dot(name) == Some(n));
    assert(name.take(n) =~= id);
}

/// The names of the records among the names in a directory, in ascending order.
pub open spec fn record_names(names: Seq<Seq<char>>) -> Seq<Seq<char>>
    decreases names.len(),
{
    if names.len() == 0 {
        Seq::empty()
    } else {
        let rest = record_names(names.drop_last());
        if is_record_name(names.last()) {
            ranked_with::<String>(rest, names.last())
        } else {
            rest
        }
    }
}

/// The names of the records among the names in a directory, in ascending order.
pub fn record_files(names: &Vec<String>) -> (r: Vec<String>)
    ensures
        views(r@) == record_names(views(names@)),
{
    let ghost all = views(names@);
    let mut r: Vec<String> = Vec::new();
    let mut i: usize = 0;
    assert(views(r@) =~= record_names(all.take(0)));
    while i < names.len()
        invariant
            i <= names@.len(),
            all == views(names@),
            views(r@) == record_names(all.take(i as int)),
        decreases names.len() - i,
    {
        proof {
            assert(all.take(i + 1).drop_last() =~= all.take(i as int));
            assert(all.take(i + 1).last() == names@[i as int]@);
        }
        match strip_suffix(names[i].as_str(), ".json") {
            Some(stem) => {
                assert(names@[i as int]@.len() == stem@.len() + ".json"@.len());
                if stem.as_str().unicode_len() > 0 {
                    insert_ranked(&mut r, names[i].clone());
                }
            },
            None => {},
        }
        i += 1;
    }
    assert(all.take(i as int) =~= all);
    r
}

/// The failure of a step on the state.
pub open spec fn state_failed(
    record_type: Seq<char>,
    path: Seq<char>,
    message: Seq<char>,
    os_code: Option<i32>,
) -> FailureView {
    let rest = seq![("path"@, JsonView::Text(path)), ("recordType"@, JsonView::Text(record_type))];
    failed(
        4,
        "unavailable"@,
        "state_unavailable"@,
        message,
        "persist"@,
        "not_applicable"@,
        "after_change"@,
        JsonView::Object(
            match os_code {
                Some(code) => seq![("osCode"@, JsonView::Int(code as int))] + rest,
                None => rest,
            },
        ),
    )
}

/// The failure of a step on the state.
pub fn state_failure(record_type: &str, path: &str, message: &str, os_code: Option<i32>) -> (r: ContractFailure)
    ensures
        r@ == state_failed(record_type@, path@, message@, os_code),
{
    let mut o: Vec<(String, Json)> = Vec::new();
    assert(object_view(o@) =~= seq![]);
    match os_code {
        Some(code) => {
            push_field(&mut o, "osCode", crate::timing::os_code_value(Some(code)));
        },
        None => {},
    }
    push_field(&mut o, "path", text_value(path));
    push_field(&mut o, "recordType", text_value(record_type));
    assert(object_view(o@) =~= state_failed(record_type@, path@, message@, os_code).data->Object_0);
    failure(
        4,
        "unavailable",
        "state_unavailable",
        message,
        "persist",
        "not_applicable",
        "after_change",
        Json::Object(o),
    )
}

/// The failure of reading what another version wrote, or nothing wrote.
pub open spec fn version_failed(record_type: Seq<char>, path: Seq<char>, version: u32) -> FailureView {
    failed(
        3,
        "blocked"@,
        "stored_state_version_unsupported"@,
        "Stored Mutation state is invalid or uses unsupported semantics."@,
        "inspect"@,
        "not_applicable"@,
        "never"@,
        JsonView::Object(
            seq![
                ("foundVersion"@, JsonView::Int(version as int)),
                ("path"@, JsonView::Text(path)),
                ("recordType"@, JsonView::Text(record_type)),
                (
                    "supportedVersions"@,
                    JsonView::Array(seq![JsonView::Int(MUTATION_STATE_VERSION as int)]),
                ),
            ],
        ),
    )
}

/// The failure of reading what another version wrote, or nothing wrote.
pub fn stored_version_failure(record_type: &str, path: &str, version: u32) -> (r: ContractFailure)
    ensures
        r@ == version_failed(record_type@, path@, version),
{
    let mut versions: Vec<Json> = Vec::new();
    versions.push(Json::Unsigned(MUTATION_STATE_VERSION as u64));
    assert(array_view(versions@) =~= seq![JsonView::Int(MUTATION_STATE_VERSION as int)]);
    failure(
        3,
        "blocked",
        "stored_state_version_unsupported",
        "Stored Mutation state is invalid or uses unsupported semantics.",
        "inspect",
        "not_applicable",
        "never",
        crate::json::object4(
            "foundVersion",
            Json::Unsigned(version as u64),
            "path",
            text_value(path),
            "recordType",
            text_value(record_type),
            "supportedVersions",
            Json::Array(versions),
        ),
    )
}

/// Refuses a record that another version wrote.
pub fn validate_record_version(version: u32, record_type: &str, path: &str) -> (r: Result<(), ContractFailure>)
    ensures
        match r {
            Ok(_) => version == MUTATION_STATE_VERSION,
            Err(f) => version != MUTATION_STATE_VERSION && f@ == version_failed(record_type@, path@, version),
        },
{
    if version == MUTATION_STATE_VERSION {
        Ok(())
    } else {
        Err(stored_version_failure(record_type, path, version))
    }
}

/// The failure of asking for a preview that there is not.
pub open spec fn unknown_preview(id: Seq<char>, stage: Seq<char>) -> FailureView {
    failed(
        6,
        "mutation"@,
        "preview_unknown"@,
        "The Preview is unknown or expired."@,
        stage,
        "not_applicable"@,
        "never"@,
        JsonView::Object(seq![("previewId"@, JsonView::Text(id))]),
    )
}

/// The failure of asking for a preview that there is not.
pub fn preview_unknown(id: &str, stage: &str) -> (r: ContractFailure)
    ensures
        r@ == unknown_preview(id@, stage@),
{
    failure(
        6,
        "mutation",
        "preview_unknown",
        "The Preview is unknown or expired.",
        stage,
        "not_applicable",
        "never",
        object1("previewId", text_value(id)),
    )
}

/// The failure of asking for a receipt that there is not.
pub open spec fn unknown_receipt(id: Seq<char>) -> FailureView {
    failed(
        3,
        "blocked"@,
        "state_record_unknown"@,
        "The requested Receipt is unknown or expired."@,
        "inspect"@,
        "not_applicable"@,
        "never"@,
        JsonView::Object(
            seq![("id"@, JsonView::Text(id)), ("recordType"@, JsonView::Text("receipt"@))],
        ),
    )
}

/// The failure of asking for a receipt that there is not.
pub fn receipt_unknown(id: &str) -> (r: ContractFailure)
    ensures
        r@ == unknown_receipt(id@),
{
    failure(
        3,
        "blocked",
        "state_record_unknown",
        "The requested Receipt is unknown or expired.",
        "inspect",
        "not_applicable",
        "never",
        crate::json::object2("id", text_value(id), "recordType", text_value("receipt")),
    )
}

/// The failure of asking for a journal that there is not.
pub open spec fn unknown_recovery(id: Seq<char>) -> FailureView {
    failed(
        7,
        "recovery"@,
        "recovery_not_found"@,
        "The Recovery transaction is unknown."@,
        "recover"@,
        "not_applicable"@,
        "never"@,
        JsonView::Object(seq![("transactionId"@, JsonView::Text(id))]),
    )
}

/// The failure of asking for a journal that there is not.
pub fn recovery_not_found(id: &str) -> (r: ContractFailure)
    ensures
        r@ == unknown_recovery(id@),
{
    failure(
        7,
        "recovery",
        "recovery_not_found",
        "The Recovery transaction is unknown.",
        "recover",
        "not_applicable",
        "never",
        object1("transactionId", text_value(id)),
    )
}

/// The failure of keeping more than may be kept.
pub open spec fn capacity_failed(
    record_type: Seq<char>,
    limit: u64,
    current: u64,
    required: u64,
    prunable: Seq<Seq<char>>,
) -> FailureView {
    failed(
        4,
        "unavailable"@,
        "state_capacity_exceeded"@,
        "Mutation state capacity is exhausted."@,
        "reserve"@,
        "not_applicable"@,
        "after_change"@,
        JsonView::Object(
            seq![
                ("current"@, JsonView::Int(current as int)),
                ("limit"@, JsonView::Int(limit as int)),
                ("prunableIds"@, texts_json(prunable)),
                ("recordType"@, JsonView::Text(record_type)),
                ("required"@, JsonView::Int(required as int)),
            ],
        ),
    )
}

/// Texts in JSON.
pub fn texts_value(list: &Vec<String>) -> (r: Json)
    ensures
        r@ == texts_json(views(list@)),
{
    let mut out: Vec<Json> = Vec::new();
    let mut i: usize = 0;
    while i < list.len()
        invariant
            i <= list@.len(),
            out@.len() == i,
            forall|j: int| 0 <= j < i ==> (#[trigger] out@[j])@ == JsonView::Text(list@[j]@),
        decreases list.len() - i,
    {
        out.push(text_value(list[i].as_str()));
        i += 1;
    }
    assert(array_view(out@) =~= texts_json(views(list@))->Array_0);
    Json::Array(out)
}

/// The failure of keeping more than may be kept.
pub fn capacity_failure(record_type: &str, limit: u64, current: u64, required: u64, prunable: &Vec<String>) -> (r:
    ContractFailure)
    ensures
        r@ == capacity_failed(record_type@, limit, current, required, views(prunable@)),
{
    let mut o: Vec<(String, Json)> = Vec::new();
    assert(object_view(o@) =~= seq![]);
    push_field(&mut o, "current", Json::Unsigned(current));
    push_field(&mut o, "limit", Json::Unsigned(limit));
    push_field(&mut o, "prunableIds", texts_value(prunable));
    push_field(&mut o, "recordType", text_value(record_type));
    push_field(&mut o, "required", Json::Unsigned(required));
    assert(object_view(o@) =~= capacity_failed(
        record_type@,
        limit,
        current,
        required,
        views(prunable@),
    ).data->Object_0);
    failure(
        4,
        "unavailable",
        "state_capacity_exceeded",
        "Mutation state capacity is exhausted.",
        "reserve",
        "not_applicable",
        "after_change",
        Json::Object(o),
    )
}

/// The failure of touching a preview that an application holds.
pub open spec fn busy_failed(message: Seq<char>, preview_id: Seq<char>) -> FailureView {
    failed(
        6,
        "mutation"@,
        "application_busy"@,
        message,
        "reserve"@,
        "not_applicable"@,
        "safe"@,
        JsonView::Object(seq![("previewId"@, JsonView::Text(preview_id))]),
    )
}

/// The failure of touching a preview that an application holds.
pub fn busy_failure(message: &str, preview_id: &str) -> (r: ContractFailure)
    ensures
        r@ == busy_failed(message@, preview_id@),
{
    failure(
        6,
        "mutation",
        "application_busy",
        message,
        "reserve",
        "not_applicable",
        "safe",
        object1("previewId", text_value(preview_id)),
    )
}

/// `getrandom::fill` fills a buffer with random bytes, or gives an error,
/// which is handed out in words. Nothing is said of which bytes they are. No
/// buffer is longer than `isize::MAX` bytes.
#[verifier::external_body]
pub(crate) fn random_bytes(count: usize) -> (r: Result<Vec<u8>, String>)
    requires
        count <= isize::MAX,
    ensures
        r matches Ok(bytes) ==> bytes@.len() == count,
{
    let mut bytes = vec![0_u8; count];
    getrandom::fill(&mut bytes).map_err(|error| format!("{error}"))?;
    Ok(bytes)
}

/// The failure to draw the random bytes of an identifier.
pub open spec fn undrawn_identifier(reason: Seq<char>) -> FailureView {
    state_failed("mutation"@, ""@, "A random state identifier cannot be generated: "@ + reason, None)
}

/// Whether an identifier is a prefix and sixteen bytes in digits to the base
/// sixteen.
pub open spec fn is_identifier(prefix: Seq<char>, id: Seq<char>) -> bool {
    exists|bytes: Seq<u8>| bytes.len() == 16 && id == prefix + #[trigger] hex_text(bytes)
}

/// Whether a failure is that to draw the random bytes of an identifier.
pub open spec fn is_undrawn(f: FailureView) -> bool {
    exists|reason: Seq<char>| f == #[trigger] undrawn_identifier(reason)
}

/// An identifier made of random bytes, or the failure to make one.
pub fn identifier_from(prefix: &str, drawn: Result<Vec<u8>, String>) -> (r: Result<String, ContractFailure>)
    ensures
        match drawn {
            Ok(bytes) => r matches Ok(id) && id@ == prefix@ + hex_text(bytes@),
            Err(reason) => r matches Err(f) && f@ == undrawn_identifier(reason@),
        },
{
    match drawn {
        Ok(bytes) => {
            let digits: String = hex_encode(&bytes);
            Ok(concat(prefix, digits.as_str()))
        },
        Err(reason) => {
            let message: String = concat("A random state identifier cannot be generated: ", reason.as_str());
            Err(state_failure("mutation", "", message.as_str(), None))
        },
    }
}

/// A new identifier.
pub fn random_identifier(prefix: &str) -> (r: Result<String, ContractFailure>)
    ensures
        match r {
            Ok(id) => prefix@.is_prefix_of(id@) && id@.len() == prefix@.len() + 32 && is_identifier(prefix@, id@),
            Err(f) => is_undrawn(f@),
        },
{
    let drawn = random_bytes(16);
    proof {
        if drawn is Ok {
            let bytes = drawn->Ok_0@;
            lemma_hex_len(bytes);
            assert((prefix@ + hex_text(bytes)).subrange(0, prefix@.len() as int) =~= prefix@);
        }
    }
    identifier_from(prefix, drawn)
}

/// The directory with the state of mutations.
pub open spec fn state_root(user_state: PathView) -> PathView {
    user_state.push("mutation-v1"@)
}

/// The path of a record's file.
pub open spec fn record_path(root: PathView, folder: Seq<char>, id: Seq<char>) -> PathView {
    root.push(folder).push(file_name(id))
}

/// The path of a record's file.
pub fn path_of_record(root: &NativePath, folder: &str, id: &str) -> (r: NativePath)
    ensures
        r@ == record_path(root@, folder@, id@),
{
    let name: String = concat(id, ".json");
    root.join(folder).join(name.as_str())
}

/// The directories that hold the state, the outermost first.
pub open spec fn state_folders(root: PathView) -> Seq<PathView> {
    seq![
        root,
        root.push("previews"@),
        root.push("receipts"@),
        root.push("transactions"@),
        root.push("locks"@),
    ]
}

/// The directories that hold the state, the outermost first.
pub fn state_directories(root: &NativePath) -> (r: Vec<NativePath>)
    ensures
        views(r@) == state_folders(root@),
{
    let mut r: Vec<NativePath> = Vec::new();
    r.push(crate::order::Key::duplicate(root));
    r.push(root.join("previews"));
    r.push(root.join("receipts"));
    r.push(root.join("transactions"));
    r.push(root.join("locks"));
    assert(views(r@) =~= state_folders(root@));
    r
}

/// The path of the lock of a workspace.
pub open spec fn lock_place(root: PathView, workspace_uri: Seq<char>) -> PathView {
    let digest = canonical_digest("lspctl-workspace-application-lock-v1"@, JsonView::Text(workspace_uri));
    root.push("locks"@).push(digest.skip("sha256:"@.len() as int) + ".lock"@)
}

/// The path of the lock of a workspace.
pub fn lock_path(root: &NativePath, workspace_uri: &str) -> (r: NativePath)
    ensures
        r@ == lock_place(root@, workspace_uri@),
{
    let digest: String = digest_canonical_value("lspctl-workspace-application-lock-v1", &text_value(workspace_uri));
    proof {
        assert(digest@.subrange(0, "sha256:"@.len() as int) =~= "sha256:"@);
    }
    let name: String = match strip_prefix(digest.as_str(), "sha256:") {
        Some(rest) => concat(rest.as_str(), ".lock"),
        None => concat("", ".lock"),
    };
    root.join("locks").join(name.as_str())
}

} // verus!
