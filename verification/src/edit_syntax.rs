//! Reading the parts of a workspace edit out of JSON.

use vstd::prelude::*;

use crate::edits::EditView;
use crate::json::{Json, JsonView, field, find_field, object1, object2, object_view, text_value};
use crate::manifest::PathView;
use crate::path::NativePath;
use crate::plan::{ProblemView, WorkspaceEditProblem, plain_problem, problem};
use crate::position::{
    PositionEncoding,
    ProtocolPosition,
    byte_len,
    lemma_position_bound,
    position_offset,
    position_to_offset,
};
use crate::text::{opt_view, same, views};

verus! {

/// The first field whose name is not in `allowed`.
pub open spec fn first_unknown(o: Seq<(Seq<char>, JsonView)>, allowed: Seq<Seq<char>>) -> Option<Seq<char>>
    decreases o.len(),
{
    if o.len() == 0 {
        None
    } else if !allowed.contains(o[0].0) {
        Some(o[0].0)
    } else {
        first_unknown(o.drop_first(), allowed)
    }
}

/// The problem of a field that does not belong in a workspace edit.
pub open spec fn unknown_field(key: Seq<char>, index: Option<u64>) -> ProblemView {
    plain_problem(
        "unknown_operation"@,
        "The Workspace Edit contains an unknown field."@,
        index,
        None,
        Some(JsonView::Object(seq![("field"@, JsonView::Text(key))])),
    )
}

/// The problem of an object with other fields than those allowed.
pub open spec fn keys_problem(o: Seq<(Seq<char>, JsonView)>, allowed: Seq<Seq<char>>, index: Option<u64>) -> Option<
    ProblemView,
> {
    match first_unknown(o, allowed) {
        Some(key) => Some(unknown_field(key, index)),
        None => None,
    }
}

/// Whether `name` is one of `names`.
pub fn among(names: &Vec<&str>, name: &str) -> (r: bool)
    ensures
        r == views(names@).contains(name@),
{
    let mut i: usize = 0;
    while i < names.len()
        invariant
            i <= names@.len(),
            forall|j: int| 0 <= j < i ==> #[trigger] names@[j]@ != name@,
        decreases names.len() - i,
    {
        if same(names[i], name) {
            assert(views(names@)[i as int] == name@);
            return true;
        }
        i += 1;
    }
    assert(!views(names@).contains(name@)) by {
        if views(names@).contains(name@) {
            let j = views(names@).index_of(name@);
            assert(views(names@)[j] == name@);
            assert(names@[j]@ == name@);
        }
    }
    false
}

/// Refuses an object with other fields than those allowed.
pub fn validate_object_keys(o: &Vec<(String, Json)>, allowed: &Vec<&str>, index: Option<u64>) -> (r: Option<
    WorkspaceEditProblem,
>)
    ensures
        opt_view(r) == keys_problem(object_view(o@), views(allowed@), index),
{
    let ghost all = object_view(o@);
    let mut i: usize = 0;
    assert(all.skip(0) =~= all);
    while i < o.len()
        invariant
            all == object_view(o@),
            i <= o@.len(),
            first_unknown(all, views(allowed@)) == first_unknown(all.skip(i as int), views(allowed@)),
        decreases o.len() - i,
    {
        assert(all.skip(i as int)[0].0 == o@[i as int].0@);
        assert(all.skip(i as int).drop_first() =~= all.skip(i + 1));
        if !among(allowed, o[i].0.as_str()) {
            return Some(
                problem(
                    "unknown_operation",
                    "The Workspace Edit contains an unknown field.",
                    index,
                    None,
                    Some(object1("field", text_value(o[i].0.as_str()))),
                ),
            );
        }
        i += 1;
    }
    None
}

/// The value of a boolean option; false where it is absent.
pub open spec fn flag(o: Seq<(Seq<char>, JsonView)>, name: Seq<char>) -> bool {
    match field(o, "options"@) {
        Some(options) => match options.get(name) {
            Some(v) => v.as_bool() == Some(true),
            None => false,
        },
        None => false,
    }
}

/// The value of a boolean option of an operation; false where it is absent.
pub fn option_bool(o: &Vec<(String, Json)>, name: &str) -> (r: bool)
    ensures
        r == flag(object_view(o@), name@),
{
    match find_field(o, "options") {
        Some(options) => match options.get(name) {
            Some(v) => match v.as_bool() {
                Some(b) => b,
                None => false,
            },
            None => false,
        },
        None => false,
    }
}

/// The first field whose value is no boolean.
pub open spec fn first_non_boolean(o: Seq<(Seq<char>, JsonView)>) -> Option<(Seq<char>, JsonView)>
    decreases o.len(),
{
    if o.len() == 0 {
        None
    } else if o[0].1 is Bool {
        first_non_boolean(o.drop_first())
    } else {
        Some(o[0])
    }
}

/// The problem of a resource operation with unknown fields or options.
pub open spec fn operation_problem(
    o: Seq<(Seq<char>, JsonView)>,
    allowed: Seq<Seq<char>>,
    allowed_options: Seq<Seq<char>>,
    index: u64,
) -> Option<ProblemView> {
    match keys_problem(o, allowed, Some(index)) {
        Some(p) => Some(p),
        None => match field(o, "options"@) {
            None => None,
            Some(JsonView::Null) => None,
            Some(JsonView::Object(options)) => match keys_problem(options, allowed_options, Some(index)) {
                Some(p) => Some(p),
                None => match first_non_boolean(options) {
                    Some(entry) => Some(
                        plain_problem(
                            "unknown_operation"@,
                            "A resource operation option must be boolean."@,
                            Some(index),
                            None,
                            Some(
                                JsonView::Object(
                                    seq![("option"@, JsonView::Text(entry.0)), ("value"@, entry.1)],
                                ),
                            ),
                        ),
                    ),
                    None => None,
                },
            },
            Some(other) => Some(
                plain_problem(
                    "unknown_operation"@,
                    "A resource operation options value must be an object."@,
                    Some(index),
                    None,
                    Some(other),
                ),
            ),
        },
    }
}

/// Refuses a resource operation with unknown fields or options.
pub fn validate_resource_operation(
    o: &Vec<(String, Json)>,
    allowed: &Vec<&str>,
    allowed_options: &Vec<&str>,
    index: u64,
) -> (r: Option<WorkspaceEditProblem>)
    ensures
        opt_view(r) == operation_problem(object_view(o@), views(allowed@), views(allowed_options@), index),
{
    match validate_object_keys(o, allowed, Some(index)) {
        Some(p) => {
            return Some(p);
        },
        None => {},
    }
    match find_field(o, "options") {
        None => None,
        Some(Json::Null) => None,
        Some(Json::Object(options)) => {
            match validate_object_keys(options, allowed_options, Some(index)) {
                Some(p) => {
                    return Some(p);
                },
                None => {},
            }
            let ghost all = object_view(options@);
            let mut i: usize = 0;
            assert(all.skip(0) =~= all);
            while i < options.len()
                invariant
                    all == object_view(options@),
                    i <= options@.len(),
                    first_non_boolean(all) == first_non_boolean(all.skip(i as int)),
                    keys_problem(object_view(o@), views(allowed@), Some(index)) is None,
                    field(object_view(o@), "options"@) == Some(JsonView::Object(all)),
                    keys_problem(all, views(allowed_options@), Some(index)) is None,
                decreases options.len() - i,
            {
                assert(all.skip(i as int)[0] == (options@[i as int].0@, options@[i as int].1@));
                assert(all.skip(i as int).drop_first() =~= all.skip(i + 1));
                if !matches!(options[i].1, Json::Bool(_)) {
                    return Some(
                        problem(
                            "unknown_operation",
                            "A resource operation option must be boolean.",
                            Some(index),
                            None,
                            Some(object2("option", text_value(options[i].0.as_str()), "value", options[i].1.copy())),
                        ),
                    );
                }
                i += 1;
            }
            None
        },
        Some(other) => Some(
            problem(
                "unknown_operation",
                "A resource operation options value must be an object.",
                Some(index),
                None,
                Some(other.copy()),
            ),
        ),
    }
}

/// The annotation that an edit or operation refers to.
pub open spec fn annotation_of(o: Seq<(Seq<char>, JsonView)>) -> Option<Seq<char>> {
    match field(o, "annotationId"@) {
        Some(v) => v.as_text(),
        None => None,
    }
}

/// The problem of a reference to an annotation that the edit does not define.
pub open spec fn missing_annotation(message: Seq<char>, index: u64, path: Option<PathView>, id: Seq<char>) -> ProblemView {
    ProblemView {
        code: "missing_annotation"@,
        message,
        operation_index: Some(index),
        path,
        annotation_id: Some(id),
        data: None,
    }
}

/// The problem of an operation whose annotation is not defined.
pub open spec fn annotation_problem(
    o: Seq<(Seq<char>, JsonView)>,
    annotations: Seq<(Seq<char>, JsonView)>,
    index: u64,
) -> Option<ProblemView> {
    match annotation_of(o) {
        Some(id) => if field(annotations, id) is Some {
            None
        } else {
            Some(missing_annotation("A resource operation references a missing change annotation."@, index, None, id))
        },
        None => None,
    }
}

fn annotation_id(o: &Vec<(String, Json)>) -> (r: Option<String>)
    ensures
        opt_view(r) == annotation_of(object_view(o@)),
{
    match find_field(o, "annotationId") {
        Some(v) => match v.as_str() {
            Some(s) => Some(s.clone()),
            None => None,
        },
        None => None,
    }
}

/// Refuses an operation whose annotation is not defined.
pub fn validate_annotation(o: &Vec<(String, Json)>, annotations: &Vec<(String, Json)>, index: u64) -> (r: Option<
    WorkspaceEditProblem,
>)
    ensures
        opt_view(r) == annotation_problem(object_view(o@), object_view(annotations@), index),
{
    match annotation_id(o) {
        Some(id) => if find_field(annotations, id.as_str()).is_some() {
            None
        } else {
            Some(
                WorkspaceEditProblem {
                    code: "missing_annotation".to_owned(),
                    message: "A resource operation references a missing change annotation.".to_owned(),
                    operation_index: Some(index),
                    path: None,
                    annotation_id: Some(id),
                    data: None,
                },
            )
        },
        None => None,
    }
}

/// A position in the protocol's form.
pub open spec fn position_of(value: Option<JsonView>) -> Option<(nat, nat)> {
    match value {
        Some(v) => match (v.get("line"@), v.get("character"@)) {
            (Some(line), Some(character)) => match (line.as_u64(), character.as_u64()) {
                (Some(l), Some(c)) => if l <= u32::MAX && c <= u32::MAX {
                    Some((l as nat, c as nat))
                } else {
                    None
                },
                _ => None,
            },
            _ => None,
        },
        None => None,
    }
}

/// Reads a position in the protocol's form.
pub fn parse_position(value: Option<&Json>) -> (r: Option<ProtocolPosition>)
    ensures
        match r {
            Some(p) => position_of(crate::text::opt_ref_view(value)) == Some((p.line as nat, p.character as nat)),
            None => position_of(crate::text::opt_ref_view(value)) is None,
        },
{
    match value {
        Some(v) => match (v.get("line"), v.get("character")) {
            (Some(line), Some(character)) => match (line.as_u64(), character.as_u64()) {
                (Some(l), Some(c)) => if l <= 0xffff_ffff && c <= 0xffff_ffff {
                    Some(ProtocolPosition { line: l as u32, character: c as u32 })
                } else {
                    None
                },
                _ => None,
            },
            _ => None,
        },
        None => None,
    }
}

/// A text edit as it was read, with its place in the edit list.
pub struct ParsedTextEdit {
    pub start_byte: usize,
    pub end_byte: usize,
    pub new_text: String,
    pub annotation_id: Option<String>,
    pub ordinal: usize,
}

/// What a [`ParsedTextEdit`] stands for.
#[verifier::ext_equal]
pub ghost struct ParsedView {
    pub edit: EditView,
    pub ordinal: nat,
}

impl View for ParsedTextEdit {
    type V = ParsedView;

    open spec fn view(&self) -> ParsedView {
        ParsedView {
            edit: EditView {
                start: self.start_byte as nat,
                end: self.end_byte as nat,
                new_text: self.new_text@,
                annotation_id: opt_view(self.annotation_id),
            },
            ordinal: self.ordinal as nat,
        }
    }
}

/// The fields that a text edit may have.
pub open spec fn edit_keys() -> Seq<Seq<char>> {
    seq!["range"@, "newText"@, "annotationId"@, "insertTextFormat"@, "snippet"@]
}

/// The range of a text edit in bytes.
pub open spec fn edit_range(
    text: Seq<char>,
    range: JsonView,
    encoding: PositionEncoding,
    index: u64,
    path: PathView,
) -> Result<(nat, nat), ProblemView> {
    let invalid = |message: Seq<char>| plain_problem("invalid_range"@, message, Some(index), Some(path), None);
    match position_of(range.get("start"@)) {
        None => Err(invalid("A text edit start position is invalid."@)),
        Some(start) => match position_of(range.get("end"@)) {
            None => Err(invalid("A text edit end position is invalid."@)),
            Some(end) => match position_offset(text, start.0, start.1, encoding) {
                None => Err(invalid("A text edit start position is outside the UTF-8 Document."@)),
                Some(from) => match position_offset(text, end.0, end.1, encoding) {
                    None => Err(invalid("A text edit end position is outside the UTF-8 Document."@)),
                    Some(to) => if to < from {
                        Err(invalid("A text edit range ends before it starts."@))
                    } else {
                        Ok((from, to))
                    },
                },
            },
        },
    }
}

/// A text edit read from JSON.
pub open spec fn parsed_edit(
    text: Seq<char>,
    edit: JsonView,
    annotations: Seq<(Seq<char>, JsonView)>,
    encoding: PositionEncoding,
    index: u64,
    path: PathView,
    ordinal: nat,
) -> Result<ParsedView, ProblemView> {
    match edit {
        JsonView::Object(o) => match keys_problem(o, edit_keys(), Some(index)) {
            Some(p) => Err(p),
            None => if field(o, "insertTextFormat"@) is Some || field(o, "snippet"@) is Some {
                Err(
                    plain_problem(
                        "snippet_edit_unsupported"@,
                        "Snippet text edits are unsupported."@,
                        Some(index),
                        Some(path),
                        None,
                    ),
                )
            } else {
                match edit.text_at("newText"@) {
                    None => Err(
                        plain_problem(
                            "snippet_edit_unsupported"@,
                            "Text edit newText must be a string."@,
                            Some(index),
                            Some(path),
                            None,
                        ),
                    ),
                    Some(new_text) => if annotation_of(o) is Some && field(annotations, annotation_of(o)->0) is None {
                        Err(
                            missing_annotation(
                                "A text edit references a missing change annotation."@,
                                index,
                                Some(path),
                                annotation_of(o)->0,
                            ),
                        )
                    } else {
                        match field(o, "range"@) {
                            Some(JsonView::Object(range)) => match edit_range(
                                text,
                                JsonView::Object(range),
                                encoding,
                                index,
                                path,
                            ) {
                                Err(p) => Err(p),
                                Ok((start, end)) => Ok(
                                    ParsedView {
                                        edit: EditView { start, end, new_text, annotation_id: annotation_of(o) },
                                        ordinal,
                                    },
                                ),
                            },
                            _ => Err(
                                plain_problem(
                                    "invalid_range"@,
                                    "A text edit requires a range."@,
                                    Some(index),
                                    Some(path),
                                    None,
                                ),
                            ),
                        }
                    },
                }
            },
        },
        _ => Err(
            plain_problem("unknown_operation"@, "A text edit must be an object."@, Some(index), Some(path), None),
        ),
    }
}

fn invalid_range(message: &str, index: u64, path: &NativePath) -> (r: WorkspaceEditProblem)
    ensures
        r@ == plain_problem("invalid_range"@, message@, Some(index), Some(path@), None),
{
    problem("invalid_range", message, Some(index), Some(path), None)
}

fn read_range(text: &str, range: &Json, encoding: PositionEncoding, index: u64, path: &NativePath) -> (r: Result<
    (usize, usize),
    WorkspaceEditProblem,
>)
    ensures
        match r {
            Ok((start, end)) => edit_range(text@, range@, encoding, index, path@) == Ok::<(nat, nat), ProblemView>(
                (start as nat, end as nat),
            ),
            Err(p) => edit_range(text@, range@, encoding, index, path@) == Err::<(nat, nat), ProblemView>(p@),
        },
{
    let start: ProtocolPosition = match parse_position(range.get("start")) {
        Some(p) => p,
        None => {
            return Err(invalid_range("A text edit start position is invalid.", index, path));
        },
    };
    let end: ProtocolPosition = match parse_position(range.get("end")) {
        Some(p) => p,
        None => {
            return Err(invalid_range("A text edit end position is invalid.", index, path));
        },
    };
    let from: usize = match position_to_offset(text, start, encoding) {
        Some(o) => o,
        None => {
            return Err(invalid_range("A text edit start position is outside the UTF-8 Document.", index, path));
        },
    };
    let to: usize = match position_to_offset(text, end, encoding) {
        Some(o) => o,
        None => {
            return Err(invalid_range("A text edit end position is outside the UTF-8 Document.", index, path));
        },
    };
    if to < from {
        return Err(invalid_range("A text edit range ends before it starts.", index, path));
    }
    Ok((from, to))
}

/// Reads a text edit from JSON.
pub fn parse_text_edit(
    text: &str,
    edit: &Json,
    annotations: &Vec<(String, Json)>,
    encoding: PositionEncoding,
    index: u64,
    path: &NativePath,
    ordinal: usize,
) -> (r: Result<ParsedTextEdit, WorkspaceEditProblem>)
    ensures
        match r {
            Ok(parsed) => parsed_edit(text@, edit@, object_view(annotations@), encoding, index, path@, ordinal as nat)
                == Ok::<ParsedView, ProblemView>(parsed@),
            Err(p) => parsed_edit(text@, edit@, object_view(annotations@), encoding, index, path@, ordinal as nat)
                == Err::<ParsedView, ProblemView>(p@),
        },
{
    let o: &Vec<(String, Json)> = match edit {
        Json::Object(o) => o,
        _ => {
            return Err(
                problem("unknown_operation", "A text edit must be an object.", Some(index), Some(path), None),
            );
        },
    };
    let allowed: Vec<&str> = vec!["range", "newText", "annotationId", "insertTextFormat", "snippet"];
    assert(views(allowed@) =~= edit_keys());
    match validate_object_keys(o, &allowed, Some(index)) {
        Some(p) => {
            return Err(p);
        },
        None => {},
    }
    if find_field(o, "insertTextFormat").is_some() || find_field(o, "snippet").is_some() {
        return Err(
            problem(
                "snippet_edit_unsupported",
                "Snippet text edits are unsupported.",
                Some(index),
                Some(path),
                None,
            ),
        );
    }
    let new_text: String = match edit.text_at("newText") {
        Some(s) => s.clone(),
        None => {
            return Err(
                problem(
                    "snippet_edit_unsupported",
                    "Text edit newText must be a string.",
                    Some(index),
                    Some(path),
                    None,
                ),
            );
        },
    };
    let annotation: Option<String> = annotation_id(o);
    match &annotation {
        Some(id) => {
            if find_field(annotations, id.as_str()).is_none() {
                return Err(
                    WorkspaceEditProblem {
                        code: "missing_annotation".to_owned(),
                        message: "A text edit references a missing change annotation.".to_owned(),
                        operation_index: Some(index),
                        path: Some(crate::order::Key::duplicate(path)),
                        annotation_id: Some(id.clone()),
                        data: None,
                    },
                );
            }
        },
        None => {},
    }
    let range: &Json = match find_field(o, "range") {
        Some(range) => match range {
            Json::Object(_) => range,
            _ => {
                return Err(
                    problem("invalid_range", "A text edit requires a range.", Some(index), Some(path), None),
                );
            },
        },
        None => {
            return Err(problem("invalid_range", "A text edit requires a range.", Some(index), Some(path), None));
        },
    };
    match read_range(text, range, encoding, index, path) {
        Ok((start_byte, end_byte)) => Ok(
            ParsedTextEdit { start_byte, end_byte, new_text, annotation_id: annotation, ordinal },
        ),
        Err(p) => Err(p),
    }
}

/// An edit that was read lies in its text.
pub proof fn lemma_parsed_edit_in_text(
    text: Seq<char>,
    edit: JsonView,
    annotations: Seq<(Seq<char>, JsonView)>,
    encoding: PositionEncoding,
    index: u64,
    path: PathView,
    ordinal: nat,
)
    ensures
        parsed_edit(text, edit, annotations, encoding, index, path, ordinal) matches Ok(p) ==> p.edit.start
            <= p.edit.end <= byte_len(text) && p.ordinal == ordinal,
{
    if let JsonView::Object(o) = edit {
        if let Some(range) = field(o, "range"@) {
            if let Some(end) = position_of(range.get("end"@)) {
                lemma_position_bound(text, end.0, end.1, encoding);
            }
        }
    }
}

} // verus!
