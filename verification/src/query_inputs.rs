//! What a Query takes from the command line and from the files that it names.

use vstd::prelude::*;

use crate::capabilities::{compact, compact_object};
use crate::documents::{DocumentSnapshot, DocumentView};
use crate::failure::{ContractFailure, FailureView, failed, failure, result_view};
use crate::invocation::{InvocationView, ParsedInvocation};
use crate::json::{
    Json,
    JsonSyntaxError,
    JsonView,
    array_view,
    object1,
    object2,
    object_view,
    parse_json,
    parsed_json,
    push_field,
    text_value,
};
use crate::position::{
    PositionEncoding,
    ProtocolPosition,
    resolve_source_position,
    resolved_position,
};
use crate::text::{concat3, opt_ref_view, opt_view, parse_u64, parsed_unsigned, same, views};
use crate::timing::{os_code_json, os_code_value};

verus! {

/// Why a Query is not composed.
pub enum QueryStop {
    Failed(ContractFailure),
    /// The document has no such place.
    Outside { line: u32, column: u32 },
    /// The file at this path, or the standard input for `-`, is to be read first.
    Input(String),
}

/// What a [`QueryStop`] stands for.
pub ghost enum StopView {
    Failed(FailureView),
    Outside { line: u32, column: u32 },
    Input(Seq<char>),
}

impl View for QueryStop {
    type V = StopView;

    open spec fn view(&self) -> StopView {
        match self {
            QueryStop::Failed(f) => StopView::Failed(f@),
            QueryStop::Outside { line, column } => StopView::Outside { line: *line, column: *column },
            QueryStop::Input(path) => StopView::Input(path@),
        }
    }
}

/// What was read at a path: its text, or the code of the error.
pub struct InputRead {
    pub path: String,
    pub content: Result<String, Option<i32>>,
}

/// What an [`InputRead`] stands for.
#[verifier::ext_equal]
pub ghost struct InputView {
    pub path: Seq<char>,
    pub content: Result<Seq<char>, Option<i32>>,
}

impl View for InputRead {
    type V = InputView;

    open spec fn view(&self) -> InputView {
        InputView {
            path: self.path@,
            content: match self.content {
                Ok(text) => Ok(text@),
                Err(code) => Err(code),
            },
        }
    }
}

/// What was read at a path, where it was read.
pub open spec fn content_at(inputs: Seq<InputView>, path: Seq<char>) -> Option<Result<Seq<char>, Option<i32>>>
    decreases inputs.len(),
{
    if inputs.len() == 0 {
        None
    } else if inputs[0].path == path {
        Some(inputs[0].content)
    } else {
        content_at(inputs.drop_first(), path)
    }
}

pub(crate) fn find_content<'a>(inputs: &'a Vec<InputRead>, path: &str) -> (r: Option<&'a InputRead>)
    ensures
        match r {
            Some(input) => content_at(views(inputs@), path@) == Some(input@.content),
            None => content_at(views(inputs@), path@) is None,
        },
{
    let ghost all = views(inputs@);
    let mut i: usize = 0;
    assert(all.skip(0) =~= all);
    while i < inputs.len()
        invariant
            i <= inputs@.len(),
            all == views(inputs@),
            content_at(all, path@) == content_at(all.skip(i as int), path@),
        decreases inputs.len() - i,
    {
        proof {
            assert(all.skip(i as int)[0] == inputs@[i as int]@);
            assert(all.skip(i as int).drop_first() =~= all.skip(i + 1));
        }
        if same(inputs[i].path.as_str(), path) {
            return Some(&inputs[i]);
        }
        i += 1;
    }
    None
}

/// The failure of a command line that does not hold.
pub open spec fn arguments_failed(message: Seq<char>) -> FailureView {
    failed(
        2,
        "input"@,
        "invalid_arguments"@,
        message,
        "parse_cli"@,
        "not_applicable"@,
        "never"@,
        JsonView::Object(seq![("problems"@, JsonView::Array(seq![]))]),
    )
}

/// The failure of a command line that does not hold.
pub fn input_failure(message: &str) -> (r: ContractFailure)
    ensures
        r@ == arguments_failed(message@),
{
    let none: Vec<Json> = Vec::new();
    assert(array_view(none@) =~= seq![]);
    failure(
        2,
        "input",
        "invalid_arguments",
        message,
        "parse_cli",
        "not_applicable",
        "never",
        object1("problems", Json::Array(none)),
    )
}

/// The failure of a command that is no Query.
pub fn unknown_query() -> (r: ContractFailure)
    ensures
        r@ == arguments_failed("The command is not a Query."@),
{
    input_failure("The command is not a Query.")
}

/// The number that an option gives.
pub open spec fn number_option(inv: InvocationView, flag: Seq<char>) -> Result<Option<nat>, FailureView> {
    match inv.value(flag) {
        None => Ok(None),
        Some(value) => match parsed_unsigned(value, usize::MAX as nat) {
            Some(n) => Ok(Some(n)),
            None => Err(arguments_failed("A numeric option is invalid."@)),
        },
    }
}

/// The number that an option gives, where it is given.
pub fn optional_usize(invocation: &ParsedInvocation, flag: &str) -> (r: Result<Option<usize>, ContractFailure>)
    ensures
        match r {
            Ok(None) => number_option(invocation@, flag@) == Ok::<Option<nat>, FailureView>(None),
            Ok(Some(n)) => number_option(invocation@, flag@) == Ok::<Option<nat>, FailureView>(Some(n as nat)),
            Err(f) => number_option(invocation@, flag@) == Err::<Option<nat>, FailureView>(f@),
        },
{
    match invocation.option_string(flag) {
        None => Ok(None),
        Some(value) => match parse_u64(value.as_str()) {
            Some(n) => if n <= usize::MAX as u64 {
                Ok(Some(n as usize))
            } else {
                Err(input_failure("A numeric option is invalid."))
            },
            None => Err(input_failure("A numeric option is invalid.")),
        },
    }
}

/// The number that a position needs.
pub open spec fn needed_number(inv: InvocationView, flag: Seq<char>) -> Result<nat, FailureView> {
    match number_option(inv, flag) {
        Ok(Some(n)) => Ok(n),
        Ok(None) => Err(arguments_failed("A required position is absent."@)),
        Err(f) => Err(f),
    }
}

/// The number that a position needs.
pub fn required_usize(invocation: &ParsedInvocation, flag: &str) -> (r: Result<usize, ContractFailure>)
    ensures
        match r {
            Ok(n) => needed_number(invocation@, flag@) == Ok::<nat, FailureView>(n as nat),
            Err(f) => needed_number(invocation@, flag@) == Err::<nat, FailureView>(f@),
        },
{
    match optional_usize(invocation, flag) {
        Ok(Some(n)) => Ok(n),
        Ok(None) => Err(input_failure("A required position is absent.")),
        Err(f) => Err(f),
    }
}

/// The text that an option gives.
pub open spec fn needed_text(inv: InvocationView, flag: Seq<char>) -> Result<Seq<char>, FailureView> {
    match inv.value(flag) {
        Some(value) => Ok(value),
        None => Err(arguments_failed("A required option is absent."@)),
    }
}

/// The text that an option gives.
pub fn required_string(invocation: &ParsedInvocation, flag: &str) -> (r: Result<String, ContractFailure>)
    ensures
        result_view(r) == needed_text(invocation@, flag@),
{
    match invocation.option_string(flag) {
        Some(value) => Ok(value),
        None => Err(input_failure("A required option is absent.")),
    }
}

/// The truth value that an option gives.
pub open spec fn needed_bool(inv: InvocationView, flag: Seq<char>) -> Result<bool, FailureView> {
    match needed_text(inv, flag) {
        Err(f) => Err(f),
        Ok(value) => if value == "true"@ {
            Ok(true)
        } else if value == "false"@ {
            Ok(false)
        } else {
            Err(arguments_failed("A Boolean option is invalid."@))
        },
    }
}

/// The truth value that an option gives.
pub fn required_bool(invocation: &ParsedInvocation, flag: &str) -> (r: Result<bool, ContractFailure>)
    ensures
        match r {
            Ok(b) => needed_bool(invocation@, flag@) == Ok::<bool, FailureView>(b),
            Err(f) => needed_bool(invocation@, flag@) == Err::<bool, FailureView>(f@),
        },
{
    match required_string(invocation, flag) {
        Err(f) => Err(f),
        Ok(value) => if same(value.as_str(), "true") {
            Ok(true)
        } else if same(value.as_str(), "false") {
            Ok(false)
        } else {
            Err(input_failure("A Boolean option is invalid."))
        },
    }
}

/// The document that a Query needs.
pub open spec fn needed_document(document: Option<DocumentView>) -> Result<DocumentView, FailureView> {
    match document {
        Some(d) => Ok(d),
        None => Err(arguments_failed("A synchronized Document is required."@)),
    }
}

/// The document that a Query needs.
pub fn required_document<'a>(document: Option<&'a DocumentSnapshot>) -> (r: Result<&'a DocumentSnapshot, ContractFailure>)
    ensures
        match r {
            Ok(d) => needed_document(opt_ref_view(document)) == Ok::<DocumentView, FailureView>(d@),
            Err(f) => needed_document(opt_ref_view(document)) == Err::<DocumentView, FailureView>(f@),
        },
{
    match document {
        Some(d) => Ok(d),
        None => Err(input_failure("A synchronized Document is required.")),
    }
}

/// Which part of a list is reported.
#[derive(Clone, Copy, Debug, PartialEq, Eq, Structural)]
pub struct Page {
    pub offset: usize,
    pub limit: usize,
}

/// The number, or another.
pub open spec fn or_number(n: Option<nat>, other: nat) -> nat {
    match n {
        Some(n) => n,
        None => other,
    }
}

/// The page that a command line asks for, as its offset and its limit.
pub open spec fn asked_page(inv: InvocationView) -> Result<(nat, nat), FailureView> {
    match (number_option(inv, "--offset"@), number_option(inv, "--limit"@)) {
        (Err(f), _) => Err(f),
        (_, Err(f)) => Err(f),
        (Ok(offset), Ok(limit)) => if 1 <= or_number(limit, 100) <= 1000 {
            Ok((or_number(offset, 0), or_number(limit, 100)))
        } else {
            Err(arguments_failed("The page limit must be between 1 and 1000."@))
        },
    }
}

/// The page that a command line asks for.
pub fn page(invocation: &ParsedInvocation) -> (r: Result<Page, ContractFailure>)
    ensures
        match r {
            Ok(p) => asked_page(invocation@) == Ok::<(nat, nat), FailureView>((p.offset as nat, p.limit as nat)),
            Err(f) => asked_page(invocation@) == Err::<(nat, nat), FailureView>(f@),
        },
{
    let offset: usize = match optional_usize(invocation, "--offset") {
        Ok(Some(n)) => n,
        Ok(None) => 0,
        Err(f) => {
            return Err(f);
        },
    };
    let limit: usize = match optional_usize(invocation, "--limit") {
        Ok(Some(n)) => n,
        Ok(None) => 100,
        Err(f) => {
            return Err(f);
        },
    };
    if limit < 1 || limit > 1000 {
        return Err(input_failure("The page limit must be between 1 and 1000."));
    }
    Ok(Page { offset, limit })
}

/// The place in a document that two options give.
pub open spec fn asked_position(
    inv: InvocationView,
    text: Seq<char>,
    encoding: PositionEncoding,
    line: Seq<char>,
    column: Seq<char>,
) -> Result<ProtocolPosition, StopView> {
    match needed_number(inv, line) {
        Err(f) => Err(StopView::Failed(f)),
        Ok(l) => if l > u32::MAX {
            Err(StopView::Failed(arguments_failed("A source line is too large."@)))
        } else {
            match needed_number(inv, column) {
                Err(f) => Err(StopView::Failed(f)),
                Ok(c) => if c > u32::MAX {
                    Err(StopView::Failed(arguments_failed("A source column is too large."@)))
                } else {
                    match resolved_position(text, l as u32, c as u32, encoding) {
                        Some(p) => Ok(p),
                        None => Err(StopView::Outside { line: l as u32, column: c as u32 }),
                    }
                },
            }
        },
    }
}

/// The place in a document that two options give.
pub fn source_position(
    invocation: &ParsedInvocation,
    document: &DocumentSnapshot,
    encoding: PositionEncoding,
    line: &str,
    column: &str,
) -> (r: Result<ProtocolPosition, QueryStop>)
    ensures
        match r {
            Ok(p) => asked_position(invocation@, document@.text, encoding, line@, column@) == Ok::<
                ProtocolPosition,
                StopView,
            >(p),
            Err(s) => asked_position(invocation@, document@.text, encoding, line@, column@) == Err::<
                ProtocolPosition,
                StopView,
            >(s@),
        },
{
    let l: usize = match required_usize(invocation, line) {
        Ok(n) => n,
        Err(f) => {
            return Err(QueryStop::Failed(f));
        },
    };
    if l as u64 > 0xffff_ffff {
        return Err(QueryStop::Failed(input_failure("A source line is too large.")));
    }
    let c: usize = match required_usize(invocation, column) {
        Ok(n) => n,
        Err(f) => {
            return Err(QueryStop::Failed(f));
        },
    };
    if c as u64 > 0xffff_ffff {
        return Err(QueryStop::Failed(input_failure("A source column is too large.")));
    }
    match resolve_source_position(document.text.as_str(), l as u32, c as u32, encoding) {
        Some(p) => Ok(p),
        None => Err(QueryStop::Outside { line: l as u32, column: c as u32 }),
    }
}

/// A position in JSON.
pub open spec fn position_json(p: ProtocolPosition) -> JsonView {
    JsonView::Object(
        seq![("character"@, JsonView::Int(p.character as int)), ("line"@, JsonView::Int(p.line as int))],
    )
}

fn position_value(p: ProtocolPosition) -> (r: Json)
    ensures
        r@ == position_json(p),
{
    object2("character", Json::Unsigned(p.character as u64), "line", Json::Unsigned(p.line as u64))
}

/// The place that a Query asks about, in JSON.
pub open spec fn asked_place(inv: InvocationView, text: Seq<char>, encoding: PositionEncoding) -> Result<
    JsonView,
    StopView,
> {
    match asked_position(inv, text, encoding, "--line"@, "--column"@) {
        Ok(p) => Ok(position_json(p)),
        Err(s) => Err(s),
    }
}

/// The place that a Query asks about, in JSON.
pub fn position_params(invocation: &ParsedInvocation, document: &DocumentSnapshot, encoding: PositionEncoding) -> (r:
    Result<Json, QueryStop>)
    ensures
        result_view(r) == asked_place(invocation@, document@.text, encoding),
{
    match source_position(invocation, document, encoding, "--line", "--column") {
        Ok(p) => Ok(position_value(p)),
        Err(s) => Err(s),
    }
}

/// Whether one position stands before another.
pub open spec fn before(a: ProtocolPosition, b: ProtocolPosition) -> bool {
    a.line < b.line || a.line == b.line && a.character < b.character
}

/// The range that a Query asks about, in JSON. It does not end before it starts.
pub open spec fn asked_range(inv: InvocationView, text: Seq<char>, encoding: PositionEncoding) -> Result<
    JsonView,
    StopView,
> {
    match asked_position(inv, text, encoding, "--start-line"@, "--start-column"@) {
        Err(s) => Err(s),
        Ok(start) => match asked_position(inv, text, encoding, "--end-line"@, "--end-column"@) {
            Err(s) => Err(s),
            Ok(end) => if before(end, start) {
                Err(StopView::Failed(arguments_failed("The code-action range ends before it starts."@)))
            } else {
                Ok(JsonView::Object(seq![("end"@, position_json(end)), ("start"@, position_json(start))]))
            },
        },
    }
}

/// The range that a Query asks about, in JSON.
pub fn range_params(invocation: &ParsedInvocation, document: &DocumentSnapshot, encoding: PositionEncoding) -> (r:
    Result<Json, QueryStop>)
    ensures
        result_view(r) == asked_range(invocation@, document@.text, encoding),
{
    let start: ProtocolPosition = match source_position(
        invocation,
        document,
        encoding,
        "--start-line",
        "--start-column",
    ) {
        Ok(p) => p,
        Err(s) => {
            return Err(s);
        },
    };
    let end: ProtocolPosition = match source_position(invocation, document, encoding, "--end-line", "--end-column") {
        Ok(p) => p,
        Err(s) => {
            return Err(s);
        },
    };
    if end.line < start.line || end.line == start.line && end.character < start.character {
        return Err(QueryStop::Failed(input_failure("The code-action range ends before it starts.")));
    }
    Ok(object2("end", position_value(end), "start", position_value(start)))
}

/// A text, or null.
pub open spec fn text_or_null(s: Option<Seq<char>>) -> JsonView {
    match s {
        Some(s) => JsonView::Text(s),
        None => JsonView::Null,
    }
}

fn text_or_null_value(s: Option<&str>) -> (r: Json)
    ensures
        r@ == text_or_null(opt_ref_view(s)),
{
    match s {
        Some(s) => text_value(s),
        None => Json::Null,
    }
}

/// The failure of reading JSON from a source.
pub open spec fn unread_failed(source: Seq<char>, path: Option<Seq<char>>, code: Option<i32>) -> FailureView {
    failed(
        2,
        "input"@,
        "input_read_failed"@,
        "A JSON input source could not be read."@,
        "read_input"@,
        "not_applicable"@,
        "after_change"@,
        JsonView::Object(
            compact(
                seq![
                    ("osCode"@, os_code_json(code)),
                    ("path"@, text_or_null(path)),
                    ("source"@, JsonView::Text(source)),
                ],
            ),
        ),
    )
}

/// The failure of reading JSON from a source.
pub fn input_read_failure(source: &str, path: Option<&str>, code: Option<i32>) -> (r: ContractFailure)
    ensures
        r@ == unread_failed(source@, opt_ref_view(path), code),
{
    let mut o: Vec<(String, Json)> = Vec::new();
    assert(object_view(o@) =~= seq![]);
    push_field(&mut o, "osCode", os_code_value(code));
    push_field(&mut o, "path", text_or_null_value(path));
    push_field(&mut o, "source", text_value(source));
    assert(object_view(o@) =~= seq![
        ("osCode"@, os_code_json(code)),
        ("path"@, text_or_null(opt_ref_view(path))),
        ("source"@, JsonView::Text(source@)),
    ]);
    failure(
        2,
        "input",
        "input_read_failed",
        "A JSON input source could not be read.",
        "read_input",
        "not_applicable",
        "after_change",
        compact_object(o),
    )
}

/// The failure of a source that is no JSON.
pub open spec fn malformed_failed(source: Seq<char>, path: Option<Seq<char>>, error: JsonSyntaxError) -> FailureView {
    failed(
        2,
        "input"@,
        "invalid_json_input"@,
        "A JSON input source is invalid."@,
        "read_input"@,
        "not_applicable"@,
        "never"@,
        JsonView::Object(
            compact(
                seq![
                    ("column"@, JsonView::Int(error.column as int)),
                    ("line"@, JsonView::Int(error.line as int)),
                    ("path"@, text_or_null(path)),
                    ("source"@, JsonView::Text(source)),
                ],
            ),
        ),
    )
}

/// The failure of a source that is no JSON.
pub fn invalid_json_input(source: &str, path: Option<&str>, error: JsonSyntaxError) -> (r: ContractFailure)
    ensures
        r@ == malformed_failed(source@, opt_ref_view(path), error),
{
    let mut o: Vec<(String, Json)> = Vec::new();
    assert(object_view(o@) =~= seq![]);
    push_field(&mut o, "column", Json::Unsigned(error.column as u64));
    push_field(&mut o, "line", Json::Unsigned(error.line as u64));
    push_field(&mut o, "path", text_or_null_value(path));
    push_field(&mut o, "source", text_value(source));
    assert(object_view(o@) =~= seq![
        ("column"@, JsonView::Int(error.column as int)),
        ("line"@, JsonView::Int(error.line as int)),
        ("path"@, text_or_null(opt_ref_view(path))),
        ("source"@, JsonView::Text(source@)),
    ]);
    failure(
        2,
        "input",
        "invalid_json_input",
        "A JSON input source is invalid.",
        "read_input",
        "not_applicable",
        "never",
        compact_object(o),
    )
}

/// What a source comes to that was read as JSON.
pub open spec fn read_json(
    parsed: Result<JsonView, JsonSyntaxError>,
    source: Seq<char>,
    path: Option<Seq<char>>,
) -> Result<JsonView, FailureView> {
    match parsed {
        Ok(value) => Ok(value),
        Err(error) => Err(malformed_failed(source, path, error)),
    }
}

/// What a source comes to that was read as JSON.
pub fn json_from_source(parsed: Result<Json, JsonSyntaxError>, source: &str, path: Option<&str>) -> (r: Result<
    Json,
    ContractFailure,
>)
    ensures
        result_view(r) == read_json(
            match parsed {
                Ok(value) => Ok(value@),
                Err(error) => Err(error),
            },
            source@,
            opt_ref_view(path),
        ),
{
    match parsed {
        Ok(value) => Ok(value),
        Err(error) => Err(invalid_json_input(source, path, error)),
    }
}

/// The JSON that one of two options gives: as it stands, or in a file.
pub open spec fn json_option(
    inv: InvocationView,
    json_flag: Seq<char>,
    file_flag: Seq<char>,
    inputs: Seq<InputView>,
) -> Result<Option<JsonView>, StopView> {
    match inv.value(json_flag) {
        Some(text) => match read_json(parsed_json(text), json_flag, None) {
            Ok(value) => Ok(Some(value)),
            Err(f) => Err(StopView::Failed(f)),
        },
        None => match inv.value(file_flag) {
            None => Ok(None),
            Some(path) => match content_at(inputs, path) {
                None => Err(StopView::Input(path)),
                Some(Err(code)) => Err(
                    StopView::Failed(
                        unread_failed(
                            file_flag,
                            if path == "-"@ {
                                None
                            } else {
                                Some(path)
                            },
                            code,
                        ),
                    ),
                ),
                Some(Ok(text)) => match read_json(parsed_json(text), file_flag, Some(path)) {
                    Ok(value) => Ok(Some(value)),
                    Err(f) => Err(StopView::Failed(f)),
                },
            },
        },
    }
}

/// The view of a result that may be empty.
pub open spec fn option_result(r: Result<Option<Json>, QueryStop>) -> Result<Option<JsonView>, StopView> {
    match r {
        Ok(value) => Ok(opt_view(value)),
        Err(s) => Err(s@),
    }
}

/// The JSON that one of two options gives, where one is given.
pub fn optional_json_input(invocation: &ParsedInvocation, json_flag: &str, file_flag: &str, inputs: &Vec<InputRead>) -> (r:
    Result<Option<Json>, QueryStop>)
    ensures
        option_result(r) == json_option(invocation@, json_flag@, file_flag@, views(inputs@)),
{
    if let Some(text) = invocation.option_string(json_flag) {
        return match json_from_source(parse_json(text.as_str()), json_flag, None) {
            Ok(value) => Ok(Some(value)),
            Err(f) => Err(QueryStop::Failed(f)),
        };
    }
    let path: String = match invocation.option_string(file_flag) {
        Some(path) => path,
        None => {
            return Ok(None);
        },
    };
    match find_content(inputs, path.as_str()) {
        None => Err(QueryStop::Input(path)),
        Some(input) => match &input.content {
            Err(code) => {
                let place: Option<&str> = if same(path.as_str(), "-") {
                    None
                } else {
                    Some(path.as_str())
                };
                Err(QueryStop::Failed(input_read_failure(file_flag, place, *code)))
            },
            Ok(text) => match json_from_source(parse_json(text.as_str()), file_flag, Some(path.as_str())) {
                Ok(value) => Ok(Some(value)),
                Err(f) => Err(QueryStop::Failed(f)),
            },
        },
    }
}

/// The JSON that has to be given.
pub open spec fn needed_json(
    inv: InvocationView,
    json_flag: Seq<char>,
    file_flag: Seq<char>,
    inputs: Seq<InputView>,
) -> Result<JsonView, StopView> {
    match json_option(inv, json_flag, file_flag, inputs) {
        Ok(Some(value)) => Ok(value),
        Ok(None) => Err(StopView::Failed(arguments_failed("A JSON input source is required."@))),
        Err(s) => Err(s),
    }
}

/// The JSON that has to be given.
pub fn json_input(invocation: &ParsedInvocation, json_flag: &str, file_flag: &str, inputs: &Vec<InputRead>) -> (r:
    Result<Json, QueryStop>)
    ensures
        result_view(r) == needed_json(invocation@, json_flag@, file_flag@, views(inputs@)),
{
    match optional_json_input(invocation, json_flag, file_flag, inputs) {
        Ok(Some(value)) => Ok(value),
        Ok(None) => Err(QueryStop::Failed(input_failure("A JSON input source is required."))),
        Err(s) => Err(s),
    }
}

/// A value that has to be an object.
pub open spec fn as_object(value: JsonView, expected: Seq<char>) -> Result<JsonView, FailureView> {
    if value is Object {
        Ok(value)
    } else {
        Err(arguments_failed("The JSON input must be a "@ + expected + " object."@))
    }
}

/// A value that has to be an object.
pub fn expect_object(value: Json, expected: &str) -> (r: Result<Json, ContractFailure>)
    ensures
        result_view(r) == as_object(value@, expected@),
{
    match &value {
        Json::Object(_) => Ok(value),
        _ => Err(input_failure(concat3("The JSON input must be a ", expected, " object.").as_str())),
    }
}

/// The object that has to be given.
pub open spec fn needed_object(
    inv: InvocationView,
    json_flag: Seq<char>,
    file_flag: Seq<char>,
    expected: Seq<char>,
    inputs: Seq<InputView>,
) -> Result<JsonView, StopView> {
    match needed_json(inv, json_flag, file_flag, inputs) {
        Err(s) => Err(s),
        Ok(value) => match as_object(value, expected) {
            Ok(value) => Ok(value),
            Err(f) => Err(StopView::Failed(f)),
        },
    }
}

/// The object that has to be given.
pub fn object_json_input(
    invocation: &ParsedInvocation,
    json_flag: &str,
    file_flag: &str,
    expected: &str,
    inputs: &Vec<InputRead>,
) -> (r: Result<Json, QueryStop>)
    ensures
        result_view(r) == needed_object(invocation@, json_flag@, file_flag@, expected@, views(inputs@)),
{
    match json_input(invocation, json_flag, file_flag, inputs) {
        Err(s) => Err(s),
        Ok(value) => match expect_object(value, expected) {
            Ok(value) => Ok(value),
            Err(f) => Err(QueryStop::Failed(f)),
        },
    }
}

/// A value that has to be an array.
pub open spec fn as_array(value: JsonView, expected: Seq<char>) -> Result<JsonView, FailureView> {
    if value is Array {
        Ok(value)
    } else {
        Err(arguments_failed("The JSON input must be an array of "@ + expected + "."@))
    }
}

/// A value that has to be an array.
pub fn expect_array(value: Json, expected: &str) -> (r: Result<Json, ContractFailure>)
    ensures
        result_view(r) == as_array(value@, expected@),
{
    match &value {
        Json::Array(_) => Ok(value),
        _ => Err(input_failure(concat3("The JSON input must be an array of ", expected, ".").as_str())),
    }
}

/// The array that is given, or an empty one.
pub open spec fn array_option(
    inv: InvocationView,
    json_flag: Seq<char>,
    file_flag: Seq<char>,
    expected: Seq<char>,
    inputs: Seq<InputView>,
) -> Result<JsonView, StopView> {
    match json_option(inv, json_flag, file_flag, inputs) {
        Err(s) => Err(s),
        Ok(None) => Ok(JsonView::Array(seq![])),
        Ok(Some(value)) => match as_array(value, expected) {
            Ok(value) => Ok(value),
            Err(f) => Err(StopView::Failed(f)),
        },
    }
}

/// The array that is given, or an empty one.
pub fn optional_array_json_input(
    invocation: &ParsedInvocation,
    json_flag: &str,
    file_flag: &str,
    expected: &str,
    inputs: &Vec<InputRead>,
) -> (r: Result<Json, QueryStop>)
    ensures
        result_view(r) == array_option(invocation@, json_flag@, file_flag@, expected@, views(inputs@)),
{
    match optional_json_input(invocation, json_flag, file_flag, inputs) {
        Err(s) => Err(s),
        Ok(None) => {
            let none: Vec<Json> = Vec::new();
            assert(array_view(none@) =~= seq![]);
            Ok(Json::Array(none))
        },
        Ok(Some(value)) => match expect_array(value, expected) {
            Ok(value) => Ok(value),
            Err(f) => Err(QueryStop::Failed(f)),
        },
    }
}

/// A page that is accepted asks for at least one item, and for no more than a
/// thousand.
pub proof fn law_pages_are_bounded(inv: InvocationView)
    ensures
        asked_page(inv) matches Ok((offset, limit)) ==> 1 <= limit <= 1000,
{
}

} // verus!
