//! Checks of what is declared in configuration files.

use vstd::prelude::*;

use crate::configuration::Toml;
use crate::failure::{ContractFailure, FailureView, failed, failure};
use crate::json::{
    Json,
    JsonView,
    array_view,
    object1,
    object2,
    object3,
    object_view,
    set_field,
    text_value,
    with_field,
};
use crate::path::{NativePath, path_text};
use crate::text::{chars_of, concat, contains_string, opt_view, parse_u64, same, strip_suffix, views};
use crate::timing::count_before;

verus! {

/// One problem of a configuration file.
pub open spec fn config_problem(code: Seq<char>, message: Seq<char>, field: Option<Seq<char>>) -> JsonView {
    JsonView::Object(
        match field {
            Some(f) => seq![
                ("code"@, JsonView::Text(code)),
                ("fieldPath"@, JsonView::Text(f)),
                ("message"@, JsonView::Text(message)),
            ],
            None => seq![("code"@, JsonView::Text(code)), ("message"@, JsonView::Text(message))],
        },
    )
}

/// The failure of loading a configuration with one problem.
pub open spec fn config_failed(path: Seq<char>, problem: JsonView) -> FailureView {
    failed(
        3,
        "blocked"@,
        "invalid_configuration"@,
        "Configuration is invalid."@,
        "load_configuration"@,
        "not_sent"@,
        "after_change"@,
        JsonView::Object(
            seq![
                ("path"@, JsonView::Text(path)),
                ("problems"@, JsonView::Array(seq![problem])),
            ],
        ),
    )
}

fn config_failure_of(path: &str, problem: Json) -> (r: ContractFailure)
    ensures
        r@ == config_failed(path@, problem@),
{
    let mut problems: Vec<Json> = Vec::new();
    problems.push(problem);
    assert(array_view(problems@) =~= seq![problem@]);
    failure(
        3,
        "blocked",
        "invalid_configuration",
        "Configuration is invalid.",
        "load_configuration",
        "not_sent",
        "after_change",
        object2("path", text_value(path), "problems", Json::Array(problems)),
    )
}

/// The failure of loading a configuration.
pub fn configuration_failure(path: &NativePath, problem_code: &str, message: &str, field_path: Option<&str>) -> (r:
    ContractFailure)
    ensures
        r@ == config_failed(
            path_text(path@),
            config_problem(problem_code@, message@, crate::text::opt_ref_view(field_path)),
        ),
{
    let problem: Json = match field_path {
        Some(field) => object3(
            "code",
            text_value(problem_code),
            "fieldPath",
            text_value(field),
            "message",
            text_value(message),
        ),
        None => object2("code", text_value(problem_code), "message", text_value(message)),
    };
    config_failure_of(path.to_text().as_str(), problem)
}

/// The failure of loading a configuration, before it is known which file it is.
pub open spec fn simple_failed(message: Seq<char>) -> FailureView {
    config_failed(""@, config_problem("invalid_value"@, message, None))
}

/// The failure of loading a configuration, before it is known which file it is.
pub fn simple_configuration_failure(message: &str) -> (r: ContractFailure)
    ensures
        r@ == simple_failed(message@),
{
    config_failure_of("", object2("code", text_value("invalid_value"), "message", text_value(message)))
}

/// The failure, with the path of its file where it had none.
pub open spec fn placed(f: FailureView, path: Seq<char>) -> FailureView {
    if f.code == "invalid_configuration"@ && f.data.text_at("path"@) == Some(""@) && f.data is Object {
        FailureView {
            data: JsonView::Object(with_field(f.data->Object_0, "path"@, JsonView::Text(path))),
            ..f
        }
    } else {
        f
    }
}

/// The failure, with the path of its file where it had none.
pub fn ensure_configuration_path(f: ContractFailure, path: &NativePath) -> (r: ContractFailure)
    ensures
        r@ == placed(f@, path_text(path@)),
{
    let mut f: ContractFailure = f;
    let unplaced: bool = match f.data.text_at("path") {
        Some(text) => same(text.as_str(), ""),
        None => false,
    };
    if same(f.code.as_str(), "invalid_configuration") && unplaced {
        let text: String = path.to_text();
        let data: Json = f.data;
        f.data = match data {
            Json::Object(fields) => {
                let mut fields: Vec<(String, Json)> = fields;
                set_field(&mut fields, "path", Json::Text(text));
                Json::Object(fields)
            },
            other => other,
        };
    }
    f
}

/// The failure of selecting a workspace.
pub open spec fn workspace_failed(message: Seq<char>) -> FailureView {
    failed(
        3,
        "blocked"@,
        "workspace_selection_failed"@,
        message,
        "resolve_workspace"@,
        "not_sent"@,
        "after_change"@,
        JsonView::Object(seq![("reason"@, JsonView::Text(message))]),
    )
}

/// The failure of selecting a workspace.
pub fn workspace_failure(message: &str) -> (r: ContractFailure)
    ensures
        r@ == workspace_failed(message@),
{
    failure(
        3,
        "blocked",
        "workspace_selection_failed",
        message,
        "resolve_workspace",
        "not_sent",
        "after_change",
        object1("reason", text_value(message)),
    )
}

/// The failure of selecting a server.
pub open spec fn selection_failed(message: Seq<char>) -> FailureView {
    failed(
        3,
        "blocked"@,
        "server_selection_failed"@,
        message,
        "select_server"@,
        "not_sent"@,
        "after_change"@,
        JsonView::Object(seq![("reason"@, JsonView::Text(message))]),
    )
}

/// The failure of selecting a server.
pub fn server_selection_failure(message: &str) -> (r: ContractFailure)
    ensures
        r@ == selection_failed(message@),
{
    failure(
        3,
        "blocked",
        "server_selection_failed",
        message,
        "select_server",
        "not_sent",
        "after_change",
        object1("reason", text_value(message)),
    )
}

/// The failure of reading an input.
pub open spec fn input_failed(code: Seq<char>, message: Seq<char>, data: JsonView) -> FailureView {
    failed(
        2,
        "input"@,
        code,
        message,
        "read_input"@,
        "not_applicable"@,
        if code == "input_read_failed"@ {
            "after_change"@
        } else {
            "never"@
        },
        data,
    )
}

/// The failure of reading an input.
pub fn input_failure(code: &str, message: &str, data: Json) -> (r: ContractFailure)
    ensures
        r@ == input_failed(code@, message@, data@),
{
    failure(
        2,
        "input",
        code,
        message,
        "read_input",
        "not_applicable",
        if same(code, "input_read_failed") { "after_change" } else { "never" },
        data,
    )
}

/// The failure of finding the user's directories.
pub open spec fn user_path_failed(reason: Seq<char>) -> FailureView {
    failed(
        4,
        "unavailable"@,
        "user_path_unavailable"@,
        "The user configuration path is unavailable."@,
        "load_configuration"@,
        "not_applicable"@,
        "after_change"@,
        JsonView::Object(
            seq![("kind"@, JsonView::Text("configuration"@)), ("reason"@, JsonView::Text(reason))],
        ),
    )
}

/// The failure of finding the user's directories.
pub fn user_path_failure(reason: &str) -> (r: ContractFailure)
    ensures
        r@ == user_path_failed(reason@),
{
    failure(
        4,
        "unavailable",
        "user_path_unavailable",
        "The user configuration path is unavailable.",
        "load_configuration",
        "not_applicable",
        "after_change",
        object2("kind", text_value("configuration"), "reason", text_value(reason)),
    )
}

/// Refuses a configuration file of another version.
pub fn validate_version(version: u32, path: &NativePath) -> (r: Result<(), ContractFailure>)
    ensures
        match r {
            Ok(_) => version == 1,
            Err(f) => version != 1 && f@ == config_failed(
                path_text(path@),
                config_problem(
                    "unsupported_version"@,
                    "only configuration version 1 is supported"@,
                    Some("version"@),
                ),
            ),
        },
{
    if version == 1 {
        Ok(())
    } else {
        Err(
            configuration_failure(
                path,
                "unsupported_version",
                "only configuration version 1 is supported",
                Some("version"),
            ),
        )
    }
}

/// The failure of a name that no server can have.
pub open spec fn name_failed(path: Seq<char>) -> FailureView {
    config_failed(path, config_problem("invalid_value"@, "server name is invalid"@, Some("servers"@)))
}

/// Refuses a name that is not among those that a server can have.
pub fn validate_server_name(name: &str, accepted: &Vec<String>, path: &NativePath) -> (r: Result<(), ContractFailure>)
    ensures
        match r {
            Ok(_) => views(accepted@).contains(name@),
            Err(f) => !views(accepted@).contains(name@) && f@ == name_failed(path_text(path@)),
        },
{
    if contains_string(accepted, name) {
        Ok(())
    } else {
        Err(configuration_failure(path, "invalid_value", "server name is invalid", Some("servers")))
    }
}

/// The number in front of the unit of a duration, and how many milliseconds the
/// unit has.
pub open spec fn duration_parts(value: Seq<char>) -> Option<(Option<nat>, nat)> {
    if "ms"@.is_suffix_of(value) {
        Some((count_before(value, "ms"@), 1))
    } else if "s"@.is_suffix_of(value) {
        Some((count_before(value, "s"@), 1000))
    } else if "m"@.is_suffix_of(value) {
        Some((count_before(value, "m"@), 60000))
    } else {
        None
    }
}

/// The milliseconds that a declared duration stands for, or why it stands for
/// none.
pub open spec fn valid_duration(value: Seq<char>, field: Seq<char>) -> Result<nat, FailureView> {
    match duration_parts(value) {
        Some((Some(amount), unit)) => if amount == 0 {
            Err(simple_failed(field + " is not a valid duration"@))
        } else if amount * unit > u64::MAX {
            Err(simple_failed(field + " is too large"@))
        } else {
            Ok(amount * unit)
        },
        _ => Err(simple_failed(field + " is not a valid duration"@)),
    }
}

/// The milliseconds that a declared duration stands for.
pub fn validate_duration(value: &str, field: &str) -> (r: Result<u64, ContractFailure>)
    ensures
        match r {
            Ok(n) => valid_duration(value@, field@) == Ok::<nat, FailureView>(n as nat),
            Err(f) => valid_duration(value@, field@) == Err::<nat, FailureView>(f@),
        },
{
    let unit: u64;
    let digits: String;
    if let Some(d) = strip_suffix(value, "ms") {
        digits = d;
        unit = 1;
    } else if let Some(d) = strip_suffix(value, "s") {
        digits = d;
        unit = 1000;
    } else if let Some(d) = strip_suffix(value, "m") {
        digits = d;
        unit = 60000;
    } else {
        return Err(simple_configuration_failure(concat(field, " is not a valid duration").as_str()));
    }
    match parse_u64(digits.as_str()) {
        Some(amount) => {
            if amount == 0 {
                return Err(simple_configuration_failure(concat(field, " is not a valid duration").as_str()));
            }
            match amount.checked_mul(unit) {
                Some(n) => Ok(n),
                None => Err(simple_configuration_failure(concat(field, " is too large").as_str())),
            }
        },
        None => Err(simple_configuration_failure(concat(field, " is not a valid duration").as_str())),
    }
}

/// The failure of a limit of nothing.
pub open spec fn limit_failed() -> FailureView {
    simple_failed("Configuration limits must be positive."@)
}

/// A declared limit, or the one that holds where none is declared.
pub open spec fn limit_of(value: Option<u64>, default: u64) -> u64 {
    match value {
        Some(n) => n,
        None => default,
    }
}

/// A declared limit, or the one that holds where none is declared.
pub fn positive_or_default(value: Option<u64>, default: u64) -> (r: Result<u64, ContractFailure>)
    ensures
        match r {
            Ok(n) => n == limit_of(value, default) && n > 0,
            Err(f) => limit_of(value, default) == 0 && f@ == limit_failed(),
        },
{
    let n: u64 = match value {
        Some(n) => n,
        None => default,
    };
    if n > 0 {
        Ok(n)
    } else {
        Err(simple_configuration_failure("Configuration limits must be positive."))
    }
}

/// The place of a byte in a text, counted from one: the line, and the byte in
/// the line.
pub open spec fn line_and_column(bytes: Seq<u8>, offset: nat) -> (nat, nat)
    decreases offset,
{
    if offset == 0 {
        (1, 1)
    } else {
        let (line, column) = line_and_column(bytes, (offset - 1) as nat);
        if bytes[offset - 1] == 10u8 {
            (line + 1, 1)
        } else {
            (line, column + 1)
        }
    }
}

/// The place of a byte in a text, counted from one: the line, and the byte in
/// the line.
pub fn line_column(contents: &str, offset: usize) -> (r: (usize, usize))
    requires
        vstd::utf8::encode_utf8(contents@).len() < usize::MAX,
    ensures
        (r.0 as nat, r.1 as nat) == line_and_column(
            vstd::utf8::encode_utf8(contents@),
            if offset < vstd::utf8::encode_utf8(contents@).len() {
                offset as nat
            } else {
                vstd::utf8::encode_utf8(contents@).len()
            },
        ),
{
    let bytes: &[u8] = contents.as_bytes();
    let end: usize = if offset < bytes.len() { offset } else { bytes.len() };
    let mut line: usize = 1;
    let mut column: usize = 1;
    let mut i: usize = 0;
    while i < end
        invariant
            i <= end <= bytes@.len(),
            bytes@.len() < usize::MAX,
            (line as nat, column as nat) == line_and_column(bytes@, i as nat),
            1 <= line <= i + 1,
            1 <= column <= i + 1,
        decreases end - i,
    {
        if bytes[i] == 10 {
            line += 1;
            column = 1;
        } else {
            column += 1;
        }
        i += 1;
    }
    (line, column)
}

/// The failure of a configuration file that is not TOML, or not of the right
/// shape, by what the parser says of it.
pub open spec fn toml_problem_code(unknown_field: bool, duplicate: bool, missing_field: bool) -> Seq<char> {
    if unknown_field {
        "unknown_field"@
    } else if duplicate {
        "duplicate_definition"@
    } else if missing_field {
        "missing_required_field"@
    } else {
        "invalid_type"@
    }
}

/// Whether a text occurs in another.
pub open spec fn occurs(text: Seq<char>, part: Seq<char>) -> bool {
    exists|i: int| 0 <= i <= text.len() - part.len() && #[trigger] text.subrange(i, i + part.len()) == part
}

/// Whether a text occurs in another.
pub fn occurs_in(text: &str, part: &str) -> (r: bool)
    ensures
        r == occurs(text@, part@),
{
    let t: Vec<char> = chars_of(text);
    let p: Vec<char> = chars_of(part);
    if p.len() > t.len() {
        return false;
    }
    let last: usize = t.len() - p.len();
    let mut i: usize = 0;
    while i <= last
        invariant
            t@ == text@,
            p@ == part@,
            last == t@.len() - p@.len(),
            last < usize::MAX || p@.len() == 0,
            i <= last + 1,
            forall|k: int| 0 <= k < i ==> #[trigger] text@.subrange(k, k + part@.len()) != part@,
        decreases last + 1 - i,
    {
        let mut j: usize = 0;
        let mut here: bool = true;
        let n: usize = t.len();
        while j < p.len() && here
            invariant
                t@ == text@,
                p@ == part@,
                n == t@.len(),
                j <= p@.len(),
                last == t@.len() - p@.len(),
                i <= last,
                here ==> forall|m: int| 0 <= m < j ==> t@[i + m] == p@[m],
                !here ==> exists|m: int| 0 <= m < p@.len() && t@[i + m] != #[trigger] p@[m],
            decreases p.len() - j, if here { 1int } else { 0int },
        {
            if t[i + j] != p[j] {
                here = false;
                assert(t@[i + j] != p@[j as int]);
            } else {
                j += 1;
            }
        }
        if here {
            assert(text@.subrange(i as int, i + part@.len()) =~= part@);
            return true;
        }
        proof {
            let m = choose|m: int| 0 <= m < p@.len() && t@[i + m] != #[trigger] p@[m];
            assert(text@.subrange(i as int, i + part@.len())[m] == t@[i + m]);
        }
        if i == last {
            return false;
        }
        i += 1;
    }
    false
}

/// The failure of a configuration file that is not read, with the place in the
/// file where that was noticed.
pub open spec fn unread_toml(path: Seq<char>, message: Seq<char>, line: nat, column: nat) -> FailureView {
    config_failed(
        path,
        JsonView::Object(
            seq![
                (
                    "code"@,
                    JsonView::Text(
                        toml_problem_code(
                            occurs(message, "unknown field"@),
                            occurs(message, "duplicate key"@) || occurs(message, "duplicate table"@),
                            occurs(message, "missing field"@),
                        ),
                    ),
                ),
                ("column"@, JsonView::Int(column as int)),
                ("line"@, JsonView::Int(line as int)),
                ("message"@, JsonView::Text(message)),
            ],
        ),
    )
}

/// The failure of a configuration file that is not read. The place is where the
/// parser says that the problem starts, or the start of the file.
pub fn unread_toml_failure(path: &NativePath, contents: &str, message: &str, start: Option<usize>) -> (r: ContractFailure)
    requires
        vstd::utf8::encode_utf8(contents@).len() < usize::MAX,
    ensures
        ({
            let bytes = vstd::utf8::encode_utf8(contents@);
            let place = match start {
                Some(s) => line_and_column(
                    bytes,
                    if s < bytes.len() {
                        s as nat
                    } else {
                        bytes.len()
                    },
                ),
                None => (1, 1),
            };
            r@ == unread_toml(path_text(path@), message@, place.0, place.1)
        }),
{
    let (line, column): (usize, usize) = match start {
        Some(s) => line_column(contents, s),
        None => (1, 1),
    };
    let code: &str = if occurs_in(message, "unknown field") {
        "unknown_field"
    } else if occurs_in(message, "duplicate key") || occurs_in(message, "duplicate table") {
        "duplicate_definition"
    } else if occurs_in(message, "missing field") {
        "missing_required_field"
    } else {
        "invalid_type"
    };
    let problem: Json = crate::json::object4(
        "code",
        text_value(code),
        "column",
        Json::Unsigned(column as u64),
        "line",
        Json::Unsigned(line as u64),
        "message",
        text_value(message),
    );
    config_failure_of(path.to_text().as_str(), problem)
}

/// An opaque value in JSON, unless something in it has no form there.
pub open spec fn toml_json(value: Toml) -> Option<JsonView>
    decreases value,
{
    match value {
        Toml::Text(s) => Some(JsonView::Text(s@)),
        Toml::Integer(n) => Some(JsonView::Int(n as int)),
        Toml::Number { text, finite } => if finite {
            Some(JsonView::Decimal(text@))
        } else {
            None
        },
        Toml::Boolean(b) => Some(JsonView::Bool(b)),
        Toml::Datetime => None,
        Toml::Array(items) => match toml_array(items@) {
            Some(a) => Some(JsonView::Array(a)),
            None => None,
        },
        Toml::Table(fields) => match toml_fields(fields@) {
            Some(o) => Some(JsonView::Object(o)),
            None => None,
        },
    }
}

/// Opaque values in JSON, unless something in them has no form there.
pub open spec fn toml_array(items: Seq<Toml>) -> Option<Seq<JsonView>>
    decreases items,
{
    if items.len() == 0 {
        Some(Seq::empty())
    } else {
        match (toml_array(items.drop_last()), toml_json(items.last())) {
            (Some(rest), Some(v)) => Some(rest.push(v)),
            _ => None,
        }
    }
}

/// Opaque fields in JSON, unless something in them has no form there.
pub open spec fn toml_fields(fields: Seq<(String, Toml)>) -> Option<Seq<(Seq<char>, JsonView)>>
    decreases fields,
{
    if fields.len() == 0 {
        Some(Seq::empty())
    } else {
        match (toml_fields(fields.drop_last()), toml_json(fields.last().1)) {
            (Some(rest), Some(v)) => Some(rest.push((fields.last().0@, v))),
            _ => None,
        }
    }
}

/// The failure of an opaque value with something in it that has no form in
/// JSON.
pub open spec fn datetime_failed() -> FailureView {
    simple_failed("TOML date and time values are not allowed in opaque server settings."@)
}

fn array_to_json(items: &Vec<Toml>) -> (r: Option<Vec<Json>>)
    ensures
        match r {
            Some(list) => toml_array(items@) == Some(array_view(list@)),
            None => toml_array(items@) is None,
        },
    decreases items,
{
    let mut list: Vec<Json> = Vec::new();
    let mut i: usize = 0;
    assert(items@.take(0) =~= Seq::<Toml>::empty());
    assert(array_view(list@) =~= Seq::<JsonView>::empty());
    while i < items.len()
        invariant
            i <= items@.len(),
            toml_array(items@.take(i as int)) == Some(array_view(list@)),
        decreases items.len() - i,
    {
        proof {
            assert(items@.take(i + 1).drop_last() =~= items@.take(i as int));
            assert(items@.take(i + 1).last() == items@[i as int]);
        }
        let ghost before = array_view(list@);
        match value_to_json(&items[i]) {
            Some(v) => {
                list.push(v);
                assert(array_view(list@) =~= before.push(v@));
            },
            None => {
                proof { lemma_array_refused(items@, i + 1); }
                return None;
            },
        }
        i += 1;
    }
    assert(items@.take(i as int) =~= items@);
    Some(list)
}

proof fn lemma_array_refused(items: Seq<Toml>, n: int)
    requires
        0 < n <= items.len(),
        toml_array(items.take(n)) is None,
    ensures
        toml_array(items) is None,
    decreases items.len() - n,
{
    if n == items.len() {
        assert(items.take(n) =~= items);
    } else {
        assert(items.take(n + 1).drop_last() =~= items.take(n));
        lemma_array_refused(items, n + 1);
    }
}

fn fields_to_json(fields: &Vec<(String, Toml)>) -> (r: Option<Vec<(String, Json)>>)
    ensures
        match r {
            Some(list) => toml_fields(fields@) == Some(object_view(list@)),
            None => toml_fields(fields@) is None,
        },
    decreases fields,
{
    let mut list: Vec<(String, Json)> = Vec::new();
    let mut i: usize = 0;
    assert(fields@.take(0) =~= Seq::<(String, Toml)>::empty());
    assert(object_view(list@) =~= Seq::<(Seq<char>, JsonView)>::empty());
    while i < fields.len()
        invariant
            i <= fields@.len(),
            toml_fields(fields@.take(i as int)) == Some(object_view(list@)),
        decreases fields.len() - i,
    {
        proof {
            assert(fields@.take(i + 1).drop_last() =~= fields@.take(i as int));
            assert(fields@.take(i + 1).last() == fields@[i as int]);
        }
        let ghost before = object_view(list@);
        match value_to_json(&fields[i].1) {
            Some(v) => {
                let key: String = fields[i].0.clone();
                list.push((key, v));
                assert(object_view(list@) =~= before.push((fields@[i as int].0@, v@)));
            },
            None => {
                proof { lemma_fields_refused(fields@, i + 1); }
                return None;
            },
        }
        i += 1;
    }
    assert(fields@.take(i as int) =~= fields@);
    Some(list)
}

proof fn lemma_fields_refused(fields: Seq<(String, Toml)>, n: int)
    requires
        0 < n <= fields.len(),
        toml_fields(fields.take(n)) is None,
    ensures
        toml_fields(fields) is None,
    decreases fields.len() - n,
{
    if n == fields.len() {
        assert(fields.take(n) =~= fields);
    } else {
        assert(fields.take(n + 1).drop_last() =~= fields.take(n));
        lemma_fields_refused(fields, n + 1);
    }
}

fn value_to_json(value: &Toml) -> (r: Option<Json>)
    ensures
        opt_view(r) == toml_json(*value),
    decreases value,
{
    match value {
        Toml::Text(s) => Some(Json::Text(s.clone())),
        Toml::Integer(n) => if *n >= 0 {
            Some(Json::Unsigned(*n as u64))
        } else {
            Some(Json::Negative(*n))
        },
        Toml::Number { text, finite } => if *finite {
            Some(Json::Decimal(text.clone()))
        } else {
            None
        },
        Toml::Boolean(b) => Some(Json::Bool(*b)),
        Toml::Datetime => None,
        Toml::Array(items) => match array_to_json(items) {
            Some(list) => Some(Json::Array(list)),
            None => None,
        },
        Toml::Table(fields) => match fields_to_json(fields) {
            Some(list) => Some(Json::Object(list)),
            None => None,
        },
    }
}

/// An opaque value in JSON.
pub fn toml_to_json(value: &Toml) -> (r: Result<Json, ContractFailure>)
    ensures
        match r {
            Ok(v) => toml_json(*value) == Some(v@),
            Err(f) => toml_json(*value) is None && f@ == datetime_failed(),
        },
{
    match value_to_json(value) {
        Some(v) => Ok(v),
        None => Err(
            simple_configuration_failure(
                "TOML date and time values are not allowed in opaque server settings.",
            ),
        ),
    }
}

} // verus!
