//! How commands, options and configuration values are read.

use vstd::prelude::*;

use crate::commands::{MutationCommand, SessionCommand, TrustCommand, mutation_words, session_word, trust_word};
use crate::config_checks::{config_failed, line_and_column, placed, toml_array, toml_fields, toml_json};
use crate::configuration::Toml;
use crate::digest::hex_text;
use crate::failure::FailureView;
use crate::invocation::{InvocationView, values_of};
use crate::json::{JsonView, lemma_field_at, lemma_field_set};
use crate::query_command::{command_method, command_of, partial_results, positioned};

verus! {

proof fn lemma_names()
    ensures
        "capabilities"@.len() == 12,
        "code-actions"@.len() == 12,
        "definition"@.len() == 10,
        "document-diagnostics"@.len() == 20,
        "document-symbols"@.len() == 16,
        "execute-command"@.len() == 15,
        "format"@.len() == 6,
        "hover"@.len() == 5,
        "prepare-rename"@.len() == 14,
        "published-diagnostics"@.len() == 21,
        "raw"@.len() == 3,
        "references"@.len() == 10,
        "rename"@.len() == 6,
        "resolve-code-action"@.len() == 19,
        "workspace-diagnostics"@.len() == 21,
        "workspace-symbols"@.len() == 17,
        "capabilities"@ != "code-actions"@,
        "definition"@ != "references"@,
        "format"@ != "rename"@,
        "published-diagnostics"@ != "workspace-diagnostics"@,
{
    reveal_strlit("capabilities");
    reveal_strlit("code-actions");
    reveal_strlit("definition");
    reveal_strlit("document-diagnostics");
    reveal_strlit("document-symbols");
    reveal_strlit("execute-command");
    reveal_strlit("format");
    reveal_strlit("hover");
    reveal_strlit("prepare-rename");
    reveal_strlit("published-diagnostics");
    reveal_strlit("raw");
    reveal_strlit("references");
    reveal_strlit("rename");
    reveal_strlit("resolve-code-action");
    reveal_strlit("workspace-diagnostics");
    reveal_strlit("workspace-symbols");
    assert("capabilities"@[1] == 'a' && "code-actions"@[1] == 'o');
    assert("definition"@[0] == 'd' && "references"@[0] == 'r');
    assert("format"@[0] == 'f' && "rename"@[0] == 'r');
    assert("published-diagnostics"@[0] == 'p' && "workspace-diagnostics"@[0] == 'w');
}

/// Each query calls the method that it is named after, and a query without a
/// method of its own calls none.
pub proof fn law_queries_are_named_after_their_methods()
    ensures
        command_of(seq!["definition"@]) matches Some(c) && command_method(c) == Some("textDocument/definition"@),
        command_of(seq!["references"@]) matches Some(c) && command_method(c) == Some("textDocument/references"@),
        command_of(seq!["hover"@]) matches Some(c) && command_method(c) == Some("textDocument/hover"@),
        command_of(seq!["document-symbols"@]) matches Some(c) && command_method(c) == Some("textDocument/documentSymbol"@),
        command_of(seq!["workspace-symbols"@]) matches Some(c) && command_method(c) == Some("workspace/symbol"@),
        command_of(seq!["document-diagnostics"@]) matches Some(c) && command_method(c) == Some("textDocument/diagnostic"@),
        command_of(seq!["workspace-diagnostics"@]) matches Some(c) && command_method(c) == Some("workspace/diagnostic"@),
        command_of(seq!["prepare-rename"@]) matches Some(c) && command_method(c) == Some("textDocument/prepareRename"@),
        command_of(seq!["rename"@]) matches Some(c) && command_method(c) == Some("textDocument/rename"@),
        command_of(seq!["format"@]) matches Some(c) && command_method(c) == Some("textDocument/formatting"@),
        command_of(seq!["code-actions"@]) matches Some(c) && command_method(c) == Some("textDocument/codeAction"@),
        command_of(seq!["resolve-code-action"@]) matches Some(c) && command_method(c) == Some("codeAction/resolve"@),
        command_of(seq!["execute-command"@]) matches Some(c) && command_method(c) == Some("workspace/executeCommand"@),
        command_of(seq!["published-diagnostics"@]) matches Some(c) && command_method(c) is None,
        command_of(seq!["raw"@]) matches Some(c) && command_method(c) is None,
        command_of(seq!["capabilities"@]) matches Some(c) && command_method(c) is None,
{
    lemma_names();
    lemma_first_words();
}

/// The queries about a place take one, and those whose answer may come in
/// parts take it in parts; no others do.
pub proof fn law_queries_take_what_they_need()
    ensures
        command_of(seq!["definition"@]) matches Some(c) && positioned(c) && !partial_results(c),
        command_of(seq!["references"@]) matches Some(c) && positioned(c) && partial_results(c),
        command_of(seq!["hover"@]) matches Some(c) && positioned(c) && !partial_results(c),
        command_of(seq!["document-symbols"@]) matches Some(c) && !positioned(c) && !partial_results(c),
        command_of(seq!["workspace-symbols"@]) matches Some(c) && !positioned(c) && partial_results(c),
        command_of(seq!["document-diagnostics"@]) matches Some(c) && !positioned(c) && partial_results(c),
        command_of(seq!["workspace-diagnostics"@]) matches Some(c) && !positioned(c) && partial_results(c),
        command_of(seq!["prepare-rename"@]) matches Some(c) && positioned(c) && !partial_results(c),
        command_of(seq!["rename"@]) matches Some(c) && positioned(c) && !partial_results(c),
        command_of(seq!["format"@]) matches Some(c) && !positioned(c) && !partial_results(c),
        command_of(seq!["code-actions"@]) matches Some(c) && positioned(c) && partial_results(c),
        command_of(seq!["resolve-code-action"@]) matches Some(c) && !positioned(c) && !partial_results(c),
        command_of(seq!["execute-command"@]) matches Some(c) && !positioned(c) && !partial_results(c),
        command_of(seq!["published-diagnostics"@]) matches Some(c) && !positioned(c) && !partial_results(c),
        command_of(seq!["raw"@]) matches Some(c) && !positioned(c) && !partial_results(c),
        command_of(seq!["capabilities"@]) matches Some(c) && !positioned(c) && !partial_results(c),
{
    lemma_names();
    lemma_first_words();
}

proof fn lemma_first_words()
    ensures
        forall|word: Seq<char>| #[trigger] seq![word][0] == word,
{
}

/// Each command is spelled by the words for what it does.
pub proof fn law_commands_are_spelled_by_their_words()
    ensures
        mutation_words(MutationCommand::PreviewCreate) == seq!["preview"@, "create"@],
        mutation_words(MutationCommand::PreviewShow) == seq!["preview"@, "show"@],
        mutation_words(MutationCommand::PreviewList) == seq!["preview"@, "list"@],
        mutation_words(MutationCommand::PreviewDiscard) == seq!["preview"@, "discard"@],
        mutation_words(MutationCommand::RecoveryStatus) == seq!["recovery"@, "status"@],
        mutation_words(MutationCommand::RecoveryRollback) == seq!["recovery"@, "rollback"@],
        mutation_words(MutationCommand::RecoveryAcceptCurrent) == seq!["recovery"@, "accept-current"@],
        mutation_words(MutationCommand::ReceiptShow) == seq!["receipt"@, "show"@],
        mutation_words(MutationCommand::ReceiptList) == seq!["receipt"@, "list"@],
        mutation_words(MutationCommand::StatePrune) == seq!["state"@, "prune"@],
        mutation_words(MutationCommand::Apply) == seq!["apply"@],
        session_word(SessionCommand::List) == "list"@,
        session_word(SessionCommand::Status) == "status"@,
        session_word(SessionCommand::Logs) == "logs"@,
        session_word(SessionCommand::Stop) == "stop"@,
        session_word(SessionCommand::Restart) == "restart"@,
        trust_word(TrustCommand::Grant) == "grant"@,
        trust_word(TrustCommand::Deny) == "deny"@,
        trust_word(TrustCommand::Revoke) == "revoke"@,
        trust_word(TrustCommand::Status) == "status"@,
        trust_word(TrustCommand::List) == "list"@,
{
}

/// A command of several words is no query.
pub proof fn law_queries_are_one_word(path: Seq<Seq<char>>)
    ensures
        path.len() != 1 ==> command_of(path) is None,
{
}

/// An option has the values that it was first given, the first of which is its
/// value; an option that was not given has none.
pub proof fn law_first_options_count(
    before: Seq<(Seq<char>, Seq<Seq<char>>)>,
    name: Seq<char>,
    values: Seq<Seq<char>>,
    after: Seq<(Seq<char>, Seq<Seq<char>>)>,
)
    requires
        forall|i: int| 0 <= i < before.len() ==> (#[trigger] before[i]).0 != name,
    ensures
        values_of(before, name) is None,
        values_of(before + seq![(name, values)] + after, name) == Some(values),
    decreases before.len(),
{
    let all = before + seq![(name, values)] + after;
    if before.len() > 0 {
        let rest = before.drop_first();
        assert(all[0] == before[0]);
        assert forall|i: int| 0 <= i < rest.len() implies (#[trigger] rest[i]).0 != name by {
            assert(rest[i] == before[i + 1]);
        }
        law_first_options_count(rest, name, values, after);
        assert(all.drop_first() =~= rest + seq![(name, values)] + after);
    } else {
        assert(all[0] == (name, values));
    }
}

/// The value of an option is the first of its values.
pub proof fn law_first_values_count(inv: InvocationView, name: Seq<char>)
    ensures
        inv.values(name) is None ==> inv.value(name) is None && !inv.has(name),
        inv.values(name) matches Some(values) ==> inv.has(name) && (values.len() > 0 ==> inv.value(name) == Some(
            values[0],
        )) && (values.len() == 0 ==> inv.value(name) is None),
{
}

/// Values of configuration files become values of JSON of the same kind, item
/// for item and field for field; dates and numbers that are not finite become
/// none.
pub proof fn law_configured_values_are_kept(
    text: String,
    n: i64,
    b: bool,
    items: Vec<Toml>,
    fields: Vec<(String, Toml)>,
)
    ensures
        toml_json(Toml::Text(text)) == Some(JsonView::Text(text@)),
        toml_json(Toml::Integer(n)) == Some(JsonView::Int(n as int)),
        toml_json(Toml::Boolean(b)) == Some(JsonView::Bool(b)),
        toml_json(Toml::Number { text, finite: true }) == Some(JsonView::Decimal(text@)),
        toml_json(Toml::Number { text, finite: false }) is None,
        toml_json(Toml::Datetime) is None,
        toml_json(Toml::Array(items)) matches Some(v) ==> (v matches JsonView::Array(a) && a.len() == items@.len()),
        toml_json(Toml::Table(fields)) matches Some(v) ==> (v matches JsonView::Object(o) && o.len() == fields@.len()),
{
    lemma_items_kept(items@);
    lemma_fields_kept(fields@);
}

proof fn lemma_items_kept(items: Seq<Toml>)
    ensures
        toml_array(items) matches Some(a) ==> a.len() == items.len() && forall|i: int|
            0 <= i < items.len() ==> toml_json(#[trigger] items[i]) == Some(a[i]),
        toml_array(items) is None ==> exists|i: int|
            0 <= i < items.len() && toml_json(#[trigger] items[i]) is None,
    decreases items.len(),
{
    if items.len() > 0 {
        lemma_items_kept(items.drop_last());
        assert forall|i: int| 0 <= i < items.len() - 1 implies #[trigger] items.drop_last()[i] == items[i] by {}
        assert(items.last() == items[items.len() - 1]);
        if toml_array(items) is None {
            if toml_array(items.drop_last()) is None {
                let i = choose|i: int|
                    0 <= i < items.drop_last().len() && toml_json(#[trigger] items.drop_last()[i]) is None;
                assert(toml_json(items[i]) is None);
            }
        } else {
            let a = toml_array(items)->0;
            assert forall|i: int| 0 <= i < items.len() implies toml_json(#[trigger] items[i]) == Some(a[i]) by {
                if i < items.len() - 1 {
                    assert(items.drop_last()[i] == items[i]);
                }
            }
        }
    }
}

proof fn lemma_fields_kept(fields: Seq<(String, Toml)>)
    ensures
        toml_fields(fields) matches Some(o) ==> o.len() == fields.len() && forall|i: int|
            0 <= i < fields.len() ==> (#[trigger] fields[i]).0@ == o[i].0 && toml_json(fields[i].1) == Some(o[i].1),
    decreases fields.len(),
{
    if fields.len() > 0 {
        lemma_fields_kept(fields.drop_last());
        assert(fields.last() == fields[fields.len() - 1]);
        if let Some(o) = toml_fields(fields) {
            assert forall|i: int| 0 <= i < fields.len() implies (#[trigger] fields[i]).0@ == o[i].0 && toml_json(
                fields[i].1,
            ) == Some(o[i].1) by {
                if i < fields.len() - 1 {
                    assert(fields.drop_last()[i] == fields[i]);
                }
            }
        }
    }
}

/// Every item of a list of a configuration file stands at its place, and a
/// list becomes none only where one of its items does.
pub proof fn law_configured_items_are_kept(items: Vec<Toml>, i: int)
    requires
        0 <= i < items@.len(),
    ensures
        toml_json(Toml::Array(items)) matches Some(v) ==> (v matches JsonView::Array(a) && toml_json(items@[i]) == Some(
            a[i],
        )),
        toml_json(items@[i]) is None ==> toml_json(Toml::Array(items)) is None,
        (forall|k: int| 0 <= k < items@.len() ==> toml_json(#[trigger] items@[k]) is Some) ==> toml_json(
            Toml::Array(items),
        ) is Some,
{
    lemma_items_kept(items@);
    assert(items@[i] == items@[i]);
}

/// Every field of a table of a configuration file keeps its name and its
/// place.
pub proof fn law_configured_fields_are_kept(fields: Vec<(String, Toml)>, i: int)
    requires
        0 <= i < fields@.len(),
    ensures
        toml_json(Toml::Table(fields)) matches Some(v) ==> (v matches JsonView::Object(o) && o[i].0 == fields@[i].0@
            && toml_json(fields@[i].1) == Some(o[i].1)),
{
    lemma_fields_kept(fields@);
    assert(fields@[i] == fields@[i]);
}

/// A place in a file is counted in lines from the first and in columns from
/// the last break of a line before it.
pub proof fn law_places_are_counted_from_the_break(bytes: Seq<u8>, from: nat, to: nat)
    requires
        from <= to <= bytes.len(),
        forall|i: int| from <= i < to ==> #[trigger] bytes[i] != 10u8,
    ensures
        line_and_column(bytes, to).0 == line_and_column(bytes, from).0,
        line_and_column(bytes, to).1 == line_and_column(bytes, from).1 + (to - from),
        line_and_column(bytes, 0) == (1nat, 1nat),
        to < bytes.len() && bytes[to as int] == 10u8 ==> line_and_column(bytes, (to + 1) as nat) == (
            (line_and_column(bytes, from).0 + 1) as nat,
            1nat,
        ),
    decreases to - from,
{
    if from < to {
        assert(bytes[to - 1] != 10u8);
        law_places_are_counted_from_the_break(bytes, from, (to - 1) as nat);
    }
}

/// What is wrong with a configuration is reported with the file that it is in.
pub proof fn law_configuration_failures_name_the_file(path: Seq<char>, problem: JsonView, f: FailureView, place: Seq<char>)
    ensures
        config_failed(path, problem).code == "invalid_configuration"@,
        config_failed(path, problem).exit_code == 3,
        config_failed(path, problem).data.get("path"@) == Some(JsonView::Text(path)),
        config_failed(path, problem).data.get("problems"@) == Some(JsonView::Array(seq![problem])),
        placed(config_failed(""@, problem), place).data.get("path"@) == Some(JsonView::Text(place)),
        placed(config_failed(""@, problem), place).data.get("problems"@) == Some(JsonView::Array(seq![problem])),
        path != ""@ ==> placed(config_failed(path, problem), place) == config_failed(path, problem),
        f.code != "invalid_configuration"@ ==> placed(f, place) == f,
{
    reveal_strlit("path");
    reveal_strlit("problems");
    assert("path"@.len() == 4 && "problems"@.len() == 8);
    let o = config_failed(path, problem).data->Object_0;
    lemma_field_at(o, 0, "path"@);
    lemma_field_at(o, 1, "problems"@);
    let e = config_failed(""@, problem).data->Object_0;
    lemma_field_at(e, 0, "path"@);
    lemma_field_at(e, 1, "problems"@);
    lemma_field_set(e, "path"@, JsonView::Text(place), "path"@);
    lemma_field_set(e, "path"@, JsonView::Text(place), "problems"@);
}

/// Bytes are spelled two digits each, one after the other.
pub proof fn law_bytes_are_spelled_in_order(a: Seq<u8>, b: Seq<u8>)
    ensures
        hex_text(a + b) == hex_text(a) + hex_text(b),
        hex_text(a).len() == 2 * a.len(),
    decreases a.len() + b.len(),
{
    if b.len() > 0 {
        law_bytes_are_spelled_in_order(a, b.drop_last());
        assert((a + b).drop_last() =~= a + b.drop_last());
        assert(hex_text(a + b) =~= hex_text(a) + hex_text(b));
    } else {
        assert(a + b =~= a);
        assert(hex_text(a) + hex_text(b) =~= hex_text(a));
        if a.len() > 0 {
            law_bytes_are_spelled_in_order(a.drop_last(), b);
        }
    }
}

} // verus!
