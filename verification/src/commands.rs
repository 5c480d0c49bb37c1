//! The commands of the command line that are no Queries.

use vstd::prelude::*;

use crate::text::{same, views};

verus! {

/// The commands on mutations.
#[derive(Clone, Copy, Debug, PartialEq, Eq, Structural)]
pub enum MutationCommand {
    PreviewCreate,
    PreviewShow,
    PreviewList,
    PreviewDiscard,
    Apply,
    RecoveryStatus,
    RecoveryRollback,
    RecoveryAcceptCurrent,
    ReceiptShow,
    ReceiptList,
    StatePrune,
}

/// The words of a command on mutations.
pub open spec fn mutation_words(c: MutationCommand) -> Seq<Seq<char>> {
    match c {
        MutationCommand::PreviewCreate => seq!["preview"@, "create"@],
        MutationCommand::PreviewShow => seq!["preview"@, "show"@],
        MutationCommand::PreviewList => seq!["preview"@, "list"@],
        MutationCommand::PreviewDiscard => seq!["preview"@, "discard"@],
        MutationCommand::Apply => seq!["apply"@],
        MutationCommand::RecoveryStatus => seq!["recovery"@, "status"@],
        MutationCommand::RecoveryRollback => seq!["recovery"@, "rollback"@],
        MutationCommand::RecoveryAcceptCurrent => seq!["recovery"@, "accept-current"@],
        MutationCommand::ReceiptShow => seq!["receipt"@, "show"@],
        MutationCommand::ReceiptList => seq!["receipt"@, "list"@],
        MutationCommand::StatePrune => seq!["state"@, "prune"@],
    }
}

fn two_are(path: &Vec<String>, first: &str, second: &str) -> (r: bool)
    ensures
        r == (views(path@) == seq![first@, second@]),
{
    if path.len() != 2 {
        assert(views(path@).len() != seq![first@, second@].len());
        return false;
    }
    let r: bool = same(path[0].as_str(), first) && same(path[1].as_str(), second);
    proof {
        let all = views(path@);
        assert(all[0] == path@[0]@ && all[1] == path@[1]@);
        if r {
            assert(all =~= seq![first@, second@]);
        } else {
            assert(all[0] != seq![first@, second@][0] || all[1] != seq![first@, second@][1]);
        }
    }
    r
}

fn one_is(path: &Vec<String>, word: &str) -> (r: bool)
    ensures
        r == (views(path@) == seq![word@]),
{
    if path.len() != 1 {
        assert(views(path@).len() != seq![word@].len());
        return false;
    }
    let r: bool = same(path[0].as_str(), word);
    proof {
        let all = views(path@);
        assert(all[0] == path@[0]@);
        if r {
            assert(all =~= seq![word@]);
        } else {
            assert(all[0] != seq![word@][0]);
        }
    }
    r
}

/// The command on mutations that a command line gives, where it gives one.
pub fn dispatch_mutation_command(path: &Vec<String>) -> (r: Option<MutationCommand>)
    ensures
        match r {
            Some(c) => views(path@) == mutation_words(c),
            None => forall|c: MutationCommand| views(path@) != #[trigger] mutation_words(c),
        },
{
    if two_are(path, "preview", "create") {
        Some(MutationCommand::PreviewCreate)
    } else if two_are(path, "preview", "show") {
        Some(MutationCommand::PreviewShow)
    } else if two_are(path, "preview", "list") {
        Some(MutationCommand::PreviewList)
    } else if two_are(path, "preview", "discard") {
        Some(MutationCommand::PreviewDiscard)
    } else if one_is(path, "apply") {
        Some(MutationCommand::Apply)
    } else if two_are(path, "recovery", "status") {
        Some(MutationCommand::RecoveryStatus)
    } else if two_are(path, "recovery", "rollback") {
        Some(MutationCommand::RecoveryRollback)
    } else if two_are(path, "recovery", "accept-current") {
        Some(MutationCommand::RecoveryAcceptCurrent)
    } else if two_are(path, "receipt", "show") {
        Some(MutationCommand::ReceiptShow)
    } else if two_are(path, "receipt", "list") {
        Some(MutationCommand::ReceiptList)
    } else if two_are(path, "state", "prune") {
        Some(MutationCommand::StatePrune)
    } else {
        None
    }
}

/// The commands on sessions.
#[derive(Clone, Copy, Debug, PartialEq, Eq, Structural)]
pub enum SessionCommand {
    List,
    Status,
    Logs,
    Stop,
    Restart,
}

/// The word of a command on sessions.
pub open spec fn session_word(c: SessionCommand) -> Seq<char> {
    match c {
        SessionCommand::List => "list"@,
        SessionCommand::Status => "status"@,
        SessionCommand::Logs => "logs"@,
        SessionCommand::Stop => "stop"@,
        SessionCommand::Restart => "restart"@,
    }
}

/// The command on sessions whose word stands behind the first, where there is
/// one.
pub fn dispatch_session_command(path: &Vec<String>) -> (r: Option<SessionCommand>)
    ensures
        match r {
            Some(c) => path@.len() > 1 && path@[1]@ == session_word(c),
            None => forall|c: SessionCommand| path@.len() <= 1 || path@[1]@ != #[trigger] session_word(c),
        },
{
    if path.len() <= 1 {
        return None;
    }
    let word: &str = path[1].as_str();
    if same(word, "list") {
        Some(SessionCommand::List)
    } else if same(word, "status") {
        Some(SessionCommand::Status)
    } else if same(word, "logs") {
        Some(SessionCommand::Logs)
    } else if same(word, "stop") {
        Some(SessionCommand::Stop)
    } else if same(word, "restart") {
        Some(SessionCommand::Restart)
    } else {
        None
    }
}

/// The commands on trust.
#[derive(Clone, Copy, Debug, PartialEq, Eq, Structural)]
pub enum TrustCommand {
    Grant,
    Deny,
    Revoke,
    Status,
    List,
}

/// The word of a command on trust.
pub open spec fn trust_word(c: TrustCommand) -> Seq<char> {
    match c {
        TrustCommand::Grant => "grant"@,
        TrustCommand::Deny => "deny"@,
        TrustCommand::Revoke => "revoke"@,
        TrustCommand::Status => "status"@,
        TrustCommand::List => "list"@,
    }
}

/// The command on trust whose word stands behind the first, where there is one.
pub fn dispatch_trust_command(path: &Vec<String>) -> (r: Option<TrustCommand>)
    ensures
        match r {
            Some(c) => path@.len() > 1 && path@[1]@ == trust_word(c),
            None => forall|c: TrustCommand| path@.len() <= 1 || path@[1]@ != #[trigger] trust_word(c),
        },
{
    if path.len() <= 1 {
        return None;
    }
    let word: &str = path[1].as_str();
    if same(word, "grant") {
        Some(TrustCommand::Grant)
    } else if same(word, "deny") {
        Some(TrustCommand::Deny)
    } else if same(word, "revoke") {
        Some(TrustCommand::Revoke)
    } else if same(word, "status") {
        Some(TrustCommand::Status)
    } else if same(word, "list") {
        Some(TrustCommand::List)
    } else {
        None
    }
}

} // verus!
