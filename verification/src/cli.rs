//! Decisions of the command line: which handler serves a subcommand, and the
//! log level named in the runtime's parameters.
use crate::text::same_text;
use vstd::prelude::*;

verus! {

broadcast use vstd::string::group_string_axioms;

/// The subcommands of the OCI runtime command line.
#[derive(Debug, Clone, Copy, PartialEq, Eq, Structural)]
pub enum Subcommand {
    Create,
    Start,
    State,
    Kill,
    Delete,
    Checkpoint,
    Events,
    Exec,
    Features,
    List,
    Pause,
    Ps,
    Resume,
    Run,
    Update,
    Spec,
}

/// Who serves a subcommand: the runtime itself, or `crun` unchanged.
#[derive(Debug, Clone, Copy, PartialEq, Eq, Structural)]
pub enum Handler {
    Create,
    Delete,
    Start,
    Crun,
}

/// `create`, `delete` and `start` are served by the runtime; every other
/// subcommand is handed to `crun` as it was given.
pub open spec fn handler_of(cmd: Subcommand) -> Handler {
    match cmd {
        Subcommand::Create => Handler::Create,
        Subcommand::Delete => Handler::Delete,
        Subcommand::Start => Handler::Start,
        _ => Handler::Crun,
    }
}

/// The handler of the subcommand `cmd`.
pub fn route(cmd: Subcommand) -> (h: Handler)
    ensures
        h == handler_of(cmd),
{
    match cmd {
        Subcommand::Create => Handler::Create,
        Subcommand::Delete => Handler::Delete,
        Subcommand::Start => Handler::Start,
        _ => Handler::Crun,
    }
}

/// The levels of the runtime's log.
#[derive(Debug, Clone, Copy, PartialEq, Eq, Structural)]
pub enum LogLevel {
    Info,
    Debug,
    Trace,
}

/// The log level a name selects: `info`, `debug` and `trace` their own level,
/// anything else `Info`.
pub open spec fn log_level_of(name: Seq<char>) -> LogLevel {
    if name == "debug"@ {
        LogLevel::Debug
    } else if name == "trace"@ {
        LogLevel::Trace
    } else {
        LogLevel::Info
    }
}

/// The log level that `name` selects.
pub fn log_level_from_name(name: &str) -> (l: LogLevel)
    ensures
        l == log_level_of(name@),
{
    proof {
        reveal_strlit("info");
        reveal_strlit("debug");
        reveal_strlit("trace");
        assert("info"@ != "debug"@ && "info"@ != "trace"@) by {
            assert("info"@.len() != "debug"@.len());
            assert("info"@[0] != "trace"@[0]);
        }
    }
    if same_text(name, "info") {
        LogLevel::Info
    } else if same_text(name, "debug") {
        LogLevel::Debug
    } else if same_text(name, "trace") {
        LogLevel::Trace
    } else {
        LogLevel::Info
    }
}

} // verus!
