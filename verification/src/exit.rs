//! The process exit-code taxonomy shared by all subcommands.

use vstd::prelude::*;

verus! {

/// Why a command failed, which decides the process exit code.
#[derive(Debug, Clone, Copy, PartialEq, Eq, Structural)]
pub enum ExitKind {
    /// Invalid arguments, session not found, bad configuration (code 1).
    UserError,
    /// Session data could not be parsed (code 2).
    DataError,
    /// The result could not be delivered: write failure, TUI without a
    /// terminal, render or listener failure (code 3).
    OutputError,
}

impl ExitKind {
    /// The process exit code: 1, 2 or 3.
    pub fn code(self) -> (r: i32)
        ensures
            r == match self {
                ExitKind::UserError => 1i32,
                ExitKind::DataError => 2i32,
                ExitKind::OutputError => 3i32,
            },
    {
        match self {
            ExitKind::UserError => 1,
            ExitKind::DataError => 2,
            ExitKind::OutputError => 3,
        }
    }

    /// The short description: `user error`, `data error`, `output error`.
    pub fn describe(self) -> (r: &'static str)
        ensures
            r@ == match self {
                ExitKind::UserError => "user error"@,
                ExitKind::DataError => "data error"@,
                ExitKind::OutputError => "output error"@,
            },
    {
        proof {
            reveal_strlit("user error");
            reveal_strlit("data error");
            reveal_strlit("output error");
        }
        match self {
            ExitKind::UserError => "user error",
            ExitKind::DataError => "data error",
            ExitKind::OutputError => "output error",
        }
    }
}

/// The process exit code of a failed command: its kind's code, or 1 (a
/// user error) when the failure carries no kind.
pub fn exit_code_for(kind: Option<ExitKind>) -> (r: u8)
    ensures
        r == match kind {
            Some(ExitKind::UserError) => 1u8,
            Some(ExitKind::DataError) => 2u8,
            Some(ExitKind::OutputError) => 3u8,
            None => 1u8,
        },
{
    match kind {
        Some(ExitKind::UserError) => 1,
        Some(ExitKind::DataError) => 2,
        Some(ExitKind::OutputError) => 3,
        None => 1,
    }
}

/// Distinct kinds exit with distinct, non-zero codes.
pub proof fn law_exit_codes_distinct(a: ExitKind, b: ExitKind)
    ensures
        (match a {
            ExitKind::UserError => 1int,
            ExitKind::DataError => 2int,
            ExitKind::OutputError => 3int,
        }) == (match b {
            ExitKind::UserError => 1int,
            ExitKind::DataError => 2int,
            ExitKind::OutputError => 3int,
        }) ==> a == b,
{
}

} // verus!
