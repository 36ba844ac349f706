//! A thin command-parsing service: the run-command grammar applied to an
//! incoming command string, producing the typed language/code pair.

use vstd::prelude::*;

use crate::command::cmd_code;
use crate::command::cmd_lang;
use crate::command::cmd_matches;
use crate::command::parse_run_command;
use crate::errors::ExecError;

verus! {

/// A parsed run command: the language tag and the code text.
#[derive(Debug)]
pub struct RawScript {
    pub language: String,
    pub code: String,
}

/// Parse a command string; fails with `InvalidCommand` exactly when the
/// run-command grammar does not match.
pub fn parse_command(cmd: &str) -> (r: Result<RawScript, ExecError>)
    ensures
        r is Ok <==> cmd_matches(cmd@),
        r matches Ok(s) ==> s.language@ == cmd_lang(cmd@) && s.code@ == cmd_code(cmd@),
        r matches Err(e) ==> e is InvalidCommand,
{
    match parse_run_command(cmd) {
        Some((language, code)) => Ok(RawScript { language, code }),
        None => Err(ExecError::InvalidCommand),
    }
}

} // verus!
