//! Shell invocations: the command lines the tool hands to `bash -c`, and the
//! decision taken on each answer to the confirmation prompt.

use vstd::prelude::*;
use crate::text::{debug_str, str_debug, str_equal};

verus! {

/// A request to run `command` through `/usr/bin/env bash -c`, asking the user
/// first when `verify_command` is set.
pub struct BashCall {
    pub command: String,
    pub verify_command: bool,
}

/// What to do after the user answered the confirmation prompt.
#[derive(Debug, PartialEq, Eq, Structural)]
pub enum PromptReply {
    /// `yes`: run the command.
    Execute,
    /// `skip`: return without running it.
    Skip,
    /// `exit`: abort the program.
    Exit,
    /// Anything else: show the prompt again and read another line.
    Retry,
}

/// The reply a line (without its final newline) stands for.
pub open spec fn reply_for(answer: Seq<char>) -> PromptReply {
    if answer == "yes"@ {
        PromptReply::Execute
    } else if answer == "skip"@ {
        PromptReply::Skip
    } else if answer == "exit"@ {
        PromptReply::Exit
    } else {
        PromptReply::Retry
    }
}

/// The text shown before each confirmation read.
pub fn options_prompt() -> (r: &'static str)
    ensures
        r@ == "Please type [yes] to continue, [skip] to skip this step, [exit] to exit: \n"@,
{
    "Please type [yes] to continue, [skip] to skip this step, [exit] to exit: \n"
}

/// The question printed before asking to confirm `command`.
pub fn execute_question(command: &str) -> (r: String)
    ensures
        r@ == "Execute? "@ + str_debug(command@),
{
    let mut r = "Execute? ".to_owned();
    let quoted = debug_str(command);
    r.append(quoted.as_str());
    r
}

/// Decides on a line read from the terminal, newline included.
pub fn prompt_reply(line: &str) -> (r: PromptReply)
    requires
        line@.len() > 0,
        line@.last() == '\n',
    ensures
        r == reply_for(line@.drop_last()),
{
    let n = line.unicode_len();
    let input = line.substring_char(0, n - 1);
    assert(input@ =~= line@.drop_last());
    if str_equal(input, "yes") {
        PromptReply::Execute
    } else if str_equal(input, "skip") {
        PromptReply::Skip
    } else if str_equal(input, "exit") {
        PromptReply::Exit
    } else {
        PromptReply::Retry
    }
}

} // verus!
