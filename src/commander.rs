use vstd::prelude::*;

use crate::error::Error;

verus! {

/// What `shell_words::split` gives for a text: its words, or `None` where a quote
/// is left open.
pub uninterp spec fn shell_split(s: Seq<char>) -> Option<Seq<Seq<char>>>;

pub open spec fn words_view(v: Seq<String>) -> Seq<Seq<char>> {
    v.map_values(|w: String| w@)
}

/// Relies on `shell_words::split`: the words of `s` under the quoting rules of a
/// POSIX shell, or an error for an unclosed quote.
#[verifier::external_body]
fn split_words(s: &str) -> (r: Option<Vec<String>>)
    ensures
        r is None <==> shell_split(s@) is None,
        r matches Some(v) ==> shell_split(s@) == Some(words_view(v@)),
{
    shell_words::split(s).ok()
}

/// A command's words as `shell_words::split` gave them: an error where a quote
/// was left open or where there is no program.
pub fn check_words(words: Option<Vec<String>>) -> (r: Result<Vec<String>, Error>)
    ensures
        match words {
            None => r matches Err(Error::CommandSyntax),
            Some(v) => if v@.len() == 0 {
                r matches Err(Error::MissingProgram)
            } else {
                r matches Ok(x) && x == v
            },
        },
{
    match words {
        None => Err(Error::CommandSyntax),
        Some(v) => if v.len() == 0 {
            Err(Error::MissingProgram)
        } else {
            Ok(v)
        },
    }
}

/// Splits a hook command into its program and arguments.
pub fn parse_command(cmd: &str) -> (r: Result<Vec<String>, Error>)
    ensures
        match shell_split(cmd@) {
            None => r matches Err(Error::CommandSyntax),
            Some(w) => if w.len() == 0 {
                r matches Err(Error::MissingProgram)
            } else {
                r matches Ok(x) && words_view(x@) == w && x@.len() > 0
            },
        },
{
    check_words(split_words(cmd))
}

} // verus!
