//! Configuration paths: where the command definitions and the last
//! command live, with shell-style tilde expansion.

use vstd::prelude::*;

use crate::command_definitions::ParameterDefinition;

verus! {

/// The shell used when the environment names none.
pub const DEFAULT_SHELL: &'static str = "/bin/bash";

/// Relies on shellexpand::tilde: only a leading `~` (alone or before a
/// separator) is replaced by the home directory; any other input comes
/// back unchanged, and so does one whose home directory is unknown.
#[verifier::external_body]
fn tilde_expand(s: &str) -> (r: String)
    ensures
        s@.len() == 0 ==> r@ == s@,
        s@.len() > 0 && s@[0] != '~' ==> r@ == s@,
{
    shellexpand::tilde(s).to_string()
}

/// The path of the command definition file: the given one when one is
/// given, else the default, tilde-expanded either way.  A path that
/// does not start with `~` comes back unchanged.
pub fn get_config_path(config_path_arg: &Option<String>) -> (r: String)
    ensures
        (match config_path_arg {
            Some(p) => (p@.len() > 0 && p@[0] != '~') ==> r@ == p@,
            None => true,
        }),
{
    match config_path_arg {
        Some(config_path) => tilde_expand(config_path.as_str()),
        None => tilde_expand("~/.rust-cuts/commands.yml"),
    }
}

/// The path of the stored last command: the given one when one is
/// given, else the default, tilde-expanded either way.  A path that
/// does not start with `~` comes back unchanged.
pub fn get_last_command_path(last_command_path_arg: &Option<String>) -> (r: String)
    ensures
        (match last_command_path_arg {
            Some(p) => (p@.len() > 0 && p@[0] != '~') ==> r@ == p@,
            None => true,
        }),
{
    match last_command_path_arg {
        Some(last_command_path) => tilde_expand(last_command_path.as_str()),
        None => tilde_expand("~/.rust-cuts/last_command.yml"),
    }
}

/// Expands a working directory, if one is given.  A directory that does
/// not start with `~` comes back unchanged.
pub fn expand_working_directory(working_directory: &Option<String>) -> (r: Option<String>)
    ensures
        working_directory is None <==> r is None,
        (match working_directory {
            Some(p) => (p@.len() > 0 && p@[0] != '~') ==> (r matches Some(e) && e@ == p@),
            None => true,
        }),
{
    match working_directory {
        Some(wd) => Some(tilde_expand(wd.as_str())),
        None => None,
    }
}

} // verus!
