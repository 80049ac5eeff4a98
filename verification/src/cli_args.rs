//! The command-line surface, as plain values.
//!
//! Flag parsing itself lives outside; the structures here carry the
//! parsed flags into the engine, and the pre-checks on them are proved.

use vstd::prelude::*;

use indexmap::IndexSet;

use crate::arguments::{determine, Style};
use crate::command_definitions::CommandExecutionTemplate;
use crate::errors::Error;
use crate::interpolation::{assoc_lookup, template_ctx_opt_view, TemplateContext};
use crate::tokens::{token_seq, token_set_get, token_set_is_empty, token_set_len};

verus! {

/// The flags and values of a run: paths, the run-mode flags, the chosen
/// command, and the supplied parameter values.
#[derive(Debug, Clone, PartialEq)]
pub struct ExecArgs {
    /// Path of the command definition file, when given.
    pub config_path: Option<String>,
    /// Path of the stored last command, when given.
    pub last_command_path: Option<String>,
    /// Show the resolved command and stop.
    pub dry_run: bool,
    /// Run without asking for confirmation.
    pub force: bool,
    /// Rerun the previous command instead of selecting one.
    pub rerun_last_command: bool,
    /// Do not store this run as the last command.
    pub skip_command_save: bool,
    /// The chosen command, by id or by position, when given.
    pub command_id_or_index: Option<String>,
    /// Named parameter values, each of the form `key=value`.
    pub parameters: Vec<String>,
    /// Positional parameter values.
    pub positional_arguments: Vec<String>,
}

/// The flags of configuration initialization.
#[derive(Debug, Clone, PartialEq)]
pub struct InitArgs {
    /// Overwrite an existing configuration.
    pub force: bool,
    /// Path of the configuration file, when given.
    pub config_path: Option<String>,
}

/// The flags of interactive command creation.
#[derive(Debug, Clone, PartialEq)]
pub struct NewArgs {
    /// Id of the new command, when given.
    pub id: Option<String>,
    /// Description of the new command, when given.
    pub description: Option<String>,
}

/// One of the tool's subcommands with its flags.
#[derive(Debug, Clone, PartialEq)]
pub enum Commands {
    /// Select, resolve and run a stored command.
    Exec(ExecArgs),
    /// Initialize a configuration.
    Init(InitArgs),
    /// Create a new command definition.
    New(NewArgs),
}

/// The whole parsed command line.
#[derive(Debug, Clone, PartialEq)]
pub struct Args {
    /// The chosen subcommand.
    pub command: Commands,
}

/// Anything that can classify its supplied parameter values as an
/// argument style.
pub trait Provider {
    /// Classifies the supplied values, rejecting a mix of named and
    /// positional ones.
    fn get_style(&self) -> Result<Style, Error>;
}

impl ExecArgs {
    /// Classifies the supplied values: named and positional values must
    /// not be mixed.
    pub fn style(&self) -> (r: Result<Style, Error>)
        ensures
            (match r {
                Ok(s) => match s {
                    Style::Unspecified => self.parameters@.len() == 0
                        && self.positional_arguments@.len() == 0,
                    Style::Named(v) => self.parameters@.len() > 0
                        && self.positional_arguments@.len() == 0 && v@ == self.parameters@,
                    Style::Positional(v) => self.parameters@.len() == 0
                        && self.positional_arguments@.len() > 0 && v@
                        == self.positional_arguments@,
                },
                Err(e) => self.parameters@.len() > 0 && self.positional_arguments@.len() > 0
                    && e matches Error::MixedParameterMode,
            }),
    {
        determine(self.parameters.as_slice(), self.positional_arguments.as_slice())
    }
}

impl Provider for ExecArgs {
    fn get_style(&self) -> Result<Style, Error> {
        self.style()
    }
}

impl crate::parameters::ParameterModeProvider for ExecArgs {
    fn get_parameter_mode(&self) -> Result<crate::parameters::ParameterMode, Error> {
        crate::parameters::determine_parameter_mode(
            self.parameters.as_slice(),
            self.positional_arguments.as_slice(),
        )
    }
}

/// Checks the rerun request before anything is loaded: rerunning the
/// last command together with an explicit id or index is a usage error;
/// without the rerun flag there is nothing to rerun.
pub fn get_rerun_request_is_valid(args: &ExecArgs) -> (r: Result<bool, Error>)
    ensures
        !args.rerun_last_command ==> (r matches Ok(b) && b == false),
        (args.rerun_last_command && args.command_id_or_index is Some) ==> (r matches Err(e)
            && e is RerunWithIndex),
        (args.rerun_last_command && args.command_id_or_index is None) ==> (r matches Ok(b) && b
            == true),
{
    if !args.rerun_last_command {
        return Ok(false);
    }
    if args.command_id_or_index.is_some() {
        return Err(Error::RerunWithIndex);
    }
    Ok(true)
}

/// Decides whether the previous command is to be rerun: the flag must
/// be set without an explicit id or index, and a previous command must
/// exist.
pub fn get_should_rerun_last_command(
    args: &ExecArgs,
    last_command: &Option<CommandExecutionTemplate>,
) -> (r: Result<bool, Error>)
    ensures
        !args.rerun_last_command ==> (r matches Ok(b) && b == false),
        (args.rerun_last_command && args.command_id_or_index is Some) ==> (r matches Err(e)
            && e is RerunWithIndex),
        (args.rerun_last_command && args.command_id_or_index is None) ==> (r matches Ok(b) && b
            == (last_command is Some)),
{
    if !args.rerun_last_command {
        return Ok(false);
    }
    if args.command_id_or_index.is_some() {
        return Err(Error::RerunWithIndex);
    }
    if last_command.is_none() {
        return Ok(false);
    }
    Ok(true)
}

/// Whether to prompt, judged from resolved values alone: never without
/// template variables; always for a fresh run; on a rerun, only when
/// some variable has no resolved value.
pub fn get_should_prompt_for_parameters(
    tokens: &IndexSet<String>,
    provided_defaults: &Option<TemplateContext>,
    is_rerun: bool,
) -> (r: bool)
    ensures
        token_seq(*tokens).len() == 0 ==> r == false,
        (token_seq(*tokens).len() > 0 && !is_rerun) ==> r == true,
        (token_seq(*tokens).len() > 0 && is_rerun) ==> r == (match template_ctx_opt_view(
            provided_defaults,
        ) {
            Some(d) => exists|i: int|
                0 <= i < token_seq(*tokens).len() && #[trigger] assoc_lookup(
                    d,
                    token_seq(*tokens)[i],
                ) is None,
            None => true,
        }),
{
    let ghost toks = token_seq(*tokens);
    if token_set_is_empty(tokens) {
        return false;
    }
    if !is_rerun {
        return true;
    }
    match provided_defaults {
        Some(defaults) => {
            let n = token_set_len(tokens);
            let mut i: usize = 0;
            while i < n
                invariant
                    i <= n,
                    n == toks.len(),
                    toks == token_seq(*tokens),
                    toks.len() > 0,
                    is_rerun,
                    provided_defaults matches Some(pd) && pd@ == defaults@,
                    forall|k: int|
                        0 <= k < i ==> #[trigger] assoc_lookup(defaults@, toks[k]) is Some,
                decreases n - i,
            {
                let token = match token_set_get(tokens, i) {
                    Some(t) => t,
                    None => {
                        proof {
                            assert(false);
                        }
                        return false;
                    },
                };
                if defaults.get(token).is_none() {
                    proof {
                        assert(assoc_lookup(defaults@, token_seq(*tokens)[i as int]) is None);
                    }
                    return true;
                }
                i += 1;
            }
            false
        },
        None => true,
    }
}

} // verus!
