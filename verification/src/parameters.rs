//! The parameter-mode surface: the same classification and merge as
//! [`crate::arguments`], under the names of the mode-based interface.

use vstd::prelude::*;

use indexmap::IndexSet;

use crate::arguments::{
    needs_prompt_by_flag, process_command_line, spec_needs_prompt, spec_process_command_line,
    process_result_matches, Style,
};
use crate::command_definitions::CommandExecutionTemplate;
use crate::errors::Error;
use crate::params::ParamContext;
use crate::tokens::token_seq;

verus! {

/// How parameter values were supplied on the command line.  The three
/// ways are mutually exclusive by construction.
#[derive(PartialEq, Clone, Debug)]
pub enum ParameterMode {
    /// No values: defaults are used or the user is prompted.
    Unspecified,
    /// Named values, each of the form `key=value`.
    Named(Vec<String>),
    /// Positional values, matched to template variables by position.
    Positional(Vec<String>),
}

/// The same classification, seen as an argument style.
pub open spec fn mode_as_style(m: ParameterMode) -> Style {
    match m {
        ParameterMode::Unspecified => Style::Unspecified,
        ParameterMode::Named(v) => Style::Named(v),
        ParameterMode::Positional(v) => Style::Positional(v),
    }
}

impl ParameterMode {
    /// The same classification as an argument style.
    pub fn into_style(self) -> (r: Style)
        ensures
            r == mode_as_style(self),
    {
        match self {
            ParameterMode::Unspecified => Style::Unspecified,
            ParameterMode::Named(v) => Style::Named(v),
            ParameterMode::Positional(v) => Style::Positional(v),
        }
    }

    /// Whether no command-line values were supplied.
    pub fn is_unspecified(&self) -> (r: bool)
        ensures
            r == (self is Unspecified),
    {
        matches!(self, ParameterMode::Unspecified)
    }
}

/// Anything that can classify its supplied parameter values as a
/// parameter mode.
pub trait ParameterModeProvider {
    /// Classifies the supplied values, rejecting a mix of named and
    /// positional ones.
    fn get_parameter_mode(&self) -> Result<ParameterMode, Error>;
}

/// Classifies the supplied values: both kinds at once are rejected, one
/// kind alone is kept as given, none means no values.
pub fn determine_parameter_mode(parameters: &[String], positional_args: &[String]) -> (r: Result<
    ParameterMode,
    Error,
>)
    ensures
        (match r {
            Ok(m) => match m {
                ParameterMode::Unspecified => parameters@.len() == 0 && positional_args@.len()
                    == 0,
                ParameterMode::Named(v) => parameters@.len() > 0 && positional_args@.len() == 0
                    && v@ == parameters@,
                ParameterMode::Positional(v) => parameters@.len() == 0 && positional_args@.len()
                    > 0 && v@ == positional_args@,
            },
            Err(e) => parameters@.len() > 0 && positional_args@.len() > 0
                && e matches Error::MixedParameterMode,
        }),
{
    match crate::arguments::determine(parameters, positional_args) {
        Ok(Style::Unspecified) => Ok(ParameterMode::Unspecified),
        Ok(Style::Named(v)) => Ok(ParameterMode::Named(v)),
        Ok(Style::Positional(v)) => Ok(ParameterMode::Positional(v)),
        Err(e) => Err(e),
    }
}

/// Merges the command-line values into the declared parameter map; the
/// mode-based name for [`process_command_line`].
pub fn process_command_line_parameters(
    parameter_mode: ParameterMode,
    execution_context: &CommandExecutionTemplate,
    parameter_definitions: Option<&ParamContext>,
) -> (r: Result<Option<ParamContext>, Error>)
    ensures
        process_result_matches(
            r,
            spec_process_command_line(
                mode_as_style(parameter_mode),
                execution_context.command.deep_view(),
                (match parameter_definitions {
                    Some(d) => Some(d@),
                    None => None,
                }),
            ),
        ),
{
    let style = parameter_mode.into_style();
    process_command_line(style, execution_context, parameter_definitions)
}

/// Decides whether the user must be prompted for parameter values.
pub fn should_prompt_for_parameters(
    tokens: &IndexSet<String>,
    filled_parameters: Option<&ParamContext>,
    is_rerun: bool,
    parameter_mode: &ParameterMode,
) -> (r: bool)
    ensures
        r == spec_needs_prompt(
            token_seq(*tokens),
            (match filled_parameters {
                Some(m) => Some(m@),
                None => None,
            }),
            is_rerun,
            parameter_mode is Unspecified,
        ),
{
    let unspecified = parameter_mode.is_unspecified();
    needs_prompt_by_flag(tokens, filled_parameters, is_rerun, unspecified)
}

} // verus!
