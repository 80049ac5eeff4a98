//! The data model: commands, parameters, colors, and the execution
//! template that a selection turns into.

use vstd::prelude::*;
use vstd::string::StringExecFns;

use indexmap::IndexSet;

use crate::errors::Error;
use crate::interpolation::{get_templates, spec_get_templates, templates_view};
use crate::params::ParamContext;
use crate::template::Template;
use crate::tokens::{all_keys, dedup_first, extract_ordered_tokens, token_seq};

verus! {

/// A declared or resolved template variable: its name, an optional
/// default value, and an optional human-readable description.
#[derive(Debug, Clone, PartialEq)]
pub struct ParameterDefinition {
    /// Unique identifier, matching a template variable of the command.
    pub id: String,
    /// Default value used when the user provides none.
    pub default: Option<String>,
    /// Human-readable description of the parameter.
    pub description: Option<String>,
}

/// A color for command styling: by RGB triple, by ANSI code, or by name.
/// Only one of the three may be given.
#[derive(Debug, Clone, PartialEq)]
pub struct ColorDefinition {
    /// RGB color as (red, green, blue).
    pub rgb: Option<(u8, u8, u8)>,
    /// ANSI palette code.
    pub ansi: Option<u8>,
    /// Named color such as "red" or "darkblue".
    pub name: Option<String>,
}

/// Display metadata of a command: its colors in the selection list.
#[derive(Debug, Clone, PartialEq)]
pub struct CommandMetadata {
    /// Color of the command's text.
    pub foreground_color: Option<ColorDefinition>,
    /// Color behind the command's text.
    pub background_color: Option<ColorDefinition>,
}

/// One stored command: its argument templates and everything declared
/// around them.
#[derive(Debug, Clone, PartialEq)]
pub struct CommandDefinition {
    /// The command and arguments, possibly holding template variables.
    pub command: Vec<String>,
    /// Optional unique identifier.
    pub id: Option<String>,
    /// Human-readable description.
    pub description: Option<String>,
    /// Directory to change to before executing.
    pub working_directory: Option<String>,
    /// Declared parameters of the templates.
    pub parameters: Option<Vec<ParameterDefinition>>,
    /// Environment variables set for the execution, as name/value pairs.
    pub environment: Option<Vec<(String, String)>>,
    /// Display metadata.
    pub metadata: Option<CommandMetadata>,
}

/// A command ready for parameter resolution and execution; also the
/// persisted "last command" shape.
#[derive(Debug, Clone, PartialEq)]
pub struct CommandExecutionTemplate {
    /// The command and arguments, possibly holding template variables.
    pub command: Vec<String>,
    /// Directory to change to before executing.
    pub working_directory: Option<String>,
    /// Resolved parameter context, once parameters were filled in.
    pub template_context: Option<ParamContext>,
    /// Environment variables set for the execution, as name/value pairs.
    pub environment: Option<Vec<(String, String)>>,
}

/// The parts joined by single spaces: how a command list is shown.
pub open spec fn join_spaces(parts: Seq<Seq<char>>) -> Seq<char>
    decreases parts.len(),
{
    if parts.len() == 0 {
        Seq::empty()
    } else if parts.len() == 1 {
        parts[0]
    } else {
        join_spaces(parts.drop_last()) + seq![' '] + parts.last()
    }
}

/// Joins strings with single spaces.
pub fn join_with_spaces(parts: &Vec<String>) -> (r: String)
    ensures
        r@ == join_spaces(parts.deep_view()),
{
    let ghost ps = parts.deep_view();
    let mut out = String::new();
    let mut i: usize = 0;
    proof {
        assert(ps.take(0) =~= Seq::<Seq<char>>::empty());
    }
    while i < parts.len()
        invariant
            i <= parts@.len(),
            ps == parts.deep_view(),
            out@ == join_spaces(ps.take(i as int)),
        decreases parts@.len() - i,
    {
        proof {
            assert(ps[i as int] == parts@[i as int]@);
            assert(ps.take(i + 1).drop_last() =~= ps.take(i as int));
            assert(ps.take(i + 1).last() == ps[i as int]);
        }
        if i > 0 {
            out.append(" ");
            proof {
                reveal_strlit(" ");
                assert(" "@ =~= seq![' ']);
            }
        } else {
            proof {
                assert(ps.take(1) =~= seq![ps[0]]);
            }
        }
        out.append(parts[i].as_str());
        proof {
            if i > 0 {
                assert(out@ == join_spaces(ps.take(i as int)) + seq![' '] + ps[i as int]);
            } else {
                assert(join_spaces(ps.take(0)) + ps[0] =~= ps[0]);
            }
        }
        i += 1;
    }
    proof {
        assert(ps.take(parts@.len() as int) =~= ps);
    }
    out
}

/// The display label of a parameter: its id in backticks, then the
/// description in parentheses if there is one.
pub open spec fn spec_parameter_label(p: &ParameterDefinition) -> Seq<char> {
    let base = seq!['`'] + p.id@ + seq!['`'];
    match p.description {
        Some(d) => base + seq![' ', '('] + d@ + seq![')'],
        None => base,
    }
}

/// The display name of a command: its id and description when given,
/// either alone when only one is given, else the command itself.
pub open spec fn spec_command_display_name(cmd: &CommandDefinition) -> Seq<char> {
    match (cmd.id, cmd.description) {
        (Some(id), Some(d)) => id@ + seq![' ', '('] + d@ + seq![')'],
        (Some(id), None) => id@,
        (None, Some(d)) => d@,
        (None, None) => join_spaces(cmd.command.deep_view()),
    }
}

impl ParameterDefinition {
    /// The display label: the id in backticks, then the description in
    /// parentheses if there is one.
    pub fn display_label(&self) -> (r: String)
        ensures
            r@ == spec_parameter_label(self),
    {
        let mut out = String::new();
        out.append("`");
        out.append(self.id.as_str());
        out.append("`");
        proof {
            reveal_strlit("`");
            assert("`"@ =~= seq!['`']);
            assert(out@ =~= seq!['`'] + self.id@ + seq!['`']);
        }
        match &self.description {
            Some(d) => {
                out.append(" (");
                out.append(d.as_str());
                out.append(")");
                proof {
                    reveal_strlit(" (");
                    reveal_strlit(")");
                    assert(" ("@ =~= seq![' ', '(']);
                    assert(")"@ =~= seq![')']);
                    assert(out@ =~= spec_parameter_label(self));
                }
            },
            None => {
            },
        }
        out
    }
}

/// The display name of a command, as the selection list shows it.
pub fn get_command_display_name(cmd: &CommandDefinition) -> (r: String)
    ensures
        r@ == spec_command_display_name(cmd),
{
    match (&cmd.id, &cmd.description) {
        (Some(id), Some(d)) => {
            let mut out = String::new();
            out.append(id.as_str());
            out.append(" (");
            out.append(d.as_str());
            out.append(")");
            proof {
                reveal_strlit(" (");
                reveal_strlit(")");
                assert(" ("@ =~= seq![' ', '(']);
                assert(")"@ =~= seq![')']);
                assert(out@ =~= id@ + seq![' ', '('] + d@ + seq![')']);
            }
            out
        },
        (Some(id), None) => {
            let mut out = String::new();
            out.append(id.as_str());
            proof {
                assert(out@ =~= id@);
            }
            out
        },
        (None, Some(d)) => {
            let mut out = String::new();
            out.append(d.as_str());
            proof {
                assert(out@ =~= d@);
            }
            out
        },
        (None, None) => join_with_spaces(&cmd.command),
    }
}

impl CommandDefinition {
    /// The display name, as the selection list shows it.
    pub fn display_name(&self) -> (r: String)
        ensures
            r@ == spec_command_display_name(self),
    {
        get_command_display_name(self)
    }
}

/// Copies a list of environment name/value pairs.
fn clone_env_entries(v: &Vec<(String, String)>) -> (r: Vec<(String, String)>)
    ensures
        r.deep_view() == v.deep_view(),
{
    let mut out: Vec<(String, String)> = Vec::new();
    let mut i: usize = 0;
    while i < v.len()
        invariant
            i <= v@.len(),
            out@.len() == i,
            forall|k: int| 0 <= k < i ==> out@[k] == v@[k],
        decreases v@.len() - i,
    {
        let name = v[i].0.clone();
        let value = v[i].1.clone();
        out.push((name, value));
        i += 1;
        proof {
            assert(out@[i - 1].0 == v@[i - 1].0);
            assert(out@[i - 1].1 == v@[i - 1].1);
        }
    }
    proof {
        assert forall|k: int| 0 <= k < v@.len() implies out.deep_view()[k] == v.deep_view()[k] by {
            assert(out@[k] == v@[k]);
        }
        assert(out.deep_view() =~= v.deep_view());
    }
    out
}

/// Copies an optional list of environment name/value pairs.
pub fn clone_environment(e: &Option<Vec<(String, String)>>) -> (r: Option<
    Vec<(String, String)>,
>)
    ensures
        r.deep_view() == e.deep_view(),
{
    match e {
        Some(v) => Some(clone_env_entries(v)),
        None => None,
    }
}

/// Anything holding command-argument templates: parsing them and
/// extracting their variables, in canonical first-appearance order.
pub trait TemplateParser {
    /// The command strings that may hold template variables.
    spec fn spec_command_templates(&self) -> Seq<Seq<char>>;

    /// The command strings that may hold template variables.
    fn get_command_templates(&self) -> (r: &Vec<String>)
        ensures
            r.deep_view() == self.spec_command_templates(),
    ;

    /// Parses the command strings, failing on the first malformed one.
    fn get_templates(&self) -> (r: Result<Vec<Template>, Error>)
        ensures
            (match r {
                Ok(v) => spec_get_templates(self.spec_command_templates()) matches Ok(ts)
                    && templates_view(v@) == ts,
                Err(e) => spec_get_templates(self.spec_command_templates()) matches Err(k)
                    && e matches Error::Parse(k2) && k2 == k,
            }),
    {
        get_templates(self.get_command_templates())
    }

    /// Extracts each distinct template variable once, ordered by first
    /// appearance across the whole template list.
    fn get_ordered_context_variables(&self) -> (r: Result<IndexSet<String>, Error>)
        ensures
            (match r {
                Ok(set) => spec_get_templates(self.spec_command_templates()) matches Ok(ts)
                    && token_seq(set) == dedup_first(all_keys(ts)),
                Err(e) => spec_get_templates(self.spec_command_templates()) matches Err(k)
                    && e matches Error::Parse(k2) && k2 == k,
            }),
    {
        match self.get_templates() {
            Ok(templates) => Ok(extract_ordered_tokens(&templates)),
            Err(e) => Err(e),
        }
    }
}

impl TemplateParser for CommandDefinition {
    open spec fn spec_command_templates(&self) -> Seq<Seq<char>> {
        self.command.deep_view()
    }

    fn get_command_templates(&self) -> (r: &Vec<String>) {
        &self.command
    }
}

impl TemplateParser for CommandExecutionTemplate {
    open spec fn spec_command_templates(&self) -> Seq<Seq<char>> {
        self.command.deep_view()
    }

    fn get_command_templates(&self) -> (r: &Vec<String>) {
        &self.command
    }
}

/// Whether two execution templates hold the same command, working
/// directory, parameter context and environment.
pub open spec fn spec_same_template(a: &CommandExecutionTemplate, b: &CommandExecutionTemplate) -> bool {
    &&& a.command.deep_view() == b.command.deep_view()
    &&& a.working_directory.deep_view() == b.working_directory.deep_view()
    &&& (match (a.template_context, b.template_context) {
        (Some(x), Some(y)) => x@ == y@,
        (None, None) => true,
        _ => false,
    })
    &&& a.environment.deep_view() == b.environment.deep_view()
}

impl CommandExecutionTemplate {
    /// Builds an execution template from a command definition, leaving
    /// the parameter context empty for later resolution.
    pub fn from_command_definition(value: &CommandDefinition) -> (r: CommandExecutionTemplate)
        ensures
            r.command.deep_view() == value.command.deep_view(),
            r.working_directory.deep_view() == value.working_directory.deep_view(),
            r.template_context is None,
            r.environment.deep_view() == value.environment.deep_view(),
    {
        let r = CommandExecutionTemplate {
            command: value.command.clone(),
            working_directory: value.working_directory.clone(),
            template_context: None,
            environment: clone_environment(&value.environment),
        };
        proof {
            assert(r.command.deep_view() =~= value.command.deep_view());
        }
        r
    }

    /// The display name: the command joined by spaces.
    pub fn display_name(&self) -> (r: String)
        ensures
            r@ == join_spaces(self.command.deep_view()),
    {
        join_with_spaces(&self.command)
    }

    /// A copy of the template.
    pub fn duplicate(&self) -> (r: CommandExecutionTemplate)
        ensures
            spec_same_template(&r, self),
    {
        let command = self.command.clone();
        let template_context = match &self.template_context {
            Some(ctx) => Some(ctx.duplicate()),
            None => None,
        };
        let r = CommandExecutionTemplate {
            command,
            working_directory: self.working_directory.clone(),
            template_context,
            environment: clone_environment(&self.environment),
        };
        proof {
            assert(r.command.deep_view() =~= self.command.deep_view());
        }
        r
    }
}

} // verus!
