//! The confirm/retry pipeline around a selected command: resolving the
//! selection, building the execution context, and interpreting the
//! confirmation answers.  The blocking reads and the subprocess itself
//! stay outside.

use vstd::prelude::*;

use crate::colors::{lower_of, lowercase_string};
use crate::command_definitions::{
    spec_same_template, CommandDefinition, CommandExecutionTemplate,
};
use crate::errors::Error;
use crate::interpolation::{assoc_lookup, TemplateContext};
use crate::numerals::spec_decimal;
use crate::params::{ParamContext, ParamV};
use crate::prompting::spec_last_default;
use crate::selection::{CommandChoice, RunChoice};
use crate::template::trim_spec;

verus! {

/// How one pass of the confirmation loop ends.
#[derive(Debug, Clone, Copy, PartialEq, Eq, Structural)]
pub enum ConfirmOutcome {
    /// Run the command.
    Execute,
    /// Stop cleanly: this was a dry run.
    AbortDryRun,
    /// Stop cleanly: the user declined.
    AbortDeclined,
    /// Ask for the parameters again and come back.
    Reprompt,
}

/// Decides how one pass of the confirmation loop ends: a dry run stops
/// after showing the command, a forced run executes without asking, and
/// otherwise the user's answer decides.
pub fn confirmation_decision(dry_run: bool, force: bool, confirmation: &RunChoice) -> (r:
    ConfirmOutcome)
    ensures
        r == (if dry_run {
            ConfirmOutcome::AbortDryRun
        } else if force {
            ConfirmOutcome::Execute
        } else {
            match confirmation {
                RunChoice::Yes => ConfirmOutcome::Execute,
                RunChoice::No => ConfirmOutcome::AbortDeclined,
                RunChoice::ChangeParams => ConfirmOutcome::Reprompt,
            }
        }),
{
    if dry_run {
        ConfirmOutcome::AbortDryRun
    } else if force {
        ConfirmOutcome::Execute
    } else {
        match confirmation {
            RunChoice::Yes => ConfirmOutcome::Execute,
            RunChoice::No => ConfirmOutcome::AbortDeclined,
            RunChoice::ChangeParams => ConfirmOutcome::Reprompt,
        }
    }
}

/// Reads one confirmation answer: `y` or nothing means yes, `n` no,
/// and `c` — offered only when there are parameters — asks to change
/// them.  Anything else means the question must be asked again.
pub fn interpret_run_choice(input: &str, has_params: bool) -> (r: Option<RunChoice>)
    ensures
        (({
            let low = lower_of(trim_spec(input@));
            if low == "y"@ || low.len() == 0 {
                r == Some(RunChoice::Yes)
            } else if low == "n"@ {
                r == Some(RunChoice::No)
            } else if low == "c"@ && has_params {
                r == Some(RunChoice::ChangeParams)
            } else {
                r is None
            }
        })),
{
    let n = vstd::string::StrSliceExecFns::unicode_len(input);
    proof {
        assert(input@.subrange(0, n as int) =~= input@);
    }
    let trimmed = match crate::template::trimmed_key(input, 0, n, n) {
        Some(t) => t,
        None => String::new(),
    };
    proof {
        if trim_spec(input@).len() == 0 {
            assert(trimmed@ =~= trim_spec(input@));
        }
        assert(trimmed@ == trim_spec(input@));
    }
    let low = lowercase_string(trimmed.as_str());
    let l = low.as_str();
    if crate::colors::str_eq(l, "y") || crate::colors::str_eq(l, "") {
        proof {
            reveal_strlit("");
            assert(""@.len() == 0);
        }
        Some(RunChoice::Yes)
    } else if crate::colors::str_eq(l, "n") {
        proof {
            reveal_strlit("");
            assert(low@.len() != 0) by {
                if low@.len() == 0 {
                    assert(low@ =~= ""@);
                }
            }
        }
        Some(RunChoice::No)
    } else if has_params && crate::colors::str_eq(l, "c") {
        proof {
            reveal_strlit("");
            assert(low@.len() != 0) by {
                if low@.len() == 0 {
                    assert(low@ =~= ""@);
                }
            }
        }
        Some(RunChoice::ChangeParams)
    } else {
        proof {
            reveal_strlit("");
            assert(""@.len() == 0);
            assert(low@.len() != 0) by {
                if low@.len() == 0 {
                    assert(low@ =~= ""@);
                }
            }
        }
        None
    }
}

/// The first command with the given id, if any.
pub open spec fn spec_find_command_by_id(cmds: Seq<CommandDefinition>, id: Seq<char>) -> Option<
    int,
>
    decreases cmds.len(),
{
    if cmds.len() == 0 {
        None
    } else if cmds[0].id matches Some(cid) && cid@ == id {
        Some(0)
    } else {
        match spec_find_command_by_id(cmds.drop_first(), id) {
            Some(i) => Some(i + 1),
            None => None,
        }
    }
}

/// Finds the first command with the given id.
pub fn find_command_by_id(commands: &Vec<CommandDefinition>, id: &String) -> (r: Option<usize>)
    ensures
        (match r {
            Some(i) => spec_find_command_by_id(commands@, id@) == Some(i as int) && i
                < commands@.len(),
            None => spec_find_command_by_id(commands@, id@) is None,
        }),
{
    let mut i: usize = 0;
    while i < commands.len()
        invariant
            i <= commands@.len(),
            forall|k: int| #![trigger commands@[k]]
                0 <= k < i ==> !(commands@[k].id matches Some(cid) && cid@ == id@),
        decreases commands@.len() - i,
    {
        if let Some(cid) = &commands[i].id {
            if *cid == *id {
                proof {
                    lemma_find_command_at(commands@, id@, i as int);
                }
                return Some(i);
            }
        }
        i += 1;
    }
    proof {
        lemma_find_command_none(commands@, id@);
    }
    None
}

proof fn lemma_find_command_at(cmds: Seq<CommandDefinition>, id: Seq<char>, i: int)
    requires
        0 <= i < cmds.len(),
        cmds[i].id matches Some(cid) && cid@ == id,
        forall|k: int| #![trigger cmds[k]] 0 <= k < i ==> !(cmds[k].id matches Some(c) && c@
            == id),
    ensures
        spec_find_command_by_id(cmds, id) == Some(i),
    decreases i,
{
    if i > 0 {
        let t = cmds.drop_first();
        assert(forall|m: int| 0 <= m < t.len() ==> t[m] == cmds[m + 1]);
        assert forall|k: int| #![trigger t[k]] 0 <= k < i - 1 implies !(t[k].id matches Some(c)
            && c@ == id) by {
            assert(t[k] == cmds[k + 1]);
        }
        lemma_find_command_at(t, id, i - 1);
    }
}

proof fn lemma_find_command_none(cmds: Seq<CommandDefinition>, id: Seq<char>)
    requires
        forall|k: int| #![trigger cmds[k]] 0 <= k < cmds.len() ==> !(cmds[k].id matches Some(c)
            && c@ == id),
    ensures
        spec_find_command_by_id(cmds, id) is None,
    decreases cmds.len(),
{
    if cmds.len() > 0 {
        let t = cmds.drop_first();
        assert(forall|m: int| 0 <= m < t.len() ==> t[m] == cmds[m + 1]);
        assert forall|k: int| #![trigger t[k]] 0 <= k < t.len() implies !(t[k].id matches Some(c)
            && c@ == id) by {
            assert(t[k] == cmds[k + 1]);
        }
        lemma_find_command_none(t, id);
    }
}

/// Resolves the id-or-index word of the command line, once, into an
/// explicit choice: a number is a position and must be in range; any
/// other word is an id.
pub fn resolve_command_selector(command_id_or_index: &String, command_count: usize) -> (r: Result<
    CommandChoice,
    Error,
>)
    ensures
        (match crate::numerals::spec_parse_usize(command_id_or_index@) {
            Some(i) => if i < command_count {
                r matches Ok(c) && (c matches CommandChoice::Index(j) && j == i)
            } else {
                r matches Err(e) && (e matches Error::Misc(m) && m@ == "Command index out of range: "@
                    + spec_decimal(i as nat) + "!"@)
            },
            None => r matches Ok(c) && (c matches CommandChoice::CommandId(s) && s@
                == command_id_or_index@),
        }),
{
    match crate::numerals::parse_usize(command_id_or_index.as_str()) {
        Some(index) => {
            if index < command_count {
                Ok(CommandChoice::Index(index))
            } else {
                let mut msg = String::new();
                vstd::string::StringExecFns::append(&mut msg, "Command index out of range: ");
                let dec = crate::numerals::to_decimal(index);
                vstd::string::StringExecFns::append(&mut msg, dec.as_str());
                vstd::string::StringExecFns::append(&mut msg, "!");
                Err(Error::Misc(msg))
            }
        },
        None => Ok(CommandChoice::CommandId(command_id_or_index.clone())),
    }
}

/// Builds the execution context of a resolved choice: the chosen
/// command's template with its declared parameter map, or the previous
/// command with its stored context, marked as a rerun.
pub fn setup_execution_context(
    selected_option: CommandChoice,
    parsed_command_defs: &Vec<CommandDefinition>,
) -> (r: Result<(CommandExecutionTemplate, Option<ParamContext>, bool), Error>)
    requires
        !(selected_option is Quit),
        selected_option matches CommandChoice::Index(i) ==> i < parsed_command_defs@.len(),
    ensures
        (match selected_option {
            CommandChoice::Index(i) => r matches Ok(t) && ({
                &&& t.0.command.deep_view() == parsed_command_defs@[i as int].command.deep_view()
                &&& t.0.working_directory.deep_view() == parsed_command_defs@[
                    i as int
                ].working_directory.deep_view()
                &&& t.0.template_context is None
                &&& t.0.environment.deep_view() == parsed_command_defs@[
                    i as int
                ].environment.deep_view()
                &&& (match (t.1, parsed_command_defs@[i as int].parameters) {
                    (Some(ctx), Some(defs)) => ctx@ == crate::params::spec_build_lookup(
                        crate::params::params_view(defs@),
                    ),
                    (None, None) => true,
                    _ => false,
                })
                &&& t.2 == false
            }),
            CommandChoice::CommandId(id) => (match spec_find_command_by_id(
                parsed_command_defs@,
                id@,
            ) {
                Some(i) => r matches Ok(t) && ({
                    &&& t.0.command.deep_view() == parsed_command_defs@[i].command.deep_view()
                    &&& t.0.template_context is None
                    &&& (match (t.1, parsed_command_defs@[i].parameters) {
                        (Some(ctx), Some(defs)) => ctx@ == crate::params::spec_build_lookup(
                            crate::params::params_view(defs@),
                        ),
                        (None, None) => true,
                        _ => false,
                    })
                    &&& t.2 == false
                }),
                None => r matches Err(e) && (e matches Error::CommandNotFound(s) && s@ == id@),
            }),
            CommandChoice::Rerun(last) => r matches Ok(t) && ({
                &&& spec_same_template(&t.0, &last)
                &&& (match (t.1, last.template_context) {
                    (Some(a), Some(b)) => a@ == b@,
                    (None, None) => true,
                    _ => false,
                })
                &&& t.2 == true
            }),
            CommandChoice::Quit => false,
        }),
{
    match selected_option {
        CommandChoice::Index(selected_index) => {
            let selected_command = &parsed_command_defs[selected_index];
            let parameter_definitions = crate::params::build_parameter_lookup(
                &selected_command.parameters,
            );
            let execution_context = CommandExecutionTemplate::from_command_definition(
                selected_command,
            );
            Ok((execution_context, parameter_definitions, false))
        },
        CommandChoice::CommandId(command_id) => {
            match find_command_by_id(parsed_command_defs, &command_id) {
                Some(i) => {
                    let selected_command = &parsed_command_defs[i];
                    let parameter_definitions = crate::params::build_parameter_lookup(
                        &selected_command.parameters,
                    );
                    let execution_context = CommandExecutionTemplate::from_command_definition(
                        selected_command,
                    );
                    Ok((execution_context, parameter_definitions, false))
                },
                None => Err(Error::CommandNotFound(command_id)),
            }
        },
        CommandChoice::Rerun(last_command) => {
            let context = match &last_command.template_context {
                Some(ctx) => Some(ctx.duplicate()),
                None => None,
            };
            Ok((last_command.duplicate(), context, true))
        },
        CommandChoice::Quit => {
            proof {
                assert(false);
            }
            Err(Error::Misc(String::new()))
        },
    }
}

/// Builds the name-to-value map of the resolved parameters: each
/// resolved default under its parameter's id; parameters still without
/// a value are left out.
pub fn context_of_defaults(params: &ParamContext) -> (r: TemplateContext)
    ensures
        forall|k: Seq<char>| #[trigger] assoc_lookup(r@, k) == spec_last_default(params@, k),
{
    let entries = params.entries();
    let ghost psv = params@;
    let mut ctx = TemplateContext::new();
    let mut i: usize = 0;
    proof {
        assert(psv.take(0) =~= Seq::<ParamV>::empty());
    }
    while i < entries.len()
        invariant
            i <= entries@.len(),
            psv == crate::params::params_view(entries@),
            psv == params@,
            forall|k: Seq<char>|
                #[trigger] assoc_lookup(ctx@, k) == spec_last_default(psv.take(i as int), k),
        decreases entries@.len() - i,
    {
        proof {
            assert(psv[i as int] == entries@[i as int]@);
            assert(psv.take(i + 1).drop_last() =~= psv.take(i as int));
            assert(psv.take(i + 1).last() == psv[i as int]);
        }
        if let Some(default) = &entries[i].default {
            ctx.set(entries[i].id.clone(), default.clone());
        }
        i += 1;
    }
    proof {
        assert(psv.take(entries@.len() as int) =~= psv);
    }
    ctx
}

} // verus!
