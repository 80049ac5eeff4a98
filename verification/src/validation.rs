//! Validation of command and parameter ids, as performed once after the
//! configuration is read.
//!
//! Ids must be non-empty, hold no space or colon, and not be purely
//! numeric; command ids and the parameter ids of one command must be
//! unique; every declared parameter id must name a template variable of
//! its command.

use vstd::prelude::*;

use crate::command_definitions::{
    spec_command_display_name, CommandDefinition, ParameterDefinition, TemplateParser,
};
use crate::errors::{Error, ParseErrorKind};
use crate::interpolation::spec_get_templates;
use crate::params::{params_view, ParamV};
use crate::template::{find_char_from, lemma_find_char_props};
use crate::tokens::{all_keys, dedup_first, token_seq, token_set_contains};

verus! {

/// What `char::is_numeric` returns; the exact character set is Unicode's
/// and is not restated here.
pub uninterp spec fn char_is_numeric(c: char) -> bool;

/// Relies on char::is_numeric: whether the character is in a Unicode
/// numeric category, a function of the character alone.
#[verifier::external_body]
fn is_numeric_char(c: char) -> (r: bool)
    ensures
        r == char_is_numeric(c),
{
    c.is_numeric()
}

/// How an id can be invalid.
#[derive(Debug, Clone, Copy, PartialEq, Eq, Structural)]
pub enum IdErrorKind {
    /// The id is empty.
    Empty,
    /// The id holds a space.
    Space,
    /// The id holds a colon.
    Colon,
    /// The id is purely numeric.
    Numeric,
}

/// The first problem an id has, if any: emptiness, then a space, then a
/// colon, then being purely numeric.
pub open spec fn spec_validate_id(id: Seq<char>) -> Option<IdErrorKind> {
    if id.len() == 0 {
        Some(IdErrorKind::Empty)
    } else if id.contains(' ') {
        Some(IdErrorKind::Space)
    } else if id.contains(':') {
        Some(IdErrorKind::Colon)
    } else if forall|k: int| 0 <= k < id.len() ==> char_is_numeric(#[trigger] id[k]) {
        Some(IdErrorKind::Numeric)
    } else {
        None
    }
}

/// Whether the characters of `s` contain `c`.
fn str_contains_char(s: &str, c: char) -> (r: bool)
    ensures
        r == s@.contains(c),
{
    let n = s.unicode_len();
    proof {
        assert(s@.skip(0) =~= s@);
    }
    match find_char_from(s, 0, n, c) {
        Some(i) => {
            proof {
                lemma_find_char_props(s@, c);
                assert(s@[i as int] == c);
            }
            true
        },
        None => {
            proof {
                lemma_find_char_props(s@, c);
                assert(!s@.contains(c)) by {
                    if s@.contains(c) {
                        let w = choose|w: int| 0 <= w < s@.len() && s@[w] == c;
                        assert(s@[w] != c);
                    }
                }
            }
            false
        },
    }
}

/// Whether every character of `s` is numeric.
fn str_all_numeric(s: &str) -> (r: bool)
    ensures
        r == (forall|k: int| 0 <= k < s@.len() ==> char_is_numeric(#[trigger] s@[k])),
{
    let n = s.unicode_len();
    let mut i: usize = 0;
    while i < n
        invariant
            i <= n,
            n == s@.len(),
            forall|k: int| 0 <= k < i ==> char_is_numeric(#[trigger] s@[k]),
        decreases n - i,
    {
        if !is_numeric_char(s.get_char(i)) {
            return false;
        }
        i += 1;
    }
    true
}

/// Checks one id: it must be non-empty, hold no space and no colon, and
/// not be purely numeric.
pub fn validate_id(id: &str) -> (r: Result<(), Error>)
    ensures
        (match spec_validate_id(id@) {
            None => r is Ok,
            Some(k) => r matches Err(e) && (match k {
                IdErrorKind::Empty => e is EmptyId,
                IdErrorKind::Space => e matches Error::IdWithSpace(s) && s@ == id@,
                IdErrorKind::Colon => e matches Error::IdWithColon(s) && s@ == id@,
                IdErrorKind::Numeric => e matches Error::NumericId(s) && s@ == id@,
            }),
        }),
{
    if s_is_empty(id) {
        return Err(Error::EmptyId);
    }
    if str_contains_char(id, ' ') {
        return Err(Error::IdWithSpace(id.to_owned()));
    }
    if str_contains_char(id, ':') {
        return Err(Error::IdWithColon(id.to_owned()));
    }
    if str_all_numeric(id) {
        return Err(Error::NumericId(id.to_owned()));
    }
    Ok(())
}

/// Whether the string has no characters.
fn s_is_empty(s: &str) -> (r: bool)
    ensures
        r == (s@.len() == 0),
{
    s.unicode_len() == 0
}

/// How validating one command's declared parameters can fail, at the
/// specification level.
pub enum ParamsFailure {
    /// A parameter id is invalid.
    BadId(IdErrorKind, Seq<char>),
    /// Two parameters share this id.
    NonUnique(Seq<char>),
    /// A template string of the command is malformed.
    ParseFail(ParseErrorKind),
    /// This declared id names no template variable.
    NotFound(Seq<char>),
}

/// The first problem among the declared parameter ids: an invalid id or
/// a repeated one, scanning in declaration order.
pub open spec fn spec_check_param_ids(ps: Seq<ParamV>, i: int) -> Option<ParamsFailure>
    decreases ps.len() - i,
{
    if i < 0 || i >= ps.len() {
        None
    } else if spec_validate_id(ps[i].id) is Some {
        Some(ParamsFailure::BadId(spec_validate_id(ps[i].id)->0, ps[i].id))
    } else if exists|j: int| 0 <= j < i && ps[j].id == ps[i].id {
        Some(ParamsFailure::NonUnique(ps[i].id))
    } else {
        spec_check_param_ids(ps, i + 1)
    }
}

/// The first declared id that names no template variable, in declaration
/// order.
pub open spec fn spec_check_params_declared(
    ps: Seq<ParamV>,
    vars: Seq<Seq<char>>,
    i: int,
) -> Option<ParamsFailure>
    decreases ps.len() - i,
{
    if i < 0 || i >= ps.len() {
        None
    } else if !vars.contains(ps[i].id) {
        Some(ParamsFailure::NotFound(ps[i].id))
    } else {
        spec_check_params_declared(ps, vars, i + 1)
    }
}

/// The first problem of a command's declared parameters: an invalid or
/// repeated id, then a malformed template, then an id naming no template
/// variable.
pub open spec fn spec_validate_parameters(cmd: &CommandDefinition, ps: Seq<ParamV>) -> Option<
    ParamsFailure,
> {
    match spec_check_param_ids(ps, 0) {
        Some(f) => Some(f),
        None => match spec_get_templates(cmd.command.deep_view()) {
            Err(k) => Some(ParamsFailure::ParseFail(k)),
            Ok(ts) => spec_check_params_declared(ps, dedup_first(all_keys(ts)), 0),
        },
    }
}

/// Whether the validation result `r` reports exactly the failure that
/// the check names, with the command's display name attached where the
/// error carries it.
pub open spec fn params_result_matches(
    r: Result<(), Error>,
    f: Option<ParamsFailure>,
    cmd_name: Seq<char>,
) -> bool {
    match f {
        None => r is Ok,
        Some(ParamsFailure::BadId(k, id)) => r matches Err(e) && (match k {
            IdErrorKind::Empty => e is EmptyId,
            IdErrorKind::Space => e matches Error::IdWithSpace(s) && s@ == id,
            IdErrorKind::Colon => e matches Error::IdWithColon(s) && s@ == id,
            IdErrorKind::Numeric => e matches Error::NumericId(s) && s@ == id,
        }),
        Some(ParamsFailure::NonUnique(id)) => r matches Err(e)
            && e matches Error::NonUniqueParameterId(n, s) && n@ == cmd_name && s@ == id,
        Some(ParamsFailure::ParseFail(k)) => r matches Err(e) && e matches Error::Parse(k2) && k2
            == k,
        Some(ParamsFailure::NotFound(id)) => r matches Err(e)
            && e matches Error::NotFoundParameterId(n, s) && n@ == cmd_name && s@ == id,
    }
}

/// Checks the declared parameters of one command: each id valid and
/// unique, and naming a template variable of the command.
pub fn validate_parameters(cmd: &CommandDefinition, parameters: &Vec<ParameterDefinition>) -> (r:
    Result<(), Error>)
    ensures
        params_result_matches(
            r,
            spec_validate_parameters(cmd, params_view(parameters@)),
            spec_command_display_name(cmd),
        ),
{
    let ghost ps = params_view(parameters@);
    let mut i: usize = 0;
    while i < parameters.len()
        invariant
            i <= parameters@.len(),
            ps == params_view(parameters@),
            spec_check_param_ids(ps, 0) == spec_check_param_ids(ps, i as int),
            forall|a: int, b: int| 0 <= a < b < i ==> ps[a].id != ps[b].id,
        decreases parameters@.len() - i,
    {
        proof {
            assert(ps[i as int] == parameters@[i as int]@);
        }
        if let Err(e) = validate_id(parameters[i].id.as_str()) {
            return Err(e);
        }
        let mut j: usize = 0;
        while j < i
            invariant
                j <= i < parameters@.len(),
                ps == params_view(parameters@),
                spec_check_param_ids(ps, 0) == spec_check_param_ids(ps, i as int),
                spec_validate_id(ps[i as int].id) is None,
                forall|k: int| 0 <= k < j ==> ps[k].id != ps[i as int].id,
            decreases i - j,
        {
            proof {
                assert(ps[j as int] == parameters@[j as int]@);
                assert(ps[i as int] == parameters@[i as int]@);
            }
            if parameters[j].id == parameters[i].id {
                return Err(
                    Error::NonUniqueParameterId(
                        cmd.display_name(),
                        parameters[i].id.clone(),
                    ),
                );
            }
            j += 1;
        }
        i += 1;
    }
    let ghost n = parameters@.len() as int;
    proof {
        assert(spec_check_param_ids(ps, n) is None);
    }
    let variables = match cmd.get_ordered_context_variables() {
        Ok(v) => v,
        Err(e) => {
            return Err(e);
        },
    };
    let ghost vars = token_seq(variables);
    let mut i: usize = 0;
    while i < parameters.len()
        invariant
            i <= parameters@.len(),
            ps == params_view(parameters@),
            vars == token_seq(variables),
            spec_validate_parameters(cmd, ps) == spec_check_params_declared(ps, vars, i as int),
        decreases parameters@.len() - i,
    {
        proof {
            assert(ps[i as int] == parameters@[i as int]@);
        }
        if !token_set_contains(&variables, parameters[i].id.as_str()) {
            return Err(
                Error::NotFoundParameterId(cmd.display_name(), parameters[i].id.clone()),
            );
        }
        i += 1;
    }
    Ok(())
}

/// How validating the whole command list can fail, at the specification
/// level: the failure and the display name of the command it belongs to.
pub enum CommandsFailure {
    /// A command id is invalid.
    BadId(IdErrorKind, Seq<char>),
    /// Two commands share this id.
    NonUniqueCommand(Seq<char>),
    /// A command's declared parameters are invalid.
    Params(ParamsFailure, Seq<char>),
}

/// The ids declared by the commands before index `i`.
pub open spec fn spec_ids_before(cmds: Seq<CommandDefinition>, i: int) -> Seq<Seq<char>>
    decreases i,
{
    if i <= 0 {
        Seq::empty()
    } else {
        match cmds[i - 1].id {
            Some(id) => spec_ids_before(cmds, i - 1).push(id@),
            None => spec_ids_before(cmds, i - 1),
        }
    }
}

/// The first problem in the command list, scanning in order: per
/// command, an invalid id, then a repeated id, then its parameters.
pub open spec fn spec_validate_commands(cmds: Seq<CommandDefinition>, i: int) -> Option<
    CommandsFailure,
>
    decreases cmds.len() - i,
{
    if i < 0 || i >= cmds.len() {
        None
    } else {
        let id_problem = match cmds[i].id {
            Some(id) => if spec_validate_id(id@) is Some {
                Some(CommandsFailure::BadId(spec_validate_id(id@)->0, id@))
            } else if spec_ids_before(cmds, i).contains(id@) {
                Some(CommandsFailure::NonUniqueCommand(id@))
            } else {
                None
            },
            None => None,
        };
        match id_problem {
            Some(f) => Some(f),
            None => match cmds[i].parameters {
                Some(ps) => match spec_validate_parameters(
                    &cmds[i],
                    params_view(ps@),
                ) {
                    Some(f) => Some(
                        CommandsFailure::Params(f, spec_command_display_name(&cmds[i])),
                    ),
                    None => spec_validate_commands(cmds, i + 1),
                },
                None => spec_validate_commands(cmds, i + 1),
            },
        }
    }
}

/// Whether the validation result `r` reports exactly the failure that
/// the specification names.
pub open spec fn commands_result_matches(
    r: Result<(), Error>,
    f: Option<CommandsFailure>,
) -> bool {
    match f {
        None => r is Ok,
        Some(CommandsFailure::BadId(k, id)) => r matches Err(e) && (match k {
            IdErrorKind::Empty => e is EmptyId,
            IdErrorKind::Space => e matches Error::IdWithSpace(s) && s@ == id,
            IdErrorKind::Colon => e matches Error::IdWithColon(s) && s@ == id,
            IdErrorKind::Numeric => e matches Error::NumericId(s) && s@ == id,
        }),
        Some(CommandsFailure::NonUniqueCommand(id)) => r matches Err(e)
            && e matches Error::NonUniqueCommandId(s) && s@ == id,
        Some(CommandsFailure::Params(pf, name)) => params_result_matches(r, Some(pf), name),
    }
}

/// Checks every command: valid, unique ids, and valid declared
/// parameters.
pub fn validate_command_ids(commands: &Vec<CommandDefinition>) -> (r: Result<(), Error>)
    ensures
        commands_result_matches(r, spec_validate_commands(commands@, 0)),
{
    let mut i: usize = 0;
    while i < commands.len()
        invariant
            i <= commands@.len(),
            spec_validate_commands(commands@, 0) == spec_validate_commands(commands@, i as int),
            forall|a: int, b: int|
                0 <= a < b < i && commands@[a].id is Some && commands@[b].id is Some
                    ==> commands@[a].id->0@ != commands@[b].id->0@,
        decreases commands@.len() - i,
    {
        if let Some(id) = &commands[i].id {
            if let Err(e) = validate_id(id.as_str()) {
                return Err(e);
            }
            let mut j: usize = 0;
            while j < i
                invariant
                    j <= i < commands@.len(),
                    spec_validate_commands(commands@, 0) == spec_validate_commands(
                        commands@,
                        i as int,
                    ),
                    commands@[i as int].id matches Some(cid) && cid@ == id@,
                    spec_validate_id(id@) is None,
                    forall|k: int|
                        0 <= k < j && commands@[k].id is Some ==> commands@[k].id->0@ != id@,
                decreases i - j,
            {
                if let Some(other) = &commands[j].id {
                    if *other == *id {
                        proof {
                            lemma_ids_before_contains(commands@, i as int, j as int);
                        }
                        return Err(Error::NonUniqueCommandId(id.clone()));
                    }
                }
                j += 1;
            }
            proof {
                lemma_ids_before_not_contains(commands@, i as int);
            }
        }
        if let Some(parameters) = &commands[i].parameters {
            if let Err(e) = validate_parameters(&commands[i], parameters) {
                return Err(e);
            }
        }
        i += 1;
    }
    Ok(())
}

proof fn lemma_ids_before_contains(cmds: Seq<CommandDefinition>, i: int, j: int)
    requires
        0 <= j < i <= cmds.len(),
        cmds[j].id is Some,
    ensures
        spec_ids_before(cmds, i).contains(cmds[j].id->0@),
    decreases i,
{
    if j == i - 1 {
        assert(spec_ids_before(cmds, i).last() == cmds[j].id->0@);
        assert(spec_ids_before(cmds, i).contains(cmds[j].id->0@));
    } else {
        lemma_ids_before_contains(cmds, i - 1, j);
        let prev = spec_ids_before(cmds, i - 1);
        let cur = spec_ids_before(cmds, i);
        let w = choose|w: int| 0 <= w < prev.len() && prev[w] == cmds[j].id->0@;
        match cmds[i - 1].id {
            Some(_) => {
                assert(cur[w] == cmds[j].id->0@);
            },
            None => {
                assert(cur[w] == cmds[j].id->0@);
            },
        }
        assert(cur.contains(cmds[j].id->0@));
    }
}

proof fn lemma_ids_before_not_contains(cmds: Seq<CommandDefinition>, i: int)
    requires
        0 <= i <= cmds.len(),
        cmds[i as int].id is Some,
        forall|k: int| 0 <= k < i && cmds[k].id is Some ==> cmds[k].id->0@ != cmds[i as int].id->0@,
    ensures
        !spec_ids_before(cmds, i).contains(cmds[i as int].id->0@),
    decreases i,
{
    if i > 0 {
        assert forall|k: int|
            0 <= k < i - 1 && cmds[k].id is Some implies cmds[k].id->0@
            != cmds[i as int].id->0@ by {}
        lemma_ids_before_not_contains_gen(cmds, i, cmds[i as int].id->0@);
    }
}

proof fn lemma_ids_before_not_contains_gen(cmds: Seq<CommandDefinition>, i: int, id: Seq<char>)
    requires
        0 <= i <= cmds.len(),
        forall|k: int| 0 <= k < i && cmds[k].id is Some ==> cmds[k].id->0@ != id,
    ensures
        !spec_ids_before(cmds, i).contains(id),
    decreases i,
{
    if i > 0 {
        lemma_ids_before_not_contains_gen(cmds, i - 1, id);
        let prev = spec_ids_before(cmds, i - 1);
        let cur = spec_ids_before(cmds, i);
        if cur.contains(id) {
            let w = choose|w: int| 0 <= w < cur.len() && cur[w] == id;
            match cmds[i - 1].id {
                Some(last_id) => {
                    if w < prev.len() {
                        assert(prev[w] == id);
                        assert(prev.contains(id));
                    } else {
                        assert(cur[w] == last_id@);
                    }
                },
                None => {
                    assert(prev[w] == id);
                    assert(prev.contains(id));
                },
            }
        }
    }
}

/// Checks a freshly read command list: it must be non-empty and pass
/// [`validate_command_ids`].
pub fn validate_command_definitions(commands: &Vec<CommandDefinition>, config_path: &String) -> (r:
    Result<(), Error>)
    ensures
        commands@.len() == 0 ==> (r matches Err(e) && e matches Error::EmptyCommandDefinition {
            path,
        } && path@ == config_path@),
        commands@.len() > 0 ==> commands_result_matches(r, spec_validate_commands(commands@, 0)),
{
    if commands.len() == 0 {
        return Err(Error::empty_command_definition(config_path.clone()));
    }
    validate_command_ids(commands)
}

} // verus!
