//! Argument styles and the merging of command-line values into the
//! parameter map.
//!
//! Values reach a command either as named `key=value` entries or as
//! positional values, never both at once.  Merging starts from the
//! declared parameter map and overwrites defaults with the supplied
//! values; every failure is detected before any prompting.

use vstd::prelude::*;

use indexmap::IndexSet;

use crate::command_definitions::CommandExecutionTemplate;
use crate::errors::{Error, ParseErrorKind};
use crate::interpolation::spec_get_templates;
use crate::params::{param_lookup, spec_assign, ParamContext, ParamV};
use crate::template::{find_char, find_char_from, lemma_find_char_props};
use crate::tokens::{
    all_keys, dedup_first, extract_ordered_tokens, token_seq, token_set_contains, token_set_get,
    token_set_is_empty, token_set_len,
};

verus! {

/// How parameter values were supplied on the command line.  The three
/// ways are mutually exclusive by construction.
#[derive(PartialEq, Clone, Debug)]
pub enum Style {
    /// No values: defaults are used or the user is prompted.
    Unspecified,
    /// Named values, each of the form `key=value`.
    Named(Vec<String>),
    /// Positional values, matched to template variables by position.
    Positional(Vec<String>),
}

impl Style {
    /// Whether no command-line values were supplied.
    pub fn is_unspecified(&self) -> (r: bool)
        ensures
            r == (self is Unspecified),
    {
        matches!(self, Style::Unspecified)
    }
}

/// Copies a slice of strings into a vector.
pub fn clone_string_slice(xs: &[String]) -> (r: Vec<String>)
    ensures
        r@ =~= xs@,
{
    let mut out: Vec<String> = Vec::new();
    let mut i: usize = 0;
    while i < xs.len()
        invariant
            i <= xs@.len(),
            out@.len() == i,
            forall|k: int| 0 <= k < i ==> out@[k] == xs@[k],
        decreases xs@.len() - i,
    {
        out.push(xs[i].clone());
        i += 1;
    }
    out
}

/// Classifies the supplied values: both kinds at once are rejected, one
/// kind alone is kept as given, none means no values.
pub fn determine(named_args: &[String], positional_args: &[String]) -> (r: Result<Style, Error>)
    ensures
        (match r {
            Ok(s) => match s {
                Style::Unspecified => named_args@.len() == 0 && positional_args@.len() == 0,
                Style::Named(v) => named_args@.len() > 0 && positional_args@.len() == 0 && v@
                    == named_args@,
                Style::Positional(v) => named_args@.len() == 0 && positional_args@.len() > 0 && v@
                    == positional_args@,
            },
            Err(e) => named_args@.len() > 0 && positional_args@.len() > 0
                && e matches Error::MixedParameterMode,
        }),
{
    let using_named = !named_args.is_empty();
    let using_positional = !positional_args.is_empty();
    if using_named && using_positional {
        Err(Error::MixedParameterMode)
    } else if using_named {
        Ok(Style::Named(clone_string_slice(named_args)))
    } else if using_positional {
        Ok(Style::Positional(clone_string_slice(positional_args)))
    } else {
        Ok(Style::Unspecified)
    }
}

/// Splitting a named entry on `=`: the key and the value, provided the
/// entry holds exactly one `=`.
pub open spec fn spec_split_kv(e: Seq<char>) -> Option<(Seq<char>, Seq<char>)> {
    match find_char(e, '=') {
        Some(i) => if e.skip(i + 1).contains('=') {
            None
        } else {
            Some((e.take(i), e.skip(i + 1)))
        },
        None => None,
    }
}

/// Splits a named entry into key and value on its `=`; an entry without
/// exactly one `=` yields nothing.
fn split_named_entry(e: &String) -> (r: Option<(String, String)>)
    ensures
        (match r {
            Some(kv) => spec_split_kv(e@) == Some((kv.0@, kv.1@)),
            None => spec_split_kv(e@) is None,
        }),
{
    let s = e.as_str();
    let n = s.unicode_len();
    proof {
        assert(s@.skip(0) =~= s@);
    }
    match find_char_from(s, 0, n, '=') {
        None => None,
        Some(i) => {
            match find_char_from(s, i + 1, n, '=') {
                Some(j) => {
                    proof {
                        lemma_find_char_props(s@.skip(i + 1), '=');
                        assert(s@.skip(i + 1)[j - (i + 1)] == '=');
                        assert(s@.skip(i + 1).contains('='));
                    }
                    None
                },
                None => {
                    proof {
                        let t = s@.skip(i + 1);
                        lemma_find_char_props(t, '=');
                        assert(!t.contains('=')) by {
                            if t.contains('=') {
                                let w = choose|w: int| 0 <= w < t.len() && t[w] == '=';
                                assert(t[w] != '=');
                            }
                        }
                    }
                    let key = s.substring_char(0, i).to_owned();
                    let value = s.substring_char(i + 1, n).to_owned();
                    proof {
                        assert(key@ =~= s@.take(i as int));
                        assert(value@ =~= s@.skip(i + 1));
                    }
                    Some((key, value))
                },
            }
        },
    }
}

/// How a merge of command-line values can fail, at the specification
/// level.
pub enum MergeFailure {
    /// A named entry not of the form `key=value`; carries the entry.
    Malformed(Seq<char>),
    /// A named key that is no template variable; carries the key.
    UnknownKey(Seq<char>),
    /// Positional values not matching the variables one for one; carries
    /// the expected and the actual count.
    CountMismatch(int, int),
}

/// Folding named `key=value` entries into the map, left to right: each
/// entry must split on `=` and its key must be a template variable.
pub open spec fn spec_merge_named(
    s: Seq<ParamV>,
    tokens: Seq<Seq<char>>,
    entries: Seq<Seq<char>>,
) -> Result<Seq<ParamV>, MergeFailure>
    decreases entries.len(),
{
    if entries.len() == 0 {
        Ok(s)
    } else {
        match spec_split_kv(entries[0]) {
            None => Err(MergeFailure::Malformed(entries[0])),
            Some(kv) => if !tokens.contains(kv.0) {
                Err(MergeFailure::UnknownKey(kv.0))
            } else {
                spec_merge_named(spec_assign(s, kv.0, kv.1), tokens, entries.drop_first())
            },
        }
    }
}

/// Assigning positional values to the template variables, by position.
pub open spec fn spec_assign_positional(
    s: Seq<ParamV>,
    tokens: Seq<Seq<char>>,
    values: Seq<Seq<char>>,
) -> Seq<ParamV>
    recommends
        tokens.len() == values.len(),
    decreases tokens.len(),
{
    if tokens.len() == 0 {
        s
    } else {
        spec_assign_positional(
            spec_assign(s, tokens[0], values[0]),
            tokens.drop_first(),
            values.drop_first(),
        )
    }
}

/// What merging command-line values into the declared parameter map
/// yields, at the specification level.
pub enum MergeOutcome {
    /// The merge went through; `None` when there is nothing to resolve.
    Merged(Option<Seq<ParamV>>),
    /// A template string was malformed.
    ParseFail(ParseErrorKind),
    /// The merge failed on the supplied values.
    MergeFail(MergeFailure),
}

/// The whole merge: parse the templates, extract the ordered variables,
/// then fold the supplied values into the declared map.
pub open spec fn spec_process_command_line(
    style: Style,
    cmds: Seq<Seq<char>>,
    base: Option<Seq<ParamV>>,
) -> MergeOutcome {
    match spec_get_templates(cmds) {
        Err(k) => MergeOutcome::ParseFail(k),
        Ok(ts) => {
            let tokens = dedup_first(all_keys(ts));
            if tokens.len() == 0 {
                MergeOutcome::Merged(None)
            } else {
                let s = match base {
                    Some(b) => b,
                    None => Seq::empty(),
                };
                match style {
                    Style::Unspecified => if s.len() == 0 {
                        MergeOutcome::Merged(None)
                    } else {
                        MergeOutcome::Merged(Some(s))
                    },
                    Style::Named(es) => match spec_merge_named(s, tokens, es.deep_view()) {
                        Ok(m) => MergeOutcome::Merged(Some(m)),
                        Err(f) => MergeOutcome::MergeFail(f),
                    },
                    Style::Positional(vs) => if vs@.len() != tokens.len() {
                        MergeOutcome::MergeFail(
                            MergeFailure::CountMismatch(tokens.len() as int, vs@.len() as int),
                        )
                    } else {
                        MergeOutcome::Merged(
                            Some(spec_assign_positional(s, tokens, vs.deep_view())),
                        )
                    },
                }
            }
        },
    }
}

/// Whether the merge result `r` is what the specification
/// [`spec_process_command_line`] calls for.
pub open spec fn process_result_matches(
    r: Result<Option<ParamContext>, Error>,
    o: MergeOutcome,
) -> bool {
    match o {
        MergeOutcome::Merged(m) => match (r, m) {
            (Ok(None), None) => true,
            (Ok(Some(ctx)), Some(mv)) => ctx@ == mv,
            _ => false,
        },
        MergeOutcome::ParseFail(k) => r matches Err(e) && e matches Error::Parse(k2) && k2 == k,
        MergeOutcome::MergeFail(f) => match f {
            MergeFailure::Malformed(entry) => r matches Err(e) && e matches Error::ParameterFormat(s)
                && s@ == entry,
            MergeFailure::UnknownKey(key) => r matches Err(e) && e matches Error::MissingParameter(s)
                && s@ == key,
            MergeFailure::CountMismatch(expected, actual) => r matches Err(e)
                && e matches Error::ParameterCountMismatch(x, y) && x == expected && y == actual,
        },
    }
}

proof fn lemma_merge_named_skip_step(
    s: Seq<ParamV>,
    tokens: Seq<Seq<char>>,
    entries: Seq<Seq<char>>,
    i: int,
)
    requires
        0 <= i < entries.len(),
    ensures
        spec_merge_named(s, tokens, entries.skip(i)) == (match spec_split_kv(entries[i]) {
            None => Err::<Seq<ParamV>, MergeFailure>(MergeFailure::Malformed(entries[i])),
            Some(kv) => if !tokens.contains(kv.0) {
                Err::<Seq<ParamV>, MergeFailure>(MergeFailure::UnknownKey(kv.0))
            } else {
                spec_merge_named(spec_assign(s, kv.0, kv.1), tokens, entries.skip(i + 1))
            },
        }),
{
    assert(entries.skip(i).drop_first() =~= entries.skip(i + 1));
    assert(entries.skip(i)[0] == entries[i]);
}

proof fn lemma_assign_positional_skip_step(
    s: Seq<ParamV>,
    tokens: Seq<Seq<char>>,
    values: Seq<Seq<char>>,
    i: int,
)
    requires
        0 <= i < tokens.len(),
        tokens.len() == values.len(),
    ensures
        spec_assign_positional(s, tokens.skip(i), values.skip(i)) == spec_assign_positional(
            spec_assign(s, tokens[i], values[i]),
            tokens.skip(i + 1),
            values.skip(i + 1),
        ),
{
    assert(tokens.skip(i).drop_first() =~= tokens.skip(i + 1));
    assert(values.skip(i).drop_first() =~= values.skip(i + 1));
    assert(tokens.skip(i)[0] == tokens[i]);
    assert(values.skip(i)[0] == values[i]);
}

/// Merges the command-line values into the declared parameter map of the
/// command.  Named entries must split on `=` into a known variable and
/// its value; positional values must match the variables one for one;
/// with no values the declared map is handed back, or nothing when it is
/// empty.  A command without template variables yields nothing.
pub fn process_command_line(
    argument_style: Style,
    execution_template: &CommandExecutionTemplate,
    parameter_definitions: Option<&ParamContext>,
) -> (r: Result<Option<ParamContext>, Error>)
    ensures
        process_result_matches(
            r,
            spec_process_command_line(
                argument_style,
                execution_template.command.deep_view(),
                (match parameter_definitions {
                    Some(d) => Some(d@),
                    None => None,
                }),
            ),
        ),
{
    let ghost cmds = execution_template.command.deep_view();
    let templates = match crate::interpolation::get_templates(&execution_template.command) {
        Ok(ts) => ts,
        Err(e) => {
            return Err(e);
        },
    };
    let tokens = extract_ordered_tokens(&templates);
    let ghost toks = token_seq(tokens);
    if token_set_is_empty(&tokens) {
        return Ok(None);
    }
    let mut param_defs = match parameter_definitions {
        Some(defs) => defs.duplicate(),
        None => ParamContext::new(),
    };
    let ghost base = param_defs@;
    let ghost expected = spec_process_command_line(
        argument_style,
        cmds,
        (match parameter_definitions {
            Some(d) => Some(d@),
            None => None,
        }),
    );
    match &argument_style {
        Style::Unspecified => {
            if param_defs.is_empty() {
                Ok(None)
            } else {
                Ok(Some(param_defs))
            }
        },
        Style::Named(named_params) => {
            let ghost es = named_params.deep_view();
            let mut i: usize = 0;
            proof {
                assert(es.skip(0) =~= es);
            }
            while i < named_params.len()
                invariant
                    i <= named_params@.len(),
                    es == named_params.deep_view(),
                    toks == token_seq(tokens),
                    expected == (match spec_merge_named(param_defs@, toks, es.skip(i as int)) {
                        Ok(m) => MergeOutcome::Merged(Some(m)),
                        Err(f) => MergeOutcome::MergeFail(f),
                    }),
                    expected == spec_process_command_line(
                        argument_style,
                        execution_template.command.deep_view(),
                        (match parameter_definitions {
                            Some(d) => Some(d@),
                            None => None,
                        }),
                    ),
                decreases named_params@.len() - i,
            {
                proof {
                    assert(es[i as int] == named_params@[i as int]@);
                    lemma_merge_named_skip_step(param_defs@, toks, es, i as int);
                }
                match split_named_entry(&named_params[i]) {
                    None => {
                        return Err(Error::ParameterFormat(named_params[i].clone()));
                    },
                    Some(kv) => {
                        if !token_set_contains(&tokens, kv.0.as_str()) {
                            return Err(Error::MissingParameter(kv.0));
                        }
                        param_defs.assign_value(&kv.0, kv.1);
                    },
                }
                i += 1;
            }
            proof {
                assert(es.skip(named_params@.len() as int) =~= Seq::<Seq<char>>::empty());
            }
            Ok(Some(param_defs))
        },
        Style::Positional(positional_params) => {
            let ghost vs = positional_params.deep_view();
            let token_count = token_set_len(&tokens);
            if positional_params.len() != token_count {
                return Err(Error::ParameterCountMismatch(token_count, positional_params.len()));
            }
            let mut i: usize = 0;
            proof {
                assert(toks.skip(0) =~= toks);
                assert(vs.skip(0) =~= vs);
            }
            while i < token_count
                invariant
                    i <= toks.len(),
                    token_count == toks.len(),
                    vs.len() == toks.len(),
                    vs == positional_params.deep_view(),
                    toks == token_seq(tokens),
                    expected == MergeOutcome::Merged(
                        Some(
                            spec_assign_positional(
                                param_defs@,
                                toks.skip(i as int),
                                vs.skip(i as int),
                            ),
                        ),
                    ),
                    expected == spec_process_command_line(
                        argument_style,
                        execution_template.command.deep_view(),
                        (match parameter_definitions {
                            Some(d) => Some(d@),
                            None => None,
                        }),
                    ),
                decreases token_count - i,
            {
                proof {
                    assert(vs[i as int] == positional_params@[i as int]@);
                    lemma_assign_positional_skip_step(param_defs@, toks, vs, i as int);
                }
                let token = match token_set_get(&tokens, i) {
                    Some(t) => t.clone(),
                    None => {
                        proof {
                            assert(false);
                        }
                        return Err(Error::Misc(String::new()));
                    },
                };
                param_defs.assign_value(&token, positional_params[i].clone());
                i += 1;
            }
            proof {
                assert(toks.skip(toks.len() as int) =~= Seq::<Seq<char>>::empty());
            }
            Ok(Some(param_defs))
        },
    }
}

/// Whether prompting is needed: never without template variables, never
/// on a rerun; with command-line values, exactly when the merged map is
/// absent or some variable still lacks a resolved default; otherwise
/// always.
pub open spec fn spec_needs_prompt(
    toks: Seq<Seq<char>>,
    filled: Option<Seq<ParamV>>,
    is_rerun: bool,
    style_is_unspecified: bool,
) -> bool {
    if toks.len() == 0 {
        false
    } else if is_rerun {
        false
    } else if !style_is_unspecified {
        match filled {
            Some(m) => exists|i: int|
                0 <= i < toks.len() && (match #[trigger] param_lookup(m, toks[i]) {
                    Some(p) => p.default is None,
                    None => true,
                }),
            None => true,
        }
    } else {
        true
    }
}

/// Decides whether the user must be prompted for parameter values.
pub fn should_prompt_for_parameters(
    tokens: &IndexSet<String>,
    filled_parameters: Option<&ParamContext>,
    is_rerun: bool,
    argument_style: &Style,
) -> (r: bool)
    ensures
        r == spec_needs_prompt(
            token_seq(*tokens),
            (match filled_parameters {
                Some(m) => Some(m@),
                None => None,
            }),
            is_rerun,
            argument_style is Unspecified,
        ),
{
    let unspecified = argument_style.is_unspecified();
    needs_prompt_by_flag(tokens, filled_parameters, is_rerun, unspecified)
}

/// The prompt decision with the style reduced to whether values were
/// supplied at all.
pub(crate) fn needs_prompt_by_flag(
    tokens: &IndexSet<String>,
    filled_parameters: Option<&ParamContext>,
    is_rerun: bool,
    unspecified: bool,
) -> (r: bool)
    ensures
        r == spec_needs_prompt(
            token_seq(*tokens),
            (match filled_parameters {
                Some(m) => Some(m@),
                None => None,
            }),
            is_rerun,
            unspecified,
        ),
{
    let ghost toks = token_seq(*tokens);
    if token_set_is_empty(tokens) {
        return false;
    }
    if is_rerun {
        return false;
    }
    if !unspecified {
        if let Some(params) = filled_parameters {
            let n = token_set_len(tokens);
            let mut i: usize = 0;
            while i < n
                invariant
                    i <= toks.len(),
                    n == toks.len(),
                    toks == token_seq(*tokens),
                    toks.len() > 0,
                    !is_rerun,
                    !unspecified,
                    filled_parameters matches Some(fp) && fp@ == params@,
                    forall|k: int|
                        0 <= k < i ==> (match #[trigger] param_lookup(params@, toks[k]) {
                            Some(p) => p.default is Some,
                            None => false,
                        }),
                decreases n - i,
            {
                let token = match token_set_get(tokens, i) {
                    Some(t) => t,
                    None => {
                        proof {
                            assert(false);
                        }
                        return false;
                    },
                };
                match params.get(token) {
                    Some(def) => {
                        if def.default.is_none() {
                            proof {
                                assert(0 <= i < toks.len() && (match param_lookup(
                                    params@,
                                    toks[i as int],
                                ) {
                                    Some(p) => p.default is None,
                                    None => true,
                                }));
                            }
                            return true;
                        }
                    },
                    None => {
                        proof {
                            assert(0 <= i < toks.len() && (match param_lookup(
                                params@,
                                toks[i as int],
                            ) {
                                Some(p) => p.default is None,
                                None => true,
                            }));
                        }
                        return true;
                    },
                }
                i += 1;
            }
            return false;
        }
    }
    true
}

} // verus!
