//! Interactive parameter resolution, as pure decisions.
//!
//! Prompting itself is a blocking read outside this crate; everything
//! the prompts decide — the order of the variables, the default each
//! prompt shows, whether an answer is accepted, and the map the answers
//! form — is computed and proved here.

use vstd::prelude::*;
use vstd::string::StrSliceExecFns;

use indexmap::IndexSet;

use crate::command_definitions::ParameterDefinition;
use crate::interpolation::{assoc_lookup, template_ctx_opt_view, TemplateContext};
use crate::params::{param_lookup, spec_set, ParamContext, ParamV};
use crate::template::{trim_spec, trimmed_key};
use crate::tokens::{token_seq, token_set_get, token_set_is_empty, token_set_len};

verus! {

/// What sorting a list of strings yields; the order itself is the
/// standard library's lexicographic one and is not restated here.
pub uninterp spec fn sorted_strings_of(s: Seq<Seq<char>>) -> Seq<Seq<char>>;

/// Relies on itertools::Itertools::sorted: the same strings in
/// ascending order, a function of the input alone; the result is a
/// permutation of the input.
#[verifier::external_body]
pub fn sorted_strings(v: Vec<String>) -> (r: Vec<String>)
    ensures
        r.deep_view() == sorted_strings_of(v.deep_view()),
        r.deep_view().to_multiset() == v.deep_view().to_multiset(),
        r.deep_view().len() == v.deep_view().len(),
{
    itertools::Itertools::sorted(v.into_iter()).collect()
}

/// The items of a token set, in insertion order.
pub fn token_set_to_vec(tokens: &IndexSet<String>) -> (r: Vec<String>)
    ensures
        r.deep_view() == token_seq(*tokens),
{
    let n = token_set_len(tokens);
    let mut out: Vec<String> = Vec::new();
    let mut i: usize = 0;
    while i < n
        invariant
            i <= n,
            n == token_seq(*tokens).len(),
            out@.len() == i,
            forall|k: int| 0 <= k < i ==> out@[k]@ == token_seq(*tokens)[k],
        decreases n - i,
    {
        let t = match token_set_get(tokens, i) {
            Some(t) => t,
            None => {
                proof {
                    assert(false);
                }
                return out;
            },
        };
        out.push(t.clone());
        i += 1;
    }
    proof {
        let dv = out.deep_view();
        let tg = token_seq(*tokens);
        assert forall|k: int| 0 <= k < dv.len() implies dv[k] == tg[k] by {
            assert(dv[k] == out@[k]@);
        }
        assert(dv =~= tg);
    }
    out
}

/// The value a prompt settles on: the trimmed input when it is not
/// empty, else the previous value, else the declared default, else
/// nothing — the prompt must then be repeated.
pub open spec fn spec_resolved_input(
    input: Seq<char>,
    previous_default: Option<Seq<char>>,
    declared_default: Option<Seq<char>>,
) -> Option<Seq<char>> {
    if trim_spec(input).len() > 0 {
        Some(trim_spec(input))
    } else {
        match previous_default {
            Some(p) => Some(p),
            None => declared_default,
        }
    }
}

/// Decides what one prompt's answer means: non-empty input wins, empty
/// input accepts the shown default, and with no default the prompt must
/// be repeated.
pub fn resolve_prompt_input(
    input: &str,
    previous_default: &Option<String>,
    declared_default: &Option<String>,
) -> (r: Option<String>)
    ensures
        (match (r, spec_resolved_input(
            input@,
            previous_default.deep_view(),
            declared_default.deep_view(),
        )) {
            (Some(v), Some(w)) => v@ == w,
            (None, None) => true,
            _ => false,
        }),
{
    let n = input.unicode_len();
    match trimmed_key(input, 0, n, n) {
        Some(value) => {
            proof {
                assert(input@.subrange(0, n as int) =~= input@);
            }
            Some(value)
        },
        None => {
            proof {
                assert(input@.subrange(0, n as int) =~= input@);
            }
            match previous_default {
                Some(p) => Some(p.clone()),
                None => match declared_default {
                    Some(d) => Some(d.clone()),
                    None => None,
                },
            }
        },
    }
}

/// The parameter one filled-in answer produces: an existing resolved
/// parameter keeps its description, a declared one keeps its, and an
/// undeclared variable gets a fresh definition holding only the value.
pub open spec fn spec_filled_param(
    key: Seq<char>,
    value: Seq<char>,
    prev: Option<ParamV>,
    decl: Option<ParamV>,
) -> ParamV {
    match prev {
        Some(p) => ParamV { id: p.id, default: Some(value), description: p.description },
        None => match decl {
            Some(d) => ParamV { id: d.id, default: Some(value), description: d.description },
            None => ParamV { id: key, default: Some(value), description: None },
        },
    }
}

/// The map the answers form, key by key in the given order.
pub open spec fn spec_fill(
    keys: Seq<Seq<char>>,
    values: Seq<Seq<char>>,
    decl: Option<Seq<ParamV>>,
    prev: Option<Seq<ParamV>>,
    acc: Seq<ParamV>,
) -> Seq<ParamV>
    recommends
        keys.len() == values.len(),
    decreases keys.len(),
{
    if keys.len() == 0 {
        acc
    } else {
        let prevp = match prev {
            Some(m) => param_lookup(m, keys[0]),
            None => None,
        };
        let declp = match decl {
            Some(m) => param_lookup(m, keys[0]),
            None => None,
        };
        spec_fill(
            keys.drop_first(),
            values.drop_first(),
            decl,
            prev,
            spec_set(acc, spec_filled_param(keys[0], values[0], prevp, declp)),
        )
    }
}

/// Builds the parameter map from the answers, one per variable in
/// lexicographic order of the variable names — the reproducible
/// prompting order.  Nothing is returned when there are no variables,
/// or when the answers do not line up with them.
pub fn fill_parameter_values(
    tokens: &IndexSet<String>,
    parameter_definitions: &Option<ParamContext>,
    existing_context: &Option<ParamContext>,
    entered: &Vec<String>,
) -> (r: Option<ParamContext>)
    ensures
        (({
            let sorted = sorted_strings_of(token_seq(*tokens));
            let decl = match parameter_definitions {
                Some(d) => Some(d@),
                None => None,
            };
            let prev = match existing_context {
                Some(c) => Some(c@),
                None => None,
            };
            match r {
                None => token_seq(*tokens).len() == 0 || entered.deep_view().len()
                    != sorted.len(),
                Some(ctx) => token_seq(*tokens).len() > 0 && entered.deep_view().len()
                    == sorted.len() && ctx@ == spec_fill(
                    sorted,
                    entered.deep_view(),
                    decl,
                    prev,
                    Seq::empty(),
                ),
            }
        })),
{
    let ghost decl = match parameter_definitions {
        Some(d) => Some(d@),
        None => None,
    };
    let ghost prev = match existing_context {
        Some(c) => Some(c@),
        None => None,
    };
    if token_set_is_empty(tokens) {
        return None;
    }
    let keys = sorted_strings(token_set_to_vec(tokens));
    let ghost sorted = keys.deep_view();
    if entered.len() != keys.len() {
        proof {
            assert(entered.deep_view().len() == entered@.len());
        }
        return None;
    }
    let mut context = ParamContext::new();
    let n = keys.len();
    let mut i: usize = 0;
    proof {
        assert(sorted.skip(0) =~= sorted);
        assert(entered.deep_view().skip(0) =~= entered.deep_view());
    }
    while i < n
        invariant
            i <= n,
            n == keys@.len(),
            n == entered@.len(),
            sorted == keys.deep_view(),
            sorted.len() == n,
            entered.deep_view().len() == n,
            decl == (match parameter_definitions {
                Some(d) => Some(d@),
                None => None,
            }),
            prev == (match existing_context {
                Some(c) => Some(c@),
                None => None,
            }),
            spec_fill(sorted, entered.deep_view(), decl, prev, Seq::empty()) == spec_fill(
                sorted.skip(i as int),
                entered.deep_view().skip(i as int),
                decl,
                prev,
                context@,
            ),
        decreases n - i,
    {
        proof {
            assert(sorted[i as int] == keys@[i as int]@);
            assert(entered.deep_view()[i as int] == entered@[i as int]@);
            assert(sorted.skip(i as int).drop_first() =~= sorted.skip(i + 1));
            assert(entered.deep_view().skip(i as int).drop_first() =~= entered.deep_view().skip(
                i + 1,
            ));
        }
        let key = &keys[i];
        let previous_param = match existing_context {
            Some(ctx) => match ctx.get(key) {
                Some(p) => Some(crate::params::clone_param(p)),
                None => None,
            },
            None => None,
        };
        let declared_param = match parameter_definitions {
            Some(defs) => match defs.get(key) {
                Some(p) => Some(crate::params::clone_param(p)),
                None => None,
            },
            None => None,
        };
        let value = entered[i].clone();
        let new_param = create_or_update_parameter(key, value, previous_param, declared_param);
        context.set(new_param);
        i += 1;
    }
    proof {
        assert(sorted.skip(n as int) =~= Seq::<Seq<char>>::empty());
        assert(entered.deep_view().skip(n as int) =~= Seq::<Seq<char>>::empty());
    }
    Some(context)
}

/// Creates the parameter one answer produces, preferring the resolved
/// parameter's description, then the declared one's.
fn create_or_update_parameter(
    key: &String,
    value: String,
    previous_context_param: Option<ParameterDefinition>,
    parameter_definition: Option<ParameterDefinition>,
) -> (r: ParameterDefinition)
    ensures
        r@ == spec_filled_param(
            key@,
            value@,
            (match previous_context_param {
                Some(p) => Some(p@),
                None => None,
            }),
            (match parameter_definition {
                Some(d) => Some(d@),
                None => None,
            }),
        ),
{
    if let Some(mut param) = previous_context_param {
        param.default = Some(value);
        param
    } else if let Some(mut def) = parameter_definition {
        def.default = Some(value);
        def
    } else {
        ParameterDefinition { id: key.clone(), default: Some(value), description: None }
    }
}

/// What each name resolves to when the names are walked in order and a
/// later answer overwrites an earlier one.
pub open spec fn spec_last_default(ps: Seq<ParamV>, k: Seq<char>) -> Option<Seq<char>>
    decreases ps.len(),
{
    if ps.len() == 0 {
        None
    } else if ps.last().id == k && ps.last().default is Some {
        ps.last().default
    } else {
        spec_last_default(ps.drop_last(), k)
    }
}

/// Builds the name-to-default map of a declared parameter list: each
/// declared default under its parameter's id, later declarations
/// winning; parameters without a default are left out.
pub fn build_default_lookup(definitions: &Option<Vec<ParameterDefinition>>) -> (r: Option<
    TemplateContext,
>)
    ensures
        (match (definitions, r) {
            (Some(defs), Some(ctx)) => forall|k: Seq<char>|
                #[trigger] assoc_lookup(ctx@, k) == spec_last_default(
                    crate::params::params_view(defs@),
                    k,
                ),
            (None, None) => true,
            _ => false,
        }),
{
    match definitions {
        Some(defs) => {
            let ghost psv = crate::params::params_view(defs@);
            let mut ctx = TemplateContext::new();
            let mut i: usize = 0;
            proof {
                assert(psv.take(0) =~= Seq::<ParamV>::empty());
            }
            while i < defs.len()
                invariant
                    i <= defs@.len(),
                    psv == crate::params::params_view(defs@),
                    forall|k: Seq<char>|
                        #[trigger] assoc_lookup(ctx@, k) == spec_last_default(
                            psv.take(i as int),
                            k,
                        ),
                decreases defs@.len() - i,
            {
                proof {
                    assert(psv[i as int] == defs@[i as int]@);
                    assert(psv.take(i + 1).drop_last() =~= psv.take(i as int));
                    assert(psv.take(i + 1).last() == psv[i as int]);
                }
                if let Some(default) = &defs[i].default {
                    ctx.set(defs[i].id.clone(), default.clone());
                }
                i += 1;
            }
            proof {
                assert(psv.take(defs@.len() as int) =~= psv);
            }
            Some(ctx)
        },
        None => None,
    }
}

/// What each variable resolves to when the answers are applied in
/// order, the raw input winning over the shown default, and a later
/// occurrence of a name over an earlier one.
pub open spec fn spec_last_resolved(
    keys: Seq<Seq<char>>,
    entered: Seq<Option<Seq<char>>>,
    defaults: Option<Seq<(Seq<char>, Seq<char>)>>,
    k: Seq<char>,
) -> Option<Seq<char>>
    recommends
        keys.len() == entered.len(),
    decreases keys.len(),
{
    if keys.len() == 0 {
        None
    } else if keys.last() == k {
        match entered.last() {
            Some(v) => Some(v),
            None => match defaults {
                Some(d) => assoc_lookup(d, k),
                None => None,
            },
        }
    } else {
        spec_last_resolved(keys.drop_last(), entered.drop_last(), defaults, k)
    }
}

/// Builds the template values from the answers, one per variable in
/// the set's order: an answer wins; no answer accepts the default; a
/// variable with neither leaves the context unfinished and nothing is
/// returned — as when there are no variables at all, or the answers do
/// not line up with them.
pub fn get_template_context(
    tokens: &IndexSet<String>,
    defaults: &Option<TemplateContext>,
    entered: &Vec<Option<String>>,
) -> (r: Option<TemplateContext>)
    ensures
        (match r {
            None => token_seq(*tokens).len() == 0 || entered.deep_view().len() != token_seq(
                *tokens,
            ).len() || (exists|i: int|
                0 <= i < token_seq(*tokens).len() && #[trigger] spec_resolved_answer(
                    token_seq(*tokens)[i],
                    entered.deep_view()[i],
                    template_ctx_opt_view(defaults),
                ) is None),
            Some(ctx) => token_seq(*tokens).len() > 0 && entered.deep_view().len() == token_seq(
                *tokens,
            ).len() && forall|k: Seq<char>|
                #[trigger] assoc_lookup(ctx@, k) == spec_last_resolved(
                    token_seq(*tokens),
                    entered.deep_view(),
                    template_ctx_opt_view(defaults),
                    k,
                ),
        }),
{
    let ghost toks = token_seq(*tokens);
    let ghost dv = match defaults {
        Some(d) => Some(d@),
        None => None,
    };
    if token_set_is_empty(tokens) {
        return None;
    }
    let n = token_set_len(tokens);
    if entered.len() != n {
        proof {
            assert(entered.deep_view().len() == entered@.len());
        }
        return None;
    }
    let mut ctx = TemplateContext::new();
    let mut i: usize = 0;
    proof {
        assert(toks.take(0) =~= Seq::<Seq<char>>::empty());
        assert(entered.deep_view().take(0) =~= Seq::<Option<Seq<char>>>::empty());
    }
    while i < n
        invariant
            i <= n,
            n == toks.len(),
            n == entered@.len(),
            toks == token_seq(*tokens),
            entered.deep_view().len() == n,
            dv == template_ctx_opt_view(defaults),
            forall|k: int|
                0 <= k < i ==> #[trigger] spec_resolved_answer(
                    toks[k],
                    entered.deep_view()[k],
                    dv,
                ) is Some,
            forall|k: Seq<char>|
                #[trigger] assoc_lookup(ctx@, k) == spec_last_resolved(
                    toks.take(i as int),
                    entered.deep_view().take(i as int),
                    dv,
                    k,
                ),
        decreases n - i,
    {
        proof {
            assert(entered.deep_view()[i as int] == entered@[i as int].deep_view());
            assert(toks.take(i + 1).drop_last() =~= toks.take(i as int));
            assert(toks.take(i + 1).last() == toks[i as int]);
            assert(entered.deep_view().take(i + 1).drop_last() =~= entered.deep_view().take(
                i as int,
            ));
            assert(entered.deep_view().take(i + 1).last() == entered.deep_view()[i as int]);
        }
        let key = match token_set_get(tokens, i) {
            Some(t) => t.clone(),
            None => {
                proof {
                    assert(false);
                }
                return None;
            },
        };
        let value: String = match &entered[i] {
            Some(v) => v.clone(),
            None => {
                match defaults {
                    Some(d) => match d.get(&key) {
                        Some(v) => v.clone(),
                        None => {
                            proof {
                                assert(spec_resolved_answer(
                                    token_seq(*tokens)[i as int],
                                    entered.deep_view()[i as int],
                                    template_ctx_opt_view(defaults),
                                ) is None);
                            }
                            return None;
                        },
                    },
                    None => {
                        proof {
                            assert(spec_resolved_answer(
                                token_seq(*tokens)[i as int],
                                entered.deep_view()[i as int],
                                template_ctx_opt_view(defaults),
                            ) is None);
                        }
                        return None;
                    },
                }
            },
        };
        ctx.set(key, value);
        i += 1;
    }
    proof {
        assert(toks.take(n as int) =~= toks);
        assert(entered.deep_view().take(n as int) =~= entered.deep_view());
    }
    Some(ctx)
}

/// What one variable's answer resolves to: the answer itself, else the
/// default under the variable's name.
pub open spec fn spec_resolved_answer(
    key: Seq<char>,
    entered: Option<Seq<char>>,
    defaults: Option<Seq<(Seq<char>, Seq<char>)>>,
) -> Option<Seq<char>> {
    match entered {
        Some(v) => Some(v),
        None => match defaults {
            Some(d) => assoc_lookup(d, key),
            None => None,
        },
    }
}

} // verus!
