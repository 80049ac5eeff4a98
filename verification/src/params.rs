//! The parameter map: template variable ids mapped to their
//! [`ParameterDefinition`]s.
//!
//! The map is keyed by the definitions' ids, which stay distinct; entries
//! keep insertion order.  At the specification level a map is a sequence
//! of [`ParamV`] values, looked up by first match.

use vstd::prelude::*;

use crate::command_definitions::ParameterDefinition;

verus! {

/// A parameter definition, at the specification level.
#[verifier::ext_equal]
pub struct ParamV {
    pub id: Seq<char>,
    pub default: Option<Seq<char>>,
    pub description: Option<Seq<char>>,
}

impl View for ParameterDefinition {
    type V = ParamV;

    open spec fn view(&self) -> ParamV {
        ParamV {
            id: self.id@,
            default: self.default.deep_view(),
            description: self.description.deep_view(),
        }
    }
}

/// The views of a sequence of parameter definitions.
pub open spec fn params_view(s: Seq<ParameterDefinition>) -> Seq<ParamV> {
    s.map_values(|p: ParameterDefinition| p@)
}

/// Whether some entry has the given id.
pub open spec fn has_param(s: Seq<ParamV>, id: Seq<char>) -> bool {
    exists|i: int| 0 <= i < s.len() && s[i].id == id
}

/// The index of the first entry with the given id.
pub open spec fn first_param_index(s: Seq<ParamV>, id: Seq<char>) -> int
    decreases s.len(),
{
    if s.len() == 0 {
        0
    } else if s[0].id == id {
        0
    } else {
        1 + first_param_index(s.drop_first(), id)
    }
}

/// First-match lookup by id.
pub open spec fn param_lookup(s: Seq<ParamV>, id: Seq<char>) -> Option<ParamV>
    decreases s.len(),
{
    if s.len() == 0 {
        None
    } else if s[0].id == id {
        Some(s[0])
    } else {
        param_lookup(s.drop_first(), id)
    }
}

/// The ids of the entries, in order.
pub open spec fn param_ids(s: Seq<ParamV>) -> Seq<Seq<char>> {
    s.map_values(|p: ParamV| p.id)
}

/// Whether all ids are distinct.
pub open spec fn param_ids_distinct(s: Seq<ParamV>) -> bool {
    forall|i: int, j: int| 0 <= i < j < s.len() ==> s[i].id != s[j].id
}

/// Replacing the entry of `p.id` by `p`, or appending `p` when its id is
/// new.
pub open spec fn spec_set(s: Seq<ParamV>, p: ParamV) -> Seq<ParamV> {
    if has_param(s, p.id) {
        s.update(first_param_index(s, p.id), p)
    } else {
        s.push(p)
    }
}

/// Overwriting the default of the entry of `id` with `value`, or
/// appending a fresh entry with only that default when the id is new.
pub open spec fn spec_assign(s: Seq<ParamV>, id: Seq<char>, value: Seq<char>) -> Seq<ParamV> {
    if has_param(s, id) {
        let i = first_param_index(s, id);
        s.update(i, ParamV { id, default: Some(value), description: s[i].description })
    } else {
        s.push(ParamV { id, default: Some(value), description: None })
    }
}

pub proof fn lemma_first_param_props(s: Seq<ParamV>, id: Seq<char>)
    requires
        has_param(s, id),
    ensures
        0 <= first_param_index(s, id) < s.len(),
        s[first_param_index(s, id)].id == id,
        forall|m: int| 0 <= m < first_param_index(s, id) ==> s[m].id != id,
    decreases s.len(),
{
    if s[0].id != id {
        assert(has_param(s.drop_first(), id)) by {
            let w = choose|w: int| 0 <= w < s.len() && s[w].id == id;
            assert(s.drop_first()[w - 1].id == id);
        }
        lemma_first_param_props(s.drop_first(), id);
        let t = s.drop_first();
        assert(forall|m: int| 0 <= m < t.len() ==> t[m] == s[m + 1]);
        assert forall|m: int| 0 <= m < first_param_index(s, id) implies s[m].id != id by {
            if m > 0 {
                assert(t[m - 1].id != id);
            }
        }
    }
}

proof fn lemma_first_param_index_is(s: Seq<ParamV>, id: Seq<char>, i: int)
    requires
        0 <= i < s.len(),
        s[i].id == id,
        forall|m: int| 0 <= m < i ==> s[m].id != id,
    ensures
        has_param(s, id),
        first_param_index(s, id) == i,
{
    assert(has_param(s, id));
    lemma_first_param_props(s, id);
    let f = first_param_index(s, id);
    if f < i {
        assert(s[f].id != id);
    }
    if f > i {
        assert(s[i].id != id);
    }
}

pub proof fn lemma_param_lookup_at_first(s: Seq<ParamV>, id: Seq<char>)
    ensures
        param_lookup(s, id) == if has_param(s, id) {
            Some(s[first_param_index(s, id)])
        } else {
            None::<ParamV>
        },
    decreases s.len(),
{
    if s.len() == 0 {
        assert(!has_param(s, id));
    } else if s[0].id == id {
        assert(has_param(s, id));
    } else {
        lemma_param_lookup_at_first(s.drop_first(), id);
        let t = s.drop_first();
        if has_param(s, id) {
            let w = choose|w: int| 0 <= w < s.len() && s[w].id == id;
            assert(t[w - 1].id == id);
            assert(has_param(t, id));
            lemma_first_param_props(t, id);
            lemma_first_param_props(s, id);
        }
        assert(forall|m: int| 0 <= m < t.len() ==> t[m] == s[m + 1]);
        if has_param(s, id) {
            let w = choose|w: int| 0 <= w < s.len() && s[w].id == id;
            assert(t[w - 1].id == id);
            assert(has_param(t, id));
        } else {
            if has_param(t, id) {
                let w = choose|w: int| 0 <= w < t.len() && t[w].id == id;
                assert(s[w + 1].id == id);
            }
        }
    }
}

/// The law of replacement: putting a definition into a map with
/// distinct ids keeps the ids distinct.
pub proof fn lemma_set_preserves_distinct(s: Seq<ParamV>, p: ParamV)
    requires
        param_ids_distinct(s),
    ensures
        param_ids_distinct(spec_set(s, p)),
{
    if has_param(s, p.id) {
        lemma_first_param_props(s, p.id);
    }
}

/// The law of assignment: overwriting a default in a map with distinct
/// ids keeps the ids distinct.
pub proof fn lemma_assign_preserves_distinct(s: Seq<ParamV>, id: Seq<char>, value: Seq<char>)
    requires
        param_ids_distinct(s),
    ensures
        param_ids_distinct(spec_assign(s, id, value)),
{
    if has_param(s, id) {
        lemma_first_param_props(s, id);
    }
}

/// The law of the merger: an assignment never silently drops a
/// parameter — every id present before is present after, and so is the
/// assigned id.
pub proof fn lemma_assign_keeps_parameters(s: Seq<ParamV>, id: Seq<char>, value: Seq<char>)
    ensures
        forall|k: Seq<char>| #[trigger] has_param(s, k) ==> has_param(spec_assign(s, id, value), k),
        has_param(spec_assign(s, id, value), id),
{
    let u = spec_assign(s, id, value);
    if has_param(s, id) {
        lemma_first_param_props(s, id);
        let i = first_param_index(s, id);
        assert(u[i].id == id);
        assert(has_param(u, id));
        assert forall|k: Seq<char>| #[trigger] has_param(s, k) implies has_param(u, k) by {
            let w = choose|w: int| 0 <= w < s.len() && s[w].id == k;
            if w == i {
                assert(u[i].id == k);
            } else {
                assert(u[w].id == k);
            }
            assert(has_param(u, k));
        }
    } else {
        assert(u.last().id == id);
        assert(has_param(u, id));
        assert forall|k: Seq<char>| #[trigger] has_param(s, k) implies has_param(u, k) by {
            let w = choose|w: int| 0 <= w < s.len() && s[w].id == k;
            assert(u[w].id == k);
            assert(has_param(u, k));
        }
    }
}

/// Copies one parameter definition.
pub fn clone_param(p: &ParameterDefinition) -> (r: ParameterDefinition)
    ensures
        r@ == p@,
{
    ParameterDefinition {
        id: p.id.clone(),
        default: p.default.clone(),
        description: p.description.clone(),
    }
}

/// The parameter map of one command: definitions keyed by their ids,
/// in insertion order, ids distinct.
#[derive(Debug, Clone, PartialEq)]
pub struct ParamContext {
    entries: Vec<ParameterDefinition>,
}

impl View for ParamContext {
    type V = Seq<ParamV>;

    closed spec fn view(&self) -> Seq<ParamV> {
        params_view(self.entries@)
    }
}

impl ParamContext {
    /// An empty map.
    pub fn new() -> (r: ParamContext)
        ensures
            r@ == Seq::<ParamV>::empty(),
    {
        let r = ParamContext { entries: Vec::new() };
        proof {
            assert(r@ =~= Seq::<ParamV>::empty());
        }
        r
    }

    /// How many parameters the map holds.
    pub fn len(&self) -> (r: usize)
        ensures
            r == self@.len(),
    {
        self.entries.len()
    }

    /// Whether the map holds nothing.
    pub fn is_empty(&self) -> (r: bool)
        ensures
            r == (self@.len() == 0),
    {
        self.entries.len() == 0
    }

    /// The definition of `id`, if any.
    pub fn get(&self, id: &String) -> (r: Option<&ParameterDefinition>)
        ensures
            (match r {
                Some(p) => param_lookup(self@, id@) == Some(p@),
                None => param_lookup(self@, id@) is None,
            }),
    {
        let mut i: usize = 0;
        while i < self.entries.len()
            invariant
                i <= self.entries@.len(),
                forall|k: int| 0 <= k < i ==> self@[k].id != id@,
            decreases self.entries@.len() - i,
        {
            proof {
                assert(self@[i as int] == self.entries@[i as int]@);
            }
            if self.entries[i].id == *id {
                proof {
                    lemma_first_param_index_is(self@, id@, i as int);
                    lemma_param_lookup_at_first(self@, id@);
                }
                return Some(&self.entries[i]);
            }
            i += 1;
        }
        proof {
            assert(!has_param(self@, id@)) by {
                if has_param(self@, id@) {
                    let w = choose|w: int| 0 <= w < self@.len() && self@[w].id == id@;
                    assert(self@[w].id != id@);
                }
            }
            lemma_param_lookup_at_first(self@, id@);
        }
        None
    }

    /// Puts `p` into the map, replacing the definition of its id if one
    /// is there.
    pub fn set(&mut self, p: ParameterDefinition)
        ensures
            final(self)@ == spec_set(old(self)@, p@),
    {
        let ghost orig = self@;
        let ghost pv = p@;
        let mut i: usize = 0;
        while i < self.entries.len()
            invariant
                i <= self.entries@.len(),
                self@ == orig,
                orig == old(self)@,
                forall|k: int| 0 <= k < i ==> self@[k].id != pv.id,
                pv == p@,
            decreases self.entries@.len() - i,
        {
            proof {
                assert(self@[i as int] == self.entries@[i as int]@);
            }
            if self.entries[i].id == p.id {
                proof {
                    lemma_first_param_index_is(orig, pv.id, i as int);
                }
                self.entries[i] = p;
                proof {
                    assert(self@ =~= orig.update(i as int, pv));
                }
                return ;
            }
            i += 1;
        }
        proof {
            assert(!has_param(orig, pv.id)) by {
                if has_param(orig, pv.id) {
                    let w = choose|w: int| 0 <= w < orig.len() && orig[w].id == pv.id;
                    assert(orig[w].id != pv.id);
                }
            }
        }
        self.entries.push(p);
        proof {
            assert(self@ =~= orig.push(pv));
        }
    }

    /// Overwrites the default of `id` with `value`; when `id` is new, a
    /// fresh definition holding only that default is appended.
    pub fn assign_value(&mut self, id: &String, value: String)
        ensures
            final(self)@ == spec_assign(old(self)@, id@, value@),
    {
        let ghost orig = self@;
        let mut i: usize = 0;
        while i < self.entries.len()
            invariant
                i <= self.entries@.len(),
                self@ == orig,
                orig == old(self)@,
                forall|k: int| 0 <= k < i ==> self@[k].id != id@,
            decreases self.entries@.len() - i,
        {
            proof {
                assert(self@[i as int] == self.entries@[i as int]@);
            }
            if self.entries[i].id == *id {
                proof {
                    lemma_first_param_index_is(orig, id@, i as int);
                }
                let description = self.entries[i].description.clone();
                self.entries[i] = ParameterDefinition { id: id.clone(), default: Some(value), description };
                proof {
                    assert(self@ =~= orig.update(
                        i as int,
                        ParamV { id: id@, default: Some(value@), description: orig[i as int].description },
                    ));
                }
                return ;
            }
            i += 1;
        }
        proof {
            assert(!has_param(orig, id@)) by {
                if has_param(orig, id@) {
                    let w = choose|w: int| 0 <= w < orig.len() && orig[w].id == id@;
                    assert(orig[w].id != id@);
                }
            }
        }
        self.entries.push(ParameterDefinition { id: id.clone(), default: Some(value), description: None });
        proof {
            assert(self@ =~= orig.push(
                ParamV { id: id@, default: Some(value@), description: None },
            ));
        }
    }

    /// A copy of the map.
    pub fn duplicate(&self) -> (r: ParamContext)
        ensures
            r@ == self@,
    {
        let mut entries: Vec<ParameterDefinition> = Vec::new();
        let mut i: usize = 0;
        while i < self.entries.len()
            invariant
                i <= self.entries@.len(),
                self@ == params_view(self.entries@),
                entries@.len() == i,
                forall|k: int| 0 <= k < i ==> entries@[k]@ == self.entries@[k]@,
            decreases self.entries@.len() - i,
        {
            entries.push(clone_param(&self.entries[i]));
            i += 1;
        }
        let r = ParamContext { entries };
        proof {
            assert forall|k: int| 0 <= k < self.entries@.len() implies r@[k] == self@[k] by {
                assert(r@[k] == entries@[k]@);
                assert(self@[k] == self.entries@[k]@);
            }
            assert(r@ =~= self@);
        }
        r
    }

    /// The definitions, in insertion order.
    pub fn entries(&self) -> (r: &Vec<ParameterDefinition>)
        ensures
            params_view(r@) == self@,
    {
        &self.entries
    }

    /// The ids, in insertion order.
    pub fn ids(&self) -> (r: Vec<String>)
        ensures
            r.deep_view() == param_ids(self@),
    {
        let mut out: Vec<String> = Vec::new();
        let mut i: usize = 0;
        while i < self.entries.len()
            invariant
                i <= self.entries@.len(),
                out@.len() == i,
                forall|k: int| 0 <= k < i ==> out@[k]@ == self.entries@[k].id@,
            decreases self.entries@.len() - i,
        {
            out.push(self.entries[i].id.clone());
            i += 1;
        }
        proof {
            assert forall|k: int| 0 <= k < self.entries@.len() implies out.deep_view()[k]
                == param_ids(self@)[k] by {
                assert(out.deep_view()[k] == out@[k]@);
                assert(param_ids(self@)[k] == self@[k].id);
                assert(self@[k] == self.entries@[k]@);
            }
            assert(out.deep_view() =~= param_ids(self@));
        }
        out
    }
}

/// Building a map from declared definitions, first to last.
pub open spec fn spec_build_lookup(ps: Seq<ParamV>) -> Seq<ParamV>
    decreases ps.len(),
{
    if ps.len() == 0 {
        Seq::empty()
    } else {
        spec_set(spec_build_lookup(ps.drop_last()), ps.last())
    }
}

/// Builds the parameter map of a command from its declared parameter
/// list, keyed by id; a repeated id keeps the later definition.
pub fn build_parameter_lookup(definitions: &Option<Vec<ParameterDefinition>>) -> (r: Option<
    ParamContext,
>)
    ensures
        (match (definitions, r) {
            (Some(defs), Some(ctx)) => ctx@ == spec_build_lookup(params_view(defs@)),
            (None, None) => true,
            _ => false,
        }),
{
    match definitions {
        Some(defs) => {
            let ghost psv = params_view(defs@);
            let mut ctx = ParamContext::new();
            let mut i: usize = 0;
            proof {
                assert(psv.take(0) =~= Seq::<ParamV>::empty());
            }
            while i < defs.len()
                invariant
                    i <= defs@.len(),
                    psv == params_view(defs@),
                    ctx@ == spec_build_lookup(psv.take(i as int)),
                decreases defs@.len() - i,
            {
                proof {
                    assert(psv[i as int] == defs@[i as int]@);
                }
                ctx.set(clone_param(&defs[i]));
                i += 1;
                proof {
                    assert(psv.take(i as int).drop_last() =~= psv.take(i - 1));
                    assert(psv.take(i as int).last() == psv[i - 1]);
                }
            }
            proof {
                assert(psv.take(defs@.len() as int) =~= psv);
            }
            Some(ctx)
        },
        None => None,
    }
}

} // verus!
