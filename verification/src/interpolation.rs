//! Rendering templates against a map of resolved values.
//!
//! A [`TemplateContext`] maps variable names to their resolved values.
//! Rendering concatenates the text pieces of a template and replaces each
//! placeholder by its value; a placeholder without a value fails, naming
//! the first such key.

use vstd::prelude::*;
use vstd::string::StringExecFns;

use crate::errors::{Error, ParseErrorKind};
use crate::template::{spec_parse, ItemV, Template, TemplateItem};

verus! {

/// The view of an optional context: the entries when one is there.
pub open spec fn template_ctx_opt_view(d: &Option<TemplateContext>) -> Option<
    Seq<(Seq<char>, Seq<char>)>,
> {
    match d {
        Some(c) => Some(c@),
        None => None,
    }
}

/// First-match lookup in an association list of name/value views.
pub open spec fn assoc_lookup(s: Seq<(Seq<char>, Seq<char>)>, k: Seq<char>) -> Option<Seq<char>>
    decreases s.len(),
{
    if s.len() == 0 {
        None
    } else if s[0].0 == k {
        Some(s[0].1)
    } else {
        assoc_lookup(s.drop_first(), k)
    }
}

/// Resolved values for template variables: a map from name to value.
///
/// Entries are kept in insertion order; [`Self::set`] replaces the value
/// of a name already present, so names stay distinct and lookups are
/// unambiguous.
#[derive(Debug, Clone, PartialEq)]
pub struct ContextEntry {
    pub name: String,
    pub value: String,
}

#[derive(Debug, Clone, PartialEq)]
pub struct TemplateContext {
    entries: Vec<ContextEntry>,
}

impl View for TemplateContext {
    type V = Seq<(Seq<char>, Seq<char>)>;

    closed spec fn view(&self) -> Seq<(Seq<char>, Seq<char>)> {
        self.entries@.map_values(|e: ContextEntry| (e.name@, e.value@))
    }
}

impl TemplateContext {
    /// An empty map.
    pub fn new() -> (r: TemplateContext)
        ensures
            r@ == Seq::<(Seq<char>, Seq<char>)>::empty(),
    {
        let r = TemplateContext { entries: Vec::new() };
        proof {
            assert(r@ =~= Seq::<(Seq<char>, Seq<char>)>::empty());
        }
        r
    }

    /// How many names have a value.
    pub fn len(&self) -> (r: usize)
        ensures
            r == self@.len(),
    {
        self.entries.len()
    }

    /// Whether no name has a value.
    pub fn is_empty(&self) -> (r: bool)
        ensures
            r == (self@.len() == 0),
    {
        self.entries.len() == 0
    }

    /// The value of `name`, if any.
    pub fn get(&self, name: &String) -> (r: Option<&String>)
        ensures
            (match r {
                Some(v) => assoc_lookup(self@, name@) == Some(v@),
                None => assoc_lookup(self@, name@) is None,
            }),
    {
        let mut i: usize = 0;
        while i < self.entries.len()
            invariant
                i <= self.entries@.len(),
                forall|k: int| 0 <= k < i ==> self@[k].0 != name@,
            decreases self.entries@.len() - i,
        {
            proof {
                assert(self@[i as int] == (self.entries@[i as int].name@,
                self.entries@[i as int].value@));
            }
            if self.entries[i].name == *name {
                proof {
                    lemma_assoc_lookup_at(self@, name@, i as int);
                }
                return Some(&self.entries[i].value);
            }
            i += 1;
        }
        proof {
            lemma_assoc_lookup_none(self@, name@);
        }
        None
    }

    /// Gives `name` the value `value`, replacing any previous value.
    pub fn set(&mut self, name: String, value: String)
        ensures
            final(self)@.len() <= old(self)@.len() + 1,
            forall|k: Seq<char>|
                assoc_lookup(final(self)@, k) == if k == name@ {
                    Some(value@)
                } else {
                    assoc_lookup(old(self)@, k)
                },
    {
        let ghost orig = self@;
        let ghost orig_entries = self.entries@;
        let mut i: usize = 0;
        while i < self.entries.len()
            invariant
                i <= self.entries@.len(),
                self@ == orig,
                self.entries@ == orig_entries,
                orig == old(self)@,
                forall|k: int| 0 <= k < i ==> self@[k].0 != name@,
            decreases self.entries@.len() - i,
        {
            proof {
                assert(self@[i as int] == (self.entries@[i as int].name@,
                self.entries@[i as int].value@));
            }
            if self.entries[i].name == name {
                self.entries[i] = ContextEntry { name, value };
                proof {
                    let updv = self@;
                    assert(updv.len() == orig.len());
                    assert(updv[i as int] == (self.entries@[i as int].name@,
                    self.entries@[i as int].value@));
                    assert forall|m: int| 0 <= m < updv.len() && m != i implies updv[m] == orig[m]
                    by {
                        assert(self.entries@[m] == orig_entries[m]);
                        assert(orig[m] == (orig_entries[m].name@, orig_entries[m].value@));
                        assert(updv[m] == (self.entries@[m].name@, self.entries@[m].value@));
                    }
                    assert forall|k: Seq<char>|
                        assoc_lookup(updv, k) == if k == name@ {
                            Some(updv[i as int].1)
                        } else {
                            assoc_lookup(orig, k)
                        } by {
                        lemma_assoc_lookup_update(orig, updv, name@, k, i as int);
                    }
                }
                return ;
            }
            i += 1;
        }
        self.entries.push(ContextEntry { name, value });
        proof {
            let updv = self@;
            assert(updv.len() == orig.len() + 1);
            assert(updv.last() == (self.entries@.last().name@, self.entries@.last().value@));
            assert forall|m: int| 0 <= m < orig.len() implies updv[m] == orig[m] by {
                assert(self.entries@[m] == orig_entries[m]);
                assert(orig[m] == (orig_entries[m].name@, orig_entries[m].value@));
                assert(updv[m] == (self.entries@[m].name@, self.entries@[m].value@));
            }
            assert(updv.drop_last() =~= orig);
            assert forall|k: Seq<char>|
                assoc_lookup(updv, k) == if k == name@ {
                    Some(updv.last().1)
                } else {
                    assoc_lookup(orig, k)
                } by {
                lemma_assoc_lookup_append(orig, updv, name@, k);
            }
        }
    }
}

/// What rendering items against a context yields: the concatenation of
/// text pieces and looked-up values, or the first key without a value.
pub open spec fn spec_render(items: Seq<ItemV>, ctx: Seq<(Seq<char>, Seq<char>)>) -> Result<
    Seq<char>,
    Seq<char>,
>
    decreases items.len(),
{
    if items.len() == 0 {
        Ok(Seq::empty())
    } else {
        match items[0] {
            ItemV::Text(t) => match spec_render(items.drop_first(), ctx) {
                Ok(r) => Ok(t + r),
                Err(e) => Err(e),
            },
            ItemV::Key(k) => match assoc_lookup(ctx, k) {
                Some(v) => match spec_render(items.drop_first(), ctx) {
                    Ok(r) => Ok(v + r),
                    Err(e) => Err(e),
                },
                None => Err(k),
            },
        }
    }
}

/// Prepends `prefix` to a successful rendering; passes an error through.
pub open spec fn render_concat(prefix: Seq<char>, r: Result<Seq<char>, Seq<char>>) -> Result<
    Seq<char>,
    Seq<char>,
> {
    match r {
        Ok(s) => Ok(prefix + s),
        Err(e) => Err(e),
    }
}

proof fn lemma_render_skip_step(items: Seq<ItemV>, ctx: Seq<(Seq<char>, Seq<char>)>, i: int)
    requires
        0 <= i < items.len(),
    ensures
        spec_render(items.skip(i), ctx) == (match items[i] {
            ItemV::Text(t) => render_concat(t, spec_render(items.skip(i + 1), ctx)),
            ItemV::Key(k) => match assoc_lookup(ctx, k) {
                Some(v) => render_concat(v, spec_render(items.skip(i + 1), ctx)),
                None => Err(k),
            },
        }),
{
    assert(items.skip(i).drop_first() =~= items.skip(i + 1));
    assert(items.skip(i)[0] == items[i]);
}

proof fn lemma_render_concat_assoc(a: Seq<char>, b: Seq<char>, r: Result<Seq<char>, Seq<char>>)
    ensures
        render_concat(a, render_concat(b, r)) == render_concat(a + b, r),
{
    match r {
        Ok(s) => {
            assert((a + b) + s =~= a + (b + s));
        },
        Err(_) => {
        },
    }
}

/// Renders one template against the resolved values: text pieces are
/// copied, placeholders replaced; the first placeholder without a value
/// fails, naming it.
pub fn render_template(t: &Template, ctx: &TemplateContext) -> (r: Result<String, Error>)
    ensures
        (match r {
            Ok(out) => spec_render(t@, ctx@) matches Ok(o) && out@ == o,
            Err(e) => spec_render(t@, ctx@) matches Err(k) && e matches Error::Render(k2) && k2@
                == k,
        }),
{
    let mut out = String::new();
    let n = t.items.len();
    let mut i: usize = 0;
    proof {
        assert(t@.skip(0) =~= t@);
        assert(render_concat(out@, spec_render(t@, ctx@)) == spec_render(t@, ctx@)) by {
            match spec_render(t@, ctx@) {
                Ok(s) => {
                    assert(out@ + s =~= s);
                },
                Err(_) => {
                },
            }
        }
    }
    while i < n
        invariant
            i <= n,
            n == t.items@.len(),
            spec_render(t@, ctx@) == render_concat(out@, spec_render(t@.skip(i as int), ctx@)),
        decreases n - i,
    {
        proof {
            lemma_render_skip_step(t@, ctx@, i as int);
            assert(t@[i as int] == t.items@[i as int]@);
        }
        let ghost acc0 = out@;
        match &t.items[i] {
            TemplateItem::Text(txt) => {
                out.append(txt.as_str());
                proof {
                    lemma_render_concat_assoc(acc0, txt@, spec_render(t@.skip(i + 1), ctx@));
                }
            },
            TemplateItem::Key(k) => {
                match ctx.get(k) {
                    Some(v) => {
                        let ghost vv = v@;
                        out.append(v.as_str());
                        proof {
                            lemma_render_concat_assoc(acc0, vv, spec_render(t@.skip(i + 1), ctx@));
                        }
                    },
                    None => {
                        return Err(Error::Render(k.clone()));
                    },
                }
            },
        }
        i += 1;
    }
    proof {
        assert(t@.skip(n as int) =~= Seq::<ItemV>::empty());
        match spec_render(t@, ctx@) {
            Ok(s) => {
                assert(out@ + Seq::<char>::empty() =~= out@);
            },
            Err(_) => {
            },
        }
    }
    Ok(out)
}

/// The items of each template in a list, at the specification level.
pub open spec fn templates_view(s: Seq<Template>) -> Seq<Seq<ItemV>> {
    s.map_values(|t: Template| t@)
}

/// What parsing each command string of a list yields: all templates, or
/// the first parse error.
pub open spec fn spec_get_templates(cmds: Seq<Seq<char>>) -> Result<Seq<Seq<ItemV>>, ParseErrorKind>
    decreases cmds.len(),
{
    if cmds.len() == 0 {
        Ok(Seq::empty())
    } else {
        match spec_parse(cmds[0]) {
            Ok(items) => match spec_get_templates(cmds.drop_first()) {
                Ok(r) => Ok(seq![items] + r),
                Err(e) => Err(e),
            },
            Err(e) => Err(e),
        }
    }
}

proof fn lemma_get_templates_skip_step(cmds: Seq<Seq<char>>, i: int)
    requires
        0 <= i < cmds.len(),
    ensures
        spec_get_templates(cmds.skip(i)) == (match spec_parse(cmds[i]) {
            Ok(items) => match spec_get_templates(cmds.skip(i + 1)) {
                Ok(r) => Ok(seq![items] + r),
                Err(e) => Err(e),
            },
            Err(e) => Err(e),
        }),
{
    assert(cmds.skip(i).drop_first() =~= cmds.skip(i + 1));
    assert(cmds.skip(i)[0] == cmds[i]);
}

/// Parses every command string of `command` into a template, failing on
/// the first malformed one.
pub fn get_templates(command: &Vec<String>) -> (r: Result<Vec<Template>, Error>)
    ensures
        (match r {
            Ok(v) => spec_get_templates(command.deep_view()) matches Ok(ts) && templates_view(v@)
                == ts,
            Err(e) => spec_get_templates(command.deep_view()) matches Err(k) && e matches Error::Parse(k2)
                && k2 == k,
        }),
{
    let ghost cmds = command.deep_view();
    let mut out: Vec<Template> = Vec::new();
    let n = command.len();
    let mut i: usize = 0;
    proof {
        assert(cmds.skip(0) =~= cmds);
    }
    while i < n
        invariant
            i <= n,
            n == command@.len(),
            cmds == command.deep_view(),
            i <= cmds.len(),
            (spec_get_templates(cmds) == match spec_get_templates(cmds.skip(i as int)) {
                Ok(r) => Ok::<Seq<Seq<ItemV>>, ParseErrorKind>(templates_view(out@) + r),
                Err(e) => Err::<Seq<Seq<ItemV>>, ParseErrorKind>(e),
            }),
        decreases n - i,
    {
        proof {
            assert(cmds[i as int] == command@[i as int]@);
            lemma_get_templates_skip_step(cmds, i as int);
        }
        let ghost acc0 = templates_view(out@);
        match Template::parse(command[i].as_str()) {
            Ok(t) => {
                let ghost tv = t@;
                out.push(t);
                proof {
                    assert(templates_view(out@) =~= acc0.push(tv));
                    match spec_get_templates(cmds.skip(i + 1)) {
                        Ok(r) => {
                            assert(acc0 + (seq![tv] + r) =~= (acc0.push(tv)) + r);
                        },
                        Err(_) => {
                        },
                    }
                }
            },
            Err(e) => {
                return Err(e);
            },
        }
        i += 1;
    }
    proof {
        assert(cmds.skip(n as int) =~= Seq::<Seq<char>>::empty());
        match spec_get_templates(cmds) {
            Ok(r) => {
                assert(templates_view(out@) + Seq::<Seq<ItemV>>::empty() =~= templates_view(out@));
            },
            Err(_) => {
            },
        }
    }
    Ok(out)
}

/// What rendering each template of a list yields: all rendered strings,
/// or the first missing key.
pub open spec fn spec_interpolate(ts: Seq<Seq<ItemV>>, ctx: Seq<(Seq<char>, Seq<char>)>) -> Result<
    Seq<Seq<char>>,
    Seq<char>,
>
    decreases ts.len(),
{
    if ts.len() == 0 {
        Ok(Seq::empty())
    } else {
        match spec_render(ts[0], ctx) {
            Ok(s) => match spec_interpolate(ts.drop_first(), ctx) {
                Ok(r) => Ok(seq![s] + r),
                Err(e) => Err(e),
            },
            Err(e) => Err(e),
        }
    }
}

proof fn lemma_interpolate_skip_step(ts: Seq<Seq<ItemV>>, ctx: Seq<(Seq<char>, Seq<char>)>, i: int)
    requires
        0 <= i < ts.len(),
    ensures
        spec_interpolate(ts.skip(i), ctx) == (match spec_render(ts[i], ctx) {
            Ok(s) => match spec_interpolate(ts.skip(i + 1), ctx) {
                Ok(r) => Ok(seq![s] + r),
                Err(e) => Err(e),
            },
            Err(e) => Err(e),
        }),
{
    assert(ts.skip(i).drop_first() =~= ts.skip(i + 1));
    assert(ts.skip(i)[0] == ts[i]);
}

/// Renders every template of a command against the resolved values; the
/// first placeholder without a value fails, naming it.
pub fn interpolate_command(context: &TemplateContext, templates: &Vec<Template>) -> (r: Result<
    Vec<String>,
    Error,
>)
    ensures
        (match r {
            Ok(v) => spec_interpolate(templates_view(templates@), context@) matches Ok(outs)
                && v.deep_view() == outs,
            Err(e) => spec_interpolate(templates_view(templates@), context@) matches Err(k)
                && e matches Error::Render(k2) && k2@ == k,
        }),
{
    let ghost ts = templates_view(templates@);
    let mut out: Vec<String> = Vec::new();
    let n = templates.len();
    let mut i: usize = 0;
    proof {
        assert(ts.skip(0) =~= ts);
        assert(out.deep_view() =~= Seq::<Seq<char>>::empty());
    }
    while i < n
        invariant
            i <= n,
            n == templates@.len(),
            ts == templates_view(templates@),
            i <= ts.len(),
            (spec_interpolate(ts, context@) == match spec_interpolate(ts.skip(i as int), context@) {
                Ok(r) => Ok::<Seq<Seq<char>>, Seq<char>>(out.deep_view() + r),
                Err(e) => Err::<Seq<Seq<char>>, Seq<char>>(e),
            }),
        decreases n - i,
    {
        proof {
            assert(ts[i as int] == templates@[i as int]@);
            lemma_interpolate_skip_step(ts, context@, i as int);
        }
        let ghost acc0 = out.deep_view();
        match render_template(&templates[i], context) {
            Ok(s) => {
                let ghost sv = s@;
                out.push(s);
                proof {
                    assert(out.deep_view() =~= acc0.push(sv));
                    match spec_interpolate(ts.skip(i + 1), context@) {
                        Ok(r) => {
                            assert(acc0 + (seq![sv] + r) =~= (acc0.push(sv)) + r);
                        },
                        Err(_) => {
                        },
                    }
                }
            },
            Err(e) => {
                return Err(e);
            },
        }
        i += 1;
    }
    proof {
        assert(ts.skip(n as int) =~= Seq::<Seq<ItemV>>::empty());
        match spec_interpolate(ts, context@) {
            Ok(r) => {
                assert(out.deep_view() + Seq::<Seq<char>>::empty() =~= out.deep_view());
            },
            Err(_) => {
            },
        }
    }
    Ok(out)
}

proof fn lemma_assoc_lookup_at(s: Seq<(Seq<char>, Seq<char>)>, k: Seq<char>, i: int)
    requires
        0 <= i < s.len(),
        s[i].0 == k,
        forall|m: int| 0 <= m < i ==> s[m].0 != k,
    ensures
        assoc_lookup(s, k) == Some(s[i].1),
    decreases i,
{
    if i > 0 {
        lemma_assoc_lookup_at(s.drop_first(), k, i - 1);
    }
}

proof fn lemma_assoc_lookup_none(s: Seq<(Seq<char>, Seq<char>)>, k: Seq<char>)
    requires
        forall|m: int| 0 <= m < s.len() ==> s[m].0 != k,
    ensures
        assoc_lookup(s, k) is None,
    decreases s.len(),
{
    if s.len() > 0 {
        lemma_assoc_lookup_none(s.drop_first(), k);
    }
}

proof fn lemma_assoc_lookup_update(
    orig: Seq<(Seq<char>, Seq<char>)>,
    upd: Seq<(Seq<char>, Seq<char>)>,
    name: Seq<char>,
    k: Seq<char>,
    i: int,
)
    requires
        0 <= i < orig.len(),
        upd.len() == orig.len(),
        orig[i].0 == name,
        upd[i].0 == name,
        forall|m: int| 0 <= m < i ==> orig[m].0 != name,
        forall|m: int| 0 <= m < upd.len() && m != i ==> upd[m] == orig[m],
    ensures
        assoc_lookup(upd, k) == if k == name {
            Some(upd[i].1)
        } else {
            assoc_lookup(orig, k)
        },
    decreases i,
{
    if i == 0 {
        if k != name {
            assert(upd.drop_first() =~= orig.drop_first());
        }
    } else {
        assert(upd[0] == orig[0]);
        if orig[0].0 == k {
        } else {
            lemma_assoc_lookup_update(orig.drop_first(), upd.drop_first(), name, k, i - 1);
        }
    }
}

proof fn lemma_assoc_lookup_append(
    orig: Seq<(Seq<char>, Seq<char>)>,
    upd: Seq<(Seq<char>, Seq<char>)>,
    name: Seq<char>,
    k: Seq<char>,
)
    requires
        upd.len() == orig.len() + 1,
        upd.drop_last() == orig,
        upd.last().0 == name,
        forall|m: int| 0 <= m < orig.len() ==> orig[m].0 != name,
    ensures
        assoc_lookup(upd, k) == if k == name {
            Some(upd.last().1)
        } else {
            assoc_lookup(orig, k)
        },
    decreases orig.len(),
{
    if orig.len() == 0 {
        assert(upd.len() == 1);
        assert(upd[0] == upd.last());
        if k != name {
            lemma_assoc_lookup_none(upd, k);
        }
    } else {
        assert(upd[0] == orig[0]);
        if orig[0].0 == k {
            assert(assoc_lookup(upd, k) == Some(upd[0].1));
        } else {
            assert(upd.drop_first().drop_last() =~= orig.drop_first());
            assert(upd.drop_first().last() == upd.last());
            lemma_assoc_lookup_append(orig.drop_first(), upd.drop_first(), name, k);
        }
    }
}

} // verus!
