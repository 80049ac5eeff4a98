//! Command-argument template strings.
//!
//! A template is plain text with placeholders: `{` and `}` delimit a key,
//! whose surrounding whitespace is ignored.  `\{`, `\}` and `\\` escape a
//! brace or a backslash; a backslash before anything else is an error, as
//! are an unbalanced brace, a key containing a backslash, and a key that
//! is empty once trimmed.

use vstd::prelude::*;
use vstd::string::StrSliceExecFns;

use crate::errors::{Error, ParseErrorKind};

verus! {

/// One parsed piece of a template, at the specification level.
pub enum ItemV {
    /// Literal text, reproduced as-is on rendering.
    Text(Seq<char>),
    /// A placeholder key, replaced by its value on rendering.
    Key(Seq<char>),
}

/// What `char::is_whitespace` returns; the exact character set is
/// Unicode's and is not restated here.
pub uninterp spec fn char_is_space(c: char) -> bool;

/// Relies on char::is_whitespace: whether the character has the Unicode
/// `White_Space` property, a function of the character alone.
#[verifier::external_body]
fn is_space(c: char) -> (r: bool)
    ensures
        r == char_is_space(c),
{
    c.is_whitespace()
}

/// The three characters that cannot stand bare in template text.
pub open spec fn is_special(c: char) -> bool {
    c == '\\' || c == '{' || c == '}'
}

/// Index of the first special character, if any.
pub open spec fn find_special(s: Seq<char>) -> Option<int>
    decreases s.len(),
{
    if s.len() == 0 {
        None
    } else if is_special(s[0]) {
        Some(0)
    } else {
        match find_special(s.drop_first()) {
            Some(i) => Some(i + 1),
            None => None,
        }
    }
}

/// Index of the first occurrence of `c`, if any.
pub open spec fn find_char(s: Seq<char>, c: char) -> Option<int>
    decreases s.len(),
{
    if s.len() == 0 {
        None
    } else if s[0] == c {
        Some(0)
    } else {
        match find_char(s.drop_first(), c) {
            Some(i) => Some(i + 1),
            None => None,
        }
    }
}

pub proof fn lemma_find_special_props(s: Seq<char>)
    ensures
        match find_special(s) {
            Some(i) => 0 <= i < s.len() && is_special(s[i])
                && forall|k: int| 0 <= k < i ==> !is_special(s[k]),
            None => forall|k: int| 0 <= k < s.len() ==> !is_special(s[k]),
        },
    decreases s.len(),
{
    if s.len() > 0 && !is_special(s[0]) {
        let t = s.drop_first();
        lemma_find_special_props(t);
        assert(forall|k: int| 0 <= k < t.len() ==> t[k] == s[k + 1]);
        match find_special(t) {
            Some(i) => {
                assert forall|k: int| 0 <= k < i + 1 implies !is_special(s[k]) by {
                    if k > 0 {
                        assert(!is_special(t[k - 1]));
                    }
                }
            },
            None => {
                assert forall|k: int| 0 <= k < s.len() implies !is_special(s[k]) by {
                    if k > 0 {
                        assert(!is_special(t[k - 1]));
                    }
                }
            },
        }
    }
}

pub proof fn lemma_find_char_props(s: Seq<char>, c: char)
    ensures
        match find_char(s, c) {
            Some(i) => 0 <= i < s.len() && s[i] == c
                && forall|k: int| 0 <= k < i ==> s[k] != c,
            None => forall|k: int| 0 <= k < s.len() ==> s[k] != c,
        },
    decreases s.len(),
{
    if s.len() > 0 && s[0] != c {
        let t = s.drop_first();
        lemma_find_char_props(t, c);
        assert(forall|k: int| 0 <= k < t.len() ==> t[k] == s[k + 1]);
        match find_char(t, c) {
            Some(i) => {
                assert forall|k: int| 0 <= k < i + 1 implies s[k] != c by {
                    if k > 0 {
                        assert(t[k - 1] != c);
                    }
                }
            },
            None => {
                assert forall|k: int| 0 <= k < s.len() implies s[k] != c by {
                    if k > 0 {
                        assert(t[k - 1] != c);
                    }
                }
            },
        }
    }
}

/// The sequence without its leading whitespace.
pub open spec fn trim_start_spec(s: Seq<char>) -> Seq<char>
    decreases s.len(),
{
    if s.len() > 0 && char_is_space(s[0]) {
        trim_start_spec(s.drop_first())
    } else {
        s
    }
}

/// The sequence without its trailing whitespace.
pub open spec fn trim_end_spec(s: Seq<char>) -> Seq<char>
    decreases s.len(),
{
    if s.len() > 0 && char_is_space(s.last()) {
        trim_end_spec(s.drop_last())
    } else {
        s
    }
}

/// The sequence without leading and trailing whitespace, as `str::trim`
/// computes it.
pub open spec fn trim_spec(s: Seq<char>) -> Seq<char> {
    trim_end_spec(trim_start_spec(s))
}

/// What parsing a template string yields: its items in order, or the
/// first error the left-to-right scan meets.  Text runs are split exactly
/// where the scan splits them: at each escape and at each placeholder.
pub open spec fn spec_parse(s: Seq<char>) -> Result<Seq<ItemV>, ParseErrorKind>
    decreases s.len(),
    via spec_parse_dec
{
    match find_special(s) {
        None => if s.len() == 0 {
            Ok(Seq::empty())
        } else {
            Ok(seq![ItemV::Text(s)])
        },
        Some(i) => if i > 0 {
            match spec_parse(s.skip(i)) {
                Ok(rest) => Ok(seq![ItemV::Text(s.take(i))] + rest),
                Err(e) => Err(e),
            }
        } else if s[0] == '\\' {
            if s.len() >= 2 && is_special(s[1]) {
                match spec_parse(s.skip(2)) {
                    Ok(rest) => Ok(seq![ItemV::Text(seq![s[1]])] + rest),
                    Err(e) => Err(e),
                }
            } else {
                Err(ParseErrorKind::BadEscape)
            }
        } else if s[0] == '{' {
            match find_char(s.skip(1), '}') {
                None => Err(ParseErrorKind::UnbalancedBrace),
                Some(j) => {
                    let raw = s.subrange(1, 1 + j);
                    if raw.contains('\\') {
                        Err(ParseErrorKind::KeyEscape)
                    } else if trim_spec(raw).len() == 0 {
                        Err(ParseErrorKind::EmptyKey)
                    } else {
                        match spec_parse(s.skip(j + 2)) {
                            Ok(rest) => Ok(seq![ItemV::Key(trim_spec(raw))] + rest),
                            Err(e) => Err(e),
                        }
                    }
                },
            }
        } else {
            Err(ParseErrorKind::UnbalancedBrace)
        },
    }
}

#[via_fn]
proof fn spec_parse_dec(s: Seq<char>) {
    lemma_find_special_props(s);
    if s.len() > 0 {
        lemma_find_char_props(s.skip(1), '}');
    }
}

/// One parsed piece of a template.
#[derive(Debug, Clone, PartialEq)]
pub enum TemplateItem {
    /// Literal text, reproduced as-is on rendering.
    Text(String),
    /// A placeholder key, replaced by its value on rendering.
    Key(String),
}

impl View for TemplateItem {
    type V = ItemV;

    open spec fn view(&self) -> ItemV {
        match self {
            TemplateItem::Text(t) => ItemV::Text(t@),
            TemplateItem::Key(k) => ItemV::Key(k@),
        }
    }
}

/// The items of a sequence of parsed pieces, at the specification level.
pub open spec fn seq_items_view(s: Seq<TemplateItem>) -> Seq<ItemV> {
    s.map_values(|it: TemplateItem| it@)
}

/// A parsed template: its items in source order.
#[derive(Debug, Clone, PartialEq)]
pub struct Template {
    pub items: Vec<TemplateItem>,
}

impl View for Template {
    type V = Seq<ItemV>;

    open spec fn view(&self) -> Seq<ItemV> {
        seq_items_view(self.items@)
    }
}

proof fn lemma_trim_start_at(s: Seq<char>, i: int)
    requires
        0 <= i <= s.len(),
        forall|k: int| 0 <= k < i ==> char_is_space(s[k]),
        i < s.len() ==> !char_is_space(s[i]),
    ensures
        trim_start_spec(s) == s.skip(i),
    decreases i,
{
    if i == 0 {
        assert(s.skip(0) == s);
    } else {
        assert(char_is_space(s[0]));
        lemma_trim_start_at(s.drop_first(), i - 1);
        assert(s.drop_first().skip(i - 1) == s.skip(i));
    }
}

proof fn lemma_trim_end_at(s: Seq<char>, j: int)
    requires
        0 <= j <= s.len(),
        forall|k: int| j <= k < s.len() ==> char_is_space(s[k]),
        j > 0 ==> !char_is_space(s[j - 1]),
    ensures
        trim_end_spec(s) == s.take(j),
    decreases s.len() - j,
{
    if j == s.len() {
        assert(s.take(j) == s);
    } else {
        assert(char_is_space(s.last()));
        lemma_trim_end_at(s.drop_last(), j);
        assert(s.drop_last().take(j) == s.take(j));
    }
}

/// Finds the next special character at or after `pos`.
fn find_special_from(s: &str, pos: usize, n: usize) -> (r: Option<usize>)
    requires
        n == s@.len(),
        pos <= n,
    ensures
        match r {
            Some(i) => pos <= i < n && find_special(s@.skip(pos as int)) == Some(i - pos as int),
            None => find_special(s@.skip(pos as int)) is None,
        },
{
    let ghost t = s@.skip(pos as int);
    proof {
        assert(forall|k: int| 0 <= k < t.len() ==> t[k] == s@[k + pos]);
    }
    let mut i: usize = pos;
    while i < n
        invariant
            pos <= i <= n,
            n == s@.len(),
            t == s@.skip(pos as int),
            forall|k: int| pos <= k < i ==> !is_special(s@[k]),
        decreases n - i,
    {
        let c = s.get_char(i);
        if c == '\\' || c == '{' || c == '}' {
            proof {
                lemma_find_special_props(t);
                assert(forall|k: int| 0 <= k < t.len() ==> t[k] == s@[k + pos]);
                assert(is_special(t[i - pos]));
                assert(forall|k: int| 0 <= k < i - pos ==> !is_special(t[k]));
            }
            return Some(i);
        }
        i += 1;
    }
    proof {
        lemma_find_special_props(t);
        assert(forall|k: int| 0 <= k < t.len() ==> t[k] == s@[k + pos]);
        assert(forall|k: int| 0 <= k < t.len() ==> !is_special(t[k]));
    }
    None
}

/// Finds the next occurrence of `c` at or after `pos`.
pub fn find_char_from(s: &str, pos: usize, n: usize, c: char) -> (r: Option<usize>)
    requires
        n == s@.len(),
        pos <= n,
    ensures
        match r {
            Some(i) => pos <= i < n && find_char(s@.skip(pos as int), c) == Some(i - pos as int),
            None => find_char(s@.skip(pos as int), c) is None,
        },
{
    let ghost t = s@.skip(pos as int);
    proof {
        assert(forall|k: int| 0 <= k < t.len() ==> t[k] == s@[k + pos]);
    }
    let mut i: usize = pos;
    while i < n
        invariant
            pos <= i <= n,
            n == s@.len(),
            t == s@.skip(pos as int),
            forall|k: int| pos <= k < i ==> s@[k] != c,
        decreases n - i,
    {
        let c2 = s.get_char(i);
        if c2 == c {
            proof {
                lemma_find_char_props(t, c);
                assert(forall|k: int| 0 <= k < t.len() ==> t[k] == s@[k + pos]);
                assert(t[i - pos] == c);
                assert(forall|k: int| 0 <= k < i - pos ==> t[k] != c);
            }
            return Some(i);
        }
        i += 1;
    }
    proof {
        lemma_find_char_props(t, c);
        assert(forall|k: int| 0 <= k < t.len() ==> t[k] == s@[k + pos]);
        assert(forall|k: int| 0 <= k < t.len() ==> t[k] != c);
    }
    None
}

/// Whether the characters of `s` in `[a, b)` contain a backslash.
fn range_has_backslash(s: &str, a: usize, b: usize, n: usize) -> (r: bool)
    requires
        n == s@.len(),
        a <= b <= n,
    ensures
        r == s@.subrange(a as int, b as int).contains('\\'),
{
    let ghost raw = s@.subrange(a as int, b as int);
    proof {
        assert(forall|k: int| 0 <= k < raw.len() ==> raw[k] == s@[k + a]);
    }
    let mut i: usize = a;
    while i < b
        invariant
            a <= i <= b <= n,
            n == s@.len(),
            raw == s@.subrange(a as int, b as int),
            forall|k: int| a <= k < i ==> s@[k] != '\\',
        decreases b - i,
    {
        let c = s.get_char(i);
        if c == '\\' {
            proof {
                assert(raw[i - a] == '\\');
            }
            return true;
        }
        i += 1;
    }
    proof {
        assert(forall|k: int| 0 <= k < raw.len() ==> raw[k] != '\\');
    }
    false
}

/// Trims whitespace from the characters of `s` in `[a, b)` and hands the
/// trimmed key back, or `None` when nothing but whitespace is there.
pub fn trimmed_key(s: &str, a: usize, b: usize, n: usize) -> (r: Option<String>)
    requires
        n == s@.len(),
        a <= b <= n,
    ensures
        match r {
            Some(k) => k@ == trim_spec(s@.subrange(a as int, b as int)) && k@.len() > 0,
            None => trim_spec(s@.subrange(a as int, b as int)).len() == 0,
        },
{
    let ghost raw = s@.subrange(a as int, b as int);
    proof {
        assert(forall|k: int| 0 <= k < raw.len() ==> raw[k] == s@[k + a]);
    }
    // Skip leading whitespace.
    let mut p: usize = a;
    while p < b
        invariant_except_break
            a <= p <= b,
            b <= n,
            n == s@.len(),
            forall|k: int| a <= k < p ==> char_is_space(s@[k]),
        ensures
            a <= p <= b,
            forall|k: int| a <= k < p ==> char_is_space(s@[k]),
            p < b ==> !char_is_space(s@[p as int]),
        decreases b - p,
    {
        if !is_space(s.get_char(p)) {
            break;
        }
        p += 1;
    }
    if p == b {
        proof {
            lemma_trim_start_at(raw, raw.len() as int);
            assert(trim_start_spec(raw).len() == 0);
        }
        return None;
    }
    proof {
        lemma_trim_start_at(raw, p - a);
    }
    // Skip trailing whitespace.
    let mut q: usize = b;
    while q > p
        invariant_except_break
            p <= q <= b,
            b <= n,
            n == s@.len(),
            forall|k: int| q <= k < b ==> char_is_space(s@[k]),
        ensures
            p <= q <= b,
            forall|k: int| q <= k < b ==> char_is_space(s@[k]),
            q > p ==> !char_is_space(s@[q - 1]),
        decreases q,
    {
        if !is_space(s.get_char(q - 1)) {
            break;
        }
        q -= 1;
    }
    proof {
        assert(q > p) by {
            if q == p {
                assert(char_is_space(s@[p as int]));
            }
        }
        let mid = raw.skip(p - a);
        assert(forall|k: int| 0 <= k < mid.len() ==> mid[k] == s@[k + p]);
        lemma_trim_end_at(mid, q - p);
        assert(trim_spec(raw) == mid.take(q - p));
        assert(mid.take(q - p) =~= s@.subrange(p as int, q as int));
    }
    let k = s.substring_char(p, q).to_owned();
    Some(k)
}

proof fn lemma_items_view_concat(a: Seq<TemplateItem>, b: Seq<TemplateItem>)
    ensures
        seq_items_view(a + b) =~= seq_items_view(a) + seq_items_view(b),
{
}

/// Parses the characters of `s` from `pos` on.
fn parse_items_from(s: &str, pos: usize, n: usize) -> (r: Result<
    Vec<TemplateItem>,
    ParseErrorKind,
>)
    requires
        n == s@.len(),
        pos <= n,
    ensures
        (match r {
            Ok(v) => spec_parse(s@.skip(pos as int)) matches Ok(items) && seq_items_view(v@)
                == items,
            Err(e) => spec_parse(s@.skip(pos as int)) matches Err(k) && e == k,
        }),
    decreases n - pos,
{
    let ghost t = s@.skip(pos as int);
    proof {
        assert(forall|k: int| 0 <= k < t.len() ==> t[k] == s@[k + pos]);
    }
    match find_special_from(s, pos, n) {
        None => {
            let mut v: Vec<TemplateItem> = Vec::new();
            if pos < n {
                let text = s.substring_char(pos, n).to_owned();
                proof {
                    assert(text@ =~= t);
                }
                v.push(TemplateItem::Text(text));
                proof {
                    assert(seq_items_view(v@) =~= seq![ItemV::Text(t)]);
                }
            } else {
                proof {
                    assert(seq_items_view(v@) =~= Seq::<ItemV>::empty());
                }
            }
            Ok(v)
        },
        Some(i) => {
            if i > pos {
                let text = s.substring_char(pos, i).to_owned();
                proof {
                    assert(text@ =~= t.take(i - pos));
                }
                match parse_items_from(s, i, n) {
                    Ok(mut rest) => {
                        proof {
                            assert(s@.skip(i as int) =~= t.skip(i - pos));
                        }
                        let mut v: Vec<TemplateItem> = Vec::new();
                        v.push(TemplateItem::Text(text));
                        let ghost head = v@;
                        let ghost tail = rest@;
                        v.append(&mut rest);
                        proof {
                            lemma_items_view_concat(head, tail);
                            assert(seq_items_view(head) =~= seq![ItemV::Text(t.take(i - pos))]);
                            assert(seq_items_view(v@) == seq_items_view(head) + seq_items_view(
                                tail,
                            ));
                        }
                        Ok(v)
                    },
                    Err(e) => {
                        proof {
                            assert(s@.skip(i as int) =~= t.skip(i - pos));
                        }
                        Err(e)
                    },
                }
            } else {
                let c = s.get_char(pos);
                if c == '\\' {
                    if pos + 1 < n {
                        let c2 = s.get_char(pos + 1);
                        if c2 == '\\' || c2 == '{' || c2 == '}' {
                            let text = s.substring_char(pos + 1, pos + 2).to_owned();
                            proof {
                                assert(text@ =~= seq![t[1]]);
                            }
                            match parse_items_from(s, pos + 2, n) {
                                Ok(mut rest) => {
                                    proof {
                                        assert(s@.skip(pos + 2) =~= t.skip(2));
                                    }
                                    let mut v: Vec<TemplateItem> = Vec::new();
                                    v.push(TemplateItem::Text(text));
                                    let ghost head = v@;
                                    let ghost tail = rest@;
                                    v.append(&mut rest);
                                    proof {
                                        lemma_items_view_concat(head, tail);
                                        assert(seq_items_view(head) =~= seq![
                                            ItemV::Text(seq![t[1]]),
                                        ]);
                                    }
                                    Ok(v)
                                },
                                Err(e) => {
                                    proof {
                                        assert(s@.skip(pos + 2) =~= t.skip(2));
                                    }
                                    Err(e)
                                },
                            }
                        } else {
                            Err(ParseErrorKind::BadEscape)
                        }
                    } else {
                        Err(ParseErrorKind::BadEscape)
                    }
                } else if c == '{' {
                    proof {
                        assert(s@.skip(pos + 1) =~= t.skip(1));
                    }
                    match find_char_from(s, pos + 1, n, '}') {
                        None => Err(ParseErrorKind::UnbalancedBrace),
                        Some(cl) => {
                            let ghost j = cl - (pos + 1);
                            proof {
                                assert(s@.subrange(pos + 1, cl as int) =~= t.subrange(1, 1 + j));
                            }
                            if range_has_backslash(s, pos + 1, cl, n) {
                                Err(ParseErrorKind::KeyEscape)
                            } else {
                                match trimmed_key(s, pos + 1, cl, n) {
                                    None => Err(ParseErrorKind::EmptyKey),
                                    Some(key) => {
                                        match parse_items_from(s, cl + 1, n) {
                                            Ok(mut rest) => {
                                                proof {
                                                    assert(s@.skip(cl + 1) =~= t.skip(j + 2));
                                                }
                                                let mut v: Vec<TemplateItem> = Vec::new();
                                                v.push(TemplateItem::Key(key));
                                                let ghost head = v@;
                                                let ghost tail = rest@;
                                                v.append(&mut rest);
                                                proof {
                                                    lemma_items_view_concat(head, tail);
                                                    assert(seq_items_view(head) =~= seq![
                                                        ItemV::Key(trim_spec(t.subrange(1, 1 + j))),
                                                    ]);
                                                }
                                                Ok(v)
                                            },
                                            Err(e) => {
                                                proof {
                                                    assert(s@.skip(cl + 1) =~= t.skip(j + 2));
                                                }
                                                Err(e)
                                            },
                                        }
                                    },
                                }
                            }
                        },
                    }
                } else {
                    Err(ParseErrorKind::UnbalancedBrace)
                }
            }
        },
    }
}

impl Template {
    /// Parses a template string, yielding its items or the first error of
    /// the left-to-right scan.
    pub fn parse(s: &str) -> (r: Result<Template, Error>)
        ensures
            (match r {
                Ok(t) => spec_parse(s@) matches Ok(items) && t@ == items,
                Err(e) => spec_parse(s@) matches Err(k) && e matches Error::Parse(k2) && k2 == k,
            }),
    {
        let n = s.unicode_len();
        proof {
            assert(s@.skip(0) =~= s@);
        }
        match parse_items_from(s, 0, n) {
            Ok(items) => Ok(Template { items }),
            Err(k) => Err(Error::Parse(k)),
        }
    }

    /// The keys of this template's placeholders, in source order, with
    /// repeats kept.
    pub fn keys(&self) -> (r: Vec<String>)
        ensures
            r.deep_view() == spec_keys(self@),
    {
        let mut out: Vec<String> = Vec::new();
        let mut idx: usize = 0;
        proof {
            assert(self@.take(0) =~= Seq::<ItemV>::empty());
        }
        while idx < self.items.len()
            invariant
                idx <= self.items@.len(),
                out.deep_view() == spec_keys(self@.take(idx as int)),
            decreases self.items@.len() - idx,
        {
            let ghost prefix = self@.take(idx as int);
            match &self.items[idx] {
                TemplateItem::Key(k) => {
                    out.push(k.clone());
                },
                TemplateItem::Text(_) => {
                },
            }
            idx += 1;
            proof {
                assert(self@.take(idx as int) =~= prefix.push(self.items@[idx - 1]@));
                lemma_spec_keys_push(prefix, self.items@[idx - 1]@);
            }
        }
        proof {
            assert(self@.take(self.items@.len() as int) =~= self@);
        }
        out
    }
}

/// The keys of a sequence of items, in order, with repeats kept.
pub open spec fn spec_keys(items: Seq<ItemV>) -> Seq<Seq<char>>
    decreases items.len(),
{
    if items.len() == 0 {
        Seq::empty()
    } else {
        match items.last() {
            ItemV::Key(k) => spec_keys(items.drop_last()).push(k),
            ItemV::Text(_) => spec_keys(items.drop_last()),
        }
    }
}

proof fn lemma_spec_keys_push(items: Seq<ItemV>, it: ItemV)
    ensures
        spec_keys(items.push(it)) == (match it {
            ItemV::Key(k) => spec_keys(items).push(k),
            ItemV::Text(_) => spec_keys(items),
        }),
{
    assert(items.push(it).drop_last() =~= items);
    assert(items.push(it).last() == it);
}

} // verus!
