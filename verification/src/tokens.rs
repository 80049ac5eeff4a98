//! Ordered, deduplicated template variables.
//!
//! Scanning a command's templates in order yields each distinct
//! placeholder name once, in order of first appearance.  The names are
//! kept in an [`indexmap::IndexSet`], whose contents are modeled by the
//! uninterpreted sequence [`token_seq`]; the set's methods are trusted to
//! behave as the crate documents, and everything built on them is proved
//! against that model.

use vstd::prelude::*;

use indexmap::IndexSet;

use crate::interpolation::templates_view;
use crate::template::{spec_keys, ItemV, Template};

verus! {

#[verifier::external_type_specification]
#[verifier::external_body]
#[verifier::reject_recursive_types(T)]
#[verifier::reject_recursive_types(S)]
pub struct ExIndexSet<T, S>(IndexSet<T, S>);

/// The items a token set holds, in insertion order.
pub uninterp spec fn token_seq(s: IndexSet<String>) -> Seq<Seq<char>>;

/// Relies on indexmap::IndexSet::new: a new set is empty.
#[verifier::external_body]
pub fn token_set_new() -> (r: IndexSet<String>)
    ensures
        token_seq(r) == Seq::<Seq<char>>::empty(),
{
    IndexSet::new()
}

/// Relies on indexmap::IndexSet::insert: an item equal to a present one
/// is not inserted again and leaves the order unchanged; a new item goes
/// last; the result says whether the item was new.
#[verifier::external_body]
pub fn token_set_insert(s: &mut IndexSet<String>, value: String) -> (r: bool)
    ensures
        token_seq(*final(s)) == if token_seq(*old(s)).contains(value@) {
            token_seq(*old(s))
        } else {
            token_seq(*old(s)).push(value@)
        },
        r == !token_seq(*old(s)).contains(value@),
{
    s.insert(value)
}

/// Relies on indexmap::IndexSet::contains: whether an equal item is in
/// the set.
#[verifier::external_body]
pub fn token_set_contains(s: &IndexSet<String>, value: &str) -> (r: bool)
    ensures
        r == token_seq(*s).contains(value@),
{
    s.contains(value)
}

/// Relies on indexmap::IndexSet::len: how many items the set holds.
#[verifier::external_body]
pub fn token_set_len(s: &IndexSet<String>) -> (r: usize)
    ensures
        r == token_seq(*s).len(),
{
    s.len()
}

/// Relies on indexmap::IndexSet::is_empty.
#[verifier::external_body]
pub fn token_set_is_empty(s: &IndexSet<String>) -> (r: bool)
    ensures
        r == (token_seq(*s).len() == 0),
{
    s.is_empty()
}

/// Relies on indexmap::IndexSet::get_index: the item at an insertion-order
/// position, present exactly for positions below the length.
#[verifier::external_body]
pub fn token_set_get(s: &IndexSet<String>, i: usize) -> (r: Option<&String>)
    ensures
        (match r {
            Some(v) => i < token_seq(*s).len() && v@ == token_seq(*s)[i as int],
            None => i >= token_seq(*s).len(),
        }),
{
    s.get_index(i)
}

/// Keeps the first occurrence of each item, in order.
pub open spec fn dedup_first(s: Seq<Seq<char>>) -> Seq<Seq<char>>
    decreases s.len(),
{
    if s.len() == 0 {
        Seq::empty()
    } else {
        let d = dedup_first(s.drop_last());
        if d.contains(s.last()) {
            d
        } else {
            d.push(s.last())
        }
    }
}

/// All placeholder keys of a template list, template by template, in
/// source order, with repeats kept.
pub open spec fn all_keys(ts: Seq<Seq<ItemV>>) -> Seq<Seq<char>>
    decreases ts.len(),
{
    if ts.len() == 0 {
        Seq::empty()
    } else {
        all_keys(ts.drop_last()) + spec_keys(ts.last())
    }
}

/// The index of the first occurrence of `k` in `s`.
pub open spec fn first_index_of(s: Seq<Seq<char>>, k: Seq<char>) -> int
    decreases s.len(),
{
    if s.len() == 0 {
        0
    } else if s[0] == k {
        0
    } else {
        1 + first_index_of(s.drop_first(), k)
    }
}

proof fn lemma_first_index_in_range(s: Seq<Seq<char>>, k: Seq<char>)
    requires
        s.contains(k),
    ensures
        0 <= first_index_of(s, k) < s.len(),
        s[first_index_of(s, k)] == k,
    decreases s.len(),
{
    if s[0] != k {
        assert(s.drop_first().contains(k)) by {
            let w = choose|w: int| 0 <= w < s.len() && s[w] == k;
            assert(s.drop_first()[w - 1] == k);
        }
        lemma_first_index_in_range(s.drop_first(), k);
    }
}

proof fn lemma_first_index_push(s: Seq<Seq<char>>, x: Seq<char>, k: Seq<char>)
    requires
        s.contains(k) || k == x,
    ensures
        first_index_of(s.push(x), k) == if s.contains(k) {
            first_index_of(s, k)
        } else {
            s.len() as int
        },
    decreases s.len(),
{
    let p = s.push(x);
    if s.len() == 0 {
        assert(p[0] == x);
    } else {
        assert(p[0] == s[0]);
        if s[0] == k {
        } else {
            assert(p.drop_first() =~= s.drop_first().push(x));
            if s.contains(k) {
                assert(s.drop_first().contains(k)) by {
                    let w = choose|w: int| 0 <= w < s.len() && s[w] == k;
                    assert(s.drop_first()[w - 1] == k);
                }
                lemma_first_index_push(s.drop_first(), x, k);
            } else {
                assert(!s.drop_first().contains(k)) by {
                    if s.drop_first().contains(k) {
                        let w = choose|w: int|
                            0 <= w < s.drop_first().len() && s.drop_first()[w] == k;
                        assert(s[w + 1] == k);
                    }
                }
                lemma_first_index_push(s.drop_first(), x, k);
            }
        }
    }
}

/// The law of ordered token extraction: keeping first occurrences yields
/// each distinct item of `s` exactly once, and two extracted items stand
/// in the order of their first appearances in `s`.
pub proof fn lemma_ordered_tokens_properties(s: Seq<Seq<char>>)
    ensures
        dedup_first(s).no_duplicates(),
        forall|k: Seq<char>| #[trigger] dedup_first(s).contains(k) <==> s.contains(k),
        forall|i: int, j: int|
            0 <= i < j < dedup_first(s).len() ==> first_index_of(s, dedup_first(s)[i])
                < first_index_of(s, dedup_first(s)[j]),
    decreases s.len(),
{
    if s.len() == 0 {
        assert forall|k: Seq<char>| #[trigger] dedup_first(s).contains(k) <==> s.contains(k) by {}
    } else {
        let t = s.drop_last();
        let x = s.last();
        let d = dedup_first(t);
        lemma_ordered_tokens_properties(t);
        assert(s =~= t.push(x));
        // Everything in the old extraction keeps its first index.
        assert forall|m: int| 0 <= m < d.len() implies first_index_of(s, d[m]) == first_index_of(
            t,
            d[m],
        ) && t.contains(d[m]) by {
            assert(d.contains(d[m]));
            lemma_first_index_push(t, x, d[m]);
        }
        if d.contains(x) {
            assert(dedup_first(s) == d);
            assert forall|k: Seq<char>| #[trigger] dedup_first(s).contains(k) <==> s.contains(
                k,
            ) by {
                if s.contains(k) {
                    let w = choose|w: int| 0 <= w < s.len() && s[w] == k;
                    if w < t.len() {
                        assert(t.contains(k));
                    } else {
                        assert(k == x);
                    }
                }
            }
        } else {
            assert(dedup_first(s) == d.push(x));
            let dn = d.push(x);
            assert(!t.contains(x));
            lemma_first_index_push(t, x, x);
            assert(first_index_of(s, x) == t.len());
            assert forall|m: int| 0 <= m < d.len() implies first_index_of(s, d[m])
                < t.len() as int by {
                lemma_first_index_in_range(t, d[m]);
            }
            assert(dn.no_duplicates()) by {
                assert(forall|m: int| 0 <= m < d.len() ==> dn[m] == d[m]);
                assert(dn.last() == x);
            }
            assert forall|k: Seq<char>| #[trigger] dedup_first(s).contains(k) <==> s.contains(
                k,
            ) by {
                if s.contains(k) {
                    let w = choose|w: int| 0 <= w < s.len() && s[w] == k;
                    if w < t.len() {
                        assert(t.contains(k));
                        assert(d.contains(k));
                        let m = choose|m: int| 0 <= m < d.len() && d[m] == k;
                        assert(dn[m] == k);
                        assert(dn.contains(k));
                    } else {
                        assert(k == x);
                        assert(dn.last() == x);
                        assert(dn.contains(k));
                    }
                }
                if dn.contains(k) {
                    let m = choose|m: int| 0 <= m < dn.len() && dn[m] == k;
                    if m < d.len() {
                        assert(d.contains(k));
                        assert(t.contains(k));
                        let w = choose|w: int| 0 <= w < t.len() && t[w] == k;
                        assert(s[w] == k);
                        assert(s.contains(k));
                    } else {
                        assert(k == x);
                        assert(s.last() == x);
                        assert(s.contains(k));
                    }
                }
            }
            assert forall|i: int, j: int| 0 <= i < j < dn.len() implies first_index_of(s, dn[i])
                < first_index_of(s, dn[j]) by {
                if j < d.len() {
                    assert(dn[i] == d[i] && dn[j] == d[j]);
                } else {
                    assert(dn[j] == x);
                    assert(dn[i] == d[i]);
                }
            }
        }
    }
}

/// Scans every template, in order, and collects each distinct placeholder
/// name on first sight: the canonical first-appearance order across the
/// whole template list.
pub fn extract_ordered_tokens(templates: &Vec<Template>) -> (r: IndexSet<String>)
    ensures
        token_seq(r) == dedup_first(all_keys(templates_view(templates@))),
{
    let ghost ts = templates_view(templates@);
    // Collect every key, template by template, repeats included.
    let mut keys: Vec<String> = Vec::new();
    let mut i: usize = 0;
    proof {
        assert(ts.take(0) =~= Seq::<Seq<ItemV>>::empty());
        assert(keys.deep_view() =~= Seq::<Seq<char>>::empty());
    }
    while i < templates.len()
        invariant
            i <= templates@.len(),
            ts == templates_view(templates@),
            keys.deep_view() == all_keys(ts.take(i as int)),
        decreases templates@.len() - i,
    {
        let ghost acc0 = keys.deep_view();
        let mut ks = templates[i].keys();
        let ghost ksv = ks.deep_view();
        keys.append(&mut ks);
        i += 1;
        proof {
            assert(ts[i - 1] == templates@[i - 1]@);
            assert(ts.take(i as int).drop_last() =~= ts.take(i - 1));
            assert(ts.take(i as int).last() == ts[i - 1]);
            assert(keys.deep_view() =~= acc0 + ksv);
        }
    }
    proof {
        assert(ts.take(templates@.len() as int) =~= ts);
    }
    // Insert in order; the set ignores repeats.
    let mut set = token_set_new();
    let ghost ks = keys.deep_view();
    let mut j: usize = 0;
    proof {
        assert(ks.take(0) =~= Seq::<Seq<char>>::empty());
    }
    while j < keys.len()
        invariant
            j <= keys@.len(),
            ks == keys.deep_view(),
            token_seq(set) == dedup_first(ks.take(j as int)),
        decreases keys@.len() - j,
    {
        let k = keys[j].clone();
        proof {
            assert(ks[j as int] == keys@[j as int]@);
        }
        token_set_insert(&mut set, k);
        j += 1;
        proof {
            assert(ks.take(j as int).drop_last() =~= ks.take(j - 1));
            assert(ks.take(j as int).last() == ks[j - 1]);
        }
    }
    proof {
        assert(ks.take(keys@.len() as int) =~= ks);
    }
    set
}

} // verus!
