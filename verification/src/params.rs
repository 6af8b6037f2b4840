use vstd::prelude::*;
use vstd::string::StringExecFns;

use std::collections::HashMap;

use crate::text_order::{
    lemma_text_lt_asymmetric, lemma_text_lt_irreflexive, lemma_text_lt_total,
    lemma_text_lt_transitive, str_lt, text_lt,
};
use crate::tile_key::TileKey;

verus! {

/// A parameter as text: its name and its value.
pub type ParamView = (Seq<char>, Seq<char>);

/// The views of a list of `(name, value)` string pairs.
pub open spec fn pairs_view(s: Seq<(&str, &str)>) -> Seq<ParamView> {
    s.map_values(|p: (&str, &str)| (p.0@, p.1@))
}

/// One parameter written as `name=value`.
pub open spec fn param_text(p: ParamView) -> Seq<char> {
    p.0 + seq!['='] + p.1
}

/// A query string: every parameter written as `name=value`, in order, joined
/// by `&`.
pub open spec fn param_str(s: Seq<ParamView>) -> Seq<char>
    decreases s.len(),
{
    if s.len() == 0 {
        seq![]
    } else if s.len() == 1 {
        param_text(s[0])
    } else {
        param_str(s.drop_last()) + seq!['&'] + param_text(s.last())
    }
}

/// Index of the subdomain that serves tile `key` among `n` subdomains.
pub open spec fn subdomain_index(key: TileKey, n: nat) -> int {
    (key.y + key.x + key.level) % (n as int)
}

/// Picks the subdomain for a tile, spreading neighbouring tiles over the
/// available subdomains round-robin by `x + y + level`.
pub fn get_subdomain(subdomains: &Vec<&'static str>, key: &TileKey) -> (r: &'static str)
    requires
        subdomains.len() > 0,
        key.y + key.x + key.level <= u32::MAX,
    ensures
        r == subdomains@[subdomain_index(*key, subdomains.len() as nat)],
{
    let sum: u32 = key.y + key.x + key.level;
    subdomains[sum as usize % subdomains.len()]
}

/// Writes one parameter as `name=value`.
fn param_string(name: &str, value: &str) -> (r: String)
    ensures
        r@ == param_text((name@, value@)),
{
    let mut s = String::new();
    s.append(name);
    proof { reveal_strlit("="); }
    s.append("=");
    s.append(value);
    s
}

/// Joins `(name, value)` pairs into a query string `n1=v1&n2=v2&...`, keeping
/// their order.
pub fn key_value_iter_to_param_str(map: &Vec<(&str, &str)>) -> (r: String)
    ensures
        r@ == param_str(pairs_view(map@)),
{
    let ghost all = pairs_view(map@);
    let mut params_str = String::new();
    let mut i: usize = 0;
    while i < map.len()
        invariant
            i <= map.len(),
            all == pairs_view(map@),
            params_str@ == param_str(all.take(i as int)),
        decreases map.len() - i,
    {
        let (k, v) = map[i];
        let param = param_string(k, v);
        proof {
            assert(all.take(i + 1).drop_last() =~= all.take(i as int));
            assert(all.take(i + 1).last() == (k@, v@));
        }
        if i == 0 {
            params_str = param;
            proof {
                assert(all.take(1) =~= seq![all[0]]);
            }
        } else {
            proof { reveal_strlit("&"); }
            params_str.append("&");
            params_str.append(param.as_str());
        }
        i = i + 1;
    }
    proof {
        assert(all.take(map.len() as int) =~= all);
    }
    params_str
}


/// The parameter names of `s` are in strictly increasing order.
pub open spec fn names_sorted(s: Seq<ParamView>) -> bool {
    forall|i: int, j: int| 0 <= i < j < s.len() ==> #[trigger] text_lt(s[i].0, s[j].0)
}

/// `s` lists exactly the entries of `m`: every element is an entry of `m`,
/// and every name of `m` occurs in `s`.
pub open spec fn lists_entries(s: Seq<ParamView>, m: Map<Seq<char>, Seq<char>>) -> bool {
    &&& forall|i: int| 0 <= i < s.len() ==> m.contains_key(#[trigger] s[i].0) && m[s[i].0] == s[i].1
    &&& forall|k: Seq<char>| #[trigger] m.contains_key(k) ==> exists|i: int| 0 <= i < s.len() && s[i].0 == k
}

/// `s` is the listing of the entries of `m` in increasing order of name.
pub open spec fn is_sorted_listing(s: Seq<ParamView>, m: Map<Seq<char>, Seq<char>>) -> bool {
    names_sorted(s) && lists_entries(s, m)
}

proof fn lemma_sorted_last_is_greatest(s: Seq<ParamView>, i: int)
    requires
        names_sorted(s),
        0 <= i < s.len() - 1,
    ensures
        text_lt(s[i].0, s.last().0),
{
    assert(text_lt(s[i].0, s[s.len() - 1].0));
}

/// Two listings of the same entries, both in increasing order of name, are
/// the same sequence.
pub proof fn lemma_sorted_listing_unique(s1: Seq<ParamView>, s2: Seq<ParamView>, m: Map<Seq<char>, Seq<char>>)
    requires
        is_sorted_listing(s1, m),
        is_sorted_listing(s2, m),
    ensures
        s1 == s2,
    decreases s1.len() + s2.len(),
{
    if s1.len() == 0 {
        if s2.len() > 0 {
            assert(m.contains_key(s2[0].0));
        }
        assert(s1 =~= s2);
    } else if s2.len() == 0 {
        assert(m.contains_key(s1[0].0));
    } else {
        let l1 = s1.last();
        let l2 = s2.last();
        assert(m.contains_key(l1.0));
        assert(m.contains_key(l2.0));
        let j2 = choose|j: int| 0 <= j < s2.len() && s2[j].0 == l1.0;
        let j1 = choose|j: int| 0 <= j < s1.len() && s1[j].0 == l2.0;
        if l1.0 != l2.0 {
            if j2 < s2.len() - 1 {
                lemma_sorted_last_is_greatest(s2, j2);
                if j1 < s1.len() - 1 {
                    lemma_sorted_last_is_greatest(s1, j1);
                    lemma_text_lt_asymmetric(l1.0, l2.0);
                }
            } else if j1 < s1.len() - 1 {
                lemma_sorted_last_is_greatest(s1, j1);
            }
        }
        assert(l1.0 == l2.0);
        assert(l1 == l2);
        let t1 = s1.drop_last();
        let t2 = s2.drop_last();
        let m2 = m.remove(l1.0);
        assert forall|i: int| 0 <= i < t1.len() implies m2.contains_key(#[trigger] t1[i].0) && m2[t1[i].0] == t1[i].1 by {
            lemma_sorted_last_is_greatest(s1, i);
            lemma_text_lt_irreflexive(l1.0);
        }
        assert forall|i: int| 0 <= i < t2.len() implies m2.contains_key(#[trigger] t2[i].0) && m2[t2[i].0] == t2[i].1 by {
            lemma_sorted_last_is_greatest(s2, i);
            lemma_text_lt_irreflexive(l2.0);
        }
        assert forall|k: Seq<char>| #[trigger] m2.contains_key(k) implies exists|i: int| 0 <= i < t1.len() && t1[i].0 == k by {
            let i = choose|i: int| 0 <= i < s1.len() && s1[i].0 == k;
            assert(t1[i].0 == k);
        }
        assert forall|k: Seq<char>| #[trigger] m2.contains_key(k) implies exists|i: int| 0 <= i < t2.len() && t2[i].0 == k by {
            let i = choose|i: int| 0 <= i < s2.len() && s2[i].0 == k;
            assert(t2[i].0 == k);
        }
        assert(names_sorted(t1));
        assert(names_sorted(t2));
        lemma_sorted_listing_unique(t1, t2, m2);
        assert(s1 =~= t1.push(l1));
        assert(s2 =~= t2.push(l2));
    }
}


/// `x` is an element of `b`.
pub open spec fn occurs(x: ParamView, b: Seq<ParamView>) -> bool {
    exists|k: int| 0 <= k < b.len() && #[trigger] b[k] == x
}

/// Every element of `a` occurs in `b`.
pub open spec fn occurs_in(a: Seq<ParamView>, b: Seq<ParamView>) -> bool {
    forall|j: int| 0 <= j < a.len() ==> occurs(#[trigger] a[j], b)
}

proof fn lemma_insert_occurs(ov: Seq<ParamView>, pos: int, ev: ParamView, taken: Seq<ParamView>)
    requires
        occurs_in(ov, taken),
        occurs_in(taken, ov),
        0 <= pos <= ov.len(),
    ensures
        occurs_in(ov.insert(pos, ev), taken.push(ev)),
        occurs_in(taken.push(ev), ov.insert(pos, ev)),
{
    let nv = ov.insert(pos, ev);
    let nt = taken.push(ev);
    assert forall|j: int| 0 <= j < nv.len() implies occurs(#[trigger] nv[j], nt) by {
        if j == pos {
            assert(nt[taken.len() as int] == nv[j]);
        } else {
            let oj = if j < pos { j } else { j - 1 };
            assert(nv[j] == ov[oj]);
            assert(occurs(ov[oj], taken));
            let k = choose|k: int| 0 <= k < taken.len() && #[trigger] taken[k] == ov[oj];
            assert(nt[k] == nv[j]);
        }
    }
    assert forall|k: int| 0 <= k < nt.len() implies occurs(#[trigger] nt[k], nv) by {
        if k == taken.len() {
            assert(nv[pos] == nt[k]);
        } else {
            assert(nt[k] == taken[k]);
            assert(occurs(taken[k], ov));
            let j = choose|j: int| 0 <= j < ov.len() && #[trigger] ov[j] == taken[k];
            if j < pos {
                assert(nv[j] == nt[k]);
            } else {
                assert(nv[j + 1] == nt[k]);
            }
        }
    }
}

/// Names of `s` are pairwise different.
pub open spec fn names_distinct(s: Seq<ParamView>) -> bool {
    forall|i: int, j: int| 0 <= i < s.len() && 0 <= j < s.len() && i != j ==> s[i].0 != s[j].0
}

proof fn lemma_insert_keeps_sorted(ov: Seq<ParamView>, pos: int, ev: ParamView)
    requires
        names_sorted(ov),
        0 <= pos <= ov.len(),
        forall|j: int| 0 <= j < pos ==> !text_lt(ev.0, #[trigger] ov[j].0) && ov[j].0 != ev.0,
        pos < ov.len() ==> text_lt(ev.0, ov[pos].0),
    ensures
        names_sorted(ov.insert(pos, ev)),
{
    let nv = ov.insert(pos, ev);
    assert forall|i: int, j: int| 0 <= i < j < nv.len() implies #[trigger] text_lt(nv[i].0, nv[j].0) by {
        if j < pos {
            assert(text_lt(ov[i].0, ov[j].0));
        } else if j == pos {
            assert(!text_lt(ev.0, ov[i].0) && ov[i].0 != ev.0);
            lemma_text_lt_total(ov[i].0, ev.0);
        } else if i > pos {
            assert(text_lt(ov[i - 1].0, ov[j - 1].0));
        } else if i == pos {
            if j - 1 > pos {
                assert(text_lt(ov[pos].0, ov[j - 1].0));
                lemma_text_lt_transitive(ev.0, ov[pos].0, ov[j - 1].0);
            }
        } else {
            assert(!text_lt(ev.0, ov[i].0) && ov[i].0 != ev.0);
            lemma_text_lt_total(ov[i].0, ev.0);
            if j - 1 > pos {
                assert(text_lt(ov[pos].0, ov[j - 1].0));
                lemma_text_lt_transitive(ev.0, ov[pos].0, ov[j - 1].0);
            }
            lemma_text_lt_transitive(ov[i].0, ev.0, ov[j - 1].0);
        }
    }
}

/// Sorts `(name, value)` pairs with distinct names into increasing order of
/// name, keeping exactly the same pairs.
fn sort_by_name<'a>(entries: &Vec<(&'a str, &'a str)>) -> (out: Vec<(&'a str, &'a str)>)
    requires
        names_distinct(pairs_view(entries@)),
    ensures
        names_sorted(pairs_view(out@)),
        occurs_in(pairs_view(out@), pairs_view(entries@)),
        occurs_in(pairs_view(entries@), pairs_view(out@)),
{
    let ghost iv = pairs_view(entries@);
    let mut out: Vec<(&'a str, &'a str)> = Vec::new();
    let mut i: usize = 0;
    proof {
        assert(iv.take(0) =~= Seq::<ParamView>::empty());
        assert(pairs_view(out@) =~= Seq::<ParamView>::empty());
    }
    while i < entries.len()
        invariant
            i <= entries.len(),
            iv == pairs_view(entries@),
            names_distinct(iv),
            names_sorted(pairs_view(out@)),
            occurs_in(pairs_view(out@), iv.take(i as int)),
            occurs_in(iv.take(i as int), pairs_view(out@)),
        decreases entries.len() - i,
    {
        let e = entries[i];
        let ghost ev = (e.0@, e.1@);
        let ghost ov = pairs_view(out@);
        let ghost old_taken = iv.take(i as int);
        let ghost new_taken = iv.take(i + 1);
        assert(iv[i as int] == ev);
        let mut pos: usize = 0;
        while pos < out.len()
            invariant
                pos <= out.len(),
                ov == pairs_view(out@),
                ev == (e.0@, e.1@),
                forall|j: int| 0 <= j < pos ==> !text_lt(ev.0, #[trigger] ov[j].0),
            ensures
                pos <= out.len(),
                forall|j: int| 0 <= j < pos ==> !text_lt(ev.0, #[trigger] ov[j].0),
                pos < out.len() ==> text_lt(ev.0, ov[pos as int].0),
            decreases out.len() - pos,
        {
            if str_lt(e.0, out[pos].0) {
                break;
            }
            pos = pos + 1;
        }
        proof {
            assert forall|j: int| 0 <= j < pos implies !text_lt(ev.0, #[trigger] ov[j].0) && ov[j].0 != ev.0 by {
                assert(occurs(ov[j], old_taken));
                let k = choose|k: int| 0 <= k < old_taken.len() && #[trigger] old_taken[k] == ov[j];
                assert(old_taken[k] == iv[k]);
            }
            lemma_insert_keeps_sorted(ov, pos as int, ev);
        }
        out.insert(pos, e);
        proof {
            assert(pairs_view(out@) =~= ov.insert(pos as int, ev));
            assert(new_taken =~= old_taken.push(ev));
            lemma_insert_occurs(ov, pos as int, ev, old_taken);
        }
        i = i + 1;
    }
    proof {
        assert(iv.take(entries.len() as int) =~= iv);
    }
    out
}

/// Lists the entries of a map by walking it with `HashMap::iter`.
///
/// Trusted: the walk yields every entry of the map exactly once (so the names
/// are pairwise different) and nothing else. The order of the walk depends on
/// the map's per-process hasher and is left unsaid.
#[verifier::external_body]
fn hash_map_entries<'a>(map: &HashMap<&'a str, &'a str>) -> (r: Vec<(&'a str, &'a str)>)
    ensures
        names_distinct(pairs_view(r@)),
        lists_entries(pairs_view(r@), map.deep_view()),
{
    let mut r = Vec::new();
    for (k, v) in map.iter() {
        r.push((*k, *v));
    }
    r
}

/// Writes the entries of a map as a query string `n1=v1&n2=v2&...`.
///
/// The entries are written in increasing order of name, so the text depends
/// only on the map's contents and not on how the map happens to be walked.
pub fn map_to_param_str(map: &HashMap<&str, &str>) -> (r: String)
    ensures
        exists|s: Seq<ParamView>| is_sorted_listing(s, map.deep_view()) && r@ == param_str(s),
{
    let entries = hash_map_entries(map);
    let sorted = sort_by_name(&entries);
    let r = key_value_iter_to_param_str(&sorted);
    proof {
        let m = map.deep_view();
        let ev = pairs_view(entries@);
        let s = pairs_view(sorted@);
        assert forall|i: int| 0 <= i < s.len() implies m.contains_key(#[trigger] s[i].0) && m[s[i].0] == s[i].1 by {
            assert(occurs(s[i], ev));
            let k = choose|k: int| 0 <= k < ev.len() && #[trigger] ev[k] == s[i];
            assert(m.contains_key(ev[k].0));
        }
        assert forall|k: Seq<char>| #[trigger] m.contains_key(k) implies exists|i: int| 0 <= i < s.len() && s[i].0 == k by {
            let e = choose|e: int| 0 <= e < ev.len() && ev[e].0 == k;
            assert(occurs(ev[e], s));
            let j = choose|j: int| 0 <= j < s.len() && #[trigger] s[j] == ev[e];
            assert(s[j].0 == k);
        }
        assert(is_sorted_listing(s, m));
    }
    r
}

/// The query string of a map depends only on the map's contents: any two
/// increasing listings of the same entries give the same text.
pub proof fn lemma_param_str_of_map_is_determined(m: Map<Seq<char>, Seq<char>>, s1: Seq<ParamView>, s2: Seq<ParamView>)
    requires
        is_sorted_listing(s1, m),
        is_sorted_listing(s2, m),
    ensures
        param_str(s1) == param_str(s2),
{
    lemma_sorted_listing_unique(s1, s2, m);
}


/// The subdomain index is one of the `n` subdomains, and the tile one column
/// further east is served by the next subdomain, round-robin.
pub proof fn lemma_subdomain_round_robin(key: TileKey, n: nat)
    requires
        n > 0,
        key.x < u32::MAX,
    ensures
        0 <= subdomain_index(key, n) < n,
        subdomain_index(TileKey { x: (key.x + 1) as u32, ..key }, n) == (subdomain_index(key, n) + 1) % (n as int),
{
    let a = key.y + key.x + key.level;
    let next = TileKey { x: (key.x + 1) as u32, ..key };
    assert(next.y + next.x + next.level == a + 1);
    vstd::arithmetic::div_mod::lemma_add_mod_noop(a, 1, n as int);
    vstd::arithmetic::div_mod::lemma_add_mod_noop(a % (n as int), 1, n as int);
    vstd::arithmetic::div_mod::lemma_mod_twice(a, n as int);
    vstd::arithmetic::div_mod::lemma_mod_bound(a, n as int);
    if n > 1 {
        vstd::arithmetic::div_mod::lemma_small_mod(1, n);
    } else {
        vstd::arithmetic::div_mod::lemma_mod_self_0(1);
    }
}

/// Joining two non-empty parameter lists gives their query strings joined
/// by `&`.
pub proof fn lemma_param_str_concat(s1: Seq<ParamView>, s2: Seq<ParamView>)
    requires
        s1.len() > 0,
        s2.len() > 0,
    ensures
        param_str(s1 + s2) == param_str(s1) + seq!['&'] + param_str(s2),
    decreases s2.len(),
{
    if s2.len() == 1 {
        assert((s1 + s2).drop_last() =~= s1);
    } else {
        lemma_param_str_concat(s1, s2.drop_last());
        assert((s1 + s2).drop_last() =~= s1 + s2.drop_last());
        assert(param_str(s1 + s2) =~= param_str(s1) + seq!['&'] + param_str(s2));
    }
}

} // verus!
