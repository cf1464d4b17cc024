use vstd::prelude::*;

use crate::order::{lemma_lex_le_antisym, lemma_lex_le_total, lemma_lex_lt_trans, lex_lt, str_le};

verus! {

/// The contents of an entry list, keys and values as character sequences.
pub open spec fn kv_view(s: Seq<(String, String)>) -> Seq<(Seq<char>, Seq<char>)> {
    s.map_values(|p: (String, String)| (p.0@, p.1@))
}

/// The mapping an entry list denotes; a later entry for a key overrides an
/// earlier one.
pub open spec fn map_of(ents: Seq<(Seq<char>, Seq<char>)>) -> Map<Seq<char>, Seq<char>>
    decreases ents.len(),
{
    if ents.len() == 0 {
        Map::empty()
    } else {
        map_of(ents.drop_last()).insert(ents.last().0, ents.last().1)
    }
}

/// Keys strictly ascend: in particular no key occurs twice.
pub open spec fn strict_sorted(ents: Seq<(Seq<char>, Seq<char>)>) -> bool {
    forall|i: int, j: int|
        0 <= i < j < ents.len() ==> #[trigger] lex_lt(ents[i].0, ents[j].0)
}

/// The keys of the denoted mapping are exactly the keys of the entries.
pub proof fn lemma_map_of_contains(ents: Seq<(Seq<char>, Seq<char>)>, k: Seq<char>)
    ensures
        map_of(ents).contains_key(k) <==> (exists|i: int|
            0 <= i < ents.len() && (#[trigger] ents[i]).0 == k),
    decreases ents.len(),
{
    if ents.len() == 0 {
    } else {
        lemma_map_of_contains(ents.drop_last(), k);
        if map_of(ents).contains_key(k) {
            if k == ents.last().0 {
                assert(ents[ents.len() - 1].0 == k);
            } else {
                let i = choose|i: int|
                    0 <= i < ents.drop_last().len() && (#[trigger] ents.drop_last()[i]).0 == k;
                assert(ents[i].0 == k);
            }
        }
        if exists|i: int| 0 <= i < ents.len() && (#[trigger] ents[i]).0 == k {
            let i = choose|i: int| 0 <= i < ents.len() && (#[trigger] ents[i]).0 == k;
            if i < ents.len() - 1 {
                assert(ents.drop_last()[i].0 == k);
            }
        }
    }
}

/// The denoted mapping reads back the entry that carries a key, when keys
/// are unique.
pub proof fn lemma_map_of_index(ents: Seq<(Seq<char>, Seq<char>)>, i: int)
    requires
        0 <= i < ents.len(),
        forall|i1: int, i2: int|
            0 <= i1 < i2 < ents.len() ==> (#[trigger] ents[i1]).0 != (#[trigger] ents[i2]).0,
    ensures
        map_of(ents).contains_key(ents[i].0),
        map_of(ents)[ents[i].0] == ents[i].1,
    decreases ents.len(),
{
    lemma_map_of_contains(ents, ents[i].0);
    if i == ents.len() - 1 {
    } else {
        assert(ents[i].0 != ents[ents.len() - 1].0);
        assert(ents.drop_last()[i] == ents[i]);
        lemma_map_of_index(ents.drop_last(), i);
    }
}

/// Inserting an entry with a fresh key anywhere in the list adds exactly
/// that binding to the denoted mapping.
pub proof fn lemma_map_of_insert_at(
    ents: Seq<(Seq<char>, Seq<char>)>,
    j: int,
    k: Seq<char>,
    v: Seq<char>,
)
    requires
        0 <= j <= ents.len(),
        forall|i: int| 0 <= i < ents.len() ==> (#[trigger] ents[i]).0 != k,
    ensures
        map_of(ents.insert(j, (k, v))) == map_of(ents).insert(k, v),
    decreases ents.len(),
{
    let s2 = ents.insert(j, (k, v));
    if j == ents.len() {
        assert(s2.drop_last() =~~= ents);
        assert(s2.last() == (k, v));
    } else {
        assert(s2.last() == ents.last());
        assert(s2.drop_last() =~~= ents.drop_last().insert(j, (k, v)));
        assert(forall|i: int|
            0 <= i < ents.drop_last().len() ==> (#[trigger] ents.drop_last()[i]).0 != k);
        lemma_map_of_insert_at(ents.drop_last(), j, k, v);
        assert(ents[ents.len() - 1].0 != k);
        assert(map_of(ents.drop_last()).insert(k, v).insert(ents.last().0, ents.last().1)
            =~~= map_of(ents.drop_last()).insert(ents.last().0, ents.last().1).insert(k, v));
    }
}

/// Overwriting the entry that carries a key replaces exactly that binding
/// in the denoted mapping, when keys are unique.
pub proof fn lemma_map_of_update(
    ents: Seq<(Seq<char>, Seq<char>)>,
    j: int,
    k: Seq<char>,
    v: Seq<char>,
)
    requires
        0 <= j < ents.len(),
        ents[j].0 == k,
        forall|i1: int, i2: int|
            0 <= i1 < i2 < ents.len() ==> (#[trigger] ents[i1]).0 != (#[trigger] ents[i2]).0,
    ensures
        map_of(ents.update(j, (k, v))) == map_of(ents).insert(k, v),
    decreases ents.len(),
{
    let s2 = ents.update(j, (k, v));
    if j == ents.len() - 1 {
        assert(s2.drop_last() =~~= ents.drop_last());
        assert(s2.last() == (k, v));
        assert(map_of(ents.drop_last()).insert(k, v) =~~= map_of(ents.drop_last()).insert(
            k,
            ents.last().1,
        ).insert(k, v));
    } else {
        assert(s2.last() == ents.last());
        assert(s2.drop_last() =~~= ents.drop_last().update(j, (k, v)));
        assert(ents.drop_last()[j].0 == k);
        lemma_map_of_update(ents.drop_last(), j, k, v);
        assert(ents[j].0 != ents[ents.len() - 1].0);
        assert(ents.last().0 != k);
        assert(map_of(ents.drop_last()).insert(k, v).insert(ents.last().0, ents.last().1)
            =~~= map_of(ents.drop_last()).insert(ents.last().0, ents.last().1).insert(k, v));
    }
}

/// Whether one key stands strictly before another in the order.
fn entry_key_lt(a: &String, b: &String) -> (r: bool)
    ensures
        r == lex_lt(a@, b@),
{
    let le = str_le(a.as_str(), b.as_str());
    let eq = a.eq(b);
    le && !eq
}

/// Places an entry into a strictly sorted list, keeping it sorted and
/// replacing the entry of an equal key.
fn insert_sorted(out: &mut Vec<(String, String)>, k: String, v: String)
    requires
        strict_sorted(kv_view(old(out)@)),
    ensures
        strict_sorted(kv_view(final(out)@)),
        map_of(kv_view(final(out)@)) == map_of(kv_view(old(out)@)).insert(k@, v@),
{
    let ghost gk = k@;
    let ghost gv = v@;
    let ghost before = kv_view(out@);
    let mut j: usize = 0;
    loop
        invariant
            j <= out.len(),
            out@ == old(out)@,
            gk == k@,
            before == kv_view(out@),
            strict_sorted(before),
            forall|t: int| 0 <= t < j ==> lex_lt((#[trigger] before[t]).0, gk),
        ensures
            j <= out.len(),
            out@ == old(out)@,
            forall|t: int| 0 <= t < j ==> lex_lt((#[trigger] before[t]).0, gk),
            j < out.len() ==> !lex_lt(before[j as int].0, gk),
        decreases out.len() - j,
    {
        if j >= out.len() {
            break ;
        }
        let lt = entry_key_lt(&out[j].0, &k);
        proof {
            assert(before[j as int] == (out@[j as int].0@, out@[j as int].1@));
        }
        if !lt {
            break ;
        }
        j += 1;
    }
    let replace = j < out.len() && out[j].0.eq(&k);
    if replace {
        proof {
            assert(before[j as int] == (out@[j as int].0@, out@[j as int].1@));
            assert(before[j as int].0 == gk);
            assert forall|i1: int, i2: int|
                0 <= i1 < i2 < before.len() implies (#[trigger] before[i1]).0 != (
            #[trigger] before[i2]).0 by {
                assert(lex_lt(before[i1].0, before[i2].0));
            }
            lemma_map_of_update(before, j as int, gk, gv);
        }
        out[j] = (k, v);
        proof {
            let after = kv_view(out@);
            assert(after =~~= before.update(j as int, (gk, gv)));
            assert forall|i1: int, i2: int| 0 <= i1 < i2 < after.len() implies #[trigger] lex_lt(
                after[i1].0,
                after[i2].0,
            ) by {
                assert(after[i1].0 == before[i1].0);
                assert(after[i2].0 == before[i2].0);
                assert(lex_lt(before[i1].0, before[i2].0));
            }
        }
    } else {
        proof {
            // The new key is strictly above everything before position j and
            // strictly below everything from position j on.
            if j < out.len() {
                assert(before[j as int] == (out@[j as int].0@, out@[j as int].1@));
                assert(!lex_lt(before[j as int].0, gk));
                assert(before[j as int].0 != gk);
                lemma_lex_le_total(before[j as int].0, gk);
                assert(lex_lt(gk, before[j as int].0));
            }
            assert forall|t: int| j <= t < before.len() implies #[trigger] lex_lt(
                gk,
                before[t].0,
            ) by {
                if t > j {
                    assert(lex_lt(before[j as int].0, before[t].0));
                    lemma_lex_lt_trans(gk, before[j as int].0, before[t].0);
                }
            }
            assert forall|i: int| 0 <= i < before.len() implies (#[trigger] before[i]).0
                != gk by {
                if i < j {
                    assert(lex_lt(before[i].0, gk));
                } else {
                    assert(lex_lt(gk, before[i].0));
                }
            }
            lemma_map_of_insert_at(before, j as int, gk, gv);
        }
        out.insert(j, (k, v));
        proof {
            let after = kv_view(out@);
            assert(after =~~= before.insert(j as int, (gk, gv)));
            assert forall|i1: int, i2: int| 0 <= i1 < i2 < after.len() implies #[trigger] lex_lt(
                after[i1].0,
                after[i2].0,
            ) by {
                if i2 < j {
                    assert(after[i1].0 == before[i1].0);
                    assert(after[i2].0 == before[i2].0);
                } else if i2 == j {
                    assert(after[i1].0 == before[i1].0);
                    assert(after[i2].0 == gk);
                    assert(lex_lt(before[i1].0, gk));
                } else if i1 < j {
                    assert(after[i1].0 == before[i1].0);
                    assert(after[i2].0 == before[i2 - 1].0);
                    if i2 - 1 == i1 {
                        assert(false);
                    }
                    assert(lex_lt(before[i1].0, before[i2 - 1].0));
                } else if i1 == j {
                    assert(after[i1].0 == gk);
                    assert(after[i2].0 == before[i2 - 1].0);
                    assert(lex_lt(gk, before[i2 - 1].0));
                } else {
                    assert(after[i1].0 == before[i1 - 1].0);
                    assert(after[i2].0 == before[i2 - 1].0);
                    assert(lex_lt(before[i1 - 1].0, before[i2 - 1].0));
                }
            }
        }
    }
}

/// A string-to-string mapping bridged across the boundary. Insertion order
/// is immaterial: the view is the mapping itself.
pub struct StringMap {
    entries: Vec<(String, String)>,
}

impl View for StringMap {
    type V = Map<Seq<char>, Seq<char>>;

    closed spec fn view(&self) -> Map<Seq<char>, Seq<char>> {
        map_of(kv_view(self.entries@))
    }
}

impl StringMap {
    pub fn new() -> (r: Self)
        ensures
            r@ == Map::<Seq<char>, Seq<char>>::empty(),
    {
        let r = StringMap { entries: Vec::new() };
        proof {
            assert(kv_view(r.entries@) =~= Seq::<(Seq<char>, Seq<char>)>::empty());
        }
        r
    }

    /// Binds a key to a value, replacing any earlier binding of that key.
    pub fn insert(&mut self, k: String, v: String)
        ensures
            final(self)@ == old(self)@.insert(k@, v@),
    {
        let ghost gk = k@;
        let ghost gv = v@;
        self.entries.push((k, v));
        proof {
            let w = kv_view(self.entries@);
            assert(w.drop_last() =~~= kv_view(old(self).entries@));
            assert(w.last() == (gk, gv));
            assert(self@ =~~= old(self)@.insert(gk, gv));
        }
    }

    /// The mapping's entries re-sorted into the total order on keys, so the
    /// result never depends on insertion or iteration order.
    pub fn sorted_entries(&self) -> (out: Vec<(String, String)>)
        ensures
            strict_sorted(kv_view(out@)),
            map_of(kv_view(out@)) == self@,
    {
        let mut out: Vec<(String, String)> = Vec::new();
        proof {
            assert(kv_view(out@) =~= Seq::<(Seq<char>, Seq<char>)>::empty());
            assert(kv_view(self.entries@.take(0)) =~= Seq::<(Seq<char>, Seq<char>)>::empty());
        }
        let mut i: usize = 0;
        while i < self.entries.len()
            invariant
                i <= self.entries@.len(),
                strict_sorted(kv_view(out@)),
                map_of(kv_view(out@)) == map_of(kv_view(self.entries@.take(i as int))),
            decreases self.entries@.len() - i,
        {
            let p = &self.entries[i];
            let k = p.0.clone();
            let v = p.1.clone();
            let ghost gk = k@;
            let ghost gv = v@;
            insert_sorted(&mut out, k, v);
            proof {
                let post = kv_view(self.entries@.take(i as int + 1));
                assert(post.drop_last() =~~= kv_view(self.entries@.take(i as int)));
                assert(post.last() == (gk, gv));
            }
            i += 1;
        }
        proof {
            assert(self.entries@.take(self.entries@.len() as int) =~= self.entries@);
        }
        out
    }
}

/// The text that the host's pretty JSON rendering produces for an object
/// with the given fields in the given order.
pub uninterp spec fn json_pretty_of(ents: Seq<(Seq<char>, Seq<char>)>) -> Seq<char>;

/// Relies on serde_json::to_string_pretty over a serde_json::Map built from
/// the pairs in order: the rendered text is a function of the pairs alone,
/// and rendering a map of strings cannot fail.
#[verifier::external_body]
fn render_json_pretty(entries: &Vec<(String, String)>) -> (r: String)
    requires
        strict_sorted(kv_view(entries@)),
    ensures
        r@ == json_pretty_of(kv_view(entries@)),
{
    let mut map = serde_json::Map::new();
    for (k, v) in entries.iter() {
        map.insert(k.clone(), serde_json::Value::String(v.clone()));
    }
    serde_json::to_string_pretty(&map).expect("a map of strings always serializes")
}

/// Dumps a mapping as pretty-printed JSON whose keys stand in the total
/// order on strings, whatever order the mapping was built in.
#[allow(nonstandard_style)]
pub fn TESTING_BridgedStringMap_dump_to_json(map: &StringMap) -> (r: String)
    ensures
        exists|ents: Seq<(Seq<char>, Seq<char>)>|
            strict_sorted(ents) && map_of(ents) == map@ && r@ == #[trigger] json_pretty_of(ents),
{
    let sorted = map.sorted_entries();
    let r = render_json_pretty(&sorted);
    proof {
        let w = kv_view(sorted@);
        assert(strict_sorted(w) && map_of(w) == map@ && r@ == json_pretty_of(w));
    }
    r
}

/// The dump of a mapping is a function of the mapping alone: any two
/// strictly sorted entry lists denoting the same mapping render to the same
/// text, whatever order the mapping was built in.
pub proof fn lemma_dump_deterministic(
    s1: Seq<(Seq<char>, Seq<char>)>,
    s2: Seq<(Seq<char>, Seq<char>)>,
)
    requires
        strict_sorted(s1),
        strict_sorted(s2),
        map_of(s1) == map_of(s2),
    ensures
        json_pretty_of(s1) == json_pretty_of(s2),
{
    lemma_sorted_entries_unique(s1, s2);
}

/// Two strictly sorted entry lists that denote the same mapping are the
/// same list: the dump of a mapping does not depend on how it was built.
pub proof fn lemma_sorted_entries_unique(
    s1: Seq<(Seq<char>, Seq<char>)>,
    s2: Seq<(Seq<char>, Seq<char>)>,
)
    requires
        strict_sorted(s1),
        strict_sorted(s2),
        map_of(s1) == map_of(s2),
    ensures
        s1 == s2,
    decreases s1.len(),
{
    if s1.len() == 0 && s2.len() == 0 {
        assert(s1 =~= s2);
    } else if s1.len() == 0 {
        lemma_map_of_contains(s1, s2.last().0);
        lemma_map_of_contains(s2, s2.last().0);
        assert(s2[s2.len() - 1].0 == s2.last().0);
        assert(false);
    } else if s2.len() == 0 {
        lemma_map_of_contains(s1, s1.last().0);
        lemma_map_of_contains(s2, s1.last().0);
        assert(s1[s1.len() - 1].0 == s1.last().0);
        assert(false);
    } else {
        let k1 = s1.last().0;
        let k2 = s2.last().0;
        // The last key of each list is its maximum, so the two must agree.
        if k1 != k2 {
            lemma_map_of_contains(s1, k1);
            assert(s1[s1.len() - 1].0 == k1);
            lemma_map_of_contains(s2, k1);
            let i = choose|i: int| 0 <= i < s2.len() && (#[trigger] s2[i]).0 == k1;
            assert(i < s2.len() - 1);
            assert(lex_lt(s2[i].0, s2[s2.len() - 1].0));
            assert(lex_lt(k1, k2));
            lemma_map_of_contains(s2, k2);
            assert(s2[s2.len() - 1].0 == k2);
            lemma_map_of_contains(s1, k2);
            let t = choose|t: int| 0 <= t < s1.len() && (#[trigger] s1[t]).0 == k2;
            assert(t < s1.len() - 1);
            assert(lex_lt(s1[t].0, s1[s1.len() - 1].0));
            assert(lex_lt(k2, k1));
            lemma_lex_le_antisym(k1, k2);
            assert(false);
        }
        // Same key, so the denoted mapping gives both lists the same value.
        assert forall|i1: int, i2: int| 0 <= i1 < i2 < s1.len() implies (#[trigger] s1[i1]).0 != (
        #[trigger] s1[i2]).0 by {
            assert(lex_lt(s1[i1].0, s1[i2].0));
        }
        assert forall|i1: int, i2: int| 0 <= i1 < i2 < s2.len() implies (#[trigger] s2[i1]).0 != (
        #[trigger] s2[i2]).0 by {
            assert(lex_lt(s2[i1].0, s2[i2].0));
        }
        lemma_map_of_index(s1, s1.len() - 1);
        lemma_map_of_index(s2, s2.len() - 1);
        assert(s1.last().1 == s2.last().1);
        // The last key is fresh for the shorter lists, so stripping the last
        // entry strips exactly one binding from the mapping.
        lemma_map_of_contains(s1.drop_last(), k1);
        if map_of(s1.drop_last()).contains_key(k1) {
            let i = choose|i: int|
                0 <= i < s1.drop_last().len() && (#[trigger] s1.drop_last()[i]).0 == k1;
            assert(lex_lt(s1[i].0, s1[s1.len() - 1].0));
            assert(false);
        }
        lemma_map_of_contains(s2.drop_last(), k2);
        if map_of(s2.drop_last()).contains_key(k2) {
            let i = choose|i: int|
                0 <= i < s2.drop_last().len() && (#[trigger] s2.drop_last()[i]).0 == k2;
            assert(lex_lt(s2[i].0, s2[s2.len() - 1].0));
            assert(false);
        }
        assert(map_of(s1.drop_last()) =~= map_of(s1).remove(k1));
        assert(map_of(s2.drop_last()) =~= map_of(s2).remove(k2));
        assert forall|i1: int, i2: int|
            0 <= i1 < i2 < s1.drop_last().len() implies #[trigger] lex_lt(
            s1.drop_last()[i1].0,
            s1.drop_last()[i2].0,
        ) by {
            assert(lex_lt(s1[i1].0, s1[i2].0));
        }
        assert forall|i1: int, i2: int|
            0 <= i1 < i2 < s2.drop_last().len() implies #[trigger] lex_lt(
            s2.drop_last()[i1].0,
            s2.drop_last()[i2].0,
        ) by {
            assert(lex_lt(s2[i1].0, s2[i2].0));
        }
        lemma_sorted_entries_unique(s1.drop_last(), s2.drop_last());
        assert(s1 =~= s2) by {
            assert(s1.drop_last() =~= s2.drop_last());
            assert(s1.drop_last().len() == s2.drop_last().len());
            assert(s1.len() == s2.len());
            assert(s1.last() == s2.last());
            assert forall|t: int| 0 <= t < s1.len() implies s1[t] == s2[t] by {
                if t < s1.len() - 1 {
                    assert(s1.drop_last()[t] == s1[t]);
                    assert(s2.drop_last()[t] == s2[t]);
                    assert(s1.drop_last()[t] == s2.drop_last()[t]);
                }
            }
        }
    }
}

} // verus!
