//! Expansion of `${key}` placeholders in launch arguments.
use vstd::prelude::*;
use crate::library::{find_key, first_key_index, lemma_first_key_index};
use crate::text::{contains_spec, copy_str, lemma_replace_absent, replace_spec, replace_str};

verus! {

/// Views of key/value string pairs.
pub open spec fn pairs_view(v: Seq<(String, String)>) -> Seq<(Seq<char>, Seq<char>)> {
    v.map_values(|p: (String, String)| (p.0@, p.1@))
}

/// Index of the first entry keyed `key`, or -1.
pub open spec fn key_index(m: Seq<(Seq<char>, Seq<char>)>, key: Seq<char>) -> int
    decreases m.len(),
{
    if m.len() == 0 {
        -1
    } else if m.last().0 == key && key_index(m.drop_last(), key) < 0 {
        m.len() - 1
    } else {
        key_index(m.drop_last(), key)
    }
}

/// No key is bound twice.
pub open spec fn keys_unique(m: Seq<(Seq<char>, Seq<char>)>) -> bool {
    forall|i: int, j: int| 0 <= i < j < m.len() ==> (#[trigger] m[i]).0 != (#[trigger] m[j]).0
}

proof fn lemma_key_index(m: Seq<(Seq<char>, Seq<char>)>, key: Seq<char>)
    ensures
        -1 <= key_index(m, key) < m.len(),
        key_index(m, key) >= 0 ==> m[key_index(m, key)].0 == key,
        key_index(m, key) < 0 ==> forall|i: int| 0 <= i < m.len() ==> (#[trigger] m[i]).0 != key,
    decreases m.len(),
{
    if m.len() > 0 {
        let d = m.drop_last();
        lemma_key_index(d, key);
        assert forall|i: int| 0 <= i < d.len() implies d[i] == m[i] by {}
    }
}

/// Putting an entry keeps keys unique.
pub proof fn lemma_put_entry_unique(m: Seq<(Seq<char>, Seq<char>)>, key: Seq<char>, value: Seq<char>)
    requires
        keys_unique(m),
    ensures
        keys_unique(put_entry(m, key, value)),
{
    lemma_key_index(m, key);
    let r = put_entry(m, key, value);
    assert forall|i: int, j: int| 0 <= i < j < r.len() implies (#[trigger] r[i]).0 != (#[trigger] r[j]).0 by {
        if j == m.len() {
            assert(r[i] == m[i]);
        } else if i == key_index(m, key) {
            assert(r[j] == m[j]);
        } else if j == key_index(m, key) {
            assert(r[i] == m[i]);
        } else {
            assert(r[i] == m[i] && r[j] == m[j]);
        }
    }
}

/// The entries with `key` bound to `value`: in place when the key is bound, else appended.
pub open spec fn put_entry(m: Seq<(Seq<char>, Seq<char>)>, key: Seq<char>, value: Seq<char>) -> Seq<
    (Seq<char>, Seq<char>),
> {
    let i = key_index(m, key);
    if 0 <= i < m.len() {
        m.update(i, (key, value))
    } else {
        m.push((key, value))
    }
}

/// The entries after putting each of `es` in order.
pub open spec fn put_all(m: Seq<(Seq<char>, Seq<char>)>, es: Seq<(Seq<char>, Seq<char>)>) -> Seq<
    (Seq<char>, Seq<char>),
>
    decreases es.len(),
{
    if es.len() == 0 {
        m
    } else {
        let p = put_all(m, es.drop_last());
        put_entry(p, es.last().0, es.last().1)
    }
}

/// The placeholder `${key}`.
pub open spec fn placeholder(key: Seq<char>) -> Seq<char> {
    "${"@ + key + "}"@
}

/// The input with each entry's placeholder replaced by its value, entry by entry in order.
pub open spec fn substitute_spec(es: Seq<(Seq<char>, Seq<char>)>, s: Seq<char>) -> Seq<char>
    decreases es.len(),
{
    if es.len() == 0 {
        s
    } else {
        replace_spec(substitute_spec(es.drop_last(), s), placeholder(es.last().0), es.last().1)
    }
}

proof fn lemma_key_index_agrees(v: Seq<(String, String)>, key: Seq<char>)
    ensures
        key_index(pairs_view(v), key) == first_key_index(v, key),
    decreases v.len(),
{
    lemma_first_key_index(v, key);
    if v.len() > 0 {
        let d = v.drop_last();
        lemma_key_index_agrees(d, key);
        lemma_first_key_index(d, key);
        assert(pairs_view(v).drop_last() =~= pairs_view(d));
        let fk = first_key_index(v, key);
        let fd = first_key_index(d, key);
        assert forall|k: int| 0 <= k < d.len() implies d[k] == v[k] by {}
        if fd >= 0 {
            assert(v[fd].0@ == key);
            assert(fk <= fd);
            if fk < fd {
                assert(d[fk].0@ == key);
            }
        } else {
            if fk >= 0 && fk < d.len() {
                assert(d[fk].0@ == key);
            }
        }
    }
}

/// Collects placeholder values, then hands out the substitutor.
pub struct ArgumentSubstitutorBuilder {
    entries: Vec<(String, String)>,
}

impl View for ArgumentSubstitutorBuilder {
    type V = Seq<(Seq<char>, Seq<char>)>;

    closed spec fn view(&self) -> Self::V {
        pairs_view(self.entries@)
    }
}

/// Expands `${key}` placeholders with the values it was built with.
pub struct ArgumentSubstitutor {
    entries: Vec<(String, String)>,
}

impl View for ArgumentSubstitutor {
    type V = Seq<(Seq<char>, Seq<char>)>;

    closed spec fn view(&self) -> Self::V {
        pairs_view(self.entries@)
    }
}

impl ArgumentSubstitutorBuilder {
    pub fn new() -> (r: Self)
        ensures
            r@ == Seq::<(Seq<char>, Seq<char>)>::empty(),
            keys_unique(r@),
    {
        let r = ArgumentSubstitutorBuilder { entries: Vec::new() };
        assert(r@ =~= Seq::<(Seq<char>, Seq<char>)>::empty());
        r
    }

    fn put(&mut self, key: &str, value: &str)
        ensures
            final(self)@ == put_entry(old(self)@, key@, value@),
            keys_unique(old(self)@) ==> keys_unique(final(self)@),
    {
        proof {
            if keys_unique(self@) {
                lemma_put_entry_unique(self@, key@, value@);
            }
            lemma_key_index_agrees(self.entries@, key@);
            lemma_first_key_index(self.entries@, key@);
        }
        let pair = (copy_str(key), copy_str(value));
        match find_key(&self.entries, key) {
            Some(i) => {
                self.entries[i] = pair;
                assert(self@ =~= put_entry(old(self)@, key@, value@));
            },
            None => {
                self.entries.push(pair);
                assert(self@ =~= put_entry(old(self)@, key@, value@));
            },
        }
    }

    /// Binds `key` to `value`, replacing an earlier value of the same key.
    pub fn add(&mut self, key: &str, value: &str) -> (r: &mut Self)
        ensures
            r@ == put_entry(old(self)@, key@, value@),
            keys_unique(old(self)@) ==> keys_unique(r@),
            *final(self) == *final(r),
    {
        self.put(key, value);
        self
    }

    /// Binds each pair in order, later pairs overriding earlier bindings.
    pub fn add_all(&mut self, map: Vec<(String, String)>) -> (r: &mut Self)
        ensures
            r@ == put_all(old(self)@, pairs_view(map@)),
            keys_unique(old(self)@) ==> keys_unique(r@),
            *final(self) == *final(r),
    {
        let mut i: usize = 0;
        assert(pairs_view(map@).subrange(0, 0) =~= Seq::<(Seq<char>, Seq<char>)>::empty());
        while i < map.len()
            invariant
                i <= map@.len(),
                self@ == put_all(old(self)@, pairs_view(map@).subrange(0, i as int)),
                keys_unique(old(self)@) ==> keys_unique(self@),
            decreases map.len() - i,
        {
            assert(pairs_view(map@).subrange(0, i + 1).drop_last() =~= pairs_view(map@).subrange(
                0,
                i as int,
            ));
            self.put(map[i].0.as_str(), map[i].1.as_str());
            i = i + 1;
        }
        assert(pairs_view(map@).subrange(0, i as int) =~= pairs_view(map@));
        self
    }

    /// The substitutor over the collected bindings.
    pub fn build(self) -> (r: ArgumentSubstitutor)
        ensures
            r@ == self@,
    {
        ArgumentSubstitutor { entries: self.entries }
    }
}

impl ArgumentSubstitutor {
    /// Replaces every `${key}` of each binding by its value, binding by binding
    /// in the order they were added; unknown placeholders stay as they are.
    pub fn substitute(&self, input: &str) -> (r: String)
        ensures
            r@ == substitute_spec(self@, input@),
    {
        let mut out = copy_str(input);
        let mut i: usize = 0;
        assert(self@.subrange(0, 0) =~= Seq::<(Seq<char>, Seq<char>)>::empty());
        while i < self.entries.len()
            invariant
                i <= self.entries@.len(),
                out@ == substitute_spec(self@.subrange(0, i as int), input@),
            decreases self.entries.len() - i,
        {
            assert(self@.subrange(0, i + 1).drop_last() =~= self@.subrange(0, i as int));
            let mut pat = copy_str("${");
            pat.append(self.entries[i].0.as_str());
            pat.append("}");
            proof {
                reveal_strlit("}");
            }
            out = replace_str(out.as_str(), pat.as_str(), self.entries[i].1.as_str());
            i = i + 1;
        }
        assert(self@.subrange(0, i as int) =~= self@);
        out
    }
}

/// A string that holds no placeholder of any binding is left as it is.
pub proof fn lemma_substitute_settled(es: Seq<(Seq<char>, Seq<char>)>, s: Seq<char>)
    requires
        forall|i: int| 0 <= i < es.len() ==> !contains_spec(s, placeholder(#[trigger] es[i].0)),
    ensures
        substitute_spec(es, s) == s,
    decreases es.len(),
{
    if es.len() > 0 {
        let d = es.drop_last();
        assert forall|i: int| 0 <= i < d.len() implies !contains_spec(s, placeholder(#[trigger] d[i].0)) by {
            assert(d[i] == es[i]);
        }
        lemma_substitute_settled(d, s);
        assert(es.last() == es[es.len() - 1]);
        lemma_replace_absent(s, placeholder(es.last().0), es.last().1);
    }
}

/// Substituting again over a fully substituted string changes nothing.
pub proof fn lemma_substitute_idempotent(es: Seq<(Seq<char>, Seq<char>)>, s: Seq<char>)
    requires
        forall|i: int|
            0 <= i < es.len() ==> !contains_spec(substitute_spec(es, s), placeholder(#[trigger] es[i].0)),
    ensures
        substitute_spec(es, substitute_spec(es, s)) == substitute_spec(es, s),
{
    lemma_substitute_settled(es, substitute_spec(es, s));
}

} // verus!
