use vstd::prelude::*;

verus! {

/// The map that a list of pairs stands for: a later pair overrides an earlier one.
pub open spec fn map_of(s: Seq<(String, String)>) -> Map<Seq<char>, Seq<char>>
    decreases s.len(),
{
    if s.len() == 0 {
        Map::empty()
    } else {
        map_of(s.subrange(0, s.len() - 1)).insert(s.last().0@, s.last().1@)
    }
}

/// Pairs past index `i` that do not name `k` leave what `k` maps to unchanged.
pub proof fn lemma_map_of_prefix(s: Seq<(String, String)>, i: int, k: Seq<char>)
    requires
        0 <= i <= s.len(),
        forall|j: int| i <= j < s.len() ==> s[j].0@ != k,
    ensures
        map_of(s).contains_key(k) == map_of(s.subrange(0, i)).contains_key(k),
        map_of(s)[k] == map_of(s.subrange(0, i))[k],
    decreases s.len() - i,
{
    if i < s.len() {
        let t = s.subrange(0, s.len() - 1);
        lemma_map_of_prefix(t, i, k);
        assert(t.subrange(0, i) =~= s.subrange(0, i));
    } else {
        assert(s.subrange(0, i) =~= s);
    }
}

pub proof fn lemma_map_of_push(s: Seq<(String, String)>, x: (String, String))
    ensures
        map_of(s.push(x)) == map_of(s).insert(x.0@, x.1@),
{
    assert(s.push(x).subrange(0, s.len() as int) =~= s);
}

pub proof fn lemma_map_of_concat(s: Seq<(String, String)>, t: Seq<(String, String)>)
    ensures
        map_of(s + t) == map_of(s).union_prefer_right(map_of(t)),
    decreases t.len(),
{
    if t.len() == 0 {
        assert(s + t =~= s);
        assert(map_of(s).union_prefer_right(map_of(t)) =~= map_of(s));
    } else {
        let u = t.subrange(0, t.len() - 1);
        lemma_map_of_concat(s, u);
        assert((s + t).subrange(0, (s + t).len() - 1) =~= s + u);
        assert(map_of(s + t) =~= map_of(s).union_prefer_right(map_of(t)));
    }
}

/// A map from names to texts, such as the variables of an expansion.
pub struct StringMap {
    pub entries: Vec<(String, String)>,
}

impl View for StringMap {
    type V = Map<Seq<char>, Seq<char>>;

    open spec fn view(&self) -> Map<Seq<char>, Seq<char>> {
        map_of(self.entries@)
    }
}

impl StringMap {
    pub fn new() -> (r: StringMap)
        ensures
            r@ == Map::<Seq<char>, Seq<char>>::empty(),
    {
        StringMap { entries: Vec::new() }
    }

    /// The text that `key` maps to.
    pub fn get(&self, key: &String) -> (r: Option<&String>)
        ensures
            r is Some <==> self@.contains_key(key@),
            r matches Some(v) ==> v@ == self@[key@],
    {
        let mut i = self.entries.len();
        while i > 0
            invariant
                i <= self.entries@.len(),
                forall|j: int| i <= j < self.entries@.len() ==> self.entries@[j].0@ != key@,
            decreases i,
        {
            if self.entries[i - 1].0 == *key {
                proof {
                    let s = self.entries@;
                    lemma_map_of_prefix(s, i as int, key@);
                    assert(s.subrange(0, i as int).subrange(0, i - 1) =~= s.subrange(0, i - 1));
                }
                return Some(&self.entries[i - 1].1);
            }
            i = i - 1;
        }
        proof {
            lemma_map_of_prefix(self.entries@, 0, key@);
        }
        None
    }

    /// Maps `key` to `value`, in place of what it mapped to before.
    pub fn insert(&mut self, key: String, value: String)
        ensures
            final(self)@ == old(self)@.insert(key@, value@),
    {
        proof {
            lemma_map_of_push(self.entries@, (key, value));
        }
        self.entries.push((key, value));
    }

    /// Maps `key` to `value` unless it maps to something already.
    pub fn insert_if_absent(&mut self, key: String, value: String)
        ensures
            final(self)@ == if old(self)@.contains_key(key@) {
                old(self)@
            } else {
                old(self)@.insert(key@, value@)
            },
    {
        if self.get(&key).is_none() {
            self.insert(key, value);
        }
    }

    /// Takes `key` out of the map.
    pub fn remove(&mut self, key: &String)
        ensures
            final(self)@ == old(self)@.remove(key@),
    {
        let ghost s = self.entries@;
        let len = self.entries.len();
        let mut kept: Vec<(String, String)> = Vec::new();
        let mut i: usize = 0;
        while i < len
            invariant
                s == self.entries@,
                len == s.len(),
                i <= len,
                map_of(kept@) == map_of(s.subrange(0, i as int)).remove(key@),
            decreases len - i,
        {
            assert(s.subrange(0, i + 1).subrange(0, i as int) =~= s.subrange(0, i as int));
            if self.entries[i].0 != *key {
                let k = self.entries[i].0.clone();
                let v = self.entries[i].1.clone();
                proof {
                    lemma_map_of_push(kept@, (k, v));
                }
                kept.push((k, v));
                assert(map_of(kept@) =~= map_of(s.subrange(0, i + 1)).remove(key@));
            } else {
                assert(map_of(kept@) =~= map_of(s.subrange(0, i + 1)).remove(key@));
            }
            i = i + 1;
        }
        assert(s.subrange(0, len as int) =~= s);
        self.entries = kept;
    }

    /// Adds every pair of `other`, which overrides what this map held.
    pub fn extend(&mut self, other: &StringMap)
        ensures
            final(self)@ == old(self)@.union_prefer_right(other@),
    {
        let ghost s = self.entries@;
        let t = &other.entries;
        let len = t.len();
        let mut i: usize = 0;
        while i < len
            invariant
                len == t@.len(),
                i <= len,
                self.entries@ == s + t@.subrange(0, i as int),
            decreases len - i,
        {
            let k = t[i].0.clone();
            let v = t[i].1.clone();
            self.entries.push((k, v));
            assert(self.entries@ =~= s + t@.subrange(0, i + 1));
            i = i + 1;
        }
        proof {
            assert(t@.subrange(0, len as int) =~= t@);
            lemma_map_of_concat(s, t@);
        }
    }

    /// Adds each pair of `defaults` whose name this map does not hold.
    pub fn add_defaults(&mut self, defaults: &StringMap)
        ensures
            final(self)@ == defaults@.union_prefer_right(old(self)@),
    {
        let mut merged = StringMap::new();
        merged.extend(defaults);
        merged.extend(self);
        assert(merged@ =~= defaults@.union_prefer_right(old(self)@));
        *self = merged;
    }

    /// Every pair, in order; a later pair overrides an earlier one with the same name.
    pub fn pairs(&self) -> (r: &Vec<(String, String)>)
        ensures
            map_of(r@) == self@,
    {
        &self.entries
    }
}

} // verus!
