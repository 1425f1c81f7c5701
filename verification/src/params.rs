use vstd::prelude::*;

use crate::text::str_eq;

verus! {

/// One named parameter of an error.
pub struct Param {
    pub key: String,
    pub value: String,
}

/// The map that a sequence of parameters denotes: a later entry for a key overrides an earlier one.
pub open spec fn entries_map(s: Seq<Param>) -> Map<Seq<char>, Seq<char>>
    decreases s.len(),
{
    if s.len() == 0 {
        Map::empty()
    } else {
        entries_map(s.drop_last()).insert(s.last().key@, s.last().value@)
    }
}

/// No key occurs twice in the sequence.
pub open spec fn keys_unique(s: Seq<Param>) -> bool {
    forall|i: int, j: int| 0 <= i < j < s.len() ==> s[i].key@ != s[j].key@
}

/// A key occurs in the denoted map exactly when some entry carries it.
pub proof fn lemma_entries_map_contains(s: Seq<Param>, k: Seq<char>)
    ensures
        entries_map(s).contains_key(k) <==> exists|i: int| 0 <= i < s.len() && s[i].key@ == k,
        entries_map(s).dom().finite(),
    decreases s.len(),
{
    if s.len() > 0 {
        lemma_entries_map_contains(s.drop_last(), k);
        if entries_map(s).contains_key(k) && s.last().key@ != k {
            let i = choose|i: int| 0 <= i < s.drop_last().len() && s.drop_last()[i].key@ == k;
            assert(s[i].key@ == k);
        }
        if exists|i: int| 0 <= i < s.len() && s[i].key@ == k {
            let i = choose|i: int| 0 <= i < s.len() && s[i].key@ == k;
            if i < s.len() - 1 {
                assert(s.drop_last()[i].key@ == k);
            }
        }
    }
}

/// With unique keys, the value the map holds for an entry's key is that entry's value.
pub proof fn lemma_entries_map_value(s: Seq<Param>, i: int)
    requires
        keys_unique(s),
        0 <= i < s.len(),
    ensures
        entries_map(s).contains_key(s[i].key@),
        entries_map(s)[s[i].key@] == s[i].value@,
    decreases s.len(),
{
    if i < s.len() - 1 {
        let t = s.drop_last();
        assert(t[i] == s[i]);
        lemma_entries_map_value(t, i);
    }
}

/// With unique keys, the map has as many keys as the sequence has entries.
pub proof fn lemma_entries_map_len(s: Seq<Param>)
    requires
        keys_unique(s),
    ensures
        entries_map(s).dom().finite(),
        entries_map(s).len() == s.len(),
    decreases s.len(),
{
    if s.len() > 0 {
        let t = s.drop_last();
        lemma_entries_map_len(t);
        lemma_entries_map_contains(t, s.last().key@);
        if entries_map(t).contains_key(s.last().key@) {
            let i = choose|i: int| 0 <= i < t.len() && t[i].key@ == s.last().key@;
            assert(s[i].key@ == s[s.len() - 1].key@);
        }
    }
}

/// Replacing the value of an existing key changes only that key's value.
pub proof fn lemma_entries_map_update(s: Seq<Param>, i: int, e: Param)
    requires
        keys_unique(s),
        0 <= i < s.len(),
        e.key@ == s[i].key@,
    ensures
        entries_map(s.update(i, e)) == entries_map(s).insert(e.key@, e.value@),
    decreases s.len(),
{
    let u = s.update(i, e);
    if i == s.len() - 1 {
        assert(u.drop_last() =~= s.drop_last());
        assert(entries_map(u) =~= entries_map(s).insert(e.key@, e.value@));
    } else {
        let t = s.drop_last();
        assert(u.drop_last() =~= t.update(i, e));
        lemma_entries_map_update(t, i, e);
        assert(s.last().key@ != e.key@);
        assert(entries_map(u) =~= entries_map(s).insert(e.key@, e.value@));
    }
}

/// A collection of named string parameters, in which no key occurs twice.
pub struct Params {
    entries: Vec<Param>,
}

impl View for Params {
    type V = Map<Seq<char>, Seq<char>>;

    closed spec fn view(&self) -> Map<Seq<char>, Seq<char>> {
        entries_map(self.entries@)
    }
}

impl Params {
    #[verifier::type_invariant]
    closed spec fn inv(self) -> bool {
        keys_unique(self.entries@)
    }

    /// Creates an empty collection.
    pub fn new() -> (res: Params)
        ensures
            res@ == Map::<Seq<char>, Seq<char>>::empty(),
    {
        Params { entries: Vec::new() }
    }

    /// Returns the number of parameters.
    pub fn len(&self) -> (res: usize)
        ensures
            self@.dom().finite(),
            res == self@.len(),
    {
        proof {
            use_type_invariant(self);
            lemma_entries_map_len(self.entries@);
        }
        self.entries.len()
    }

    /// Returns whether there are no parameters.
    pub fn is_empty(&self) -> (res: bool)
        ensures
            res == (self@ == Map::<Seq<char>, Seq<char>>::empty()),
    {
        proof {
            use_type_invariant(self);
            lemma_entries_map_len(self.entries@);
            if self.entries.len() > 0 {
                lemma_entries_map_value(self.entries@, 0);
            } else {
                assert(self@ =~= Map::<Seq<char>, Seq<char>>::empty());
            }
        }
        self.entries.len() == 0
    }

    fn position(&self, key: &str) -> (res: Option<usize>)
        ensures
            match res {
                Some(i) => i < self.entries@.len() && self.entries@[i as int].key@ == key@,
                None => forall|j: int|
                    0 <= j < self.entries@.len() ==> self.entries@[j].key@ != key@,
            },
    {
        let mut i: usize = 0;
        while i < self.entries.len()
            invariant
                i <= self.entries@.len(),
                forall|j: int| 0 <= j < i ==> self.entries@[j].key@ != key@,
            decreases self.entries@.len() - i,
        {
            if str_eq(self.entries[i].key.as_str(), key) {
                return Some(i);
            }
            i = i + 1;
        }
        None
    }

    /// Returns the value stored under `key`, if any.
    pub fn get(&self, key: &str) -> (res: Option<&String>)
        ensures
            match res {
                Some(v) => self@.contains_key(key@) && self@[key@] == v@,
                None => !self@.contains_key(key@),
            },
    {
        proof {
            use_type_invariant(self);
            lemma_entries_map_contains(self.entries@, key@);
        }
        match self.position(key) {
            Some(i) => {
                proof {
                    lemma_entries_map_value(self.entries@, i as int);
                }
                Some(&self.entries[i].value)
            },
            None => None,
        }
    }

    /// Stores `value` under `key`, replacing any earlier value for that key.
    pub fn insert(&mut self, key: String, value: String)
        ensures
            final(self)@ == old(self)@.insert(key@, value@),
    {
        proof {
            use_type_invariant(&*self);
        }
        match self.position(key.as_str()) {
            Some(i) => {
                let ghost old_entries = self.entries@;
                let e = Param { key, value };
                proof {
                    lemma_entries_map_update(old_entries, i as int, e);
                }
                let mut entries = Vec::new();
                std::mem::swap(&mut entries, &mut self.entries);
                entries.set(i, e);
                assert(entries@ == old_entries.update(i as int, e));
                self.entries = entries;
            },
            None => {
                let ghost old_entries = self.entries@;
                let mut entries = Vec::new();
                std::mem::swap(&mut entries, &mut self.entries);
                entries.push(Param { key, value });
                assert(entries@.drop_last() =~= old_entries);
                self.entries = entries;
            },
        }
    }

    /// Returns the parameters as a list of entries, each key once.
    pub fn entries(&self) -> (res: &Vec<Param>)
        ensures
            keys_unique(res@),
            entries_map(res@) == self@,
    {
        proof {
            use_type_invariant(self);
        }
        &self.entries
    }

    /// Returns a copy of the parameters.
    pub fn copy(&self) -> (res: Params)
        ensures
            res@ == self@,
    {
        self.union(&Params::new())
    }

    /// Returns the parameters of `self` together with those of `other`; where both hold a key,
    /// the value of `other` is kept.
    pub fn union(&self, other: &Params) -> (res: Params)
        ensures
            res@ == self@.union_prefer_right(other@),
    {
        proof {
            use_type_invariant(self);
            use_type_invariant(other);
        }
        let mut out = Params::new();
        let mut i: usize = 0;
        while i < self.entries.len()
            invariant
                i <= self.entries@.len(),
                out@ == entries_map(self.entries@.take(i as int)),
            decreases self.entries@.len() - i,
        {
            let e = &self.entries[i];
            out.insert(e.key.clone(), e.value.clone());
            assert(self.entries@.take(i + 1).drop_last() =~= self.entries@.take(i as int));
            i = i + 1;
        }
        assert(self.entries@.take(self.entries@.len() as int) =~= self.entries@);
        let mut j: usize = 0;
        while j < other.entries.len()
            invariant
                j <= other.entries@.len(),
                out@ == self@.union_prefer_right(entries_map(other.entries@.take(j as int))),
            decreases other.entries@.len() - j,
        {
            let e = &other.entries[j];
            out.insert(e.key.clone(), e.value.clone());
            let ghost prev = other.entries@.take(j as int);
            assert(other.entries@.take(j + 1).drop_last() =~= prev);
            assert(self@.union_prefer_right(entries_map(other.entries@.take(j + 1))) =~= self@.union_prefer_right(
                entries_map(prev),
            ).insert(e.key@, e.value@));
            j = j + 1;
        }
        assert(other.entries@.take(other.entries@.len() as int) =~= other.entries@);
        out
    }
}

} // verus!
