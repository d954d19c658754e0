//! A balance book keyed by account name, shared by the bridge and the
//! execution stub.
use vstd::prelude::*;

verus! {

/// An account's balance in `m`; 0 for an account not registered.
pub open spec fn balance_in(m: Map<Seq<char>, u64>, k: Seq<char>) -> u64 {
    if m.contains_key(k) {
        m[k]
    } else {
        0
    }
}

/// The map that a list of entries describes; a later entry for a name wins.
pub open spec fn entries_map(s: Seq<(Seq<char>, u64)>) -> Map<Seq<char>, u64>
    decreases s.len(),
{
    if s.len() == 0 {
        Map::empty()
    } else {
        entries_map(s.drop_last()).insert(s.last().0, s.last().1)
    }
}

/// No name occurs twice.
pub open spec fn names_unique(s: Seq<(Seq<char>, u64)>) -> bool {
    forall|a: int, b: int| 0 <= a < s.len() && 0 <= b < s.len() && a != b ==> s[a].0 != s[b].0
}

proof fn lemma_map_dom(s: Seq<(Seq<char>, u64)>, k: Seq<char>)
    ensures
        entries_map(s).contains_key(k) <==> exists|i: int| 0 <= i < s.len() && (#[trigger] s[i]).0 == k,
    decreases s.len(),
{
    if s.len() > 0 {
        let d = s.drop_last();
        lemma_map_dom(d, k);
        if exists|i: int| 0 <= i < d.len() && (#[trigger] d[i]).0 == k {
            let i = choose|i: int| 0 <= i < d.len() && (#[trigger] d[i]).0 == k;
            assert(s[i] == d[i]);
        }
        if exists|i: int| 0 <= i < s.len() && (#[trigger] s[i]).0 == k {
            let i = choose|i: int| 0 <= i < s.len() && (#[trigger] s[i]).0 == k;
            if i < d.len() {
                assert(d[i] == s[i]);
            }
        }
    }
}

proof fn lemma_map_value(s: Seq<(Seq<char>, u64)>, i: int)
    requires
        names_unique(s),
        0 <= i < s.len(),
    ensures
        entries_map(s).contains_key(s[i].0),
        entries_map(s)[s[i].0] == s[i].1,
    decreases s.len(),
{
    let d = s.drop_last();
    if i < s.len() - 1 {
        assert(d[i] == s[i]);
        assert(s.last().0 != s[i].0);
        lemma_map_value(d, i);
    }
}

proof fn lemma_map_update(s: Seq<(Seq<char>, u64)>, i: int, v: u64)
    requires
        names_unique(s),
        0 <= i < s.len(),
    ensures
        entries_map(s.update(i, (s[i].0, v))) =~= entries_map(s).insert(s[i].0, v),
    decreases s.len(),
{
    let t = s.update(i, (s[i].0, v));
    let d = s.drop_last();
    if i == s.len() - 1 {
        assert(t.drop_last() =~= d);
    } else {
        assert(t.drop_last() =~= d.update(i, (d[i].0, v)));
        assert(s.last().0 != s[i].0);
        lemma_map_update(d, i, v);
    }
}

/// Balances by account name.
pub struct Ledger {
    entries: Vec<(String, u64)>,
}

impl Ledger {
    /// The entries, as names and amounts.
    pub closed spec fn entry_views(&self) -> Seq<(Seq<char>, u64)> {
        self.entries@.map_values(|e: (String, u64)| (e.0@, e.1))
    }

    #[verifier::type_invariant]
    closed spec fn inv(&self) -> bool {
        names_unique(self.entry_views())
    }

    /// An empty book.
    pub fn new() -> (r: Self)
        ensures
            r@ == Map::<Seq<char>, u64>::empty(),
    {
        let r = Ledger { entries: Vec::new() };
        assert(r.entry_views() =~= Seq::empty());
        r
    }

    /// The index of `name`'s entry.
    fn find(&self, name: &str) -> (r: Option<usize>)
        ensures
            r matches Some(i) ==> i < self.entries@.len() && self.entry_views()[i as int].0 == name@,
            r is None ==> !self@.contains_key(name@),
    {
        let target: String = name.to_owned();
        let n: usize = self.entries.len();
        let mut i: usize = 0;
        while i < n
            invariant
                target@ == name@,
                n == self.entries@.len(),
                i <= n,
                forall|j: int| 0 <= j < i ==> (#[trigger] self.entry_views()[j]).0 != name@,
            decreases n - i,
        {
            if self.entries[i].0 == target {
                return Some(i);
            }
            i = i + 1;
        }
        proof {
            lemma_map_dom(self.entry_views(), name@);
        }
        None
    }

    /// `name`'s balance; 0 where it has none.
    pub fn balance(&self, name: &str) -> (r: u64)
        ensures
            r == balance_in(self@, name@),
    {
        proof {
            use_type_invariant(self);
        }
        match self.find(name) {
            Some(i) => {
                proof {
                    lemma_map_value(self.entry_views(), i as int);
                }
                self.entries[i].1
            },
            None => 0,
        }
    }

    /// Registers `name` with a zero balance where it has none.
    pub fn register(&mut self, name: &str)
        ensures
            final(self)@ == old(self)@.insert(name@, balance_in(old(self)@, name@)),
    {
        proof {
            use_type_invariant(&*self);
        }
        match self.find(name) {
            Some(i) => {
                proof {
                    lemma_map_value(self.entry_views(), i as int);
                    assert(self@.insert(name@, balance_in(self@, name@)) =~= self@);
                }
            },
            None => {
                let ghost before = self.entry_views();
                let mut taken = Ledger::new();
                std::mem::swap(self, &mut taken);
                let mut entries = taken.entries;
                entries.push((name.to_owned(), 0));
                let ghost after = entries@.map_values(|e: (String, u64)| (e.0@, e.1));
                proof {
                    assert(after =~= before.push((name@, 0u64)));
                    assert(after.drop_last() =~= before);
                    assert forall|j: int| 0 <= j < before.len() implies before[j].0 != name@ by {
                        lemma_map_dom(before, name@);
                    }
                }
                *self = Ledger { entries };
            },
        }
    }

    /// Sets `name`'s balance, registering it where needed.
    pub fn set(&mut self, name: &str, amount: u64)
        ensures
            final(self)@ == old(self)@.insert(name@, amount),
    {
        self.register(name);
        proof {
            use_type_invariant(&*self);
        }
        let ghost mid = self@;
        match self.find(name) {
            Some(i) => {
                let ghost before = self.entry_views();
                let key: String = self.entries[i].0.clone();
                let mut taken = Ledger::new();
                std::mem::swap(self, &mut taken);
                let mut entries = taken.entries;
                entries.set(i, (key, amount));
                let ghost after = entries@.map_values(|e: (String, u64)| (e.0@, e.1));
                proof {
                    assert(after =~= before.update(i as int, (before[i as int].0, amount)));
                    assert(names_unique(after));
                }
                *self = Ledger { entries };
                proof {
                    lemma_map_update(before, i as int, amount);
                    assert(mid.insert(name@, amount) =~= old(self)@.insert(name@, amount));
                }
            },
            None => {
                assert(mid.contains_key(name@));
            },
        }
    }
}

impl View for Ledger {
    type V = Map<Seq<char>, u64>;

    closed spec fn view(&self) -> Map<Seq<char>, u64> {
        entries_map(self.entry_views())
    }
}

} // verus!
