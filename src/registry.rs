//! The token registry, the queue of parked pollers, and the engine that
//! holds both under one critical section.
use vstd::prelude::*;
use crate::urls::same_text;

verus! {

/// The map that a list of (identifier, token) entries stands for; a later
/// entry for the same identifier wins.
pub open spec fn map_of(entries: Seq<(Seq<char>, Seq<char>)>) -> Map<Seq<char>, Seq<char>>
    decreases entries.len(),
{
    if entries.len() == 0 {
        Map::empty()
    } else {
        map_of(entries.drop_last()).insert(entries.last().0, entries.last().1)
    }
}

/// No identifier appears in two entries.
pub open spec fn keys_unique(entries: Seq<(Seq<char>, Seq<char>)>) -> bool {
    forall|i: int, j: int|
        0 <= i < j < entries.len() ==> #[trigger] entries[i].0 != #[trigger] entries[j].0
}

/// The token stored for `id`, if any.
pub open spec fn token_of(m: Map<Seq<char>, Seq<char>>, id: Seq<char>) -> Option<Seq<char>> {
    if m.contains_key(id) {
        Some(m[id])
    } else {
        None
    }
}

/// The token known for `id`: an absent one counts as empty.
pub open spec fn current_token(m: Map<Seq<char>, Seq<char>>, id: Seq<char>) -> Seq<char> {
    if m.contains_key(id) {
        m[id]
    } else {
        Seq::empty()
    }
}

/// A poller for `id` that waits for `len` characters may resolve.
pub open spec fn resolved(m: Map<Seq<char>, Seq<char>>, id: Seq<char>, len: nat) -> bool {
    current_token(m, id).len() >= len
}

/// The registry after the upserts of `ups`, in order.
pub open spec fn apply_upserts(
    m: Map<Seq<char>, Seq<char>>,
    ups: Seq<(Seq<char>, Seq<char>)>,
) -> Map<Seq<char>, Seq<char>>
    decreases ups.len(),
{
    if ups.len() == 0 {
        m
    } else {
        apply_upserts(m, ups.drop_last()).insert(ups.last().0, ups.last().1)
    }
}

proof fn lemma_map_of(entries: Seq<(Seq<char>, Seq<char>)>)
    requires
        keys_unique(entries),
    ensures
        forall|k: Seq<char>|
            map_of(entries).contains_key(k) <==> exists|i: int|
                0 <= i < entries.len() && (#[trigger] entries[i]).0 == k,
        forall|i: int|
            0 <= i < entries.len() ==> map_of(entries)[(#[trigger] entries[i]).0] == entries[i].1,
    decreases entries.len(),
{
    if entries.len() > 0 {
        let p = entries.drop_last();
        assert(keys_unique(p)) by {
            assert forall|i: int, j: int| 0 <= i < j < p.len() implies #[trigger] p[i].0 != #[trigger] p[j].0 by {
                assert(p[i] == entries[i] && p[j] == entries[j]);
            }
        }
        lemma_map_of(p);
        let n = entries.len() - 1;
        assert(entries.last() == entries[n]);
        assert(map_of(entries) == map_of(p).insert(entries[n].0, entries[n].1));
        assert forall|k: Seq<char>|
            map_of(entries).contains_key(k) <==> exists|i: int|
                0 <= i < entries.len() && (#[trigger] entries[i]).0 == k by {
            if map_of(entries).contains_key(k) && k != entries[n].0 {
                assert(map_of(p).contains_key(k));
                let i = choose|i: int| 0 <= i < p.len() && (#[trigger] p[i]).0 == k;
                assert(entries[i] == p[i]);
            }
            if exists|i: int| 0 <= i < entries.len() && (#[trigger] entries[i]).0 == k {
                let i = choose|i: int| 0 <= i < entries.len() && (#[trigger] entries[i]).0 == k;
                if i < n {
                    assert(p[i] == entries[i]);
                }
            }
        }
        assert forall|i: int| 0 <= i < entries.len() implies map_of(entries)[(#[trigger] entries[i]).0]
            == entries[i].1 by {
            if i < n {
                assert(p[i] == entries[i]);
                assert(entries[i].0 != entries[n].0);
            }
        }
    }
}

/// The registry of tokens: for each session identifier, the longest token
/// recovered so far. An upsert replaces the stored token.
pub struct TokenRegistry {
    entries: Vec<(String, String)>,
}

impl View for TokenRegistry {
    type V = Map<Seq<char>, Seq<char>>;

    closed spec fn view(&self) -> Map<Seq<char>, Seq<char>> {
        map_of(self.entries.deep_view())
    }
}

impl TokenRegistry {
    /// No identifier is stored twice.
    pub closed spec fn wf(&self) -> bool {
        keys_unique(self.entries.deep_view())
    }

    /// An empty registry.
    pub fn new() -> (r: TokenRegistry)
        ensures
            r.wf(),
            r@ == Map::<Seq<char>, Seq<char>>::empty(),
    {
        let r = TokenRegistry { entries: Vec::new() };
        assert(r.entries.deep_view().len() == 0);
        r
    }

    fn find(&self, id: &str) -> (r: Option<usize>)
        ensures
            match r {
                Some(i) => i < self.entries@.len() && self.entries.deep_view()[i as int].0 == id@,
                None => forall|i: int|
                    0 <= i < self.entries@.len() ==> (#[trigger] self.entries.deep_view()[i]).0 != id@,
            },
    {
        let mut i: usize = 0;
        while i < self.entries.len()
            invariant
                i <= self.entries@.len(),
                forall|j: int| 0 <= j < i ==> (#[trigger] self.entries.deep_view()[j]).0 != id@,
            decreases self.entries@.len() - i,
        {
            assert(self.entries.deep_view()[i as int].0 == self.entries@[i as int].0@);
            if same_text(self.entries[i].0.as_str(), id) {
                return Some(i);
            }
            i = i + 1;
        }
        None
    }

    /// The token stored for `id`, or `None` where no upsert named it.
    pub fn get_token(&self, id: &str) -> (r: Option<String>)
        requires
            self.wf(),
        ensures
            r.deep_view() == token_of(self@, id@),
    {
        proof {
            lemma_map_of(self.entries.deep_view());
        }
        match self.find(id) {
            Some(i) => {
                assert(self.entries.deep_view()[i as int].1 == self.entries@[i as int].1@);
                Some(self.entries[i].1.clone())
            },
            None => {
                assert(!self@.contains_key(id@));
                None
            },
        }
    }

    /// Stores `value` as the token of `id`, in place of any earlier one.
    pub fn insert_or_update_token(&mut self, id: &str, value: &str)
        requires
            old(self).wf(),
        ensures
            final(self).wf(),
            final(self)@ == old(self)@.insert(id@, value@),
    {
        proof {
            lemma_map_of(self.entries.deep_view());
        }
        let ghost before = self.entries.deep_view();
        let entry = (String::from_str(id), String::from_str(value));
        match self.find(id) {
            Some(i) => {
                self.entries.set(i, entry);
                let ghost after = self.entries.deep_view();
                assert(after =~= before.update(i as int, (id@, value@)));
                assert(keys_unique(after)) by {
                    assert forall|a: int, b: int| 0 <= a < b < after.len() implies #[trigger] after[a].0
                        != #[trigger] after[b].0 by {
                        if a != i && b != i {
                            assert(after[a] == before[a] && after[b] == before[b]);
                        } else if a == i {
                            assert(after[b] == before[b]);
                        } else {
                            assert(after[a] == before[a]);
                        }
                    }
                }
                proof { lemma_map_of(after); }
                assert forall|k: Seq<char>| #[trigger] map_of(after).contains_key(k)
                    == map_of(before).insert(id@, value@).contains_key(k) by {
                    if map_of(after).contains_key(k) {
                        let j = choose|j: int| 0 <= j < after.len() && (#[trigger] after[j]).0 == k;
                        if j != i {
                            assert(before[j] == after[j]);
                        }
                    }
                    if map_of(before).contains_key(k) {
                        let j = choose|j: int| 0 <= j < before.len() && (#[trigger] before[j]).0 == k;
                        if j != i {
                            assert(before[j] == after[j]);
                        } else {
                            assert(after[j].0 == k);
                        }
                    }
                    if k == id@ {
                        assert(after[i as int].0 == k);
                    }
                }
                assert forall|k: Seq<char>| #[trigger] map_of(after).contains_key(k) implies map_of(after)[k]
                    == map_of(before).insert(id@, value@)[k] by {
                    let j = choose|j: int| 0 <= j < after.len() && (#[trigger] after[j]).0 == k;
                    if j != i {
                        assert(before[j] == after[j]);
                    }
                }
                assert(map_of(after) =~= map_of(before).insert(id@, value@));
            },
            None => {
                self.entries.push(entry);
                let ghost after = self.entries.deep_view();
                assert(after =~= before.push((id@, value@)));
                assert(after.drop_last() =~= before);
                assert(keys_unique(after)) by {
                    assert forall|a: int, b: int| 0 <= a < b < after.len() implies #[trigger] after[a].0
                        != #[trigger] after[b].0 by {
                        assert(after[a] == before[a]);
                        if b < before.len() {
                            assert(after[b] == before[b]);
                        }
                    }
                }
            },
        }
    }
}

} // verus!
