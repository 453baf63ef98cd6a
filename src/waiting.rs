//! The queue of parked pollers and the engine that decides, under one
//! critical section, whether a poller resolves or parks.
use vstd::prelude::*;
use vstd::string::*;
use crate::registry::{apply_upserts, current_token, resolved, token_of, TokenRegistry};

verus! {

/// The handles of parked pollers, in the order they parked. The queue is
/// not keyed by identifier: every write wakes every parked poller.
pub struct WaitQueue<T> {
    waiting: Vec<T>,
}

impl<T> View for WaitQueue<T> {
    type V = Seq<T>;

    closed spec fn view(&self) -> Seq<T> {
        self.waiting@
    }
}

impl<T> WaitQueue<T> {
    /// An empty queue.
    pub fn new() -> (r: WaitQueue<T>)
        ensures
            r@ == Seq::<T>::empty(),
    {
        WaitQueue { waiting: Vec::new() }
    }

    /// Parks a poller's handle at the end of the queue.
    pub fn park_current(&mut self, waiter: T)
        ensures
            final(self)@ == old(self)@.push(waiter),
    {
        self.waiting.push(waiter);
    }

    /// Takes every parked handle out of the queue, in order, for the caller
    /// to notify. With nothing parked it returns nothing and changes nothing.
    pub fn wake_all(&mut self) -> (r: Vec<T>)
        ensures
            r@ == old(self)@,
            final(self)@ == Seq::<T>::empty(),
            old(self)@.len() == 0 ==> r@.len() == 0 && final(self)@ == old(self)@,
    {
        let mut out: Vec<T> = Vec::new();
        core::mem::swap(&mut self.waiting, &mut out);
        out
    }

    /// The number of parked handles.
    pub fn len(&self) -> (r: usize)
        ensures
            r == self@.len(),
    {
        self.waiting.len()
    }
}

/// The token registry and the wait queue, held together so that a check and
/// a park, or an upsert and a wake, happen as one step: a poller that parks
/// is always woken by the next upsert.
pub struct Engine<T> {
    registry: TokenRegistry,
    queue: WaitQueue<T>,
}

impl<T> Engine<T> {
    /// The tokens stored so far.
    pub closed spec fn tokens(&self) -> Map<Seq<char>, Seq<char>> {
        self.registry@
    }

    /// The handles parked so far, in order.
    pub closed spec fn parked(&self) -> Seq<T> {
        self.queue@
    }

    /// The registry's own invariant holds.
    pub closed spec fn wf(&self) -> bool {
        self.registry.wf()
    }

    /// An engine with no token and no parked poller.
    pub fn new() -> (r: Engine<T>)
        ensures
            r.wf(),
            r.tokens() == Map::<Seq<char>, Seq<char>>::empty(),
            r.parked() == Seq::<T>::empty(),
    {
        Engine { registry: TokenRegistry::new(), queue: WaitQueue::new() }
    }

    /// The token stored for `id`, if any.
    pub fn get_token(&self, id: &str) -> (r: Option<String>)
        requires
            self.wf(),
        ensures
            r.deep_view() == token_of(self.tokens(), id@),
    {
        self.registry.get_token(id)
    }

    /// The number of parked pollers.
    pub fn parked_len(&self) -> (r: usize)
        ensures
            r == self.parked().len(),
    {
        self.queue.len()
    }

    /// One check of a poller waiting for `len` characters of the token of
    /// `id`. Where the current token (empty when absent) is long enough, the
    /// poller resolves with it and its handle is dropped; otherwise the
    /// handle is parked, to be handed back by the next `record`.
    pub fn check_or_park(&mut self, id: &str, len: u32, waiter: T) -> (r: Option<String>)
        requires
            old(self).wf(),
        ensures
            final(self).wf(),
            final(self).tokens() == old(self).tokens(),
            resolved(old(self).tokens(), id@, len as nat) ==> r.deep_view() == Some(
                current_token(old(self).tokens(), id@),
            ) && final(self).parked() == old(self).parked(),
            !resolved(old(self).tokens(), id@, len as nat) ==> r is None && final(self).parked()
                == old(self).parked().push(waiter),
    {
        let current = match self.registry.get_token(id) {
            Some(token) => token,
            None => String::new(),
        };
        assert(current@ == current_token(self.registry@, id@));
        if current.as_str().unicode_len() >= len as usize {
            Some(current)
        } else {
            self.queue.park_current(waiter);
            None
        }
    }

    /// A callback: stores `token` for `id`, then takes every parked handle
    /// out of the queue, in order, so that each poller checks again.
    pub fn record(&mut self, id: &str, token: &str) -> (r: Vec<T>)
        requires
            old(self).wf(),
        ensures
            final(self).wf(),
            final(self).tokens() == old(self).tokens().insert(id@, token@),
            r@ == old(self).parked(),
            final(self).parked() == Seq::<T>::empty(),
    {
        self.registry.insert_or_update_token(id, token);
        self.queue.wake_all()
    }
}

/// Before any upsert, no identifier has a token, and a consumer reads the
/// empty string.
pub proof fn lemma_fresh_registry_absent(id: Seq<char>)
    ensures
        token_of(Map::empty(), id) is None,
        current_token(Map::empty(), id) == Seq::<char>::empty(),
{
}

/// An upsert replaces the token: after `v1` and then `v2` for one identifier,
/// the token is `v2`.
pub proof fn lemma_last_write_wins(
    m: Map<Seq<char>, Seq<char>>,
    id: Seq<char>,
    v1: Seq<char>,
    v2: Seq<char>,
)
    ensures
        token_of(m.insert(id, v1).insert(id, v2), id) == Some(v2),
{
}

proof fn lemma_resolution_has_source(
    m: Map<Seq<char>, Seq<char>>,
    ups: Seq<(Seq<char>, Seq<char>)>,
    id: Seq<char>,
    len: nat,
)
    requires
        !resolved(m, id, len),
        resolved(apply_upserts(m, ups), id, len),
    ensures
        exists|j: int| 0 <= j < ups.len() && (#[trigger] ups[j]).0 == id && ups[j].1.len() >= len,
    decreases ups.len(),
{
    let n = ups.len() - 1;
    assert(ups.last() == ups[n]);
    if ups[n].0 != id {
        let p = ups.drop_last();
        assert(current_token(apply_upserts(m, ups), id) == current_token(apply_upserts(m, p), id));
        lemma_resolution_has_source(m, p, id, len);
        let j = choose|j: int| 0 <= j < p.len() && (#[trigger] p[j]).0 == id && p[j].1.len() >= len;
        assert(ups[j] == p[j]);
    } else {
        assert(ups[n].1.len() >= len);
    }
}

/// A poller for `id` that waits for `len` characters and is not resolved at
/// first is woken after every upsert and checks again. It resolves at one of
/// those checks if and only if some upsert sets a token of at least `len`
/// characters for `id`.
pub proof fn lemma_poll_resolves_iff_long_enough_upsert(
    m: Map<Seq<char>, Seq<char>>,
    ups: Seq<(Seq<char>, Seq<char>)>,
    id: Seq<char>,
    len: nat,
)
    requires
        !resolved(m, id, len),
    ensures
        (exists|k: int|
            0 <= k < ups.len() && resolved(apply_upserts(m, #[trigger] ups.take(k + 1)), id, len))
            <==> (exists|k: int| 0 <= k < ups.len() && (#[trigger] ups[k]).0 == id && ups[k].1.len() >= len),
{
    if exists|k: int|
        0 <= k < ups.len() && resolved(apply_upserts(m, #[trigger] ups.take(k + 1)), id, len) {
        let k = choose|k: int|
            0 <= k < ups.len() && resolved(apply_upserts(m, #[trigger] ups.take(k + 1)), id, len);
        let t = ups.take(k + 1);
        lemma_resolution_has_source(m, t, id, len);
        let j = choose|j: int| 0 <= j < t.len() && (#[trigger] t[j]).0 == id && t[j].1.len() >= len;
        assert(ups[j] == t[j]);
    }
    if exists|k: int| 0 <= k < ups.len() && (#[trigger] ups[k]).0 == id && ups[k].1.len() >= len {
        let k = choose|k: int| 0 <= k < ups.len() && (#[trigger] ups[k]).0 == id && ups[k].1.len() >= len;
        let t = ups.take(k + 1);
        assert(t.drop_last() =~= ups.take(k));
        assert(t.last() == ups[k]);
        assert(apply_upserts(m, t) == apply_upserts(m, ups.take(k)).insert(id, ups[k].1));
        assert(resolved(apply_upserts(m, t), id, len));
    }
}

/// Parked pollers, each not resolved, are all woken by one upsert of `v` for
/// `id`: those that resolve on their next check are exactly the pollers of
/// `id` that wait for at most `v.len()` characters; the rest park again.
pub proof fn lemma_wake_resolves_exactly(
    m: Map<Seq<char>, Seq<char>>,
    pollers: Seq<(Seq<char>, nat)>,
    id: Seq<char>,
    v: Seq<char>,
)
    requires
        forall|i: int| 0 <= i < pollers.len() ==> !resolved(m, (#[trigger] pollers[i]).0, pollers[i].1),
    ensures
        forall|i: int|
            0 <= i < pollers.len() ==> (resolved(m.insert(id, v), (#[trigger] pollers[i]).0, pollers[i].1)
                <==> (pollers[i].0 == id && v.len() >= pollers[i].1)),
{
}

} // verus!
