//! The observers of the session's status: each has a bounded mailbox that
//! the registry fills on every transition and that its owner empties.

use crate::status::VpnStatus;
use vstd::prelude::*;

verus! {

/// What a sink holds, as plain values: the statuses not yet taken, oldest
/// first, how many it has room for, and whether it still takes any.
pub struct Mailbox {
    pub pending: Seq<VpnStatus>,
    pub capacity: nat,
    pub open: bool,
}

impl Mailbox {
    /// An open mailbox with room takes a status; any other drops it.
    pub open spec fn accepts(self) -> bool {
        self.open && self.pending.len() < self.capacity
    }

    /// The mailbox after one status was offered to it.
    pub open spec fn offer(self, status: VpnStatus) -> Mailbox {
        if self.accepts() {
            Mailbox { pending: self.pending.push(status), ..self }
        } else {
            self
        }
    }

    /// The mailbox after the statuses were offered to it, first to last.
    pub open spec fn offer_all(self, statuses: Seq<VpnStatus>) -> Mailbox
        decreases statuses.len(),
    {
        if statuses.len() == 0 {
            self
        } else {
            self.offer_all(statuses.drop_last()).offer(statuses.last())
        }
    }
}

/// The receiving end of one observer: a bounded queue that never blocks the
/// sender. A status offered to a full or closed sink is dropped.
#[derive(Debug)]
pub struct Sink {
    pub pending: Vec<VpnStatus>,
    pub capacity: usize,
    pub open: bool,
}

impl View for Sink {
    type V = Mailbox;

    open spec fn view(&self) -> Mailbox {
        Mailbox { pending: self.pending@, capacity: self.capacity as nat, open: self.open }
    }
}

impl Sink {
    /// An empty, open sink with room for `capacity` statuses.
    pub fn new(capacity: usize) -> (r: Sink)
        ensures
            r@ == (Mailbox { pending: Seq::empty(), capacity: capacity as nat, open: true }),
    {
        Sink { pending: Vec::new(), capacity, open: true }
    }

    /// Hands the sink one status and says whether it took it.
    pub fn offer(&mut self, status: VpnStatus) -> (accepted: bool)
        ensures
            final(self)@ == old(self)@.offer(status),
            accepted == old(self)@.accepts(),
    {
        if self.open && self.pending.len() < self.capacity {
            self.pending.push(status);
            true
        } else {
            false
        }
    }

    /// Takes out what is pending, oldest first, and leaves the sink empty.
    pub fn drain(&mut self) -> (r: Vec<VpnStatus>)
        ensures
            r@ == old(self)@.pending,
            final(self)@ == (Mailbox { pending: Seq::empty(), ..old(self)@ }),
    {
        let mut taken: Vec<VpnStatus> = Vec::new();
        std::mem::swap(&mut self.pending, &mut taken);
        taken
    }

    /// Closes the sink: from now on it drops what it is offered.
    pub fn close(&mut self)
        ensures
            final(self)@ == (Mailbox { open: false, ..old(self)@ }),
    {
        self.open = false;
    }
}

/// Names one subscription.
#[derive(Debug, Clone, Copy, PartialEq, Eq)]
pub struct SubscriptionHandle {
    pub id: u64,
}

/// One registered observer.
#[derive(Debug)]
pub struct Observer {
    pub handle: SubscriptionHandle,
    pub sink: Sink,
}

/// The observers of a session, each under the handle it was given.
#[derive(Debug)]
pub struct ObserverRegistry {
    pub entries: Vec<Observer>,
    pub next_id: u64,
}

/// The observers are the same, and each mailbox is what it was with the
/// status offered to it once.
pub open spec fn told(before: Map<u64, Mailbox>, after: Map<u64, Mailbox>, status: VpnStatus) -> bool {
    &&& after.dom() == before.dom()
    &&& forall|id: u64| #[trigger]
        before.contains_key(id) ==> after[id] == before[id].offer(status)
}

/// Whether `id` is one of `ids`.
pub open spec fn listed(ids: Seq<u64>, id: u64) -> bool {
    exists|i: int| 0 <= i < ids.len() && ids[i] == id
}

/// A place of `id` among `ids`.
pub open spec fn place_of(ids: Seq<u64>, id: u64) -> int {
    choose|i: int| 0 <= i < ids.len() && ids[i] == id
}

/// No identifier occurs twice.
pub open spec fn distinct(ids: Seq<u64>) -> bool {
    forall|i: int, j: int| 0 <= i < j < ids.len() ==> ids[i] != ids[j]
}

proof fn lemma_place(ids: Seq<u64>, i: int)
    requires
        distinct(ids),
        0 <= i < ids.len(),
    ensures
        listed(ids, ids[i]),
        place_of(ids, ids[i]) == i,
{
    let p = place_of(ids, ids[i]);
    if p < i {
        assert(ids[p] != ids[i]);
    } else if i < p {
        assert(ids[i] != ids[p]);
    }
}

impl ObserverRegistry {
    /// The identifiers of the observers, in the order in which they are
    /// held.
    pub open spec fn ids(self) -> Seq<u64> {
        Seq::new(self.entries@.len(), |i: int| self.entries@[i].handle.id)
    }

    /// Every identifier was issued by this registry, and none twice.
    pub open spec fn wf(self) -> bool {
        &&& distinct(self.ids())
        &&& forall|i: int| 0 <= i < self.entries@.len() ==> self.entries@[i].handle.id < self.next_id
    }
}

impl View for ObserverRegistry {
    type V = Map<u64, Mailbox>;

    /// The mailbox of each observer, by its identifier.
    open spec fn view(&self) -> Map<u64, Mailbox> {
        Map::new(
            |id: u64| listed(self.ids(), id),
            |id: u64| self.entries@[place_of(self.ids(), id)].sink@,
        )
    }
}

impl ObserverRegistry {
    /// A registry without observers.
    pub fn new() -> (r: ObserverRegistry)
        ensures
            r.wf(),
            r@ == Map::<u64, Mailbox>::empty(),
            r.next_id == 0,
    {
        let r = ObserverRegistry { entries: Vec::new(), next_id: 0 };
        assert(r@ =~= Map::<u64, Mailbox>::empty());
        r
    }

    /// Whether a further observer can be given an identifier.
    pub fn has_room(&self) -> (r: bool)
        ensures
            r == (self.next_id < u64::MAX),
    {
        self.next_id < u64::MAX
    }

    /// Registers a sink under a handle that no observer has had before.
    pub fn add(&mut self, sink: Sink) -> (handle: SubscriptionHandle)
        requires
            old(self).wf(),
            old(self).next_id < u64::MAX,
        ensures
            final(self).wf(),
            handle.id == old(self).next_id,
            final(self).next_id == old(self).next_id + 1,
            !old(self)@.contains_key(handle.id),
            final(self)@ == old(self)@.insert(handle.id, sink@),
    {
        let handle = SubscriptionHandle { id: self.next_id };
        let ghost before = *self;
        self.entries.push(Observer { handle, sink });
        self.next_id = self.next_id + 1;
        proof {
            let n = before.entries@.len() as int;
            assert(self.ids() =~= before.ids().push(handle.id));
            assert(self.wf());
            assert forall|id: u64| #[trigger] self@.contains_key(id) == before@.insert(
                handle.id,
                sink@,
            ).contains_key(id) by {
                if listed(before.ids(), id) {
                    let i = place_of(before.ids(), id);
                    assert(self.ids()[i] == id);
                }
                if id == handle.id {
                    assert(self.ids()[n] == id);
                }
            }
            assert forall|id: u64| #[trigger] self@.contains_key(id) implies self@[id]
                == before@.insert(handle.id, sink@)[id] by {
                if id == handle.id {
                    lemma_place(self.ids(), n);
                } else {
                    let i = place_of(before.ids(), id);
                    lemma_place(before.ids(), i);
                    lemma_place(self.ids(), i);
                }
            }
            assert(self@ =~= before@.insert(handle.id, sink@));
        }
        handle
    }

    /// The place of the observer with this handle, if there is one.
    fn find(&self, handle: SubscriptionHandle) -> (r: Option<usize>)
        requires
            self.wf(),
        ensures
            match r {
                Some(i) => i < self.entries@.len() && self.ids()[i as int] == handle.id
                    && place_of(self.ids(), handle.id) == i && listed(self.ids(), handle.id),
                None => !listed(self.ids(), handle.id),
            },
    {
        let mut i: usize = 0;
        while i < self.entries.len()
            invariant
                self.wf(),
                i <= self.entries@.len(),
                forall|j: int| 0 <= j < i ==> self.ids()[j] != handle.id,
            decreases self.entries@.len() - i,
        {
            if self.entries[i].handle.id == handle.id {
                proof {
                    lemma_place(self.ids(), i as int);
                }
                return Some(i);
            }
            i += 1;
        }
        None
    }

    /// Takes the observer with this handle out of the registry and hands
    /// back its sink; nothing changes where no observer has the handle.
    pub fn remove(&mut self, handle: SubscriptionHandle) -> (r: Option<Sink>)
        requires
            old(self).wf(),
        ensures
            final(self).wf(),
            final(self).next_id == old(self).next_id,
            final(self)@ == old(self)@.remove(handle.id),
            match r {
                Some(sink) => old(self)@.contains_key(handle.id) && sink@ == old(self)@[handle.id],
                None => !old(self)@.contains_key(handle.id),
            },
    {
        let ghost before = *self;
        match self.find(handle) {
            None => {
                assert(self@ =~= before@.remove(handle.id));
                None
            },
            Some(k) => {
                let gone = self.entries.remove(k);
                proof {
                    assert(self.ids() =~= before.ids().remove(k as int));
                    assert forall|i: int, j: int| 0 <= i < j < self.ids().len() implies self.ids()[i]
                        != self.ids()[j] by {
                        let a = if i < k { i } else { i + 1 };
                        let b = if j < k { j } else { j + 1 };
                        assert(before.ids()[a] != before.ids()[b]);
                    }
                    assert forall|i: int| 0 <= i < self.entries@.len() implies self.entries@[i].handle.id
                        < self.next_id by {
                        let a = if i < k { i } else { i + 1 };
                        assert(self.entries@[i] == before.entries@[a]);
                    }
                    assert forall|id: u64| #[trigger] self@.contains_key(id) == before@.remove(
                        handle.id,
                    ).contains_key(id) by {
                        if listed(self.ids(), id) {
                            let i = place_of(self.ids(), id);
                            let a = if i < k { i } else { i + 1 };
                            lemma_place(before.ids(), a);
                            assert(before.ids()[a] == id);
                        }
                        if listed(before.ids(), id) && id != handle.id {
                            let a = place_of(before.ids(), id);
                            let i = if a < k { a } else { a - 1 };
                            assert(self.ids()[i] == id);
                        }
                    }
                    assert forall|id: u64| #[trigger] self@.contains_key(id) implies self@[id]
                        == before@.remove(handle.id)[id] by {
                        let i = place_of(self.ids(), id);
                        let a = if i < k { i } else { i + 1 };
                        lemma_place(before.ids(), a);
                        assert(self.entries@[i] == before.entries@[a]);
                    }
                    assert(self@ =~= before@.remove(handle.id));
                }
                Some(gone.sink)
            },
        }
    }

    /// Offers the status to every observer. An observer whose sink is open
    /// and has room gets it behind what it already holds; a full or closed
    /// sink drops it, and the others are served all the same.
    pub fn notify_all(&mut self, status: &VpnStatus)
        requires
            old(self).wf(),
        ensures
            final(self).wf(),
            final(self).next_id == old(self).next_id,
            told(old(self)@, final(self)@, *status),
    {
        let ghost before = *self;
        let n: usize = self.entries.len();
        let mut k: usize = 0;
        while k < n
            invariant
                k <= n,
                n == self.entries@.len(),
                n == before.entries@.len(),
                self.next_id == before.next_id,
                self.ids() =~= before.ids(),
                forall|i: int| 0 <= i < k ==> self.entries@[i].sink@ == before.entries@[i].sink@.offer(*status),
                forall|i: int| k <= i < n ==> self.entries@[i] == before.entries@[i],
            decreases n - k,
        {
            let ghost was = self.entries@;
            let mut observer = self.entries.remove(k);
            observer.sink.offer(status.duplicate());
            self.entries.insert(k, observer);
            proof {
                assert(self.entries@ =~= was.update(k as int, observer));
                assert forall|i: int| 0 <= i < n implies self.ids()[i] == before.ids()[i] by {
                    assert(was[i].handle.id == before.ids()[i]);
                }
            }
            k += 1;
        }
        proof {
            assert forall|i: int| 0 <= i < n implies self.entries@[i].handle.id < self.next_id by {
                assert(self.ids()[i] == before.ids()[i]);
            }
            assert(self@.dom() =~= before@.dom());
        }
    }

    /// Takes out what is pending for the observer with this handle, oldest
    /// first; nothing where no observer has the handle.
    pub fn take_pending(&mut self, handle: SubscriptionHandle) -> (r: Vec<VpnStatus>)
        requires
            old(self).wf(),
        ensures
            final(self).wf(),
            final(self).next_id == old(self).next_id,
            old(self)@.contains_key(handle.id) ==> r@ == old(self)@[handle.id].pending,
            old(self)@.contains_key(handle.id) ==> final(self)@ == old(self)@.insert(
                handle.id,
                (Mailbox { pending: Seq::empty(), ..old(self)@[handle.id] }),
            ),
            !old(self)@.contains_key(handle.id) ==> r@ == Seq::<VpnStatus>::empty() && final(self)@
                == old(self)@,
    {
        let ghost before = *self;
        match self.find(handle) {
            None => Vec::new(),
            Some(k) => {
                let mut observer = self.entries.remove(k);
                let taken = observer.sink.drain();
                self.entries.insert(k, observer);
                proof {
                    assert(self.entries@ =~= before.entries@.update(k as int, observer));
                    assert(self.ids() =~= before.ids());
                    assert(self@ =~= before@.insert(
                        handle.id,
                        (Mailbox { pending: Seq::empty(), ..before@[handle.id] }),
                    ));
                }
                taken
            },
        }
    }
}

/// An observer whose sink is open and has room for all of them receives
/// every status offered to it exactly once, in the order of the offers,
/// behind what it held before.
pub proof fn lemma_delivery_in_order(m: Mailbox, statuses: Seq<VpnStatus>)
    requires
        m.open,
        m.pending.len() + statuses.len() <= m.capacity,
    ensures
        m.offer_all(statuses).pending == m.pending + statuses,
        m.offer_all(statuses).open,
        m.offer_all(statuses).capacity == m.capacity,
    decreases statuses.len(),
{
    if statuses.len() == 0 {
        assert(m.pending + statuses =~= m.pending);
    } else {
        lemma_delivery_in_order(m, statuses.drop_last());
        assert((m.pending + statuses.drop_last()).push(statuses.last()) =~= m.pending + statuses);
    }
}

/// Whatever the sink's state, what it holds after a run of offers starts
/// with what it held before, and grows by no more than was offered:
/// nothing is taken back or reordered, and no status is delivered twice.
/// A mailbox within its capacity stays within it.
pub proof fn lemma_offers_only_append(m: Mailbox, statuses: Seq<VpnStatus>)
    ensures
        m.pending.is_prefix_of(m.offer_all(statuses).pending),
        m.offer_all(statuses).pending.len() <= m.pending.len() + statuses.len(),
        m.pending.len() <= m.capacity ==> m.offer_all(statuses).pending.len() <= m.capacity,
        m.offer_all(statuses).capacity == m.capacity,
        m.offer_all(statuses).open == m.open,
    decreases statuses.len(),
{
    if statuses.len() > 0 {
        lemma_offers_only_append(m, statuses.drop_last());
    }
}

/// An observer that stays registered while the registry tells of one
/// status after the other is offered each of them once, in that order:
/// its mailbox at the end is the one it had at the start with the statuses
/// offered first to last.
pub proof fn lemma_every_transition_reaches_observer(
    history: Seq<Map<u64, Mailbox>>,
    statuses: Seq<VpnStatus>,
    id: u64,
)
    requires
        history.len() == statuses.len() + 1,
        forall|i: int|
            0 <= i < statuses.len() ==> told(history[i], history[i + 1], #[trigger] statuses[i]),
        history[0].contains_key(id),
    ensures
        history.last().contains_key(id),
        history.last()[id] == history[0][id].offer_all(statuses),
    decreases statuses.len(),
{
    if statuses.len() > 0 {
        let n = statuses.len() - 1;
        let earlier = history.drop_last();
        let fewer = statuses.drop_last();
        assert forall|i: int| 0 <= i < fewer.len() implies told(
            earlier[i],
            earlier[i + 1],
            #[trigger] fewer[i],
        ) by {
            assert(told(history[i], history[i + 1], statuses[i]));
        }
        lemma_every_transition_reaches_observer(earlier, fewer, id);
        assert(earlier.last() == history[n]);
        assert(told(history[n], history[n + 1], statuses[n]));
        assert(history[n].contains_key(id));
        assert(history[n + 1].dom().contains(id));
    }
}

} // verus!
