use vstd::prelude::*;
use crate::feed::FeedItem;

verus! {

/// The abstract state of the bus: each attached subscriber's handle paired
/// with its pending deliveries (oldest first), in attach order.
pub type BusView = Seq<(u64, Seq<FeedItem>)>;

/// One delivery into a bounded queue: the event goes to the back; if the
/// queue is full the oldest pending event is dropped to make room.
pub open spec fn bounded_push(q: Seq<FeedItem>, e: FeedItem, cap: int) -> Seq<FeedItem> {
    if q.len() < cap {
        q.push(e)
    } else {
        q.drop_first().push(e)
    }
}

/// Publishing delivers the event to every attached subscriber's queue.
pub open spec fn publish_spec(v: BusView, e: FeedItem, cap: int) -> BusView {
    v.map_values(|p: (u64, Seq<FeedItem>)| (p.0, bounded_push(p.1, e, cap)))
}

/// Publishing a whole sequence of events, in order.
pub open spec fn publish_all_spec(v: BusView, evs: Seq<FeedItem>, cap: int) -> BusView
    decreases evs.len(),
{
    if evs.len() == 0 {
        v
    } else {
        publish_all_spec(publish_spec(v, evs.first(), cap), evs.drop_first(), cap)
    }
}

/// Whether some attached subscriber carries this handle.
pub open spec fn has_sub(v: BusView, h: u64) -> bool {
    exists|i: int| 0 <= i < v.len() && (#[trigger] v[i]).0 == h
}

/// No two attached subscribers share a handle.
pub open spec fn unique_handles(v: BusView) -> bool {
    forall|i: int, j: int|
        0 <= i < j < v.len() ==> (#[trigger] v[i]).0 != (#[trigger] v[j]).0
}

struct Subscription {
    id: u64,
    queue: Vec<FeedItem>,
}

spec fn sub_pair(s: Subscription) -> (u64, Seq<FeedItem>) {
    (s.id, s.queue@)
}

/// In-process broadcast primitive: a registry of attached subscriber queues,
/// each bounded by `capacity`, with a drop-oldest overflow policy so that a
/// slow subscriber never stalls a publisher.
pub struct EventBus {
    subs: Vec<Subscription>,
    capacity: usize,
    next_handle: u64,
}

impl View for EventBus {
    type V = BusView;

    closed spec fn view(&self) -> BusView {
        self.subs@.map_values(|s: Subscription| sub_pair(s))
    }
}

impl EventBus {
    /// The bound on every subscriber's pending queue.
    pub closed spec fn spec_capacity(&self) -> int {
        self.capacity as int
    }

    /// The handle the next attach will hand out.
    pub closed spec fn spec_next_handle(&self) -> u64 {
        self.next_handle
    }

    /// Internal consistency: positive capacity, queues within bound, handles
    /// unique and below the next one to be handed out.
    pub closed spec fn wf(&self) -> bool {
        &&& 1 <= self.capacity
        &&& (forall|i: int|
            0 <= i < self.subs@.len() ==> (#[trigger] self.subs@[i]).queue@.len()
                <= self.capacity)
        &&& (forall|i: int|
            0 <= i < self.subs@.len() ==> (#[trigger] self.subs@[i]).id < self.next_handle)
        &&& (forall|i: int, j: int|
            0 <= i < j < self.subs@.len() ==> (#[trigger] self.subs@[i]).id != (
            #[trigger] self.subs@[j]).id)
    }

    /// A well-formed bus never carries two subscribers under one handle.
    pub proof fn lemma_wf_unique(&self)
        requires
            self.wf(),
        ensures
            unique_handles(self@),
    {
    }

    /// Queues of a well-formed bus never exceed its positive capacity.
    pub proof fn lemma_wf_bounded(&self)
        requires
            self.wf(),
        ensures
            1 <= self.spec_capacity(),
            forall|i: int|
                0 <= i < self@.len() ==> (#[trigger] self@[i]).1.len() <= self.spec_capacity(),
    {
    }

    /// A fresh bus with no subscribers attached.
    pub fn new(capacity: usize) -> (r: Self)
        requires
            1 <= capacity,
        ensures
            r.wf(),
            r@ == Seq::<(u64, Seq<FeedItem>)>::empty(),
            r.spec_capacity() == capacity,
            r.spec_next_handle() == 0,
    {
        let r = EventBus { subs: Vec::new(), capacity, next_handle: 0 };
        proof {
            assert(r@ =~= Seq::<(u64, Seq<FeedItem>)>::empty());
        }
        r
    }


    /// Whether another handle can still be handed out.
    pub fn can_attach(&self) -> (r: bool)
        ensures
            r == (self.spec_next_handle() < u64::MAX),
    {
        self.next_handle < u64::MAX
    }

    /// Registers a new empty output queue and returns its handle, which was
    /// not in use before.
    pub fn attach(&mut self) -> (h: u64)
        requires
            old(self).wf(),
            old(self).spec_next_handle() < u64::MAX,
        ensures
            final(self).wf(),
            h == old(self).spec_next_handle(),
            !has_sub(old(self)@, h),
            final(self)@ == old(self)@.push((h, Seq::<FeedItem>::empty())),
            final(self).spec_capacity() == old(self).spec_capacity(),
            final(self).spec_next_handle() == h + 1,
    {
        let ghost orig = *self;
        let h = self.next_handle;
        self.next_handle = self.next_handle + 1;
        self.subs.push(Subscription { id: h, queue: Vec::new() });
        proof {
            assert(self@ =~= orig@.push((h, Seq::<FeedItem>::empty())));
        }
        h
    }

    /// Delivers the event to every attached subscriber, dropping the oldest
    /// pending event of any subscriber whose queue is full. Never fails and
    /// never waits on a subscriber.
    pub fn publish(&mut self, e: &FeedItem)
        requires
            old(self).wf(),
        ensures
            final(self).wf(),
            final(self)@ == publish_spec(old(self)@, *e, old(self).spec_capacity()),
            final(self).spec_capacity() == old(self).spec_capacity(),
            final(self).spec_next_handle() == old(self).spec_next_handle(),
    {
        let ghost orig = *self;
        let mut i: usize = 0;
        while i < self.subs.len()
            invariant
                i <= self.subs@.len(),
                self.subs@.len() == orig.subs@.len(),
                self.capacity == orig.capacity,
                self.next_handle == orig.next_handle,
                orig.wf(),
                forall|k: int|
                    0 <= k < i ==> (#[trigger] self.subs@[k]).id == orig.subs@[k].id,
                forall|k: int|
                    0 <= k < i ==> (#[trigger] self.subs@[k]).queue@ == bounded_push(
                        orig.subs@[k].queue@,
                        *e,
                        orig.capacity as int,
                    ),
                forall|k: int| i <= k < self.subs@.len() ==> self.subs@[k] == orig.subs@[k],
            decreases self.subs@.len() - i,
        {
            let cap = self.capacity;
            let sq = &mut self.subs[i];
            if sq.queue.len() >= cap {
                sq.queue.remove(0);
                proof {
                    assert(sq.queue@ =~= orig.subs@[i as int].queue@.drop_first());
                }
            }
            sq.queue.push(e.clone());
            i = i + 1;
        }
        proof {
            assert(self@ =~= publish_spec(orig@, *e, orig.capacity as int));
        }
    }

    /// Removes the subscriber carrying this handle, if any: future publishes
    /// stop reaching it. Detaching a handle that is not attached (for
    /// example, a second time) changes nothing.
    #[verifier::loop_isolation(false)]
    pub fn detach(&mut self, h: u64)
        requires
            old(self).wf(),
        ensures
            final(self).wf(),
            !has_sub(final(self)@, h),
            !has_sub(old(self)@, h) ==> final(self)@ == old(self)@,
            has_sub(old(self)@, h) ==> exists|i: int|
                0 <= i < old(self)@.len() && (#[trigger] old(self)@[i]).0 == h && final(self)@
                    == old(self)@.remove(i),
            final(self).spec_capacity() == old(self).spec_capacity(),
            final(self).spec_next_handle() == old(self).spec_next_handle(),
    {
        let ghost orig = *self;
        let mut i: usize = 0;
        while i < self.subs.len()
            invariant
                i <= self.subs@.len(),
                *self == orig,
                forall|k: int| 0 <= k < i ==> (#[trigger] self.subs@[k]).id != h,
            decreases self.subs@.len() - i,
        {
            if self.subs[i].id == h {
                self.subs.remove(i);
                proof {
                    let ii = i as int;
                    assert forall|k: int|
                        0 <= k < self.subs@.len() implies #[trigger] self.subs@[k] == (if k < ii {
                        orig.subs@[k]
                    } else {
                        orig.subs@[k + 1]
                    }) by {
                        if k < ii {
                            assert(orig.subs@.remove(ii)[k] == orig.subs@.subrange(0, ii)[k]);
                        } else {
                            assert(orig.subs@.remove(ii)[k] == orig.subs@.subrange(
                                ii + 1,
                                orig.subs@.len() as int,
                            )[k - ii]);
                        }
                    }
                    assert(orig@[ii].0 == h);
                    assert(self@ =~= orig@.remove(ii));
                    assert forall|k: int| 0 <= k < self@.len() implies (#[trigger] self@[k]).0
                        != h by {
                        assert(self@[k].0 == self.subs@[k].id);
                    }
                }
                return ;
            }
            i = i + 1;
        }
        proof {
            assert forall|k: int| 0 <= k < self@.len() implies (#[trigger] self@[k]).0 != h by {
                assert(self@[k].0 == self.subs@[k].id);
            }
        }
    }

    /// Takes the oldest pending event for this handle, if one is queued.
    /// Yields nothing when the handle is unknown or its queue is empty.
    #[verifier::loop_isolation(false)]
    pub fn recv(&mut self, h: u64) -> (r: Option<FeedItem>)
        requires
            old(self).wf(),
        ensures
            final(self).wf(),
            final(self).spec_capacity() == old(self).spec_capacity(),
            final(self).spec_next_handle() == old(self).spec_next_handle(),
            match r {
                None => *final(self) == *old(self) && (forall|i: int|
                    0 <= i < old(self)@.len() && (#[trigger] old(self)@[i]).0 == h ==> old(
                        self,
                    )@[i].1.len() == 0),
                Some(e) => exists|i: int|
                    0 <= i < old(self)@.len() && (#[trigger] old(self)@[i]).0 == h && old(
                        self,
                    )@[i].1.len() > 0 && e == old(self)@[i].1.first() && final(self)@ == old(
                        self,
                    )@.update(i, (h, old(self)@[i].1.drop_first())),
            },
    {
        let ghost orig = *self;
        let mut i: usize = 0;
        while i < self.subs.len()
            invariant
                i <= self.subs@.len(),
                *self == orig,
                forall|k: int| 0 <= k < i ==> (#[trigger] self.subs@[k]).id != h,
            decreases self.subs@.len() - i,
        {
            if self.subs[i].id == h {
                if self.subs[i].queue.len() == 0 {
                    proof {
                        assert forall|k: int|
                            0 <= k < orig@.len() && (#[trigger] orig@[k]).0 == h implies orig@[k].1.len()
                            == 0 by {
                            assert(orig@[k].0 == orig.subs@[k].id);
                            assert(orig@[i as int].0 == orig.subs@[i as int].id);
                        }
                    }
                    return None;
                }
                let sq = &mut self.subs[i];
                let e = sq.queue.remove(0);
                proof {
                    let ii = i as int;
                    assert(sq.queue@ =~= orig.subs@[ii].queue@.drop_first());
                    assert(self@ =~= orig@.update(ii, (h, orig@[ii].1.drop_first())));
                }
                return Some(e);
            }
            i = i + 1;
        }
        proof {
            assert forall|k: int|
                0 <= k < orig@.len() && (#[trigger] orig@[k]).0 == h implies orig@[k].1.len()
                == 0 by {
                assert(orig@[k].0 == orig.subs@[k].id);
            }
        }
        None
    }
}


/// Law: events published while a subscriber keeps up all reach it, in
/// publish order. If the subscriber's queue has room for the whole sequence,
/// after publishing it the queue holds its old contents followed by every
/// published event, none dropped and none reordered.
pub proof fn lemma_keeping_up_receives_all(v: BusView, evs: Seq<FeedItem>, cap: int, i: int)
    requires
        0 <= i < v.len(),
        v[i].1.len() + evs.len() <= cap,
    ensures
        publish_all_spec(v, evs, cap).len() == v.len(),
        publish_all_spec(v, evs, cap)[i].0 == v[i].0,
        publish_all_spec(v, evs, cap)[i].1 == v[i].1 + evs,
    decreases evs.len(),
{
    if evs.len() == 0 {
        assert(v[i].1 + evs =~= v[i].1);
    } else {
        let e0 = evs.first();
        let rest = evs.drop_first();
        let v1 = publish_spec(v, e0, cap);
        assert(v1[i] == (v[i].0, v[i].1.push(e0)));
        lemma_keeping_up_receives_all(v1, rest, cap, i);
        assert(v[i].1.push(e0) + rest =~= v[i].1 + evs);
    }
}

/// Law: publishing to a bus from which a handle is absent (for example,
/// detached) delivers nothing to that handle: it stays absent, so no queue
/// under it ever changes, and the publish itself is unaffected.
pub proof fn lemma_detached_not_delivered(v: BusView, h: u64, e: FeedItem, cap: int)
    requires
        !has_sub(v, h),
    ensures
        !has_sub(publish_spec(v, e, cap), h),
{
    let v1 = publish_spec(v, e, cap);
    assert forall|i: int| 0 <= i < v1.len() implies (#[trigger] v1[i]).0 != h by {
        assert(v1[i].0 == v[i].0);
    }
}

/// Law: the previous one extended to any sequence of publishes.
pub proof fn lemma_detached_not_delivered_all(v: BusView, h: u64, evs: Seq<FeedItem>, cap: int)
    requires
        !has_sub(v, h),
    ensures
        !has_sub(publish_all_spec(v, evs, cap), h),
    decreases evs.len(),
{
    if evs.len() > 0 {
        lemma_detached_not_delivered(v, h, evs.first(), cap);
        lemma_detached_not_delivered_all(
            publish_spec(v, evs.first(), cap),
            h,
            evs.drop_first(),
            cap,
        );
    }
}

/// Law: a slow subscriber never holds more than the capacity, and what it
/// holds is exactly the newest suffix of the stream it was sent: overflow
/// drops the oldest pending events first and never reorders the rest.
pub proof fn lemma_slow_subscriber_holds_suffix(v: BusView, evs: Seq<FeedItem>, cap: int, i: int)
    requires
        0 <= i < v.len(),
        1 <= cap,
        v[i].1.len() <= cap,
    ensures
        publish_all_spec(v, evs, cap).len() == v.len(),
        publish_all_spec(v, evs, cap)[i].0 == v[i].0,
        publish_all_spec(v, evs, cap)[i].1.len() == vstd::math::min(
            (v[i].1.len() + evs.len()) as int,
            cap,
        ),
        publish_all_spec(v, evs, cap)[i].1 == (v[i].1 + evs).skip(
            v[i].1.len() + evs.len() - vstd::math::min((v[i].1.len() + evs.len()) as int, cap),
        ),
    decreases evs.len(),
{
    let q = v[i].1;
    let total = q.len() + evs.len();
    let kept = vstd::math::min(total as int, cap);
    if evs.len() == 0 {
        assert((q + evs).skip(total - kept) =~= q);
    } else {
        let e0 = evs.first();
        let rest = evs.drop_first();
        let v1 = publish_spec(v, e0, cap);
        let q1 = bounded_push(q, e0, cap);
        assert(v1[i] == (v[i].0, q1));
        lemma_slow_subscriber_holds_suffix(v1, rest, cap, i);
        let total1 = q1.len() + rest.len();
        let kept1 = vstd::math::min(total1 as int, cap);
        if q.len() < cap {
            assert(q1 + rest =~= q + evs);
        } else {
            assert(q1 + rest =~= (q + evs).drop_first());
            assert((q1 + rest).skip(total1 - kept1) =~= (q + evs).skip(total - kept));
        }
    }
}


/// Why a bus operation was refused by the cell that owns the bus.
#[derive(Clone, Copy, PartialEq, Eq, Structural, Debug)]
pub enum BusError {
    NotInitialized,
    AlreadyInitialized,
}

/// Owns the process-wide bus over its whole lifecycle. It starts empty and
/// is initialized exactly once: a second initialization fails visibly and
/// leaves the running bus untouched, and every operation before
/// initialization reports that instead of delivering anywhere.
pub struct BusCell {
    bus: Option<EventBus>,
}

impl BusCell {
    /// Whether the bus has been created.
    pub closed spec fn is_initialized(&self) -> bool {
        self.bus is Some
    }

    /// The bus itself, once initialized.
    pub closed spec fn spec_bus(&self) -> EventBus {
        self.bus->0
    }

    pub open spec fn wf(&self) -> bool {
        self.is_initialized() ==> self.spec_bus().wf()
    }

    pub fn new() -> (r: Self)
        ensures
            !r.is_initialized(),
            r.wf(),
    {
        BusCell { bus: None }
    }

    /// Creates the bus. Succeeds only the first time; afterwards it fails
    /// visibly and the running bus is untouched, so a lifecycle bug upstream
    /// is detected rather than orphaning attached subscribers.
    pub fn init(&mut self, capacity: usize) -> (r: Result<(), BusError>)
        requires
            1 <= capacity,
            old(self).wf(),
        ensures
            final(self).wf(),
            !old(self).is_initialized() ==> r is Ok && final(self).is_initialized() && final(self).spec_bus()@ == Seq::<(u64, Seq<FeedItem>)>::empty() && final(self).spec_bus().spec_capacity() == capacity,
            old(self).is_initialized() ==> r == Err::<(), BusError>(BusError::AlreadyInitialized)
                && *final(self) == *old(self),
    {
        if self.bus.is_none() {
            self.bus = Some(EventBus::new(capacity));
            Ok(())
        } else {
            Err(BusError::AlreadyInitialized)
        }
    }


    /// Whether an attach is possible: either nothing is initialized yet (the
    /// attach will report that) or the bus can still hand out a handle.
    pub fn can_attach(&self) -> (r: bool)
        ensures
            r == (self.is_initialized() ==> self.spec_bus().spec_next_handle() < u64::MAX),
    {
        match &self.bus {
            None => true,
            Some(b) => b.can_attach(),
        }
    }

    /// Registers a new subscriber queue with the running bus.
    pub fn attach(&mut self) -> (r: Result<u64, BusError>)
        requires
            old(self).wf(),
            old(self).is_initialized() ==> old(self).spec_bus().spec_next_handle() < u64::MAX,
        ensures
            final(self).wf(),
            !old(self).is_initialized() ==> r == Err::<u64, BusError>(BusError::NotInitialized)
                && *final(self) == *old(self),
            old(self).is_initialized() ==> r is Ok && final(self).is_initialized() && r->Ok_0
                == old(self).spec_bus().spec_next_handle() && !has_sub(
                old(self).spec_bus()@,
                r->Ok_0,
            ) && final(self).spec_bus()@ == old(self).spec_bus()@.push(
                (r->Ok_0, Seq::<FeedItem>::empty()),
            ) && final(self).spec_bus().spec_capacity() == old(self).spec_bus().spec_capacity()
                && final(self).spec_bus().spec_next_handle() == r->Ok_0 + 1,
    {
        if self.bus.is_some() {
            let mut b = self.bus.take().unwrap();
            let h = b.attach();
            self.bus = Some(b);
            Ok(h)
        } else {
            Err(BusError::NotInitialized)
        }
    }

    /// Broadcasts one event through the running bus; before initialization
    /// there is nowhere to deliver and the call reports that instead.
    pub fn publish(&mut self, e: &FeedItem) -> (r: Result<(), BusError>)
        requires
            old(self).wf(),
        ensures
            final(self).wf(),
            !old(self).is_initialized() ==> r == Err::<(), BusError>(BusError::NotInitialized)
                && *final(self) == *old(self),
            old(self).is_initialized() ==> r is Ok && final(self).is_initialized() && final(self).spec_bus()@ == publish_spec(
                old(self).spec_bus()@,
                *e,
                old(self).spec_bus().spec_capacity(),
            ) && final(self).spec_bus().spec_capacity() == old(self).spec_bus().spec_capacity()
                && final(self).spec_bus().spec_next_handle() == old(self).spec_bus().spec_next_handle(),
    {
        if self.bus.is_some() {
            let mut b = self.bus.take().unwrap();
            b.publish(e);
            self.bus = Some(b);
            Ok(())
        } else {
            Err(BusError::NotInitialized)
        }
    }

    /// Removes a subscriber from the running bus; idempotent.
    pub fn detach(&mut self, h: u64) -> (r: Result<(), BusError>)
        requires
            old(self).wf(),
        ensures
            final(self).wf(),
            !old(self).is_initialized() ==> r == Err::<(), BusError>(BusError::NotInitialized)
                && *final(self) == *old(self),
            old(self).is_initialized() ==> r is Ok && final(self).is_initialized() && !has_sub(
                final(self).spec_bus()@,
                h,
            ) && (!has_sub(old(self).spec_bus()@, h) ==> final(self).spec_bus()@ == old(self).spec_bus()@) && (has_sub(old(self).spec_bus()@, h) ==> exists|i: int|
                0 <= i < old(self).spec_bus()@.len() && (#[trigger] old(self).spec_bus()@[i]).0
                    == h && final(self).spec_bus()@ == old(self).spec_bus()@.remove(i)) && final(self).spec_bus().spec_capacity() == old(self).spec_bus().spec_capacity() && final(self).spec_bus().spec_next_handle() == old(self).spec_bus().spec_next_handle(),
    {
        if self.bus.is_some() {
            let mut b = self.bus.take().unwrap();
            b.detach(h);
            self.bus = Some(b);
            Ok(())
        } else {
            Err(BusError::NotInitialized)
        }
    }

    /// Takes the oldest pending event for a handle from the running bus.
    pub fn recv(&mut self, h: u64) -> (r: Result<Option<FeedItem>, BusError>)
        requires
            old(self).wf(),
        ensures
            final(self).wf(),
            !old(self).is_initialized() ==> r == Err::<Option<FeedItem>, BusError>(
                BusError::NotInitialized,
            ) && *final(self) == *old(self),
            old(self).is_initialized() ==> final(self).is_initialized() && final(self).spec_bus().spec_capacity() == old(self).spec_bus().spec_capacity() && match r {
                Err(_) => false,
                Ok(None) => final(self).spec_bus() == old(self).spec_bus() && (forall|i: int|
                    0 <= i < old(self).spec_bus()@.len() && (#[trigger] old(self).spec_bus()@[i]).0 == h ==> old(self).spec_bus()@[i].1.len() == 0),
                Ok(Some(e)) => exists|i: int|
                    0 <= i < old(self).spec_bus()@.len() && (#[trigger] old(self).spec_bus()@[i]).0 == h && old(self).spec_bus()@[i].1.len() > 0 && e == old(self).spec_bus()@[i].1.first() && final(self).spec_bus()@ == old(self).spec_bus()@.update(i, (h, old(self).spec_bus()@[i].1.drop_first())),
            },
    {
        if self.bus.is_some() {
            let mut b = self.bus.take().unwrap();
            let r = b.recv(h);
            self.bus = Some(b);
            Ok(r)
        } else {
            Err(BusError::NotInitialized)
        }
    }
}

} // verus!
