//! Dataplane: ring buffers of packet descriptors and a multi-queue
//! generator that spreads packets over several rings.

use vstd::prelude::*;

verus! {

/// Configuration for an AF_XDP socket.
pub struct XdpConfig {
    pub iface: String,
    pub queue: u32,
    pub num_descs: u32,
    pub ring_size: u32,
    pub frame_size: u32,
    pub zero_copy: bool,
    pub busy_poll: bool,
    pub num_cpus: u32,
}

/// The slot of the `k`-th queued entry of a ring whose oldest entry is at
/// `head`, for `k` up to the capacity.
pub open spec fn ring_slot(head: int, k: int, capacity: int) -> int {
    if head + k < capacity {
        head + k
    } else {
        head + k - capacity
    }
}

/// The slot after slot `i` in a ring of `capacity` slots: `(i + 1) % capacity`
/// for a slot in range.
pub open spec fn next_slot(i: u32, capacity: u32) -> u32 {
    if i + 1 == capacity {
        0
    } else {
        (i + 1) as u32
    }
}

/// The queued items after pushing `value`: appended when there is room,
/// unchanged when the ring is full.
pub open spec fn ring_after_push(items: Seq<u64>, capacity: nat, value: u64) -> Seq<u64> {
    if items.len() < capacity {
        items.push(value)
    } else {
        items
    }
}

/// The queued items after a pop: the oldest one leaves, if there is one.
pub open spec fn ring_after_pop(items: Seq<u64>) -> Seq<u64> {
    if items.len() == 0 {
        items
    } else {
        items.drop_first()
    }
}

/// What a pop hands out: the oldest queued item, if there is one.
pub open spec fn ring_front(items: Seq<u64>) -> Option<u64> {
    if items.len() == 0 {
        None
    } else {
        Some(items[0])
    }
}

/// The items queued after pushing each of `values` in turn.
pub open spec fn ring_push_all(items: Seq<u64>, capacity: nat, values: Seq<u64>) -> Seq<u64>
    decreases values.len(),
{
    if values.len() == 0 {
        items
    } else {
        ring_after_push(
            ring_push_all(items, capacity, values.drop_last()),
            capacity,
            values.last(),
        )
    }
}

/// A bounded FIFO ring of packet descriptors that holds up to `capacity`
/// entries.
///
/// `head` is the slot of the oldest entry, `tail` the slot the next entry
/// goes to, and `len` the number of queued entries.
pub struct RingBuffer {
    pub capacity: u32,
    pub entries: Vec<u64>,
    pub head: u32,
    pub tail: u32,
    pub len: u32,
}

impl View for RingBuffer {
    type V = Seq<u64>;

    /// The queued entries, oldest first.
    open spec fn view(&self) -> Seq<u64> {
        Seq::new(
            self.len as nat,
            |k: int| self.entries@[ring_slot(self.head as int, k, self.capacity as int)],
        )
    }
}

impl RingBuffer {
    /// The ring's slots and indices are consistent.
    pub open spec fn wf(&self) -> bool {
        &&& self.entries@.len() == self.capacity
        &&& self.len <= self.capacity
        &&& if self.capacity == 0 {
            self.head == 0 && self.tail == 0
        } else {
            &&& self.head < self.capacity
            &&& self.tail < self.capacity
            &&& self.tail == ring_slot(self.head as int, self.len as int, self.capacity as int)
        }
    }

    /// Creates an empty ring with room for `capacity` entries.
    pub fn new(capacity: u32) -> (r: Self)
        ensures
            r.wf(),
            r.capacity == capacity,
            r@ == Seq::<u64>::empty(),
    {
        let mut entries: Vec<u64> = Vec::new();
        let mut i: u32 = 0;
        while i < capacity
            invariant
                i <= capacity,
                entries@.len() == i,
            decreases capacity - i,
        {
            entries.push(0);
            i = i + 1;
        }
        let r = RingBuffer { capacity, entries, head: 0, tail: 0, len: 0 };
        assert(r@ =~= Seq::<u64>::empty());
        r
    }

    /// Appends `value` if the ring has room; returns whether it was queued.
    /// A full ring is left unchanged.
    pub fn push(&mut self, value: u64) -> (r: bool)
        requires
            old(self).wf(),
        ensures
            final(self).wf(),
            final(self).capacity == old(self).capacity,
            r == (old(self)@.len() < old(self).capacity),
            final(self)@ == ring_after_push(old(self)@, old(self).capacity as nat, value),
            !r ==> *final(self) == *old(self),
            r ==> {
                &&& final(self).head == old(self).head
                &&& final(self).tail == next_slot(old(self).tail, old(self).capacity)
                &&& final(self).len == old(self).len + 1
                &&& final(self).entries@ == old(self).entries@.update(old(self).tail as int, value)
            },
    {
        if self.len == self.capacity {
            return false;
        }
        let ghost old_items = self@;
        let ghost cap = self.capacity as int;
        let ghost head = self.head as int;
        let ghost n = self.len as int;
        let t = self.tail;
        self.entries[t as usize] = value;
        self.tail = if t + 1 == self.capacity {
            0
        } else {
            t + 1
        };
        self.len = self.len + 1;
        assert forall|k: int| 0 <= k < n implies ring_slot(head, k, cap) != t as int by {}
        assert(self@ =~= old_items.push(value));
        true
    }

    /// Removes and returns the oldest entry, or `None` if the ring is empty.
    pub fn pop(&mut self) -> (r: Option<u64>)
        requires
            old(self).wf(),
        ensures
            final(self).wf(),
            final(self).capacity == old(self).capacity,
            r == ring_front(old(self)@),
            final(self)@ == ring_after_pop(old(self)@),
            r is None ==> *final(self) == *old(self),
            r is Some ==> {
                &&& final(self).head == next_slot(old(self).head, old(self).capacity)
                &&& final(self).tail == old(self).tail
                &&& final(self).len == old(self).len - 1
                &&& final(self).entries@ == old(self).entries@
            },
    {
        if self.len == 0 {
            return None;
        }
        let ghost old_items = self@;
        let h = self.head;
        let value = self.entries[h as usize];
        self.head = if h + 1 == self.capacity {
            0
        } else {
            h + 1
        };
        self.len = self.len - 1;
        assert(self@ =~= old_items.drop_first());
        Some(value)
    }
}

/// Law: pushing never lets a ring hold more than its capacity, and a push
/// onto a full ring changes nothing.
pub proof fn lemma_ring_bounded(items: Seq<u64>, capacity: nat, value: u64)
    requires
        items.len() <= capacity,
    ensures
        ring_after_push(items, capacity, value).len() <= capacity,
        items.len() == capacity ==> ring_after_push(items, capacity, value) == items,
{
}

/// Law (first in, first out): on a ring with room, pushing does not change
/// which item leaves next unless the ring was empty, in which case the
/// pushed item leaves next; and on a ring that holds items, a push and a pop
/// give the same queue in either order.
pub proof fn lemma_ring_fifo(items: Seq<u64>, capacity: nat, value: u64)
    requires
        items.len() < capacity,
    ensures
        ring_front(ring_after_push(items, capacity, value)) == if items.len() == 0 {
            Some(value)
        } else {
            ring_front(items)
        },
        items.len() > 0 ==> ring_after_pop(ring_after_push(items, capacity, value))
            == ring_after_push(ring_after_pop(items), capacity, value),
{
    if items.len() > 0 {
        assert(items.push(value).drop_first() =~= items.drop_first().push(value));
    }
}

/// Law: pushing a sequence of values into an empty ring that has room for
/// all of them queues exactly those values, oldest first, so that pops hand
/// them back in the order they were pushed.
pub proof fn lemma_ring_push_all(capacity: nat, values: Seq<u64>)
    requires
        values.len() <= capacity,
    ensures
        ring_push_all(Seq::empty(), capacity, values) == values,
    decreases values.len(),
{
    if values.len() > 0 {
        lemma_ring_push_all(capacity, values.drop_last());
        assert(values.drop_last().push(values.last()) =~= values);
    }
}

/// Generates packets over several queues, one ring per queue.
pub struct MultiQueueGenerator {
    pub num_queues: u32,
    pub queues: Vec<RingBuffer>,
}

impl MultiQueueGenerator {
    /// One ring per queue, each consistent.
    pub open spec fn wf(&self) -> bool {
        &&& self.queues@.len() == self.num_queues
        &&& forall|i: int| 0 <= i < self.queues@.len() ==> (#[trigger] self.queues@[i]).wf()
    }

    /// Creates `num_queues` empty rings, each with room for `queue_capacity`
    /// entries.
    pub fn new(num_queues: u32, queue_capacity: u32) -> (r: Self)
        ensures
            r.wf(),
            r.num_queues == num_queues,
            forall|i: int|
                0 <= i < num_queues ==> (#[trigger] r.queues@[i]).capacity == queue_capacity
                    && r.queues@[i]@ == Seq::<u64>::empty(),
    {
        let mut queues: Vec<RingBuffer> = Vec::new();
        let mut i: u32 = 0;
        while i < num_queues
            invariant
                i <= num_queues,
                queues@.len() == i,
                forall|j: int|
                    0 <= j < i ==> (#[trigger] queues@[j]).wf() && queues@[j].capacity
                        == queue_capacity && queues@[j]@ == Seq::<u64>::empty(),
            decreases num_queues - i,
        {
            queues.push(RingBuffer::new(queue_capacity));
            i = i + 1;
        }
        MultiQueueGenerator { num_queues, queues }
    }

    /// Queues `packet` on queue `queue_id`; returns whether it was queued.
    /// A queue ID out of range, or a full queue, queues nothing.
    pub fn send(&mut self, queue_id: u32, packet: u64) -> (r: bool)
        requires
            old(self).wf(),
        ensures
            final(self).wf(),
            final(self).num_queues == old(self).num_queues,
            queue_id >= old(self).num_queues ==> !r && final(self).queues@ == old(self).queues@,
            queue_id < old(self).num_queues ==> {
                let q = old(self).queues@[queue_id as int];
                &&& r == (q@.len() < q.capacity)
                &&& final(self).queues@[queue_id as int].capacity == q.capacity
                &&& final(self).queues@[queue_id as int]@ == ring_after_push(
                    q@,
                    q.capacity as nat,
                    packet,
                )
                &&& forall|i: int|
                    0 <= i < old(self).queues@.len() && i != queue_id ==> final(self).queues@[i]
                        == #[trigger] old(self).queues@[i]
            },
    {
        if queue_id >= self.num_queues {
            return false;
        }
        self.queues[queue_id as usize].push(packet)
    }
}

} // verus!
