//! The ring-buffer queue: the shared header and buffer, and the producer
//! and consumer handles with their private cursor caches.
//!
//! The two cursors count items over the whole lifetime of the queue. The
//! machine words in the header hold those counts reduced modulo
//! `usize::MAX + 1` (they wrap around); each handle also carries the
//! unbounded count as ghost state, tied to the stored word by the handle's
//! invariant. Because the capacity is a power of two and divides the wrap
//! modulus, reducing a wrapped cursor modulo the capacity still yields the
//! slot index of the unbounded count, so first-in-first-out order survives
//! wraparound.

use vstd::prelude::*;
use vstd::arithmetic::power::pow;
use vstd::arithmetic::power2::{
    pow2, is_pow2, is_pow2_equiv, lemma_pow2, lemma_pow2_adds, lemma_pow2_pos,
    lemma_pow2_strictly_increases,
};
use vstd::arithmetic::div_mod::{
    lemma_add_mod_noop, lemma_mod_add_multiples_vanish, lemma_mod_mod, lemma_mod_self_0,
    lemma_small_mod, lemma_sub_mod_noop,
};
use vstd::wrapping::usize_specs;

use crate::error::Error;
use crate::layout::{
    calculate_buffer_size_in_items, is_power_of_two, layout_feasible, spec_buffer_offset,
    spec_capacity, HEADER_SIZE,
};

verus! {

/// The first count that no longer fits in a cursor word: cursors stored in
/// the header are the unbounded counts reduced modulo this.
pub open spec fn wrap_modulus() -> nat {
    usize::MAX as nat + 1
}

/// Wrapping subtraction of two wrapped cursors recovers the true distance,
/// as long as that distance fits in a word.
proof fn lemma_wrap_sub(a: nat, b: nat)
    requires
        a <= b,
        b - a < wrap_modulus(),
    ensures
        usize_specs::wrapping_sub(
            ((b % wrap_modulus()) as usize),
            ((a % wrap_modulus()) as usize),
        ) == b - a,
{
    let u = wrap_modulus() as int;
    let x = (b % wrap_modulus()) as int;
    let y = (a % wrap_modulus()) as int;
    lemma_sub_mod_noop(b as int, a as int, u);
    lemma_small_mod((b - a) as nat, wrap_modulus());
    if x - y < 0 {
        lemma_mod_add_multiples_vanish(x - y, u);
        lemma_small_mod((x - y + u) as nat, wrap_modulus());
    } else {
        lemma_small_mod((x - y) as nat, wrap_modulus());
    }
}

/// Two cursors within one wrap of each other are equal exactly when their
/// stored words are equal.
proof fn lemma_wrap_eq(a: nat, b: nat)
    requires
        a <= b,
        b - a < wrap_modulus(),
    ensures
        (a % wrap_modulus() == b % wrap_modulus()) <==> (a == b),
{
    let u = wrap_modulus() as int;
    if a % wrap_modulus() == b % wrap_modulus() && a != b {
        lemma_sub_mod_noop(b as int, a as int, u);
        lemma_small_mod((b - a) as nat, wrap_modulus());
        lemma_small_mod(0, wrap_modulus());
        assert(false);
    }
}

/// Advancing a wrapped cursor by one wrapping addition tracks the
/// unbounded count.
proof fn lemma_wrap_add_one(a: nat)
    ensures
        usize_specs::wrapping_add(((a % wrap_modulus()) as usize), 1) == (a + 1) % wrap_modulus(),
{
    let u = wrap_modulus() as int;
    let x = (a % wrap_modulus()) as int;
    lemma_add_mod_noop(a as int, 1, u);
    lemma_small_mod(1, wrap_modulus());
    if x + 1 <= usize::MAX {
        lemma_small_mod((x + 1) as nat, wrap_modulus());
    } else {
        lemma_mod_self_0(u);
    }
}

/// Slot indices survive cursor wraparound: reducing a cursor modulo the
/// wrap modulus and then modulo a power-of-two capacity gives the same slot
/// as reducing the unbounded count directly. This holds because the
/// capacity divides the wrap modulus, itself a power of two.
pub proof fn lemma_mask_wraparound(g: nat, cap: usize)
    requires
        is_pow2(cap as int),
    ensures
        (g % wrap_modulus()) % (cap as nat) == g % (cap as nat),
{
    is_pow2_equiv(cap as int);
    let k = choose|k: nat| pow(2, k) == cap as int;
    lemma_pow2(k);
    lemma_pow2_pos(k);
    vstd::layout::unsigned_int_max_values();
    let bits = usize::BITS as nat;
    assert(wrap_modulus() == pow2(bits));
    if k >= bits {
        if k > bits {
            lemma_pow2_strictly_increases(bits, k);
        }
        assert(false);
    }
    lemma_pow2_adds(k, (bits - k) as nat);
    let d = pow2((bits - k) as nat);
    lemma_pow2_pos((bits - k) as nat);
    lemma_mod_mod(g as int, cap as int, d as int);
}

/// The fixed-layout control block at the start of the region: the write
/// cursor, the read cursor, and the immutable capacity, together with the
/// ghost unbounded counts behind the two cursor words.
pub struct SharedQueueHeader {
    /// Wrapped count of items ever published by the producer.
    pub write: usize,
    /// Wrapped count of items ever released by the consumer.
    pub read: usize,
    /// Number of item slots; a power of two, set once at creation.
    pub buffer_size: usize,
    /// Unbounded count behind `write`.
    pub total_write: Ghost<nat>,
    /// Unbounded count behind `read`.
    pub total_read: Ghost<nat>,
}

impl SharedQueueHeader {
    /// The header's invariant: the capacity is a positive power of two, the
    /// released count never passes the published count nor trails it by
    /// more than the capacity, and each cursor word is its unbounded count
    /// reduced modulo the wrap modulus.
    pub open spec fn inv(self) -> bool {
        &&& self.buffer_size >= 1
        &&& is_pow2(self.buffer_size as int)
        &&& self.total_read@ <= self.total_write@
        &&& self.total_write@ <= self.total_read@ + self.buffer_size
        &&& self.write == self.total_write@ % wrap_modulus()
        &&& self.read == self.total_read@ % wrap_modulus()
    }

    /// A fresh header: both cursors zero, capacity as computed at creation.
    pub fn initialize(buffer_size: usize) -> (h: Self)
        requires
            buffer_size >= 1,
            is_pow2(buffer_size as int),
        ensures
            h.inv(),
            h.buffer_size == buffer_size,
            h.write == 0,
            h.read == 0,
            h.total_write@ == 0,
            h.total_read@ == 0,
    {
        proof {
            lemma_small_mod(0, wrap_modulus());
        }
        SharedQueueHeader {
            write: 0,
            read: 0,
            buffer_size,
            total_write: Ghost(0),
            total_read: Ghost(0),
        }
    }

    /// Computes the capacity for a region of `file_size` bytes and builds
    /// the initialized header, rejecting a region without room for a slot.
    pub fn create(file_size: usize, item_size: usize, item_align: usize) -> (r: Result<
        Self,
        Error,
    >)
        requires
            item_size >= 1,
            is_pow2(item_align as int),
        ensures
            r is Ok <==> layout_feasible(file_size as nat, item_size as nat, item_align as nat),
            r is Err ==> r->Err_0 == Error::InvalidBufferSize,
            r is Ok ==> r->Ok_0.inv() && r->Ok_0.buffer_size == spec_capacity(
                file_size as nat,
                item_size as nat,
                item_align as nat,
            ) && r->Ok_0.total_write@ == 0 && r->Ok_0.total_read@ == 0
                && r->Ok_0.buffer_size * item_size + spec_buffer_offset(item_align as nat)
                <= file_size,
    {
        let buffer_size_in_items = calculate_buffer_size_in_items(file_size, item_size, item_align)?;
        Ok(Self::initialize(buffer_size_in_items))
    }

    /// The validation run when joining an already-initialized region: the
    /// stored capacity must be a positive power of two whose slots, plus
    /// the header, fit in the mapped size. Makes no assumption about the
    /// header's contents.
    pub fn validate(&self, mapped_size: usize, item_size: usize) -> (r: Result<(), Error>)
        requires
            item_size >= 1,
        ensures
            r is Ok <==> (self.buffer_size >= 1 && is_pow2(self.buffer_size as int)
                && self.buffer_size * item_size + HEADER_SIZE <= mapped_size),
            r is Err ==> r->Err_0 == Error::InvalidBufferSize,
    {
        if self.buffer_size == 0 {
            return Err(Error::InvalidBufferSize);
        }
        if !is_power_of_two(self.buffer_size) {
            return Err(Error::InvalidBufferSize);
        }
        if mapped_size < HEADER_SIZE {
            proof {
                assert(self.buffer_size * item_size >= 1) by (nonlinear_arith)
                    requires
                        self.buffer_size >= 1,
                        item_size >= 1,
                ;
            }
            return Err(Error::InvalidBufferSize);
        }
        let room: usize = (mapped_size - HEADER_SIZE) / item_size;
        proof {
            crate::layout::lemma_div_bounds((mapped_size - HEADER_SIZE) as nat, item_size as nat);
            if self.buffer_size <= room {
                assert(self.buffer_size * item_size <= room * item_size) by (nonlinear_arith)
                    requires
                        self.buffer_size <= room,
                        item_size >= 1,
                ;
            } else {
                if self.buffer_size * item_size + HEADER_SIZE <= mapped_size {
                    crate::layout::lemma_le_div(
                        (mapped_size - HEADER_SIZE) as nat,
                        item_size as nat,
                        self.buffer_size as nat,
                    );
                }
            }
        }
        if self.buffer_size > room {
            return Err(Error::InvalidBufferSize);
        }
        Ok(())
    }
}

/// The owned model of the mapped region: the header followed by `capacity`
/// item slots, together with the ghost log of every item ever published.
/// Slot storage for the item with unbounded count `k` is `buffer[k %
/// capacity]`.
pub struct SharedRegion<T> {
    /// The control block at offset zero.
    pub header: SharedQueueHeader,
    /// The item slots.
    pub buffer: Vec<T>,
    /// Total size in bytes of the region this value models.
    pub file_size: usize,
    /// Size in bytes of one item slot.
    pub item_size: usize,
    /// Alignment in bytes of the item type.
    pub item_align: usize,
    /// Every item ever published, in publication order.
    pub log: Ghost<Seq<T>>,
}

impl<T> SharedRegion<T> {
    /// The item capacity of the region.
    pub open spec fn capacity(self) -> nat {
        self.header.buffer_size as nat
    }

    /// The region's invariant: a valid header, one slot per capacity unit,
    /// a log entry per published item, and every published-but-unreleased
    /// item still present byte-for-byte in its slot. The layout fields
    /// record a feasible geometry for this capacity.
    pub open spec fn inv(self) -> bool {
        &&& self.header.inv()
        &&& self.buffer.len() == self.capacity()
        &&& self.log@.len() == self.header.total_write@
        &&& forall|k: int|
            #![trigger self.log@[k]]
            self.header.total_read@ <= k < self.header.total_write@ ==> self.buffer@[k % (
            self.capacity() as int)] == self.log@[k]
        &&& self.item_size >= 1
        &&& is_pow2(self.item_align as int)
        &&& spec_buffer_offset(self.item_align as nat) + self.capacity() * self.item_size
            <= self.file_size
    }

    /// Stores `value` into slot `index`. The index must not be the slot of
    /// any published-but-unreleased item: only a slot the producer has
    /// reserved (or one outside every live range) may be written.
    pub fn write_slot(&mut self, index: usize, value: T)
        requires
            old(self).inv(),
            index < old(self).capacity(),
            forall|k: int|
                old(self).header.total_read@ <= k < old(self).header.total_write@ ==> #[trigger] (k
                    % (old(self).capacity() as int)) != index,
        ensures
            final(self).inv(),
            final(self).header == old(self).header,
            final(self).log == old(self).log,
            final(self).file_size == old(self).file_size,
            final(self).item_size == old(self).item_size,
            final(self).item_align == old(self).item_align,
            final(self).buffer@ == old(self).buffer@.update(index as int, value),
    {
        let slot = &mut self.buffer[index];
        *slot = value;
        proof {
            assert forall|k: int|
                self.header.total_read@ <= k < self.header.total_write@ implies self.buffer@[k % (
                self.capacity() as int)] == #[trigger] self.log@[k] by {
                assert(old(self).buffer@[k % (self.capacity() as int)] == self.log@[k]);
            }
        }
    }

    /// Copies the value out of slot `index`.
    pub fn read_slot(&self, index: usize) -> (r: T) where T: Copy
        requires
            self.inv(),
            index < self.capacity(),
        ensures
            r == self.buffer@[index as int],
    {
        self.buffer[index]
    }
}

impl<T: Copy> SharedRegion<T> {
    /// Builds a fresh region of `file_size` bytes for items of the given
    /// size and alignment, every slot holding `fill` (the model of a
    /// zeroed backing object). Rejects a size without room for one slot.
    pub fn create(file_size: usize, item_size: usize, item_align: usize, fill: T) -> (r: Result<
        Self,
        Error,
    >)
        requires
            item_size >= 1,
            is_pow2(item_align as int),
        ensures
            r is Ok <==> layout_feasible(file_size as nat, item_size as nat, item_align as nat),
            r is Err ==> r->Err_0 == Error::InvalidBufferSize,
            r is Ok ==> {
                let rg = r->Ok_0;
                &&& rg.inv()
                &&& rg.capacity() == spec_capacity(
                    file_size as nat,
                    item_size as nat,
                    item_align as nat,
                )
                &&& rg.header.total_write@ == 0
                &&& rg.header.total_read@ == 0
                &&& rg.file_size == file_size
                &&& rg.item_size == item_size
                &&& rg.item_align == item_align
                &&& rg.log@ == Seq::<T>::empty()
            },
    {
        let header = SharedQueueHeader::create(file_size, item_size, item_align)?;
        let buffer_size = header.buffer_size;
        let mut buffer: Vec<T> = Vec::new();
        while buffer.len() < buffer_size
            invariant
                buffer.len() <= buffer_size,
            decreases buffer_size - buffer.len(),
        {
            buffer.push(fill);
        }
        Ok(
            SharedRegion {
                header,
                buffer,
                file_size,
                item_size,
                item_align,
                log: Ghost(Seq::empty()),
            },
        )
    }
}

/// The process-local state both handles share in shape: the cached copies
/// of the two cursors and of the capacity, with the ghost unbounded counts
/// behind the cached words. The caches let the hot-path operations decide
/// without touching the shared header.
pub struct SharedQueue {
    /// Cached copy of the capacity stored in the header.
    pub capacity: usize,
    /// Cached wrapped write cursor.
    pub cached_write: usize,
    /// Cached wrapped read cursor.
    pub cached_read: usize,
    /// Unbounded count behind `cached_write`.
    pub total_cached_write: Ghost<nat>,
    /// Unbounded count behind `cached_read`.
    pub total_cached_read: Ghost<nat>,
}

impl SharedQueue {
    /// The cache invariant: mirrors the header's, over the cached values.
    pub open spec fn inv(self) -> bool {
        &&& self.capacity >= 1
        &&& is_pow2(self.capacity as int)
        &&& self.total_cached_read@ <= self.total_cached_write@
        &&& self.total_cached_write@ <= self.total_cached_read@ + self.capacity
        &&& self.cached_write == self.total_cached_write@ % wrap_modulus()
        &&& self.cached_read == self.total_cached_read@ % wrap_modulus()
    }

    /// How a producer's cache relates to the shared region: the producer's
    /// write count runs ahead of the published one (reserved slots not yet
    /// committed), and its view of the read cursor lags the published one.
    pub open spec fn attached_producer<T>(self, region: SharedRegion<T>) -> bool {
        &&& self.capacity == region.header.buffer_size
        &&& self.total_cached_read@ <= region.header.total_read@
        &&& region.header.total_write@ <= self.total_cached_write@
    }

    /// How a consumer's cache relates to the shared region: the consumer's
    /// read count runs ahead of the published one (read slots not yet
    /// finalized), and its view of the write cursor lags the published one.
    pub open spec fn attached_consumer<T>(self, region: SharedRegion<T>) -> bool {
        &&& self.capacity == region.header.buffer_size
        &&& region.header.total_read@ <= self.total_cached_read@
        &&& self.total_cached_write@ <= region.header.total_write@
    }

    /// Seeds a cache from the region's header: capacity and both cursors,
    /// so a handle created over a queue with pending state starts correct.
    pub fn from_header<T>(region: &SharedRegion<T>) -> (q: Self)
        requires
            region.inv(),
        ensures
            q.inv(),
            q.attached_producer(*region),
            q.attached_consumer(*region),
            q.capacity == region.header.buffer_size,
            q.total_cached_write@ == region.header.total_write@,
            q.total_cached_read@ == region.header.total_read@,
    {
        let mut q = SharedQueue {
            capacity: region.header.buffer_size,
            cached_write: 0,
            cached_read: 0,
            total_cached_write: Ghost(0),
            total_cached_read: Ghost(0),
        };
        q.load_write(region);
        q.load_read(region);
        q
    }

    /// Reduces a cursor to the index of its slot.
    pub fn mask(&self, index: usize) -> (r: usize)
        requires
            self.capacity >= 1,
        ensures
            r == index as nat % self.capacity as nat,
    {
        index % self.capacity
    }

    /// Refreshes the cached write cursor from the header (the consumer's
    /// acquire load, discovering newly committed slots).
    pub fn load_write<T>(&mut self, region: &SharedRegion<T>)
        ensures
            final(self).cached_write == region.header.write,
            final(self).total_cached_write@ == region.header.total_write@,
            final(self).cached_read == old(self).cached_read,
            final(self).total_cached_read == old(self).total_cached_read,
            final(self).capacity == old(self).capacity,
    {
        self.cached_write = region.header.write;
        self.total_cached_write = Ghost(region.header.total_write@);
    }

    /// Refreshes the cached read cursor from the header (the producer's
    /// acquire load, discovering slots the consumer has freed).
    pub fn load_read<T>(&mut self, region: &SharedRegion<T>)
        ensures
            final(self).cached_read == region.header.read,
            final(self).total_cached_read@ == region.header.total_read@,
            final(self).cached_write == old(self).cached_write,
            final(self).total_cached_write == old(self).total_cached_write,
            final(self).capacity == old(self).capacity,
    {
        self.cached_read = region.header.read;
        self.total_cached_read = Ghost(region.header.total_read@);
    }
}

/// The write side of the queue. Exactly one producer may drive a region;
/// constructing a second one over the same region breaks the single-writer
/// protocol and is a caller contract violation.
pub struct Producer {
    /// The producer's private cursor caches.
    pub queue: SharedQueue,
}

impl Producer {
    /// The producer's invariant over its own caches.
    pub open spec fn inv(self) -> bool {
        self.queue.inv()
    }

    /// Whether this producer's caches are consistent with `region`.
    pub open spec fn attached<T>(self, region: SharedRegion<T>) -> bool {
        self.queue.attached_producer(region)
    }

    /// Slots this producer considers occupied: reserved but, as far as it
    /// knows, not yet released by the consumer.
    pub open spec fn occupancy(self) -> nat {
        (self.queue.total_cached_write@ - self.queue.total_cached_read@) as nat
    }

    /// Builds a fresh region of `file_size` bytes and a producer attached
    /// to it. Fails only when the region has no room for a single slot.
    pub fn create<T: Copy>(file_size: usize, item_size: usize, item_align: usize, fill: T) -> (r:
        Result<(Producer, SharedRegion<T>), Error>)
        requires
            item_size >= 1,
            is_pow2(item_align as int),
        ensures
            r is Ok <==> layout_feasible(file_size as nat, item_size as nat, item_align as nat),
            r is Err ==> r->Err_0 == Error::InvalidBufferSize,
            r is Ok ==> {
                let (p, rg) = r->Ok_0;
                &&& p.inv()
                &&& rg.inv()
                &&& p.attached(rg)
                &&& rg.header.total_write@ == 0
                &&& rg.header.total_read@ == 0
                &&& p.queue.total_cached_write@ == 0
                &&& p.queue.total_cached_read@ == 0
                &&& rg.capacity() == spec_capacity(
                    file_size as nat,
                    item_size as nat,
                    item_align as nat,
                )
            },
    {
        let region = SharedRegion::<T>::create(file_size, item_size, item_align, fill)?;
        let producer = Producer::from_header(&region);
        Ok((producer, region))
    }

    /// Attaches a producer to an existing region after validating its
    /// stored capacity against the region's size, as when a process joins
    /// a queue another process created.
    pub fn join<T>(region: &SharedRegion<T>) -> (r: Result<Producer, Error>)
        requires
            region.inv(),
        ensures
            r is Ok,
            r->Ok_0.inv(),
            r->Ok_0.attached(*region),
            r->Ok_0.queue.total_cached_write@ == region.header.total_write@,
            r->Ok_0.queue.total_cached_read@ == region.header.total_read@,
    {
        proof {
            reveal(is_pow2);
            assert(region.item_align >= 1);
            assert(spec_buffer_offset(region.item_align as nat) >= HEADER_SIZE);
        }
        match region.header.validate(region.file_size, region.item_size) {
            Ok(()) => Ok(Producer::from_header(region)),
            Err(e) => Err(e),
        }
    }

    /// Seeds a producer's caches from the region's header.
    pub fn from_header<T>(region: &SharedRegion<T>) -> (p: Producer)
        requires
            region.inv(),
        ensures
            p.inv(),
            p.attached(*region),
            p.queue.total_cached_write@ == region.header.total_write@,
            p.queue.total_cached_read@ == region.header.total_read@,
    {
        Producer { queue: SharedQueue::from_header(region) }
    }

    /// Reserves the next slot for writing and advances the private write
    /// count; the reservation is not yet visible to the consumer. Returns
    /// the reserved slot's index, or nothing when every slot the producer
    /// knows about is occupied.
    pub fn reserve(&mut self) -> (r: Option<usize>)
        requires
            old(self).inv(),
        ensures
            final(self).inv(),
            final(self).queue.capacity == old(self).queue.capacity,
            final(self).queue.cached_read == old(self).queue.cached_read,
            final(self).queue.total_cached_read == old(self).queue.total_cached_read,
            r is None <==> old(self).occupancy() == old(self).queue.capacity,
            r is None ==> *final(self) == *old(self),
            r is Some ==> r->0 == old(self).queue.total_cached_write@ % (old(
                self,
            ).queue.capacity as nat) && final(self).queue.total_cached_write@ == old(
                self,
            ).queue.total_cached_write@ + 1,
    {
        proof {
            lemma_wrap_sub(self.queue.total_cached_read@, self.queue.total_cached_write@);
        }
        if self.queue.cached_write.wrapping_sub(self.queue.cached_read) >= self.queue.capacity {
            return None;
        }

        let reserved_index = self.queue.mask(self.queue.cached_write);
        proof {
            lemma_mask_wraparound(self.queue.total_cached_write@, self.queue.capacity);
            lemma_wrap_add_one(self.queue.total_cached_write@);
        }
        self.queue.cached_write = self.queue.cached_write.wrapping_add(1);
        self.queue.total_cached_write = Ghost(self.queue.total_cached_write@ + 1);

        Some(reserved_index)
    }

    /// Publishes every slot reserved so far: stores the cached write
    /// cursor into the header (the release store). The published items'
    /// current slot contents are appended to the region's log; from here
    /// on the consumer may observe them.
    pub fn commit<T>(&self, region: &mut SharedRegion<T>)
        requires
            self.inv(),
            old(region).inv(),
            self.attached(*old(region)),
        ensures
            final(region).inv(),
            self.attached(*final(region)),
            final(region).header.total_write@ == self.queue.total_cached_write@,
            final(region).header.write == self.queue.cached_write,
            final(region).header.total_read@ == old(region).header.total_read@,
            final(region).header.read == old(region).header.read,
            final(region).header.buffer_size == old(region).header.buffer_size,
            final(region).buffer == old(region).buffer,
            final(region).file_size == old(region).file_size,
            final(region).item_size == old(region).item_size,
            final(region).item_align == old(region).item_align,
            final(region).log@.len() == self.queue.total_cached_write@,
            forall|k: int|
                0 <= k < old(region).header.total_write@ ==> final(region).log@[k] == old(
                    region,
                ).log@[k],
            forall|k: int|
                old(region).header.total_write@ <= k < self.queue.total_cached_write@
                    ==> final(region).log@[k] == old(region).buffer@[k % (old(
                    region,
                ).capacity() as int)],
    {
        let ghost old_total = region.header.total_write@;
        let ghost new_total = self.queue.total_cached_write@;
        let ghost cap = region.capacity() as int;
        region.header.write = self.queue.cached_write;
        proof {
            region.header.total_write@ = new_total;
            region.log@ = region.log@ + Seq::new(
                (new_total - old_total) as nat,
                |i: int| region.buffer@[(old_total + i) % cap],
            );
        }
        proof {
            assert forall|k: int|
                region.header.total_read@ <= k < region.header.total_write@ implies region.buffer@[k
                % (region.capacity() as int)] == #[trigger] region.log@[k] by {
                if k < old_total {
                    assert(old(region).log@[k] == old(region).buffer@[k % cap]);
                } else {
                    assert(region.log@[k] == region.buffer@[(old_total + (k - old_total)) % cap]);
                }
            }
        }
    }

    /// Refreshes the producer's view of the read cursor from the header
    /// (the acquire load), discovering slots the consumer has freed. This
    /// is how a producer that reported "full" makes progress.
    pub fn sync<T>(&mut self, region: &SharedRegion<T>)
        requires
            old(self).inv(),
            region.inv(),
            old(self).attached(*region),
        ensures
            final(self).inv(),
            final(self).attached(*region),
            final(self).queue.total_cached_read@ == region.header.total_read@,
            final(self).queue.cached_read == region.header.read,
            final(self).queue.cached_write == old(self).queue.cached_write,
            final(self).queue.total_cached_write == old(self).queue.total_cached_write,
            final(self).queue.capacity == old(self).queue.capacity,
    {
        self.queue.load_read(region);
    }
}

/// The read side of the queue. Exactly one consumer may drive a region;
/// constructing a second one over the same region breaks the single-writer
/// protocol and is a caller contract violation.
pub struct Consumer {
    /// The consumer's private cursor caches.
    pub queue: SharedQueue,
}

impl Consumer {
    /// The consumer's invariant over its own caches.
    pub open spec fn inv(self) -> bool {
        self.queue.inv()
    }

    /// Whether this consumer's caches are consistent with `region`.
    pub open spec fn attached<T>(self, region: SharedRegion<T>) -> bool {
        self.queue.attached_consumer(region)
    }

    /// Committed items this consumer has observed but not yet read.
    pub open spec fn available(self) -> nat {
        (self.queue.total_cached_write@ - self.queue.total_cached_read@) as nat
    }

    /// Builds a fresh region of `file_size` bytes and a consumer attached
    /// to it. Fails only when the region has no room for a single slot.
    pub fn create<T: Copy>(file_size: usize, item_size: usize, item_align: usize, fill: T) -> (r:
        Result<(Consumer, SharedRegion<T>), Error>)
        requires
            item_size >= 1,
            is_pow2(item_align as int),
        ensures
            r is Ok <==> layout_feasible(file_size as nat, item_size as nat, item_align as nat),
            r is Err ==> r->Err_0 == Error::InvalidBufferSize,
            r is Ok ==> {
                let (c, rg) = r->Ok_0;
                &&& c.inv()
                &&& rg.inv()
                &&& c.attached(rg)
                &&& rg.header.total_write@ == 0
                &&& rg.header.total_read@ == 0
                &&& c.queue.total_cached_write@ == 0
                &&& c.queue.total_cached_read@ == 0
                &&& rg.capacity() == spec_capacity(
                    file_size as nat,
                    item_size as nat,
                    item_align as nat,
                )
            },
    {
        let region = SharedRegion::<T>::create(file_size, item_size, item_align, fill)?;
        let consumer = Consumer::from_header(&region);
        Ok((consumer, region))
    }

    /// Attaches a consumer to an existing region after validating its
    /// stored capacity against the region's size.
    pub fn join<T>(region: &SharedRegion<T>) -> (r: Result<Consumer, Error>)
        requires
            region.inv(),
        ensures
            r is Ok,
            r->Ok_0.inv(),
            r->Ok_0.attached(*region),
            r->Ok_0.queue.total_cached_write@ == region.header.total_write@,
            r->Ok_0.queue.total_cached_read@ == region.header.total_read@,
    {
        proof {
            reveal(is_pow2);
            assert(region.item_align >= 1);
            assert(spec_buffer_offset(region.item_align as nat) >= HEADER_SIZE);
        }
        match region.header.validate(region.file_size, region.item_size) {
            Ok(()) => Ok(Consumer::from_header(region)),
            Err(e) => Err(e),
        }
    }

    /// Seeds a consumer's caches from the region's header.
    pub fn from_header<T>(region: &SharedRegion<T>) -> (c: Consumer)
        requires
            region.inv(),
        ensures
            c.inv(),
            c.attached(*region),
            c.queue.total_cached_write@ == region.header.total_write@,
            c.queue.total_cached_read@ == region.header.total_read@,
    {
        Consumer { queue: SharedQueue::from_header(region) }
    }

    /// Takes the next unread slot and advances the private read count; the
    /// release is not yet visible to the producer. Returns the slot's
    /// index, or nothing when the consumer has observed no further commit.
    pub fn try_read(&mut self) -> (r: Option<usize>)
        requires
            old(self).inv(),
        ensures
            final(self).inv(),
            final(self).queue.capacity == old(self).queue.capacity,
            final(self).queue.cached_write == old(self).queue.cached_write,
            final(self).queue.total_cached_write == old(self).queue.total_cached_write,
            r is None <==> old(self).available() == 0,
            r is None ==> *final(self) == *old(self),
            r is Some ==> r->0 == old(self).queue.total_cached_read@ % (old(
                self,
            ).queue.capacity as nat) && final(self).queue.total_cached_read@ == old(
                self,
            ).queue.total_cached_read@ + 1,
    {
        proof {
            lemma_wrap_eq(self.queue.total_cached_read@, self.queue.total_cached_write@);
        }
        if self.queue.cached_read == self.queue.cached_write {
            return None;
        }

        let read_index = self.queue.mask(self.queue.cached_read);
        proof {
            lemma_mask_wraparound(self.queue.total_cached_read@, self.queue.capacity);
            lemma_wrap_add_one(self.queue.total_cached_read@);
        }
        self.queue.cached_read = self.queue.cached_read.wrapping_add(1);
        self.queue.total_cached_read = Ghost(self.queue.total_cached_read@ + 1);

        Some(read_index)
    }

    /// Publishes every slot read so far: stores the cached read cursor
    /// into the header (the release store), freeing those slots for reuse
    /// by the producer. The caller must be done with every slot returned
    /// by `try_read` since the previous call.
    pub fn finalize<T>(&self, region: &mut SharedRegion<T>)
        requires
            self.inv(),
            old(region).inv(),
            self.attached(*old(region)),
        ensures
            final(region).inv(),
            self.attached(*final(region)),
            final(region).header.total_read@ == self.queue.total_cached_read@,
            final(region).header.read == self.queue.cached_read,
            final(region).header.total_write@ == old(region).header.total_write@,
            final(region).header.write == old(region).header.write,
            final(region).header.buffer_size == old(region).header.buffer_size,
            final(region).buffer == old(region).buffer,
            final(region).log == old(region).log,
            final(region).file_size == old(region).file_size,
            final(region).item_size == old(region).item_size,
            final(region).item_align == old(region).item_align,
    {
        region.header.read = self.queue.cached_read;
        proof {
            region.header.total_read@ = self.queue.total_cached_read@;
        }
    }

    /// Refreshes the consumer's view of the write cursor from the header
    /// (the acquire load), discovering newly committed slots.
    pub fn sync<T>(&mut self, region: &SharedRegion<T>)
        requires
            old(self).inv(),
            region.inv(),
            old(self).attached(*region),
        ensures
            final(self).inv(),
            final(self).attached(*region),
            final(self).queue.total_cached_write@ == region.header.total_write@,
            final(self).queue.cached_write == region.header.write,
            final(self).queue.cached_read == old(self).queue.cached_read,
            final(self).queue.total_cached_read == old(self).queue.total_cached_read,
            final(self).queue.capacity == old(self).queue.capacity,
    {
        self.queue.load_write(region);
    }
}

} // verus!
