//! A circular buffer of fixed capacity whose logical length can change at
//! run time without reallocating.
//!
//! The buffer is the storage behind sliding level windows: every `push`
//! overwrites the oldest value, so the buffer always holds the most recent
//! `size` values. Changing the length is a full reset: every slot is
//! cleared and the window starts over.

use vstd::arithmetic::div_mod::lemma_mod_add_multiples_vanish;
use vstd::arithmetic::div_mod::lemma_mod_self_0;
use vstd::arithmetic::div_mod::lemma_small_mod;
use vstd::math::max;
use vstd::math::min;
use vstd::prelude::*;

verus! {

/// `len` copies of `zero`.
pub open spec fn cleared<T>(len: nat, zero: T) -> Seq<T> {
    Seq::new(len, |i: int| zero)
}

/// The logical length that a request for `requested` slots gets from a store
/// of `capacity` slots: the request, cut to the capacity.
pub open spec fn fit(requested: int, capacity: int) -> int {
    min(requested, capacity)
}

/// The window after one more value has entered it: the oldest value leaves,
/// the others move up one place and the new value is the youngest.
pub open spec fn slide<T>(window: Seq<T>, value: T) -> Seq<T> {
    window.drop_first().push(value)
}

/// The window after `values` have entered it one by one, first to last.
pub open spec fn slide_all<T>(window: Seq<T>, values: Seq<T>) -> Seq<T>
    decreases values.len(),
{
    if values.len() == 0 {
        window
    } else {
        slide(slide_all(window, values.drop_last()), values.last())
    }
}

/// The window length that a level window of `requested` samples gets: at
/// least one sample, at most the capacity.
pub open spec fn window_len(requested: int, capacity: int) -> int {
    fit(max(requested, 1), capacity)
}

/// The window after its length has been set to `len`: untouched where it has
/// that length already, cleared otherwise.
pub open spec fn rewindowed<T>(window: Seq<T>, len: int, zero: T) -> Seq<T> {
    if window.len() == len {
        window
    } else {
        cleared(len as nat, zero)
    }
}

/// Slot of the backing store that lies `offset` places after `position`,
/// where both are below `size`.
spec fn wrap(position: int, offset: int, size: int) -> int {
    if position + offset < size {
        position + offset
    } else {
        position + offset - size
    }
}

/// Circular buffer over a backing store that is allocated once.
///
/// Its view is the window of values it holds, oldest first; the view's length
/// is the logical size. What the buffer hands out depends on the view alone.
/// Below the view lie the store, which has a slot for each value that the
/// window can grow to, and the cursor, the slot of the store in which the
/// oldest value lies and the next value goes: the window is read from the
/// store by starting at the cursor and going around the logical size.
pub struct VariableRingBuffer<T> {
    buffer: Vec<T>,
    position: usize,
    size: usize,
    zero: T,
}

impl<T> View for VariableRingBuffer<T> {
    type V = Seq<T>;

    closed spec fn view(&self) -> Seq<T> {
        Seq::new(
            self.size as nat,
            |i: int| self.buffer@[wrap(self.position as int, i, self.size as int)],
        )
    }
}

impl<T> VariableRingBuffer<T> {
    /// The logical size never exceeds the capacity, and the cursor lies
    /// inside the window.
    #[verifier::type_invariant]
    spec fn inv(&self) -> bool {
        &&& self.size <= self.buffer@.len()
        &&& self.size > 0 ==> self.position < self.size
        &&& self.size == 0 ==> self.position == 0
    }

    /// The backing store, slot by slot.
    pub closed spec fn store(&self) -> Seq<T> {
        self.buffer@
    }

    /// Number of slots in the backing store.
    pub open spec fn capacity(&self) -> nat {
        self.store().len()
    }

    /// The value that a cleared slot holds.
    pub closed spec fn zero(&self) -> T {
        self.zero
    }

    /// The write cursor: the slot of the store that the next `push` fills.
    pub closed spec fn cursor(&self) -> nat {
        self.position as nat
    }

    /// Logical length of the window.
    pub fn size(&self) -> (n: usize)
        ensures
            n == self@.len(),
            n <= self.capacity(),
            n > 0 ==> self.cursor() < n,
            n == 0 ==> self.cursor() == 0,
    {
        proof {
            use_type_invariant(self);
        }
        self.size
    }

    /// Number of slots that the window can grow to.
    pub fn max_size(&self) -> (n: usize)
        ensures
            n == self.capacity(),
    {
        self.buffer.len()
    }
}

impl<T: Copy> VariableRingBuffer<T> {
    /// A buffer of `max_size` slots with a window of `init_size` of them, all
    /// holding `zero`. A window longer than the store is cut to it.
    pub fn new(init_size: usize, max_size: usize, zero: T) -> (ring: Self)
        ensures
            ring@ == cleared(fit(init_size as int, max_size as int) as nat, zero),
            ring.store() == cleared(max_size as nat, zero),
            ring.zero() == zero,
            ring.cursor() == 0,
    {
        let mut buffer: Vec<T> = Vec::with_capacity(max_size);
        while buffer.len() < max_size
            invariant
                buffer@.len() <= max_size,
                forall|i: int| 0 <= i < buffer@.len() ==> buffer@[i] == zero,
            decreases max_size - buffer@.len(),
        {
            buffer.push(zero);
        }
        let size: usize = if init_size <= max_size {
            init_size
        } else {
            max_size
        };
        VariableRingBuffer { buffer, position: 0, size, zero }
    }

    /// Stores `value` at the cursor, in place of the oldest value of the
    /// window, and moves the cursor on by one slot, around the logical size.
    pub fn push(&mut self, value: T)
        requires
            old(self)@.len() > 0,
        ensures
            final(self)@ == slide(old(self)@, value),
            final(self).store() == old(self).store().update(old(self).cursor() as int, value),
            final(self).cursor() == (old(self).cursor() + 1) % old(self)@.len(),
            final(self).cursor() == (if old(self).cursor() + 1 < old(self)@.len() {
                old(self).cursor() + 1
            } else {
                0
            }),
            final(self).zero() == old(self).zero(),
    {
        proof {
            use_type_invariant(&*self);
            if self.position + 1 < self.size {
                lemma_small_mod((self.position + 1) as nat, self.size as nat);
            } else {
                lemma_mod_self_0(self.size as int);
            }
        }
        let at: usize = self.position;
        self.buffer[at] = value;
        self.position = (at + 1) % self.size;
    }

    /// The oldest value of the window: the one that the next `push`
    /// overwrites.
    pub fn oldest(&self) -> (value: T)
        requires
            self@.len() > 0,
        ensures
            value == self@[0],
            value == self.store()[self.cursor() as int],
    {
        proof {
            use_type_invariant(self);
        }
        self.buffer[self.position]
    }

    /// The value `index` places after the oldest one.
    pub fn get(&self, index: usize) -> (value: T)
        requires
            index < self@.len(),
        ensures
            value == self@[index as int],
            value == self.store()[(self.cursor() + index) % (self@.len() as int)],
    {
        proof {
            use_type_invariant(self);
            lemma_window_reads_store(*self, index as int);
        }
        let room: usize = self.size - self.position;
        if index >= room {
            self.buffer[index - room]
        } else {
            self.buffer[self.position + index]
        }
    }

    /// Sets the logical length to `new_size`, cut to the capacity, clears
    /// every slot of the store and puts the cursor back to the first one.
    /// Nothing of the old window survives.
    pub fn resize(&mut self, new_size: usize)
        ensures
            final(self)@ == cleared(
                fit(new_size as int, old(self).capacity() as int) as nat,
                old(self).zero(),
            ),
            forall|i: int| 0 <= i < final(self)@.len() ==> final(self)@[i] == old(self).zero(),
            final(self).store() == cleared(old(self).capacity(), old(self).zero()),
            final(self).cursor() == 0,
            final(self).zero() == old(self).zero(),
    {
        proof {
            use_type_invariant(&*self);
        }
        let capacity: usize = self.buffer.len();
        self.position = 0;
        self.size = if new_size <= capacity {
            new_size
        } else {
            capacity
        };
        let mut i: usize = 0;
        while i < capacity
            invariant
                i <= capacity,
                capacity == self.buffer@.len(),
                self.position == 0,
                self.size == fit(new_size as int, capacity as int),
                self.zero == old(self).zero,
                forall|k: int| 0 <= k < i ==> self.buffer@[k] == self.zero,
            decreases capacity - i,
        {
            self.buffer[i] = self.zero;
            i = i + 1;
        }
    }

    /// Gives the window the length that a level window of `requested` samples
    /// gets. The buffer is reset only where that length differs from the
    /// present one; the result says whether it was.
    pub fn set_window(&mut self, requested: usize) -> (changed: bool)
        ensures
            changed == (old(self)@.len() != window_len(
                requested as int,
                old(self).capacity() as int,
            )),
            final(self)@ == rewindowed(
                old(self)@,
                window_len(requested as int, old(self).capacity() as int),
                old(self).zero(),
            ),
            final(self).store() == (if changed {
                cleared(old(self).capacity(), old(self).zero())
            } else {
                old(self).store()
            }),
            final(self).cursor() == (if changed { 0 } else { old(self).cursor() }),
            final(self).zero() == old(self).zero(),
    {
        let capacity: usize = self.max_size();
        let at_least_one: usize = if requested < 1 {
            1
        } else {
            requested
        };
        let target: usize = if at_least_one <= capacity {
            at_least_one
        } else {
            capacity
        };
        if target != self.size() {
            self.resize(target);
            true
        } else {
            false
        }
    }
}

/// The window is read from the store by starting at the cursor and going
/// around the logical size: the value `index` places after the oldest lies in
/// slot `(cursor + index) mod size`.
pub proof fn lemma_window_reads_store<T>(ring: VariableRingBuffer<T>, index: int)
    requires
        0 <= index < ring@.len(),
        ring.cursor() < ring@.len(),
    ensures
        ring@[index] == ring.store()[(ring.cursor() + index) % (ring@.len() as int)],
{
    let size = ring@.len() as int;
    let at = ring.cursor() + index;
    if at < size {
        lemma_small_mod(at as nat, size as nat);
    } else {
        lemma_mod_add_multiples_vanish(at - size, size);
        lemma_small_mod((at - size) as nat, size as nat);
    }
}

/// Sliding keeps the length of a window that holds at least one value.
pub proof fn lemma_slide_keeps_len<T>(window: Seq<T>, value: T)
    requires
        window.len() > 0,
    ensures
        slide(window, value).len() == window.len(),
        slide(window, value).last() == value,
        forall|i: int| 0 <= i < window.len() - 1 ==> slide(window, value)[i] == window[i + 1],
{
}

/// A window always holds the most recent values: after `values` have entered
/// one by one, the window is the tail, of unchanged length, of the old window
/// followed by `values`.
pub proof fn lemma_window_is_most_recent<T>(window: Seq<T>, values: Seq<T>)
    requires
        window.len() > 0,
    ensures
        slide_all(window, values) == (window + values).skip(values.len() as int),
        slide_all(window, values).len() == window.len(),
    decreases values.len(),
{
    if values.len() > 0 {
        lemma_window_is_most_recent(window, values.drop_last());
    }
}

/// Once a full window of one and the same value has entered, every slot
/// holds that value, whatever the window held before.
pub proof fn lemma_constant_input_fills_window<T>(window: Seq<T>, values: Seq<T>, value: T)
    requires
        window.len() > 0,
        values.len() >= window.len(),
        forall|i: int| 0 <= i < values.len() ==> values[i] == value,
    ensures
        slide_all(window, values) == cleared(window.len(), value),
{
    lemma_window_is_most_recent(window, values);
}

/// After a reset to `requested` slots every slot that can be read holds the
/// zero value: the slots `0` up to the request, as far as the capacity goes.
pub proof fn lemma_reset_reads_zero<T>(requested: nat, capacity: nat, zero: T, index: int)
    requires
        0 <= index < requested,
        index < capacity,
    ensures
        index < cleared(fit(requested as int, capacity as int) as nat, zero).len(),
        cleared(fit(requested as int, capacity as int) as nat, zero)[index] == zero,
{
}

/// The length of a level window lies between one sample and the capacity,
/// and is the request itself where the request lies between them.
pub proof fn lemma_window_len_bounds(requested: int, capacity: int)
    requires
        1 <= capacity,
    ensures
        1 <= window_len(requested, capacity) <= capacity,
        1 <= requested <= capacity ==> window_len(requested, capacity) == requested,
{
}

/// Setting the window length is idempotent: a second request for the same
/// length changes nothing, so what the window has gathered since the first
/// is kept.
pub proof fn lemma_rewindow_twice<T>(window: Seq<T>, len: int, zero: T)
    requires
        0 <= len,
    ensures
        rewindowed(window, len, zero).len() == len,
        rewindowed(rewindowed(window, len, zero), len, zero) == rewindowed(window, len, zero),
{
}

/// Sum of a window of whole numbers.
pub open spec fn total(window: Seq<int>) -> int
    decreases window.len(),
{
    if window.len() == 0 {
        0
    } else {
        total(window.drop_last()) + window.last()
    }
}

/// The sum of a window is its oldest value plus the sum of the others.
proof fn lemma_total_from_oldest(window: Seq<int>)
    requires
        window.len() > 0,
    ensures
        total(window) == window[0] + total(window.drop_first()),
    decreases window.len(),
{
    if window.len() == 1 {
        assert(total(window.drop_last()) == 0);
    } else {
        lemma_total_from_oldest(window.drop_last());
        assert(window.drop_last().drop_first() =~= window.drop_first().drop_last());
    }
}

/// A running sum can follow a window of whole numbers without adding the
/// window up again: when a value enters, the sum changes by that value less
/// the oldest one, which leaves.
pub proof fn lemma_total_follows_slide(window: Seq<int>, value: int)
    requires
        window.len() > 0,
    ensures
        total(slide(window, value)) == total(window) - window[0] + value,
{
    lemma_total_from_oldest(window);
    assert(slide(window, value).drop_last() =~= window.drop_first());
}

/// A window of whole numbers that holds one value in every slot adds up to
/// as many times that value.
pub proof fn lemma_total_of_constant(len: nat, value: int)
    ensures
        total(cleared(len, value)) == len * value,
    decreases len,
{
    let window = cleared(len, value);
    if len == 0 {
        assert(total(window) == 0);
    } else {
        lemma_total_of_constant((len - 1) as nat, value);
        assert(window.drop_last() =~= cleared((len - 1) as nat, value));
        assert(total(window) == total(window.drop_last()) + value);
        assert(len * value == (len - 1) * value + value) by (nonlinear_arith);
    }
}

} // verus!
