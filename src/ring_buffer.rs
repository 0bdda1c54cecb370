//! A fixed-capacity circular store with independent read and write cursors.
use vstd::prelude::*;
use crate::fixed::{FRAC_ONE, lerp, lerp_spec};

verus! {

/// Circular store of values. Both cursors always lie in `[0, capacity)`, or
/// are 0 when the capacity is 0.
#[derive(Clone)]
pub struct RingBuffer<T> {
    buffer: Vec<T>,
    read_ptr: usize,
    write_ptr: usize,
}

/// Every slot of `s` holds the same value.
pub open spec fn uniform<T>(s: Seq<T>) -> bool {
    forall|i: int, j: int| 0 <= i < s.len() && 0 <= j < s.len() ==> s[i] == s[j]
}

/// `x` is a value `T::default()` returns (0 for the integer types).
pub open spec fn is_default<T: Default>(x: T) -> bool {
    call_ensures(T::default, (), x)
}

/// A cursor moved to `index`, taken modulo the capacity `cap` (0 when `cap` is 0).
pub open spec fn wrap(index: int, cap: nat) -> int {
    if cap == 0 {
        0
    } else {
        index % (cap as int)
    }
}

impl<T> View for RingBuffer<T> {
    type V = Seq<T>;

    closed spec fn view(&self) -> Seq<T> {
        self.buffer@
    }
}

impl<T> RingBuffer<T> {
    /// Both cursors lie in `[0, capacity)`, or are 0 when the capacity is 0.
    pub open spec fn wf(&self) -> bool {
        if self.cap() == 0 {
            self.read_pos() == 0 && self.write_pos() == 0
        } else {
            0 <= self.read_pos() < self.cap() && 0 <= self.write_pos() < self.cap()
        }
    }

    /// The read cursor.
    pub closed spec fn read_pos(&self) -> int {
        self.read_ptr as int
    }

    /// The write cursor.
    pub closed spec fn write_pos(&self) -> int {
        self.write_ptr as int
    }

    /// The number of slots.
    pub open spec fn cap(&self) -> nat {
        self@.len()
    }

    /// The value at `offset` taken modulo the capacity.
    pub open spec fn at(&self, offset: int) -> T
        recommends
            self.cap() > 0,
    {
        self@[offset % (self.cap() as int)]
    }

    /// The number of values between the read and the write cursor.
    pub open spec fn len_spec(&self) -> nat {
        wrap(self.write_pos() - self.read_pos(), self.cap()) as nat
    }
}

impl<T: Copy + Default> RingBuffer<T> {
    fn filled(length: usize, value: T) -> (v: Vec<T>)
        ensures
            v@ == Seq::new(length as nat, |i: int| value),
    {
        let mut v: Vec<T> = Vec::new();
        let mut i: usize = 0;
        while i < length
            invariant
                i <= length,
                v@ == Seq::new(i as nat, |k: int| value),
            decreases length - i,
        {
            v.push(value);
            i = i + 1;
            assert(v@ =~= Seq::new(i as nat, |k: int| value));
        }
        v
    }

    /// A buffer of `length` slots, each holding `T::default()`, with both cursors at 0.
    pub fn new(length: usize) -> (r: Self)
        ensures
            r.wf(),
            r.cap() == length,
            uniform(r@),
            forall|i: int| 0 <= i < length ==> is_default(#[trigger] r@[i]),
            r.read_pos() == 0,
            r.write_pos() == 0,
    {
        let d = T::default();
        RingBuffer { buffer: Self::filled(length, d), read_ptr: 0, write_ptr: 0 }
    }

    /// Sets every slot to `T::default()` and both cursors to 0.
    pub fn reset(&mut self)
        requires
            old(self).wf(),
        ensures
            final(self).wf(),
            final(self).cap() == old(self).cap(),
            uniform(final(self)@),
            forall|i: int| 0 <= i < old(self).cap() ==> is_default(#[trigger] final(self)@[i]),
            final(self).read_pos() == 0,
            final(self).write_pos() == 0,
    {
        let d = T::default();
        let n = self.buffer.len();
        self.buffer = Self::filled(n, d);
        self.read_ptr = 0;
        self.write_ptr = 0;
    }

    /// Writes at the write cursor without moving it. Does nothing when the capacity is 0.
    pub fn put(&mut self, value: T)
        requires
            old(self).wf(),
        ensures
            final(self).wf(),
            old(self).cap() == 0 ==> final(self)@ == old(self)@,
            old(self).cap() > 0 ==> final(self)@ == old(self)@.update(old(self).write_pos(), value),
            final(self).read_pos() == old(self).read_pos(),
            final(self).write_pos() == old(self).write_pos(),
    {
        if self.buffer.len() > 0 {
            let w = self.write_ptr;
            self.buffer.set(w, value);
        }
    }

    /// The value at the read cursor, without moving it; `T::default()` when the capacity is 0.
    pub fn peek(&self) -> (r: T)
        requires
            self.wf(),
        ensures
            self.cap() > 0 ==> r == self@[self.read_pos()],
            self.cap() == 0 ==> is_default(r),
    {
        if self.buffer.len() > 0 {
            self.buffer[self.read_ptr]
        } else {
            T::default()
        }
    }

    /// The value at `offset` modulo the capacity; `T::default()` when the capacity is 0.
    pub fn get(&self, offset: usize) -> (r: T)
        ensures
            self.cap() > 0 ==> r == self.at(offset as int),
            self.cap() == 0 ==> is_default(r),
    {
        let n = self.buffer.len();
        if n > 0 {
            self.buffer[offset % n]
        } else {
            T::default()
        }
    }

    /// Writes at the write cursor and moves it one slot on. Does nothing when the capacity is 0.
    pub fn push(&mut self, value: T)
        requires
            old(self).wf(),
        ensures
            final(self).wf(),
            old(self).cap() == 0 ==> *final(self) == *old(self),
            old(self).cap() > 0 ==> final(self)@ == old(self)@.update(old(self).write_pos(), value),
            final(self).read_pos() == old(self).read_pos(),
            final(self).write_pos() == wrap(old(self).write_pos() + 1, old(self).cap()),
    {
        let n = self.buffer.len();
        if n > 0 {
            let w = self.write_ptr;
            self.buffer.set(w, value);
            self.write_ptr = (w + 1) % n;
        }
    }

    /// Reads at the read cursor and moves it one slot on; `T::default()` when the capacity is 0.
    pub fn pop(&mut self) -> (r: T)
        requires
            old(self).wf(),
        ensures
            final(self).wf(),
            final(self)@ == old(self)@,
            final(self).write_pos() == old(self).write_pos(),
            final(self).read_pos() == wrap(old(self).read_pos() + 1, old(self).cap()),
            old(self).cap() > 0 ==> r == old(self)@[old(self).read_pos()],
            old(self).cap() == 0 ==> is_default(r),
    {
        let n = self.buffer.len();
        if n > 0 {
            let r = self.read_ptr;
            let v = self.buffer[r];
            self.read_ptr = (r + 1) % n;
            v
        } else {
            T::default()
        }
    }

    pub fn get_read_index(&self) -> (r: usize)
        requires
            self.wf(),
        ensures
            r == self.read_pos(),
            r == wrap(r as int, self.cap()),
    {
        proof {
            if self.cap() > 0 {
                vstd::arithmetic::div_mod::lemma_small_mod(self.read_ptr as nat, self.cap());
            }
        }
        self.read_ptr
    }

    /// Moves the read cursor to `index` modulo the capacity.
    pub fn set_read_index(&mut self, index: usize)
        requires
            old(self).wf(),
        ensures
            final(self).wf(),
            final(self)@ == old(self)@,
            final(self).write_pos() == old(self).write_pos(),
            final(self).read_pos() == wrap(index as int, old(self).cap()),
    {
        let n = self.buffer.len();
        self.read_ptr = if n > 0 {
            index % n
        } else {
            0
        };
    }

    pub fn get_write_index(&self) -> (r: usize)
        requires
            self.wf(),
        ensures
            r == self.write_pos(),
            r == wrap(r as int, self.cap()),
    {
        proof {
            if self.cap() > 0 {
                vstd::arithmetic::div_mod::lemma_small_mod(self.write_ptr as nat, self.cap());
            }
        }
        self.write_ptr
    }

    /// Moves the write cursor to `index` modulo the capacity.
    pub fn set_write_index(&mut self, index: usize)
        requires
            old(self).wf(),
        ensures
            final(self).wf(),
            final(self)@ == old(self)@,
            final(self).read_pos() == old(self).read_pos(),
            final(self).write_pos() == wrap(index as int, old(self).cap()),
    {
        let n = self.buffer.len();
        self.write_ptr = if n > 0 {
            index % n
        } else {
            0
        };
    }

    /// The number of values written and not yet read.
    pub fn len(&self) -> (r: usize)
        requires
            self.wf(),
        ensures
            r == self.len_spec(),
    {
        let n = self.buffer.len();
        if n == 0 {
            0
        } else if self.write_ptr >= self.read_ptr {
            proof {
                vstd::arithmetic::div_mod::lemma_small_mod(
                    (self.write_ptr - self.read_ptr) as nat,
                    n as nat,
                );
            }
            self.write_ptr - self.read_ptr
        } else {
            proof {
                let d = self.write_ptr - self.read_ptr;
                vstd::arithmetic::div_mod::lemma_small_mod((d + n) as nat, n as nat);
                vstd::arithmetic::div_mod::lemma_mod_add_multiples_vanish(d, n as int);
            }
            n - (self.read_ptr - self.write_ptr)
        }
    }

    /// The number of slots.
    pub fn capacity(&self) -> (r: usize)
        ensures
            r == self.cap(),
    {
        self.buffer.len()
    }

    /// Changes the number of slots to `new_size`: the first slots keep their values and
    /// new ones hold `value`. Each cursor is taken modulo the new capacity.
    pub fn resize(&mut self, new_size: usize, value: T)
        requires
            old(self).wf(),
        ensures
            final(self).wf(),
            new_size <= old(self).cap() ==> final(self)@ == old(self)@.subrange(0, new_size as int),
            new_size > old(self).cap() ==> final(self)@ == old(self)@ + Seq::new(
                (new_size - old(self).cap()) as nat,
                |i: int| value,
            ),
            final(self).read_pos() == wrap(old(self).read_pos(), new_size as nat),
            final(self).write_pos() == wrap(old(self).write_pos(), new_size as nat),
    {
        let n = self.buffer.len();
        if new_size <= n {
            self.buffer.truncate(new_size);
        } else {
            let mut i: usize = n;
            while i < new_size
                invariant
                    n <= i <= new_size,
                    self.read_ptr == old(self).read_ptr,
                    self.write_ptr == old(self).write_ptr,
                    self.buffer@ == old(self)@ + Seq::new((i - n) as nat, |k: int| value),
                decreases new_size - i,
            {
                self.buffer.push(value);
                i = i + 1;
                assert(self.buffer@ =~= old(self)@ + Seq::new((i - n) as nat, |k: int| value));
            }
        }
        if new_size > 0 {
            self.read_ptr = self.read_ptr % new_size;
            self.write_ptr = self.write_ptr % new_size;
        } else {
            self.read_ptr = 0;
            self.write_ptr = 0;
        }
    }
}

impl RingBuffer<i32> {
    /// The value at the Q16 position `offset` counted from slot 0, interpolated between the
    /// two slots around it.
    pub open spec fn frac_at(&self, offset: int) -> int
        recommends
            self.cap() > 0,
    {
        let k = offset / (FRAC_ONE as int);
        lerp_spec(self.at(k) as int, self.at(k + 1) as int, offset % (FRAC_ONE as int))
    }

    /// How many slots back from the write cursor a lookback of `offset` starts: the whole
    /// part of `offset`, and two more when it has a fractional part.
    pub open spec fn lookback(offset: int) -> int {
        offset / (FRAC_ONE as int) + if offset % (FRAC_ONE as int) != 0 {
            2int
        } else {
            0int
        }
    }

    /// The value `offset` (Q16) behind the write cursor, interpolated between two slots.
    pub open spec fn back_at(&self, offset: int) -> int
        recommends
            self.cap() > 0,
    {
        let start = self.write_pos() - Self::lookback(offset);
        lerp_spec(self.at(start) as int, self.at(start + 1) as int, offset % (FRAC_ONE as int))
    }

    /// The slots `i % cap` and `(i + 1) % cap`, for `i` already reduced modulo `cap`.
    fn pair_at(&self, i: u64) -> (r: (i32, i32))
        requires
            self.cap() > 0,
            i < self.cap(),
        ensures
            r.0 == self.at(i as int),
            r.1 == self.at(i + 1),
    {
        let n = self.buffer.len() as u64;
        let j = (i + 1) % n;
        proof {
            vstd::arithmetic::div_mod::lemma_small_mod(i as nat, n as nat);
        }
        (self.buffer[i as usize], self.buffer[j as usize])
    }

    /// The value at the Q16 position `offset` counted from slot 0, interpolated linearly
    /// between the slots on either side; 0 when the capacity is 0.
    pub fn get_frac(&self, offset: u64) -> (r: i32)
        ensures
            self.cap() > 0 ==> r == self.frac_at(offset as int),
            self.cap() == 0 ==> r == 0,
    {
        let n = self.buffer.len() as u64;
        if n == 0 {
            return 0;
        }
        let k = offset / FRAC_ONE;
        let frac = offset % FRAC_ONE;
        let i = k % n;
        let (a, b) = self.pair_at(i);
        proof {
            vstd::arithmetic::div_mod::lemma_add_mod_noop(k as int, 1, n as int);
            vstd::arithmetic::div_mod::lemma_add_mod_noop(i as int, 1, n as int);
            vstd::arithmetic::div_mod::lemma_mod_twice(k as int, n as int);
        }
        lerp(a, b, frac)
    }

    /// The value `offset` (Q16) behind the write cursor, interpolated linearly; the cursors
    /// do not move. 0 when the capacity is 0.
    pub fn pop_frac(&self, offset: u64) -> (r: i32)
        requires
            self.wf(),
        ensures
            self.cap() > 0 ==> r == self.back_at(offset as int),
            self.cap() == 0 ==> r == 0,
    {
        let n = self.buffer.len() as u64;
        if n == 0 {
            return 0;
        }
        let k = offset / FRAC_ONE;
        let frac = offset % FRAC_ONE;
        let extra: u64 = if frac != 0 {
            2
        } else {
            0
        };
        let wide = n as u128;
        let back = (((k % n) as u128 + (extra % n) as u128) % wide) as u64;
        let w = self.write_ptr as u64;
        let start = ((w as u128 + wide - back as u128) % wide) as u64;
        let (a, b) = self.pair_at(start);
        proof {
            let ni = n as int;
            let lb = Self::lookback(offset as int);
            assert(lb == k + extra);
            vstd::arithmetic::div_mod::lemma_add_mod_noop(k as int, extra as int, ni);
            assert(back == lb % ni);
            vstd::arithmetic::div_mod::lemma_mod_add_multiples_vanish(w - back, ni);
            vstd::arithmetic::div_mod::lemma_sub_mod_noop_right(w as int, lb, ni);
            assert(start == (w - lb) % ni);
            vstd::arithmetic::div_mod::lemma_mod_twice(w - lb, ni);
            vstd::arithmetic::div_mod::lemma_add_mod_noop(w - lb, 1, ni);
            vstd::arithmetic::div_mod::lemma_add_mod_noop(start as int, 1, ni);
        }
        lerp(a, b, frac)
    }
}

/// Reading a whole-sample position with interpolation gives exactly the integer read:
/// `get_frac(n * FRAC_ONE) == get(n)`.
pub proof fn lemma_get_frac_whole(buf: &RingBuffer<i32>, n: nat)
    requires
        buf.cap() > 0,
    ensures
        buf.frac_at(n * FRAC_ONE) == buf.at(n as int),
{
    let x = n * FRAC_ONE;
    vstd::arithmetic::div_mod::lemma_div_by_multiple(n as int, FRAC_ONE as int);
    vstd::arithmetic::div_mod::lemma_mod_multiples_basic(n as int, FRAC_ONE as int);
}

/// A lookback of zero reads the slot under the write cursor.
pub proof fn lemma_pop_frac_zero(buf: &RingBuffer<i32>)
    requires
        buf.wf(),
        buf.cap() > 0,
    ensures
        buf.back_at(0) == buf@[buf.write_pos()],
{
    vstd::arithmetic::div_mod::lemma_small_mod(buf.write_pos() as nat, buf.cap());
}

/// Integer reads are periodic in the capacity: `get(offset) == get(offset + capacity)`.
pub proof fn lemma_get_periodic<T>(buf: &RingBuffer<T>, offset: int)
    requires
        buf.cap() > 0,
    ensures
        buf.at(offset) == buf.at(offset + buf.cap()),
{
    vstd::arithmetic::div_mod::lemma_mod_add_multiples_vanish(offset, buf.cap() as int);
}

} // verus!
