use std::collections::VecDeque;
use vstd::prelude::*;

verus! {

/// Capacity that a buffer of capacity `cap` grows to when it is full:
/// one slot for an empty buffer, twice as many otherwise.
pub open spec fn grown_cap(cap: nat) -> nat {
    if cap == 0 {
        1
    } else {
        2 * cap
    }
}

/// Whether an array of `n` values of type `T` has a layout whose size stays
/// below `isize::MAX` bytes, the bound under which the buffer may allocate.
pub open spec fn array_fits<T>(n: nat) -> bool {
    n * vstd::layout::size_of::<T>() < isize::MAX
}

/// Whether `c` is a power of two.
pub open spec fn is_power_of_two(c: nat) -> bool
    decreases c,
{
    if c == 1 {
        true
    } else if c >= 2 && c % 2 == 0 {
        is_power_of_two(c / 2)
    } else {
        false
    }
}

/// The capacities a buffer can have: none reserved, or a power of two.
pub open spec fn valid_capacity(c: nat) -> bool {
    c == 0 || is_power_of_two(c)
}

/// Capacity after one more value is stored in a buffer holding `len` values
/// in `cap` slots: the buffer grows only when it is full.
pub open spec fn cap_after_insert(len: nat, cap: nat) -> nat {
    if len == cap {
        grown_cap(cap)
    } else {
        cap
    }
}

/// Whether one more value can be stored in a buffer holding `len` values in
/// `cap` slots without exceeding the allocation bound.
pub open spec fn can_store_one_more<T>(len: nat, cap: nat) -> bool {
    len < cap || array_fits::<T>(grown_cap(cap))
}

/// The result of taking the last value of `s`: what is left, and the value.
pub open spec fn pop_last<T>(s: Seq<T>) -> (Seq<T>, Option<T>) {
    if s.len() == 0 {
        (s, None)
    } else {
        (s.drop_last(), Some(s.last()))
    }
}

/// The result of taking the first value of `s`: what is left, and the value.
pub open spec fn pop_first<T>(s: Seq<T>) -> (Seq<T>, Option<T>) {
    if s.len() == 0 {
        (s, None)
    } else {
        (s.drop_first(), Some(s.first()))
    }
}

/// Growing keeps the capacity valid.
proof fn lemma_grown_cap_valid(c: nat)
    requires
        valid_capacity(c),
    ensures
        valid_capacity(grown_cap(c)),
        grown_cap(c) > c,
{
    if c > 0 {
        assert((2 * c) / 2 == c);
        assert(is_power_of_two(2 * c));
    }
}

/// The backing buffer: the slots in use and the number of slots reserved.
#[derive(Debug)]
struct RawVec<T> {
    slots: Vec<T>,
    cap: usize,
}

impl<T> RawVec<T> {
    spec fn wf(&self) -> bool {
        &&& self.slots@.len() <= self.cap
        &&& valid_capacity(self.cap as nat)
    }

    fn new() -> (r: Self)
        ensures
            r.wf(),
            r.slots@ == Seq::<T>::empty(),
            r.cap == 0,
    {
        RawVec { slots: Vec::new(), cap: 0 }
    }

    /// Reserves room for twice as many values (one for an empty buffer).
    fn grow(&mut self)
        requires
            old(self).wf(),
            vstd::layout::size_of::<T>() > 0,
            array_fits::<T>(grown_cap(old(self).cap as nat)),
        ensures
            final(self).wf(),
            final(self).slots@ == old(self).slots@,
            final(self).cap == grown_cap(old(self).cap as nat),
    {
        proof {
            lemma_grown_cap_valid(self.cap as nat);
        }
        let new_cap: usize = if self.cap == 0 {
            1
        } else {
            proof {
                let c = self.cap as int;
                let sz = vstd::layout::size_of::<T>() as int;
                assert(2 * c <= 2 * c * sz) by (nonlinear_arith)
                    requires
                        sz >= 1,
                        c >= 0,
                ;
            }
            self.cap * 2
        };
        let additional: usize = new_cap - self.slots.len();
        self.slots.reserve(additional);
        self.cap = new_cap;
    }
}

/// A growable array of values of type `T`.
#[derive(Debug)]
pub struct MyVec<T> {
    buf: RawVec<T>,
    len: usize,
}

impl<T> View for MyVec<T> {
    type V = Seq<T>;

    closed spec fn view(&self) -> Seq<T> {
        self.buf.slots@
    }
}

impl<T> MyVec<T> {
    /// The vector's internal invariant: the length matches the stored values
    /// and never exceeds the capacity.
    pub closed spec fn well_formed(&self) -> bool {
        &&& self.buf.wf()
        &&& self.len == self.buf.slots@.len()
        &&& vstd::layout::size_of::<T>() > 0
    }

    /// The capacity the vector counts: the number of slots it has asked the
    /// allocator to hold (the allocation itself may be larger).
    pub closed spec fn capacity(&self) -> nat {
        self.buf.cap as nat
    }

    /// An empty vector with no slot reserved. Zero-sized element types are
    /// not handled.
    pub fn new() -> (r: Self)
        requires
            vstd::layout::size_of::<T>() != 0,
        ensures
            r.well_formed(),
            r@ == Seq::<T>::empty(),
            r.capacity() == 0,
    {
        MyVec { buf: RawVec::new(), len: 0 }
    }

    /// The capacity the vector counts (see [`MyVec::capacity`]).
    pub fn cap(&self) -> (r: usize)
        ensures
            r == self.capacity(),
    {
        self.buf.cap
    }

    /// Appends `elem` at the end, doubling the capacity first when the
    /// vector is full.
    pub fn push(&mut self, elem: T)
        requires
            old(self).well_formed(),
            can_store_one_more::<T>(old(self)@.len(), old(self).capacity()),
        ensures
            final(self).well_formed(),
            final(self)@ == old(self)@.push(elem),
            final(self).capacity() == cap_after_insert(old(self)@.len(), old(self).capacity()),
    {
        if self.buf.cap == self.len {
            self.buf.grow();
        }
        self.buf.slots.push(elem);
        self.len = self.len + 1;
    }

    /// Removes and returns the last value, or `None` when the vector is empty.
    pub fn pop(&mut self) -> (r: Option<T>)
        requires
            old(self).well_formed(),
        ensures
            final(self).well_formed(),
            (final(self)@, r) == pop_last(old(self)@),
            final(self).capacity() == old(self).capacity(),
    {
        if self.len == 0 {
            None
        } else {
            self.len = self.len - 1;
            self.buf.slots.pop()
        }
    }

    /// Inserts `elem` at position `index`, shifting the later values one
    /// place towards the end; the capacity doubles first when the vector is full.
    pub fn insert(&mut self, index: usize, elem: T)
        requires
            old(self).well_formed(),
            index <= old(self)@.len(),
            can_store_one_more::<T>(old(self)@.len(), old(self).capacity()),
        ensures
            final(self).well_formed(),
            final(self)@ == old(self)@.insert(index as int, elem),
            final(self).capacity() == cap_after_insert(old(self)@.len(), old(self).capacity()),
    {
        if self.len == self.buf.cap {
            self.buf.grow();
        }
        self.buf.slots.insert(index, elem);
        self.len = self.len + 1;
    }

    /// Removes and returns the value at position `index`, shifting the later
    /// values one place towards the front.
    pub fn remove(&mut self, index: usize) -> (r: T)
        requires
            old(self).well_formed(),
            index < old(self)@.len(),
        ensures
            final(self).well_formed(),
            r == old(self)@[index as int],
            final(self)@ == old(self)@.remove(index as int),
            final(self).capacity() == old(self).capacity(),
    {
        self.len = self.len - 1;
        self.buf.slots.remove(index)
    }
}

/// Taking the last value right after a push gives back the pushed value and
/// the values from before the push.
pub proof fn law_pop_undoes_push<T>(s: Seq<T>, x: T)
    ensures
        pop_last(s.push(x)) == (s, Some(x)),
{
    assert(s.push(x).drop_last() =~= s);
}

/// Removing at the position of an insertion right after it gives back the
/// inserted value and the values from before the insertion.
pub proof fn law_remove_undoes_insert<T>(s: Seq<T>, index: int, x: T)
    requires
        0 <= index <= s.len(),
    ensures
        s.insert(index, x)[index] == x,
        s.insert(index, x).remove(index) == s,
{
    assert(s.insert(index, x).remove(index) =~= s);
}

/// A well-formed vector never holds more values than it has slots, and its
/// capacity is zero or a power of two.
pub proof fn law_capacity_bounds<T>(v: &MyVec<T>)
    requires
        v.well_formed(),
    ensures
        v@.len() <= v.capacity(),
        valid_capacity(v.capacity()),
{
}

/// Storing one more value leaves room for it and keeps the capacity zero or a
/// power of two; the capacity changes only when the buffer was full.
pub proof fn law_growth_keeps_room<T>(len: nat, cap: nat)
    requires
        len <= cap,
        valid_capacity(cap),
    ensures
        len + 1 <= cap_after_insert(len, cap),
        valid_capacity(cap_after_insert(len, cap)),
        len < cap ==> cap_after_insert(len, cap) == cap,
{
    lemma_grown_cap_valid(cap);
}

/// Handing out values from the front and from the back meet in the middle:
/// on a single remaining value both ends give that value and leave nothing.
pub proof fn law_ends_meet<T>(x: T)
    ensures
        pop_first(seq![x]) == (Seq::<T>::empty(), Some(x)),
        pop_last(seq![x]) == (Seq::<T>::empty(), Some(x)),
{
    assert(seq![x].drop_first() =~= Seq::<T>::empty());
    assert(seq![x].drop_last() =~= Seq::<T>::empty());
}

/// What a run of calls on an iterator has done: the values still held, the
/// values handed out from the front and from the back (each in the order they
/// came out), and the answer of every call.
pub struct EndsRun<T> {
    pub rest: Seq<T>,
    pub front: Seq<T>,
    pub back: Seq<T>,
    pub answers: Seq<Option<T>>,
}

/// The effect of a run of calls on an iterator holding `s`: `from_back[i]` is
/// whether call `i` takes from the back (`next_back`) or the front (`next`).
pub open spec fn run_ends<T>(s: Seq<T>, from_back: Seq<bool>) -> EndsRun<T>
    decreases from_back.len(),
{
    if from_back.len() == 0 {
        EndsRun { rest: s, front: Seq::empty(), back: Seq::empty(), answers: Seq::empty() }
    } else {
        let taken = if from_back[0] {
            pop_last(s)
        } else {
            pop_first(s)
        };
        let later = run_ends(taken.0, from_back.drop_first());
        let front = if !from_back[0] && taken.1 is Some {
            seq![taken.1->0] + later.front
        } else {
            later.front
        };
        let back = if from_back[0] && taken.1 is Some {
            seq![taken.1->0] + later.back
        } else {
            later.back
        };
        EndsRun { rest: later.rest, front, back, answers: seq![taken.1] + later.answers }
    }
}

/// Calls taken from the front only.
pub open spec fn front_calls(n: nat) -> Seq<bool> {
    Seq::new(n, |i: int| false)
}

/// Any mix of calls from both ends hands out a prefix of the values, in order,
/// from the front and a suffix, in reverse order, from the back: no value comes
/// out twice, and those handed out and those left make up the values.
pub proof fn law_ends_split_values<T>(s: Seq<T>, from_back: Seq<bool>)
    ensures
        s == run_ends(s, from_back).front + run_ends(s, from_back).rest + run_ends(
            s,
            from_back,
        ).back.reverse(),
        run_ends(s, from_back).answers.len() == from_back.len(),
    decreases from_back.len(),
{
    if from_back.len() > 0 {
        let taken = if from_back[0] {
            pop_last(s)
        } else {
            pop_first(s)
        };
        law_ends_split_values(taken.0, from_back.drop_first());
        let later = run_ends(taken.0, from_back.drop_first());
        let r = run_ends(s, from_back);
        if s.len() > 0 {
            if from_back[0] {
                assert(r.front == later.front && r.rest == later.rest);
                assert(r.back == seq![s.last()] + later.back);
                assert(r.back.reverse() =~= later.back.reverse().push(s.last()));
                assert(s =~= s.drop_last().push(s.last()));
                assert(s =~= r.front + r.rest + r.back.reverse());
            } else {
                assert(r.back == later.back && r.rest == later.rest);
                assert(r.front == seq![s.first()] + later.front);
                assert(s =~= seq![s.first()] + s.drop_first());
                assert(s =~= r.front + r.rest + r.back.reverse());
            }
        }
    }
}

/// Calling only `next` until the values run out hands out every value once,
/// in order, and every further call answers `None`.
pub proof fn law_draining_front<T>(s: Seq<T>, extra: nat)
    ensures
        run_ends(s, front_calls(s.len() + extra)).rest == Seq::<T>::empty(),
        run_ends(s, front_calls(s.len() + extra)).front == s,
        run_ends(s, front_calls(s.len() + extra)).answers == s.map_values(|x: T| Some(x))
            + Seq::new(extra, |i: int| None::<T>),
    decreases s.len() + extra,
{
    let calls = front_calls(s.len() + extra);
    let r = run_ends(s, calls);
    if s.len() + extra > 0 {
        assert(calls.drop_first() =~= front_calls((s.len() + extra - 1) as nat));
        if s.len() > 0 {
            let t = s.drop_first();
            assert(t.len() + extra == s.len() + extra - 1);
            law_draining_front(t, extra);
            assert(r.front =~= s);
            assert(r.answers =~= s.map_values(|x: T| Some(x)) + Seq::new(extra, |i: int| None::<T>));
        } else {
            law_draining_front(s, (extra - 1) as nat);
            assert(r.answers =~= s.map_values(|x: T| Some(x)) + Seq::new(extra, |i: int| None::<T>));
        }
    } else {
        assert(r.answers =~= s.map_values(|x: T| Some(x)) + Seq::new(extra, |i: int| None::<T>));
    }
}

/// Capacity after `n` pushes on an empty vector.
pub open spec fn cap_after_pushes(n: nat) -> nat
    decreases n,
{
    if n == 0 {
        0
    } else {
        cap_after_insert((n - 1) as nat, cap_after_pushes((n - 1) as nat))
    }
}

/// A vector that got its capacity from pushes on an empty vector keeps that
/// shape after one more push: `new` gives `cap_after_pushes(0)`, and each
/// push carries `cap_after_pushes(len)` to `cap_after_pushes(len + 1)`.
pub proof fn law_push_follows_pushes(len: nat)
    ensures
        cap_after_pushes(0) == 0,
        cap_after_insert(len, cap_after_pushes(len)) == cap_after_pushes(len + 1),
{
}

/// After `n >= 1` pushes on an empty vector the capacity is the smallest power
/// of two that holds `n` values, so less than twice `n`.
pub proof fn law_capacity_after_pushes(n: nat)
    requires
        n >= 1,
    ensures
        is_power_of_two(cap_after_pushes(n)),
        n <= cap_after_pushes(n) < 2 * n,
    decreases n,
{
    if n == 1 {
        assert(cap_after_pushes(0) == 0);
    } else {
        let m = (n - 1) as nat;
        law_capacity_after_pushes(m);
        lemma_grown_cap_valid(cap_after_pushes(m));
    }
}

impl<T> core::ops::Deref for MyVec<T> {
    type Target = [T];

    /// The stored values, in order, as a slice.
    fn deref(&self) -> (r: &[T])
        ensures
            r@ == self@,
    {
        self.buf.slots.as_slice()
    }
}

impl<T> core::ops::DerefMut for MyVec<T> {
    /// The stored values, in order, as a mutable slice; what is written
    /// through it is what the vector then holds.
    fn deref_mut(&mut self) -> (r: &mut [T])
        ensures
            r@ == old(self)@,
            final(self)@ == final(r)@,
            final(self).capacity() == old(self).capacity(),
            old(self).well_formed() && final(r)@.len() == r@.len() ==> final(self).well_formed(),
    {
        self.buf.slots.as_mut_slice()
    }
}

impl<T> MyVec<T> {
    /// Turns the vector into an iterator over its values, from first to last.
    pub fn into_iter(self) -> (it: IntoIter<T>)
        ensures
            it@ == self@,
    {
        let rest = deque_from_vec(self.buf.slots);
        IntoIter { rest }
    }
}

/// `VecDeque::from` on a `Vec`: the same values in the same order. std
/// documents that this takes over the vector's buffer in constant time,
/// without reallocating it; that is not stated here.
#[verifier::external_body]
fn deque_from_vec<T>(v: Vec<T>) -> (r: VecDeque<T>)
    ensures
        r@ == v@,
{
    VecDeque::from(v)
}

/// An iterator that owns the values of a vector and hands them out from
/// either end.
pub struct IntoIter<T> {
    rest: VecDeque<T>,
}

impl<T> View for IntoIter<T> {
    type V = Seq<T>;

    /// The values not handed out yet, in order.
    closed spec fn view(&self) -> Seq<T> {
        self.rest@
    }
}

impl<T> IntoIter<T> {
    /// Hands out the first value not handed out yet.
    pub fn next(&mut self) -> (r: Option<T>)
        ensures
            (final(self)@, r) == pop_first(old(self)@),
    {
        self.rest.pop_front()
    }

    /// Hands out the last value not handed out yet.
    pub fn next_back(&mut self) -> (r: Option<T>)
        ensures
            (final(self)@, r) == pop_last(old(self)@),
    {
        self.rest.pop_back()
    }
}

} // verus!
