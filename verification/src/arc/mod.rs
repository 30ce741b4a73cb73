use std::sync::atomic::AtomicUsize;
use std::sync::Arc;
use vstd::prelude::*;

verus! {

/// The shared allocation: the number of owners and the value they share.
struct InnerArc<T> {
    count: AtomicUsize,
    data: T,
}

/// A pointer to a value shared by several owners, with its own count of
/// owners kept in the shared allocation.
pub struct MyArc<T> {
    ptr: Arc<InnerArc<T>>,
}

impl<T> View for MyArc<T> {
    type V = T;

    /// The shared value.
    closed spec fn view(&self) -> T {
        self.ptr.data
    }
}

/// What cloning does, given the owner count read before the clone.
pub enum CloneStep {
    /// The clone goes ahead; the count becomes the given number.
    Share(usize),
    /// The count is too large to go on: counting one more owner could wrap it
    /// around, so the process is to stop instead.
    Abort,
}

/// The step taken when an owner with the count `old_count` clones the
/// pointer: go on with one more owner, or stop before the count could wrap.
pub open spec fn clone_outcome(old_count: usize) -> CloneStep {
    if old_count >= isize::MAX {
        CloneStep::Abort
    } else {
        CloneStep::Share((old_count + 1) as usize)
    }
}

/// Decides what a clone does, given the owner count read before it.
pub fn clone_step(old_count: usize) -> (r: CloneStep)
    ensures
        r == clone_outcome(old_count),
{
    if old_count >= isize::MAX as usize {
        CloneStep::Abort
    } else {
        CloneStep::Share(old_count + 1)
    }
}

/// Whether an owner that releases the pointer when the count read `old_count`
/// was the last one, which frees the shared value.
pub open spec fn is_last_owner(old_count: usize) -> bool {
    old_count == 1
}

/// Decides whether releasing an owner frees the shared value, given the owner
/// count read before the release.
pub fn release_step(old_count: usize) -> (last: bool)
    ensures
        last == is_last_owner(old_count),
{
    old_count == 1
}

/// A clone stops only when the count read before it has reached
/// `isize::MAX`; otherwise it counts exactly one more owner.
pub proof fn law_clone_aborts_only_at_limit(old_count: usize)
    ensures
        (clone_outcome(old_count) is Abort) <==> old_count >= isize::MAX,
        old_count < isize::MAX ==> clone_outcome(old_count) == CloneStep::Share(
            (old_count + 1) as usize,
        ),
{
}

/// Releasing right after a clone by a live owner never frees the shared value,
/// while the release by the only owner does.
pub proof fn law_release_after_clone_keeps_value(old_count: usize)
    requires
        1 <= old_count < isize::MAX,
    ensures
        clone_outcome(old_count) == CloneStep::Share((old_count + 1) as usize),
        !is_last_owner((old_count + 1) as usize),
        is_last_owner(1),
{
}

/// One step taken by an owner of a shared allocation.
pub enum OwnerEvent {
    /// The owner clones its pointer.
    Clone,
    /// The owner gives its pointer up.
    Release,
}

/// The number of owners after `events`, starting from `owners`: a clone adds
/// one, a release takes one away.
pub open spec fn owners_after(owners: int, events: Seq<OwnerEvent>) -> int
    decreases events.len(),
{
    if events.len() == 0 {
        owners
    } else {
        let next = if events[0] is Clone {
            owners + 1
        } else {
            owners - 1
        };
        owners_after(next, events.drop_first())
    }
}

/// The count at the end of a replay, and per event whether it was a release
/// that reported the last owner.
pub struct CountReplay {
    pub count: usize,
    pub last_reports: Seq<bool>,
}

/// The count kept in the shared allocation, replayed through `events` with
/// the decisions [`clone_step`] and [`release_step`] take on the count read
/// before each step: the final count and, per event, whether it was a release
/// that reported the last owner. `None` where a clone stops.
pub open spec fn replay_count(count: usize, events: Seq<OwnerEvent>) -> Option<CountReplay>
    decreases events.len(),
{
    if events.len() == 0 {
        Some(CountReplay { count, last_reports: Seq::empty() })
    } else if events[0] is Clone {
        match clone_outcome(count) {
            CloneStep::Abort => None,
            CloneStep::Share(next) => match replay_count(next, events.drop_first()) {
                Some(r) => Some(
                    CountReplay { count: r.count, last_reports: seq![false] + r.last_reports },
                ),
                None => None,
            },
        }
    } else {
        match replay_count((count - 1) as usize, events.drop_first()) {
            Some(r) => Some(
                CountReplay {
                    count: r.count,
                    last_reports: seq![is_last_owner(count)] + r.last_reports,
                },
            ),
            None => None,
        }
    }
}

/// The count decisions keep the count equal to the number of owners: when
/// every step is taken by a live owner and the owners stay below `isize::MAX`,
/// no clone stops, the count ends at the number of owners left, and a release
/// reports the last owner exactly when it is taken by the only owner left.
pub proof fn law_count_tracks_owners(owners: usize, events: Seq<OwnerEvent>)
    requires
        forall|i: int|
            0 <= i < events.len() ==> 1 <= #[trigger] owners_after(owners as int, events.take(i))
                < isize::MAX,
    ensures
        replay_count(owners, events) is Some,
        replay_count(owners, events)->0.count == owners_after(owners as int, events),
        replay_count(owners, events)->0.last_reports.len() == events.len(),
        forall|i: int|
            0 <= i < events.len() ==> #[trigger] replay_count(owners, events)->0.last_reports[i] == (
            events[i] is Release && owners_after(owners as int, events.take(i)) == 1),
    decreases events.len(),
{
    if events.len() > 0 {
        let rest = events.drop_first();
        assert(events.take(0) =~= Seq::<OwnerEvent>::empty());
        assert(owners_after(owners as int, events.take(0)) == owners);
        let next: usize = if events[0] is Clone {
            (owners + 1) as usize
        } else {
            (owners - 1) as usize
        };
        assert forall|i: int| 0 <= i < rest.len() implies 1 <= #[trigger] owners_after(
            next as int,
            rest.take(i),
        ) < isize::MAX by {
            assert(events.take(i + 1).drop_first() =~= rest.take(i));
            assert(events.take(i + 1)[0] == events[0]);
            assert(owners_after(owners as int, events.take(i + 1)) == owners_after(
                next as int,
                rest.take(i),
            ));
        }
        law_count_tracks_owners(next, rest);
        assert(events.drop_first() == rest);
        assert(owners_after(owners as int, events) == owners_after(next as int, rest));
        let r = replay_count(owners, events);
        let later = replay_count(next, rest);
        assert(r is Some);
        assert forall|i: int| 0 <= i < events.len() implies #[trigger] r->0.last_reports[i] == (
        events[i] is Release && owners_after(owners as int, events.take(i)) == 1) by {
            if i > 0 {
                assert(events.take(i).drop_first() =~= rest.take(i - 1));
                assert(events.take(i)[0] == events[0]);
                assert(owners_after(owners as int, events.take(i)) == owners_after(
                    next as int,
                    rest.take(i - 1),
                ));
                assert(r->0.last_reports[i] == later->0.last_reports[i - 1]);
                assert(rest[i - 1] == events[i]);
            }
        }
    }
}

/// The first `k` handles of a clone chain all hold `v`.
proof fn lemma_clone_chain_prefix<T>(handles: Seq<MyArc<T>>, from: Seq<int>, v: T, k: int)
    requires
        0 < k <= handles.len(),
        handles[0]@ == v,
        from.len() == handles.len(),
        forall|i: int|
            1 <= i < handles.len() ==> 0 <= #[trigger] from[i] < i && handles[i]@ == handles[from[i]]@,
    ensures
        forall|i: int| 0 <= i < k ==> #[trigger] handles[i]@ == v,
    decreases k,
{
    if k > 1 {
        lemma_clone_chain_prefix(handles, from, v, k - 1);
        assert(0 <= from[k - 1] < k - 1);
        assert(handles[from[k - 1]]@ == v);
    }
}

/// Every handle reached from `MyArc::new(v)` by clones holds `v`: `handles[0]`
/// is the handle made by `new`, and each later `handles[i]` is a clone taken
/// from the earlier handle `handles[from[i]]`.
pub proof fn law_clones_hold_new_value<T>(handles: Seq<MyArc<T>>, from: Seq<int>, v: T)
    requires
        handles.len() > 0,
        handles[0]@ == v,
        from.len() == handles.len(),
        forall|i: int|
            1 <= i < handles.len() ==> 0 <= #[trigger] from[i] < i && handles[i]@ == handles[from[i]]@,
    ensures
        forall|i: int| 0 <= i < handles.len() ==> #[trigger] handles[i]@ == v,
{
    lemma_clone_chain_prefix(handles, from, v, handles.len() as int);
}

/// `std::sync::Arc::clone`: a second handle to the same allocation, whose
/// value is the same value.
#[verifier::external_body]
fn share_allocation<T>(a: &Arc<InnerArc<T>>) -> (r: Arc<InnerArc<T>>)
    ensures
        r.data == a.data,
{
    Arc::clone(a)
}

impl<T> MyArc<T> {
    /// Puts `data` in a new shared allocation with one owner.
    pub fn new(data: T) -> (r: Self)
        ensures
            r@ == data,
    {
        MyArc { ptr: Arc::new(InnerArc { count: AtomicUsize::new(1), data }) }
    }

    /// Adds an owner: counts it in the shared allocation and returns a new
    /// pointer to the same value, or `None` where the count read before was
    /// too large ([`clone_step`] gives `Abort`); the count is then put back.
    pub fn try_clone(&self) -> (r: Option<MyArc<T>>)
        ensures
            r matches Some(c) ==> c@ == self@,
    {
        let old_count = self.ptr.count.fetch_add(1, std::sync::atomic::Ordering::Relaxed);
        self.clone_after_count(old_count)
    }

    /// What follows the count's increment in a clone: a new pointer to the
    /// same value exactly where [`clone_step`] lets the clone go on; otherwise
    /// the increment is undone and there is no new pointer.
    fn clone_after_count(&self, old_count: usize) -> (r: Option<MyArc<T>>)
        ensures
            r is Some <==> clone_outcome(old_count) is Share,
            r matches Some(c) ==> c@ == self@,
    {
        match clone_step(old_count) {
            CloneStep::Abort => {
                self.ptr.count.fetch_sub(1, std::sync::atomic::Ordering::Relaxed);
                None
            },
            CloneStep::Share(_) => Some(MyArc { ptr: share_allocation(&self.ptr) }),
        }
    }

    /// Gives up this owner: uncounts it, and returns whether it was the last
    /// one ([`release_step`] on the count read before), in which case the
    /// shared value is freed with it. Only owners given up through this method
    /// are uncounted: a pointer dropped without it stays counted, and the
    /// release of the real last pointer then answers `false` (the value is
    /// still freed with that last pointer).
    pub fn release(self) -> (last: bool) {
        let old_count = self.ptr.count.fetch_sub(1, std::sync::atomic::Ordering::Release);
        release_step(old_count)
    }
}

impl<T> core::ops::Deref for MyArc<T> {
    type Target = T;

    /// The shared value.
    fn deref(&self) -> (r: &T)
        ensures
            *r == self@,
    {
        &self.ptr.data
    }
}

} // verus!
