//! A guild's queue of tracks.
//!
//! The queue's front is the next track to play; after any change but a clear, the
//! caller primes whatever track is at the front then.

use vstd::prelude::*;
use std::collections::VecDeque;
use crate::models::autoleave::AutoleaveType;
use crate::utils::queue::QueueType;

verus! {

/// `rand`'s `SliceRandom::shuffle` over the deque's contents with the thread-local
/// generator: the same tracks, in an order left to chance. The contract claims only
/// that the result is a reordering.
#[verifier::external_body]
fn shuffle_deque<T>(items: &mut VecDeque<T>)
    ensures
        final(items)@.to_multiset() == old(items)@.to_multiset(),
        final(items)@.len() == old(items)@.len(),
{
    rand::seq::SliceRandom::shuffle(items.make_contiguous(), &mut rand::thread_rng());
}

/// A queue of tracks.
pub struct Playlist<T>(VecDeque<T>);

impl<T> View for Playlist<T> {
    type V = Seq<T>;

    closed spec fn view(&self) -> Seq<T> {
        self.0@
    }
}

impl<T> Playlist<T> {
    /// An empty queue.
    pub fn new() -> (r: Self)
        ensures
            r@ == Seq::<T>::empty(),
    {
        Playlist(VecDeque::new())
    }

    /// A queue of `items`, first to play first.
    pub fn from_vec(items: Vec<T>) -> (r: Self)
        ensures
            r@ == items@,
    {
        let mut q: VecDeque<T> = VecDeque::new();
        let ghost all = items@;
        for item in it: items.into_iter()
            invariant
                it.seq() == all,
                q@ == all.take(it.index() as int),
        {
            proof {
                assert(all.take(it.index() + 1) =~= q@.push(item));
            }
            q.push_back(item);
        }
        proof {
            assert(all.take(all.len() as int) =~= all);
        }
        Playlist(q)
    }

    /// How many tracks are queued.
    pub fn len(&self) -> (r: usize)
        ensures
            r == self@.len(),
    {
        self.0.len()
    }

    /// The track at `index`, counted from the front.
    pub fn get(&self, index: usize) -> (r: Option<&T>)
        ensures
            match r {
                Some(t) => index < self@.len() && *t == self@[index as int],
                None => index >= self@.len(),
            },
    {
        if index < self.0.len() {
            Some(&self.0[index])
        } else {
            None
        }
    }

    /// The next track to play.
    pub fn front(&self) -> (r: Option<&T>)
        ensures
            match r {
                Some(t) => self@.len() > 0 && *t == self@[0],
                None => self@.len() == 0,
            },
    {
        self.get(0)
    }

    /// Take the next track to play.
    pub fn pop_front(&mut self) -> (r: Option<T>)
        ensures
            match r {
                Some(t) => old(self)@.len() > 0 && t == old(self)@[0] && final(self)@ == old(self)@.drop_first(),
                None => old(self)@.len() == 0 && final(self)@ == old(self)@,
            },
    {
        let r = self.0.pop_front();
        proof {
            if r is Some {
                assert(old(self)@.subrange(1, old(self)@.len() as int) =~= old(self)@.drop_first());
            }
        }
        r
    }

    /// Take the last queued track.
    pub fn pop_back(&mut self) -> (r: Option<T>)
        ensures
            match r {
                Some(t) => old(self)@.len() > 0 && t == old(self)@.last() && final(self)@ == old(self)@.drop_last(),
                None => old(self)@.len() == 0 && final(self)@ == old(self)@,
            },
    {
        let r = self.0.pop_back();
        proof {
            if r is Some {
                assert(old(self)@.subrange(0, old(self)@.len() - 1) =~= old(self)@.drop_last());
            }
        }
        r
    }

    /// Queue a track to play next.
    pub fn push_front(&mut self, value: T)
        ensures
            final(self)@ == seq![value] + old(self)@,
    {
        self.0.push_front(value);
    }

    /// Queue a track behind everything queued.
    pub fn push_back(&mut self, value: T)
        ensures
            final(self)@ == old(self)@.push(value),
    {
        self.0.push_back(value);
    }

    /// Queue `items`, in order, behind everything queued.
    pub fn extend(&mut self, items: Vec<T>)
        ensures
            final(self)@ == old(self)@ + items@,
    {
        let ghost start = self@;
        let ghost all = items@;
        for item in it: items.into_iter()
            invariant
                it.seq() == all,
                self@ == start + all.take(it.index() as int),
        {
            proof {
                assert(start + all.take(it.index() + 1) =~= (start + all.take(it.index() as int)).push(item));
            }
            self.0.push_back(item);
        }
        proof {
            assert(all.take(all.len() as int) =~= all);
        }
    }

    /// Put the queued tracks in an order left to chance.
    pub fn shuffle(&mut self)
        ensures
            final(self)@.to_multiset() == old(self)@.to_multiset(),
            final(self)@.len() == old(self)@.len(),
    {
        shuffle_deque(&mut self.0);
    }

    /// Drop every queued track.
    pub fn clear(&mut self)
        ensures
            final(self)@ == Seq::<T>::empty(),
    {
        self.0.clear();
    }

    /// Take the track at `index`, counted from the front; `None` past the end.
    pub fn remove(&mut self, index: usize) -> (r: Option<T>)
        ensures
            match r {
                Some(t) => index < old(self)@.len() && t == old(self)@[index as int]
                    && final(self)@ == old(self)@.remove(index as int),
                None => index >= old(self)@.len() && final(self)@ == old(self)@,
            },
    {
        self.0.remove(index)
    }

    /// Take the tracks from `start` up to `end`, in order.
    pub fn drain(&mut self, start: usize, end: usize) -> (r: Vec<T>)
        requires
            start <= end <= old(self)@.len(),
        ensures
            r@ == old(self)@.subrange(start as int, end as int),
            final(self)@ == old(self)@.subrange(0, start as int) + old(self)@.subrange(end as int, old(self)@.len() as int),
    {
        let ghost orig = self@;
        let mut out: Vec<T> = Vec::new();
        let mut n: usize = start;
        while n < end
            invariant
                start <= n <= end <= orig.len(),
                out@ == orig.subrange(start as int, n as int),
                self@ == orig.subrange(0, start as int) + orig.subrange(n as int, orig.len() as int),
            decreases end - n,
        {
            let item = self.0.remove(start);
            match item {
                Some(t) => {
                    proof {
                        assert(self@ =~= orig.subrange(0, start as int) + orig.subrange(n + 1, orig.len() as int));
                        assert(out@.push(t) =~= orig.subrange(start as int, n + 1));
                    }
                    out.push(t);
                },
                None => {
                    proof {
                        assert(false);
                    }
                },
            }
            n = n + 1;
        }
        out
    }
}

impl<T> Playlist<T> {
    /// Queue one track at the end `queue_type` names.
    pub fn enqueue(&mut self, item: T, queue_type: QueueType)
        ensures
            final(self)@ == match queue_type {
                QueueType::Front => seq![item] + old(self)@,
                QueueType::Back => old(self)@.push(item),
            },
    {
        match queue_type {
            QueueType::Front => self.push_front(item),
            QueueType::Back => self.push_back(item),
        }
    }

    /// Queue a whole playlist's tracks, in their order, at the end `queue_type` names:
    /// ahead of everything queued, or behind it.
    pub fn enqueue_all(&mut self, items: Vec<T>, queue_type: QueueType)
        ensures
            final(self)@ == match queue_type {
                QueueType::Front => items@ + old(self)@,
                QueueType::Back => old(self)@ + items@,
            },
    {
        match queue_type {
            QueueType::Back => self.extend(items),
            QueueType::Front => {
                let ghost items_v = items@;
                let mut front = Playlist::from_vec(items);
                let ghost mine = self@;
                while self.0.len() > 0
                    invariant
                        front@ + self@ == items_v + mine,
                    decreases self@.len(),
                {
                    let ghost before_front = front@;
                    let ghost before_self = self@;
                    let t = self.0.pop_front();
                    match t {
                        Some(t) => {
                            front.0.push_back(t);
                            proof {
                                assert(before_self =~= seq![t] + self@);
                                assert(front@ + self@ =~= before_front + before_self);
                            }
                        },
                        None => {},
                    }
                }
                proof {
                    assert(front@ =~= front@ + self@);
                }
                *self = front;
            },
        }
    }
}

/// What happens when a track ends.
pub enum Advance<T> {
    /// Play the track that just ended again.
    Repeat,
    /// Play the next queued track, taken off the queue.
    Next(T),
    /// The queue is drained and the guild's policy is to leave.
    Leave,
    /// The queue is drained and the bot stays.
    Stay,
}

/// Decide what plays after a track ends: the same track again when the guild repeats;
/// otherwise the next queued track; and with the queue drained, leave or stay as the
/// guild's auto-leave policy says. The queue is only touched when not repeating.
pub fn advance<T>(repeat: bool, auto_leave: AutoleaveType, queue: &mut Playlist<T>) -> (r: Advance<T>)
    ensures
        repeat ==> r is Repeat && final(queue)@ == old(queue)@,
        !repeat && old(queue)@.len() > 0 ==> r == Advance::Next(old(queue)@[0]) && final(queue)@ == old(queue)@.drop_first(),
        !repeat && old(queue)@.len() == 0 ==> final(queue)@ == old(queue)@ && if auto_leave == AutoleaveType::On
            || auto_leave == AutoleaveType::Silent { r is Leave } else { r is Stay },
{
    if repeat {
        return Advance::Repeat;
    }
    match queue.pop_front() {
        Some(next) => Advance::Next(next),
        None => {
            if auto_leave.leaves_on_empty_queue() {
                Advance::Leave
            } else {
                Advance::Stay
            }
        },
    }
}

} // verus!
