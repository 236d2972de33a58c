//! The bounded log: a first-in, first-out record of status lines and inbound
//! messages that never holds more than its capacity.

use crate::messages::{status_line, status_text};
use std::collections::VecDeque;
use vstd::prelude::*;

verus! {

/// The capacity of the log that the manager keeps.
pub const LOG_CAPACITY: usize = 1024;

/// The last `n` elements of `s`, or all of `s` where it has no more than `n`.
pub open spec fn keep_last<T>(s: Seq<T>, n: nat) -> Seq<T> {
    if s.len() <= n {
        s
    } else {
        s.skip(s.len() - n)
    }
}

/// The first `n` elements of `s` read from its end backwards, or all of
/// them where it has no more than `n`.
pub open spec fn newest_first<T>(s: Seq<T>, n: nat) -> Seq<T> {
    Seq::new(
        if s.len() <= n {
            s.len()
        } else {
            n
        },
        |i: int| s[s.len() - 1 - i],
    )
}

/// A log of bounded length. Its view is the sequence of its entries, oldest
/// first.
pub struct Log {
    entries: VecDeque<String>,
    capacity: usize,
}

impl View for Log {
    type V = Seq<Seq<char>>;

    closed spec fn view(&self) -> Seq<Seq<char>> {
        self.entries.deep_view()
    }
}

impl Log {
    /// The number of entries that the log holds at most.
    pub closed spec fn limit(&self) -> nat {
        self.capacity as nat
    }

    /// The log holds no more than its capacity.
    pub closed spec fn wf(&self) -> bool {
        self.entries@.len() <= self.capacity
    }

    /// A log never holds more than its capacity.
    pub proof fn lemma_within_limit(&self)
        requires
            self.wf(),
        ensures
            self@.len() <= self.limit(),
    {
    }

    /// An empty log that holds at most `capacity` entries.
    pub fn new(capacity: usize) -> (log: Log)
        ensures
            log.wf(),
            log@ == Seq::<Seq<char>>::empty(),
            log.limit() == capacity,
    {
        let log = Log { entries: VecDeque::new(), capacity };
        assert(log@ =~= Seq::<Seq<char>>::empty());
        log
    }

    /// The number of entries that the log holds at most.
    pub fn capacity(&self) -> (n: usize)
        ensures
            n == self.limit(),
    {
        self.capacity
    }

    /// The number of entries in the log.
    pub fn len(&self) -> (n: usize)
        requires
            self.wf(),
        ensures
            n == self@.len(),
            n <= self.limit(),
    {
        self.entries.len()
    }

    /// Whether the log has no entries.
    pub fn is_empty(&self) -> (b: bool)
        requires
            self.wf(),
        ensures
            b == (self@.len() == 0),
    {
        self.entries.len() == 0
    }

    /// The entry at position `i`, counted from the oldest, if there is one.
    pub fn get(&self, i: usize) -> (entry: Option<String>)
        requires
            self.wf(),
        ensures
            i < self@.len() ==> entry.is_some() && entry.unwrap()@ == self@[i as int],
            i >= self@.len() ==> entry.is_none(),
    {
        if i < self.entries.len() {
            Some(self.entries[i].clone())
        } else {
            None
        }
    }

    /// Appends `entry`. A full log first gives up its oldest entry, so the
    /// log holds the last `limit()` entries of all that were ever appended.
    pub fn push(&mut self, entry: String)
        requires
            old(self).wf(),
        ensures
            final(self).wf(),
            final(self).limit() == old(self).limit(),
            final(self)@ == keep_last(old(self)@.push(entry@), old(self).limit()),
            final(self)@.len() <= final(self).limit(),
            old(self)@.len() < old(self).limit() ==> final(self)@ == old(self)@.push(entry@),
            old(self)@.len() == old(self).limit() && old(self).limit() > 0 ==> final(self)@
                == old(self)@.drop_first().push(entry@),
    {
        if self.capacity == 0 {
            assert(self@ =~= keep_last(old(self)@.push(entry@), 0));
            return ;
        }
        if self.entries.len() == self.capacity {
            self.entries.pop_front();
        }
        self.entries.push_back(entry);
        proof {
            let before = old(self)@;
            if before.len() < old(self).limit() {
                assert(self@ =~= before.push(entry@));
            } else {
                assert(self@ =~= before.drop_first().push(entry@));
                assert(before.drop_first().push(entry@) =~= keep_last(
                    before.push(entry@),
                    old(self).limit(),
                ));
            }
        }
    }

    /// Appends the status line for `msg`.
    pub fn push_status(&mut self, msg: &str)
        requires
            old(self).wf(),
        ensures
            final(self).wf(),
            final(self).limit() == old(self).limit(),
            final(self)@ == keep_last(old(self)@.push(status_text(msg@)), old(self).limit()),
    {
        self.push(status_line(msg));
    }

    /// Appends all of `queued`, in order, as if by one `push` for each.
    pub fn drain(&mut self, queued: Vec<String>)
        requires
            old(self).wf(),
        ensures
            final(self).wf(),
            final(self).limit() == old(self).limit(),
            final(self)@ == keep_last(old(self)@ + queued.deep_view(), old(self).limit()),
    {
        let ghost all = queued.deep_view();
        let ghost limit = self.limit();
        assert(self@ + all.take(0) =~= self@);
        for e in it: queued
            invariant
                self.wf(),
                self.limit() == limit,
                it.seq().len() == all.len(),
                forall|i: int| 0 <= i < all.len() ==> (#[trigger] it.seq()[i])@ == all[i],
                self@ == keep_last(old(self)@ + all.take(it.index() as int), limit),
        {
            proof {
                let done = it.index() as int;
                lemma_keep_last_push(old(self)@ + all.take(done), e@, limit);
                assert((old(self)@ + all.take(done)).push(e@) =~= old(self)@ + all.take(done + 1));
            }
            self.push(e);
        }
        assert(all.take(all.len() as int) =~= all);
    }

    /// Up to `n` entries, the newest first.
    pub fn recent(&self, n: usize) -> (out: Vec<String>)
        requires
            self.wf(),
        ensures
            out.deep_view() == newest_first(self@, n as nat),
    {
        let len = self.entries.len();
        let count = if len <= n {
            len
        } else {
            n
        };
        let mut out: Vec<String> = Vec::new();
        let mut i: usize = 0;
        while i < count
            invariant
                i <= count,
                count <= len,
                len == self.entries@.len(),
                out.len() == i,
                forall|k: int| 0 <= k < i ==> (#[trigger] out[k])@ == self@[len - 1 - k],
            decreases count - i,
        {
            out.push(self.entries[len - 1 - i].clone());
            i += 1;
        }
        assert(out.deep_view() =~= newest_first(self@, n as nat));
        out
    }
}

/// Appending to what was kept gives what is kept of the longer sequence:
/// entries that were given up never come back.
pub proof fn lemma_keep_last_push<T>(s: Seq<T>, e: T, n: nat)
    ensures
        keep_last(keep_last(s, n).push(e), n) == keep_last(s.push(e), n),
{
    assert(keep_last(keep_last(s, n).push(e), n) =~= keep_last(s.push(e), n));
}

} // verus!
