//! The answers to reliable requests, kept so that a repeated request gets
//! the same answer instead of being carried out twice.

use vstd::prelude::*;
use std::collections::VecDeque;

use crate::frame::{Frame, FrameHeader, MessageType};

verus! {

/// How many answers a cache keeps.
pub const REQUEST_CACHE_CAPACITY: usize = 32;

/// What identifies a request: its session, type and sequence number.
#[derive(Clone, Copy, Debug, PartialEq, Eq, Structural)]
pub struct RequestKey {
    pub session_id: u32,
    pub message_type: MessageType,
    pub sequence: u16,
}

/// The cached answers, oldest first.
pub open spec fn entries_view(v: Seq<(RequestKey, Frame)>) -> Seq<(RequestKey, (FrameHeader, Seq<u8>))> {
    v.map_values(|e: (RequestKey, Frame)| (e.0, e.1@))
}

/// The answer cached for `key`: the oldest entry with that key.
pub open spec fn cache_find(entries: Seq<(RequestKey, (FrameHeader, Seq<u8>))>, key: RequestKey) -> Option<
    (FrameHeader, Seq<u8>),
>
    decreases entries.len(),
{
    if entries.len() == 0 {
        None
    } else if entries[0].0 == key {
        Some(entries[0].1)
    } else {
        cache_find(entries.drop_first(), key)
    }
}

/// The entries after storing an answer: the oldest goes when the cache is
/// full, the new one comes last.
pub open spec fn cache_store(
    entries: Seq<(RequestKey, (FrameHeader, Seq<u8>))>,
    key: RequestKey,
    frame: (FrameHeader, Seq<u8>),
) -> Seq<(RequestKey, (FrameHeader, Seq<u8>))> {
    if entries.len() == REQUEST_CACHE_CAPACITY {
        entries.drop_first().push((key, frame))
    } else {
        entries.push((key, frame))
    }
}

/// An answer stored for a key that was not cached is what the next lookup
/// of that key finds, even when storing it pushed the oldest answer out.
pub proof fn lemma_store_then_find(
    entries: Seq<(RequestKey, (FrameHeader, Seq<u8>))>,
    key: RequestKey,
    frame: (FrameHeader, Seq<u8>),
)
    requires
        cache_find(entries, key) is None,
    ensures
        cache_find(cache_store(entries, key, frame), key) == Some(frame),
{
    if entries.len() == REQUEST_CACHE_CAPACITY {
        lemma_find_after_drop(entries, key);
        lemma_push_then_find(entries.drop_first(), key, frame);
    } else {
        lemma_push_then_find(entries, key, frame);
    }
}

proof fn lemma_find_after_drop(entries: Seq<(RequestKey, (FrameHeader, Seq<u8>))>, key: RequestKey)
    requires
        entries.len() > 0,
        cache_find(entries, key) is None,
    ensures
        cache_find(entries.drop_first(), key) is None,
{
}

proof fn lemma_push_then_find(
    entries: Seq<(RequestKey, (FrameHeader, Seq<u8>))>,
    key: RequestKey,
    frame: (FrameHeader, Seq<u8>),
)
    requires
        cache_find(entries, key) is None,
    ensures
        cache_find(entries.push((key, frame)), key) == Some(frame),
    decreases entries.len(),
{
    if entries.len() > 0 {
        lemma_push_then_find(entries.drop_first(), key, frame);
        assert(entries.push((key, frame)).drop_first() =~= entries.drop_first().push((key, frame)));
    }
}

/// A first-in, first-out cache of at most 32 answers; looking an answer up
/// does not make it younger.
pub struct RequestCache {
    entries: VecDeque<(RequestKey, Frame)>,
}

impl View for RequestCache {
    type V = Seq<(RequestKey, (FrameHeader, Seq<u8>))>;

    closed spec fn view(&self) -> Seq<(RequestKey, (FrameHeader, Seq<u8>))> {
        entries_view(self.entries@)
    }
}

impl RequestCache {
    /// The cache holds at most `REQUEST_CACHE_CAPACITY` answers.
    pub open spec fn wf(&self) -> bool {
        self@.len() <= REQUEST_CACHE_CAPACITY
    }

    /// The answer cached for `key`, if any; see `cache_find`.
    pub(crate) fn get(&self, key: &RequestKey) -> (r: Option<Frame>)
        ensures
            match cache_find(self@, *key) {
                Some(f) => r matches Some(g) && g@ == f,
                None => r is None,
            },
    {
        let ghost all = self@;
        let mut i: usize = 0;
        proof {
            assert(all.subrange(0, all.len() as int) =~= all);
        }
        while i < self.entries.len()
            invariant
                all == self@,
                all.len() == self.entries@.len(),
                i <= all.len(),
                cache_find(all, *key) == cache_find(all.subrange(i as int, all.len() as int), *key),
            decreases all.len() - i,
        {
            let ghost rest = all.subrange(i as int, all.len() as int);
            proof {
                assert(rest[0] == all[i as int]);
                assert(all[i as int] == (self.entries@[i as int].0, self.entries@[i as int].1@));
                assert(rest.drop_first() =~= all.subrange(i + 1, all.len() as int));
            }
            if self.entries[i].0 == *key {
                return Some(self.entries[i].1.duplicate());
            }
            i = i + 1;
        }
        None
    }

    /// The answer cached for `key`; when there is none, `build` makes one,
    /// which is stored (see `cache_store`) and returned.
    pub fn get_or_insert(&mut self, key: RequestKey, build: impl FnOnce() -> Frame) -> (r: Frame)
        requires
            old(self).wf(),
            call_requires(build, ()),
        ensures
            final(self).wf(),
            match cache_find(old(self)@, key) {
                Some(f) => r@ == f && final(self)@ == old(self)@,
                None => call_ensures(build, (), r) && final(self)@ == cache_store(
                    old(self)@,
                    key,
                    r@,
                ),
            },
    {
        if let Some(frame) = self.get(&key) {
            return frame;
        }
        let frame = build();
        let ghost before = self.entries@;
        if self.entries.len() == REQUEST_CACHE_CAPACITY {
            let _ = self.entries.pop_front();
        }
        let ghost popped = self.entries@;
        self.entries.push_back((key, frame.duplicate()));
        proof {
            assert(entries_view(self.entries@) =~= entries_view(popped).push((key, frame@)));
            if before.len() == REQUEST_CACHE_CAPACITY {
                assert(entries_view(popped) =~= entries_view(before).drop_first());
            }
        }
        frame
    }

    /// Stores `frame` as the answer for `key` unless one is cached already.
    pub(crate) fn insert(&mut self, key: RequestKey, frame: Frame)
        requires
            old(self).wf(),
        ensures
            final(self).wf(),
            match cache_find(old(self)@, key) {
                Some(_) => final(self)@ == old(self)@,
                None => final(self)@ == cache_store(old(self)@, key, frame@),
            },
    {
        let ghost f = frame@;
        let build = move || -> (g: Frame)
            ensures
                g@ == f,
            { frame };
        let _ = self.get_or_insert(key, build);
    }

    /// Forgets every answer.
    pub(crate) fn clear(&mut self)
        ensures
            final(self)@ == Seq::<(RequestKey, (FrameHeader, Seq<u8>))>::empty(),
    {
        self.entries.clear();
        proof {
            assert(self@ =~= Seq::<(RequestKey, (FrameHeader, Seq<u8>))>::empty());
        }
    }
}

impl Default for RequestCache {
    fn default() -> (c: RequestCache)
        ensures
            c@ == Seq::<(RequestKey, (FrameHeader, Seq<u8>))>::empty(),
    {
        let c = RequestCache { entries: VecDeque::new() };
        proof {
            assert(c@ =~= Seq::<(RequestKey, (FrameHeader, Seq<u8>))>::empty());
        }
        c
    }
}

} // verus!
