//! The lazy cursor over a cached playlist, as a state machine.
//!
//! Each pull of a track is a short exchange: the caller sends `Start`, then
//! answers each action that `step` returns (read the cache at `cache_key`,
//! fetch a page) with the matching event, until the machine yields a track or
//! ends the sequence.
use std::collections::VecDeque;
use vstd::prelude::*;
use vstd::string::StringSliceAdditionalSpecFns;

use crate::key::{composite_key, make_key, set_index};

verus! {

/// Number of tracks asked for in one remote page.
pub const SEARCH_LIMIT: u32 = 20;

/// What the cache held under the key of the index being resolved.
pub enum CacheEntry<T> {
    /// No entry under the key.
    Missing,
    /// The store failed to read the entry.
    Unreadable,
    /// An entry is there but it does not decode to a track.
    Corrupt,
    /// An entry that decodes to this track.
    Valid(T),
}

/// What the caller hands to the machine.
pub enum PullEvent<T> {
    /// A new pull begins.
    Start,
    /// The answer to `ReadCache`.
    CacheRead(CacheEntry<T>),
    /// The answer to `FetchPage`: the tracks of the page, each already written
    /// to the cache under the key of its index.
    PageFetched(VecDeque<T>),
}

/// What the machine asks of the caller.
pub enum PullAction<T> {
    /// The sequence has ended: the pull yields nothing.
    End,
    /// Read the cache entry under `cache_key`.
    ReadCache,
    /// Fetch the page of at most `limit` tracks starting at `offset`, write each
    /// track to the cache, and send it back as `PageFetched`.
    FetchPage { offset: u32, limit: u32 },
    /// The pull yields this track.
    Yield(T),
}

/// The abstract state of a cursor.
pub struct TracksView<T> {
    /// The playlist id, as text.
    pub name: Seq<char>,
    /// The playlist id's bytes.
    pub id: Seq<u8>,
    /// The key the cursor currently addresses.
    pub key: Seq<u8>,
    /// The number of tracks of the playlist.
    pub total: u32,
    /// The index of the next track to produce.
    pub offset: u32,
    /// Tracks fetched remotely and not yet consumed.
    pub buffer: Seq<T>,
}

/// Drops the front of a queue, if it has one.
pub open spec fn drop_front<T>(s: Seq<T>) -> Seq<T> {
    if s.len() > 0 {
        s.drop_first()
    } else {
        s
    }
}

/// One transition of the cursor: the next state and the action asked for.
pub open spec fn step_spec<T>(s: TracksView<T>, e: PullEvent<T>) -> (TracksView<T>, PullAction<T>) {
    if s.offset >= s.total {
        (s, PullAction::End)
    } else {
        match e {
            PullEvent::Start => (
                TracksView { key: composite_key(s.id, s.offset), ..s },
                PullAction::ReadCache,
            ),
            PullEvent::CacheRead(CacheEntry::Valid(t)) => (
                TracksView { buffer: drop_front(s.buffer), offset: (s.offset + 1) as u32, ..s },
                PullAction::Yield(t),
            ),
            PullEvent::CacheRead(_) => if s.buffer.len() > 0 {
                (
                    TracksView {
                        buffer: s.buffer.drop_first(),
                        offset: (s.offset + 1) as u32,
                        ..s
                    },
                    PullAction::Yield(s.buffer[0]),
                )
            } else {
                (s, PullAction::FetchPage { offset: s.offset, limit: SEARCH_LIMIT })
            },
            PullEvent::PageFetched(items) => if items@.len() > 0 {
                (
                    TracksView {
                        buffer: items@.drop_first(),
                        offset: (s.offset + 1) as u32,
                        ..s
                    },
                    PullAction::Yield(items@[0]),
                )
            } else {
                (
                    TracksView { buffer: Seq::empty(), offset: (s.offset + 1) as u32, ..s },
                    PullAction::End,
                )
            },
        }
    }
}

/// One complete pull from state `s`: `entry` is what the cache holds under the
/// key of the offset, `page` what the remote source hands back if it is asked.
/// Gives the next state, the track yielded, and whether the remote source was
/// asked.
pub open spec fn pull_spec<T>(s: TracksView<T>, entry: CacheEntry<T>, page: VecDeque<T>) -> (
    TracksView<T>,
    Option<T>,
    bool,
) {
    let (s1, a1) = step_spec(s, PullEvent::Start);
    match a1 {
        PullAction::ReadCache => {
            let (s2, a2) = step_spec(s1, PullEvent::CacheRead(entry));
            match a2 {
                PullAction::Yield(t) => (s2, Some(t), false),
                PullAction::FetchPage { .. } => {
                    let (s3, a3) = step_spec(s2, PullEvent::PageFetched(page));
                    match a3 {
                        PullAction::Yield(t) => (s3, Some(t), true),
                        _ => (s3, None, true),
                    }
                },
                _ => (s2, None, false),
            }
        },
        _ => (s1, None, false),
    }
}

/// Successive pulls from state `s`, the k-th seeing `entries[k]` in the cache
/// and `pages[k]` from the remote source: the final state and what each pull
/// yielded.
pub open spec fn traverse<T>(
    s: TracksView<T>,
    entries: Seq<CacheEntry<T>>,
    pages: Seq<VecDeque<T>>,
) -> (TracksView<T>, Seq<Option<T>>)
    decreases entries.len(),
{
    if entries.len() == 0 || pages.len() == 0 {
        (s, Seq::empty())
    } else {
        let (s1, y, _) = pull_spec(s, entries[0], pages[0]);
        let (sn, ys) = traverse(s1, entries.drop_first(), pages.drop_first());
        (sn, seq![y] + ys)
    }
}

/// A pull from a cursor that has not passed its total, when any page the
/// remote source hands back is non-empty, yields a track and advances the
/// offset by one; a pull from an exhausted cursor yields nothing and changes
/// nothing.
pub proof fn lemma_pull_advances<T>(s: TracksView<T>, entry: CacheEntry<T>, page: VecDeque<T>)
    requires
        s.offset <= s.total,
        page@.len() > 0,
    ensures
        s.offset < s.total ==> (pull_spec(s, entry, page).1 is Some),
        s.offset < s.total ==> pull_spec(s, entry, page).0.offset == s.offset + 1,
        s.offset < s.total ==> pull_spec(s, entry, page).0.total == s.total,
        s.offset == s.total ==> pull_spec(s, entry, page) == (s, None::<T>, false),
{
}

/// Exhaustion: a traversal of a playlist of `total` tracks in which the remote
/// source never hands back an empty page yields exactly the `total - offset`
/// remaining tracks, and every pull after that yields nothing.
pub proof fn lemma_traversal_yields_total<T>(
    s: TracksView<T>,
    entries: Seq<CacheEntry<T>>,
    pages: Seq<VecDeque<T>>,
)
    requires
        s.offset <= s.total,
        entries.len() == pages.len(),
        forall|k: int| 0 <= k < pages.len() ==> (#[trigger] pages[k])@.len() > 0,
    ensures
        traverse(s, entries, pages).1.len() == entries.len(),
        forall|k: int|
            0 <= k < entries.len() ==> (((#[trigger] traverse(s, entries, pages).1[k]) is Some) <==> (k
                < s.total - s.offset)),
        entries.len() >= s.total - s.offset ==> traverse(s, entries, pages).0.offset == s.total,
    decreases entries.len(),
{
    if entries.len() > 0 {
        lemma_pull_advances(s, entries[0], pages[0]);
        let (s1, y, _) = pull_spec(s, entries[0], pages[0]);
        let rest_pages = pages.drop_first();
        assert forall|k: int| 0 <= k < rest_pages.len() implies (#[trigger] rest_pages[k])@.len()
            > 0 by {
            assert(rest_pages[k] == pages[k + 1]);
        }
        lemma_traversal_yields_total(s1, entries.drop_first(), rest_pages);
        let ys = traverse(s, entries, pages).1;
        let rest = traverse(s1, entries.drop_first(), rest_pages).1;
        assert(ys == seq![y] + rest);
        assert forall|k: int| 0 <= k < entries.len() implies ((#[trigger] ys[k]) is Some) <==> (k
            < s.total - s.offset) by {
            if k > 0 {
                assert(ys[k] == rest[k - 1]);
            }
        }
    }
}

/// Cache precedence: when the entry under the key of the offset is valid, the
/// pull yields it and the remote source is not asked.
pub proof fn lemma_cache_precedence<T>(s: TracksView<T>, t: T, page: VecDeque<T>)
    requires
        s.offset < s.total,
    ensures
        pull_spec(s, CacheEntry::Valid(t), page).1 == Some(t),
        !pull_spec(s, CacheEntry::Valid(t), page).2,
{
}

/// Corrupt-entry recovery: an entry that does not decode is passed over with no
/// error, exactly as if there were none; the index is resolved from the buffer,
/// or else from the remote page that starts at the offset. An entry that the
/// store fails to read is passed over in the same way.
pub proof fn lemma_corrupt_entry_is_a_miss<T>(s: TracksView<T>, page: VecDeque<T>)
    requires
        s.offset < s.total,
    ensures
        pull_spec(s, CacheEntry::Corrupt, page) == pull_spec(s, CacheEntry::Missing, page),
        pull_spec(s, CacheEntry::Unreadable, page) == pull_spec(s, CacheEntry::Missing, page),
        s.buffer.len() > 0 ==> pull_spec(s, CacheEntry::Corrupt, page).1 == Some(s.buffer[0])
            && !pull_spec(s, CacheEntry::Corrupt, page).2,
        s.buffer.len() == 0 ==> pull_spec(s, CacheEntry::Corrupt, page).2 && step_spec(
            step_spec(s, PullEvent::Start).0,
            PullEvent::CacheRead(CacheEntry::Corrupt),
        ).1 == (PullAction::<T>::FetchPage { offset: s.offset, limit: SEARCH_LIMIT }),
        page@.len() > 0 && s.buffer.len() == 0 ==> pull_spec(s, CacheEntry::Corrupt, page).1
            == Some(page@[0]),
{
}

/// The cursor over the tracks of one playlist.
pub struct PlaylistTracks<T> {
    playlist_id: String,
    total: u32,
    offset: u32,
    key: Vec<u8>,
    buffer: VecDeque<T>,
}

impl<T> View for PlaylistTracks<T> {
    type V = TracksView<T>;

    closed spec fn view(&self) -> TracksView<T> {
        TracksView {
            name: self.playlist_id@,
            id: self.key@.subrange(0, self.key@.len() - 4),
            key: self.key@,
            total: self.total,
            offset: self.offset,
            buffer: self.buffer@,
        }
    }
}

impl<T> PlaylistTracks<T> {
    /// The cursor's invariant: the key ends in an index and the offset never
    /// passes the total.
    pub closed spec fn wf(&self) -> bool {
        &&& self.key@.len() >= 4
        &&& self.offset <= self.total
    }

    /// A cursor at the start of a playlist whose length came from the cache:
    /// nothing is buffered.
    pub fn from_cached_length(playlist_id: &str, total: u32) -> (r: Self)
        ensures
            r.wf(),
            r@.id == playlist_id.spec_bytes(),
            r@.key == composite_key(playlist_id.spec_bytes(), 0),
            r@.total == total,
            r@.offset == 0,
            r@.buffer == Seq::<T>::empty(),
            r@.name == playlist_id@,
    {
        Self::from_first_page(playlist_id, total, VecDeque::new())
    }

    /// A cursor at the start of a playlist whose first page was just fetched:
    /// that page is the lookahead buffer.
    pub fn from_first_page(playlist_id: &str, total: u32, items: VecDeque<T>) -> (r: Self)
        ensures
            r.wf(),
            r@.id == playlist_id.spec_bytes(),
            r@.key == composite_key(playlist_id.spec_bytes(), 0),
            r@.total == total,
            r@.offset == 0,
            r@.buffer == items@,
            r@.name == playlist_id@,
    {
        let key = make_key(playlist_id.as_bytes(), 0);
        let r = PlaylistTracks { playlist_id: playlist_id.to_owned(), total, offset: 0, key, buffer: items };
        assert(r.key@.subrange(0, r.key@.len() - 4) =~= playlist_id.spec_bytes());
        r
    }

    /// The id of the playlist.
    pub fn playlist_id(&self) -> (r: &String)
        ensures
            r@ == self@.name,
    {
        &self.playlist_id
    }

    /// The key of the cache entry that `ReadCache` asks for.
    pub fn cache_key(&self) -> (r: &[u8])
        ensures
            r@ == self@.key,
    {
        self.key.as_slice()
    }

    /// The number of tracks of the playlist.
    pub fn total(&self) -> (r: u32)
        ensures
            r == self@.total,
    {
        self.total
    }

    /// The index of the next track to produce.
    pub fn offset(&self) -> (r: u32)
        ensures
            r == self@.offset,
    {
        self.offset
    }

    /// Points the key at index `offset`.
    fn update_key(&mut self, offset: u32)
        requires
            old(self).wf(),
        ensures
            final(self).wf(),
            final(self)@ == (TracksView { key: composite_key(old(self)@.id, offset), ..old(self)@ }),
    {
        set_index(&mut self.key, offset);
        assert(self.key@.subrange(0, self.key@.len() - 4) =~= old(self)@.id);
    }

    /// Points the key at the track at `position` of the page that starts at
    /// the offset, so that the caller can write that track to the cache.
    /// Returns false, and changes nothing, when that index does not fit in a `u32`.
    pub fn set_page_key(&mut self, position: usize) -> (r: bool)
        requires
            old(self).wf(),
        ensures
            final(self).wf(),
            r == (old(self)@.offset + position <= u32::MAX),
            r ==> final(self)@ == (TracksView {
                key: composite_key(old(self)@.id, (old(self)@.offset + position) as u32),
                ..old(self)@
            }),
            !r ==> final(self)@ == old(self)@,
    {
        if position as u64 > (u32::MAX - self.offset) as u64 {
            return false;
        }
        let index: u32 = self.offset + position as u32;
        self.update_key(index);
        true
    }

    /// One transition: takes the caller's event and returns the next action.
    pub fn step(&mut self, event: PullEvent<T>) -> (r: PullAction<T>)
        requires
            old(self).wf(),
        ensures
            final(self).wf(),
            (final(self)@, r) == step_spec(old(self)@, event),
    {
        if self.offset >= self.total {
            return PullAction::End;
        }
        match event {
            PullEvent::Start => {
                self.update_key(self.offset);
                PullAction::ReadCache
            },
            PullEvent::CacheRead(CacheEntry::Valid(t)) => {
                self.buffer.pop_front();
                self.offset = self.offset + 1;
                assert(self.buffer@ =~= drop_front(old(self)@.buffer));
                PullAction::Yield(t)
            },
            PullEvent::CacheRead(_) => {
                match self.buffer.pop_front() {
                    Some(t) => {
                        self.offset = self.offset + 1;
                        assert(self.buffer@ =~= old(self)@.buffer.drop_first());
                        PullAction::Yield(t)
                    },
                    None => PullAction::FetchPage { offset: self.offset, limit: SEARCH_LIMIT },
                }
            },
            PullEvent::PageFetched(items) => {
                self.buffer = items;
                let first = self.buffer.pop_front();
                self.offset = self.offset + 1;
                match first {
                    Some(t) => {
                        assert(self.buffer@ =~= items@.drop_first());
                        PullAction::Yield(t)
                    },
                    None => {
                        assert(self.buffer@ =~= Seq::<T>::empty());
                        PullAction::End
                    },
                }
            },
        }
    }
}

} // verus!
