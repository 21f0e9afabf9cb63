use spotify_api_playground::{
    decode_length, encode_length, length_record, make_key, plan_traversal, CacheEntry,
    ClientConfig, PlaylistTracks, PullAction, PullEvent, TracksSource, SEARCH_LIMIT,
};
use std::collections::{BTreeMap, VecDeque};

const ID: &str = "37i9dQZF1DXcBWIGoYBM5M";

/// A remote playlist whose track at index `i` is `1000 + i`.
struct Remote {
    total: u32,
    calls: Vec<(u32, u32)>,
}

impl Remote {
    fn page(&mut self, offset: u32, limit: u32) -> Vec<u32> {
        self.calls.push((offset, limit));
        let end = std::cmp::min(self.total, offset + limit);
        (offset..end).map(|i| 1000 + i).collect()
    }
}

type Cache = BTreeMap<Vec<u8>, Vec<u8>>;

fn pull(cursor: &mut PlaylistTracks<u32>, cache: &mut Cache, remote: &mut Remote) -> Option<u32> {
    let mut event = PullEvent::Start;
    loop {
        match cursor.step(event) {
            PullAction::End => return None,
            PullAction::Yield(t) => return Some(t),
            PullAction::ReadCache => {
                let entry = match cache.get(cursor.cache_key()) {
                    None => CacheEntry::Missing,
                    Some(bytes) => match decode_length(bytes) {
                        Some(v) => CacheEntry::Valid(v),
                        None => CacheEntry::Corrupt,
                    },
                };
                event = PullEvent::CacheRead(entry);
            }
            PullAction::FetchPage { offset, limit } => {
                let items = remote.page(offset, limit);
                for (i, item) in items.iter().enumerate() {
                    assert!(cursor.set_page_key(i));
                    cache.insert(cursor.cache_key().to_vec(), encode_length(*item));
                }
                event = PullEvent::PageFetched(items.into_iter().collect());
            }
        }
    }
}

/// Begins a traversal as the fetcher does: from the cached length, or from an
/// eager fetch of the first page whose total is then cached.
fn begin(
    force: bool,
    lengths: &mut Cache,
    remote: &mut Remote,
) -> PlaylistTracks<u32> {
    let stored = lengths.get(ID.as_bytes()).cloned();
    match plan_traversal(force, stored.as_deref()) {
        TracksSource::CachedLength(total) => PlaylistTracks::from_cached_length(ID, total),
        TracksSource::FirstPage { offset, limit } => {
            let items = remote.page(offset, limit);
            lengths.insert(ID.as_bytes().to_vec(), length_record(remote.total));
            PlaylistTracks::from_first_page(ID, remote.total, items.into_iter().collect())
        }
    }
}

#[test]
fn it_works() {
    assert_eq!(2 + 2, 4);
}

#[test]
fn scenario_twenty_five_tracks_on_empty_cache() {
    let mut lengths = Cache::new();
    let mut items = Cache::new();
    let mut remote = Remote { total: 25, calls: Vec::new() };
    let mut cursor = begin(false, &mut lengths, &mut remote);
    assert_eq!(remote.calls, vec![(0, 20)]);
    assert_eq!(lengths.get(ID.as_bytes()), Some(&vec![0u8, 0, 0, 25]));
    assert_eq!(cursor.total(), 25);
    for i in 0..20u32 {
        assert_eq!(pull(&mut cursor, &mut items, &mut remote), Some(1000 + i));
    }
    assert_eq!(cursor.offset(), 20);
    assert!(items.is_empty());
    assert_eq!(remote.calls.len(), 1);
    assert_eq!(pull(&mut cursor, &mut items, &mut remote), Some(1020));
    assert_eq!(remote.calls, vec![(0, 20), (20, 20)]);
    assert_eq!(items.len(), 5);
    for i in 20..25u32 {
        assert_eq!(items.get(&make_key(ID.as_bytes(), i)), Some(&encode_length(1000 + i)));
    }
    for i in 21..25u32 {
        assert_eq!(pull(&mut cursor, &mut items, &mut remote), Some(1000 + i));
    }
    assert_eq!(remote.calls.len(), 2);
    assert_eq!(pull(&mut cursor, &mut items, &mut remote), None);
    assert_eq!(pull(&mut cursor, &mut items, &mut remote), None);
    assert_eq!(remote.calls.len(), 2);
}

#[test]
fn full_traversal_yields_total_then_nothing() {
    for total in [0u32, 1, 19, 20, 21, 45] {
        let mut lengths = Cache::new();
        let mut items = Cache::new();
        let mut remote = Remote { total, calls: Vec::new() };
        let mut cursor = begin(false, &mut lengths, &mut remote);
        let mut got = Vec::new();
        while let Some(t) = pull(&mut cursor, &mut items, &mut remote) {
            got.push(t);
        }
        assert_eq!(got, (0..total).map(|i| 1000 + i).collect::<Vec<u32>>());
        assert_eq!(pull(&mut cursor, &mut items, &mut remote), None);
    }
}

#[test]
fn second_traversal_is_served_from_cache() {
    let mut lengths = Cache::new();
    let mut items = Cache::new();
    let mut remote = Remote { total: 45, calls: Vec::new() };
    let mut cursor = begin(false, &mut lengths, &mut remote);
    while pull(&mut cursor, &mut items, &mut remote).is_some() {}
    // Indices 20 to 44 were written as their pages arrived.
    let calls_before = remote.calls.len();
    let mut cursor = begin(false, &mut lengths, &mut remote);
    assert_eq!(remote.calls.len(), calls_before);
    let mut got = Vec::new();
    while let Some(t) = pull(&mut cursor, &mut items, &mut remote) {
        got.push(t);
    }
    assert_eq!(got, (0..45).map(|i| 1000 + i).collect::<Vec<u32>>());
    // Only the first page, never written by the eager fetch, was asked for again.
    assert_eq!(remote.calls[calls_before..].to_vec(), vec![(0, 20)]);
}

#[test]
fn cached_entries_take_precedence_over_remote() {
    let mut lengths = Cache::new();
    lengths.insert(ID.as_bytes().to_vec(), length_record(3));
    let mut items = Cache::new();
    for i in 0..3u32 {
        items.insert(make_key(ID.as_bytes(), i), encode_length(7 + i));
    }
    let mut remote = Remote { total: 3, calls: Vec::new() };
    let mut cursor = begin(false, &mut lengths, &mut remote);
    assert_eq!(pull(&mut cursor, &mut items, &mut remote), Some(7));
    assert_eq!(pull(&mut cursor, &mut items, &mut remote), Some(8));
    assert_eq!(pull(&mut cursor, &mut items, &mut remote), Some(9));
    assert_eq!(pull(&mut cursor, &mut items, &mut remote), None);
    assert!(remote.calls.is_empty());
}

#[test]
fn corrupt_entry_is_resolved_remotely() {
    let mut lengths = Cache::new();
    lengths.insert(ID.as_bytes().to_vec(), length_record(2));
    let mut items = Cache::new();
    items.insert(make_key(ID.as_bytes(), 0), vec![1, 2, 3]);
    let mut remote = Remote { total: 2, calls: Vec::new() };
    let mut cursor = begin(false, &mut lengths, &mut remote);
    assert_eq!(pull(&mut cursor, &mut items, &mut remote), Some(1000));
    assert_eq!(remote.calls, vec![(0, SEARCH_LIMIT)]);
    assert_eq!(pull(&mut cursor, &mut items, &mut remote), Some(1001));
    assert_eq!(pull(&mut cursor, &mut items, &mut remote), None);
}

#[test]
fn corrupt_entry_is_resolved_from_buffer() {
    let mut cursor = PlaylistTracks::from_first_page(ID, 2, VecDeque::from(vec![5u32, 6]));
    assert!(matches!(cursor.step(PullEvent::Start), PullAction::ReadCache));
    assert!(matches!(cursor.step(PullEvent::CacheRead(CacheEntry::Corrupt)), PullAction::Yield(5)));
    assert!(matches!(cursor.step(PullEvent::Start), PullAction::ReadCache));
    assert!(matches!(cursor.step(PullEvent::CacheRead(CacheEntry::Unreadable)), PullAction::Yield(6)));
    assert!(matches!(cursor.step(PullEvent::Start), PullAction::End));
}

#[test]
fn cache_hit_drops_buffer_front() {
    let mut cursor = PlaylistTracks::from_first_page(ID, 3, VecDeque::from(vec![5u32, 6]));
    assert!(matches!(cursor.step(PullEvent::Start), PullAction::ReadCache));
    assert!(matches!(cursor.step(PullEvent::CacheRead(CacheEntry::Valid(9))), PullAction::Yield(9)));
    assert!(matches!(cursor.step(PullEvent::Start), PullAction::ReadCache));
    assert!(matches!(cursor.step(PullEvent::CacheRead(CacheEntry::Missing)), PullAction::Yield(6)));
    assert!(matches!(cursor.step(PullEvent::Start), PullAction::ReadCache));
    assert!(matches!(
        cursor.step(PullEvent::CacheRead(CacheEntry::Missing)),
        PullAction::FetchPage { offset: 2, limit: 20 }
    ));
    assert_eq!(cursor.offset(), 2);
}

#[test]
fn empty_page_ends_the_sequence() {
    let mut cursor: PlaylistTracks<u32> = PlaylistTracks::from_cached_length(ID, 4);
    assert!(matches!(cursor.step(PullEvent::Start), PullAction::ReadCache));
    assert!(matches!(
        cursor.step(PullEvent::CacheRead(CacheEntry::Missing)),
        PullAction::FetchPage { offset: 0, limit: 20 }
    ));
    assert!(matches!(cursor.step(PullEvent::PageFetched(VecDeque::new())), PullAction::End));
    assert_eq!(cursor.offset(), 1);
}

#[test]
fn forced_refresh_fetches_first_page_and_overwrites_length() {
    let mut lengths = Cache::new();
    lengths.insert(ID.as_bytes().to_vec(), length_record(3));
    let mut remote = Remote { total: 30, calls: Vec::new() };
    let cursor = begin(true, &mut lengths, &mut remote);
    assert_eq!(remote.calls, vec![(0, 20)]);
    assert_eq!(cursor.total(), 30);
    assert_eq!(lengths.get(ID.as_bytes()), Some(&vec![0u8, 0, 0, 30]));
    assert!(matches!(plan_traversal(true, Some(&[0, 0, 0, 3])), TracksSource::FirstPage { offset: 0, limit: 20 }));
}

#[test]
fn plan_uses_cached_length_only_when_well_formed() {
    assert!(matches!(plan_traversal(false, Some(&[0, 0, 1, 2])), TracksSource::CachedLength(258)));
    assert!(matches!(plan_traversal(false, Some(&[1, 2, 3])), TracksSource::FirstPage { offset: 0, limit: 20 }));
    assert!(matches!(plan_traversal(false, None), TracksSource::FirstPage { offset: 0, limit: 20 }));
}

#[test]
fn length_records_are_big_endian() {
    assert_eq!(encode_length(0x01020304), vec![1, 2, 3, 4]);
    assert_eq!(length_record(u32::MAX), vec![255, 255, 255, 255]);
    assert_eq!(decode_length(&[1, 2, 3, 4]), Some(0x01020304));
    assert_eq!(decode_length(&[]), None);
    assert_eq!(decode_length(&[0, 0, 0, 0, 1]), None);
}

#[test]
fn composite_keys_follow_index_order() {
    assert_eq!(make_key(b"ab", 258), vec![b'a', b'b', 0, 0, 1, 2]);
    let indices = [0u32, 1, 255, 256, 65535, 65536, 16777216, u32::MAX];
    for w in indices.windows(2) {
        assert!(make_key(b"ab", w[0]) < make_key(b"ab", w[1]));
    }
}

#[test]
fn cursor_keys_address_the_offset() {
    let mut cursor: PlaylistTracks<u32> = PlaylistTracks::from_cached_length("xy", 10);
    assert_eq!(cursor.cache_key(), &[b'x', b'y', 0, 0, 0, 0][..]);
    assert_eq!(cursor.playlist_id(), "xy");
    assert!(cursor.set_page_key(300));
    assert_eq!(cursor.cache_key(), &[b'x', b'y', 0, 0, 1, 44][..]);
    assert!(!cursor.set_page_key(u32::MAX as usize + 1));
    assert_eq!(cursor.cache_key(), &[b'x', b'y', 0, 0, 1, 44][..]);
}

#[test]
fn client_config_starts_empty() {
    let mut config = ClientConfig::new();
    assert_eq!(config.client_id, "");
    assert_eq!(config.client_secret, "");
    assert_eq!(config.device_id, None);
    config.load(ClientConfig {
        client_id: "id".to_string(),
        client_secret: "SECRET-REDACTED".to_string(),
        device_id: Some("dev".to_string()),
    });
    assert_eq!(config.client_id, "id");
    assert_eq!(config.device_id.as_deref(), Some("dev"));
}
