//! A cache-backed cursor over a paginated remote playlist.
//!
//! The decisions of the cursor (which source resolves the next track, when a
//! page must be fetched, where a track is stored in the cache) live here as a
//! state machine with exact contracts; the caller performs the cache and
//! network operations that the machine asks for.
pub mod config;
pub mod fetcher;
pub mod key;
pub mod link;
pub mod order;
pub mod tracks;
pub mod year;

pub use config::ClientConfig;
pub use fetcher::{length_record, plan_traversal, TracksSource};
pub use key::{decode_length, encode_length, make_key};
pub use link::parse_playlist_link;
pub use order::{playlist_track_sort_cmp, TrackSortKey};
pub use tracks::{CacheEntry, PlaylistTracks, PullAction, PullEvent, SEARCH_LIMIT};
pub use year::{parse_u16, year, YearError};
