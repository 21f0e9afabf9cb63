//! The display order of tracks: by release date, then artist names, then
//! number of artists, then album name, then track number, then track name.
use std::cmp::Ordering;
use vstd::prelude::*;

verus! {

/// What the display order reads of a track. Text is held as its UTF-8 bytes,
/// whose lexicographic order is the order of the text.
pub struct TrackSortKey {
    pub release_date: Option<Vec<u8>>,
    pub artist_names: Vec<Vec<u8>>,
    pub album_name: Vec<u8>,
    pub track_number: u32,
    pub name: Vec<u8>,
}

/// Byte-lexicographic comparison; a proper prefix comes first.
pub open spec fn bytes_cmp(a: Seq<u8>, b: Seq<u8>) -> Ordering
    decreases a.len(),
{
    if a.len() == 0 {
        if b.len() == 0 {
            Ordering::Equal
        } else {
            Ordering::Less
        }
    } else if b.len() == 0 {
        Ordering::Greater
    } else if a[0] < b[0] {
        Ordering::Less
    } else if a[0] > b[0] {
        Ordering::Greater
    } else {
        bytes_cmp(a.drop_first(), b.drop_first())
    }
}

/// Integer comparison.
pub open spec fn int_cmp(a: int, b: int) -> Ordering {
    if a < b {
        Ordering::Less
    } else if a > b {
        Ordering::Greater
    } else {
        Ordering::Equal
    }
}

/// A missing date comes before any date.
pub open spec fn date_cmp(a: Option<Vec<u8>>, b: Option<Vec<u8>>) -> Ordering {
    match (a, b) {
        (None, None) => Ordering::Equal,
        (None, Some(_)) => Ordering::Less,
        (Some(_), None) => Ordering::Greater,
        (Some(x), Some(y)) => bytes_cmp(x@, y@),
    }
}

/// The first difference between the names at equal positions; `Equal` when
/// the shorter list is a prefix of the longer.
pub open spec fn names_cmp(a: Seq<Vec<u8>>, b: Seq<Vec<u8>>) -> Ordering
    decreases a.len(),
{
    if a.len() == 0 || b.len() == 0 {
        Ordering::Equal
    } else if bytes_cmp(a[0]@, b[0]@) != Ordering::Equal {
        bytes_cmp(a[0]@, b[0]@)
    } else {
        names_cmp(a.drop_first(), b.drop_first())
    }
}

/// `first`, unless it is `Equal`: then `second`.
pub open spec fn then_cmp(first: Ordering, second: Ordering) -> Ordering {
    if first == Ordering::Equal {
        second
    } else {
        first
    }
}

/// The display order of two tracks.
pub open spec fn track_order(a: TrackSortKey, b: TrackSortKey) -> Ordering {
    then_cmp(
        date_cmp(a.release_date, b.release_date),
        then_cmp(
            names_cmp(a.artist_names@, b.artist_names@),
            then_cmp(
                int_cmp(a.artist_names@.len() as int, b.artist_names@.len() as int),
                then_cmp(
                    bytes_cmp(a.album_name@, b.album_name@),
                    then_cmp(
                        int_cmp(a.track_number as int, b.track_number as int),
                        bytes_cmp(a.name@, b.name@),
                    ),
                ),
            ),
        ),
    )
}

/// Compares two byte strings lexicographically.
pub fn compare_bytes(a: &[u8], b: &[u8]) -> (r: Ordering)
    ensures
        r == bytes_cmp(a@, b@),
{
    let mut i: usize = 0;
    assert(a@.subrange(0, a@.len() as int) =~= a@);
    assert(b@.subrange(0, b@.len() as int) =~= b@);
    while i < a.len() && i < b.len()
        invariant
            i <= a@.len(),
            i <= b@.len(),
            bytes_cmp(a@, b@) == bytes_cmp(a@.subrange(i as int, a@.len() as int), b@.subrange(
                i as int,
                b@.len() as int,
            )),
        decreases a@.len() - i,
    {
        let (x, y) = (a[i], b[i]);
        if x < y {
            return Ordering::Less;
        }
        if x > y {
            return Ordering::Greater;
        }
        let ghost (sa, sb) = (a@.subrange(i as int, a@.len() as int), b@.subrange(i as int, b@.len() as int));
        assert(sa.drop_first() =~= a@.subrange(i + 1, a@.len() as int));
        assert(sb.drop_first() =~= b@.subrange(i + 1, b@.len() as int));
        i += 1;
    }
    if i < b.len() {
        Ordering::Less
    } else if i < a.len() {
        Ordering::Greater
    } else {
        Ordering::Equal
    }
}

fn compare_u64(a: u64, b: u64) -> (r: Ordering)
    ensures
        r == int_cmp(a as int, b as int),
{
    if a < b {
        Ordering::Less
    } else if a > b {
        Ordering::Greater
    } else {
        Ordering::Equal
    }
}

fn compare_dates(a: &Option<Vec<u8>>, b: &Option<Vec<u8>>) -> (r: Ordering)
    ensures
        r == date_cmp(*a, *b),
{
    match (a, b) {
        (None, None) => Ordering::Equal,
        (None, Some(_)) => Ordering::Less,
        (Some(_), None) => Ordering::Greater,
        (Some(x), Some(y)) => compare_bytes(x.as_slice(), y.as_slice()),
    }
}

fn compare_names(a: &Vec<Vec<u8>>, b: &Vec<Vec<u8>>) -> (r: Ordering)
    ensures
        r == names_cmp(a@, b@),
{
    let mut i: usize = 0;
    assert(a@.subrange(0, a@.len() as int) =~= a@);
    assert(b@.subrange(0, b@.len() as int) =~= b@);
    while i < a.len() && i < b.len()
        invariant
            i <= a@.len(),
            i <= b@.len(),
            names_cmp(a@, b@) == names_cmp(a@.subrange(i as int, a@.len() as int), b@.subrange(
                i as int,
                b@.len() as int,
            )),
        decreases a@.len() - i,
    {
        let c = compare_bytes(a[i].as_slice(), b[i].as_slice());
        match c {
            Ordering::Equal => {},
            _ => {
                return c;
            },
        }
        let ghost (sa, sb) = (a@.subrange(i as int, a@.len() as int), b@.subrange(i as int, b@.len() as int));
        assert(sa.drop_first() =~= a@.subrange(i + 1, a@.len() as int));
        assert(sb.drop_first() =~= b@.subrange(i + 1, b@.len() as int));
        i += 1;
    }
    Ordering::Equal
}

/// Compares two tracks in display order.
pub fn playlist_track_sort_cmp(a: &TrackSortKey, b: &TrackSortKey) -> (r: Ordering)
    ensures
        r == track_order(*a, *b),
{
    match compare_dates(&a.release_date, &b.release_date) {
        Ordering::Equal => {},
        other => {
            return other;
        },
    }
    match compare_names(&a.artist_names, &b.artist_names) {
        Ordering::Equal => {},
        other => {
            return other;
        },
    }
    match compare_u64(a.artist_names.len() as u64, b.artist_names.len() as u64) {
        Ordering::Equal => {},
        other => {
            return other;
        },
    }
    match compare_bytes(a.album_name.as_slice(), b.album_name.as_slice()) {
        Ordering::Equal => {},
        other => {
            return other;
        },
    }
    match compare_u64(a.track_number as u64, b.track_number as u64) {
        Ordering::Equal => {},
        other => {
            return other;
        },
    }
    compare_bytes(a.name.as_slice(), b.name.as_slice())
}

} // verus!
