//! The release year shown beside a track.
use vstd::prelude::*;
use vstd::string::StringSliceAdditionalSpecFns;

verus! {

/// An ASCII decimal digit.
pub open spec fn is_digit(c: u8) -> bool {
    48 <= c <= 57
}

/// The number written by a string of decimal digits.
pub open spec fn digits_value(d: Seq<u8>) -> int
    decreases d.len(),
{
    if d.len() == 0 {
        0
    } else {
        digits_value(d.drop_last()) * 10 + (d.last() - 48)
    }
}

/// The digits of a decimal number, without its optional leading `+`.
pub open spec fn unsigned_digits(b: Seq<u8>) -> Seq<u8> {
    if b.len() > 0 && b[0] == 43 {
        b.drop_first()
    } else {
        b
    }
}

/// A `u16` read from text: an optional `+`, then one or more decimal digits,
/// whose value fits.
pub open spec fn parse_u16_spec(b: Seq<u8>) -> Option<u16> {
    let d = unsigned_digits(b);
    if d.len() > 0 && (forall|i: int| 0 <= i < d.len() ==> is_digit(#[trigger] d[i]))
        && digits_value(d) <= 65535 {
        Some(digits_value(d) as u16)
    } else {
        None
    }
}

/// Why a release date gives no year.
pub enum YearError {
    /// The precision is neither `day` nor `year`.
    UnknownPrecision,
    /// The text where the year stands is not a number that fits.
    BadYear,
}

/// The bytes of the precision `day`.
pub open spec fn day_bytes() -> Seq<u8> {
    seq![100u8, 97u8, 121u8]
}

/// The bytes of the precision `year`.
pub open spec fn year_bytes() -> Seq<u8> {
    seq![121u8, 101u8, 97u8, 114u8]
}

/// The release year of a date given with its precision: the first four
/// characters of a `day` date, the whole of a `year` date; nothing when the
/// date or its precision is missing.
pub open spec fn year_spec(date: Option<Seq<u8>>, precision: Option<Seq<u8>>) -> Result<
    Option<u16>,
    YearError,
> {
    match (date, precision) {
        (Some(t), Some(p)) => {
            let text = if p == day_bytes() && t.len() >= 4 {
                Some(t.subrange(0, 4))
            } else if p == year_bytes() {
                Some(t)
            } else {
                None
            };
            if p != day_bytes() && p != year_bytes() {
                Err(YearError::UnknownPrecision)
            } else {
                match text {
                    Some(x) => match parse_u16_spec(x) {
                        Some(y) => Ok(Some(y)),
                        None => Err(YearError::BadYear),
                    },
                    None => Err(YearError::BadYear),
                }
            }
        },
        _ => Ok(None),
    }
}

proof fn lemma_digits_value_grows(d: Seq<u8>, k: int)
    requires
        0 <= k <= d.len(),
        forall|i: int| 0 <= i < d.len() ==> is_digit(#[trigger] d[i]),
    ensures
        digits_value(d) >= digits_value(d.subrange(0, k)),
        digits_value(d) >= 0,
    decreases d.len(),
{
    if d.len() > 0 {
        let p = d.drop_last();
        assert forall|i: int| 0 <= i < p.len() implies is_digit(#[trigger] p[i]) by {
            assert(p[i] == d[i]);
        }
        if k < d.len() {
            lemma_digits_value_grows(p, k);
            assert(p.subrange(0, k) =~= d.subrange(0, k));
        } else {
            lemma_digits_value_grows(p, 0);
            assert(d.subrange(0, k) =~= d);
        }
    }
}

/// Reads a `u16` from text as `str::parse` does.
pub fn parse_u16(b: &[u8]) -> (r: Option<u16>)
    ensures
        r == parse_u16_spec(b@),
{
    let start: usize = if b.len() > 0 && b[0] == 43 {
        1
    } else {
        0
    };
    let ghost d = unsigned_digits(b@);
    assert(d =~= b@.subrange(start as int, b@.len() as int));
    if start == b.len() {
        return None;
    }
    let mut acc: u32 = 0;
    let mut i: usize = start;
    while i < b.len()
        invariant
            start <= i <= b@.len(),
            d == b@.subrange(start as int, b@.len() as int),
            d == unsigned_digits(b@),
            acc as int == digits_value(d.subrange(0, i - start)),
            acc <= 65535,
            forall|k: int| 0 <= k < i - start ==> is_digit(#[trigger] d[k]),
        decreases b@.len() - i,
    {
        let c = b[i];
        assert(d[i - start] == c);
        if c < 48 || c > 57 {
            assert(!is_digit(d[i - start]));
            return None;
        }
        assert(d.subrange(0, i + 1 - start).drop_last() =~= d.subrange(0, i - start));
        assert(d.subrange(0, i + 1 - start).last() == c);
        acc = acc * 10 + (c - 48) as u32;
        i += 1;
        assert(acc as int == digits_value(d.subrange(0, i - start)));
        if acc > 65535 {
            proof {
                if forall|k: int| 0 <= k < d.len() ==> is_digit(#[trigger] d[k]) {
                    lemma_digits_value_grows(d, i - start);
                }
            }
            return None;
        }
    }
    assert(d.subrange(0, i - start) =~= d);
    Some(acc as u16)
}

/// The release year of a track, from its release date and that date's precision.
pub fn year(release_date: Option<&str>, precision: Option<&str>) -> (r: Result<Option<u16>, YearError>)
    ensures
        r == year_spec(
            match release_date {
                Some(t) => Some(t.spec_bytes()),
                None => None,
            },
            match precision {
                Some(p) => Some(p.spec_bytes()),
                None => None,
            },
        ),
{
    let (text, p) = match (release_date, precision) {
        (Some(t), Some(p)) => (t.as_bytes(), p.as_bytes()),
        _ => {
            return Ok(None);
        },
    };
    let is_day = p.len() == 3 && p[0] == 100 && p[1] == 97 && p[2] == 121;
    let is_year = p.len() == 4 && p[0] == 121 && p[1] == 101 && p[2] == 97 && p[3] == 114;
    assert(is_day == (p@ == day_bytes())) by {
        if p@.len() == 3 {
            assert(is_day ==> p@ =~= day_bytes());
        }
    }
    assert(is_year == (p@ == year_bytes())) by {
        if p@.len() == 4 {
            assert(is_year ==> p@ =~= year_bytes());
        }
    }
    if !is_day && !is_year {
        return Err(YearError::UnknownPrecision);
    }
    let parsed = if is_day {
        if text.len() < 4 {
            return Err(YearError::BadYear);
        }
        let (head, _) = text.split_at(4);
        parse_u16(head)
    } else {
        parse_u16(text)
    };
    match parsed {
        Some(y) => Ok(Some(y)),
        None => Err(YearError::BadYear),
    }
}

} // verus!
