//! Reading a playlist id out of the command-line argument: a bare id, a
//! `spotify:playlist:` URI, or an `open.spotify.com` link, optionally followed
//! by a `?si=` share token.
//!
//! In the host part of the link each `.` stands for any character but a line
//! break, and the share token may be preceded by one `:`.
use vstd::prelude::*;

verus! {

/// Length of a playlist id.
pub const ID_LEN: usize = 22;

/// `https://open`
pub open spec fn scheme_host() -> Seq<char> {
    seq!['h', 't', 't', 'p', 's', ':', '/', '/', 'o', 'p', 'e', 'n']
}

/// `spotify`
pub open spec fn service_word() -> Seq<char> {
    seq!['s', 'p', 'o', 't', 'i', 'f', 'y']
}

/// `com/playlist/`
pub open spec fn playlist_path() -> Seq<char> {
    seq!['c', 'o', 'm', '/', 'p', 'l', 'a', 'y', 'l', 'i', 's', 't', '/']
}

/// `spotify:playlist:`
pub open spec fn uri_prefix() -> Seq<char> {
    seq!['s', 'p', 'o', 't', 'i', 'f', 'y', ':', 'p', 'l', 'a', 'y', 'l', 'i', 's', 't', ':']
}

/// `?si=`
pub open spec fn share_marker() -> Seq<char> {
    seq!['?', 's', 'i', '=']
}

/// A character of a playlist id: an ASCII letter or digit.
pub open spec fn is_id_char(c: char) -> bool {
    ('0' <= c && c <= '9') || ('A' <= c && c <= 'Z') || ('a' <= c && c <= 'z')
}

/// A character of a share token.
pub open spec fn is_token_char(c: char) -> bool {
    is_id_char(c) || c == '-' || c == '_'
}

/// `s` starts with a prefix of length `p` that a link may have before the id.
pub open spec fn prefix_matches(s: Seq<char>, p: int) -> bool {
    ||| p == 0
    ||| p == 17 && s.len() >= 17 && s.subrange(0, 17) == uri_prefix()
    ||| p == 34 && s.len() >= 34 && s.subrange(0, 12) == scheme_host() && s[12] != '\n'
        && s.subrange(13, 20) == service_word() && s[20] != '\n' && s.subrange(21, 34)
        == playlist_path()
}

/// `s` holds an id at position `p`.
pub open spec fn id_at(s: Seq<char>, p: int) -> bool {
    &&& 0 <= p
    &&& p + 22 <= s.len()
    &&& forall|i: int| p <= i < p + 22 ==> is_id_char(#[trigger] s[i])
}

/// `t` without its leading `:`, if it has one.
pub open spec fn strip_colon(t: Seq<char>) -> Seq<char> {
    if t.len() > 0 && t[0] == ':' {
        t.drop_first()
    } else {
        t
    }
}

/// `u` is `?si=` followed by a share token.
pub open spec fn share_token(u: Seq<char>) -> bool {
    &&& u.len() >= 4
    &&& u.subrange(0, 4) == share_marker()
    &&& forall|i: int| 4 <= i < u.len() ==> is_token_char(#[trigger] u[i])
}

/// What may follow the id: nothing, or an optional `:`, `?si=` and a token.
pub open spec fn suffix_ok(t: Seq<char>) -> bool {
    t.len() == 0 || share_token(strip_colon(t))
}

/// The whole of `s` is a link whose id starts at `p`.
pub open spec fn link_matches_at(s: Seq<char>, p: int) -> bool {
    prefix_matches(s, p) && id_at(s, p) && suffix_ok(s.subrange(p + 22, s.len() as int))
}

/// The playlist id that the link `s` holds, if it is a link.
pub open spec fn playlist_id_of(s: Seq<char>) -> Option<Seq<char>> {
    if link_matches_at(s, 34) {
        Some(s.subrange(34, 56))
    } else if link_matches_at(s, 17) {
        Some(s.subrange(17, 39))
    } else if link_matches_at(s, 0) {
        Some(s.subrange(0, 22))
    } else {
        None
    }
}

fn is_id_char_exec(c: char) -> (r: bool)
    ensures
        r == is_id_char(c),
{
    ('0' <= c && c <= '9') || ('A' <= c && c <= 'Z') || ('a' <= c && c <= 'z')
}

/// Whether `lit` stands in `s` at `at`.
fn literal_at(s: &[char], at: usize, lit: &Vec<char>) -> (r: bool)
    ensures
        r == (at + lit@.len() <= s@.len() && s@.subrange(at as int, at + lit@.len()) == lit@),
{
    if at > s.len() || lit.len() > s.len() - at {
        return false;
    }
    let mut i: usize = 0;
    while i < lit.len()
        invariant
            i <= lit@.len(),
            at + lit.len() <= s.len(),
            forall|k: int| 0 <= k < i ==> s@[at + k] == lit@[k],
        decreases lit@.len() - i,
    {
        if s[at + i] != lit[i] {
            assert(s@.subrange(at as int, at + lit@.len())[i as int] != lit@[i as int]);
            return false;
        }
        i += 1;
    }
    assert(s@.subrange(at as int, at + lit@.len()) =~= lit@);
    true
}

fn prefix_matches_exec(s: &[char], p: usize) -> (r: bool)
    requires
        p == 0 || p == 17 || p == 34,
    ensures
        r == prefix_matches(s@, p as int),
{
    if p == 0 {
        true
    } else if p == 17 {
        let lit = vec![
            's', 'p', 'o', 't', 'i', 'f', 'y', ':', 'p', 'l', 'a', 'y', 'l', 'i', 's', 't', ':',
        ];
        assert(lit@ =~= uri_prefix());
        literal_at(s, 0, &lit)
    } else {
        let host = vec!['h', 't', 't', 'p', 's', ':', '/', '/', 'o', 'p', 'e', 'n'];
        let word = vec!['s', 'p', 'o', 't', 'i', 'f', 'y'];
        let path = vec!['c', 'o', 'm', '/', 'p', 'l', 'a', 'y', 'l', 'i', 's', 't', '/'];
        assert(host@ =~= scheme_host());
        assert(word@ =~= service_word());
        assert(path@ =~= playlist_path());
        s.len() >= 34 && literal_at(s, 0, &host) && s[12] != '\n' && literal_at(s, 13, &word)
            && s[20] != '\n' && literal_at(s, 21, &path)
    }
}

fn id_at_exec(s: &[char], p: usize) -> (r: bool)
    ensures
        r == id_at(s@, p as int),
{
    if p > s.len() || s.len() - p < ID_LEN {
        return false;
    }
    let end: usize = p + ID_LEN;
    let mut i: usize = p;
    while i < end
        invariant
            end == p + 22,
            p <= i <= p + 22,
            p + 22 <= s@.len(),
            forall|k: int| p <= k < i ==> is_id_char(#[trigger] s@[k]),
        decreases p + 22 - i,
    {
        if !is_id_char_exec(s[i]) {
            return false;
        }
        i += 1;
    }
    true
}

fn suffix_ok_exec(s: &[char], from: usize) -> (r: bool)
    requires
        from <= s@.len(),
    ensures
        r == suffix_ok(s@.subrange(from as int, s@.len() as int)),
{
    let ghost t = s@.subrange(from as int, s@.len() as int);
    if from == s.len() {
        return true;
    }
    let start: usize = if s[from] == ':' {
        from + 1
    } else {
        from
    };
    let ghost u = s@.subrange(start as int, s@.len() as int);
    assert(u =~= strip_colon(t));
    let marker = vec!['?', 's', 'i', '='];
    assert(marker@ =~= share_marker());
    if !literal_at(s, start, &marker) {
        assert(u.len() >= 4 ==> u.subrange(0, 4) =~= s@.subrange(start as int, start + 4));
        return false;
    }
    assert(u.subrange(0, 4) =~= s@.subrange(start as int, start + 4));
    let mut i: usize = start + 4;
    while i < s.len()
        invariant
            start + 4 <= i <= s@.len(),
            u == s@.subrange(start as int, s@.len() as int),
            from < s@.len(),
            t == s@.subrange(from as int, s@.len() as int),
            t.len() > 0,
            u == strip_colon(t),
            u.len() >= 4 && u.subrange(0, 4) == share_marker(),
            forall|k: int| 4 <= k < i - start ==> is_token_char(#[trigger] u[k]),
        decreases s@.len() - i,
    {
        let c = s[i];
        assert(u[i - start] == c);
        if !(is_id_char_exec(c) || c == '-' || c == '_') {
            assert(!is_token_char(u[i - start]));
            return false;
        }
        i += 1;
    }
    true
}

fn link_matches_at_exec(s: &[char], p: usize) -> (r: bool)
    requires
        p == 0 || p == 17 || p == 34,
    ensures
        r == link_matches_at(s@, p as int),
{
    prefix_matches_exec(s, p) && id_at_exec(s, p) && suffix_ok_exec(s, p + ID_LEN)
}

fn copy_id(s: &[char], p: usize) -> (r: Vec<char>)
    requires
        p + 22 <= s.len(),
    ensures
        r@ == s@.subrange(p as int, p + 22),
{
    let mut r: Vec<char> = Vec::new();
    let end: usize = p + ID_LEN;
    let mut i: usize = p;
    while i < end
        invariant
            end == p + 22,
            p <= i <= p + 22,
            p + 22 <= s@.len(),
            r@ == s@.subrange(p as int, i as int),
        decreases p + 22 - i,
    {
        r.push(s[i]);
        i += 1;
        assert(r@ =~= s@.subrange(p as int, i as int));
    }
    r
}

/// The playlist id held by a link, a URI or a bare id; `None` when the text is
/// none of these.
pub fn parse_playlist_link(url: &[char]) -> (r: Option<Vec<char>>)
    ensures
        match r {
            Some(id) => playlist_id_of(url@) == Some(id@),
            None => playlist_id_of(url@) is None,
        },
{
    if link_matches_at_exec(url, 34) {
        Some(copy_id(url, 34))
    } else if link_matches_at_exec(url, 17) {
        Some(copy_id(url, 17))
    } else if link_matches_at_exec(url, 0) {
        Some(copy_id(url, 0))
    } else {
        None
    }
}

} // verus!
