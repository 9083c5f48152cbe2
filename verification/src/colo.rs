//! Edge-location ("colo") extraction from CDN response headers.
//!
//! A colo is named by three consecutive uppercase ASCII letters, the first
//! such run found in the relevant header value. Which header is relevant
//! depends on the `Server` header: a byte-exact `cloudflare` selects
//! `CF-RAY`, anything else selects `x-amz-cf-pop`.

use vstd::prelude::*;

use crate::text::is_upper;
use crate::text::trim;
use crate::text::upper_seq;

verus! {

/// The first run of three consecutive uppercase ASCII letters in `s`,
/// or nothing when no such run exists.
pub open spec fn find_colo(s: Seq<char>) -> Option<Seq<char>>
    decreases s.len(),
{
    if s.len() < 3 {
        None
    } else if is_upper(s[0]) && is_upper(s[1]) && is_upper(s[2]) {
        Some(s.subrange(0, 3))
    } else {
        find_colo(s.skip(1))
    }
}

fn is_upper_exec(c: char) -> (r: bool)
    ensures
        r == is_upper(c),
{
    'A' <= c && c <= 'Z'
}

/// Scans a header value for the first run of three consecutive uppercase
/// ASCII letters, per [`find_colo`].
pub fn get_colo(cf_ray: &str) -> (r: Option<String>)
    ensures
        match r {
            Option::None => find_colo(cf_ray@) is None,
            Option::Some(c) => find_colo(cf_ray@) == Some(c@),
        },
{
    let n = cf_ray.unicode_len();
    if n < 3 {
        return None;
    }
    let mut i: usize = 0;
    proof {
        assert(cf_ray@.skip(0) =~= cf_ray@);
    }
    while i <= n - 3
        invariant
            n == cf_ray@.len(),
            3 <= n,
            0 <= i <= n,
            find_colo(cf_ray@) == find_colo(cf_ray@.skip(i as int)),
        decreases n - i,
    {
        let c0 = cf_ray.get_char(i);
        let c1 = cf_ray.get_char(i + 1);
        let c2 = cf_ray.get_char(i + 2);
        if is_upper_exec(c0) && is_upper_exec(c1) && is_upper_exec(c2) {
            proof {
                let t = cf_ray@.skip(i as int);
                assert(t.subrange(0, 3) =~= cf_ray@.subrange(i as int, i + 3));
                assert(find_colo(t) == Some(cf_ray@.subrange(i as int, i + 3)));
            }
            let code = cf_ray.substring_char(i, i + 3);
            return Some(code.to_owned());
        }
        proof {
            let t = cf_ray@.skip(i as int);
            assert(t.skip(1) =~= cf_ray@.skip(i + 1));
        }
        i = i + 1;
    }
    proof {
        assert(cf_ray@.skip(i as int).len() < 3);
    }
    None
}

/// The pieces of `s` between commas, in order. The empty string is one
/// empty piece; every comma separates two pieces.
pub open spec fn split_commas(s: Seq<char>) -> Seq<Seq<char>>
    decreases s.len(),
{
    if s.len() == 0 {
        seq![Seq::<char>::empty()]
    } else if s[0] == ',' {
        seq![Seq::<char>::empty()] + split_commas(s.skip(1))
    } else {
        let rest = split_commas(s.skip(1));
        seq![seq![s[0]] + rest[0]] + rest.skip(1)
    }
}

pub proof fn lemma_split_commas_len(s: Seq<char>)
    ensures
        split_commas(s).len() >= 1,
    decreases s.len(),
{
    if s.len() > 0 {
        lemma_split_commas_len(s.skip(1));
    }
}

/// Peels the first piece off `split_commas`: if `t` has no comma before
/// position `j`, and `j` is a comma or the end, then the split starts with
/// `t.take(j)` and continues after the comma.
pub proof fn lemma_split_first_piece(t: Seq<char>, j: int)
    requires
        0 <= j <= t.len(),
        forall|i: int| 0 <= i < j ==> t[i] != ',',
        j == t.len() || t[j] == ',',
    ensures
        j == t.len() ==> split_commas(t) == seq![t],
        j < t.len() ==> split_commas(t) == seq![t.take(j)] + split_commas(t.skip(j + 1)),
    decreases j,
{
    lemma_split_commas_len(t);
    if j == 0 {
        if t.len() == 0 {
            assert(t =~= Seq::<char>::empty());
        } else {
            assert(t.take(0) =~= Seq::<char>::empty());
        }
    } else {
        let u = t.skip(1);
        lemma_split_commas_len(u);
        lemma_split_first_piece(u, j - 1);
        let rest = split_commas(u);
        if j == t.len() {
            assert(rest == seq![u]);
            assert(seq![t[0]] + rest[0] =~= t);
            assert(rest.skip(1) =~= Seq::<Seq<char>>::empty());
            assert(seq![seq![t[0]] + rest[0]] + rest.skip(1) =~= seq![t]);
        } else {
            assert(u[j - 1] == t[j]);
            assert(rest == seq![u.take(j - 1)] + split_commas(u.skip(j)));
            assert(rest[0] == u.take(j - 1));
            assert(seq![t[0]] + u.take(j - 1) =~= t.take(j));
            assert(rest.skip(1) =~= split_commas(u.skip(j)));
            assert(u.skip(j) =~= t.skip(j + 1));
            assert(seq![seq![t[0]] + rest[0]] + rest.skip(1) =~= seq![t.take(j)] + split_commas(
                t.skip(j + 1),
            ));
        }
    }
}

/// An allow-list entry as it enters the allow-set: surrounding whitespace
/// removed, then uppercased.
pub open spec fn normalize_entry(p: Seq<char>) -> Seq<char> {
    upper_seq(trim(p))
}

/// Every piece mapped through [`normalize_entry`].
pub open spec fn normalized_pieces(pieces: Seq<Seq<char>>) -> Seq<Seq<char>> {
    pieces.map_values(|p: Seq<char>| normalize_entry(p))
}

/// The allow-set denoted by a comma-separated list: each piece trimmed,
/// uppercased, and collected into a set (duplicates fold away).
pub open spec fn colo_set(s: Seq<char>) -> Set<Seq<char>> {
    normalized_pieces(split_commas(s)).to_set()
}

/// The response headers the probe logic reads, as plain values. `server`
/// holds the raw bytes of the `Server` header; the two location headers are
/// present only when the header exists and its value is valid UTF-8.
pub struct ResponseHeaders {
    pub server: Option<Vec<u8>>,
    pub cf_ray: Option<String>,
    pub x_amz_cf_pop: Option<String>,
}

/// The bytes of the exact `Server` value that selects the `CF-RAY` header.
pub open spec fn cloudflare_bytes() -> Seq<u8> {
    seq![
        'c' as u8,
        'l' as u8,
        'o' as u8,
        'u' as u8,
        'd' as u8,
        'f' as u8,
        'l' as u8,
        'a' as u8,
        'r' as u8,
        'e' as u8,
    ]
}

/// Whether the `Server` header is byte-exactly `cloudflare`.
pub open spec fn is_cloudflare_server(server: Option<Vec<u8>>) -> bool {
    match server {
        Some(v) => v@ == cloudflare_bytes(),
        None => false,
    }
}

/// The colo named by a header map: the three-letter code found in `CF-RAY`
/// when the server is Cloudflare, otherwise in `x-amz-cf-pop`; nothing when
/// the chosen header is absent or names no code.
pub open spec fn header_colo(h: ResponseHeaders) -> Option<Seq<char>> {
    let chosen = if is_cloudflare_server(h.server) {
        h.cf_ray
    } else {
        h.x_amz_cf_pop
    };
    match chosen {
        Some(s) => find_colo(s@),
        None => None,
    }
}

fn is_cloudflare_exec(server: &Option<Vec<u8>>) -> (r: bool)
    ensures
        r == is_cloudflare_server(*server),
{
    match server {
        Some(v) => {
            if v.len() != 10 {
                return false;
            }
            let r = v[0] == 'c' as u8 && v[1] == 'l' as u8 && v[2] == 'o' as u8 && v[3] == 'u' as u8
                && v[4] == 'd' as u8 && v[5] == 'f' as u8 && v[6] == 'l' as u8 && v[7] == 'a' as u8
                && v[8] == 'r' as u8 && v[9] == 'e' as u8;
            proof {
                if r {
                    assert(v@ =~= cloudflare_bytes());
                } else {
                    assert(v@ != cloudflare_bytes());
                }
            }
            r
        },
        None => false,
    }
}

/// Extracts the colo named by the headers, per [`header_colo`].
pub fn extract_colo(h: &ResponseHeaders) -> (r: Option<String>)
    ensures
        match r {
            Option::None => header_colo(*h) is None,
            Option::Some(c) => header_colo(*h) == Some(c@),
        },
{
    let chosen: &Option<String> = if is_cloudflare_exec(&h.server) {
        &h.cf_ray
    } else {
        &h.x_amz_cf_pop
    };
    match chosen {
        None => None,
        Some(s) => get_colo(s.as_str()),
    }
}

} // verus!
