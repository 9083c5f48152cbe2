//! Acceptance policy for probe responses: the status-code rule, the
//! allow-list of edge locations, and the gating initial check that combines
//! the two.

use vstd::prelude::*;

use crate::colo::ResponseHeaders;
use crate::colo::colo_set;
use crate::colo::header_colo;
use crate::colo::extract_colo;
use crate::colo::lemma_split_first_piece;
use crate::colo::normalize_entry;
use crate::colo::normalized_pieces;
use crate::colo::split_commas;
use crate::config::Config;
use crate::text::to_upper_string;
use crate::text::trim_str;

verus! {

/// Whether the status rule `rule` accepts the response status `status`:
/// `0` accepts only status `0` (and so rejects every real response), a
/// value in `100..=599` accepts exactly itself, and any other value
/// accepts `200`, `301` and `302`.
pub open spec fn spec_status_accepted(rule: u16, status: u16) -> bool {
    if rule != 0 && (rule < 100 || rule > 599) {
        status == 200 || status == 301 || status == 302
    } else {
        status == rule
    }
}

/// Applies the status rule, per [`spec_status_accepted`].
pub fn status_accepted(rule: u16, status: u16) -> (r: bool)
    ensures
        r == spec_status_accepted(rule, status),
{
    if rule != 0 && (rule < 100 || rule > 599) {
        status == 200 || status == 301 || status == 302
    } else {
        status == rule
    }
}

/// A rule naming a valid HTTP status accepts exactly that status.
pub proof fn lemma_status_rule_exact(rule: u16, status: u16)
    requires
        100 <= rule <= 599,
    ensures
        spec_status_accepted(rule, status) <==> status == rule,
{
}

/// The rule `0` rejects every real HTTP status.
pub proof fn lemma_status_rule_zero(status: u16)
    requires
        status != 0,
    ensures
        !spec_status_accepted(0, status),
{
}

/// A non-zero rule outside `100..=599` accepts exactly the default set
/// `200`, `301`, `302`.
pub proof fn lemma_status_rule_default(rule: u16, status: u16)
    requires
        rule != 0,
        rule < 100 || rule > 599,
    ensures
        spec_status_accepted(rule, status) <==> (status == 200 || status == 301 || status
            == 302),
{
}

/// The allow-set denoted by an optional allow-list vector.
pub open spec fn allow_view(a: Option<Vec<String>>) -> Option<Set<Seq<char>>> {
    match a {
        Some(v) => Some(v.deep_view().to_set()),
        None => None,
    }
}

/// The matcher's answer: the extracted colo when it is acceptable, nothing
/// otherwise. Without an allow-set any extracted colo is acceptable; with
/// one, only a member; an unknown colo never is.
pub open spec fn spec_matched_colo(allowed: Option<Set<Seq<char>>>, h: ResponseHeaders) -> Option<
    Seq<char>,
> {
    match header_colo(h) {
        None => None,
        Some(c) => match allowed {
            None => Some(c),
            Some(set) => if set.contains(c) {
                Some(c)
            } else {
                None
            },
        },
    }
}

/// Probes one candidate address: holds the allow-set derived at
/// construction and the campaign configuration.
pub struct HttpPing {
    pub allowed_colos: Option<Vec<String>>,
    pub config: Config,
}

/// Whether the initial gating request is accepted: the status rule must
/// pass, and, only when the configured allow-list text is non-empty, the
/// matcher must accept the response's colo.
pub open spec fn spec_accept_initial(ping: HttpPing, status: u16, h: ResponseHeaders) -> bool {
    &&& spec_status_accepted(ping.config.httping_status_code, status)
    &&& (ping.config.httping_cf_colo@.len() > 0 ==> spec_matched_colo(
        allow_view(ping.allowed_colos),
        h,
    ) is Some)
}

proof fn lemma_push_to_set<A>(s: Seq<A>, y: A)
    ensures
        (s + seq![y]).to_set() == s.to_set().insert(y),
{
    let t = s + seq![y];
    assert forall|z: A| t.to_set().contains(z) implies s.to_set().insert(y).contains(z) by {
        let i = choose|i: int| 0 <= i < t.len() && t[i] == z;
        if i < s.len() {
            assert(s[i] == z);
            assert(s.contains(z));
        } else {
            assert(z == y);
        }
    };
    assert forall|z: A| s.to_set().insert(y).contains(z) implies t.to_set().contains(z) by {
        if z == y {
            assert(t[s.len() as int] == z);
        } else {
            assert(s.contains(z));
            let i = choose|i: int| 0 <= i < s.len() && s[i] == z;
            assert(t[i] == z);
        }
    };
    assert(t.to_set() =~= s.to_set().insert(y));
}

proof fn lemma_normalized_pieces_push(s: Seq<Seq<char>>, y: Seq<char>)
    ensures
        normalized_pieces(s + seq![y]) == normalized_pieces(s) + seq![normalize_entry(y)],
{
    assert(normalized_pieces(s + seq![y]) =~= normalized_pieces(s) + seq![normalize_entry(y)]);
}

fn insert_unique(v: &mut Vec<String>, s: String)
    ensures
        final(v).deep_view().to_set() == old(v).deep_view().to_set().insert(s@),
        old(v).deep_view().no_duplicates() ==> final(v).deep_view().no_duplicates(),
{
    let len = v.len();
    let mut k: usize = 0;
    while k < len
        invariant
            len == v@.len(),
            v@ == old(v)@,
            0 <= k <= len,
            forall|i: int| 0 <= i < k ==> v.deep_view()[i] != s@,
        decreases len - k,
    {
        let e = &v[k];
        if *e == s {
            proof {
                assert(v.deep_view()[k as int] == s@);
                assert(v.deep_view().contains(s@));
                assert(v.deep_view().to_set().insert(s@) =~= v.deep_view().to_set());
            }
            return ;
        }
        k = k + 1;
    }
    proof {
        assert(!old(v).deep_view().contains(s@)) by {
            if old(v).deep_view().contains(s@) {
                let i = choose|i: int|
                    0 <= i < old(v).deep_view().len() && old(v).deep_view()[i] == s@;
                assert(false);
            }
        };
    }
    v.push(s);
    proof {
        assert(v.deep_view() =~= old(v).deep_view() + seq![s@]);
        lemma_push_to_set(old(v).deep_view(), s@);
        assert forall|i: int, j: int|
            0 <= i < j < v.deep_view().len() && old(v).deep_view().no_duplicates() implies v
            .deep_view()[i] != v.deep_view()[j] by {
            if j < old(v).deep_view().len() {
            } else {
                assert(v.deep_view()[j] == s@);
                assert(old(v).deep_view()[i] != s@);
            }
        };
    }
}

fn is_comma_at(s: &str, j: usize) -> (r: bool)
    requires
        j < s@.len(),
    ensures
        r == (s@[j as int] == ','),
{
    s.get_char(j) == ','
}

impl HttpPing {
    /// Builds a prober from the configuration and an optional allow-list
    /// text; an absent or empty text leaves the prober without a colo
    /// constraint.
    pub fn new(config: Config, colo_list: Option<&str>) -> (r: Self)
        ensures
            r.config == config,
            match colo_list {
                None => r.allowed_colos is None,
                Some(s) => {
                    &&& (r.allowed_colos is None <==> s@.len() == 0)
                    &&& (s@.len() > 0 ==> allow_view(r.allowed_colos) == Some(colo_set(s@)))
                },
            },
    {
        let allowed_colos = match colo_list {
            None => None,
            Some(s) => Self::map_colo_map(s),
        };
        HttpPing { allowed_colos, config }
    }

    /// Parses a comma-separated allow-list: splits on commas, trims each
    /// piece, uppercases it, and folds duplicates away. Empty input means
    /// "no constraint" and yields nothing.
    pub fn map_colo_map(colo: &str) -> (r: Option<Vec<String>>)
        ensures
            r is None <==> colo@.len() == 0,
            match r {
                Some(v) => v.deep_view().to_set() == colo_set(colo@) && v.deep_view()
                    .no_duplicates(),
                None => colo@.len() == 0,
            },
    {
        if colo.is_empty() {
            return None;
        }
        let n = colo.unicode_len();
        let mut result: Vec<String> = Vec::new();
        let ghost mut done: Seq<Seq<char>> = Seq::empty();
        let mut start: usize = 0;
        proof {
            assert(colo@.skip(0) =~= colo@);
            assert(done + split_commas(colo@) =~= split_commas(colo@));
            assert(result.deep_view().to_set() =~= normalized_pieces(done).to_set());
        }
        loop
            invariant_except_break
                n == colo@.len(),
                0 <= start <= n,
                split_commas(colo@) == done + split_commas(colo@.skip(start as int)),
                result.deep_view().to_set() == normalized_pieces(done).to_set(),
                result.deep_view().no_duplicates(),
            ensures
                result.deep_view().to_set() == colo_set(colo@),
                result.deep_view().no_duplicates(),
            decreases n - start,
        {
            let mut j: usize = start;
            while j < n && !is_comma_at(colo, j)
                invariant
                    n == colo@.len(),
                    start <= j <= n,
                    forall|i: int| start <= i < j ==> colo@[i] != ',',
                decreases n - j,
            {
                j = j + 1;
            }
            let piece = colo.substring_char(start, j);
            let trimmed = trim_str(piece);
            let upper = to_upper_string(trimmed);
            proof {
                let t = colo@.skip(start as int);
                assert forall|i: int| 0 <= i < j - start implies t[i] != ',' by {
                    assert(t[i] == colo@[start + i]);
                };
                lemma_split_first_piece(t, j - start);
                assert(t.take(j - start) =~= colo@.subrange(start as int, j as int));
                assert(upper@ == normalize_entry(piece@));
                lemma_normalized_pieces_push(done, piece@);
                lemma_push_to_set(normalized_pieces(done), normalize_entry(piece@));
                done = done + seq![piece@];
            }
            insert_unique(&mut result, upper);
            if j == n {
                proof {
                    let t = colo@.skip(start as int);
                    assert(t.take(j - start) =~= t);
                    assert(split_commas(colo@) =~= done);
                }
                break ;
            }
            proof {
                let t = colo@.skip(start as int);
                assert(t.skip(j - start + 1) =~= colo@.skip(j + 1));
                assert(done + split_commas(colo@.skip(j + 1)) =~= split_commas(colo@));
            }
            start = j + 1;
        }
        Some(result)
    }

    /// Runs the matcher against a response's headers: returns the
    /// extracted colo when it is acceptable under the prober's allow-set,
    /// per [`spec_matched_colo`].
    pub fn matched_colo(&self, h: &ResponseHeaders) -> (r: Option<String>)
        ensures
            match r {
                Option::None => spec_matched_colo(allow_view(self.allowed_colos), *h) is None,
                Option::Some(c) => spec_matched_colo(allow_view(self.allowed_colos), *h) == Some(
                    c@,
                ),
            },
    {
        let colo = extract_colo(h);
        match colo {
            None => None,
            Some(c) => match &self.allowed_colos {
                None => Some(c),
                Some(v) => {
                    if contains_string(v, &c) {
                        Some(c)
                    } else {
                        None
                    }
                },
            },
        }
    }

    /// Decides the initial gating check from the response's status and
    /// headers, per [`spec_accept_initial`].
    pub fn accept_initial(&self, status: u16, h: &ResponseHeaders) -> (r: bool)
        ensures
            r == spec_accept_initial(*self, status, *h),
    {
        if !status_accepted(self.config.httping_status_code, status) {
            return false;
        }
        if !self.config.httping_cf_colo.as_str().is_empty() {
            if self.matched_colo(h).is_none() {
                return false;
            }
        }
        true
    }
}

fn contains_string(v: &Vec<String>, s: &String) -> (r: bool)
    ensures
        r == v.deep_view().contains(s@),
{
    let len = v.len();
    let mut k: usize = 0;
    while k < len
        invariant
            len == v@.len(),
            0 <= k <= len,
            forall|i: int| 0 <= i < k ==> v.deep_view()[i] != s@,
        decreases len - k,
    {
        let e = &v[k];
        if *e == *s {
            proof {
                assert(v.deep_view()[k as int] == s@);
            }
            return true;
        }
        k = k + 1;
    }
    proof {
        assert(!v.deep_view().contains(s@)) by {
            if v.deep_view().contains(s@) {
                let i = choose|i: int| 0 <= i < v.deep_view().len() && v.deep_view()[i] == s@;
                assert(false);
            }
        };
    }
    false
}

/// The header views a matcher decision depends on.
pub open spec fn header_views(h: ResponseHeaders) -> (Option<Seq<u8>>, Option<Seq<char>>, Option<
    Seq<char>,
>) {
    (
        match h.server {
            Some(v) => Some(v@),
            None => None,
        },
        match h.cf_ray {
            Some(s) => Some(s@),
            None => None,
        },
        match h.x_amz_cf_pop {
            Some(s) => Some(s@),
            None => None,
        },
    )
}

/// The matcher is deterministic: two header maps that carry the same
/// values receive the same answer under the same allow-set.
pub proof fn lemma_matcher_deterministic(
    allowed: Option<Set<Seq<char>>>,
    h1: ResponseHeaders,
    h2: ResponseHeaders,
)
    requires
        header_views(h1) == header_views(h2),
    ensures
        spec_matched_colo(allowed, h1) == spec_matched_colo(allowed, h2),
{
    assert(header_colo(h1) == header_colo(h2));
}

/// With both location headers absent the matcher accepts nothing, whatever
/// the allow-set and the `Server` header say.
pub proof fn lemma_absent_headers_never_match(allowed: Option<Set<Seq<char>>>, h: ResponseHeaders)
    requires
        h.cf_ray is None,
        h.x_amz_cf_pop is None,
    ensures
        spec_matched_colo(allowed, h) is None,
{
}

/// With both location headers absent and an allow-list configured, the
/// initial check rejects the response whatever its status.
pub proof fn lemma_absent_headers_rejected(ping: HttpPing, status: u16, h: ResponseHeaders)
    requires
        h.cf_ray is None,
        h.x_amz_cf_pop is None,
        ping.config.httping_cf_colo@.len() > 0,
    ensures
        !spec_accept_initial(ping, status, h),
{
}

} // verus!
