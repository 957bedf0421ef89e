//! Searching places on OpenStreetMap's Nominatim service: the address of a
//! search, and the pacing that keeps searches one second apart.
use vstd::prelude::*;

verus! {

/// The text of what `url::Url::parse_with_params` gives for `base` and the
/// query pairs `params`, or `None` where it returns an error.
pub uninterp spec fn url_with_params(base: Seq<char>, params: Seq<(Seq<char>, Seq<char>)>) -> Option<
    Seq<char>,
>;

/// The texts of a list of pairs of strings.
pub open spec fn pair_texts(params: Seq<(String, String)>) -> Seq<(Seq<char>, Seq<char>)> {
    params.map_values(|p: (String, String)| (p.0@, p.1@))
}

/// Calls `url::Url::parse_with_params` and turns the URL into its text.
/// Trusted: the result is the value named `url_with_params` of the base and
/// the pairs, `None` standing for an error; what that value is on given
/// texts is not stated.
#[verifier::external_body]
fn parse_url_with_params(base: &str, params: &Vec<(String, String)>) -> (r: Option<String>)
    ensures
        match url_with_params(base@, pair_texts(params@)) {
            Some(u) => r matches Some(s) && s@ == u,
            None => r is None,
        },
{
    url::Url::parse_with_params(base, params.iter()).ok().map(String::from)
}

/// The Nominatim search service.
pub open spec fn nominatim_search() -> Seq<char> {
    "https://nominatim.openstreetmap.org/search"@
}

/// The query of a search for `location`, with answers in JSON.
pub open spec fn search_params(location: Seq<char>) -> Seq<(Seq<char>, Seq<char>)> {
    seq![("q"@, location), ("format"@, "json"@)]
}

/// The address of a Nominatim search for `location`.
pub fn nominatim_search_url(location: &str) -> (r: Option<String>)
    ensures
        match url_with_params(nominatim_search(), search_params(location@)) {
            Some(u) => r matches Some(s) && s@ == u,
            None => r is None,
        },
{
    let params = vec![
        (String::from_str("q"), String::from_str(location)),
        (String::from_str("format"), String::from_str("json")),
    ];
    assert(pair_texts(params@) =~= search_params(location@));
    parse_url_with_params("https://nominatim.openstreetmap.org/search", &params)
}

/// The least time between the end of one search and the start of the next,
/// in milliseconds.
pub const SEARCH_INTERVAL_MS: u64 = 1000;

/// When the next search may start, in milliseconds on a clock that the
/// caller keeps.
#[derive(Debug)]
pub struct SearchPacing {
    next_possible_ms: u64,
}

impl View for SearchPacing {
    type V = nat;

    /// The earliest time of the next search.
    closed spec fn view(&self) -> nat {
        self.next_possible_ms as nat
    }
}

/// How long a search asked for at `now` waits.
pub open spec fn wait_before(next_possible: nat, now: nat) -> nat {
    if now < next_possible {
        (next_possible - now) as nat
    } else {
        0
    }
}

impl SearchPacing {
    /// Pacing that lets the first search start at `now_ms`.
    pub fn new(now_ms: u64) -> (r: Self)
        ensures
            r@ == now_ms,
    {
        SearchPacing { next_possible_ms: now_ms }
    }

    /// Whether a search asked for at `now_ms` has to wait (the next
    /// possible start has not yet passed).
    pub fn must_wait(&self, now_ms: u64) -> (r: bool)
        ensures
            r == (now_ms <= self@),
    {
        now_ms <= self.next_possible_ms
    }

    /// How many milliseconds a search asked for at `now_ms` waits.
    pub fn wait_ms(&self, now_ms: u64) -> (r: u64)
        ensures
            r == wait_before(self@, now_ms as nat),
            now_ms + r >= self@,
    {
        if now_ms < self.next_possible_ms {
            self.next_possible_ms - now_ms
        } else {
            0
        }
    }

    /// Notes that a search got its answer at `now_ms`: the next one starts
    /// one interval later at the earliest.
    pub fn record_search(&mut self, now_ms: u64)
        requires
            now_ms + SEARCH_INTERVAL_MS <= u64::MAX,
        ensures
            final(self)@ == now_ms + SEARCH_INTERVAL_MS,
    {
        self.next_possible_ms = now_ms + SEARCH_INTERVAL_MS;
    }
}

impl SearchPacing {
    /// Notes what became of sending a search at `now_ms`: one that got an
    /// answer sets the next possible start one interval later; one whose
    /// sending failed leaves the pacing as it was.
    pub fn after_send(&mut self, answered: bool, now_ms: u64)
        requires
            now_ms + SEARCH_INTERVAL_MS <= u64::MAX,
        ensures
            answered ==> final(self)@ == now_ms + SEARCH_INTERVAL_MS,
            !answered ==> final(self)@ == old(self)@,
    {
        if answered {
            self.record_search(now_ms);
        }
    }
}

/// A search that starts after waiting as the pacing says starts at least
/// one interval after the answer to the one before it, whenever it is
/// asked for.
pub proof fn lemma_searches_one_interval_apart(answered: nat, asked: nat)
    ensures
        asked + wait_before((answered + SEARCH_INTERVAL_MS) as nat, asked) >= answered
            + SEARCH_INTERVAL_MS,
{
}

/// A search waits no longer than it must: it starts at the later of the
/// time it is asked for and the next possible start.
pub proof fn lemma_wait_is_least(next_possible: nat, asked: nat)
    ensures
        asked + wait_before(next_possible, asked) == if asked < next_possible {
            next_possible
        } else {
            asked
        },
{
}

} // verus!
