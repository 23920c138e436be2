//! The storefront's data, the requests sent to it, and what each of its replies amounts to.
//!
//! Nothing here touches the network. A caller sends the [`Request`]s built here and hands
//! back what came of them as [`Reply`] values; [`search`] and [`app`] then decide the
//! outcome of the exchange.

use crate::text::{decimal, nth_segment, segments, to_decimal};
use vstd::prelude::*;
use vstd::string::StringExecFns;

verus! {

/// Why an exchange with the storefront produced no value.
#[derive(Debug, Clone, Copy, PartialEq, Eq)]
pub enum SteamRequestError {
    /// The storefront answered with status 429 or 403: the caller has to slow down.
    RateLimited,
    /// No response arrived.
    Transport,
    /// A response arrived but its body did not have the expected shape.
    Decode,
    /// Anything else, such as a thumbnail path that holds no identifier.
    Other,
}

/// The envelope of a search response.
#[derive(Debug, Clone, PartialEq, Eq)]
pub struct SearchResult {
    pub desc: String,
    pub items: Vec<SearchItem>,
}

/// One match of a search: the title's display name and the path of its thumbnail.
#[derive(Debug, Clone, PartialEq, Eq)]
pub struct SearchItem {
    pub name: String,
    pub logo: String,
}

/// A title: its metadata together with the summary of its reviews.
#[derive(Debug, Clone, PartialEq, Eq)]
pub struct App {
    pub data: AppData,
    pub reviews: AppReviews,
}

/// The value stored under a title's identifier in a details response.
#[derive(Debug, Clone, PartialEq, Eq)]
pub struct AppResult {
    pub success: bool,
    pub data: AppData,
}

/// The metadata of a title.
#[derive(Debug, Clone, PartialEq, Eq)]
pub struct AppData {
    pub app_type: String,
    pub name: String,
    pub steam_appid: u32,
    pub required_age: u32,
    pub is_free: bool,
    pub supported_languages: String,
    pub developers: Vec<String>,
    pub publishers: Vec<String>,
    /// Absent when the title is free.
    pub price_overview: Option<PriceOverview>,
    pub platforms: Platforms,
    pub categories: Vec<Category>,
    pub genres: Vec<Genre>,
    pub release_date: ReleaseDate,
}

/// The price of a title, in minor currency units (hundredths of the displayed unit).
#[derive(Debug, Clone, PartialEq, Eq)]
pub struct PriceOverview {
    pub currency: String,
    pub initial_price: u32,
    pub final_price: u32,
    pub discount_percent: u32,
    pub initial_formatted: String,
    pub final_formatted: String,
}

/// One flag per platform.
#[derive(Debug, Clone, Copy, PartialEq, Eq)]
pub struct Platforms {
    pub windows: bool,
    pub mac: bool,
    pub linux: bool,
}

#[derive(Debug, Clone, PartialEq, Eq)]
pub struct Category {
    pub id: u32,
    pub description: String,
}

#[derive(Debug, Clone, PartialEq, Eq)]
pub struct Genre {
    pub id: String,
    pub description: String,
}

#[derive(Debug, Clone, PartialEq, Eq)]
pub struct ReleaseDate {
    pub coming_soon: bool,
    pub date: String,
}

/// The envelope of a reviews response.
#[derive(Debug, Clone, PartialEq, Eq)]
pub struct AppReviewsResult {
    pub success: i64,
    pub query_summary: AppReviews,
}

/// The summary of a title's reviews.
#[derive(Debug, Clone, PartialEq, Eq)]
pub struct AppReviews {
    pub num_reviews: usize,
    pub review_score: u8,
    pub review_score_desc: String,
    pub total_positive: usize,
    pub total_negative: usize,
    pub total_reviews: usize,
}

/// One member of a details response: the identifier it is stored under, and the value
/// found there if it had the shape of an [`AppResult`].
#[derive(Debug, Clone, PartialEq, Eq)]
pub struct DetailsEntry {
    pub key: String,
    pub result: Option<AppResult>,
}

/// A GET request: the address and the query parameters, in the order they are sent.
#[derive(Debug, Clone, PartialEq, Eq)]
pub struct Request {
    pub url: String,
    pub query: Vec<(String, String)>,
}

/// The names and values held by a list of query parameters.
pub open spec fn parameters(query: Seq<(String, String)>) -> Seq<(Seq<char>, Seq<char>)> {
    query.map_values(|pair: (String, String)| (pair.0@, pair.1@))
}

/// A request as a mathematical value.
pub struct RequestView {
    pub url: Seq<char>,
    pub query: Seq<(Seq<char>, Seq<char>)>,
}

impl View for Request {
    type V = RequestView;

    open spec fn view(&self) -> RequestView {
        RequestView { url: self.url@, query: parameters(self.query@) }
    }
}

/// What came of sending a request whose response body should decode to a `T`.
#[derive(Debug, Clone, PartialEq, Eq)]
pub enum Reply<T> {
    /// No response arrived.
    Unreachable,
    /// A response arrived. `body` is `None` where the body was not read or did not decode.
    Answered { status: u16, body: Option<T> },
}

/// The status codes by which the storefront signals rate limiting.
pub open spec fn rate_limited_status(status: u16) -> bool {
    status == 429 || status == 403
}

/// Decides whether a response status signals rate limiting.
pub fn is_rate_limited(status: u16) -> (limited: bool)
    ensures
        limited == rate_limited_status(status),
{
    status == 429 || status == 403
}

impl<T> Reply<T> {
    /// A response arrived and its status signals rate limiting.
    pub open spec fn rate_limited(self) -> bool {
        self matches Reply::Answered { status, .. } && rate_limited_status(status)
    }

    /// Decides whether this reply signals rate limiting.
    pub fn signals_rate_limit(&self) -> (limited: bool)
        ensures
            limited == self.rate_limited(),
    {
        match self {
            Reply::Unreachable => false,
            Reply::Answered { status, .. } => is_rate_limited(*status),
        }
    }
}

/// The `maxprice` parameter of a search: the word `free` for a ceiling of zero, else the
/// ceiling in minor currency units as a decimal numeral.
pub open spec fn max_price_parameter(max_price_minor_units: u64) -> Seq<char> {
    if max_price_minor_units == 0 {
        "free"@
    } else {
        decimal(max_price_minor_units as nat)
    }
}

/// The query of a search: the free-text term, the price ceiling, JSON output, the games
/// category, newest releases first.
pub open spec fn search_query(max_price_minor_units: u64, term: Seq<char>) -> Seq<
    (Seq<char>, Seq<char>),
> {
    seq![
        ("term"@, term),
        ("maxprice"@, max_price_parameter(max_price_minor_units)),
        ("json"@, "1"@),
        ("category1"@, "998"@),
        ("sort_by"@, "Released_DESC"@),
    ]
}

fn parameter(name: &str, value: String) -> (pair: (String, String))
    ensures
        pair.0@ == name@,
        pair.1@ == value@,
{
    (String::from_str(name), value)
}

/// Builds the request of a catalog search for `term` under a price ceiling.
pub fn search_request(max_price_minor_units: u64, term: String) -> (request: Request)
    ensures
        request@.url == "https://store.steampowered.com/search/results"@,
        request@.query == search_query(max_price_minor_units, term@),
{
    let max_price = if max_price_minor_units == 0 {
        String::from_str("free")
    } else {
        to_decimal(max_price_minor_units)
    };
    let mut query: Vec<(String, String)> = Vec::new();
    query.push(parameter("term", term));
    query.push(parameter("maxprice", max_price));
    query.push(parameter("json", String::from_str("1")));
    query.push(parameter("category1", String::from_str("998")));
    query.push(parameter("sort_by", String::from_str("Released_DESC")));
    proof {
        assert(parameters(query@) =~= search_query(max_price_minor_units, term@));
    }
    Request { url: String::from_str("https://store.steampowered.com/search/results"), query }
}

/// Builds the request for the metadata of the title `id`.
pub fn details_request(id: &str) -> (request: Request)
    ensures
        request@.url == "https://store.steampowered.com/api/appdetails"@,
        request@.query == seq![("appids"@, id@)],
{
    let mut query: Vec<(String, String)> = Vec::new();
    query.push(parameter("appids", String::from_str(id)));
    proof {
        assert(parameters(query@) =~= seq![("appids"@, id@)]);
    }
    Request { url: String::from_str("https://store.steampowered.com/api/appdetails"), query }
}

/// Builds the request for the review summary of the title `id`, over all purchase types.
pub fn reviews_request(id: &str) -> (request: Request)
    ensures
        request@.url == "https://store.steampowered.com/appreviews/"@ + id@,
        request@.query == seq![("json"@, "1"@), ("purchase_type"@, "all"@)],
{
    let mut query: Vec<(String, String)> = Vec::new();
    query.push(parameter("json", String::from_str("1")));
    query.push(parameter("purchase_type", String::from_str("all")));
    proof {
        assert(parameters(query@) =~= seq![("json"@, "1"@), ("purchase_type"@, "all"@)]);
    }
    let url = String::from_str("https://store.steampowered.com/appreviews/").concat(id);
    Request { url, query }
}

/// The address of a title's storefront page.
pub fn store_page(steam_appid: u32) -> (url: String)
    ensures
        url@ == "https://store.steampowered.com/app/"@ + decimal(steam_appid as nat),
{
    let number = to_decimal(steam_appid as u64);
    String::from_str("https://store.steampowered.com/app/").concat(number.as_str())
}

/// The identifier that a thumbnail path carries: its piece at index 5 when split on `/`.
pub open spec fn identifier_of(logo: Seq<char>) -> Option<Seq<char>> {
    let pieces = segments(logo, '/');
    if pieces.len() >= 6 {
        Some(pieces[5])
    } else {
        None
    }
}

/// What extracting the identifier from a thumbnail path amounts to: the identifier, or
/// [`SteamRequestError::Other`] where the path has fewer than six pieces.
pub open spec fn extraction(logo: Seq<char>) -> Result<Seq<char>, SteamRequestError> {
    match identifier_of(logo) {
        Some(id) => Ok(id),
        None => Err(SteamRequestError::Other),
    }
}

/// An extracted identifier, or the error in its place, with the identifier as plain text.
pub open spec fn as_text(extracted: Result<String, SteamRequestError>) -> Result<
    Seq<char>,
    SteamRequestError,
> {
    match extracted {
        Ok(id) => Ok(id@),
        Err(error) => Err(error),
    }
}

/// Extracts a title's identifier from the path of its thumbnail.
///
/// Fails with [`SteamRequestError::Other`] exactly when the path has fewer than six pieces.
pub fn extract_identifier(logo: &str) -> (extracted: Result<String, SteamRequestError>)
    ensures
        as_text(extracted) == extraction(logo@),
        extracted is Ok <==> segments(logo@, '/').len() >= 6,
{
    match nth_segment(logo, '/', 5) {
        Some(id) => Ok(id),
        None => Err(SteamRequestError::Other),
    }
}

/// What a search exchange amounts to.
///
/// A rate-limiting status decides before the body is looked at.
pub open spec fn search_outcome(reply: Reply<SearchResult>) -> Result<
    Vec<SearchItem>,
    SteamRequestError,
> {
    match reply {
        Reply::Unreachable => Err(SteamRequestError::Transport),
        Reply::Answered { status, body } => if rate_limited_status(status) {
            Err(SteamRequestError::RateLimited)
        } else {
            match body {
                None => Err(SteamRequestError::Decode),
                Some(result) => Ok(result.items),
            }
        },
    }
}

/// A rate-limiting status decides a search whatever its body holds, a body that does not
/// decode included.
pub proof fn lemma_rate_limit_decides_search(status: u16, body: Option<SearchResult>)
    requires
        rate_limited_status(status),
    ensures
        search_outcome(Reply::Answered { status, body }) == Err::<
            Vec<SearchItem>,
            SteamRequestError,
        >(SteamRequestError::RateLimited),
{
}

/// Resolves a search exchange to its matches, which may be none, or to the error it ran
/// into.
pub fn search(reply: Reply<SearchResult>) -> (found: Result<Vec<SearchItem>, SteamRequestError>)
    ensures
        found == search_outcome(reply),
{
    match reply {
        Reply::Unreachable => Err(SteamRequestError::Transport),
        Reply::Answered { status, body } => {
            if is_rate_limited(status) {
                Err(SteamRequestError::RateLimited)
            } else {
                match body {
                    None => Err(SteamRequestError::Decode),
                    Some(result) => Ok(result.items),
                }
            }
        },
    }
}

/// The value of the first member stored under `id`, if there is such a member.
pub open spec fn entry_for(entries: Seq<DetailsEntry>, id: Seq<char>) -> Option<Option<AppResult>>
    decreases entries.len(),
{
    if entries.len() == 0 {
        None
    } else if entries[0].key@ == id {
        Some(entries[0].result)
    } else {
        entry_for(entries.drop_first(), id)
    }
}

/// What the two exchanges of a detail fetch amount to.
///
/// A rate-limiting status on either response decides first. Then both responses must have
/// arrived. Then the details body must hold a well-shaped member under `id`, and the
/// reviews body must have decoded.
pub open spec fn app_outcome(
    id: Seq<char>,
    details: Reply<Vec<DetailsEntry>>,
    reviews: Reply<AppReviewsResult>,
) -> Result<App, SteamRequestError> {
    if details.rate_limited() || reviews.rate_limited() {
        Err(SteamRequestError::RateLimited)
    } else {
        match (details, reviews) {
            (
                Reply::Answered { body: Some(entries), .. },
                Reply::Answered { body: Some(summary), .. },
            ) => match entry_for(entries@, id) {
                Some(Some(result)) => Ok(App { data: result.data, reviews: summary.query_summary }),
                _ => Err(SteamRequestError::Decode),
            },
            (Reply::Answered { .. }, Reply::Answered { .. }) => Err(SteamRequestError::Decode),
            _ => Err(SteamRequestError::Transport),
        }
    }
}

/// A rate-limiting status on either response decides a detail fetch, whatever the bodies
/// hold and whatever became of the other request.
pub proof fn lemma_rate_limit_decides_app(
    id: Seq<char>,
    details: Reply<Vec<DetailsEntry>>,
    reviews: Reply<AppReviewsResult>,
)
    requires
        details.rate_limited() || reviews.rate_limited(),
    ensures
        app_outcome(id, details, reviews) == Err::<App, SteamRequestError>(
            SteamRequestError::RateLimited,
        ),
{
}

fn take_entry(entries: Vec<DetailsEntry>, id: &str) -> (found: Option<Option<AppResult>>)
    ensures
        found == entry_for(entries@, id@),
{
    let ghost all = entries@;
    let mut rest = entries;
    let wanted = String::from_str(id);
    let mut at: usize = 0;
    proof {
        assert(all.skip(0) =~= all);
    }
    while at < rest.len()
        invariant
            rest@ == all,
            all == entries@,
            wanted@ == id@,
            at <= all.len(),
            entry_for(all, id@) == entry_for(all.skip(at as int), id@),
        decreases all.len() - at,
    {
        proof {
            assert(all.skip(at as int)[0] == all[at as int]);
            assert(all.skip(at as int).drop_first() =~= all.skip(at + 1));
        }
        if rest[at].key == wanted {
            let entry = rest.swap_remove(at);
            return Some(entry.result);
        }
        at = at + 1;
    }
    None
}

/// Resolves the two exchanges of a detail fetch for the title `id` to the title, or to the
/// error the fetch ran into.
pub fn app(
    id: &str,
    details: Reply<Vec<DetailsEntry>>,
    reviews: Reply<AppReviewsResult>,
) -> (fetched: Result<App, SteamRequestError>)
    ensures
        fetched == app_outcome(id@, details, reviews),
{
    if details.signals_rate_limit() || reviews.signals_rate_limit() {
        return Err(SteamRequestError::RateLimited);
    }
    match (details, reviews) {
        (
            Reply::Answered { body: Some(entries), .. },
            Reply::Answered { body: Some(summary), .. },
        ) => match take_entry(entries, id) {
            Some(Some(result)) => Ok(App { data: result.data, reviews: summary.query_summary }),
            _ => Err(SteamRequestError::Decode),
        },
        (Reply::Answered { .. }, Reply::Answered { .. }) => Err(SteamRequestError::Decode),
        _ => Err(SteamRequestError::Transport),
    }
}

} // verus!
