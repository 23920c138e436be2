use undiscovered_steam::steam::{
    app, details_request, extract_identifier, is_rate_limited, reviews_request, search,
    search_request, store_page, App, AppData, AppResult, AppReviews, AppReviewsResult, Category,
    DetailsEntry, Genre, Platforms, PriceOverview, ReleaseDate, Reply, Request, SearchItem,
    SearchResult, SteamRequestError,
};

fn pair(name: &str, value: &str) -> (String, String) {
    (name.to_string(), value.to_string())
}

fn data(id: u32, name: &str) -> AppData {
    AppData {
        app_type: "game".to_string(),
        name: name.to_string(),
        steam_appid: id,
        required_age: 0,
        is_free: false,
        supported_languages: "English".to_string(),
        developers: vec!["A Developer".to_string()],
        publishers: vec!["A Publisher".to_string()],
        price_overview: Some(PriceOverview {
            currency: "USD".to_string(),
            initial_price: 999,
            final_price: 499,
            discount_percent: 50,
            initial_formatted: "$9.99".to_string(),
            final_formatted: "$4.99".to_string(),
        }),
        platforms: Platforms { windows: true, mac: false, linux: true },
        categories: vec![Category { id: 2, description: "Single-player".to_string() }],
        genres: vec![Genre { id: "23".to_string(), description: "Indie".to_string() }],
        release_date: ReleaseDate { coming_soon: false, date: "1 Jan, 2024".to_string() },
    }
}

fn summary(total: usize) -> AppReviews {
    AppReviews {
        num_reviews: total,
        review_score: 8,
        review_score_desc: "Very Positive".to_string(),
        total_positive: total,
        total_negative: 0,
        total_reviews: total,
    }
}

fn entry(key: &str, id: u32) -> DetailsEntry {
    DetailsEntry {
        key: key.to_string(),
        result: Some(AppResult { success: true, data: data(id, key) }),
    }
}

fn details(entries: Vec<DetailsEntry>) -> Reply<Vec<DetailsEntry>> {
    Reply::Answered { status: 200, body: Some(entries) }
}

fn reviews(total: usize) -> Reply<AppReviewsResult> {
    Reply::Answered {
        status: 200,
        body: Some(AppReviewsResult { success: 1, query_summary: summary(total) }),
    }
}

fn item(name: &str, logo: &str) -> SearchItem {
    SearchItem { name: name.to_string(), logo: logo.to_string() }
}

#[test]
fn statuses_429_and_403_signal_rate_limiting() {
    assert!(is_rate_limited(429));
    assert!(is_rate_limited(403));
}

#[test]
fn other_statuses_do_not_signal_rate_limiting() {
    for status in [0u16, 200, 204, 301, 400, 401, 402, 404, 428, 430, 500, 503, u16::MAX] {
        assert!(!is_rate_limited(status));
    }
}

#[test]
fn reply_signals_rate_limit_by_its_status_alone() {
    let limited: Reply<SearchResult> = Reply::Answered { status: 429, body: None };
    let forbidden: Reply<SearchResult> = Reply::Answered { status: 403, body: None };
    let fine: Reply<SearchResult> = Reply::Answered { status: 200, body: None };
    let silent: Reply<SearchResult> = Reply::Unreachable;
    assert!(limited.signals_rate_limit());
    assert!(forbidden.signals_rate_limit());
    assert!(!fine.signals_rate_limit());
    assert!(!silent.signals_rate_limit());
}

#[test]
fn search_request_asks_for_free_titles_under_a_ceiling_of_zero() {
    let request = search_request(0, "lantern".to_string());
    assert_eq!(
        request,
        Request {
            url: "https://store.steampowered.com/search/results".to_string(),
            query: vec![
                pair("term", "lantern"),
                pair("maxprice", "free"),
                pair("json", "1"),
                pair("category1", "998"),
                pair("sort_by", "Released_DESC"),
            ],
        }
    );
}

#[test]
fn search_request_gives_the_ceiling_in_minor_units() {
    let request = search_request(1999, "harbor".to_string());
    assert_eq!(request.url, "https://store.steampowered.com/search/results");
    assert_eq!(
        request.query,
        vec![
            pair("term", "harbor"),
            pair("maxprice", "1999"),
            pair("json", "1"),
            pair("category1", "998"),
            pair("sort_by", "Released_DESC"),
        ]
    );
    assert_eq!(search_request(1, String::new()).query[1], pair("maxprice", "1"));
    assert_eq!(search_request(1, String::new()).query[0], pair("term", ""));
}

#[test]
fn details_request_names_the_identifier() {
    assert_eq!(
        details_request("12345"),
        Request {
            url: "https://store.steampowered.com/api/appdetails".to_string(),
            query: vec![pair("appids", "12345")],
        }
    );
}

#[test]
fn reviews_request_puts_the_identifier_in_the_path() {
    assert_eq!(
        reviews_request("12345"),
        Request {
            url: "https://store.steampowered.com/appreviews/12345".to_string(),
            query: vec![pair("json", "1"), pair("purchase_type", "all")],
        }
    );
}

#[test]
fn store_page_ends_in_the_identifier() {
    assert_eq!(store_page(620), "https://store.steampowered.com/app/620");
    assert_eq!(store_page(0), "https://store.steampowered.com/app/0");
    assert_eq!(store_page(u32::MAX), "https://store.steampowered.com/app/4294967295");
}

#[test]
fn extract_identifier_takes_segment_five() {
    let logo =
        "https://cdn.akamai.steamstatic.com/steam/apps/1234560/capsule_sm_120.jpg?t=1700000000";
    assert_eq!(extract_identifier(logo), Ok("1234560".to_string()));
    assert_eq!(extract_identifier("0/1/2/3/4/5/6/7"), Ok("5".to_string()));
}

#[test]
fn extract_identifier_works_with_exactly_six_segments() {
    assert_eq!(extract_identifier("a/b/c/d/e/f"), Ok("f".to_string()));
    assert_eq!(extract_identifier("/////"), Ok(String::new()));
    assert_eq!(extract_identifier("a/b/c/d/e//g"), Ok(String::new()));
}

#[test]
fn extract_identifier_fails_on_fewer_than_six_segments() {
    assert_eq!(extract_identifier("a/b/c/d/e"), Err(SteamRequestError::Other));
    assert_eq!(extract_identifier("https://example.com/logo.jpg"), Err(SteamRequestError::Other));
    assert_eq!(extract_identifier("no slashes at all"), Err(SteamRequestError::Other));
    assert_eq!(extract_identifier(""), Err(SteamRequestError::Other));
}

#[test]
fn search_without_a_response_is_a_transport_error() {
    assert_eq!(search(Reply::Unreachable), Err(SteamRequestError::Transport));
}

#[test]
fn search_classifies_rate_limiting_before_the_body() {
    assert_eq!(
        search(Reply::Answered { status: 429, body: None }),
        Err(SteamRequestError::RateLimited)
    );
    assert_eq!(
        search(Reply::Answered { status: 403, body: None }),
        Err(SteamRequestError::RateLimited)
    );
    let body = SearchResult { desc: String::new(), items: vec![item("A", "a/b/c/d/e/1/g")] };
    assert_eq!(
        search(Reply::Answered { status: 429, body: Some(body) }),
        Err(SteamRequestError::RateLimited)
    );
}

#[test]
fn search_with_an_undecodable_body_is_a_decode_error() {
    assert_eq!(search(Reply::Answered { status: 200, body: None }), Err(SteamRequestError::Decode));
    assert_eq!(search(Reply::Answered { status: 500, body: None }), Err(SteamRequestError::Decode));
}

#[test]
fn search_returns_the_items_in_order() {
    let items = vec![item("First", "a/b/c/d/e/1/g"), item("Second", "a/b/c/d/e/2/g")];
    let body = SearchResult { desc: "ignored".to_string(), items: items.clone() };
    assert_eq!(search(Reply::Answered { status: 200, body: Some(body) }), Ok(items));
}

#[test]
fn search_may_return_no_items() {
    let body = SearchResult { desc: String::new(), items: Vec::new() };
    assert_eq!(search(Reply::Answered { status: 200, body: Some(body) }), Ok(Vec::new()));
}

#[test]
fn app_combines_details_and_reviews() {
    let fetched = app("620", details(vec![entry("620", 620)]), reviews(12));
    assert_eq!(fetched, Ok(App { data: data(620, "620"), reviews: summary(12) }));
}

#[test]
fn app_picks_the_entry_stored_under_the_identifier() {
    let entries = vec![entry("10", 10), entry("620", 620), entry("30", 30)];
    let fetched = app("620", details(entries), reviews(3));
    assert_eq!(fetched, Ok(App { data: data(620, "620"), reviews: summary(3) }));
    let entries = vec![entry("10", 10), entry("620", 620), entry("30", 30)];
    let fetched = app("30", details(entries), reviews(3));
    assert_eq!(fetched, Ok(App { data: data(30, "30"), reviews: summary(3) }));
}

#[test]
fn app_without_the_identifier_in_the_details_is_a_decode_error() {
    assert_eq!(
        app("620", details(vec![entry("10", 10)]), reviews(3)),
        Err(SteamRequestError::Decode)
    );
    assert_eq!(app("620", details(Vec::new()), reviews(3)), Err(SteamRequestError::Decode));
    assert_eq!(
        app("62", details(vec![entry("620", 620)]), reviews(3)),
        Err(SteamRequestError::Decode)
    );
}

#[test]
fn app_with_a_misshapen_entry_is_a_decode_error() {
    let entries = vec![DetailsEntry { key: "620".to_string(), result: None }];
    assert_eq!(app("620", details(entries), reviews(3)), Err(SteamRequestError::Decode));
}

#[test]
fn app_with_an_undecodable_body_is_a_decode_error() {
    assert_eq!(
        app("620", Reply::Answered { status: 200, body: None }, reviews(3)),
        Err(SteamRequestError::Decode)
    );
    assert_eq!(
        app("620", details(vec![entry("620", 620)]), Reply::Answered { status: 200, body: None }),
        Err(SteamRequestError::Decode)
    );
}

#[test]
fn app_without_a_response_is_a_transport_error() {
    assert_eq!(app("620", Reply::Unreachable, reviews(3)), Err(SteamRequestError::Transport));
    assert_eq!(
        app("620", details(vec![entry("620", 620)]), Reply::Unreachable),
        Err(SteamRequestError::Transport)
    );
    assert_eq!(
        app("620", Reply::Unreachable, Reply::Unreachable),
        Err(SteamRequestError::Transport)
    );
    assert_eq!(
        app("620", Reply::Answered { status: 200, body: None }, Reply::Unreachable),
        Err(SteamRequestError::Transport)
    );
}

#[test]
fn app_classifies_rate_limiting_on_either_response_first() {
    for status in [429u16, 403] {
        assert_eq!(
            app("620", Reply::Answered { status, body: None }, reviews(3)),
            Err(SteamRequestError::RateLimited)
        );
        assert_eq!(
            app("620", details(vec![entry("620", 620)]), Reply::Answered { status, body: None }),
            Err(SteamRequestError::RateLimited)
        );
        assert_eq!(
            app(
                "620",
                Reply::Answered { status, body: Some(vec![entry("620", 620)]) },
                reviews(3)
            ),
            Err(SteamRequestError::RateLimited)
        );
        assert_eq!(
            app("620", Reply::Unreachable, Reply::Answered { status, body: None }),
            Err(SteamRequestError::RateLimited)
        );
        assert_eq!(
            app("620", Reply::Answered { status, body: None }, Reply::Unreachable),
            Err(SteamRequestError::RateLimited)
        );
    }
}
