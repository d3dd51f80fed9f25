use libplasmoid_updater::api::client::{
    parse_retry_after_ms, ApiClient, FetchAction, FetchEvent, FetchState, ListingStage,
};
use libplasmoid_updater::api::config::ApiConfig;
use libplasmoid_updater::Error;

fn limited(retry_after: Option<&str>) -> FetchEvent<u8> {
    FetchEvent::Responded { status: 429, retry_after: retry_after.map(|s| s.to_string()) }
}

fn unreadable() -> FetchEvent<u8> {
    FetchEvent::Parsed(Err(Error::Other("bad page".to_string())))
}

#[test]
fn default_settings() {
    let config = ApiConfig::default();
    assert_eq!(config.base_url, "https://api.kde-look.org/ocs/v1");
    assert_eq!(config.page_size, 100);
    assert_eq!(config.max_retries, 5);
    assert_eq!(config.initial_backoff_ms, 500);
    assert_eq!(config.max_backoff_ms, 30_000);
    assert_eq!(config.max_concurrent_requests, 2);
    assert_eq!(ApiClient::new().config.page_size, 100);
    assert_eq!(ApiClient::default().config.max_retries, 5);
}

#[test]
fn retry_after_is_read_in_seconds() {
    assert_eq!(parse_retry_after_ms(Some("3")), Some(3_000));
    assert_eq!(parse_retry_after_ms(Some("+7")), Some(7_000));
    assert_eq!(parse_retry_after_ms(Some("0")), Some(0));
    assert_eq!(parse_retry_after_ms(Some("4294967295")), Some(u32::MAX));
    assert_eq!(parse_retry_after_ms(Some("4294967")), Some(4_294_967_000));
    assert_eq!(parse_retry_after_ms(Some("4294968")), Some(u32::MAX));
}

#[test]
fn retry_after_may_be_no_number() {
    assert_eq!(parse_retry_after_ms(None), None);
    assert_eq!(parse_retry_after_ms(Some("")), None);
    assert_eq!(parse_retry_after_ms(Some("+")), None);
    assert_eq!(parse_retry_after_ms(Some("-1")), None);
    assert_eq!(parse_retry_after_ms(Some(" 1")), None);
    assert_eq!(parse_retry_after_ms(Some("4294967296")), None);
    assert_eq!(parse_retry_after_ms(Some("Wed, 21 Oct 2015 07:28:00 GMT")), None);
}

#[test]
fn page_is_fetched_at_once() {
    let client = ApiClient::new();
    let (state, action) = client.fetch_page::<u8>(client.start_fetch(), FetchEvent::Started);
    assert!(matches!(action, FetchAction::Send));
    let (state, action) = client.fetch_page::<u8>(
        state,
        FetchEvent::Responded { status: 200, retry_after: Some("9".to_string()) },
    );
    assert!(matches!(action, FetchAction::ReadBody));
    let (_, action) = client.fetch_page(state, FetchEvent::Parsed(Ok(4u8)));
    assert!(matches!(action, FetchAction::Return(Ok(4))));
}

#[test]
fn waiting_times_double_up_to_the_limit() {
    let config = ApiConfig { max_retries: 9, ..ApiConfig::new() };
    let client = ApiClient::with_config(config);
    let mut state = client.start_fetch();
    let mut waits = Vec::new();
    loop {
        let (next, action) = client.fetch_page(state, unreadable());
        state = next;
        match action {
            FetchAction::WaitAndSend(ms) => waits.push(ms),
            FetchAction::Return(Err(Error::Other(m))) => {
                assert_eq!(m, "bad page");
                break;
            }
            other => panic!("unexpected {other:?}"),
        }
    }
    assert_eq!(waits, vec![500, 1_000, 2_000, 4_000, 8_000, 16_000, 30_000, 30_000]);
}

#[test]
fn rate_limit_is_waited_for_and_then_told() {
    let client = ApiClient::new();
    let (state, action) = client.fetch_page(client.start_fetch(), limited(Some("2")));
    assert!(matches!(action, FetchAction::WaitAndSend(2_000)));
    assert_eq!(state, FetchState { attempt: 1, backoff_ms: 1_000 });
    let (state, action) = client.fetch_page(state, limited(Some("soon")));
    assert!(matches!(action, FetchAction::WaitAndSend(1_000)));
    let (state, _) = client.fetch_page(state, limited(None));
    let (state, _) = client.fetch_page(state, limited(None));
    assert_eq!(state.attempt, 4);
    let (_, action) = client.fetch_page(state, limited(None));
    assert!(matches!(action, FetchAction::Return(Err(Error::RateLimited))));
}

#[test]
fn requests_are_bounded() {
    for max_retries in 0..4u8 {
        let client = ApiClient::with_config(ApiConfig { max_retries, ..ApiConfig::new() });
        let (mut state, mut action) =
            client.fetch_page::<u8>(client.start_fetch(), FetchEvent::Started);
        let mut requests = 0;
        let mut waits = 0;
        let mut steps = 1;
        loop {
            let event = match action {
                FetchAction::Send | FetchAction::WaitAndSend(_) => {
                    if matches!(action, FetchAction::WaitAndSend(_)) {
                        waits += 1;
                    }
                    requests += 1;
                    FetchEvent::Responded { status: 200, retry_after: None }
                }
                FetchAction::ReadBody => unreadable(),
                FetchAction::Return(_) => break,
            };
            steps += 1;
            (state, action) = client.fetch_page(state, event);
        }
        assert_eq!(requests, max_retries);
        assert_eq!(waits, max_retries.saturating_sub(1));
        assert_eq!(steps, 2 * max_retries + 1);
    }
}

#[test]
fn network_failures_are_not_repeated() {
    let client = ApiClient::new();
    let failure = || Error::Network("down".to_string());
    let (_, action) =
        client.fetch_page::<u8>(client.start_fetch(), FetchEvent::SendFailed(failure()));
    assert!(matches!(action, FetchAction::Return(Err(Error::Network(_)))));
    let (_, action) =
        client.fetch_page::<u8>(client.start_fetch(), FetchEvent::BodyUnreadable(failure()));
    assert!(matches!(action, FetchAction::Return(Err(Error::Network(_)))));
}

#[test]
fn without_attempts_nothing_is_sent() {
    let client = ApiClient::with_config(ApiConfig { max_retries: 0, ..ApiConfig::new() });
    let (_, action) = client.fetch_page::<u8>(client.start_fetch(), FetchEvent::Started);
    assert!(matches!(
        action,
        FetchAction::Return(Err(Error::Other(m))) if m == "max retries exceeded"
    ));
}

#[test]
fn addresses_name_page_and_entry() {
    let client = ApiClient::new();
    assert_eq!(
        client.page_url("705x717", 12),
        "https://api.kde-look.org/ocs/v1/content/data?categories=705x717&page=12&pagesize=100&sort=new"
    );
    assert_eq!(
        client.detail_url(u64::MAX),
        "https://api.kde-look.org/ocs/v1/content/data/18446744073709551615"
    );
    assert_eq!(client.detail_url(0), "https://api.kde-look.org/ocs/v1/content/data/0");
}

#[test]
fn pages_hold_every_item() {
    let client = ApiClient::new();
    assert!(client.remaining_pages(0).is_empty());
    assert!(client.remaining_pages(100).is_empty());
    assert_eq!(client.remaining_pages(101), vec![1]);
    assert_eq!(client.remaining_pages(200), vec![1]);
    assert_eq!(client.remaining_pages(301), vec![1, 2, 3]);
}

#[test]
fn failed_pages_are_left_out() {
    let client = ApiClient::new();
    let stage = client.fetch_first(Ok((vec![1, 2], 301)));
    assert!(matches!(
        &stage,
        ListingStage::More { first, pages } if *first == vec![1, 2] && *pages == vec![1, 2, 3]
    ));
    let (entries, failed) = client
        .fetch_all(stage, vec![Ok(vec![3]), Err(Error::RateLimited), Ok(vec![4, 5])])
        .unwrap();
    assert_eq!(entries, vec![1, 2, 3, 4, 5]);
    assert_eq!(failed, 1);
}

#[test]
fn failed_first_page_ends_the_listing() {
    let client = ApiClient::new();
    let stage = client.fetch_first::<u8>(Err(Error::RateLimited));
    assert!(matches!(stage, ListingStage::Failed(Error::RateLimited)));
    assert!(matches!(client.fetch_all(stage, vec![]), Err(Error::RateLimited)));
}

#[test]
fn single_page_is_the_whole_listing() {
    let client = ApiClient::new();
    let stage = client.fetch_first(Ok((vec!['a'], 100)));
    assert!(matches!(&stage, ListingStage::More { pages, .. } if pages.is_empty()));
    assert_eq!(client.fetch_all(stage, vec![]).unwrap(), (vec!['a'], 0));
}

#[test]
fn details_are_the_first_entries() {
    let client = ApiClient::new();
    let details = client.fetch_details(
        &vec![7, 8, 9],
        vec![Ok(vec!['a', 'b']), Ok(vec![]), Err(Error::RateLimited)],
    );
    assert!(matches!(details[0], Ok('a')));
    assert!(matches!(
        &details[1],
        Err(Error::ComponentNotFound(m)) if m == "store content id 8"
    ));
    assert!(matches!(details[2], Err(Error::RateLimited)));
}
