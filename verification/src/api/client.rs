//! The client of the KDE Store.

use vstd::prelude::*;
use vstd::string::*;

use crate::api::config::ApiConfig;
use crate::error::{Error, ErrorView};
use crate::text::{
    begins_with, decimal, decimal_text, finishes_with, law_decimal_reads_back, parse_u32,
    read_number,
};

verus! {

// --- Repeating a request ---

/// How long a `Retry-After` header asks to wait, in milliseconds: the seconds that it gives, or
/// nothing where it is absent or gives no number of seconds.
pub open spec fn retry_after_ms(header: Option<Seq<char>>) -> Option<u32> {
    match header {
        Some(value) => match read_number(value) {
            Some(seconds) if seconds <= u32::MAX => Some(
                if seconds * 1000 <= u32::MAX {
                    (seconds * 1000) as u32
                } else {
                    u32::MAX
                },
            ),
            _ => None,
        },
        None => None,
    }
}

pub fn parse_retry_after_ms(header: Option<&str>) -> (r: Option<u32>)
    ensures
        r == retry_after_ms(
            match header {
                Some(value) => Some(value@),
                None => None,
            },
        ),
{
    match header {
        Some(value) => match parse_u32(value) {
            Some(seconds) => {
                let ms: u64 = seconds as u64 * 1000;
                if ms <= 0xffff_ffff {
                    Some(ms as u32)
                } else {
                    Some(0xffff_ffff)
                }
            },
            None => None,
        },
        None => None,
    }
}

/// Where a request stands: how often it failed, and how long to wait if it fails again.
#[derive(Debug, Clone, Copy, PartialEq, Eq, Structural)]
pub struct FetchState {
    pub attempt: u8,
    pub backoff_ms: u32,
}

/// What came of the last action of a request.
#[derive(Debug)]
pub enum FetchEvent<T> {
    Started,
    /// The request could not be sent, or no response came.
    SendFailed(Error),
    Responded { status: u16, retry_after: Option<String> },
    /// The body of the response could not be read.
    BodyUnreadable(Error),
    /// The body was read as a page, or could not be.
    Parsed(Result<T, Error>),
}

/// What to do next for a request.
#[derive(Debug)]
pub enum FetchAction<T> {
    Send,
    ReadBody,
    /// Wait, then send again.
    WaitAndSend(u32),
    Return(Result<T, Error>),
}

/// An action with what the text of its error holds.
pub enum FetchActionView<T> {
    Send,
    ReadBody,
    WaitAndSend(u32),
    Return(Result<T, ErrorView>),
}

impl<T> View for FetchAction<T> {
    type V = FetchActionView<T>;

    open spec fn view(&self) -> FetchActionView<T> {
        match *self {
            FetchAction::Send => FetchActionView::Send,
            FetchAction::ReadBody => FetchActionView::ReadBody,
            FetchAction::WaitAndSend(ms) => FetchActionView::WaitAndSend(ms),
            FetchAction::Return(Ok(page)) => FetchActionView::Return(Ok(page)),
            FetchAction::Return(Err(e)) => FetchActionView::Return(Err(e@)),
        }
    }
}

/// The waiting time after one more failure: twice as long, up to the limit.
pub open spec fn next_backoff(backoff_ms: u32, limit: u32) -> u32 {
    if backoff_ms * 2 <= limit {
        (backoff_ms * 2) as u32
    } else {
        limit
    }
}

/// Waits and tries again, unless this was the last attempt.
pub open spec fn retry_or<T>(
    state: FetchState,
    config: ApiConfig,
    wait_ms: u32,
    last: FetchActionView<T>,
) -> (FetchState, FetchActionView<T>) {
    if state.attempt + 1 < config.max_retries {
        (
            FetchState {
                attempt: (state.attempt + 1) as u8,
                backoff_ms: next_backoff(state.backoff_ms, config.max_backoff_ms),
            },
            FetchActionView::WaitAndSend(wait_ms),
        )
    } else {
        (state, last)
    }
}

/// The step that a request takes. A response that says "too many requests" is followed by a wait
/// that its `Retry-After` header may set; a page that cannot be read is asked for again; what
/// fails before a body was read is not repeated.
pub open spec fn fetch_next<T>(state: FetchState, config: ApiConfig, event: FetchEvent<T>) -> (
    FetchState,
    FetchActionView<T>,
) {
    match event {
        FetchEvent::Started => if config.max_retries == 0 {
            (state, FetchActionView::Return(Err(ErrorView::Other("max retries exceeded"@))))
        } else {
            (state, FetchActionView::Send)
        },
        FetchEvent::SendFailed(e) => (state, FetchActionView::Return(Err(e@))),
        FetchEvent::Responded { status, retry_after } => if status == 429 {
            let header = match retry_after {
                Some(value) => Some(value@),
                None => None,
            };
            let wait_ms = match retry_after_ms(header) {
                Some(ms) => ms,
                None => state.backoff_ms,
            };
            retry_or(state, config, wait_ms, FetchActionView::Return(Err(ErrorView::RateLimited)))
        } else {
            (state, FetchActionView::ReadBody)
        },
        FetchEvent::BodyUnreadable(e) => (state, FetchActionView::Return(Err(e@))),
        FetchEvent::Parsed(Ok(page)) => (state, FetchActionView::Return(Ok(page))),
        FetchEvent::Parsed(Err(e)) => retry_or(
            state,
            config,
            state.backoff_ms,
            FetchActionView::Return(Err(e@)),
        ),
    }
}

/// The states that a request passes through and the actions that it takes on these events.
pub open spec fn fetch_run<T>(config: ApiConfig, events: Seq<FetchEvent<T>>) -> (
    FetchState,
    Seq<FetchActionView<T>>,
)
    decreases events.len(),
{
    if events.len() == 0 {
        (
            FetchState { attempt: 0, backoff_ms: config.initial_backoff_ms },
            Seq::empty(),
        )
    } else {
        let (state, actions) = fetch_run(config, events.drop_last());
        let (next, action) = fetch_next(state, config, events.last());
        (next, actions.push(action))
    }
}

/// How many of the actions repeat the request.
pub open spec fn repeats<T>(actions: Seq<FetchActionView<T>>) -> nat
    decreases actions.len(),
{
    if actions.len() == 0 {
        0
    } else {
        repeats(actions.drop_last()) + if actions.last() is WaitAndSend {
            1nat
        } else {
            0nat
        }
    }
}

/// The waiting time after a number of failures.
pub open spec fn backoff_after(config: ApiConfig, failures: nat) -> nat {
    let doubled = config.initial_backoff_ms * vstd::arithmetic::power2::pow2(failures);
    if failures == 0 {
        config.initial_backoff_ms as nat
    } else if doubled <= config.max_backoff_ms {
        doubled as nat
    } else {
        config.max_backoff_ms as nat
    }
}

/// Whatever comes of it, a page is asked for again fewer than `max_retries` times, and the waiting
/// time doubles with each repetition up to its limit.
pub proof fn law_fetch_is_bounded<T>(config: ApiConfig, events: Seq<FetchEvent<T>>)
    ensures
        repeats(fetch_run(config, events).1) == fetch_run(config, events).0.attempt,
        config.max_retries > 0 ==> repeats(fetch_run(config, events).1) < config.max_retries,
        config.max_retries == 0 ==> repeats(fetch_run(config, events).1) == 0,
        fetch_run(config, events).0.backoff_ms == backoff_after(
            config,
            repeats(fetch_run(config, events).1),
        ),
    decreases events.len(),
{
    if events.len() > 0 {
        law_fetch_is_bounded(config, events.drop_last());
        let (state, actions) = fetch_run(config, events.drop_last());
        let (next, action) = fetch_next(state, config, events.last());
        assert(actions.push(action).drop_last() == actions);
        let k = state.attempt as nat;
        vstd::arithmetic::power2::lemma2_to64();
        vstd::arithmetic::power2::lemma_pow2_unfold(k + 1);
        assert(config.initial_backoff_ms * (2 * vstd::arithmetic::power2::pow2(k)) == 2 * (
        config.initial_backoff_ms * vstd::arithmetic::power2::pow2(k))) by (nonlinear_arith);
    }
}

/// Whether an event can come of an action.
pub open spec fn fetch_answers<T>(action: FetchActionView<T>, event: FetchEvent<T>) -> bool {
    match action {
        FetchActionView::Send => event is SendFailed || event is Responded,
        FetchActionView::WaitAndSend(_) => event is SendFailed || event is Responded,
        FetchActionView::ReadBody => event is BodyUnreadable || event is Parsed,
        FetchActionView::Return(_) => false,
    }
}

/// Whether these events can come up in a request, each from the action before it.
pub open spec fn can_come_up<T>(config: ApiConfig, events: Seq<FetchEvent<T>>) -> bool {
    &&& events.len() > 0
    &&& events[0] is Started
    &&& forall|i: int|
        0 < i < events.len() ==> fetch_answers(
            fetch_run(config, events.take(i)).1.last(),
            #[trigger] events[i],
        )
}

/// How many of the actions send a request.
pub open spec fn requests<T>(actions: Seq<FetchActionView<T>>) -> nat
    decreases actions.len(),
{
    if actions.len() == 0 {
        0
    } else {
        requests(actions.drop_last()) + if actions.last() is Send || actions.last() is WaitAndSend {
            1nat
        } else {
            0nat
        }
    }
}

/// Every request for a page comes to its end: at most `max_retries` requests are sent, with one wait
/// fewer than requests, and after at most two steps for each of them there is a result.
pub proof fn law_fetch_ends<T>(config: ApiConfig, events: Seq<FetchEvent<T>>)
    requires
        can_come_up(config, events),
    ensures
        requests(fetch_run(config, events).1) <= config.max_retries,
        config.max_retries > 0 ==> requests(fetch_run(config, events).1) == repeats(
            fetch_run(config, events).1,
        ) + 1,
        events.len() <= 2 * config.max_retries + 1,
        events.len() == 2 * config.max_retries + 1 ==> fetch_run(config, events).1.last() is Return,
{
    lemma_fetch_ends(config, events);
    law_fetch_is_bounded(config, events);
}

proof fn lemma_fetch_ends<T>(config: ApiConfig, events: Seq<FetchEvent<T>>)
    requires
        can_come_up(config, events),
    ensures
        fetch_run(config, events).1.len() > 0,
        ({
            let (state, actions) = fetch_run(config, events);
            if config.max_retries == 0 {
                requests(actions) == 0 && events.len() == 1 && actions.last() is Return
            } else {
                &&& requests(actions) == state.attempt + 1
                &&& match actions.last() {
                    FetchActionView::Send => events.len() <= 2 * state.attempt + 1,
                    FetchActionView::WaitAndSend(_) => events.len() <= 2 * state.attempt + 1,
                    FetchActionView::ReadBody => events.len() <= 2 * state.attempt + 2,
                    FetchActionView::Return(_) => events.len() <= 2 * state.attempt + 3,
                }
            }
        }),
    decreases events.len(),
{
    let before = events.drop_last();
    let (state, actions) = fetch_run(config, before);
    let (next, action) = fetch_next(state, config, events.last());
    assert(actions.push(action).drop_last() == actions);
    if before.len() == 0 {
        assert(events.last() == events[0]);
        assert(requests(actions) == 0);
    } else {
        let last = events.len() - 1;
        assert(events.take(last) == before);
        assert(fetch_answers(fetch_run(config, events.take(last)).1.last(), events[last]));
        assert(before[0] == events[0]);
        assert forall|i: int| 0 < i < before.len() implies fetch_answers(
            fetch_run(config, before.take(i)).1.last(),
            #[trigger] before[i],
        ) by {
            assert(before.take(i) == events.take(i));
            assert(fetch_answers(fetch_run(config, events.take(i)).1.last(), events[i]));
        }
        lemma_fetch_ends(config, before);
    }
}

fn retry<T>(state: FetchState, config: &ApiConfig, wait_ms: u32, last: FetchAction<T>) -> (r: (
    FetchState,
    FetchAction<T>,
))
    ensures
        (r.0, r.1@) == retry_or(state, *config, wait_ms, last@),
{
    if (state.attempt as u16) + 1 < config.max_retries as u16 {
        let backoff_ms: u32 = if state.backoff_ms as u64 * 2 <= config.max_backoff_ms as u64 {
            state.backoff_ms * 2
        } else {
            config.max_backoff_ms
        };
        (
            FetchState { attempt: state.attempt + 1, backoff_ms },
            FetchAction::WaitAndSend(wait_ms),
        )
    } else {
        (state, last)
    }
}

// --- Pages ---

/// The address of a page of the store's listing.
pub open spec fn page_address(
    base_url: Seq<char>,
    categories: Seq<char>,
    page: u32,
    page_size: u8,
) -> Seq<char> {
    base_url + "/content/data?categories="@ + categories + "&page="@ + decimal(page as nat)
        + "&pagesize="@ + decimal(page_size as nat) + "&sort=new"@
}

/// The address of one entry of the store.
pub open spec fn entry_address(base_url: Seq<char>, id: u64) -> Seq<char> {
    base_url + "/content/data/"@ + decimal(id as nat)
}

/// The pages behind the first that hold the rest of so many entries.
pub open spec fn pages_behind_first(total_items: u32, page_size: u8) -> Seq<u32> {
    if total_items <= page_size {
        Seq::empty()
    } else {
        Seq::new(
            ((total_items + page_size - 1) / page_size as int - 1) as nat,
            |i: int| (i + 1) as u32,
        )
    }
}

proof fn lemma_page_count(total_items: int, page_size: int) -> (count: int)
    requires
        0 < page_size < total_items,
    ensures
        count == (total_items + page_size - 1) / page_size,
        2 <= count <= total_items,
        total_items <= count * page_size,
        (count - 1) * page_size < total_items,
{
    let count = (total_items + page_size - 1) / page_size;
    vstd::arithmetic::div_mod::lemma_fundamental_div_mod(total_items + page_size - 1, page_size);
    vstd::arithmetic::div_mod::lemma_mod_bound(total_items + page_size - 1, page_size);
    assert(page_size * count == count * page_size) by (nonlinear_arith);
    assert((count - 1) * page_size == count * page_size - page_size) by (nonlinear_arith);
    assert(2 <= count <= total_items) by (nonlinear_arith)
        requires
            total_items <= count * page_size,
            (count - 1) * page_size < total_items,
            0 < page_size < total_items,
    ;
    count
}

/// The first page and the pages behind it hold every entry, and none of them is empty.
pub proof fn law_pages_hold_every_item(total_items: u32, page_size: u8)
    requires
        page_size > 0,
    ensures
        total_items <= (pages_behind_first(total_items, page_size).len() + 1) * page_size,
        forall|i: int|
            0 <= i < pages_behind_first(total_items, page_size).len() ==> {
                &&& #[trigger] pages_behind_first(total_items, page_size)[i] == i + 1
                &&& pages_behind_first(total_items, page_size)[i] * page_size < total_items
            },
{
    let pages = pages_behind_first(total_items, page_size);
    let size = page_size as int;
    if total_items > page_size {
        let count = lemma_page_count(total_items as int, size);
        assert(pages.len() + 1 == count);
        assert forall|i: int| 0 <= i < pages.len() implies {
            &&& #[trigger] pages[i] == i + 1
            &&& pages[i] * page_size < total_items
        } by {
            assert((i + 1) * size <= (count - 1) * size) by (nonlinear_arith)
                requires
                    i + 1 <= count - 1,
                    size >= 1,
            ;
        }
    } else {
        assert((pages.len() + 1) * page_size == page_size) by (nonlinear_arith)
            requires
                pages.len() == 0,
        ;
    }
}

/// The entries of the pages that were fetched, in the order of the pages.
pub open spec fn entries_of<T>(pages: Seq<Result<Vec<T>, Error>>) -> Seq<T>
    decreases pages.len(),
{
    if pages.len() == 0 {
        Seq::empty()
    } else {
        entries_of(pages.drop_last()) + match pages.last() {
            Ok(entries) => entries@,
            Err(_) => Seq::empty(),
        }
    }
}

/// Each page that was fetched gives its entries once, in its place; a page that failed is left out
/// and takes nothing else with it.
pub proof fn law_each_page_counts_for_itself<T>(pages: Seq<Result<Vec<T>, Error>>, at: int)
    requires
        0 <= at < pages.len(),
    ensures
        entries_of(pages) == entries_of(pages.take(at)) + (match pages[at] {
            Ok(entries) => entries@,
            Err(_) => Seq::empty(),
        }) + entries_of(pages.skip(at + 1)),
        failures_of(pages) == failures_of(pages.take(at)) + (if pages[at] is Err {
            1nat
        } else {
            0nat
        }) + failures_of(pages.skip(at + 1)),
    decreases pages.len(),
{
    let fewer = pages.drop_last();
    if at == pages.len() - 1 {
        assert(pages.take(at) == fewer);
        assert(pages.skip(at + 1) == Seq::<Result<Vec<T>, Error>>::empty());
        assert(entries_of(pages.skip(at + 1)) == Seq::<T>::empty());
    } else {
        law_each_page_counts_for_itself(fewer, at);
        assert(fewer.take(at) == pages.take(at));
        assert(pages.skip(at + 1).drop_last() == fewer.skip(at + 1));
        assert(pages.skip(at + 1).last() == pages.last());
    }
}

/// How many pages could not be fetched.
pub open spec fn failures_of<T>(pages: Seq<Result<Vec<T>, Error>>) -> nat
    decreases pages.len(),
{
    if pages.len() == 0 {
        0
    } else {
        failures_of(pages.drop_last()) + if pages.last() is Err {
            1nat
        } else {
            0nat
        }
    }
}

/// Where a listing stands once its first page was asked for.
#[derive(Debug)]
pub enum ListingStage<T> {
    /// The first page failed, and the listing with it.
    Failed(Error),
    /// The further pages are to be fetched.
    More { first: Vec<T>, pages: Vec<u32> },
}

/// What a request for one entry gives: the first entry of the page, if it has one.
pub open spec fn detail_of<T>(id: u64, page: Result<Vec<T>, Error>) -> Result<T, ErrorView> {
    match page {
        Ok(entries) => if entries@.len() > 0 {
            Ok(entries@[0])
        } else {
            Err(ErrorView::ComponentNotFound("store content id "@ + decimal(id as nat)))
        },
        Err(e) => Err(e@),
    }
}

/// A result with what the text of its error holds.
pub open spec fn result_view<T>(r: Result<T, Error>) -> Result<T, ErrorView> {
    match r {
        Ok(t) => Ok(t),
        Err(e) => Err(e@),
    }
}

fn first_entry<T>(id: u64, page: Result<Vec<T>, Error>) -> (r: Result<T, Error>)
    ensures
        result_view(r) == detail_of(id, page),
{
    match page {
        Ok(entries) => {
            let mut entries = entries;
            if entries.len() > 0 {
                Ok(entries.remove(0))
            } else {
                Err(
                    Error::ComponentNotFound(
                        "store content id ".to_owned().concat(decimal_text(id).as_str()),
                    ),
                )
            }
        },
        Err(e) => Err(e),
    }
}

/// The entries of a first page and of further pages, and how many of these failed.
fn gather<T>(first: Vec<T>, pages: Vec<Result<Vec<T>, Error>>) -> (r: (Vec<T>, usize))
    ensures
        r.0@ == first@ + entries_of(pages@),
        r.1 == failures_of(pages@),
{
    let mut entries = first;
    let mut failed: usize = 0;
    let page_count: usize = pages.len();
    let ghost all = pages@;
    assert(first@ + entries_of(all.take(0)) == first@);
    for page in it: pages
        invariant
            it.seq() == all,
            all.len() == page_count,
            entries@ == first@ + entries_of(all.take(it.index())),
            failed == failures_of(all.take(it.index())),
            failed <= it.index() <= page_count,
    {
        assert(all.take(it.index() + 1).drop_last() == all.take(it.index()));
        match page {
            Ok(more) => {
                let mut more = more;
                entries.append(&mut more);
            },
            Err(_) => {
                failed = failed + 1;
            },
        }
    }
    assert(all.take(all.len() as int) == all);
    (entries, failed)
}

/// The client of the KDE Store: what it asks for and what it makes of the answers.
#[derive(Debug, Clone, Copy)]
pub struct ApiClient {
    pub config: ApiConfig,
}

impl Default for ApiClient {
    fn default() -> (client: ApiClient)
        ensures
            client.config.base_url@ == "https://api.kde-look.org/ocs/v1"@,
            client.config.page_size == 100,
            client.config.max_retries == 5,
            client.config.initial_backoff_ms == 500,
            client.config.max_backoff_ms == 30_000,
            client.config.max_concurrent_requests == 2,
    {
        ApiClient::new()
    }
}

impl ApiClient {
    /// A client with the default settings.
    pub fn new() -> (client: ApiClient)
        ensures
            client.config.base_url@ == "https://api.kde-look.org/ocs/v1"@,
            client.config.page_size == 100,
            client.config.max_retries == 5,
            client.config.initial_backoff_ms == 500,
            client.config.max_backoff_ms == 30_000,
            client.config.max_concurrent_requests == 2,
    {
        ApiClient { config: ApiConfig::new() }
    }

    pub fn with_config(config: ApiConfig) -> (client: ApiClient)
        ensures
            client.config == config,
    {
        ApiClient { config }
    }

    /// Where a request for a page starts.
    pub fn start_fetch(&self) -> (state: FetchState)
        ensures
            state == (FetchState { attempt: 0, backoff_ms: self.config.initial_backoff_ms }),
    {
        FetchState { attempt: 0, backoff_ms: self.config.initial_backoff_ms }
    }

    /// The next step of a request for a page.
    pub fn fetch_page<T>(&self, state: FetchState, event: FetchEvent<T>) -> (r: (
        FetchState,
        FetchAction<T>,
    ))
        ensures
            (r.0, r.1@) == fetch_next(state, self.config, event),
    {
        match event {
            FetchEvent::Started => {
                if self.config.max_retries == 0 {
                    let e = Error::other("max retries exceeded".to_owned());
                    (state, FetchAction::Return(Err(e)))
                } else {
                    (state, FetchAction::Send)
                }
            },
            FetchEvent::SendFailed(e) => (state, FetchAction::Return(Err(e))),
            FetchEvent::Responded { status, retry_after } => {
                if status == 429 {
                    let asked = match &retry_after {
                        Some(value) => parse_retry_after_ms(Some(value.as_str())),
                        None => None,
                    };
                    let wait_ms: u32 = match asked {
                        Some(ms) => ms,
                        None => state.backoff_ms,
                    };
                    retry(
                        state,
                        &self.config,
                        wait_ms,
                        FetchAction::Return(Err(Error::RateLimited)),
                    )
                } else {
                    (state, FetchAction::ReadBody)
                }
            },
            FetchEvent::BodyUnreadable(e) => (state, FetchAction::Return(Err(e))),
            FetchEvent::Parsed(Ok(page)) => (state, FetchAction::Return(Ok(page))),
            FetchEvent::Parsed(Err(e)) => retry(
                state,
                &self.config,
                state.backoff_ms,
                FetchAction::Return(Err(e)),
            ),
        }
    }

    /// The address of a page of the listing of these categories.
    pub fn page_url(&self, categories: &str, page: u32) -> (url: String)
        ensures
            url@ == page_address(
                self.config.base_url@,
                categories@,
                page,
                self.config.page_size,
            ),
    {
        self.config.base_url.to_owned().concat("/content/data?categories=").concat(
            categories,
        ).concat("&page=").concat(decimal_text(page as u64).as_str()).concat("&pagesize=").concat(
            decimal_text(self.config.page_size as u64).as_str(),
        ).concat("&sort=new")
    }

    /// The pages to fetch behind the first, by the number of entries that the first page reports.
    pub fn remaining_pages(&self, total_items: u32) -> (pages: Vec<u32>)
        requires
            total_items > 0 ==> self.config.page_size > 0,
        ensures
            pages@ == pages_behind_first(total_items, self.config.page_size),
    {
        let page_size: u32 = self.config.page_size as u32;
        let mut pages: Vec<u32> = Vec::new();
        if total_items <= page_size {
            return pages;
        }
        proof {
            lemma_page_count(total_items as int, page_size as int);
            law_pages_hold_every_item(total_items, self.config.page_size);
        }
        let total_pages: u32 = ((total_items as u64 + page_size as u64 - 1) / page_size as u64)
            as u32;
        let ghost expected = pages_behind_first(total_items, self.config.page_size);
        let mut page: u32 = 1;
        while page < total_pages
            invariant
                1 <= page <= total_pages,
                expected.len() == total_pages - 1,
                forall|i: int| 0 <= i < expected.len() ==> #[trigger] expected[i] == i + 1,
                pages@ == expected.take(page - 1),
            decreases total_pages - page,
        {
            pages.push(page);
            assert(expected.take(page as int) == expected.take(page - 1).push(
                expected[page - 1],
            ));
            page = page + 1;
        }
        assert(expected.take(expected.len() as int) == expected);
        pages
    }

    /// Goes on with a listing by what came of its first page: its entries, and the number of
    /// entries that it reports in all.
    pub fn fetch_first<T>(&self, page: Result<(Vec<T>, u32), Error>) -> (stage: ListingStage<T>)
        requires
            page matches Ok((_, total_items)) ==> (total_items > 0 ==> self.config.page_size > 0),
        ensures
            match page {
                Ok((entries, total_items)) => {
                    &&& stage matches ListingStage::More { first, pages }
                    &&& first == entries
                    &&& pages@ == pages_behind_first(total_items, self.config.page_size)
                },
                Err(e) => stage == ListingStage::<T>::Failed(e),
            },
    {
        match page {
            Ok((first, total_items)) => ListingStage::More {
                first,
                pages: self.remaining_pages(total_items),
            },
            Err(e) => ListingStage::Failed(e),
        }
    }

    /// All entries of a listing: those of the first page, then those of each further page that
    /// was fetched, given in the order of the pages. Further pages that failed are left out and
    /// counted; a first page that failed is the error of the listing.
    pub fn fetch_all<T>(&self, stage: ListingStage<T>, fetched: Vec<Result<Vec<T>, Error>>) -> (r:
        Result<(Vec<T>, usize), Error>)
        requires
            stage matches ListingStage::More { pages, .. } ==> fetched@.len() == pages@.len(),
        ensures
            match stage {
                ListingStage::Failed(e) => r == Err::<(Vec<T>, usize), Error>(e),
                ListingStage::More { first, .. } => {
                    &&& r matches Ok((entries, failed))
                    &&& entries@ == first@ + entries_of(fetched@)
                    &&& failed == failures_of(fetched@)
                },
            },
    {
        match stage {
            ListingStage::Failed(e) => Err(e),
            ListingStage::More { first, .. } => Ok(gather(first, fetched)),
        }
    }

    /// The address of one entry.
    pub fn detail_url(&self, id: u64) -> (url: String)
        ensures
            url@ == entry_address(self.config.base_url@, id),
    {
        self.config.base_url.to_owned().concat("/content/data/").concat(decimal_text(id).as_str())
    }

    /// What the requests for single entries give, in the order of the identifiers.
    pub fn fetch_details<T>(
        &self,
        content_ids: &Vec<u64>,
        pages: Vec<Result<Vec<T>, Error>>,
    ) -> (details: Vec<Result<T, Error>>)
        requires
            pages@.len() == content_ids@.len(),
        ensures
            details@.len() == content_ids@.len(),
            forall|i: int|
                0 <= i < content_ids@.len() ==> result_view(#[trigger] details@[i]) == detail_of(
                    content_ids@[i],
                    pages@[i],
                ),
    {
        let mut details: Vec<Result<T, Error>> = Vec::new();
        let ghost all = pages@;
        for page in it: pages
            invariant
                it.seq() == all,
                all.len() == content_ids@.len(),
                details@.len() == it.index(),
                forall|i: int|
                    0 <= i < it.index() ==> result_view(#[trigger] details@[i]) == detail_of(
                        content_ids@[i],
                        all[i],
                    ),
        {
            let id: u64 = content_ids[details.len()];
            details.push(first_entry(id, page));
        }
        details
    }
}

// --- What comes of a request ---

/// Whatever attempt a request is at, a body that was read as a page ends it with that page.
pub proof fn law_fetched_page_is_given<T>(state: FetchState, config: ApiConfig, page: T)
    ensures
        fetch_next(state, config, FetchEvent::Parsed(Ok(page))).1 == FetchActionView::<T>::Return(
            Ok(page),
        ),
{
}

/// A request ends with an error only if it could not be sent, the body could not be read, or the
/// last attempt failed: with the error of what failed, that of a limited rate where the store said
/// so, or that no attempt is allowed at all.
pub proof fn law_request_fails_for_a_reason<T>(
    state: FetchState,
    config: ApiConfig,
    event: FetchEvent<T>,
)
    requires
        fetch_next(state, config, event).1 is Return,
        fetch_next(state, config, event).1->Return_0 is Err,
    ensures
        ({
            let error = fetch_next(state, config, event).1->Return_0->Err_0;
            match event {
                FetchEvent::Started => config.max_retries == 0 && error == ErrorView::Other(
                    "max retries exceeded"@,
                ),
                FetchEvent::SendFailed(e) => error == e@,
                FetchEvent::BodyUnreadable(e) => error == e@,
                FetchEvent::Responded { status, .. } => {
                    &&& status == 429
                    &&& state.attempt + 1 >= config.max_retries
                    &&& error == ErrorView::RateLimited
                },
                FetchEvent::Parsed(Err(e)) => {
                    &&& state.attempt + 1 >= config.max_retries
                    &&& error == e@
                },
                FetchEvent::Parsed(Ok(_)) => false,
            }
        }),
{
}

/// What could not be sent or read is the end of a request at once; a limited rate or a page that
/// cannot be understood is its end only at the last attempt, and before that is followed by a wait
/// and one more attempt: a wait as long as the store asks for, or else as the attempt is at.
pub proof fn law_request_goes_on<T>(state: FetchState, config: ApiConfig, event: FetchEvent<T>)
    ensures
        ({
            let (next, action) = fetch_next(state, config, event);
            &&& event is Started && config.max_retries > 0 ==> action is Send
            &&& event is SendFailed || event is BodyUnreadable ==> action is Return
                && action->Return_0 is Err
            &&& (event matches FetchEvent::Responded { status, .. } && status != 429) ==> action
                is ReadBody
            &&& action matches FetchActionView::WaitAndSend(ms) ==> {
                &&& state.attempt + 1 < config.max_retries
                &&& next.attempt == state.attempt + 1
                &&& match event {
                    FetchEvent::Responded { status, retry_after } => status == 429 && ms == (
                    match retry_after {
                        Some(value) => match retry_after_ms(Some(value@)) {
                            Some(asked) => asked,
                            None => state.backoff_ms,
                        },
                        None => state.backoff_ms,
                    }),
                    FetchEvent::Parsed(Err(_)) => ms == state.backoff_ms,
                    _ => false,
                }
            }
            &&& state.attempt + 1 < config.max_retries ==> {
                &&& (event matches FetchEvent::Responded { status, .. } && status == 429) ==> action
                    is WaitAndSend
                &&& (event matches FetchEvent::Parsed(Err(_))) ==> action is WaitAndSend
            }
            &&& !(action is WaitAndSend) ==> next == state
        }),
{
}

/// However often a request was repeated, it ends with a page exactly if the last body was read as
/// that page.
pub proof fn law_request_ends_with_the_page_read<T>(
    config: ApiConfig,
    events: Seq<FetchEvent<T>>,
    page: T,
)
    requires
        events.len() > 0,
    ensures
        fetch_run(config, events).1.last() == FetchActionView::<T>::Return(Ok(page))
            <==> events.last() == FetchEvent::<T>::Parsed(Ok(page)),
{
}

/// A number of seconds in a `Retry-After` header is waited for, in milliseconds and no longer than
/// can be told; any other header is not followed.
pub proof fn law_retry_after_is_in_seconds(seconds: nat, value: Seq<char>)
    ensures
        seconds <= u32::MAX ==> (retry_after_ms(Some(decimal(seconds))) matches Some(ms) && ms
            == if seconds * 1000 <= u32::MAX {
            seconds * 1000
        } else {
            u32::MAX as nat
        }),
        seconds > u32::MAX ==> retry_after_ms(Some(decimal(seconds))) is None,
        retry_after_ms(None) is None,
        read_number(value) is None ==> retry_after_ms(Some(value)) is None,
{
    law_decimal_reads_back(seconds);
}

/// Each page of a listing has an address of its own, below that of the store.
pub proof fn law_pages_have_their_own_addresses(
    base_url: Seq<char>,
    categories: Seq<char>,
    page: u32,
    other: u32,
    page_size: u8,
)
    ensures
        ({
            let address = page_address(base_url, categories, page, page_size);
            let begin = base_url + "/content/data?categories="@ + categories + "&page="@;
            let end = "&pagesize="@ + decimal(page_size as nat) + "&sort=new"@;
            &&& begins_with(address, begin)
            &&& finishes_with(address, end)
            &&& read_number(address.subrange(begin.len() as int, address.len() - end.len()))
                == Some(page as nat)
            &&& page != other ==> address != page_address(base_url, categories, other, page_size)
        }),
{
    let begin = base_url + "/content/data?categories="@ + categories + "&page="@;
    let end = "&pagesize="@ + decimal(page_size as nat) + "&sort=new"@;
    let address = page_address(base_url, categories, page, page_size);
    let second = page_address(base_url, categories, other, page_size);
    assert(address =~= begin + decimal(page as nat) + end);
    assert(second =~= begin + decimal(other as nat) + end);
    assert(address.subrange(0, begin.len() as int) =~= begin);
    assert(address.subrange(address.len() - end.len(), address.len() as int) =~= end);
    assert(address.subrange(begin.len() as int, address.len() - end.len()) =~= decimal(
        page as nat,
    ));
    assert(second.subrange(begin.len() as int, second.len() - end.len()) =~= decimal(
        other as nat,
    ));
    law_decimal_reads_back(page as nat);
    law_decimal_reads_back(other as nat);
}

/// Each entry of the store has an address of its own, below that of the store.
pub proof fn law_entries_have_their_own_addresses(base_url: Seq<char>, id: u64)
    ensures
        ({
            let begin = base_url + "/content/data/"@;
            &&& begins_with(entry_address(base_url, id), begin)
            &&& read_number(entry_address(base_url, id).skip(begin.len() as int)) == Some(id as nat)
        }),
{
    let begin = base_url + "/content/data/"@;
    let address = entry_address(base_url, id);
    assert(address.subrange(0, begin.len() as int) =~= begin);
    assert(address.skip(begin.len() as int) =~= decimal(id as nat));
    law_decimal_reads_back(id as nat);
}

/// An entry that is asked for is the first on the page that came, if there is one; an error is
/// given on, and an empty page is an error that names the entry.
pub proof fn law_detail_is_the_first_entry<T>(id: u64, page: Result<Vec<T>, Error>)
    ensures
        match detail_of(id, page) {
            Ok(entry) => page matches Ok(entries) && entries@.len() > 0 && entry == entries@[0],
            Err(ErrorView::ComponentNotFound(message)) => (page matches Ok(entries)
                && entries@.len() == 0 && message == "store content id "@ + decimal(id as nat)) || (
            page matches Err(e) && e@ == ErrorView::ComponentNotFound(message)),
            Err(error) => page matches Err(e) && e@ == error,
        },
{
}

} // verus!
