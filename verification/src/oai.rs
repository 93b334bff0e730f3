//! The change harvester: the identifiers that the listing endpoint reports
//! as modified since a date.
//!
//! The endpoint answers in pages. A page holds identifiers and, where more
//! pages follow, a resumption token. A `Harvest` names the request to make,
//! takes in what came of it and collects the identifiers page by page until
//! a page comes without a token or a page cannot be had. Nothing here
//! touches the network: the caller makes the requests.

use crate::journal::{deduplicate, distinct, lemma_distinct, lemma_distinct_of_distinct};
use crate::text::{chars_of, joined, count_char, count_of, string_of_range};
use crate::xml::{element_texts, nul_free, xml_texts};
use crate::MAX_ATTEMPTS;
use vstd::prelude::*;

verus! {

/// Address of the first page of a listing: the date follows it.
pub const OAI_FROM_URL: &'static str =
    "http://export.arxiv.org/oai2?verb=ListIdentifiers&metadataPrefix=oai_dc&from=";

/// Address of a later page of a listing: the resumption token follows it.
pub const OAI_RESUME_URL: &'static str =
    "http://export.arxiv.org/oai2?verb=ListIdentifiers&resumptionToken=";

/// XPath expression that selects the identifier elements of a page.
pub const IDENTIFIER_XPATH: &'static str = "//*[local-name()='identifier']";

/// XPath expression that selects the resumption token elements of a page.
pub const RESUMPTION_XPATH: &'static str = "//*[local-name()='resumptionToken']";

/// Length of the namespace prefix that the endpoint puts before each
/// identifier (`oai:arXiv.org:`).
pub const OAI_PREFIX_LEN: usize = 14;

/// Seconds to wait before the next attempt when the service is unavailable.
pub const BACKOFF_SECS: u64 = 10;

/// One page of a listing as contracts see it.
pub struct PageModel {
    /// The identifiers of the page, in its order.
    pub ids: Seq<Seq<char>>,
    /// The resumption token, where the page holds one.
    pub token: Option<Seq<char>>,
}

/// One page of a listing.
#[derive(Clone, Debug, PartialEq, Eq)]
pub struct Page {
    /// The identifiers of the page, in its order.
    pub ids: Vec<String>,
    /// The resumption token, where the page holds one.
    pub token: Option<String>,
}

impl View for Page {
    type V = PageModel;

    open spec fn view(&self) -> PageModel {
        PageModel { ids: self.ids.deep_view(), token: self.token.deep_view() }
    }
}

/// The page without identifiers and without token.
pub open spec fn empty_page() -> PageModel {
    PageModel { ids: Seq::empty(), token: None }
}

/// The article identifier in the text of an identifier element: what
/// follows the namespace prefix. A text that is no longer than the prefix
/// holds no identifier.
pub open spec fn article_id_of(raw: Seq<char>) -> Option<Seq<char>> {
    if raw.len() > OAI_PREFIX_LEN {
        Some(raw.skip(OAI_PREFIX_LEN as int))
    } else {
        None
    }
}

/// The article identifiers in the texts of the identifier elements of a
/// page, in their order.
pub open spec fn article_ids_of(raw: Seq<Seq<char>>) -> Seq<Seq<char>>
    decreases raw.len(),
{
    if raw.len() == 0 {
        raw
    } else {
        let front = article_ids_of(raw.drop_last());
        match article_id_of(raw.last()) {
            Some(id) => front.push(id),
            None => front,
        }
    }
}

/// The resumption token in the texts of the token elements of a page: the
/// text of the first element, unless it is empty.
pub open spec fn token_of(raw: Seq<Seq<char>>) -> Option<Seq<char>> {
    if raw.len() > 0 && raw[0].len() > 0 {
        Some(raw[0])
    } else {
        None
    }
}

/// The page whose identifier elements hold the texts `raw_ids` and whose
/// token elements hold the texts `raw_tokens`.
pub open spec fn page_of(raw_ids: Seq<Seq<char>>, raw_tokens: Seq<Seq<char>>) -> PageModel {
    PageModel { ids: article_ids_of(raw_ids), token: token_of(raw_tokens) }
}

/// Whether a page is as a response gives it: none of its identifiers is
/// empty, and neither is its token where it has one.
pub open spec fn is_clean(page: PageModel) -> bool {
    &&& forall|i: int| 0 <= i < page.ids.len() ==> (#[trigger] page.ids[i]).len() > 0
    &&& page.token matches Some(token) ==> token.len() > 0
}

/// Whatever the elements of a response hold, the page made of them is
/// clean.
pub proof fn lemma_page_of_is_clean(raw_ids: Seq<Seq<char>>, raw_tokens: Seq<Seq<char>>)
    ensures
        is_clean(page_of(raw_ids, raw_tokens)),
    decreases raw_ids.len(),
{
    if raw_ids.len() > 0 {
        lemma_page_of_is_clean(raw_ids.drop_last(), raw_tokens);
        let front = page_of(raw_ids.drop_last(), raw_tokens);
        let page = page_of(raw_ids, raw_tokens);
        assert forall|i: int| 0 <= i < page.ids.len() implies (#[trigger] page.ids[i]).len()
            > 0 by {
            if i < front.ids.len() {
                assert(page.ids[i] == front.ids[i]);
            }
        }
    }
}

/// The article identifier in the text `raw` of an identifier element.
pub fn article_id(raw: &str) -> (id: Option<String>)
    ensures
        id.deep_view() == article_id_of(raw@),
{
    let chars = chars_of(raw);
    if chars.len() > OAI_PREFIX_LEN {
        let id = string_of_range(&chars, OAI_PREFIX_LEN, chars.len());
        assert(chars@.subrange(OAI_PREFIX_LEN as int, chars.len() as int) == chars@.skip(
            OAI_PREFIX_LEN as int,
        ));
        Some(id)
    } else {
        None
    }
}

/// The page whose identifier elements hold the texts `raw_ids` and whose
/// token elements hold the texts `raw_tokens`.
pub fn page_from_contents(raw_ids: &Vec<String>, raw_tokens: &Vec<String>) -> (page: Page)
    ensures
        page@ == page_of(raw_ids.deep_view(), raw_tokens.deep_view()),
{
    let mut ids: Vec<String> = Vec::new();
    let mut i: usize = 0;
    assert(raw_ids.deep_view().take(0) == Seq::<Seq<char>>::empty());
    assert(ids.deep_view() == Seq::<Seq<char>>::empty());
    while i < raw_ids.len()
        invariant
            i <= raw_ids.len(),
            ids.deep_view() == article_ids_of(raw_ids.deep_view().take(i as int)),
        decreases raw_ids.len() - i,
    {
        let ghost before = ids.deep_view();
        proof {
            let all = raw_ids.deep_view();
            assert(all.take(i + 1).drop_last() == all.take(i as int));
            assert(all.take(i + 1).last() == raw_ids[i as int]@);
        }
        match article_id(raw_ids[i].as_str()) {
            Some(id) => {
                let ghost text = id@;
                ids.push(id);
                assert(ids.deep_view() == before.push(text));
            },
            None => {},
        }
        i += 1;
    }
    assert(raw_ids.deep_view().take(raw_ids.len() as int) == raw_ids.deep_view());
    let token = if raw_tokens.len() > 0 && !raw_tokens[0].as_str().is_empty() {
        Some(raw_tokens[0].clone())
    } else {
        None
    };
    Page { ids, token }
}

/// The texts that the expression `xpath` selects in `body`. Where the body
/// cannot be read there are none.
pub open spec fn texts_in(body: Seq<char>, xpath: Seq<char>) -> Seq<Seq<char>> {
    match xml_texts(body, xpath) {
        Some(texts) => texts,
        None => Seq::empty(),
    }
}

/// The page that the response body `body` holds: the page made of the texts
/// of its identifier elements and of its token elements. An empty body is
/// not read at all and holds the empty page.
pub open spec fn page_in(body: Seq<char>) -> PageModel {
    if body.len() == 0 {
        empty_page()
    } else {
        page_of(texts_in(body, IDENTIFIER_XPATH@), texts_in(body, RESUMPTION_XPATH@))
    }
}

/// A page that a response body holds is clean.
pub proof fn lemma_page_in_is_clean(body: Seq<char>)
    ensures
        is_clean(page_in(body)),
{
    lemma_page_of_is_clean(texts_in(body, IDENTIFIER_XPATH@), texts_in(body, RESUMPTION_XPATH@));
}

/// The texts that the expression `xpath` selects in `body`.
fn texts_of(body: &str, xpath: &str) -> (texts: Vec<String>)
    requires
        nul_free(xpath@),
    ensures
        texts.deep_view() == texts_in(body@, xpath@),
{
    match element_texts(body, xpath) {
        Some(texts) => texts,
        None => {
            let texts: Vec<String> = Vec::new();
            assert(texts.deep_view() == Seq::<Seq<char>>::empty());
            texts
        },
    }
}

/// The page that the response body `body` holds. A body that is empty, or
/// that cannot be read as XML, holds the empty page.
pub fn extract_page(body: &str) -> (page: Page)
    ensures
        page@ == page_in(body@),
        is_clean(page@),
{
    proof {
        lemma_page_in_is_clean(body@);
    }
    if body.is_empty() {
        let none: Vec<String> = Vec::new();
        assert(none.deep_view() == Seq::<Seq<char>>::empty());
        let page = page_from_contents(&none, &none);
        assert(page@.ids == empty_page().ids);
        return page;
    }
    proof {
        reveal_strlit("//*[local-name()='identifier']");
        reveal_strlit("//*[local-name()='resumptionToken']");
    }
    let raw_ids = texts_of(body, IDENTIFIER_XPATH);
    let raw_tokens = texts_of(body, RESUMPTION_XPATH);
    page_from_contents(&raw_ids, &raw_tokens)
}

/// What one request of a harvest brought.
#[derive(Clone, Debug, PartialEq, Eq)]
pub enum Fetched {
    /// The service answered with `status` and the text `body`.
    Response { status: u16, body: String },
    /// No answer arrived, or its text could not be read.
    NoResponse,
}

/// What one request of a harvest brought, as the harvest takes it in.
pub enum HarvestEvent {
    /// The service answered with success; this is the page in its answer.
    Page(PageModel),
    /// The service answered with this status, which is not success.
    Refused(u16),
    /// No answer arrived.
    NoResponse,
}

/// A harvest as contracts see it.
pub struct HarvestModel {
    /// The identifiers collected so far, page by page.
    pub ids: Seq<Seq<char>>,
    /// The address of the page that is asked for.
    pub url: Seq<char>,
    /// Attempts spent on that page.
    pub attempts: nat,
    /// Seconds to wait before the next request.
    pub pause: nat,
    /// Whether the harvest is over.
    pub done: bool,
}

/// A harvest that starts by asking for `url`.
pub open spec fn harvest_from(url: Seq<char>) -> HarvestModel {
    HarvestModel { ids: Seq::empty(), url, attempts: 0, pause: 0, done: false }
}

/// A harvest that has collected `ids` and goes on with the page that
/// `token` names.
pub open spec fn harvest_continued(ids: Seq<Seq<char>>, token: Seq<char>) -> HarvestModel {
    HarvestModel { ids, url: OAI_RESUME_URL@ + token, attempts: 0, pause: 0, done: false }
}

/// The token that asks for the page after `page`: its token, unless that is
/// empty.
pub open spec fn next_token(page: PageModel) -> Option<Seq<char>> {
    match page.token {
        Some(token) => if token.len() > 0 {
            Some(token)
        } else {
            None
        },
        None => None,
    }
}

/// The harvest after one more event. A finished harvest stays as it is. A
/// page adds its identifiers behind those collected; with a token the
/// harvest goes on to the page that the token names, with a fresh budget,
/// and without one it is over. Anything else spends an attempt on the
/// current page and loses nothing; the harvest is over when the budget is
/// spent. After status 503 the next request waits `BACKOFF_SECS`.
pub open spec fn after_event(h: HarvestModel, event: HarvestEvent) -> HarvestModel {
    if h.done {
        h
    } else {
        match event {
            HarvestEvent::Page(page) => match next_token(page) {
                Some(token) => harvest_continued(h.ids + page.ids, token),
                None => HarvestModel {
                    ids: h.ids + page.ids,
                    url: h.url,
                    attempts: h.attempts + 1,
                    pause: 0,
                    done: true,
                },
            },
            HarvestEvent::Refused(status) => HarvestModel {
                ids: h.ids,
                url: h.url,
                attempts: h.attempts + 1,
                pause: if status == 503 {
                    BACKOFF_SECS as nat
                } else {
                    0
                },
                done: h.attempts + 1 >= MAX_ATTEMPTS,
            },
            HarvestEvent::NoResponse => HarvestModel {
                ids: h.ids,
                url: h.url,
                attempts: h.attempts + 1,
                pause: 0,
                done: h.attempts + 1 >= MAX_ATTEMPTS,
            },
        }
    }
}

/// The harvest after a sequence of events, the first of them first.
pub open spec fn after_events(h: HarvestModel, events: Seq<HarvestEvent>) -> HarvestModel
    decreases events.len(),
{
    if events.len() == 0 {
        h
    } else {
        after_event(after_events(h, events.drop_last()), events.last())
    }
}

/// The request that a harvest asks for.
#[derive(Clone, Debug, PartialEq, Eq)]
pub struct Request {
    /// The address to get.
    pub url: String,
    /// Seconds to wait before the request is made.
    pub pause_secs: u64,
}

/// A harvest in progress.
#[derive(Debug)]
pub struct Harvest {
    ids: Vec<String>,
    url: String,
    attempts: u8,
    pause: u64,
    done: bool,
}

impl View for Harvest {
    type V = HarvestModel;

    closed spec fn view(&self) -> HarvestModel {
        HarvestModel {
            ids: self.ids.deep_view(),
            url: self.url@,
            attempts: self.attempts as nat,
            pause: self.pause as nat,
            done: self.done,
        }
    }
}

/// `ids` with the identifiers of `more` behind them.
fn append_ids(ids: Vec<String>, more: Vec<String>) -> (all: Vec<String>)
    ensures
        all.deep_view() == ids.deep_view() + more.deep_view(),
{
    let mut all = ids;
    let mut i: usize = 0;
    assert(more.deep_view().take(0) == Seq::<Seq<char>>::empty());
    assert(all.deep_view() == ids.deep_view() + more.deep_view().take(0));
    while i < more.len()
        invariant
            i <= more.len(),
            all.deep_view() == ids.deep_view() + more.deep_view().take(i as int),
        decreases more.len() - i,
    {
        let ghost before = all.deep_view();
        all.push(more[i].clone());
        proof {
            assert(all.deep_view() == before.push(more[i as int]@));
            assert(more.deep_view().take(i + 1) == more.deep_view().take(i as int).push(
                more[i as int]@,
            ));
        }
        i += 1;
    }
    assert(more.deep_view().take(more.len() as int) == more.deep_view());
    all
}

impl Harvest {
    #[verifier::type_invariant]
    spec fn within_budget(self) -> bool {
        if self.done {
            self.attempts <= MAX_ATTEMPTS
        } else {
            self.attempts < MAX_ATTEMPTS
        }
    }

    /// Whether the harvest is over.
    pub fn is_done(&self) -> (done: bool)
        ensures
            done == self@.done,
    {
        self.done
    }

    /// The request to make next, or `None` when the harvest is over.
    pub fn request(&self) -> (request: Option<Request>)
        ensures
            request is None <==> self@.done,
            request matches Some(r) ==> r.url@ == self@.url && r.pause_secs == self@.pause,
    {
        if self.done {
            None
        } else {
            Some(Request { url: self.url.clone(), pause_secs: self.pause })
        }
    }

    /// The identifiers collected so far, page by page.
    pub fn collected(&self) -> (ids: &Vec<String>)
        ensures
            ids.deep_view() == self@.ids,
    {
        &self.ids
    }

    /// The list of changed identifiers: what was collected, each identifier
    /// once, at the place where it came first.
    pub fn into_ids(self) -> (ids: Vec<String>)
        ensures
            ids.deep_view() == distinct(self@.ids),
    {
        deduplicate(&self.ids)
    }

    /// Takes in a page that the service answered with.
    pub fn record_page(self, page: Page) -> (next: Harvest)
        ensures
            next@ == after_event(self@, HarvestEvent::Page(page@)),
    {
        proof {
            use_type_invariant(&self);
        }
        if self.done {
            return self;
        }
        let ids = append_ids(self.ids, page.ids);
        match page.token {
            Some(token) => {
                if !token.as_str().is_empty() {
                    let url = joined(OAI_RESUME_URL, token.as_str());
                    return Harvest { ids, url, attempts: 0, pause: 0, done: false };
                }
            },
            None => {},
        }
        Harvest { ids, url: self.url, attempts: self.attempts + 1, pause: 0, done: true }
    }

    /// Takes in an answer with `status`, which is not success.
    pub fn record_refusal(self, status: u16) -> (next: Harvest)
        ensures
            next@ == after_event(self@, HarvestEvent::Refused(status)),
    {
        proof {
            use_type_invariant(&self);
        }
        if self.done {
            return self;
        }
        let attempts: u8 = self.attempts + 1;
        Harvest {
            ids: self.ids,
            url: self.url,
            attempts,
            pause: if status == 503 {
                BACKOFF_SECS
            } else {
                0
            },
            done: attempts >= MAX_ATTEMPTS,
        }
    }

    /// Takes in that no answer arrived.
    pub fn record_no_response(self) -> (next: Harvest)
        ensures
            next@ == after_event(self@, HarvestEvent::NoResponse),
    {
        proof {
            use_type_invariant(&self);
        }
        if self.done {
            return self;
        }
        let attempts: u8 = self.attempts + 1;
        Harvest {
            ids: self.ids,
            url: self.url,
            attempts,
            pause: 0,
            done: attempts >= MAX_ATTEMPTS,
        }
    }

    /// Takes in what the request last named brought. An answer with status
    /// 200 holds the page that `page_in` says, whatever its body is.
    pub fn record(self, fetched: &Fetched) -> (next: Harvest)
        ensures
            match *fetched {
                Fetched::NoResponse => next@ == after_event(self@, HarvestEvent::NoResponse),
                Fetched::Response { status, body } => if status != 200 {
                    next@ == after_event(self@, HarvestEvent::Refused(status))
                } else {
                    next@ == after_event(self@, HarvestEvent::Page(page_in(body@)))
                },
            },
    {
        match fetched {
            Fetched::NoResponse => self.record_no_response(),
            Fetched::Response { status, body } => {
                if *status != 200 {
                    self.record_refusal(*status)
                } else {
                    self.record_page(extract_page(body.as_str()))
                }
            },
        }
    }
}

/// A harvest that starts by asking for `url`.
pub fn fetch_article_list_by_url(url: String) -> (harvest: Harvest)
    ensures
        harvest@ == harvest_from(url@),
{
    let harvest = Harvest { ids: Vec::new(), url, attempts: 0, pause: 0, done: false };
    assert(harvest@.ids == Seq::<Seq<char>>::empty());
    harvest
}

/// Whether `text` is written as a date: three parts with a hyphen between
/// them.
pub open spec fn is_date(text: Seq<char>) -> bool {
    count_of(text, '-') == 2
}

/// Whether `text` is written as a date.
pub fn is_date_text(text: &str) -> (r: bool)
    ensures
        r == is_date(text@),
{
    count_char(text, '-') == 2
}

/// A harvest of the identifiers modified since the date `yyyymmdd`, which
/// must be written as a date.
pub fn fetch_article_list_since(yyyymmdd: &str) -> (harvest: Harvest)
    requires
        is_date(yyyymmdd@),
    ensures
        harvest@ == harvest_from(OAI_FROM_URL@ + yyyymmdd@),
{
    fetch_article_list_by_url(joined(OAI_FROM_URL, yyyymmdd))
}

/// A harvest that takes a listing up again at the resumption token `token`.
pub fn fetch_article_list_resume(token: &str) -> (harvest: Harvest)
    ensures
        harvest@ == harvest_from(OAI_RESUME_URL@ + token@),
{
    fetch_article_list_by_url(joined(OAI_RESUME_URL, token))
}

/// The identifiers of a sequence of pages, page by page.
pub open spec fn ids_of_pages(pages: Seq<PageModel>) -> Seq<Seq<char>>
    decreases pages.len(),
{
    if pages.len() == 0 {
        Seq::empty()
    } else {
        ids_of_pages(pages.drop_last()) + pages.last().ids
    }
}

/// The events of a harvest that gets each of `pages` at the first attempt.
pub open spec fn page_events(pages: Seq<PageModel>) -> Seq<HarvestEvent> {
    Seq::new(pages.len(), |i: int| HarvestEvent::Page(pages[i]))
}

/// Whether `pages` is a whole listing: every page but the last names a next
/// page, and the last names none.
pub open spec fn is_listing(pages: Seq<PageModel>) -> bool {
    &&& pages.len() > 0
    &&& forall|i: int| 0 <= i < pages.len() - 1 ==> next_token(#[trigger] pages[i]) is Some
    &&& next_token(pages.last()) is None
}

/// Whether every event of `events` is a failed attempt: anything but a
/// page.
pub open spec fn all_failed(events: Seq<HarvestEvent>) -> bool {
    forall|i: int| 0 <= i < events.len() ==> !(#[trigger] events[i] is Page)
}

/// A failed attempt loses nothing: what was collected stays, and the same
/// page is asked for again until the budget is spent.
pub proof fn lemma_failure_keeps_ids(h: HarvestModel, event: HarvestEvent)
    requires
        !(event is Page),
    ensures
        after_event(h, event).ids == h.ids,
        after_event(h, event).url == h.url,
        !h.done ==> after_event(h, event).attempts == h.attempts + 1,
        !h.done ==> (after_event(h, event).done <==> h.attempts + 1 >= MAX_ATTEMPTS),
{
}

/// Failed attempts in a row lose nothing either, and as long as they are
/// fewer than the budget holds the harvest goes on.
pub proof fn lemma_failures_keep_ids(h: HarvestModel, failures: Seq<HarvestEvent>)
    requires
        !h.done,
        all_failed(failures),
        h.attempts + failures.len() < MAX_ATTEMPTS,
    ensures
        after_events(h, failures).ids == h.ids,
        after_events(h, failures).url == h.url,
        after_events(h, failures).attempts == h.attempts + failures.len(),
        !after_events(h, failures).done,
    decreases failures.len(),
{
    if failures.len() > 0 {
        let front = failures.drop_last();
        assert forall|i: int| 0 <= i < front.len() implies !(#[trigger] front[i] is Page) by {
            assert(front[i] == failures[i]);
        }
        lemma_failures_keep_ids(h, front);
        assert(!(failures[failures.len() - 1] is Page));
    }
}

/// A harvest whose budget is spent on one page is over, and holds what it
/// had collected before.
pub proof fn lemma_budget_ends_harvest(h: HarvestModel, failures: Seq<HarvestEvent>)
    requires
        !h.done,
        h.attempts < MAX_ATTEMPTS,
        all_failed(failures),
        h.attempts + failures.len() == MAX_ATTEMPTS,
    ensures
        after_events(h, failures).done,
        after_events(h, failures).ids == h.ids,
{
    let front = failures.drop_last();
    assert forall|i: int| 0 <= i < front.len() implies !(#[trigger] front[i] is Page) by {
        assert(front[i] == failures[i]);
    }
    lemma_failures_keep_ids(h, front);
    assert(!(failures[failures.len() - 1] is Page));
}

/// A page that is had after failed attempts, fewer than the budget holds,
/// counts as if it had been had at once: its identifiers go behind those
/// collected, and the harvest goes on or ends as the page says.
pub proof fn lemma_page_after_failures(
    h: HarvestModel,
    failures: Seq<HarvestEvent>,
    page: PageModel,
)
    requires
        !h.done,
        all_failed(failures),
        h.attempts + failures.len() < MAX_ATTEMPTS,
    ensures
        after_events(h, failures.push(HarvestEvent::Page(page))).ids == h.ids + page.ids,
        after_events(h, failures.push(HarvestEvent::Page(page))).done == (next_token(page)
            is None),
        next_token(page) matches Some(token) ==> after_events(
            h,
            failures.push(HarvestEvent::Page(page)),
        ) == harvest_continued(h.ids + page.ids, token),
{
    lemma_failures_keep_ids(h, failures);
    assert(failures.push(HarvestEvent::Page(page)).drop_last() == failures);
}

/// Events taken in one after the other are taken in as one sequence.
pub proof fn lemma_after_events_add(h: HarvestModel, a: Seq<HarvestEvent>, b: Seq<HarvestEvent>)
    ensures
        after_events(h, a + b) == after_events(after_events(h, a), b),
    decreases b.len(),
{
    if b.len() == 0 {
        assert(a + b == a);
    } else {
        lemma_after_events_add(h, a, b.drop_last());
        assert((a + b).drop_last() == a + b.drop_last());
        assert((a + b).last() == b.last());
    }
}

/// While a listing is not at its end, the harvest has collected the
/// identifiers of the pages it has seen, in their order, and asks for the
/// page that the last token names.
pub proof fn lemma_harvest_follows_tokens(url: Seq<char>, pages: Seq<PageModel>)
    requires
        forall|i: int| 0 <= i < pages.len() ==> next_token(#[trigger] pages[i]) is Some,
    ensures
        !after_events(harvest_from(url), page_events(pages)).done,
        after_events(harvest_from(url), page_events(pages)).ids == ids_of_pages(pages),
        after_events(harvest_from(url), page_events(pages)).attempts == 0,
        after_events(harvest_from(url), page_events(pages)).url == if pages.len() == 0 {
            url
        } else {
            OAI_RESUME_URL@ + next_token(pages.last())->0
        },
    decreases pages.len(),
{
    if pages.len() > 0 {
        let front = pages.drop_last();
        assert forall|i: int| 0 <= i < front.len() implies next_token(#[trigger] front[i])
            is Some by {
            assert(front[i] == pages[i]);
        }
        lemma_harvest_follows_tokens(url, front);
        assert(page_events(pages).drop_last() == page_events(front));
        assert(page_events(pages).last() == HarvestEvent::Page(pages.last()));
        assert(next_token(pages[pages.len() - 1]) is Some);
    }
}

/// A harvest over a whole listing collects the identifiers of all of its
/// pages, page by page in the order of the requests, none lost and none
/// repeated, and is over with the page that holds no token.
pub proof fn lemma_harvest_of_listing(url: Seq<char>, pages: Seq<PageModel>)
    requires
        is_listing(pages),
    ensures
        after_events(harvest_from(url), page_events(pages)).done,
        after_events(harvest_from(url), page_events(pages)).ids == ids_of_pages(pages),
{
    let front = pages.drop_last();
    assert forall|i: int| 0 <= i < front.len() implies next_token(#[trigger] front[i])
        is Some by {
        assert(front[i] == pages[i]);
    }
    lemma_harvest_follows_tokens(url, front);
    assert(page_events(pages).drop_last() == page_events(front));
    assert(page_events(pages).last() == HarvestEvent::Page(pages.last()));
}

/// One page of a listing as a harvest comes by it: the failed attempts
/// before it, and the page.
pub struct Round {
    pub failures: Seq<HarvestEvent>,
    pub page: PageModel,
}

/// The events of a harvest that comes by its pages as `rounds` says.
pub open spec fn round_events(rounds: Seq<Round>) -> Seq<HarvestEvent>
    decreases rounds.len(),
{
    if rounds.len() == 0 {
        Seq::empty()
    } else {
        round_events(rounds.drop_last()) + rounds.last().failures.push(
            HarvestEvent::Page(rounds.last().page),
        )
    }
}

/// The pages of `rounds`.
pub open spec fn pages_of(rounds: Seq<Round>) -> Seq<PageModel> {
    Seq::new(rounds.len(), |i: int| rounds[i].page)
}

/// Whether every page of `rounds` is had within the budget: the attempts
/// before it have failed, and they are fewer than the budget holds.
pub open spec fn rounds_within_budget(rounds: Seq<Round>) -> bool {
    forall|i: int|
        0 <= i < rounds.len() ==> all_failed((#[trigger] rounds[i]).failures)
            && rounds[i].failures.len() < MAX_ATTEMPTS
}

/// As long as every page is had within the budget and names a next page,
/// the harvest has collected the identifiers of the pages it has seen, and
/// asks for the next page with a fresh budget.
pub proof fn lemma_rounds_follow_tokens(url: Seq<char>, rounds: Seq<Round>)
    requires
        rounds_within_budget(rounds),
        forall|i: int| 0 <= i < rounds.len() ==> next_token((#[trigger] rounds[i]).page) is Some,
    ensures
        !after_events(harvest_from(url), round_events(rounds)).done,
        after_events(harvest_from(url), round_events(rounds)).attempts == 0,
        after_events(harvest_from(url), round_events(rounds)).ids == ids_of_pages(
            pages_of(rounds),
        ),
    decreases rounds.len(),
{
    if rounds.len() > 0 {
        let front = rounds.drop_last();
        let last = rounds.last();
        assert forall|i: int| 0 <= i < front.len() implies all_failed(
            (#[trigger] front[i]).failures,
        ) && front[i].failures.len() < MAX_ATTEMPTS && next_token(front[i].page) is Some by {
            assert(front[i] == rounds[i]);
        }
        lemma_rounds_follow_tokens(url, front);
        let h = after_events(harvest_from(url), round_events(front));
        assert(last == rounds[rounds.len() - 1]);
        lemma_after_events_add(
            harvest_from(url),
            round_events(front),
            last.failures.push(HarvestEvent::Page(last.page)),
        );
        lemma_page_after_failures(h, last.failures, last.page);
        assert(pages_of(rounds).drop_last() == pages_of(front));
        assert(pages_of(rounds).last() == last.page);
    }
}

/// A harvest over a whole listing collects the identifiers of all of its
/// pages, in the order of the pages, however many attempts each page takes
/// within the budget. Nothing is lost to a failed attempt and nothing is
/// collected twice.
pub proof fn lemma_harvest_with_retries(url: Seq<char>, rounds: Seq<Round>)
    requires
        rounds_within_budget(rounds),
        is_listing(pages_of(rounds)),
    ensures
        after_events(harvest_from(url), round_events(rounds)).done,
        after_events(harvest_from(url), round_events(rounds)).ids == ids_of_pages(
            pages_of(rounds),
        ),
{
    let front = rounds.drop_last();
    let last = rounds.last();
    assert(pages_of(rounds).drop_last() == pages_of(front));
    assert(pages_of(rounds).last() == last.page);
    assert forall|i: int| 0 <= i < front.len() implies all_failed((#[trigger] front[i]).failures)
        && front[i].failures.len() < MAX_ATTEMPTS && next_token(front[i].page) is Some by {
        assert(front[i] == rounds[i]);
        assert(pages_of(rounds)[i] == rounds[i].page);
    }
    lemma_rounds_follow_tokens(url, front);
    let h = after_events(harvest_from(url), round_events(front));
    assert(last == rounds[rounds.len() - 1]);
    lemma_after_events_add(
        harvest_from(url),
        round_events(front),
        last.failures.push(HarvestEvent::Page(last.page)),
    );
    lemma_page_after_failures(h, last.failures, last.page);
}

/// The list that a harvest hands out holds every identifier that was
/// collected and no other, each of them once. Where the pages repeat no
/// identifier, it is the identifiers of the pages, as they were collected.
pub proof fn lemma_harvested_list(ids: Seq<Seq<char>>)
    ensures
        distinct(ids).no_duplicates(),
        forall|id: Seq<char>| distinct(ids).contains(id) <==> ids.contains(id),
        ids.no_duplicates() ==> distinct(ids) == ids,
{
    lemma_distinct(ids);
    if ids.no_duplicates() {
        lemma_distinct_of_distinct(ids);
    }
}

} // verus!
