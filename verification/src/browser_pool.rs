//! Clients that carry the cookies of the user's browser, and pages that only
//! a browser can render.
use crate::clients::{browser_fields, browser_headers, can_carry, TIMEOUT_SECONDS};
use crate::headers::{fields, is_header_text};
use crate::json::{
    contents, document, get_text, get_text_items, parse, text_items_member, text_member, Json,
};
use crate::text::{contains, mentions, texts, trim, trimmed};
use reqwest::header::{HeaderMap, HeaderValue};
use serde_json::Value;
use vstd::prelude::*;

verus! {

/// The cookies of a browser, as the header that sends them holds them: one
/// after the other, with a semicolon and a space before each but the first.
pub open spec fn cookie_header(cookies: Seq<Seq<char>>) -> Seq<char>
    decreases cookies.len(),
{
    if cookies.len() == 0 {
        Seq::empty()
    } else {
        let front = cookie_header(cookies.drop_last());
        if front.len() == 0 {
            cookies.last()
        } else {
            front + "; "@ + cookies.last()
        }
    }
}

/// The value of the header that sends the given cookies.
pub fn join_cookies(cookies: &Vec<String>) -> (r: String)
    ensures
        r@ == cookie_header(texts(cookies@)),
{
    let ghost all = texts(cookies@);
    let mut header = String::new();
    let mut i: usize = 0;
    assert(all.take(0) =~= Seq::<Seq<char>>::empty());
    while i < cookies.len()
        invariant
            i <= cookies.len(),
            all == texts(cookies@),
            header@ == cookie_header(all.take(i as int)),
        decreases cookies.len() - i,
    {
        assert(all.take(i + 1).drop_last() =~= all.take(i as int));
        assert(all.take(i + 1).last() == cookies@[i as int]@);
        if !header.as_str().is_empty() {
            header.append("; ");
        }
        let ghost before = header@;
        header.append(cookies[i].as_str());
        assert(before.len() == 0 ==> header@ =~= cookies@[i as int]@);
        i += 1;
    }
    assert(all.take(i as int) =~= all);
    header
}

/// The cookies and the User-Agent in what the helper script prints, if both
/// are there.
pub open spec fn harvest(json: Json) -> Option<(Seq<Seq<char>>, Seq<char>)> {
    match (text_items_member(json, "cookies"@), text_member(json, "user_agent"@)) {
        (Some(cookies), Some(agent)) => Some((cookies, agent)),
        _ => None,
    }
}

/// The cookies and the User-Agent in a document of the helper script. Of the
/// cookies, those that are strings count.
pub fn read_harvest(json: &Value) -> (r: Option<(Vec<String>, String)>)
    ensures
        match r {
            Some((cookies, agent)) => harvest(contents(*json)) == Some((texts(cookies@), agent@)),
            None => harvest(contents(*json)) is None,
        },
{
    let cookies: Vec<String> = match get_text_items(json, "cookies") {
        Some(cookies) => cookies,
        None => {
            return None;
        },
    };
    match get_text(json, "user_agent") {
        Some(agent) => Some((cookies, agent)),
        None => None,
    }
}

/// The cookies and the User-Agent in the output of the helper script.
pub open spec fn script_harvest(success: bool, stdout: Seq<char>) -> Option<
    (Seq<Seq<char>>, Seq<char>),
> {
    match document(trim(stdout)) {
        Some(json) if success => harvest(json),
        _ => None,
    }
}

/// The cookies and the User-Agent of the user's browser, from the output of
/// the helper script: nothing where the script failed, where it did not print
/// a JSON document, or where the document lacks one of them.
pub fn harvest_cookies(success: bool, stdout: &str) -> (r: Option<(Vec<String>, String)>)
    ensures
        match r {
            Some((cookies, agent)) => success && document(trim(stdout@)) is Some && harvest(
                document(trim(stdout@))->0,
            ) == Some((texts(cookies@), agent@)),
            None => !success || document(trim(stdout@)) is None || harvest(
                document(trim(stdout@))->0,
            ) is None,
        },
        script_harvest(success, stdout@) == match r {
            Some((cookies, agent)) => Some((texts(cookies@), agent@)),
            None => None,
        },
{
    if !success {
        return None;
    }
    match parse(trimmed(stdout).as_str()) {
        Ok(json) => read_harvest(&json),
        Err(_) => None,
    }
}

/// How a client that carries a browser's cookies is made.
pub struct ClientPlan {
    /// The headers that it sends with every request.
    pub headers: HeaderMap<HeaderValue>,
    /// How long it waits for a reply.
    pub timeout_seconds: u64,
    /// Whether it keeps to the first version of HTTP.
    pub http1_only: bool,
}

/// What a client sends that carries the given cookies of a browser.
pub open spec fn cookie_client_fields(cookies: Seq<Seq<char>>, user_agent: Seq<char>) -> Map<
    Seq<char>,
    Seq<u8>,
> {
    browser_fields(user_agent, cookie_header(cookies))
}

/// How the client that carries the harvested cookies is made; not at all
/// where they or the User-Agent cannot stand in a header.
pub fn build_cookie_client(cookies: &Vec<String>, user_agent: &str) -> (r: Option<ClientPlan>)
    ensures
        r is Some <==> is_header_text(user_agent@) && is_header_text(
            cookie_header(texts(cookies@)),
        ),
        r matches Some(plan) ==> {
            &&& fields(plan.headers) == browser_fields(
                user_agent@,
                cookie_header(texts(cookies@)),
            )
            &&& plan.timeout_seconds == TIMEOUT_SECONDS
            &&& plan.http1_only
        },
        r is Some <==> can_carry(user_agent@, cookie_header(texts(cookies@))),
        r matches Some(plan) ==> fields(plan.headers) == cookie_client_fields(
            texts(cookies@),
            user_agent@,
        ),
{
    let cookies: String = join_cookies(cookies);
    match browser_headers(user_agent, cookies.as_str()) {
        Some(headers) => Some(
            ClientPlan { headers, timeout_seconds: TIMEOUT_SECONDS, http1_only: true },
        ),
        None => None,
    }
}

/// Where the browser leaves a rendered page.
pub const PAGE_PATH: &'static str = "/tmp/lucida_browser_page.html";

/// A text as a quoted literal, as its `Debug` form gives it.
pub uninterp spec fn quoted(text: Seq<char>) -> Seq<char>;

/// The `Debug` form of a text is a quoted literal that depends on the text
/// alone. How characters are escaped in it is left to the standard library.
#[verifier::external_body]
fn quote(text: &str) -> (r: String)
    ensures
        r@ == quoted(text@),
{
    format!("{:?}", text)
}

/// The script that has the browser render a page and leave it at a path, with
/// the page's address and the path as they are quoted.
pub open spec fn page_script_text(url: Seq<char>, path: Seq<char>) -> Seq<char> {
    SCRIPT_HEAD@ + url + SCRIPT_BODY@ + path + SCRIPT_TAIL@
}

/// The page script up to the page's address.
pub const SCRIPT_HEAD: &'static str =
    "import sys, json\nfrom playwright.sync_api import sync_playwright\n\nwith sync_playwright() as p:\n    try:\n        browser = p.chromium.connect_over_cdp(\"http://127.0.0.1:9222\")\n        context = browser.contexts[0] if browser.contexts else browser.new_context()\n        page = context.new_page()\n        page.goto(";

/// The page script between the page's address and the path.
pub const SCRIPT_BODY: &'static str =
    ", wait_until=\"domcontentloaded\", timeout=60000)\n        page.wait_for_timeout(15000)\n        html = page.content()\n        with open(";

/// The page script after the path.
pub const SCRIPT_TAIL: &'static str =
    ", \"w\") as f:\n            f.write(html)\n        browser.close()\n    except Exception as e:\n        print(f\"ERROR: {e}\", file=sys.stderr)\n        sys.exit(1)\nprint(\"OK\")\n";

/// The page script with the given quoted address and path.
pub fn fill_page_script(url: &str, path: &str) -> (r: String)
    ensures
        r@ == page_script_text(url@, path@),
{
    SCRIPT_HEAD.to_owned().concat(url).concat(SCRIPT_BODY).concat(path).concat(SCRIPT_TAIL)
}

/// The script that has the browser render a page.
pub fn page_script(url: &str) -> (r: String)
    ensures
        r@ == page_script_text(quoted(url@), quoted(PAGE_PATH@)),
{
    fill_page_script(quote(url).as_str(), quote(PAGE_PATH).as_str())
}

/// Whether the page script has left the page.
pub open spec fn is_page_left(success: bool, stdout: Seq<char>) -> bool {
    success && mentions(stdout, "OK"@)
}

/// Whether the page script has left the page: it ended with success, and said
/// so.
pub fn fetch_page_with_browser(success: bool, stdout: &str) -> (r: bool)
    ensures
        r == (success && mentions(stdout@, "OK"@)),
        r == is_page_left(success, stdout@),
{
    success && contains(stdout, "OK")
}

/// The client after an attempt at one with fresh cookies.
pub open spec fn refreshed<C>(client: C, built: Option<C>) -> C {
    match built {
        Some(fresh) => fresh,
        None => client,
    }
}

/// The client that all workers use. It can be replaced by one with fresh
/// cookies. There is one such value for all of its holders, who reach it
/// through a lock of the program; the lock itself has no contract.
pub struct SharedClient<C> {
    inner: C,
}

impl<C> View for SharedClient<C> {
    type V = C;

    closed spec fn view(&self) -> C {
        self.inner
    }
}

impl<C: Clone> SharedClient<C> {
    /// Shares the given client.
    pub fn new(client: C) -> (r: Self)
        ensures
            r@ == client,
    {
        SharedClient { inner: client }
    }

    /// A clone of the current client.
    pub fn get(&self) -> (r: C)
        ensures
            cloned(self@, r),
    {
        self.inner.clone()
    }

    /// Takes the client with fresh cookies in place of the current one, if one
    /// could be made, and tells whether it did.
    pub fn refresh(&mut self, built: Option<C>) -> (r: bool)
        ensures
            r == built is Some,
            final(self)@ == refreshed(old(self)@, built),
    {
        match built {
            Some(client) => {
                self.inner = client;
                true
            },
            None => false,
        }
    }
}

/// A use of the shared client by one of its holders: a request for a clone of
/// it, or an attempt at one with fresh cookies.
pub enum SharedUse<C> {
    Get { holder: nat },
    Refresh { holder: nat, built: Option<C> },
}

/// The shared client after the given uses, and the clients of which clones were
/// handed out, in order.
pub open spec fn shared_run<C>(client: C, uses: Seq<SharedUse<C>>) -> (C, Seq<C>)
    decreases uses.len(),
{
    if uses.len() == 0 {
        (client, Seq::empty())
    } else {
        let (current, handed) = shared_run(client, uses.drop_last());
        match uses.last() {
            SharedUse::Get { .. } => (current, handed.push(current)),
            SharedUse::Refresh { built, .. } => (refreshed(current, built), handed),
        }
    }
}

/// Whether a use puts a client with fresh cookies in place.
pub open spec fn brings_fresh<C>(shared_use: SharedUse<C>) -> bool {
    shared_use matches SharedUse::Refresh { built: Some(_), .. }
}

/// Once any holder has got a client with fresh cookies, every holder is handed
/// that one, until another is got; attempts that fail change nothing, and
/// neither do requests for clones.
pub proof fn law_holders_share_the_last_fresh_client<C>(
    client: C,
    before: Seq<SharedUse<C>>,
    holder: nat,
    fresh: C,
    after: Seq<SharedUse<C>>,
    other: nat,
)
    requires
        forall|i: int|
            0 <= i < after.len() ==> !brings_fresh(#[trigger] after[i]),
    ensures
        ({
            let refresh = SharedUse::Refresh { holder, built: Some(fresh) };
            let uses = before.push(refresh) + after;
            &&& shared_run(client, uses).0 == fresh
            &&& shared_run(client, uses.push(SharedUse::Get { holder: other })).1.last() == fresh
        }),
    decreases after.len(),
{
    let refresh = SharedUse::Refresh { holder, built: Some(fresh) };
    let uses = before.push(refresh) + after;
    let get = SharedUse::Get { holder: other };
    assert(uses.push(get).drop_last() =~= uses);
    if after.len() == 0 {
        assert(uses =~= before.push(refresh));
        assert(uses.drop_last() =~= before);
    } else {
        let front = after.drop_last();
        assert forall|i: int| 0 <= i < front.len() implies !brings_fresh(#[trigger] front[i]) by {
            assert(front[i] == after[i]);
        }
        law_holders_share_the_last_fresh_client(client, before, holder, fresh, front, other);
        assert(uses.drop_last() =~= before.push(refresh) + front);
        assert(!brings_fresh(after[after.len() - 1]));
        assert(uses.last() == after[after.len() - 1]);
    }
    assert(shared_run(client, uses).0 == fresh);
    assert(uses.push(get).last() == get);
    assert(shared_run(client, uses.push(get)).1 == shared_run(client, uses).1.push(fresh));
}

/// Clients that were handed out stay as they were, whatever follows.
pub proof fn law_handed_out_clients_stay<C>(
    client: C,
    before: Seq<SharedUse<C>>,
    after: Seq<SharedUse<C>>,
)
    ensures
        shared_run(client, before).1.is_prefix_of(shared_run(client, before + after).1),
    decreases after.len(),
{
    if after.len() == 0 {
        assert(before + after =~= before);
    } else {
        law_handed_out_clients_stay(client, before, after.drop_last());
        assert((before + after).drop_last() =~= before + after.drop_last());
    }
}

/// Texts with a semicolon and a space between every two.
pub open spec fn separated(items: Seq<Seq<char>>) -> Seq<char>
    decreases items.len(),
{
    if items.len() == 0 {
        Seq::empty()
    } else if items.len() == 1 {
        items[0]
    } else {
        separated(items.drop_last()) + "; "@ + items.last()
    }
}

/// Where the first cookie is not empty, the header holds all cookies with a
/// semicolon and a space between every two.
pub proof fn law_cookie_header_separates_the_cookies(cookies: Seq<Seq<char>>)
    requires
        cookies.len() > 0 ==> cookies[0].len() > 0,
    ensures
        cookie_header(cookies) == separated(cookies),
        cookies.len() > 0 ==> cookie_header(cookies).len() > 0,
    decreases cookies.len(),
{
    reveal_strlit("; ");
    if cookies.len() > 0 {
        law_cookie_header_separates_the_cookies(cookies.drop_last());
    }
}

} // verus!
