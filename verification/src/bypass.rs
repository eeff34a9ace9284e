//! A headless browser with the user's profile that gets past the site's
//! challenge page, and the client made from its cookies.
use crate::browser_pool::{
    cookie_client_fields, cookie_header, join_cookies, law_cookie_header_separates_the_cookies, separated, ClientPlan,
};
use crate::clients::{browser_fields, browser_headers, can_carry, TIMEOUT_SECONDS};
use crate::headers::{fields, is_header_text};
use crate::json::{contents, Json};
use crate::provisioning::{below, join_path};
use crate::text::{contains, lowercase, mentions, texts, to_lowercase};
use serde_json::Value;
use vstd::prelude::*;

verus! {

/// How often the page's title is looked at.
pub const MAX_LOOKS: usize = 30;

/// The pause before each look, in seconds.
pub const LOOK_SECONDS: u64 = 1;

/// The User-Agent that the headless browser is given.
pub const USER_AGENT: &'static str =
    "Mozilla/5.0 (X11; Linux x86_64) AppleWebKit/537.36 (KHTML, like Gecko) Chrome/149.0.0.0 Safari/537.36";

/// Where the copy of the user's profile is kept.
pub const PROFILE_COPY: &'static str = "/tmp/lucida-chromium-profile";

/// What a page's title says about it.
#[derive(Clone, Copy, PartialEq, Eq, Structural, Debug)]
pub enum Title {
    /// The challenge is still there, or there is no title yet.
    Pending,
    /// The site shows an error.
    ErrorPage,
    /// The site's page is there.
    Loaded,
}

/// Whether a title in lower case is that of the challenge.
pub open spec fn is_challenge_title(title: Seq<char>) -> bool {
    ||| mentions(title, "just a moment"@)
    ||| mentions(title, "just a sec"@)
    ||| mentions(title, "cloudflare"@)
}

/// Whether a title in lower case is that of an error page.
pub open spec fn is_error_title(title: Seq<char>) -> bool {
    ||| mentions(title, "521"@)
    ||| mentions(title, "503"@)
    ||| mentions(title, "502"@)
    ||| mentions(title, "web server is down"@)
    ||| mentions(title, "bad gateway"@)
    ||| mentions(title, "service unavailable"@)
}

/// What a title in lower case says about its page.
pub open spec fn title_kind(title: Seq<char>) -> Title {
    if is_challenge_title(title) || (title.len() == 0 && !is_error_title(title)) {
        Title::Pending
    } else if is_error_title(title) {
        Title::ErrorPage
    } else {
        Title::Loaded
    }
}

/// What a title in lower case says about its page.
pub fn classify_title(title: &str) -> (r: Title)
    ensures
        r == title_kind(title@),
{
    if contains(title, "just a moment") || contains(title, "just a sec") || contains(
        title,
        "cloudflare",
    ) {
        return Title::Pending;
    }
    if contains(title, "521") || contains(title, "503") || contains(title, "502") || contains(
        title,
        "web server is down",
    ) || contains(title, "bad gateway") || contains(title, "service unavailable") {
        return Title::ErrorPage;
    }
    if title.is_empty() {
        Title::Pending
    } else {
        Title::Loaded
    }
}

/// What follows on a look at the page's title.
#[derive(Clone, Copy, PartialEq, Eq, Structural, Debug)]
pub enum LookAction {
    /// The title is looked at again after a pause of that many seconds.
    Sleep(u64),
    /// The site's page is there.
    Proceed,
    /// The site does not get past its challenge, or is down.
    GiveUp,
}

/// What follows on a look, where the looks before it are counted.
pub open spec fn look_step(looks: usize, title: Title) -> LookAction {
    match title {
        Title::Loaded => LookAction::Proceed,
        Title::ErrorPage => LookAction::GiveUp,
        Title::Pending => if looks + 1 < MAX_LOOKS {
            LookAction::Sleep(LOOK_SECONDS)
        } else {
            LookAction::GiveUp
        },
    }
}

/// What follows on a look, where the looks before it are counted.
pub fn after_look(looks: usize, title: Title) -> (r: LookAction)
    ensures
        r == look_step(looks, title),
{
    match title {
        Title::Loaded => LookAction::Proceed,
        Title::ErrorPage => LookAction::GiveUp,
        Title::Pending => if looks < MAX_LOOKS - 1 {
            LookAction::Sleep(LOOK_SECONDS)
        } else {
            LookAction::GiveUp
        },
    }
}

/// What follows on a look at the page's title, where the looks before it are
/// counted. A title that could not be read is not there yet.
pub fn look_at_title(looks: usize, title: Option<&str>) -> (r: LookAction)
    ensures
        r == look_step(
            looks,
            match title {
                Some(title) => title_kind(lowercase(title@)),
                None => Title::Pending,
            },
        ),
{
    let kind: Title = match title {
        Some(title) => classify_title(to_lowercase(title).as_str()),
        None => Title::Pending,
    };
    after_look(looks, kind)
}

/// What comes of looking, where the looks before are counted and the given
/// titles are seen; none while they do not settle it.
pub open spec fn look_run(looks: usize, titles: Seq<Title>) -> Option<bool>
    decreases titles.len(),
{
    if titles.len() == 0 {
        None
    } else {
        match look_step(looks, titles[0]) {
            LookAction::Proceed => Some(true),
            LookAction::GiveUp => Some(false),
            LookAction::Sleep(_) => look_run((looks + 1) as usize, titles.skip(1)),
        }
    }
}

/// Thirty looks settle whether the site's page is there; where all of them
/// find its title pending, it is not.
pub proof fn law_looking_ends(titles: Seq<Title>)
    requires
        titles.len() >= MAX_LOOKS,
    ensures
        look_run(0, titles) is Some,
        (forall|i: int| 0 <= i < MAX_LOOKS ==> (#[trigger] titles[i]) is Pending) ==> look_run(
            0,
            titles,
        ) == Some(false),
{
    lemma_looking_ends(0, titles);
}

proof fn lemma_looking_ends(looks: usize, titles: Seq<Title>)
    requires
        looks < MAX_LOOKS,
        titles.len() >= MAX_LOOKS - looks,
    ensures
        look_run(looks, titles) is Some,
        (forall|i: int| 0 <= i < MAX_LOOKS - looks ==> (#[trigger] titles[i]) is Pending)
            ==> look_run(looks, titles) == Some(false),
    decreases MAX_LOOKS - looks,
{
    if looks + 1 < MAX_LOOKS {
        let rest = titles.skip(1);
        lemma_looking_ends((looks + 1) as usize, rest);
        if forall|i: int| 0 <= i < MAX_LOOKS - looks ==> (#[trigger] titles[i]) is Pending {
            assert(titles[0] is Pending);
            assert forall|i: int| 0 <= i < MAX_LOOKS - looks - 1 implies (
            #[trigger] rest[i]) is Pending by {
                assert(rest[i] == titles[i + 1]);
            }
        }
    } else {
        assert((forall|i: int| 0 <= i < MAX_LOOKS - looks ==> (#[trigger] titles[i]) is Pending)
            ==> titles[0] is Pending);
    }
}

/// The site's page is taken to be there exactly if, within thirty looks, a
/// title shows it before any shows an error.
pub proof fn law_looking_finds_the_first_settled_title(titles: Seq<Title>, n: int)
    requires
        0 <= n < titles.len(),
        n < MAX_LOOKS,
        forall|i: int| 0 <= i < n ==> (#[trigger] titles[i]) is Pending,
        !(titles[n] is Pending),
    ensures
        look_run(0, titles) == Some(titles[n] is Loaded),
{
    lemma_looking_finds(0, titles, n);
}

proof fn lemma_looking_finds(looks: usize, titles: Seq<Title>, n: int)
    requires
        0 <= n < titles.len(),
        looks + n < MAX_LOOKS,
        forall|i: int| 0 <= i < n ==> (#[trigger] titles[i]) is Pending,
        !(titles[n] is Pending),
    ensures
        look_run(looks, titles) == Some(titles[n] is Loaded),
    decreases n,
{
    if n > 0 {
        assert(titles[0] is Pending);
        let rest = titles.skip(1);
        assert forall|i: int| 0 <= i < n - 1 implies (#[trigger] rest[i]) is Pending by {
            assert(rest[i] == titles[i + 1]);
        }
        lemma_looking_finds((looks + 1) as usize, rest, n - 1);
    }
}

/// The cookies of the headless browser, by name and value.
pub struct Cookie {
    pub name: String,
    pub value: String,
}

/// The cookies as they are sent.
pub open spec fn cookie_texts(cookies: Seq<Cookie>) -> Seq<Seq<char>> {
    cookies.map_values(|cookie: Cookie| cookie.name@ + "="@ + cookie.value@)
}

/// The value of the header that sends the given cookies.
fn join_pairs(cookies: &Vec<Cookie>) -> (r: String)
    ensures
        r@ == cookie_header(cookie_texts(cookies@)),
{
    let mut list: Vec<String> = Vec::new();
    let mut i: usize = 0;
    while i < cookies.len()
        invariant
            i <= cookies.len(),
            texts(list@) == cookie_texts(cookies@).take(i as int),
        decreases cookies.len() - i,
    {
        let text: String = cookies[i].name.clone().concat("=").concat(cookies[i].value.as_str());
        let ghost before = list@;
        list.push(text);
        assert(texts(list@) =~= texts(before).push(text@));
        assert(cookie_texts(cookies@).take(i + 1) =~= cookie_texts(cookies@).take(i as int).push(
            text@,
        ));
        i += 1;
    }
    assert(cookie_texts(cookies@).take(i as int) =~= cookie_texts(cookies@));
    join_cookies(&list)
}

/// The header holds all cookies of the headless browser with a semicolon and
/// a space between every two.
pub proof fn law_bypass_cookies_are_separated(cookies: Seq<Cookie>)
    ensures
        cookie_header(cookie_texts(cookies)) == separated(cookie_texts(cookies)),
{
    reveal_strlit("=");
    law_cookie_header_separates_the_cookies(cookie_texts(cookies));
}

/// The User-Agent that the browser reports, if it reports a string, else the
/// one that it was given.
pub open spec fn reported_user_agent(reported: Option<Json>) -> Seq<char> {
    match reported {
        Some(Json::Text(agent)) => agent,
        _ => USER_AGENT@,
    }
}

/// The contents of an optional JSON value.
pub open spec fn option_contents(value: Option<&Value>) -> Option<Json> {
    match value {
        Some(value) => Some(contents(*value)),
        None => None,
    }
}

/// What the client sends that carries the cookies of the headless browser.
pub open spec fn bypass_client_fields(cookies: Seq<Cookie>, reported: Option<Json>) -> Map<
    Seq<char>,
    Seq<u8>,
> {
    cookie_client_fields(cookie_texts(cookies), reported_user_agent(reported))
}

/// How the client is made that carries the cookies of the headless browser.
/// `reported` is what the browser says its User-Agent is. There is no such
/// client where the cookies or the User-Agent cannot stand in a header.
pub fn create_bypass_client(cookies: &Vec<Cookie>, reported: Option<&Value>) -> (r: Option<
    ClientPlan,
>)
    ensures
        ({
            let agent = reported_user_agent(option_contents(reported));
            let header = cookie_header(cookie_texts(cookies@));
            &&& r is Some <==> is_header_text(agent) && is_header_text(header)
            &&& r matches Some(plan) ==> {
                &&& fields(plan.headers) == browser_fields(agent, header)
                &&& plan.timeout_seconds == TIMEOUT_SECONDS
                &&& !plan.http1_only
            }
        }),
        r is Some <==> can_carry(
            reported_user_agent(option_contents(reported)),
            cookie_header(cookie_texts(cookies@)),
        ),
        r matches Some(plan) ==> fields(plan.headers) == bypass_client_fields(
            cookies@,
            option_contents(reported),
        ),
{
    let agent: String = match reported {
        Some(value) => match value.as_str() {
            Some(agent) => agent.to_owned(),
            None => USER_AGENT.to_owned(),
        },
        None => USER_AGENT.to_owned(),
    };
    let header: String = join_pairs(cookies);
    match browser_headers(agent.as_str(), header.as_str()) {
        Some(headers) => Some(
            ClientPlan { headers, timeout_seconds: TIMEOUT_SECONDS, http1_only: false },
        ),
        None => None,
    }
}

/// The arguments of the headless browser.
pub open spec fn browser_arguments() -> Seq<Seq<char>> {
    seq![
        "--disable-blink-features=AutomationControlled"@,
        "--user-agent="@ + USER_AGENT@,
        "--no-sandbox"@,
        "--disable-dev-shm-usage"@,
        "--disable-gpu"@,
        "--disable-extensions"@,
        "--disable-web-security"@,
        "--disable-features=IsolateOrigins,site-per-process"@,
        "--remote-allow-origins=*"@,
    ]
}

/// The arguments of the headless browser.
pub fn launch_arguments() -> (r: Vec<String>)
    ensures
        texts(r@) == browser_arguments(),
{
    let r: Vec<String> = vec![
        "--disable-blink-features=AutomationControlled".to_owned(),
        "--user-agent=".to_owned().concat(USER_AGENT),
        "--no-sandbox".to_owned(),
        "--disable-dev-shm-usage".to_owned(),
        "--disable-gpu".to_owned(),
        "--disable-extensions".to_owned(),
        "--disable-web-security".to_owned(),
        "--disable-features=IsolateOrigins,site-per-process".to_owned(),
        "--remote-allow-origins=*".to_owned(),
    ];
    assert(texts(r@) =~= browser_arguments());
    r
}

/// The directory of the user's browser profile.
pub open spec fn profile_path(home: Seq<char>) -> Seq<char> {
    below(home, ".config/chromium"@)
}

/// The arguments of the command that copies a profile.
pub open spec fn copying(profile: Seq<char>) -> Seq<Seq<char>> {
    seq!["-r"@, profile + "/."@, PROFILE_COPY@]
}

/// The names of the files by which a running browser locks its profile.
pub open spec fn locks() -> Seq<Seq<char>> {
    seq!["SingletonLock"@, "SingletonCookie"@, "SingletonSocket"@]
}

/// The directory of the user's browser profile.
pub fn profile_dir(home: &str) -> (r: String)
    ensures
        r@ == below(home@, ".config/chromium"@),
        r@ == profile_path(home@),
{
    join_path(home, ".config/chromium")
}

/// What happens while the user's profile is copied.
#[derive(Clone, Copy, PartialEq, Eq, Structural, Debug)]
pub enum ProfileEvent {
    /// The user has a profile, or has none.
    Searched { present: bool },
    /// What an earlier run has left of a copy is gone.
    Cleared,
    /// The command that copies the profile has ended; `success` tells whether
    /// it could be run and ended well.
    Copied { success: bool },
    /// The lock files are gone from the copy.
    Unlocked,
}

/// What is done next to have a copy of the user's profile.
#[derive(Clone, Copy, PartialEq, Eq, Structural, Debug)]
pub enum ProfileAction {
    /// What is left of an earlier copy is removed.
    Clear,
    /// The profile is copied.
    Copy,
    /// The lock files are deleted from the copy.
    DeleteLocks,
    /// The copy can be used.
    Ready,
    /// There will be no copy.
    GiveUp,
}

/// What is done next to have a copy of the user's profile. Without a profile,
/// or where it cannot be copied, there is none.
pub open spec fn profile_step(event: ProfileEvent) -> ProfileAction {
    match event {
        ProfileEvent::Searched { present } => if present {
            ProfileAction::Clear
        } else {
            ProfileAction::GiveUp
        },
        ProfileEvent::Cleared => ProfileAction::Copy,
        ProfileEvent::Copied { success } => if success {
            ProfileAction::DeleteLocks
        } else {
            ProfileAction::GiveUp
        },
        ProfileEvent::Unlocked => ProfileAction::Ready,
    }
}

/// Takes an event while the user's profile is copied, and tells what to do
/// next.
pub fn copy_user_profile(event: ProfileEvent) -> (r: ProfileAction)
    ensures
        r == profile_step(event),
{
    match event {
        ProfileEvent::Searched { present } => if present {
            ProfileAction::Clear
        } else {
            ProfileAction::GiveUp
        },
        ProfileEvent::Cleared => ProfileAction::Copy,
        ProfileEvent::Copied { success } => if success {
            ProfileAction::DeleteLocks
        } else {
            ProfileAction::GiveUp
        },
        ProfileEvent::Unlocked => ProfileAction::Ready,
    }
}

/// What is done from an action on, up to the end, where copying the profile
/// ends as given.
pub open spec fn profile_run(action: ProfileAction, success: bool) -> Seq<ProfileAction>
    decreases
        match action {
            ProfileAction::Clear => 3nat,
            ProfileAction::Copy => 2nat,
            ProfileAction::DeleteLocks => 1nat,
            _ => 0nat,
        },
{
    match action {
        ProfileAction::Clear => seq![action] + profile_run(
            profile_step(ProfileEvent::Cleared),
            success,
        ),
        ProfileAction::Copy => seq![action] + profile_run(
            profile_step(ProfileEvent::Copied { success }),
            success,
        ),
        ProfileAction::DeleteLocks => seq![action] + profile_run(
            profile_step(ProfileEvent::Unlocked),
            success,
        ),
        _ => seq![action],
    }
}

/// A copy is used exactly if there is a profile and it could be copied. It is
/// then a fresh one, without lock files.
pub proof fn law_profile_copy_is_fresh_and_unlocked(present: bool, success: bool)
    ensures
        profile_run(profile_step(ProfileEvent::Searched { present }), success) == if !present {
            seq![ProfileAction::GiveUp]
        } else if !success {
            seq![ProfileAction::Clear, ProfileAction::Copy, ProfileAction::GiveUp]
        } else {
            seq![
                ProfileAction::Clear,
                ProfileAction::Copy,
                ProfileAction::DeleteLocks,
                ProfileAction::Ready,
            ]
        },
{
    reveal_with_fuel(profile_run, 4);
}

/// The files by which a running browser locks its profile.
pub fn lock_files() -> (r: Vec<String>)
    ensures
        texts(r@) == seq!["SingletonLock"@, "SingletonCookie"@, "SingletonSocket"@],
        texts(r@) == locks(),
{
    let r: Vec<String> = vec![
        "SingletonLock".to_owned(),
        "SingletonCookie".to_owned(),
        "SingletonSocket".to_owned(),
    ];
    assert(texts(r@) =~= seq!["SingletonLock"@, "SingletonCookie"@, "SingletonSocket"@]);
    r
}

/// The arguments of the command that copies the user's profile.
pub fn copy_arguments(profile: &str) -> (r: Vec<String>)
    ensures
        texts(r@) == seq!["-r"@, profile@ + "/."@, PROFILE_COPY@],
        texts(r@) == copying(profile@),
{
    let r: Vec<String> = vec![
        "-r".to_owned(),
        profile.to_owned().concat("/."),
        PROFILE_COPY.to_owned(),
    ];
    assert(texts(r@) =~= seq!["-r"@, profile@ + "/."@, PROFILE_COPY@]);
    r
}

/// How far the headless browser is on its way past the challenge.
#[derive(Clone, Copy, PartialEq, Eq, Structural, Debug)]
pub enum BypassState {
    /// The options of the launch are put together.
    Configuring,
    /// The browser is launched.
    Launching,
    /// A tab is opened.
    Opening,
    /// The tab is sent to the site.
    Navigating,
    /// The page's body is awaited.
    AwaitingBody,
    /// The page's title is looked at; the looks before are counted.
    Looking(usize),
    /// The browser's cookies and User-Agent are read.
    Harvesting,
    /// The copied profile is removed; whether there are cookies is kept.
    Removing(bool),
    Done,
}

/// What happens on the headless browser's way past the challenge.
pub enum BypassEvent {
    /// The options were put together, or could not be.
    Configured(bool),
    /// The browser was launched, or could not be.
    Launched(bool),
    /// The tab was opened, or could not be.
    Opened(bool),
    /// The tab was sent to the site, or could not be.
    Navigated(bool),
    /// The page's body is there, or did not come.
    BodyShown(bool),
    /// The pause is over.
    Slept,
    /// The page's title, if it could be read.
    Titled(Option<String>),
    /// The cookies were read, or could not be.
    Harvested(bool),
    /// The copied profile is gone.
    Removed,
}

/// What is done next on the headless browser's way past the challenge.
#[derive(Clone, Copy, PartialEq, Eq, Structural, Debug)]
pub enum BypassAction {
    Configure,
    Launch,
    Open,
    Navigate,
    AwaitBody,
    Sleep(u64),
    ReadTitle,
    Harvest,
    /// The browser is ended and the copied profile removed.
    RemoveProfile,
    /// The client is made from what was harvested.
    Build,
    GiveUp,
}

/// What a title says about its page, if it could be read.
pub open spec fn seen_title(title: Option<String>) -> Title {
    match title {
        Some(title) => title_kind(lowercase(title@)),
        None => Title::Pending,
    }
}

/// The next state and action on the headless browser's way past the challenge.
/// Once its launch was tried, the copied profile is removed before the end,
/// whatever has come of it. An event that the state does not wait for counts
/// as a failure.
pub open spec fn bypass_step(state: BypassState, event: BypassEvent) -> (
    BypassState,
    BypassAction,
) {
    match (state, event) {
        (BypassState::Configuring, BypassEvent::Configured(true)) => (
            BypassState::Launching,
            BypassAction::Launch,
        ),
        (BypassState::Configuring, _) => (BypassState::Done, BypassAction::GiveUp),
        (BypassState::Launching, BypassEvent::Launched(true)) => (
            BypassState::Opening,
            BypassAction::Open,
        ),
        (BypassState::Opening, BypassEvent::Opened(true)) => (
            BypassState::Navigating,
            BypassAction::Navigate,
        ),
        (BypassState::Navigating, BypassEvent::Navigated(true)) => (
            BypassState::AwaitingBody,
            BypassAction::AwaitBody,
        ),
        (BypassState::AwaitingBody, BypassEvent::BodyShown(true)) => (
            BypassState::Looking(0),
            BypassAction::Sleep(LOOK_SECONDS),
        ),
        (BypassState::Looking(looks), BypassEvent::Slept) => (
            BypassState::Looking(looks),
            BypassAction::ReadTitle,
        ),
        (BypassState::Looking(looks), BypassEvent::Titled(title)) => match look_step(
            looks,
            seen_title(title),
        ) {
            LookAction::Sleep(seconds) => (
                BypassState::Looking((looks + 1) as usize),
                BypassAction::Sleep(seconds),
            ),
            LookAction::Proceed => (BypassState::Harvesting, BypassAction::Harvest),
            LookAction::GiveUp => (BypassState::Removing(false), BypassAction::RemoveProfile),
        },
        (BypassState::Harvesting, BypassEvent::Harvested(success)) => (
            BypassState::Removing(success),
            BypassAction::RemoveProfile,
        ),
        (BypassState::Removing(true), _) => (BypassState::Done, BypassAction::Build),
        (BypassState::Removing(false), _) => (BypassState::Done, BypassAction::GiveUp),
        (BypassState::Done, _) => (BypassState::Done, BypassAction::GiveUp),
        _ => (BypassState::Removing(false), BypassAction::RemoveProfile),
    }
}

/// Takes an event on the headless browser's way past the challenge, and tells
/// what to do next.
pub fn pass_challenge(state: BypassState, event: BypassEvent) -> (r: (BypassState, BypassAction))
    ensures
        r == bypass_step(state, event),
{
    match (state, event) {
        (BypassState::Configuring, BypassEvent::Configured(true)) => (
            BypassState::Launching,
            BypassAction::Launch,
        ),
        (BypassState::Configuring, _) => (BypassState::Done, BypassAction::GiveUp),
        (BypassState::Launching, BypassEvent::Launched(true)) => (
            BypassState::Opening,
            BypassAction::Open,
        ),
        (BypassState::Opening, BypassEvent::Opened(true)) => (
            BypassState::Navigating,
            BypassAction::Navigate,
        ),
        (BypassState::Navigating, BypassEvent::Navigated(true)) => (
            BypassState::AwaitingBody,
            BypassAction::AwaitBody,
        ),
        (BypassState::AwaitingBody, BypassEvent::BodyShown(true)) => (
            BypassState::Looking(0),
            BypassAction::Sleep(LOOK_SECONDS),
        ),
        (BypassState::Looking(looks), BypassEvent::Slept) => (
            BypassState::Looking(looks),
            BypassAction::ReadTitle,
        ),
        (BypassState::Looking(looks), BypassEvent::Titled(title)) => {
            let action: LookAction = match &title {
                Some(title) => look_at_title(looks, Some(title.as_str())),
                None => look_at_title(looks, None),
            };
            match action {
                LookAction::Sleep(seconds) => (
                    BypassState::Looking(looks + 1),
                    BypassAction::Sleep(seconds),
                ),
                LookAction::Proceed => (BypassState::Harvesting, BypassAction::Harvest),
                LookAction::GiveUp => (BypassState::Removing(false), BypassAction::RemoveProfile),
            }
        },
        (BypassState::Harvesting, BypassEvent::Harvested(success)) => (
            BypassState::Removing(success),
            BypassAction::RemoveProfile,
        ),
        (BypassState::Removing(true), _) => (BypassState::Done, BypassAction::Build),
        (BypassState::Removing(false), _) => (BypassState::Done, BypassAction::GiveUp),
        (BypassState::Done, _) => (BypassState::Done, BypassAction::GiveUp),
        _ => (BypassState::Removing(false), BypassAction::RemoveProfile),
    }
}

/// Whether an action ends the way past the challenge.
pub open spec fn is_bypass_end(action: BypassAction) -> bool {
    action is Build || action is GiveUp
}

/// All that is done on the way past the challenge, from the given state on,
/// where the given events happen. Nothing is done after the end.
pub open spec fn bypass_run(state: BypassState, events: Seq<BypassEvent>) -> Seq<BypassAction>
    decreases events.len(),
{
    if events.len() == 0 {
        Seq::empty()
    } else {
        let (next, action) = bypass_step(state, events[0]);
        if is_bypass_end(action) {
            seq![action]
        } else {
            seq![action] + bypass_run(next, events.skip(1))
        }
    }
}

/// How often an action stands among the given ones.
pub open spec fn times(actions: Seq<BypassAction>, action: BypassAction) -> nat
    decreases actions.len(),
{
    if actions.len() == 0 {
        0
    } else {
        (if actions[0] == action {
            1nat
        } else {
            0nat
        }) + times(actions.skip(1), action)
    }
}

/// Whether the way past the challenge has come to its end.
pub open spec fn is_bypass_over(actions: Seq<BypassAction>) -> bool {
    actions.len() > 0 && is_bypass_end(actions.last())
}

/// Whether a launch was tried and the copied profile is still there.
pub open spec fn holds_profile(state: BypassState) -> bool {
    !(state is Configuring || state is Removing || state is Done)
}

/// What the way past the challenge counts from the given state on.
proof fn lemma_bypass_counts(state: BypassState, events: Seq<BypassEvent>)
    ensures
        ({
            let run = bypass_run(state, events);
            let removals = times(run, BypassAction::RemoveProfile);
            let launches = times(run, BypassAction::Launch);
            let held = if holds_profile(state) {
                1nat
            } else {
                0nat
            };
            &&& removals <= held + launches <= 1
            &&& is_bypass_over(run) ==> removals == held + launches
            &&& is_bypass_over(run) && removals == 1 ==> run.len() >= 2 && run[run.len()
                - 2] is RemoveProfile
            &&& state is Removing || state is Done ==> removals == 0
            &&& is_bypass_over(run) && run.last() is Build ==> removals == 1 || state
                == BypassState::Removing(true)
        }),
    decreases events.len(),
{
    if events.len() > 0 {
        let (next, action) = bypass_step(state, events[0]);
        let run = bypass_run(state, events);
        assert(run[0] == action);
        if is_bypass_end(action) {
            assert(run.skip(1) =~= Seq::<BypassAction>::empty());
            assert(times(run.skip(1), BypassAction::RemoveProfile) == 0);
            assert(times(run.skip(1), BypassAction::Launch) == 0);
        } else {
            let rest = bypass_run(next, events.skip(1));
            lemma_bypass_counts(next, events.skip(1));
            assert(run.skip(1) =~= rest);
            if is_bypass_over(run) {
                assert(rest.len() > 0);
                assert(rest.last() == run.last());
                if rest.len() >= 2 {
                    assert(run[run.len() - 2] == rest[rest.len() - 2]);
                } else {
                    assert(run[run.len() - 2] == action);
                    assert(rest.skip(1) =~= Seq::<BypassAction>::empty());
                    assert(times(rest.skip(1), BypassAction::RemoveProfile) == 0);
                }
            }
        }
    }
}

/// Whatever happens, a way past the challenge that has come to its end has
/// removed the copied profile exactly once if a launch was tried, as the last
/// thing before the end, and not at all otherwise. A client is made only where
/// the profile was removed.
pub proof fn law_copied_profile_is_removed_once(events: Seq<BypassEvent>)
    ensures
        ({
            let run = bypass_run(BypassState::Configuring, events);
            let removals = times(run, BypassAction::RemoveProfile);
            let launches = times(run, BypassAction::Launch);
            &&& removals <= launches <= 1
            &&& is_bypass_over(run) ==> removals == launches
            &&& is_bypass_over(run) && launches == 1 ==> run.len() >= 2 && run[run.len()
                - 2] is RemoveProfile
            &&& is_bypass_over(run) && run.last() is Build ==> removals == 1
        }),
{
    lemma_bypass_counts(BypassState::Configuring, events);
}

} // verus!
