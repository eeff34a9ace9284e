//! Pages fetched through the user's own Chromium, by its debugging port.
use crate::json::{contents, document, get_text, parse, text_member};
use crate::requests::{detect_site, is_site};
use crate::startup::{detect_artist_page, is_artist_page};
use crate::text::{chars_of, contains, mentions, texts, trim, trimmed};
use serde_json::Value;
use vstd::prelude::*;

verus! {

/// The address where Chromium tells how to reach it.
pub const ENDPOINT_ADDRESS: &'static str = "http://127.0.0.1:9222/json/version";

/// How often a Chromium that was just launched is asked how to reach it.
pub const MAX_QUERIES: usize = 10;

/// How often a page's contents are looked at.
pub const MAX_ROUNDS: usize = 30;

/// The pause before each look, and before a query is repeated, in seconds.
pub const ROUND_SECONDS: u64 = 1;

/// From which look on a challenge is not waited for any longer.
pub const CHALLENGE_ROUNDS: usize = 20;

/// Before which look a generic page is not taken to be complete.
pub const GENERIC_ROUNDS: usize = 5;

/// Whether a character is a decimal digit.
pub open spec fn is_digit(c: char) -> bool {
    '0' <= c <= '9'
}

/// Whether all characters are decimal digits.
pub open spec fn all_digits(text: Seq<char>) -> bool {
    forall|i: int| 0 <= i < text.len() ==> is_digit(#[trigger] text[i])
}

/// The number that decimal digits stand for.
pub open spec fn number(digits: Seq<char>) -> nat
    decreases digits.len(),
{
    if digits.len() == 0 {
        0
    } else {
        (number(digits.drop_last()) * 10 + (digits.last() as int - '0' as int)) as nat
    }
}

/// Whether a text is a positive number that fits in thirty-two bits with a
/// sign: digits, with or without a plus sign before them.
pub open spec fn is_positive_count(text: Seq<char>) -> bool {
    let digits = if text.len() > 0 && text[0] == '+' {
        text.skip(1)
    } else {
        text
    };
    digits.len() > 0 && all_digits(digits) && 0 < number(digits) <= i32::MAX
}

/// Digits that follow make a number no smaller.
proof fn lemma_number_grows(digits: Seq<char>, n: int)
    requires
        0 <= n <= digits.len(),
        all_digits(digits),
    ensures
        number(digits.take(n)) <= number(digits),
    decreases digits.len() - n,
{
    if n == digits.len() {
        assert(digits.take(n) =~= digits);
    } else {
        lemma_number_grows(digits, n + 1);
        assert(digits.take(n + 1).drop_last() =~= digits.take(n));
        assert(is_digit(digits[n]));
    }
}

/// Whether what was printed is a count of running processes.
pub open spec fn tells_processes(stdout: Option<Seq<char>>) -> bool {
    match stdout {
        Some(stdout) => is_positive_count(trim(stdout)),
        None => false,
    }
}

/// Whether Chromium is running, from the count of its processes as it was
/// printed. Where nothing usable was printed, it is not.
pub fn is_chromium_running(stdout: Option<&str>) -> (r: bool)
    ensures
        r == (stdout is Some && is_positive_count(trim(stdout->0@))),
        r == tells_processes(crate::clients::option_text(stdout)),
{
    let text: Vec<char> = match stdout {
        Some(stdout) => chars_of(trimmed(stdout).as_str()),
        None => {
            return false;
        },
    };
    let start: usize = if text.len() > 0 && text[0] == '+' {
        1
    } else {
        0
    };
    let ghost digits = text@.skip(start as int);
    assert(start == 0 ==> digits =~= text@);
    if start == text.len() {
        return false;
    }
    let mut count: u64 = 0;
    let mut i: usize = start;
    assert(digits.take(0) =~= Seq::<char>::empty());
    while i < text.len()
        invariant
            stdout is Some,
            text@ == trim(stdout->0@),
            start <= i <= text.len(),
            start < text.len(),
            start == if text@.len() > 0 && text@[0] == '+' {
                1int
            } else {
                0int
            },
            digits == text@.skip(start as int),
            start == 0 ==> digits == text@,
            forall|j: int| 0 <= j < i - start ==> is_digit(#[trigger] digits[j]),
            count == number(digits.take(i - start)),
            count <= i32::MAX,
        decreases text.len() - i,
    {
        let c: char = text[i];
        assert(digits[i - start] == c);
        if c < '0' || c > '9' {
            assert(!is_digit(digits[i - start]));
            return false;
        }
        assert(digits.take(i + 1 - start).drop_last() =~= digits.take(i - start));
        count = count * 10 + (c as u64 - '0' as u64);
        if count > 2147483647 {
            proof {
                if all_digits(digits) {
                    lemma_number_grows(digits, i + 1 - start);
                }
            }
            return false;
        }
        i += 1;
    }
    assert(digits.take(i - start) =~= digits);
    count > 0
}

/// The address of Chromium's debugging socket in what it tells about itself.
pub fn read_ws_url(json: &Value) -> (r: Option<String>)
    ensures
        match r {
            Some(url) => text_member(contents(*json), "webSocketDebuggerUrl"@) == Some(url@),
            None => text_member(contents(*json), "webSocketDebuggerUrl"@) is None,
        },
{
    get_text(json, "webSocketDebuggerUrl")
}

/// The address of Chromium's debugging socket in the body of its reply.
pub open spec fn socket_address(body: Option<Seq<char>>) -> Option<Seq<char>> {
    match body {
        Some(body) => match document(body) {
            Some(json) => text_member(json, "webSocketDebuggerUrl"@),
            None => None,
        },
        None => None,
    }
}

/// Chromium's arguments to open its debugging port on the profile of the user
/// with the given home directory.
pub open spec fn debugging_arguments(home: Seq<char>) -> Seq<Seq<char>> {
    seq![
        "--remote-debugging-port=9222"@,
        "--user-data-dir="@ + home + "/.config/chromium"@,
        "--disable-blink-features=AutomationControlled"@,
        "--disable-web-security"@,
        "--disable-features=IsolateOrigins,site-per-process"@,
        "--remote-allow-origins=*"@,
    ]
}

/// The address of Chromium's debugging socket, from the body of its reply, if
/// it came and names one.
pub fn get_browser_ws_url(body: Option<&str>) -> (r: Option<String>)
    ensures
        match r {
            Some(url) => body is Some && document(body->0@) is Some && text_member(
                document(body->0@)->0,
                "webSocketDebuggerUrl"@,
            ) == Some(url@),
            None => body is None || document(body->0@) is None || text_member(
                document(body->0@)->0,
                "webSocketDebuggerUrl"@,
            ) is None,
        },
        socket_address(crate::clients::option_text(body)) == match r {
            Some(url) => Some(url@),
            None => None,
        },
{
    match body {
        Some(body) => match parse(body) {
            Ok(json) => read_ws_url(&json),
            Err(_) => None,
        },
        None => None,
    }
}

/// Chromium's arguments to open its debugging port on the user's profile.
pub fn launch_chromium_with_cdp(home: &str) -> (r: Vec<String>)
    ensures
        texts(r@) == seq![
            "--remote-debugging-port=9222"@,
            "--user-data-dir="@ + home@ + "/.config/chromium"@,
            "--disable-blink-features=AutomationControlled"@,
            "--disable-web-security"@,
            "--disable-features=IsolateOrigins,site-per-process"@,
            "--remote-allow-origins=*"@,
        ],
        texts(r@) == debugging_arguments(home@),
{
    let r: Vec<String> = vec![
        "--remote-debugging-port=9222".to_owned(),
        "--user-data-dir=".to_owned().concat(home).concat("/.config/chromium"),
        "--disable-blink-features=AutomationControlled".to_owned(),
        "--disable-web-security".to_owned(),
        "--disable-features=IsolateOrigins,site-per-process".to_owned(),
        "--remote-allow-origins=*".to_owned(),
    ];
    assert(texts(r@) =~= seq![
        "--remote-debugging-port=9222"@,
        "--user-data-dir="@ + home@ + "/.config/chromium"@,
        "--disable-blink-features=AutomationControlled"@,
        "--disable-web-security"@,
        "--disable-features=IsolateOrigins,site-per-process"@,
        "--remote-allow-origins=*"@,
    ]);
    r
}

/// How far the way to Chromium's debugging socket is.
#[derive(Clone, Copy, PartialEq, Eq, Structural, Debug)]
pub enum ConnectState {
    /// Chromium is asked how to reach it.
    Asking,
    /// It is found out whether Chromium runs without its debugging port.
    Checking,
    /// Chromium is launched.
    Launching,
    /// The launched Chromium is asked how to reach it; the queries before are
    /// counted.
    Waiting(usize),
}

/// What happens on the way to Chromium's debugging socket.
pub enum ConnectEvent {
    /// Chromium told how to reach it, or did not.
    Queried(Option<String>),
    /// Chromium runs, or does not.
    Checked(bool),
    /// Chromium was launched, or could not be.
    Launched(bool),
    /// The pause is over.
    Slept,
}

/// What is done next to reach Chromium.
pub enum ConnectAction {
    Query,
    Check,
    Launch,
    Sleep(u64),
    /// The socket at that address is connected to.
    Connect(String),
    /// The launched Chromium is ended, and the matter given up.
    Kill,
    GiveUp,
}

/// The next state and action on the way to Chromium's debugging socket. A
/// Chromium that runs without its port is left alone; one that does not run
/// is launched and asked ten times. An event that the state does not wait for
/// ends the matter.
pub open spec fn connect_step(state: ConnectState, event: ConnectEvent) -> (
    ConnectState,
    ConnectAction,
) {
    match (state, event) {
        (_, ConnectEvent::Queried(Some(url))) if state is Asking || state is Waiting => (
            state,
            ConnectAction::Connect(url),
        ),
        (ConnectState::Asking, ConnectEvent::Queried(None)) => (
            ConnectState::Checking,
            ConnectAction::Check,
        ),
        (ConnectState::Checking, ConnectEvent::Checked(false)) => (
            ConnectState::Launching,
            ConnectAction::Launch,
        ),
        (ConnectState::Launching, ConnectEvent::Launched(true)) => (
            ConnectState::Waiting(0),
            ConnectAction::Query,
        ),
        (ConnectState::Waiting(queries), ConnectEvent::Queried(None)) => if queries + 1
            < MAX_QUERIES {
            (
                ConnectState::Waiting((queries + 1) as usize),
                ConnectAction::Sleep(ROUND_SECONDS),
            )
        } else {
            (state, ConnectAction::Kill)
        },
        (ConnectState::Waiting(_), ConnectEvent::Slept) => (state, ConnectAction::Query),
        _ => (state, ConnectAction::GiveUp),
    }
}

/// Takes an event on the way to Chromium's debugging socket, and tells what to
/// do next.
pub fn connect(state: ConnectState, event: ConnectEvent) -> (r: (ConnectState, ConnectAction))
    ensures
        r == connect_step(state, event),
{
    match (state, event) {
        (ConnectState::Asking, ConnectEvent::Queried(Some(url))) => (
            state,
            ConnectAction::Connect(url),
        ),
        (ConnectState::Waiting(_), ConnectEvent::Queried(Some(url))) => (
            state,
            ConnectAction::Connect(url),
        ),
        (ConnectState::Asking, ConnectEvent::Queried(None)) => (
            ConnectState::Checking,
            ConnectAction::Check,
        ),
        (ConnectState::Checking, ConnectEvent::Checked(false)) => (
            ConnectState::Launching,
            ConnectAction::Launch,
        ),
        (ConnectState::Launching, ConnectEvent::Launched(true)) => (
            ConnectState::Waiting(0),
            ConnectAction::Query,
        ),
        (ConnectState::Waiting(queries), ConnectEvent::Queried(None)) => {
            if queries < MAX_QUERIES - 1 {
                (ConnectState::Waiting(queries + 1), ConnectAction::Sleep(ROUND_SECONDS))
            } else {
                (state, ConnectAction::Kill)
            }
        },
        (ConnectState::Waiting(_), ConnectEvent::Slept) => (state, ConnectAction::Query),
        _ => (state, ConnectAction::GiveUp),
    }
}

/// The outcome of asking a launched Chromium, from the given state on, where
/// the queries give the given answers; none while they do not settle it.
pub open spec fn waiting_run(queries: usize, answers: Seq<Option<String>>) -> Option<Option<String>>
    decreases answers.len(),
{
    if answers.len() == 0 {
        None
    } else {
        match connect_step(
            ConnectState::Waiting(queries),
            ConnectEvent::Queried(answers[0]),
        ) {
            (_, ConnectAction::Connect(url)) => Some(Some(url)),
            (ConnectState::Waiting(next), ConnectAction::Sleep(_)) => waiting_run(
                next,
                answers.skip(1),
            ),
            _ => Some(None),
        }
    }
}

/// A launched Chromium is connected to at the first address that it tells
/// within ten queries.
pub proof fn law_first_address_is_connected_to(answers: Seq<Option<String>>, n: int)
    requires
        0 <= n < answers.len(),
        n < MAX_QUERIES,
        forall|i: int| 0 <= i < n ==> (#[trigger] answers[i]) is None,
        answers[n] is Some,
    ensures
        waiting_run(0, answers) == Some(answers[n]),
{
    lemma_first_address(0, answers, n);
}

proof fn lemma_first_address(queries: usize, answers: Seq<Option<String>>, n: int)
    requires
        0 <= n < answers.len(),
        queries + n < MAX_QUERIES,
        forall|i: int| 0 <= i < n ==> (#[trigger] answers[i]) is None,
        answers[n] is Some,
    ensures
        waiting_run(queries, answers) == Some(answers[n]),
    decreases n,
{
    if n > 0 {
        assert(answers[0] is None);
        let rest = answers.skip(1);
        assert forall|i: int| 0 <= i < n - 1 implies (#[trigger] rest[i]) is None by {
            assert(rest[i] == answers[i + 1]);
        }
        lemma_first_address((queries + 1) as usize, rest, n - 1);
    }
}

/// A launched Chromium that tells no address in ten queries is given up.
pub proof fn law_silent_chromium_is_given_up(answers: Seq<Option<String>>)
    requires
        answers.len() >= MAX_QUERIES,
        forall|i: int| 0 <= i < MAX_QUERIES ==> (#[trigger] answers[i]) is None,
    ensures
        waiting_run(0, answers) == Some(None::<String>),
{
    lemma_silent_chromium(0, answers);
}

proof fn lemma_silent_chromium(queries: usize, answers: Seq<Option<String>>)
    requires
        queries < MAX_QUERIES,
        answers.len() >= MAX_QUERIES - queries,
        forall|i: int| 0 <= i < MAX_QUERIES - queries ==> (#[trigger] answers[i]) is None,
    ensures
        waiting_run(queries, answers) == Some(None::<String>),
    decreases MAX_QUERIES - queries,
{
    assert(answers[0] is None);
    if queries + 1 < MAX_QUERIES {
        let rest = answers.skip(1);
        assert forall|i: int| 0 <= i < MAX_QUERIES - queries - 1 implies (
        #[trigger] rest[i]) is None by {
            assert(rest[i] == answers[i + 1]);
        }
        lemma_silent_chromium((queries + 1) as usize, rest);
    }
}

/// Whether an action ends the way to Chromium's debugging socket.
pub open spec fn is_end(action: ConnectAction) -> bool {
    action is Connect || action is Kill || action is GiveUp
}

/// All that is done on the way to Chromium's debugging socket, from the given
/// state on, where the given events happen. Nothing is done after the end.
pub open spec fn connect_run(state: ConnectState, events: Seq<ConnectEvent>) -> Seq<ConnectAction>
    decreases events.len(),
{
    if events.len() == 0 {
        Seq::empty()
    } else {
        let (next, action) = connect_step(state, events[0]);
        if is_end(action) {
            seq![action]
        } else {
            seq![action] + connect_run(next, events.skip(1))
        }
    }
}

/// How often Chromium is launched among the given actions.
pub open spec fn launches(actions: Seq<ConnectAction>) -> nat
    decreases actions.len(),
{
    if actions.len() == 0 {
        0
    } else {
        (if actions[0] is Launch {
            1nat
        } else {
            0nat
        }) + launches(actions.skip(1))
    }
}

/// Once Chromium is being launched or asked, it is not launched again.
proof fn lemma_no_launch(state: ConnectState, events: Seq<ConnectEvent>)
    requires
        state is Launching || state is Waiting,
    ensures
        launches(connect_run(state, events)) == 0,
    decreases events.len(),
{
    if events.len() > 0 {
        let (next, action) = connect_step(state, events[0]);
        if !is_end(action) {
            lemma_no_launch(next, events.skip(1));
        }
        lemma_launches_after(state, events);
    }
}

/// The launches of a run are those of its first step and of the rest.
proof fn lemma_launches_after(state: ConnectState, events: Seq<ConnectEvent>)
    requires
        events.len() > 0,
    ensures
        ({
            let (next, action) = connect_step(state, events[0]);
            let first = if action is Launch {
                1nat
            } else {
                0nat
            };
            let rest = if is_end(action) {
                0nat
            } else {
                launches(connect_run(next, events.skip(1)))
            };
            launches(connect_run(state, events)) == first + rest
        }),
{
    let (next, action) = connect_step(state, events[0]);
    let run = connect_run(state, events);
    assert(run[0] == action);
    if is_end(action) {
        assert(run.skip(1) =~= Seq::<ConnectAction>::empty());
        assert(launches(run.skip(1)) == 0);
    } else {
        assert(run.skip(1) =~= connect_run(next, events.skip(1)));
    }
}

/// Whatever happens, Chromium is launched once at most: exactly once where it
/// tells no address and does not run, and never otherwise. Where it tells its
/// address it is connected to at once, and where it runs without its port the
/// matter is given up.
pub proof fn law_chromium_is_launched_once_where_it_does_not_run(events: Seq<ConnectEvent>)
    ensures
        launches(connect_run(ConnectState::Asking, events)) == if events.len() >= 2 && events[0]
            == ConnectEvent::Queried(None) && events[1] == ConnectEvent::Checked(false) {
            1nat
        } else {
            0nat
        },
        events.len() >= 1 ==> (events[0] matches ConnectEvent::Queried(Some(url)) ==> connect_run(
            ConnectState::Asking,
            events,
        ) == seq![ConnectAction::Connect(url)]),
        events.len() >= 2 && events[0] == ConnectEvent::Queried(None) && events[1]
            == ConnectEvent::Checked(true) ==> connect_run(ConnectState::Asking, events) == seq![
            ConnectAction::Check,
            ConnectAction::GiveUp,
        ],
{
    if events.len() > 0 {
        let (second, action) = connect_step(ConnectState::Asking, events[0]);
        lemma_launches_after(ConnectState::Asking, events);
        if !is_end(action) {
            let rest = events.skip(1);
            if rest.len() > 0 {
                assert(rest[0] == events[1]);
                lemma_launches_after(second, rest);
                let (third, next) = connect_step(second, rest[0]);
                if !is_end(next) {
                    lemma_no_launch(third, rest.skip(1));
                }
            }
        }
    }
}

/// Whether a page in the browser still shows the challenge.
pub open spec fn shows_challenge(html: Seq<char>) -> bool {
    ||| mentions(html, "challenge-platform"@)
    ||| mentions(html, "cf-chl-widget-"@)
    ||| mentions(html, "just a sec"@)
}

/// Whether an address is that of an album's page.
pub open spec fn is_album_page(url: Seq<char>) -> bool {
    mentions(url, "/album/"@) || mentions(url, "play.qobuz.com/album/"@)
}

/// Whether an album's page shows its album.
pub open spec fn shows_album(html: Seq<char>) -> bool {
    mentions(html, "dl-album"@) || mentions(html, "download-form"@)
}

/// What follows on a look at a page.
#[derive(Clone, Copy, PartialEq, Eq, Structural, Debug)]
pub enum PageAction {
    /// The page is looked at again after a pause of that many seconds.
    Sleep(u64),
    /// The page is there, and is read once more after a pause of that many
    /// seconds.
    Settle(u64),
    /// The page is read one last time, and taken as it is.
    ReadLast,
    /// The challenge does not go away.
    GiveUp,
}

/// The pause after which a page is read once more, in seconds, if it is
/// complete at the given look, counted from zero: an album's page once it
/// shows the album, an artist's page once it links to albums, any page once it
/// is the site's own and some looks have passed.
pub open spec fn settling_time(url: Seq<char>, round: usize, html: Seq<char>) -> Option<u64> {
    if is_album_page(url) && shows_album(html) {
        Some(3)
    } else if is_artist_page(url) && mentions(html, "/album/"@) {
        Some(5)
    } else if is_site(html) && round >= GENERIC_ROUNDS {
        Some(2)
    } else {
        None
    }
}

/// What follows on a look at a page that tells nothing new.
pub open spec fn look_again(round: usize) -> PageAction {
    if round + 1 < MAX_ROUNDS {
        PageAction::Sleep(ROUND_SECONDS)
    } else {
        PageAction::ReadLast
    }
}

/// What follows on a look at a page, counted from zero. Contents that could
/// not be read tell nothing.
pub open spec fn page_step(url: Seq<char>, round: usize, html: Option<Seq<char>>) -> PageAction {
    match html {
        Some(html) => if shows_challenge(html) {
            if round >= CHALLENGE_ROUNDS {
                PageAction::GiveUp
            } else {
                look_again(round)
            }
        } else {
            match settling_time(url, round, html) {
                Some(seconds) => PageAction::Settle(seconds),
                None => look_again(round),
            }
        },
        None => look_again(round),
    }
}

/// Takes a look at a page, counted from zero, and tells what to do next.
pub fn fetch_with_cdp(url: &str, round: usize, html: Option<&str>) -> (r: PageAction)
    ensures
        r == page_step(url@, round, crate::clients::option_text(html)),
{
    if let Some(html) = html {
        if contains(html, "challenge-platform") || contains(html, "cf-chl-widget-") || contains(
            html,
            "just a sec",
        ) {
            if round >= CHALLENGE_ROUNDS {
                return PageAction::GiveUp;
            }
        } else if (contains(url, "/album/") || contains(url, "play.qobuz.com/album/")) && (contains(
            html,
            "dl-album",
        ) || contains(html, "download-form")) {
            return PageAction::Settle(3);
        } else if detect_artist_page(url) && contains(html, "/album/") {
            return PageAction::Settle(5);
        } else if detect_site(html) && round >= GENERIC_ROUNDS {
            return PageAction::Settle(2);
        }
    }
    if round < MAX_ROUNDS - 1 {
        PageAction::Sleep(ROUND_SECONDS)
    } else {
        PageAction::ReadLast
    }
}

/// The contents of a page that was read once more: as they were then, or as
/// they were before where they could not be read.
pub fn settled_page(html: String, again: Option<String>) -> (r: String)
    ensures
        r == if let Some(again) = again {
            again
        } else {
            html
        },
{
    match again {
        Some(again) => again,
        None => html,
    }
}

/// A page that shows the challenge is never taken to be complete, and is
/// given up only after twenty looks.
pub proof fn law_challenge_is_waited_out(url: Seq<char>, round: usize, html: Seq<char>)
    requires
        shows_challenge(html),
    ensures
        !(page_step(url, round, Some(html)) is Settle),
        page_step(url, round, Some(html)) is GiveUp <==> round >= CHALLENGE_ROUNDS,
{
}

/// The rounds that are made at a page, from the given one on, where the looks
/// give the given contents.
pub open spec fn rounds_run(
    url: Seq<char>,
    round: usize,
    looks: Seq<Option<Seq<char>>>,
) -> Option<PageAction>
    decreases looks.len(),
{
    if looks.len() == 0 {
        None
    } else {
        match page_step(url, round, looks[0]) {
            PageAction::Sleep(_) => rounds_run(url, (round + 1) as usize, looks.skip(1)),
            settled => Some(settled),
        }
    }
}

/// The first look that is not followed by another decides what comes of a page.
pub proof fn law_first_settled_look_decides(url: Seq<char>, looks: Seq<Option<Seq<char>>>, n: int)
    requires
        0 <= n < looks.len(),
        n < MAX_ROUNDS,
        forall|i: int| 0 <= i < n ==> page_step(url, i as usize, #[trigger] looks[i]) is Sleep,
        !(page_step(url, n as usize, looks[n]) is Sleep),
    ensures
        rounds_run(url, 0, looks) == Some(page_step(url, n as usize, looks[n])),
{
    lemma_first_settled_look(url, 0, looks, n);
}

proof fn lemma_first_settled_look(
    url: Seq<char>,
    round: usize,
    looks: Seq<Option<Seq<char>>>,
    n: int,
)
    requires
        0 <= n < looks.len(),
        round + n < MAX_ROUNDS,
        forall|i: int|
            0 <= i < n ==> page_step(url, (round + i) as usize, #[trigger] looks[i]) is Sleep,
        !(page_step(url, (round + n) as usize, looks[n]) is Sleep),
    ensures
        rounds_run(url, round, looks) == Some(page_step(url, (round + n) as usize, looks[n])),
    decreases n,
{
    if n > 0 {
        assert(page_step(url, (round + 0) as usize, looks[0]) is Sleep);
        let rest = looks.skip(1);
        assert forall|i: int| 0 <= i < n - 1 implies page_step(
            url,
            (round + 1 + i) as usize,
            #[trigger] rest[i],
        ) is Sleep by {
            assert(rest[i] == looks[i + 1]);
        }
        lemma_first_settled_look(url, (round + 1) as usize, rest, n - 1);
    }
}

/// Thirty looks settle what comes of a page.
pub proof fn law_page_looks_end(url: Seq<char>, looks: Seq<Option<Seq<char>>>)
    requires
        looks.len() >= MAX_ROUNDS,
    ensures
        rounds_run(url, 0, looks) is Some,
{
    lemma_page_looks_end(url, 0, looks);
}

proof fn lemma_page_looks_end(url: Seq<char>, round: usize, looks: Seq<Option<Seq<char>>>)
    requires
        round < MAX_ROUNDS,
        looks.len() >= MAX_ROUNDS - round,
    ensures
        rounds_run(url, round, looks) is Some,
    decreases MAX_ROUNDS - round,
{
    if round + 1 < MAX_ROUNDS {
        lemma_page_looks_end(url, (round + 1) as usize, looks.skip(1));
    }
}

/// How far the visit to a page is.
pub enum VisitState {
    /// Chromium is connected to.
    Connecting,
    /// A tab is opened.
    Opening,
    /// The tab is sent to the page.
    Navigating,
    /// The page is looked at; the looks before are counted.
    Looking(usize),
    /// The page is there, with the given contents, and is read once more.
    Settling(String),
    /// The page is read one last time.
    ReadingLast,
    /// The tab is closed; the page's contents are kept, if there are any.
    Closing(Option<String>),
    Done,
}

/// What happens during the visit to a page.
pub enum VisitEvent {
    /// Chromium was connected to, or could not be.
    Connected(bool),
    /// The tab was opened, or could not be.
    Opened(bool),
    /// The tab was sent to the page, or could not be.
    Navigated(bool),
    /// The pause is over.
    Slept,
    /// The page's contents, if they could be read.
    Contents(Option<String>),
    /// The tab is closed.
    Closed,
}

/// What is done next for the visit to a page.
pub enum VisitAction {
    Connect,
    Open,
    Navigate,
    Sleep(u64),
    Read,
    Close,
    /// The visit is over, with the page's contents if it was got.
    Finish(Option<String>),
}

/// The text of an optional string.
pub open spec fn contents_text(html: Option<String>) -> Option<Seq<char>> {
    match html {
        Some(html) => Some(html@),
        None => None,
    }
}

/// What follows on a look during the visit to a page.
pub open spec fn visit_look(url: Seq<char>, round: usize, html: Option<String>) -> (
    VisitState,
    VisitAction,
) {
    match (page_step(url, round, contents_text(html)), html) {
        (PageAction::Sleep(seconds), _) => (
            VisitState::Looking((round + 1) as usize),
            VisitAction::Sleep(seconds),
        ),
        (PageAction::Settle(seconds), Some(html)) => (
            VisitState::Settling(html),
            VisitAction::Sleep(seconds),
        ),
        (PageAction::ReadLast, _) => (VisitState::ReadingLast, VisitAction::Read),
        _ => (VisitState::Closing(None), VisitAction::Close),
    }
}

/// The next state and action of the visit to a page. Without a tab there is
/// nothing to close; an open tab is closed before the visit is over, whatever
/// has come of the page. An event that the state does not wait for counts as a
/// failure.
pub open spec fn visit_step(url: Seq<char>, state: VisitState, event: VisitEvent) -> (
    VisitState,
    VisitAction,
) {
    match (state, event) {
        (VisitState::Connecting, VisitEvent::Connected(true)) => (
            VisitState::Opening,
            VisitAction::Open,
        ),
        (VisitState::Opening, VisitEvent::Opened(true)) => (
            VisitState::Navigating,
            VisitAction::Navigate,
        ),
        (VisitState::Connecting, _) => (VisitState::Done, VisitAction::Finish(None)),
        (VisitState::Opening, _) => (VisitState::Done, VisitAction::Finish(None)),
        (VisitState::Navigating, VisitEvent::Navigated(true)) => (
            VisitState::Looking(0),
            VisitAction::Sleep(ROUND_SECONDS),
        ),
        (VisitState::Looking(round), VisitEvent::Slept) => (
            VisitState::Looking(round),
            VisitAction::Read,
        ),
        (VisitState::Looking(round), VisitEvent::Contents(html)) => visit_look(url, round, html),
        (VisitState::Settling(html), VisitEvent::Slept) => (
            VisitState::Settling(html),
            VisitAction::Read,
        ),
        (VisitState::Settling(_), VisitEvent::Contents(Some(again))) => (
            VisitState::Closing(Some(again)),
            VisitAction::Close,
        ),
        (VisitState::Settling(html), VisitEvent::Contents(None)) => (
            VisitState::Closing(Some(html)),
            VisitAction::Close,
        ),
        (VisitState::ReadingLast, VisitEvent::Contents(html)) => (
            VisitState::Closing(html),
            VisitAction::Close,
        ),
        (VisitState::Closing(html), _) => (VisitState::Done, VisitAction::Finish(html)),
        (VisitState::Done, _) => (VisitState::Done, VisitAction::Finish(None)),
        _ => (VisitState::Closing(None), VisitAction::Close),
    }
}

/// Takes an event of the visit to a page, and tells what to do next.
pub fn visit_page(url: &str, state: VisitState, event: VisitEvent) -> (r: (VisitState, VisitAction))
    ensures
        r == visit_step(url@, state, event),
{
    match (state, event) {
        (VisitState::Connecting, VisitEvent::Connected(true)) => (
            VisitState::Opening,
            VisitAction::Open,
        ),
        (VisitState::Opening, VisitEvent::Opened(true)) => (
            VisitState::Navigating,
            VisitAction::Navigate,
        ),
        (VisitState::Connecting, _) => (VisitState::Done, VisitAction::Finish(None)),
        (VisitState::Opening, _) => (VisitState::Done, VisitAction::Finish(None)),
        (VisitState::Navigating, VisitEvent::Navigated(true)) => (
            VisitState::Looking(0),
            VisitAction::Sleep(ROUND_SECONDS),
        ),
        (VisitState::Looking(round), VisitEvent::Slept) => (
            VisitState::Looking(round),
            VisitAction::Read,
        ),
        (VisitState::Looking(round), VisitEvent::Contents(html)) => look_at_page(url, round, html),
        (VisitState::Settling(html), VisitEvent::Slept) => (
            VisitState::Settling(html),
            VisitAction::Read,
        ),
        (VisitState::Settling(html), VisitEvent::Contents(again)) => (
            VisitState::Closing(Some(settled_page(html, again))),
            VisitAction::Close,
        ),
        (VisitState::ReadingLast, VisitEvent::Contents(html)) => (
            VisitState::Closing(html),
            VisitAction::Close,
        ),
        (VisitState::Closing(html), _) => (VisitState::Done, VisitAction::Finish(html)),
        (VisitState::Done, _) => (VisitState::Done, VisitAction::Finish(None)),
        _ => (VisitState::Closing(None), VisitAction::Close),
    }
}

/// Takes a look during the visit to a page, and tells what to do next.
fn look_at_page(url: &str, round: usize, html: Option<String>) -> (r: (VisitState, VisitAction))
    ensures
        r == visit_look(url@, round, html),
{
    let action: PageAction = match &html {
        Some(html) => fetch_with_cdp(url, round, Some(html.as_str())),
        None => fetch_with_cdp(url, round, None),
    };
    match (action, html) {
        (PageAction::Sleep(seconds), _) => (
            VisitState::Looking(round + 1),
            VisitAction::Sleep(seconds),
        ),
        (PageAction::Settle(seconds), Some(html)) => (
            VisitState::Settling(html),
            VisitAction::Sleep(seconds),
        ),
        (PageAction::ReadLast, _) => (VisitState::ReadingLast, VisitAction::Read),
        _ => (VisitState::Closing(None), VisitAction::Close),
    }
}

/// All that is done for the visit to a page, from the given state on, where
/// the given events happen. Nothing is done after its end.
pub open spec fn visit_run(url: Seq<char>, state: VisitState, events: Seq<VisitEvent>) -> Seq<
    VisitAction,
>
    decreases events.len(),
{
    if events.len() == 0 {
        Seq::empty()
    } else {
        let (next, action) = visit_step(url, state, events[0]);
        if action is Finish {
            seq![action]
        } else {
            seq![action] + visit_run(url, next, events.skip(1))
        }
    }
}

/// How often a tab is closed among the given actions.
pub open spec fn closings(actions: Seq<VisitAction>) -> nat
    decreases actions.len(),
{
    if actions.len() == 0 {
        0
    } else {
        (if actions[0] is Close {
            1nat
        } else {
            0nat
        }) + closings(actions.skip(1))
    }
}

/// How often a tab that was opened is sent to the page among the given actions.
pub open spec fn navigations(actions: Seq<VisitAction>) -> nat
    decreases actions.len(),
{
    if actions.len() == 0 {
        0
    } else {
        (if actions[0] is Navigate {
            1nat
        } else {
            0nat
        }) + navigations(actions.skip(1))
    }
}

/// Whether a visit is over.
pub open spec fn is_over(actions: Seq<VisitAction>) -> bool {
    actions.len() > 0 && actions.last() is Finish
}

/// Whether a tab is open in the given state.
pub open spec fn has_tab(state: VisitState) -> bool {
    state is Navigating || state is Looking || state is Settling || state is ReadingLast
}

/// What a visit counts from the given state on.
proof fn lemma_visit_counts(url: Seq<char>, state: VisitState, events: Seq<VisitEvent>)
    ensures
        ({
            let run = visit_run(url, state, events);
            let open = if has_tab(state) {
                1nat
            } else {
                0nat
            };
            &&& closings(run) <= open + navigations(run) <= 1
            &&& is_over(run) ==> closings(run) == open + navigations(run)
            &&& is_over(run) && closings(run) == 1 ==> run.len() >= 2 && run[run.len() - 2] is Close
            &&& state is Closing || state is Done ==> closings(run) == 0
        }),
    decreases events.len(),
{
    if events.len() > 0 {
        let (next, action) = visit_step(url, state, events[0]);
        let run = visit_run(url, state, events);
        assert(run[0] == action);
        if action is Finish {
            assert(run.skip(1) =~= Seq::<VisitAction>::empty());
            assert(closings(run.skip(1)) == 0 && navigations(run.skip(1)) == 0);
        } else {
            let rest = visit_run(url, next, events.skip(1));
            lemma_visit_counts(url, next, events.skip(1));
            assert(run.skip(1) =~= rest);
            if is_over(run) {
                assert(rest.len() > 0);
                assert(rest.last() == run.last());
                if rest.len() >= 2 {
                    assert(run[run.len() - 2] == rest[rest.len() - 2]);
                } else {
                    assert(run[run.len() - 2] == action);
                    assert(rest[0] is Finish);
                    assert(rest.skip(1) =~= Seq::<VisitAction>::empty());
                    assert(closings(rest.skip(1)) == 0);
                }
            }
        }
    }
}

/// Whatever happens, a visit that is over has closed its tab exactly once if
/// one was opened, as the last thing before its end, and has closed none
/// otherwise.
pub proof fn law_opened_tab_is_closed_once(url: Seq<char>, events: Seq<VisitEvent>)
    ensures
        ({
            let run = visit_run(url, VisitState::Connecting, events);
            &&& closings(run) <= navigations(run) <= 1
            &&& is_over(run) ==> closings(run) == navigations(run)
            &&& is_over(run) && navigations(run) == 1 ==> run.len() >= 2 && run[run.len()
                - 2] is Close
        }),
{
    lemma_visit_counts(url, VisitState::Connecting, events);
}

} // verus!
