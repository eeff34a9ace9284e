//! How the user's Chromium and the headless one are driven.
use crate::browser::{
    connect_step, debugging_arguments, is_positive_count, number, page_step, socket_address,
    tells_processes, visit_step, ConnectAction, ConnectEvent, ConnectState, PageAction,
    VisitAction, VisitEvent, VisitState, ENDPOINT_ADDRESS,
};
use crate::bypass::{
    browser_arguments, bypass_step, cookie_texts, copying, locks, look_step, profile_path,
    profile_step, reported_user_agent, seen_title, title_kind, BypassAction, BypassEvent,
    BypassState, Cookie, LookAction, ProfileAction, ProfileEvent, Title,
};
use crate::json::{document, text_member, Json};
use crate::laws::text::{is_blank, law_trimming_leaves_the_middle};
use crate::provisioning::below;
use crate::text::{is_white_space, lowercase, mentions};
use vstd::prelude::*;

verus! {

/// Whether a text is made of decimal digits, and of at least one.
pub open spec fn is_decimal(text: Seq<char>) -> bool {
    text.len() > 0 && forall|i: int| 0 <= i < text.len() ==> '0' <= #[trigger] text[i] <= '9'
}

/// A further digit makes ten times the number and the digit; a number may be
/// preceded by a plus sign and by nothing else, and counts from one up to
/// 2147483647.
pub proof fn law_process_counts_are_positive_numbers(digits: Seq<char>, digit: char)
    requires
        '0' <= digit <= '9',
    ensures
        number(Seq::<char>::empty()) == 0,
        is_decimal(digits) ==> number(digits.push(digit)) == 10 * number(digits) + (digit as int
            - 48),
        is_decimal(digits) ==> (is_positive_count(digits) <==> 1 <= number(digits) <= 2147483647),
        is_decimal(digits) ==> (is_positive_count(seq!['+'] + digits) <==> 1 <= number(digits)
            <= 2147483647),
        is_positive_count(digits) ==> is_decimal(digits) || (digits[0] == '+' && is_decimal(
            digits.skip(1),
        )),
{
    assert(digits.push(digit).drop_last() =~= digits);
    assert((seq!['+'] + digits).skip(1) =~= digits);
    if is_decimal(digits) {
        assert('0' <= digits[0] <= '9');
    }
}

/// Chromium runs exactly if a positive count was printed between white space.
pub proof fn law_chromium_runs_where_processes_are_counted(
    left: Seq<char>,
    count: Seq<char>,
    right: Seq<char>,
)
    requires
        is_blank(left),
        is_blank(right),
        count.len() > 0 ==> !is_white_space(count[0]) && !is_white_space(count.last()),
    ensures
        tells_processes(Some(left + count + right)) <==> is_positive_count(count),
        !tells_processes(None),
{
    law_trimming_leaves_the_middle(left, count, right);
}

/// The socket's address is the string of its name in the document that
/// Chromium sends; without a body or a document there is none.
pub proof fn law_socket_address_is_read_from_the_document(body: Seq<char>, json: Json)
    ensures
        ENDPOINT_ADDRESS@ == "http://127.0.0.1:9222/json/version"@,
        socket_address(None) is None,
        document(body) is None ==> socket_address(Some(body)) is None,
        document(body) == Some(json) ==> socket_address(Some(body)) == text_member(
            json,
            "webSocketDebuggerUrl"@,
        ),
{
}

/// Chromium is launched with its debugging port on the user's own profile.
pub proof fn law_chromium_is_launched_on_the_users_profile(home: Seq<char>)
    ensures
        debugging_arguments(home) == seq![
            "--remote-debugging-port=9222"@,
            "--user-data-dir="@ + home + "/.config/chromium"@,
            "--disable-blink-features=AutomationControlled"@,
            "--disable-web-security"@,
            "--disable-features=IsolateOrigins,site-per-process"@,
            "--remote-allow-origins=*"@,
        ],
{
}

/// A Chromium that tells its address is connected to there. One that does not
/// is left alone where it runs, and launched where it does not.
pub proof fn law_chromium_is_reached_or_launched(url: String)
    ensures
        connect_step(ConnectState::Asking, ConnectEvent::Queried(Some(url))).1
            == ConnectAction::Connect(url),
        connect_step(ConnectState::Asking, ConnectEvent::Queried(None)) == (
            ConnectState::Checking,
            ConnectAction::Check,
        ),
        connect_step(ConnectState::Checking, ConnectEvent::Checked(true)).1 is GiveUp,
        connect_step(ConnectState::Checking, ConnectEvent::Checked(false)) == (
            ConnectState::Launching,
            ConnectAction::Launch,
        ),
        connect_step(ConnectState::Launching, ConnectEvent::Launched(false)).1 is GiveUp,
        connect_step(ConnectState::Launching, ConnectEvent::Launched(true)) == (
            ConnectState::Waiting(0),
            ConnectAction::Query,
        ),
{
}

/// A launched Chromium is asked once a second, ten times, and connected to as
/// soon as it tells its address; after the tenth time it is ended.
pub proof fn law_launched_chromium_is_asked_ten_times(queries: usize, url: String)
    ensures
        connect_step(ConnectState::Waiting(queries), ConnectEvent::Queried(Some(url))).1
            == ConnectAction::Connect(url),
        queries < 9 ==> connect_step(ConnectState::Waiting(queries), ConnectEvent::Queried(None))
            == (ConnectState::Waiting((queries + 1) as usize), ConnectAction::Sleep(1)),
        queries >= 9 ==> connect_step(
            ConnectState::Waiting(queries),
            ConnectEvent::Queried(None),
        ).1 is Kill,
        connect_step(ConnectState::Waiting(queries), ConnectEvent::Slept) == (
            ConnectState::Waiting(queries),
            ConnectAction::Query,
        ),
{
}

/// A page with a mark of the challenge is looked at again after a second, and
/// given up from the look after the twentieth on.
pub proof fn law_challenged_page_is_waited_for(url: Seq<char>, round: usize, html: Seq<char>)
    requires
        mentions(html, "challenge-platform"@) || mentions(html, "cf-chl-widget-"@) || mentions(
            html,
            "just a sec"@,
        ),
    ensures
        round < 20 ==> page_step(url, round, Some(html)) == PageAction::Sleep(1),
        round >= 20 ==> page_step(url, round, Some(html)) is GiveUp,
{
}

/// Without a mark of the challenge, an album's page is there once it shows the
/// album, after three more seconds, and an artist's page once it links to an
/// album, after five; the site's own page is there from the sixth look on,
/// after two.
pub proof fn law_page_is_there_once_it_shows_its_contents(
    url: Seq<char>,
    round: usize,
    html: Seq<char>,
)
    requires
        !mentions(html, "challenge-platform"@),
        !mentions(html, "cf-chl-widget-"@),
        !mentions(html, "just a sec"@),
    ensures
        ({
            let album = (mentions(url, "/album/"@) || mentions(url, "play.qobuz.com/album/"@)) && (
            mentions(html, "dl-album"@) || mentions(html, "download-form"@));
            let artist = (mentions(url, "interpreter"@) || mentions(url, "/artist/"@)) && mentions(
                html,
                "/album/"@,
            );
            let own = (mentions(html, "Welcome to the world of Lucida"@) || mentions(
                html,
                "download-form"@,
            )) && round >= 5;
            let action = page_step(url, round, Some(html));
            &&& album ==> action == PageAction::Settle(3)
            &&& !album && artist ==> action == PageAction::Settle(5)
            &&& !album && !artist && own ==> action == PageAction::Settle(2)
            &&& !album && !artist && !own && round < 29 ==> action == PageAction::Sleep(1)
            &&& !album && !artist && !own && round >= 29 ==> action is ReadLast
        }),
{
}

/// A page that cannot be read is looked at again after a second, up to the
/// thirtieth look, after which it is read one last time.
pub proof fn law_unreadable_page_is_looked_at_again(url: Seq<char>, round: usize)
    ensures
        round < 29 ==> page_step(url, round, None) == PageAction::Sleep(1),
        round >= 29 ==> page_step(url, round, None) is ReadLast,
{
}

/// A visit connects, opens a tab and sends it to the page; a second later the
/// page is looked at. Where there is no tab the visit is over, and a tab that
/// cannot be sent to the page is closed.
pub proof fn law_visit_begins_with_a_tab(url: Seq<char>)
    ensures
        visit_step(url, VisitState::Connecting, VisitEvent::Connected(true)) == (
            VisitState::Opening,
            VisitAction::Open,
        ),
        visit_step(url, VisitState::Connecting, VisitEvent::Connected(false)).1
            == VisitAction::Finish(None),
        visit_step(url, VisitState::Opening, VisitEvent::Opened(true)) == (
            VisitState::Navigating,
            VisitAction::Navigate,
        ),
        visit_step(url, VisitState::Opening, VisitEvent::Opened(false)).1 == VisitAction::Finish(
            None,
        ),
        visit_step(url, VisitState::Navigating, VisitEvent::Navigated(true)) == (
            VisitState::Looking(0),
            VisitAction::Sleep(1),
        ),
        visit_step(url, VisitState::Navigating, VisitEvent::Navigated(false)) == (
            VisitState::Closing(None),
            VisitAction::Close,
        ),
{
}

/// A look decides whether the visit waits, reads the page once more or a last
/// time, or closes its tab without it.
pub proof fn law_look_decides_the_visit(url: Seq<char>, round: usize, html: String, seconds: u64)
    requires
        round < 30,
    ensures
        ({
            let look = page_step(url, round, Some(html@));
            let next = visit_step(
                url,
                VisitState::Looking(round),
                VisitEvent::Contents(Some(html)),
            );
            &&& look == PageAction::Sleep(seconds) ==> next == (
                VisitState::Looking((round + 1) as usize),
                VisitAction::Sleep(seconds),
            )
            &&& look == PageAction::Settle(seconds) ==> next == (
                VisitState::Settling(html),
                VisitAction::Sleep(seconds),
            )
            &&& look is ReadLast ==> next == (VisitState::ReadingLast, VisitAction::Read)
            &&& look is GiveUp ==> next == (VisitState::Closing(None), VisitAction::Close)
        }),
        visit_step(url, VisitState::Looking(round), VisitEvent::Slept) == (
            VisitState::Looking(round),
            VisitAction::Read,
        ),
{
}

/// A page that was there is handed on as it was read once more or, where that
/// failed, as it was before; a page that was read a last time as it was then.
/// The tab is closed before.
pub proof fn law_visit_hands_on_what_was_read_last(
    url: Seq<char>,
    html: String,
    again: String,
    last: Option<String>,
)
    ensures
        visit_step(url, VisitState::Settling(html), VisitEvent::Slept) == (
            VisitState::Settling(html),
            VisitAction::Read,
        ),
        visit_step(url, VisitState::Settling(html), VisitEvent::Contents(Some(again))) == (
            VisitState::Closing(Some(again)),
            VisitAction::Close,
        ),
        visit_step(url, VisitState::Settling(html), VisitEvent::Contents(None)) == (
            VisitState::Closing(Some(html)),
            VisitAction::Close,
        ),
        visit_step(url, VisitState::ReadingLast, VisitEvent::Contents(last)) == (
            VisitState::Closing(last),
            VisitAction::Close,
        ),
        visit_step(url, VisitState::Closing(last), VisitEvent::Closed).1 == VisitAction::Finish(
            last,
        ),
{
}

/// A title with a mark of the challenge is pending; else one with a mark of an
/// error is an error page's, and any other that is not empty the site's own.
pub proof fn law_titles_are_told_apart(title: Seq<char>)
    ensures
        ({
            let challenged = mentions(title, "just a moment"@) || mentions(title, "just a sec"@)
                || mentions(title, "cloudflare"@);
            let broken = mentions(title, "521"@) || mentions(title, "503"@) || mentions(
                title,
                "502"@,
            ) || mentions(title, "web server is down"@) || mentions(title, "bad gateway"@)
                || mentions(title, "service unavailable"@);
            &&& challenged ==> title_kind(title) is Pending
            &&& !challenged && broken ==> title_kind(title) is ErrorPage
            &&& !challenged && !broken && title.len() > 0 ==> title_kind(title) is Loaded
            &&& !challenged && !broken && title.len() == 0 ==> title_kind(title) is Pending
        }),
{
}

/// Titles are looked at in lower case; one that cannot be read is pending.
pub proof fn law_titles_are_looked_at_in_lower_case(title: String)
    ensures
        seen_title(Some(title)) == title_kind(lowercase(title@)),
        seen_title(None) is Pending,
{
}

/// A settled title ends the looking at once; a pending one is looked at again
/// after a second, up to the thirtieth look.
pub proof fn law_title_is_looked_at_thirty_times(looks: usize)
    ensures
        look_step(looks, Title::Loaded) is Proceed,
        look_step(looks, Title::ErrorPage) is GiveUp,
        looks < 29 ==> look_step(looks, Title::Pending) == LookAction::Sleep(1),
        looks >= 29 ==> look_step(looks, Title::Pending) is GiveUp,
{
}

/// A cookie is sent as its name, an equals sign and its value.
pub proof fn law_cookies_are_sent_by_name(cookies: Seq<Cookie>, i: int)
    requires
        0 <= i < cookies.len(),
    ensures
        cookie_texts(cookies).len() == cookies.len(),
        cookie_texts(cookies)[i] == cookies[i].name@ + "="@ + cookies[i].value@,
{
}

/// The User-Agent is the one that the browser reports, where that is a string,
/// else the one that it was given.
pub proof fn law_reported_user_agent_is_used(agent: Seq<char>, other: Json)
    requires
        !(other is Text),
    ensures
        reported_user_agent(Some(Json::Text(agent))) == agent,
        reported_user_agent(Some(other))
            == "Mozilla/5.0 (X11; Linux x86_64) AppleWebKit/537.36 (KHTML, like Gecko) Chrome/149.0.0.0 Safari/537.36"@,
        reported_user_agent(None)
            == "Mozilla/5.0 (X11; Linux x86_64) AppleWebKit/537.36 (KHTML, like Gecko) Chrome/149.0.0.0 Safari/537.36"@,
{
}

/// The headless browser is given that User-Agent, runs without a sandbox, and
/// does not tell that it is driven.
pub proof fn law_headless_browser_is_launched_unsandboxed()
    ensures
        browser_arguments() == seq![
            "--disable-blink-features=AutomationControlled"@,
            "--user-agent="@
                + "Mozilla/5.0 (X11; Linux x86_64) AppleWebKit/537.36 (KHTML, like Gecko) Chrome/149.0.0.0 Safari/537.36"@,
            "--no-sandbox"@,
            "--disable-dev-shm-usage"@,
            "--disable-gpu"@,
            "--disable-extensions"@,
            "--disable-web-security"@,
            "--disable-features=IsolateOrigins,site-per-process"@,
            "--remote-allow-origins=*"@,
        ],
{
}

/// The user's profile is copied with all that lies in it, to a place among the
/// temporary files, and its three lock files are deleted there.
pub proof fn law_profile_is_copied_with_all_in_it(home: Seq<char>, profile: Seq<char>)
    ensures
        profile_path(home) == below(home, ".config/chromium"@),
        copying(profile) == seq!["-r"@, profile + "/."@, "/tmp/lucida-chromium-profile"@],
        locks() == seq!["SingletonLock"@, "SingletonCookie"@, "SingletonSocket"@],
{
}

/// A profile is copied to a cleared place and unlocked before it is used;
/// without a profile, or where it cannot be copied, there is none.
pub proof fn law_profile_is_copied_before_it_is_used()
    ensures
        profile_step(ProfileEvent::Searched { present: false }) is GiveUp,
        profile_step(ProfileEvent::Searched { present: true }) is Clear,
        profile_step(ProfileEvent::Cleared) is Copy,
        profile_step(ProfileEvent::Copied { success: false }) is GiveUp,
        profile_step(ProfileEvent::Copied { success: true }) is DeleteLocks,
        profile_step(ProfileEvent::Unlocked) is Ready,
{
}

/// The headless browser is launched, opens a tab, sends it to the site and
/// awaits the page's body, each only if the step before went well; a second
/// later the title is read.
pub proof fn law_headless_browser_goes_to_the_site()
    ensures
        bypass_step(BypassState::Configuring, BypassEvent::Configured(true)) == (
            BypassState::Launching,
            BypassAction::Launch,
        ),
        bypass_step(BypassState::Configuring, BypassEvent::Configured(false)).1 is GiveUp,
        bypass_step(BypassState::Launching, BypassEvent::Launched(true)) == (
            BypassState::Opening,
            BypassAction::Open,
        ),
        bypass_step(BypassState::Opening, BypassEvent::Opened(true)) == (
            BypassState::Navigating,
            BypassAction::Navigate,
        ),
        bypass_step(BypassState::Navigating, BypassEvent::Navigated(true)) == (
            BypassState::AwaitingBody,
            BypassAction::AwaitBody,
        ),
        bypass_step(BypassState::AwaitingBody, BypassEvent::BodyShown(true)) == (
            BypassState::Looking(0),
            BypassAction::Sleep(1),
        ),
{
}

/// A step that fails after the launch was tried has the profile removed, and
/// nothing is made of it.
pub proof fn law_failed_bypass_removes_the_profile(looks: usize)
    ensures
        ({
            let failed = (BypassState::Removing(false), BypassAction::RemoveProfile);
            &&& bypass_step(BypassState::Launching, BypassEvent::Launched(false)) == failed
            &&& bypass_step(BypassState::Opening, BypassEvent::Opened(false)) == failed
            &&& bypass_step(BypassState::Navigating, BypassEvent::Navigated(false)) == failed
            &&& bypass_step(BypassState::AwaitingBody, BypassEvent::BodyShown(false)) == failed
            &&& bypass_step(BypassState::Harvesting, BypassEvent::Harvested(false)) == failed
        }),
        bypass_step(BypassState::Removing(false), BypassEvent::Removed).1 is GiveUp,
{
}

/// The site's own title leads to the cookies, and those, once the profile is
/// removed, to the client; an error page, or the thirtieth pending title, leads
/// to neither.
pub proof fn law_loaded_page_leads_to_the_client(looks: usize, title: Option<String>)
    ensures
        ({
            let next = bypass_step(BypassState::Looking(looks), BypassEvent::Titled(title));
            &&& seen_title(title) is Loaded ==> next == (
                BypassState::Harvesting,
                BypassAction::Harvest,
            )
            &&& seen_title(title) is ErrorPage ==> next == (
                BypassState::Removing(false),
                BypassAction::RemoveProfile,
            )
            &&& seen_title(title) is Pending && looks < 29 ==> next == (
                BypassState::Looking((looks + 1) as usize),
                BypassAction::Sleep(1),
            )
            &&& seen_title(title) is Pending && looks >= 29 ==> next == (
                BypassState::Removing(false),
                BypassAction::RemoveProfile,
            )
        }),
        bypass_step(BypassState::Looking(looks), BypassEvent::Slept) == (
            BypassState::Looking(looks),
            BypassAction::ReadTitle,
        ),
        bypass_step(BypassState::Harvesting, BypassEvent::Harvested(true)) == (
            BypassState::Removing(true),
            BypassAction::RemoveProfile,
        ),
        bypass_step(BypassState::Removing(true), BypassEvent::Removed).1 is Build,
{
}

} // verus!
