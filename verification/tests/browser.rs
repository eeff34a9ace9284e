use lucida_downloader::browser::{
    connect, fetch_with_cdp, get_browser_ws_url, is_chromium_running, launch_chromium_with_cdp,
    read_ws_url, settled_page, visit_page, ConnectAction, ConnectEvent, ConnectState, PageAction,
    VisitAction, VisitEvent, VisitState,
};
use lucida_downloader::browser_cookies::{
    auto_detect_cookies, detect_chromium_user_agent, read_cookie,
};
use lucida_downloader::browser_pool::{
    build_cookie_client, fetch_page_with_browser, fill_page_script, harvest_cookies, join_cookies,
    page_script, read_harvest, SharedClient,
};
use lucida_downloader::bypass::{
    after_look, classify_title, copy_arguments, copy_user_profile, create_bypass_client,
    launch_arguments, lock_files, look_at_title, pass_challenge, profile_dir, BypassAction,
    BypassEvent, BypassState, Cookie, LookAction, ProfileAction, ProfileEvent, Title, USER_AGENT,
};
use lucida_downloader::clients::{browser_headers, direct_headers};
use lucida_downloader::provisioning::{
    cache_dir, ensure_browser_cookie3, ensure_playwright, ensure_venv, find_python, install_command,
    join_path, venv_dir, venv_python, InstallAction, InstallStep, Package,
};

fn strings(items: &[&str]) -> Vec<String> {
    items.iter().map(|item| item.to_string()).collect()
}

#[test]
fn process_counts() {
    assert!(is_chromium_running(Some("3\n")));
    assert!(is_chromium_running(Some("+1")));
    assert!(is_chromium_running(Some("2147483647")));
    assert!(is_chromium_running(Some("0000000000000000000012")));
    for text in ["0\n", "", "+", "-1", "x", "1x", "2147483648", "99999999999999999999999"] {
        assert!(!is_chromium_running(Some(text)));
        assert_eq!(text.trim().parse::<i32>().unwrap_or(0) > 0, false);
    }
    assert!(!is_chromium_running(None));
}

#[test]
fn socket_address_is_read_from_the_reply() {
    assert_eq!(
        get_browser_ws_url(Some("{\"Browser\":\"x\",\"webSocketDebuggerUrl\":\"ws://y\"}")).unwrap(),
        "ws://y"
    );
    assert_eq!(get_browser_ws_url(Some("{\"webSocketDebuggerUrl\":1}")), None);
    assert_eq!(get_browser_ws_url(Some("{}")), None);
    assert_eq!(get_browser_ws_url(Some("[]")), None);
    assert_eq!(get_browser_ws_url(Some("oops")), None);
    assert_eq!(get_browser_ws_url(None), None);
    let json: serde_json::Value = serde_json::from_str("{\"webSocketDebuggerUrl\":\"u\"}").unwrap();
    assert_eq!(read_ws_url(&json).unwrap(), "u");
}

#[test]
fn chromium_is_launched_on_the_users_profile() {
    assert_eq!(
        launch_chromium_with_cdp("/home/u"),
        vec![
            "--remote-debugging-port=9222",
            "--user-data-dir=/home/u/.config/chromium",
            "--disable-blink-features=AutomationControlled",
            "--disable-web-security",
            "--disable-features=IsolateOrigins,site-per-process",
            "--remote-allow-origins=*",
        ]
    );
}

#[test]
fn reachable_chromium_is_connected_to() {
    let event = ConnectEvent::Queried(Some("ws://y".to_string()));
    match connect(ConnectState::Asking, event).1 {
        ConnectAction::Connect(url) => assert_eq!(url, "ws://y"),
        _ => panic!(),
    }
}

#[test]
fn running_chromium_is_left_alone() {
    let (state, action) = connect(ConnectState::Asking, ConnectEvent::Queried(None));
    assert!(matches!(action, ConnectAction::Check));
    assert!(matches!(connect(state, ConnectEvent::Checked(true)).1, ConnectAction::GiveUp));
}

#[test]
fn launched_chromium_is_asked_ten_times() {
    let (state, _) = connect(ConnectState::Asking, ConnectEvent::Queried(None));
    let (state, action) = connect(state, ConnectEvent::Checked(false));
    assert!(matches!(action, ConnectAction::Launch));
    assert!(matches!(connect(state, ConnectEvent::Launched(false)).1, ConnectAction::GiveUp));
    let (mut state, action) = connect(state, ConnectEvent::Launched(true));
    assert!(matches!(action, ConnectAction::Query));
    let mut queries = 0;
    loop {
        queries += 1;
        let (next, action) = connect(state, ConnectEvent::Queried(None));
        state = next;
        match action {
            ConnectAction::Sleep(1) => {
                assert!(matches!(connect(state, ConnectEvent::Slept).1, ConnectAction::Query));
            }
            ConnectAction::Kill => break,
            _ => panic!(),
        }
    }
    assert_eq!(queries, 10);
    let event = ConnectEvent::Queried(Some("ws://z".to_string()));
    assert!(matches!(connect(ConnectState::Waiting(3), event).1, ConnectAction::Connect(_)));
}

#[test]
fn album_page_settles_once_it_shows_the_album() {
    let url = "https://lucida.to/?url=x/album/y";
    assert_eq!(fetch_with_cdp(url, 0, Some("dl-album")), PageAction::Settle(3));
    assert_eq!(fetch_with_cdp(url, 0, Some("download-form")), PageAction::Settle(3));
    assert_eq!(fetch_with_cdp(url, 0, Some("x")), PageAction::Sleep(1));
}

#[test]
fn artist_page_settles_once_it_links_to_albums() {
    let url = "https://x/artist/y";
    assert_eq!(fetch_with_cdp(url, 0, Some("href=/album/")), PageAction::Settle(5));
    assert_eq!(fetch_with_cdp(url, 0, Some("x")), PageAction::Sleep(1));
}

#[test]
fn generic_page_settles_after_some_looks() {
    let html = Some("Welcome to the world of Lucida");
    assert_eq!(fetch_with_cdp("https://lucida.to/", 4, html), PageAction::Sleep(1));
    assert_eq!(fetch_with_cdp("https://lucida.to/", 5, html), PageAction::Settle(2));
}

#[test]
fn challenge_is_waited_out_for_twenty_looks() {
    for marker in ["challenge-platform", "cf-chl-widget-", "just a sec"] {
        let html = format!("download-form {marker}");
        assert_eq!(fetch_with_cdp("u", 19, Some(&html)), PageAction::Sleep(1));
        assert_eq!(fetch_with_cdp("u", 20, Some(&html)), PageAction::GiveUp);
    }
}

#[test]
fn looks_at_a_page_end() {
    assert_eq!(fetch_with_cdp("u", 28, None), PageAction::Sleep(1));
    assert_eq!(fetch_with_cdp("u", 29, None), PageAction::ReadLast);
    assert_eq!(fetch_with_cdp("u", 29, Some("x")), PageAction::ReadLast);
}

#[test]
fn page_read_once_more_wins() {
    assert_eq!(settled_page("a".to_string(), Some("b".to_string())), "b");
    assert_eq!(settled_page("a".to_string(), None), "a");
}

#[test]
fn printed_cookies() {
    assert_eq!(read_cookie(" abc\n").unwrap(), "abc");
    assert_eq!(read_cookie("\n"), None);
    assert_eq!(read_cookie("ERROR: x"), None);
}

#[test]
fn user_agents_from_versions() {
    let agent = |version: &str| {
        format!(
            "Mozilla/5.0 (X11; Linux x86_64) AppleWebKit/537.36 (KHTML, like Gecko) Chrome/{version} Safari/537.36"
        )
    };
    assert_eq!(
        detect_chromium_user_agent("Chromium 120.0.6099.109 Arch Linux\n").unwrap(),
        agent("120.0.6099.109")
    );
    assert_eq!(detect_chromium_user_agent("Chromium 120").unwrap(), agent("120"));
    assert_eq!(detect_chromium_user_agent("Chromium"), None);
    assert_eq!(detect_chromium_user_agent(""), None);
}

#[test]
fn detection_needs_cookie_and_version() {
    let (cookie, agent) = auto_detect_cookies("c\n", Some("Chromium 1.2")).unwrap();
    assert_eq!(cookie, "c");
    assert!(agent.contains("Chrome/1.2 "));
    assert_eq!(auto_detect_cookies("", Some("Chromium 1.2")), None);
    assert_eq!(auto_detect_cookies("c", None), None);
    assert_eq!(auto_detect_cookies("c", Some("x")), None);
}

#[test]
fn cookies_are_joined() {
    assert_eq!(join_cookies(&strings(&["a=1", "b=2", "c=3"])), "a=1; b=2; c=3");
    assert_eq!(join_cookies(&strings(&["", "b=2"])), "b=2");
    assert_eq!(join_cookies(&Vec::new()), "");
}

#[test]
fn harvest_is_read_from_the_script() {
    let (cookies, agent) = harvest_cookies(
        true,
        " {\"cookies\":[\"a=1\",2,\"b=\\u0031\"],\"user_agent\":\"ua\"}\n",
    )
    .unwrap();
    assert_eq!(cookies, vec!["a=1", "b=1"]);
    assert_eq!(agent, "ua");
    assert_eq!(harvest_cookies(false, "{\"cookies\":[],\"user_agent\":\"ua\"}"), None);
    assert_eq!(harvest_cookies(true, "{\"cookies\":{},\"user_agent\":\"ua\"}"), None);
    assert_eq!(harvest_cookies(true, "{\"user_agent\":\"ua\"}"), None);
    assert_eq!(harvest_cookies(true, "{\"cookies\":[]}"), None);
    assert_eq!(harvest_cookies(true, "nothing"), None);
    let json: serde_json::Value =
        serde_json::from_str("{\"cookies\":[],\"user_agent\":\"x\"}").unwrap();
    assert_eq!(read_harvest(&json), Some((Vec::new(), "x".to_string())));
}

#[test]
fn cookie_client_carries_cookies_and_agent() {
    let plan = build_cookie_client(&strings(&["a=1", "b=2"]), "ua").unwrap();
    assert_eq!(plan.timeout_seconds, 30);
    assert!(plan.http1_only);
    assert_eq!(plan.headers.len(), 5);
    assert_eq!(plan.headers["cookie"], "a=1; b=2");
    assert_eq!(plan.headers["user-agent"], "ua");
    assert_eq!(plan.headers["referer"], "https://lucida.to/");
    assert_eq!(plan.headers["accept-language"], "en-US,en;q=0.9");
    assert_eq!(
        plan.headers["accept"],
        "text/html,application/xhtml+xml,application/xml;q=0.9,image/avif,image/webp,*/*;q=0.8"
    );
    assert!(build_cookie_client(&strings(&["a\n"]), "ua").is_none());
    assert!(build_cookie_client(&strings(&["a"]), "u\u{7f}").is_none());
}

#[test]
fn header_texts_may_hold_tabs_and_letters_of_all_scripts() {
    let headers = browser_headers("u\ta", "\u{e9}").unwrap();
    assert_eq!(headers["cookie"].as_bytes(), "\u{e9}".as_bytes());
    assert_eq!(headers["user-agent"], "u\ta");
    assert!(browser_headers("u\ra", "x").is_none());
}

#[test]
fn direct_client_without_a_cookie_sends_no_headers() {
    assert!(direct_headers(None, Some("Chrome")).unwrap().is_empty());
}

#[test]
fn direct_client_sends_the_headers_of_a_browser() {
    let headers = direct_headers(Some("abc"), Some("Firefox")).unwrap();
    assert_eq!(headers.len(), 5);
    assert_eq!(headers["cookie"], "cf_clearance=abc");
    assert_eq!(headers["upgrade-insecure-requests"], "1");
    assert_eq!(headers["referer"], "https://lucida.to/");
    assert_eq!(headers["accept-language"], "en-US,en;q=0.9");
    assert_eq!(
        headers["accept"],
        "text/html,application/xhtml+xml,application/xml;q=0.9,image/avif,image/webp,image/apng,*/*;q=0.8,application/signed-exchange;v=b3;q=0.7"
    );
    assert_eq!(direct_headers(Some("abc"), None).unwrap().len(), 5);
    assert!(direct_headers(Some("a\n"), None).is_none());
}

#[test]
fn direct_client_sends_the_headers_of_chromium() {
    for agent in ["x Chrome/1", "Chromium"] {
        let headers = direct_headers(Some("abc"), Some(agent)).unwrap();
        assert_eq!(headers.len(), 12);
        assert_eq!(headers["sec-ch-ua"], "\"Chromium\";v=\"149\", \"Not)A;Brand\";v=\"24\"");
        assert_eq!(headers["sec-ch-ua-mobile"], "?0");
        assert_eq!(headers["sec-ch-ua-platform"], "\"Linux\"");
        assert_eq!(headers["sec-fetch-dest"], "document");
        assert_eq!(headers["sec-fetch-mode"], "navigate");
        assert_eq!(headers["sec-fetch-site"], "same-origin");
        assert_eq!(headers["sec-fetch-user"], "?1");
    }
}

#[test]
fn page_script_quotes_address_and_path() {
    let script = page_script("https://x/\"y\"");
    assert!(script.contains("page.goto(\"https://x/\\\"y\\\"\", wait_until=\"domcontentloaded\""));
    assert!(script.contains("with open(\"/tmp/lucida_browser_page.html\", \"w\") as f:"));
    assert!(script.contains("print(f\"ERROR: {e}\", file=sys.stderr)"));
    assert!(script.starts_with("import sys, json\n"));
    assert!(script.ends_with("print(\"OK\")\n"));
    assert_eq!(
        script,
        fill_page_script("\"https://x/\\\"y\\\"\"", "\"/tmp/lucida_browser_page.html\"")
    );
}

#[test]
fn page_is_there_once_the_script_says_so() {
    assert!(fetch_page_with_browser(true, "OK\n"));
    assert!(!fetch_page_with_browser(true, ""));
    assert!(!fetch_page_with_browser(false, "OK\n"));
}

#[test]
fn shared_client_is_replaced_on_refresh() {
    let mut shared = SharedClient::new(1);
    assert_eq!(shared.get(), 1);
    assert!(shared.refresh(Some(2)));
    assert_eq!(shared.get(), 2);
    assert!(!shared.refresh(None));
    assert_eq!(shared.get(), 2);
}

#[test]
fn titles() {
    for title in ["just a moment...", "just a sec", "cloudflare 521", ""] {
        assert_eq!(classify_title(title), Title::Pending);
    }
    for title in ["521", "error 503", "502", "web server is down", "bad gateway", "service unavailable"] {
        assert_eq!(classify_title(title), Title::ErrorPage);
    }
    assert_eq!(classify_title("lucida"), Title::Loaded);
}

#[test]
fn titles_are_looked_at_in_lower_case() {
    assert_eq!(look_at_title(0, Some("Just A MOMENT...")), LookAction::Sleep(1));
    assert_eq!(look_at_title(0, Some("Bad Gateway")), LookAction::GiveUp);
    assert_eq!(look_at_title(0, Some("Lucida")), LookAction::Proceed);
    assert_eq!(look_at_title(28, None), LookAction::Sleep(1));
    assert_eq!(look_at_title(29, None), LookAction::GiveUp);
    assert_eq!(after_look(29, Title::Loaded), LookAction::Proceed);
}

fn cookie(name: &str, value: &str) -> Cookie {
    Cookie { name: name.to_string(), value: value.to_string() }
}

#[test]
fn bypass_client_carries_the_browsers_cookies() {
    let cookies = vec![cookie("a", "1"), cookie("b", "")];
    let reported = serde_json::Value::String("agent".to_string());
    let plan = create_bypass_client(&cookies, Some(&reported)).unwrap();
    assert_eq!(plan.headers["cookie"], "a=1; b=");
    assert_eq!(plan.headers["user-agent"], "agent");
    assert_eq!(plan.timeout_seconds, 30);
    assert!(!plan.http1_only);
    let plan = create_bypass_client(&cookies, Some(&serde_json::Value::Null)).unwrap();
    assert_eq!(plan.headers["user-agent"], USER_AGENT);
    let plan = create_bypass_client(&Vec::new(), None).unwrap();
    assert_eq!(plan.headers["user-agent"], USER_AGENT);
    assert_eq!(plan.headers["cookie"], "");
    assert!(create_bypass_client(&vec![cookie("a", "\n")], None).is_none());
}

#[test]
fn headless_browser_arguments() {
    let arguments = launch_arguments();
    assert_eq!(arguments.len(), 9);
    assert_eq!(arguments[0], "--disable-blink-features=AutomationControlled");
    assert_eq!(arguments[1], format!("--user-agent={USER_AGENT}"));
    assert_eq!(arguments[8], "--remote-allow-origins=*");
    assert_eq!(profile_dir("/home/u"), "/home/u/.config/chromium");
    assert_eq!(
        copy_arguments("/home/u/.config/chromium"),
        vec!["-r", "/home/u/.config/chromium/.", "/tmp/lucida-chromium-profile"]
    );
}

#[test]
fn paths_are_joined_as_the_standard_library_does() {
    for directory in ["", "/", "a", "a/", "/home/u"] {
        assert_eq!(
            join_path(directory, ".cache"),
            std::path::Path::new(directory).join(".cache").to_str().unwrap()
        );
    }
}

#[test]
fn environment_paths() {
    assert_eq!(cache_dir(Some("/x"), Some("/home/u")), "/x");
    assert_eq!(cache_dir(None, Some("/home/u")), "/home/u/.cache");
    assert_eq!(cache_dir(None, None), "/tmp");
    let venv = venv_dir("/x");
    assert_eq!(venv, "/x/lucida-downloader/venv");
    assert_eq!(venv_python(&venv), "/x/lucida-downloader/venv/bin/python3");
    assert_eq!(ensure_venv(&venv), vec!["-m", "venv", "/x/lucida-downloader/venv"]);
}

#[test]
fn packages_are_installed_only_where_needed() {
    for ensure in [ensure_playwright, ensure_browser_cookie3] {
        assert_eq!(ensure(InstallStep::Probe, Some(true)), InstallAction::Ready);
        assert_eq!(
            ensure(InstallStep::Probe, Some(false)),
            InstallAction::Run(InstallStep::Install)
        );
        assert_eq!(ensure(InstallStep::Probe, None), InstallAction::Failed);
        assert_eq!(ensure(InstallStep::Install, Some(false)), InstallAction::Failed);
        assert_eq!(ensure(InstallStep::Install, None), InstallAction::Failed);
    }
    assert_eq!(
        ensure_playwright(InstallStep::Install, Some(true)),
        InstallAction::Run(InstallStep::InstallBrowser)
    );
    assert_eq!(
        ensure_browser_cookie3(InstallStep::Install, Some(true)),
        InstallAction::Ready
    );
    assert_eq!(ensure_playwright(InstallStep::InstallBrowser, Some(true)), InstallAction::Ready);
    assert_eq!(ensure_playwright(InstallStep::InstallBrowser, Some(false)), InstallAction::Failed);
}

#[test]
fn install_commands() {
    assert_eq!(
        install_command(Package::Playwright, InstallStep::Probe),
        vec!["-c", "import playwright"]
    );
    assert_eq!(
        install_command(Package::BrowserCookie3, InstallStep::Install),
        vec!["-m", "pip", "install", "--quiet", "browser_cookie3"]
    );
    assert_eq!(
        install_command(Package::Playwright, InstallStep::InstallBrowser),
        vec!["-m", "playwright", "install", "chromium"]
    );
}

#[test]
fn first_python_that_runs_is_used() {
    assert_eq!(find_python(true, true), Some("python3"));
    assert_eq!(find_python(false, true), Some("python"));
    assert_eq!(find_python(false, false), None);
}

fn profile_actions(present: bool, success: bool) -> Vec<ProfileAction> {
    let mut actions = vec![copy_user_profile(ProfileEvent::Searched { present })];
    loop {
        let event = match actions[actions.len() - 1] {
            ProfileAction::Clear => ProfileEvent::Cleared,
            ProfileAction::Copy => ProfileEvent::Copied { success },
            ProfileAction::DeleteLocks => ProfileEvent::Unlocked,
            ProfileAction::Ready | ProfileAction::GiveUp => return actions,
        };
        actions.push(copy_user_profile(event));
    }
}

#[test]
fn profile_copy_is_fresh_and_unlocked() {
    assert_eq!(
        profile_actions(true, true),
        vec![
            ProfileAction::Clear,
            ProfileAction::Copy,
            ProfileAction::DeleteLocks,
            ProfileAction::Ready,
        ]
    );
    assert_eq!(
        profile_actions(true, false),
        vec![ProfileAction::Clear, ProfileAction::Copy, ProfileAction::GiveUp]
    );
    assert_eq!(profile_actions(false, true), vec![ProfileAction::GiveUp]);
    assert_eq!(lock_files(), vec!["SingletonLock", "SingletonCookie", "SingletonSocket"]);
}

#[test]
fn pending_titles_are_given_up_after_thirty_looks() {
    for looks in 0..29 {
        assert_eq!(look_at_title(looks, Some("Just a moment...")), LookAction::Sleep(1));
    }
    assert_eq!(look_at_title(29, Some("Just a moment...")), LookAction::GiveUp);
    assert_eq!(look_at_title(29, None), LookAction::GiveUp);
}

fn launches(events: Vec<ConnectEvent>) -> usize {
    let mut state = ConnectState::Asking;
    let mut launches = 0;
    for event in events {
        let (next, action) = connect(state, event);
        state = next;
        match action {
            ConnectAction::Launch => launches += 1,
            ConnectAction::Connect(_) | ConnectAction::Kill | ConnectAction::GiveUp => break,
            _ => (),
        }
    }
    launches
}

#[test]
fn chromium_is_launched_once_where_it_does_not_run() {
    assert_eq!(
        launches(vec![
            ConnectEvent::Queried(None),
            ConnectEvent::Checked(false),
            ConnectEvent::Launched(true),
            ConnectEvent::Queried(None),
            ConnectEvent::Slept,
            ConnectEvent::Queried(Some("ws://x".to_string())),
        ]),
        1
    );
    assert_eq!(launches(vec![ConnectEvent::Queried(None), ConnectEvent::Checked(true)]), 0);
    assert_eq!(launches(vec![ConnectEvent::Queried(Some("ws://x".to_string()))]), 0);
}

fn visit(url: &str, events: Vec<VisitEvent>) -> (Vec<&'static str>, Option<String>) {
    let mut state = VisitState::Connecting;
    let mut names = Vec::new();
    for event in events {
        let (next, action) = visit_page(url, state, event);
        state = next;
        names.push(match action {
            VisitAction::Connect => "connect",
            VisitAction::Open => "open",
            VisitAction::Navigate => "navigate",
            VisitAction::Sleep(1) => "sleep",
            VisitAction::Sleep(3) => "settle",
            VisitAction::Sleep(_) => panic!(),
            VisitAction::Read => "read",
            VisitAction::Close => "close",
            VisitAction::Finish(html) => return (names, html),
        });
    }
    panic!()
}

fn contents(html: &str) -> VisitEvent {
    VisitEvent::Contents(Some(html.to_string()))
}

#[test]
fn opened_tab_is_closed_once() {
    let opened = || {
        vec![VisitEvent::Connected(true), VisitEvent::Opened(true), VisitEvent::Navigated(true)]
    };
    let (actions, html) = visit("x", vec![VisitEvent::Connected(false)]);
    assert!(actions.is_empty());
    assert_eq!(html, None);
    let (actions, html) = visit("x", vec![VisitEvent::Connected(true), VisitEvent::Opened(false)]);
    assert_eq!(actions, vec!["open"]);
    assert_eq!(html, None);
    let (actions, html) = visit(
        "x",
        vec![
            VisitEvent::Connected(true),
            VisitEvent::Opened(true),
            VisitEvent::Navigated(false),
            VisitEvent::Closed,
        ],
    );
    assert_eq!(actions, vec!["open", "navigate", "close"]);
    assert_eq!(html, None);

    let mut events = opened();
    events.extend([
        VisitEvent::Slept,
        contents("just a sec"),
        VisitEvent::Slept,
        contents("dl-album"),
        VisitEvent::Slept,
        contents("dl-album again"),
        VisitEvent::Closed,
    ]);
    let (actions, html) = visit("https://x/album/1", events);
    assert_eq!(
        actions,
        vec![
            "open", "navigate", "sleep", "read", "sleep", "read", "settle", "read", "close",
        ]
    );
    assert_eq!(html.as_deref(), Some("dl-album again"));

    let mut events = opened();
    events.extend([
        VisitEvent::Slept,
        contents("dl-album"),
        VisitEvent::Slept,
        VisitEvent::Contents(None),
        VisitEvent::Closed,
    ]);
    assert_eq!(visit("https://x/album/1", events).1.as_deref(), Some("dl-album"));
}

#[test]
fn visit_gives_up_on_a_lasting_challenge() {
    let mut events =
        vec![VisitEvent::Connected(true), VisitEvent::Opened(true), VisitEvent::Navigated(true)];
    for _ in 0..21 {
        events.extend([VisitEvent::Slept, contents("challenge-platform")]);
    }
    events.push(VisitEvent::Closed);
    let (actions, html) = visit("x", events);
    assert_eq!(actions.iter().filter(|action| **action == "close").count(), 1);
    assert_eq!(actions[actions.len() - 1], "close");
    assert_eq!(html, None);
}

#[test]
fn visit_takes_the_last_reading_as_it_is() {
    let mut events =
        vec![VisitEvent::Connected(true), VisitEvent::Opened(true), VisitEvent::Navigated(true)];
    for _ in 0..30 {
        events.extend([VisitEvent::Slept, contents("loading")]);
    }
    events.extend([contents("last"), VisitEvent::Closed]);
    let (actions, html) = visit("x", events);
    assert_eq!(actions.iter().filter(|action| **action == "close").count(), 1);
    assert_eq!(html.as_deref(), Some("last"));
}

fn pass(events: Vec<BypassEvent>) -> Vec<BypassAction> {
    let mut state = BypassState::Configuring;
    let mut actions = Vec::new();
    for event in events {
        let (next, action) = pass_challenge(state, event);
        state = next;
        actions.push(action);
        if matches!(action, BypassAction::Build | BypassAction::GiveUp) {
            return actions;
        }
    }
    panic!()
}

#[test]
fn copied_profile_is_removed_once() {
    let removed = vec![BypassAction::RemoveProfile, BypassAction::GiveUp];
    assert_eq!(pass(vec![BypassEvent::Configured(false)]), vec![BypassAction::GiveUp]);
    for failure in 0..5 {
        let mut events = vec![BypassEvent::Configured(true)];
        events.push(BypassEvent::Launched(failure != 0));
        if failure > 0 {
            events.push(BypassEvent::Opened(failure != 1));
        }
        if failure > 1 {
            events.push(BypassEvent::Navigated(failure != 2));
        }
        if failure > 2 {
            events.push(BypassEvent::BodyShown(failure != 3));
        }
        if failure > 3 {
            events.push(BypassEvent::Slept);
            events.push(BypassEvent::Titled(Some("502 Bad Gateway".to_string())));
        }
        events.push(BypassEvent::Removed);
        let actions = pass(events);
        assert_eq!(actions[actions.len() - 2..], removed);
        let removals =
            actions.iter().filter(|action| **action == BypassAction::RemoveProfile).count();
        assert_eq!(removals, 1);
    }
    let loaded = |harvested: bool| {
        pass(vec![
            BypassEvent::Configured(true),
            BypassEvent::Launched(true),
            BypassEvent::Opened(true),
            BypassEvent::Navigated(true),
            BypassEvent::BodyShown(true),
            BypassEvent::Slept,
            BypassEvent::Titled(None),
            BypassEvent::Slept,
            BypassEvent::Titled(Some("Lucida".to_string())),
            BypassEvent::Harvested(harvested),
            BypassEvent::Removed,
        ])
    };
    assert_eq!(
        loaded(true),
        vec![
            BypassAction::Launch,
            BypassAction::Open,
            BypassAction::Navigate,
            BypassAction::AwaitBody,
            BypassAction::Sleep(1),
            BypassAction::ReadTitle,
            BypassAction::Sleep(1),
            BypassAction::ReadTitle,
            BypassAction::Harvest,
            BypassAction::RemoveProfile,
            BypassAction::Build,
        ]
    );
    assert_eq!(loaded(false)[9..], removed);
}

#[test]
fn holders_get_the_last_fresh_client() {
    let mut shared = SharedClient::new(1);
    let handed = shared.get();
    assert!(shared.refresh(Some(2)));
    assert!(!shared.refresh(None));
    assert_eq!(shared.get(), 2);
    assert_eq!(handed, 1);
}
