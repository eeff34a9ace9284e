//! What the HTTP clients send, and where their cookies come from.
use crate::browser_cookies::{
    chromium_user_agent, detection, dotted_word, printed_cookie, printed_user_agent,
    printed_version,
};
use crate::browser_pool::{
    cookie_client_fields, cookie_header, is_page_left, law_cookie_header_separates_the_cookies,
    page_script_text, refreshed, script_harvest, separated, PAGE_PATH,
};
use crate::bypass::{bypass_client_fields, cookie_texts, Cookie};
use crate::clients::{browser_fields, can_be_given, can_carry, direct_fields, TIMEOUT_SECONDS};
use crate::headers::is_header_text;
use crate::json::{document, text_items, text_member, Json};
use crate::laws::text::{
    is_blank, law_mentioned_text_stands_in_between, law_trimming_drops_white_space_alone, law_trimming_leaves_the_middle,
};
use crate::provisioning::{
    below, cache_path, environment_path, install_arguments, install_step, interpreter_path,
    python_command, venv_arguments, InstallAction, InstallStep, Package,
};
use crate::text::{begins, is_white_space, mentions, trim, words};
use vstd::prelude::*;
use vstd::utf8::encode_utf8;

verus! {

/// The names of the headers are different texts.
proof fn lemma_names_differ()
    ensures
        "accept"@.len() == 6 && "accept"@[0] == 'a',
        "cookie"@.len() == 6 && "cookie"@[0] == 'c',
        "accept-language"@.len() == 15,
        "referer"@.len() == 7,
        "sec-ch-ua"@.len() == 9,
        "sec-ch-ua-mobile"@.len() == 16,
        "sec-ch-ua-platform"@.len() == 18,
        "sec-fetch-dest"@.len() == 14 && "sec-fetch-dest"@[10] == 'd',
        "sec-fetch-mode"@.len() == 14 && "sec-fetch-mode"@[10] == 'm',
        "sec-fetch-site"@.len() == 14 && "sec-fetch-site"@[10] == 's',
        "sec-fetch-user"@.len() == 14 && "sec-fetch-user"@[10] == 'u',
        "upgrade-insecure-requests"@.len() == 25,
        "user-agent"@.len() == 10,
{
    reveal_strlit("accept");
    reveal_strlit("accept-language");
    reveal_strlit("cookie");
    reveal_strlit("referer");
    reveal_strlit("sec-ch-ua");
    reveal_strlit("sec-ch-ua-mobile");
    reveal_strlit("sec-ch-ua-platform");
    reveal_strlit("sec-fetch-dest");
    reveal_strlit("sec-fetch-mode");
    reveal_strlit("sec-fetch-site");
    reveal_strlit("sec-fetch-user");
    reveal_strlit("upgrade-insecure-requests");
    reveal_strlit("user-agent");
}

/// A client with a browser's cookies sends the browser's User-Agent and
/// cookies, comes from the site, asks for a page in English, and sends nothing
/// else.
pub proof fn law_browser_client_sends_five_headers(
    user_agent: Seq<char>,
    cookies: Seq<char>,
    name: Seq<char>,
)
    ensures
        ({
            let sent = browser_fields(user_agent, cookies);
            &&& sent["user-agent"@] == encode_utf8(user_agent)
            &&& sent["cookie"@] == encode_utf8(cookies)
            &&& sent["referer"@] == encode_utf8("https://lucida.to/"@)
            &&& sent["accept"@] == encode_utf8(
                "text/html,application/xhtml+xml,application/xml;q=0.9,image/avif,image/webp,*/*;q=0.8"@,
            )
            &&& sent["accept-language"@] == encode_utf8("en-US,en;q=0.9"@)
            &&& sent.contains_key(name) <==> name == "user-agent"@ || name == "cookie"@ || name
                == "referer"@ || name == "accept"@ || name == "accept-language"@
        }),
        TIMEOUT_SECONDS == 30,
{
    lemma_names_differ();
}

/// A client with harvested cookies sends all of them, with a semicolon and a
/// space between every two, and the User-Agent of their browser.
pub proof fn law_harvested_cookies_are_sent(cookies: Seq<Seq<char>>, user_agent: Seq<char>)
    requires
        cookies.len() > 0 ==> cookies[0].len() > 0,
    ensures
        cookie_client_fields(cookies, user_agent)["cookie"@] == encode_utf8(separated(cookies)),
        cookie_client_fields(cookies, user_agent)["user-agent"@] == encode_utf8(user_agent),
        cookie_client_fields(cookies, user_agent).dom() == browser_fields(
            user_agent,
            Seq::empty(),
        ).dom(),
{
    law_cookie_header_separates_the_cookies(cookies);
    law_browser_client_sends_five_headers(user_agent, separated(cookies), Seq::empty());
    assert(cookie_client_fields(cookies, user_agent).dom() =~= browser_fields(
        user_agent,
        Seq::empty(),
    ).dom());
}

/// Empty cookies that come first leave no trace in the header.
pub proof fn law_leading_empty_cookie_leaves_no_trace(cookies: Seq<Seq<char>>)
    ensures
        cookie_header(seq![Seq::<char>::empty()] + cookies) == cookie_header(cookies),
    decreases cookies.len(),
{
    let all = seq![Seq::<char>::empty()] + cookies;
    if cookies.len() == 0 {
        assert(all =~= seq![Seq::<char>::empty()]);
        assert(all.drop_last() =~= cookies);
        assert(cookie_header(all) =~= cookie_header(cookies));
    } else {
        law_leading_empty_cookie_leaves_no_trace(cookies.drop_last());
        assert(all.drop_last() =~= seq![Seq::<char>::empty()] + cookies.drop_last());
        assert(all.last() == cookies.last());
    }
}

/// The client made past the challenge sends the headless browser's cookies by
/// name and value, and its User-Agent.
pub proof fn law_bypass_client_sends_the_browsers_cookies(cookies: Seq<Cookie>, agent: Seq<char>)
    ensures
        ({
            let sent = bypass_client_fields(cookies, Some(Json::Text(agent)));
            let pairs = Seq::new(
                cookies.len(),
                |i: int| cookies[i].name@ + "="@ + cookies[i].value@,
            );
            &&& sent["cookie"@] == encode_utf8(separated(pairs))
            &&& sent["user-agent"@] == encode_utf8(agent)
        }),
{
    let pairs = Seq::new(cookies.len(), |i: int| cookies[i].name@ + "="@ + cookies[i].value@);
    reveal_strlit("=");
    assert(cookie_texts(cookies) =~= pairs);
    law_harvested_cookies_are_sent(pairs, agent);
}

/// Whether no byte of a text is a control character other than the tab.
pub open spec fn is_printable(text: Seq<char>) -> bool {
    forall|i: int|
        0 <= i < encode_utf8(text).len() ==> {
            let b = #[trigger] encode_utf8(text)[i];
            b == 9 || (b > 31 && b != 127)
        }
}

/// A client is made exactly if what it is to send holds no control characters,
/// however long or short; without a clearance cookie it always is.
pub proof fn law_client_is_made_of_printable_texts(
    user_agent: Seq<char>,
    cookies: Seq<char>,
    clearance: Seq<char>,
)
    ensures
        can_carry(user_agent, cookies) <==> is_printable(user_agent) && is_printable(cookies),
        can_be_given(Some(clearance)) <==> is_printable("cf_clearance="@ + clearance),
        can_be_given(None),
{
    lemma_printable(user_agent);
    lemma_printable(cookies);
    lemma_printable("cf_clearance="@ + clearance);
}

proof fn lemma_printable(text: Seq<char>)
    ensures
        is_header_text(text) <==> is_printable(text),
{
    if is_header_text(text) {
        assert forall|i: int| 0 <= i < encode_utf8(text).len() implies ({
            let b = #[trigger] encode_utf8(text)[i];
            b == 9 || (b > 31 && b != 127)
        }) by {
            let b = encode_utf8(text)[i];
            assert((b >= 32 && b != 127) || b == 9);
        }
    }
    if is_printable(text) {
        assert forall|i: int| 0 <= i < encode_utf8(text).len() implies ({
            let b = #[trigger] encode_utf8(text)[i];
            (b >= 32 && b != 127) || b == 9
        }) by {
            let b = encode_utf8(text)[i];
            assert(b == 9 || (b > 31 && b != 127));
        }
    }
}

/// Without a clearance cookie a client adds no headers.
pub proof fn law_client_without_cookie_adds_nothing(user_agent: Option<Seq<char>>, name: Seq<char>)
    ensures
        !direct_fields(None, user_agent).contains_key(name),
{
}

/// With a clearance cookie a client sends it, and asks as a browser does that
/// comes from the site.
pub proof fn law_client_with_cookie_asks_as_a_browser(
    cookie: Seq<char>,
    user_agent: Option<Seq<char>>,
)
    ensures
        ({
            let sent = direct_fields(Some(cookie), user_agent);
            &&& sent.contains_key("cookie"@) && sent["cookie"@] == encode_utf8(
                "cf_clearance="@ + cookie,
            )
            &&& sent.contains_key("accept"@) && sent["accept"@] == encode_utf8(
                "text/html,application/xhtml+xml,application/xml;q=0.9,image/avif,image/webp,image/apng,*/*;q=0.8,application/signed-exchange;v=b3;q=0.7"@,
            )
            &&& sent.contains_key("accept-language"@) && sent["accept-language"@] == encode_utf8(
                "en-US,en;q=0.9"@,
            )
            &&& sent.contains_key("upgrade-insecure-requests"@)
                && sent["upgrade-insecure-requests"@] == encode_utf8("1"@)
            &&& sent.contains_key("referer"@) && sent["referer"@] == encode_utf8(
                "https://lucida.to/"@,
            )
        }),
{
    lemma_names_differ();
}

/// Beside a clearance cookie, a client whose User-Agent mentions Chrome or
/// Chromium also sends what Chromium adds to a navigation; no other client
/// does, and nothing more is sent.
pub proof fn law_chromium_adds_its_own_headers(
    cookie: Seq<char>,
    user_agent: Option<Seq<char>>,
    name: Seq<char>,
)
    ensures
        ({
            let sent = direct_fields(Some(cookie), user_agent);
            let chromium = user_agent is Some && (mentions(user_agent->0, "Chrome"@) || mentions(
                user_agent->0,
                "Chromium"@,
            ));
            let usual = name == "cookie"@ || name == "accept"@ || name == "accept-language"@
                || name == "upgrade-insecure-requests"@ || name == "referer"@;
            let added = name == "sec-ch-ua"@ || name == "sec-ch-ua-mobile"@ || name
                == "sec-ch-ua-platform"@ || name == "sec-fetch-dest"@ || name == "sec-fetch-mode"@
                || name == "sec-fetch-site"@ || name == "sec-fetch-user"@;
            &&& sent.contains_key(name) <==> usual || (chromium && added)
            &&& chromium ==> sent["sec-ch-ua"@] == encode_utf8(
                "\"Chromium\";v=\"149\", \"Not)A;Brand\";v=\"24\""@,
            ) && sent["sec-ch-ua-mobile"@] == encode_utf8("?0"@) && sent["sec-ch-ua-platform"@]
                == encode_utf8("\"Linux\""@) && sent["sec-fetch-dest"@] == encode_utf8("document"@)
                && sent["sec-fetch-mode"@] == encode_utf8("navigate"@) && sent["sec-fetch-site"@]
                == encode_utf8("same-origin"@) && sent["sec-fetch-user"@] == encode_utf8("?1"@)
        }),
{
    lemma_names_differ();
}

/// The cookie is what the helper script prints between white space, unless that
/// is nothing or begins with an error.
pub proof fn law_printed_cookie_stands_between_white_space(
    left: Seq<char>,
    cookie: Seq<char>,
    right: Seq<char>,
)
    requires
        is_blank(left),
        is_blank(right),
        cookie.len() > 0,
        !is_white_space(cookie[0]),
        !is_white_space(cookie.last()),
    ensures
        begins(cookie, "ERROR"@) ==> printed_cookie(left + cookie + right) is None,
        !begins(cookie, "ERROR"@) ==> printed_cookie(left + cookie + right) == Some(cookie),
        printed_cookie(left) is None,
{
    law_trimming_leaves_the_middle(left, cookie, right);
    law_trimming_drops_white_space_alone(left);
}

/// A word mentions a dot exactly if it holds one.
proof fn lemma_dot(word: Seq<char>)
    ensures
        mentions(word, "."@) <==> word.contains('.'),
{
    reveal_strlit(".");
    assert("."@ =~= seq!['.']);
    law_mentioned_text_stands_in_between(word, "."@);
    if word.contains('.') {
        let k = choose|k: int| 0 <= k < word.len() && word[k] == '.';
        assert(word =~= word.take(k) + "."@ + word.skip(k + 1));
    }
    if mentions(word, "."@) {
        let i = choose|i: int| crate::text::occurs_at(word, "."@, i);
        assert(word.subrange(i, i + 1)[0] == word[i]);
    }
}

proof fn lemma_dotted_word(list: Seq<Seq<char>>, n: int)
    requires
        0 <= n <= list.len(),
        forall|i: int| 0 <= i < n ==> !(#[trigger] list[i]).contains('.'),
        n < list.len() ==> list[n].contains('.'),
    ensures
        dotted_word(list) == if n < list.len() {
            Some(list[n])
        } else {
            None
        },
    decreases list.len(),
{
    if list.len() > 0 {
        lemma_dot(list[0]);
        if n > 0 {
            assert(!list[0].contains('.'));
            let rest = list.skip(1);
            assert forall|i: int| 0 <= i < n - 1 implies !(#[trigger] rest[i]).contains('.') by {
                assert(rest[i] == list[i + 1]);
            }
            lemma_dotted_word(rest, n - 1);
        }
    }
}

/// A browser's version is the first word with a dot that it prints or, without
/// one, the second word; of fewer words there is no version.
pub proof fn law_version_is_the_first_dotted_word(stdout: Seq<char>, n: int)
    requires
        0 <= n <= words(stdout).len(),
        forall|i: int| 0 <= i < n ==> !(#[trigger] words(stdout)[i]).contains('.'),
        n < words(stdout).len() ==> words(stdout)[n].contains('.'),
    ensures
        n < words(stdout).len() ==> printed_version(stdout) == Some(words(stdout)[n]),
        n == words(stdout).len() && n >= 2 ==> printed_version(stdout) == Some(words(stdout)[1]),
        n == words(stdout).len() && n < 2 ==> printed_version(stdout) is None,
{
    lemma_dotted_word(words(stdout), n);
}

/// The User-Agent is Chromium's on Linux, of the version that was printed.
pub proof fn law_user_agent_names_the_version(stdout: Seq<char>, version: Seq<char>)
    ensures
        chromium_user_agent(version)
            == "Mozilla/5.0 (X11; Linux x86_64) AppleWebKit/537.36 (KHTML, like Gecko) Chrome/"@
            + version + " Safari/537.36"@,
        printed_version(stdout) == Some(version) ==> printed_user_agent(stdout) == Some(
            "Mozilla/5.0 (X11; Linux x86_64) AppleWebKit/537.36 (KHTML, like Gecko) Chrome/"@
                + version + " Safari/537.36"@,
        ),
        printed_version(stdout) is None ==> printed_user_agent(stdout) is None,
{
}

/// Credentials are found exactly if a cookie and a version were printed.
pub proof fn law_detection_needs_both(stdout: Seq<char>, version: Option<Seq<char>>)
    ensures
        detection(stdout, version) is Some <==> printed_cookie(stdout) is Some && version is Some
            && printed_version(version->0) is Some,
        detection(stdout, version) matches Some(found) ==> Some(found.0) == printed_cookie(stdout)
            && Some(found.1) == printed_user_agent(version->0),
{
}

/// The text of a member is there exactly if the value is an object with a
/// string of that name.
pub proof fn law_text_member_is_a_string(members: Map<Seq<char>, Json>, name: Seq<char>)
    ensures
        members.contains_key(name) && members[name] is Text ==> text_member(
            Json::Object(members),
            name,
        ) == Some(members[name]->Text_0),
        !(members.contains_key(name) && members[name] is Text) ==> text_member(
            Json::Object(members),
            name,
        ) is None,
{
}

/// Of the items of an array the strings count, in order.
pub proof fn law_text_items_are_the_strings(items: Seq<Json>, item: Json)
    ensures
        text_items(Seq::<Json>::empty()).len() == 0,
        item is Text ==> text_items(items.push(item)) == text_items(items).push(item->Text_0),
        !(item is Text) ==> text_items(items.push(item)) == text_items(items),
{
    assert(items.push(item).drop_last() =~= items);
}

/// A harvest needs a script that ended well and printed, between white space, a
/// document with a list of cookies and a User-Agent; it is those two.
pub proof fn law_harvest_is_what_the_script_printed(
    stdout: Seq<char>,
    members: Map<Seq<char>, Json>,
    items: Seq<Json>,
    agent: Seq<char>,
)
    requires
        document(trim(stdout)) == Some(Json::Object(members)),
    ensures
        script_harvest(false, stdout) is None,
        members.contains_key("cookies"@) && members["cookies"@] == Json::Array(items)
            && members.contains_key("user_agent"@) && members["user_agent"@] == Json::Text(agent)
            ==> script_harvest(true, stdout) == Some((text_items(items), agent)),
        !members.contains_key("cookies"@) || !(members["cookies"@] is Array) ==> script_harvest(
            true,
            stdout,
        ) is None,
        !members.contains_key("user_agent"@) || !(members["user_agent"@] is Text)
            ==> script_harvest(true, stdout) is None,
{
}

/// What is no document, and a document that is no object, gives no harvest.
pub proof fn law_other_output_gives_no_harvest(success: bool, stdout: Seq<char>)
    requires
        !(document(trim(stdout)) is Some && document(trim(stdout))->0 is Object),
    ensures
        script_harvest(success, stdout) is None,
{
}

/// The script opens the given address, waits, and writes the page to the given
/// path.
pub proof fn law_page_script_opens_the_address(url: Seq<char>, path: Seq<char>)
    ensures
        page_script_text(url, path)
            == "import sys, json\nfrom playwright.sync_api import sync_playwright\n\nwith sync_playwright() as p:\n    try:\n        browser = p.chromium.connect_over_cdp(\"http://127.0.0.1:9222\")\n        context = browser.contexts[0] if browser.contexts else browser.new_context()\n        page = context.new_page()\n        page.goto("@
            + url
            + ", wait_until=\"domcontentloaded\", timeout=60000)\n        page.wait_for_timeout(15000)\n        html = page.content()\n        with open("@
            + path
            + ", \"w\") as f:\n            f.write(html)\n        browser.close()\n    except Exception as e:\n        print(f\"ERROR: {e}\", file=sys.stderr)\n        sys.exit(1)\nprint(\"OK\")\n"@,
        PAGE_PATH@ == "/tmp/lucida_browser_page.html"@,
{
}

/// The page is there exactly if the script ended well and said so.
pub proof fn law_page_is_there_once_the_script_says_so(success: bool, stdout: Seq<char>)
    ensures
        is_page_left(success, stdout) ==> success,
        success ==> (is_page_left(success, stdout) <==> mentions(stdout, "OK"@)),
{
}

/// A fresh client takes the place of the current one, which else stays.
pub proof fn law_fresh_client_takes_the_place<C>(client: C, fresh: C)
    ensures
        refreshed(client, Some(fresh)) == fresh,
        refreshed(client, None) == client,
{
}

/// An entry stands below its directory behind one slash.
pub proof fn law_entry_stands_behind_one_slash(directory: Seq<char>, entry: Seq<char>)
    ensures
        below(directory.push('/'), entry) == directory.push('/') + entry,
        below(Seq::<char>::empty(), entry) == entry,
        directory.len() > 0 && directory.last() != '/' ==> below(directory, entry)
            == directory.push('/') + entry,
{
    reveal_strlit("/");
    assert("/"@ =~= seq!['/']);
    assert(Seq::<char>::empty() + entry =~= entry);
    assert(directory + "/"@ =~= directory.push('/'));
}

/// Cached files lie where the environment says, else below the home directory,
/// else among the temporary files.
pub proof fn law_cache_lies_where_the_environment_says(
    xdg: Seq<char>,
    home: Seq<char>,
    any: Option<Seq<char>>,
)
    ensures
        cache_path(Some(xdg), any) == xdg,
        cache_path(None, Some(home)) == below(home, ".cache"@),
        cache_path(None, None) == "/tmp"@,
        environment_path(xdg) == below(below(xdg, "lucida-downloader"@), "venv"@),
        interpreter_path(xdg) == below(below(xdg, "bin"@), "python3"@),
        venv_arguments(xdg) == seq!["-m"@, "venv"@, xdg],
{
}

/// The first Python that runs is taken.
pub proof fn law_first_python_is_taken(python_runs: bool)
    ensures
        python_command(true, python_runs) == Some("python3"@),
        python_command(false, true) == Some("python"@),
        python_command(false, false) is None,
{
}

/// A package that can be used is ready. One that cannot is installed, and
/// Playwright then also its browser; a command that fails or cannot be run
/// fails the whole.
pub proof fn law_package_is_installed_where_needed(package: Package, step: InstallStep)
    ensures
        install_step(package, InstallStep::Probe, Some(true)) is Ready,
        install_step(package, InstallStep::Probe, Some(false)) == InstallAction::Run(
            InstallStep::Install,
        ),
        install_step(Package::Playwright, InstallStep::Install, Some(true)) == InstallAction::Run(
            InstallStep::InstallBrowser,
        ),
        install_step(Package::BrowserCookie3, InstallStep::Install, Some(true)) is Ready,
        install_step(package, InstallStep::InstallBrowser, Some(true)) is Ready,
        install_step(package, InstallStep::Install, Some(false)) is Failed,
        install_step(package, InstallStep::InstallBrowser, Some(false)) is Failed,
        install_step(package, step, None) is Failed,
{
}

/// A package is tried by importing it, and installed by its name without much
/// ado; Playwright installs Chromium.
pub proof fn law_package_is_installed_by_name(package: Package)
    ensures
        ({
            let name = if package is Playwright {
                "playwright"@
            } else {
                "browser_cookie3"@
            };
            &&& install_arguments(package, InstallStep::Probe) == seq!["-c"@, "import "@ + name]
            &&& install_arguments(package, InstallStep::Install) == seq![
                "-m"@,
                "pip"@,
                "install"@,
                "--quiet"@,
                name,
            ]
        }),
        install_arguments(Package::Playwright, InstallStep::InstallBrowser) == seq![
            "-m"@,
            "playwright"@,
            "install"@,
            "chromium"@,
        ],
{
}

} // verus!
