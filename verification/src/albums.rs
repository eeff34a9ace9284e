//! Album links in the HTML of an artist page.
use crate::text::{
    begins, chars_of, contains, find, lemma_find_from, lines, mentions, occurs_at, search,
    same_text, starts_with, string_of, texts, without_return,
};
use crate::clients::option_text;
use vstd::prelude::*;
use vstd::slice::slice_subrange;

verus! {

/// Which album links are kept.
#[derive(Clone, Copy)]
pub enum LinkRule {
    /// Links through the site's own resolver to an album, whose address may be
    /// percent-encoded.
    Resolver,
    /// Links that name an album in plain text, through the resolver or straight
    /// to Qobuz.
    ResolverOrQobuz,
}

/// The values of the `href` attributes in a line, in order. A value begins
/// after `href="` and ends before the next quote; the search for the next
/// attribute goes on from that quote.
pub open spec fn hrefs(line: Seq<char>) -> Seq<Seq<char>>
    decreases line.len(),
{
    proof {
        lemma_find_from(line, "href=\""@, 0);
        reveal_strlit("href=\"");
        if let Some(start) = find(line, "href=\""@) {
            lemma_find_from(line.skip(start + 6), seq!['"'], 0);
        }
    }
    match find(line, "href=\""@) {
        None => Seq::empty(),
        Some(start) => {
            let value = line.skip(start + 6);
            match find(value, seq!['"']) {
                None => Seq::empty(),
                Some(end) => seq![value.take(end)] + hrefs(value.skip(end)),
            }
        },
    }
}

/// The `href` values of all the given lines, in order.
pub open spec fn hrefs_of_lines(lines: Seq<Seq<char>>) -> Seq<Seq<char>>
    decreases lines.len(),
{
    if lines.len() == 0 {
        Seq::empty()
    } else {
        hrefs(lines[0]) + hrefs_of_lines(lines.skip(1))
    }
}

/// The `href` values of a page, in order.
pub open spec fn links(html: Seq<char>) -> Seq<Seq<char>> {
    hrefs_of_lines(lines(html))
}

/// Whether a text names an album. In a link through the resolver, the album's
/// own address is a parameter, so its slashes may be percent-encoded.
pub open spec fn names_album(rule: LinkRule, text: Seq<char>) -> bool {
    mentions(text, "/album/"@) || (rule is Resolver && mentions(text, "%2Falbum%2F"@))
}

/// The album URL that a link stands for, if the rule keeps it.
pub open spec fn album_url(rule: LinkRule, href: Seq<char>) -> Option<Seq<char>> {
    if !names_album(rule, href) {
        None
    } else if begins(href, "/?url="@) {
        Some("https://lucida.to"@ + href)
    } else if rule is ResolverOrQobuz && begins(href, "https://www.qobuz.com/"@) {
        Some(href)
    } else {
        None
    }
}

/// The album URLs among the given links, in order.
pub open spec fn album_urls(rule: LinkRule, links: Seq<Seq<char>>) -> Seq<Seq<char>>
    decreases links.len(),
{
    if links.len() == 0 {
        Seq::empty()
    } else {
        let front = album_urls(rule, links.drop_last());
        match album_url(rule, links.last()) {
            Some(url) => front.push(url),
            None => front,
        }
    }
}

/// A sequence with only the first of several equal items kept.
pub open spec fn unique(items: Seq<Seq<char>>) -> Seq<Seq<char>>
    decreases items.len(),
{
    if items.len() == 0 {
        Seq::empty()
    } else {
        let front = unique(items.drop_last());
        if front.contains(items.last()) {
            front
        } else {
            front.push(items.last())
        }
    }
}

/// The albums that a page links to, each at the place of its first link.
pub open spec fn albums(rule: LinkRule, html: Seq<char>) -> Seq<Seq<char>> {
    unique(album_urls(rule, links(html)))
}

/// A part of a part of a text is a part of the text.
proof fn lemma_part(text: Seq<char>, from: int, to: int, part: Seq<char>)
    requires
        0 <= from <= to <= text.len(),
        mentions(text.subrange(from, to), part),
    ensures
        mentions(text, part),
{
    let i = choose|i: int| occurs_at(text.subrange(from, to), part, i);
    assert(text.subrange(from, to).subrange(i, i + part.len()) =~= text.subrange(
        from + i,
        from + i + part.len(),
    ));
    assert(occurs_at(text, part, from + i));
}

/// What stands in a link of a line stands in the line.
proof fn lemma_href_part(line: Seq<char>, k: int, part: Seq<char>)
    requires
        0 <= k < hrefs(line).len(),
        mentions(hrefs(line)[k], part),
    ensures
        mentions(line, part),
    decreases line.len(),
{
    reveal_strlit("href=\"");
    lemma_find_from(line, "href=\""@, 0);
    let start = find(line, "href=\""@).unwrap();
    let value = line.skip(start + 6);
    lemma_find_from(value, seq!['"'], 0);
    let end = find(value, seq!['"']).unwrap();
    if k == 0 {
        assert(value.take(end) =~= line.subrange(start + 6, start + 6 + end));
        lemma_part(line, start + 6, start + 6 + end, part);
    } else {
        lemma_href_part(value.skip(end), k - 1, part);
        assert(value.skip(end) =~= line.subrange(start + 6 + end, line.len() as int));
        lemma_part(line, start + 6 + end, line.len() as int, part);
    }
}

/// What stands in a link of a page stands in the page.
proof fn lemma_link_part(html: Seq<char>, k: int, part: Seq<char>)
    requires
        0 <= k < links(html).len(),
        mentions(links(html)[k], part),
    ensures
        mentions(html, part),
    decreases html.len(),
{
    lemma_find_from(html, seq!['\n'], 0);
    match find(html, seq!['\n']) {
        None => {
            if html.len() > 0 {
                assert(lines(html) == seq![html]);
                assert(lines(html).skip(1) =~= Seq::<Seq<char>>::empty());
                assert(hrefs_of_lines(lines(html).skip(1)) =~= Seq::<Seq<char>>::empty());
                assert(links(html) =~= hrefs(html));
            }
            lemma_href_part(html, k, part);
        },
        Some(n) => {
            let line = without_return(html.take(n));
            let rest = html.skip(n + 1);
            assert(lines(html)[0] == line);
            assert(lines(html).skip(1) =~= lines(rest));
            assert(links(html) == hrefs(line) + links(rest));
            if k < hrefs(line).len() {
                lemma_href_part(line, k, part);
                assert(line =~= html.subrange(0, line.len() as int));
                lemma_part(html, 0, line.len() as int, part);
            } else {
                lemma_link_part(rest, k - hrefs(line).len(), part);
                assert(rest =~= html.subrange(n + 1, html.len() as int));
                lemma_part(html, n + 1, html.len() as int, part);
            }
        },
    }
}

/// Under the resolver's rule a link is kept exactly if it leads through the
/// resolver and names an album, in plain text or percent-encoded; its album URL
/// is then the link behind the site's address.
pub proof fn law_resolver_links_to_albums_are_kept(href: Seq<char>)
    ensures
        album_url(LinkRule::Resolver, href) == if begins(href, "/?url="@) && (mentions(
            href,
            "/album/"@,
        ) || mentions(href, "%2Falbum%2F"@)) {
            Some("https://lucida.to"@ + href)
        } else {
            None
        },
{
}

/// Links that all lead elsewhere give no album URL.
proof fn lemma_no_album_urls(rule: LinkRule, links: Seq<Seq<char>>)
    requires
        forall|k: int| 0 <= k < links.len() ==> !names_album(rule, #[trigger] links[k]),
    ensures
        album_urls(rule, links).len() == 0,
    decreases links.len(),
{
    if links.len() > 0 {
        lemma_no_album_urls(rule, links.drop_last());
    }
}

/// A page that names no album links to none.
pub proof fn law_no_album_text_no_albums(rule: LinkRule, html: Seq<char>)
    requires
        !names_album(rule, html),
    ensures
        albums(rule, html).len() == 0,
{
    assert forall|k: int| 0 <= k < links(html).len() implies !names_album(
        rule,
        #[trigger] links(html)[k],
    ) by {
        if mentions(links(html)[k], "/album/"@) {
            lemma_link_part(html, k, "/album/"@);
        }
        if mentions(links(html)[k], "%2Falbum%2F"@) {
            lemma_link_part(html, k, "%2Falbum%2F"@);
        }
    }
    lemma_no_album_urls(rule, links(html));
}

/// `unique` keeps the same items, without repeats.
pub proof fn lemma_unique(items: Seq<Seq<char>>)
    ensures
        unique(items).no_duplicates(),
        forall|x: Seq<char>| #[trigger] unique(items).contains(x) <==> items.contains(x),
    decreases items.len(),
{
    if items.len() > 0 {
        let front = items.drop_last();
        lemma_unique(front);
        assert(items =~= front.push(items.last()));
        assert forall|x: Seq<char>| #[trigger] unique(items).contains(x) <==> items.contains(x) by {
            lemma_push_contains(front, items.last(), x);
            lemma_push_contains(unique(front), items.last(), x);
        }
    }
}

/// What a sequence holds once an item is pushed.
proof fn lemma_push_contains(items: Seq<Seq<char>>, last: Seq<char>, x: Seq<char>)
    ensures
        items.push(last).contains(x) <==> items.contains(x) || x == last,
{
    if items.contains(x) {
        let i = choose|i: int| 0 <= i < items.len() && items[i] == x;
        assert(items.push(last)[i] == x);
    }
    assert(items.push(last)[items.len() as int] == last);
    if items.push(last).contains(x) && x != last {
        let i = choose|i: int| 0 <= i < items.len() + 1 && items.push(last)[i] == x;
        assert(items[i] == x);
    }
}

/// The album URLs of a sequence of links are those that its links stand for.
pub proof fn lemma_album_urls(rule: LinkRule, links: Seq<Seq<char>>, url: Seq<char>)
    ensures
        album_urls(rule, links).contains(url) <==> exists|k: int|
            0 <= k < links.len() && album_url(rule, #[trigger] links[k]) == Some(url),
    decreases links.len(),
{
    if links.len() > 0 {
        let front = links.drop_last();
        lemma_album_urls(rule, front, url);
        assert(links[links.len() - 1] == links.last());
        if let Some(last) = album_url(rule, links.last()) {
            lemma_push_contains(album_urls(rule, front), last, url);
        }
        if album_urls(rule, front).contains(url) {
            let k = choose|k: int|
                0 <= k < front.len() && album_url(rule, #[trigger] front[k]) == Some(url);
            assert(links[k] == front[k]);
        }
        if exists|k: int|
            0 <= k < links.len() && album_url(rule, #[trigger] links[k]) == Some(url) {
            let k = choose|k: int|
                0 <= k < links.len() && album_url(rule, #[trigger] links[k]) == Some(url);
            if k < front.len() {
                assert(front[k] == links[k]);
            }
        }
    }
}

/// The albums of a page are exactly the album URLs that its links stand for,
/// and none is listed twice.
pub proof fn law_albums_are_the_linked_ones(rule: LinkRule, html: Seq<char>, url: Seq<char>)
    ensures
        albums(rule, html).no_duplicates(),
        albums(rule, html).contains(url) <==> exists|k: int|
            0 <= k < links(html).len() && album_url(rule, #[trigger] links(html)[k]) == Some(url),
{
    lemma_unique(album_urls(rule, links(html)));
    lemma_album_urls(rule, links(html), url);
}

/// Every album of a page is an absolute URL that names an album: one of the
/// site's resolver or, where the rule allows, one of Qobuz.
pub proof fn law_albums_are_absolute(rule: LinkRule, html: Seq<char>, url: Seq<char>)
    requires
        albums(rule, html).contains(url),
    ensures
        names_album(rule, url),
        begins(url, "https://lucida.to/?url="@) || (rule is ResolverOrQobuz && begins(
            url,
            "https://www.qobuz.com/"@,
        )),
{
    law_albums_are_the_linked_ones(rule, html, url);
    let k = choose|k: int|
        0 <= k < links(html).len() && album_url(rule, #[trigger] links(html)[k]) == Some(url);
    lemma_album_url(rule, links(html)[k]);
}

/// The album URL of a link names an album, and its beginning tells whether it
/// came through the resolver.
proof fn lemma_album_url(rule: LinkRule, href: Seq<char>)
    ensures
        album_url(rule, href) matches Some(url) ==> {
            &&& names_album(rule, url)
            &&& begins(url, "https://lucida.to/?url="@) <==> begins(href, "/?url="@)
            &&& begins(href, "/?url="@) || (rule is ResolverOrQobuz && begins(
                url,
                "https://www.qobuz.com/"@,
            ))
        },
{
    if let Some(url) = album_url(rule, href) {
        reveal_strlit("https://lucida.to");
        reveal_strlit("https://lucida.to/?url=");
        reveal_strlit("https://www.qobuz.com/");
        reveal_strlit("/?url=");
        if begins(href, "/?url="@) {
            let site = "https://lucida.to"@;
            assert(url == site + href);
            assert(url.subrange(site.len() as int, url.len() as int) =~= href);
            if mentions(href, "/album/"@) {
                lemma_part(url, site.len() as int, url.len() as int, "/album/"@);
            } else {
                lemma_part(url, site.len() as int, url.len() as int, "%2Falbum%2F"@);
            }
            assert forall|i: int| 0 <= i < 6 implies href[i] == "/?url="@[i] by {
                assert(href.subrange(0, 6)[i] == href[i]);
            }
            assert(url.subrange(0, 23) =~= "https://lucida.to/?url="@);
        } else {
            let qobuz = "https://www.qobuz.com/"@;
            assert(url.subrange(0, qobuz.len() as int)[8] == url[8]);
            if begins(url, "https://lucida.to/?url="@) {
                assert(url.subrange(0, 23)[8] == url[8]);
            }
        }
    }
}

/// Whether a link leads through the resolver to an album whose address is
/// percent-encoded throughout.
pub open spec fn is_encoded(href: Seq<char>) -> bool {
    &&& begins(href, "/?url="@)
    &&& mentions(href, "%2Falbum%2F"@)
    &&& !mentions(href, "/album/"@)
}

/// Where no link hides its album behind an encoded address, the resolver's
/// albums of a page are, in the same order, those among the albums under the
/// wider rule that begin with the resolver's address.
pub proof fn law_resolver_albums_are_a_selection(html: Seq<char>)
    requires
        forall|k: int| 0 <= k < links(html).len() ==> !is_encoded(#[trigger] links(html)[k]),
    ensures
        albums(LinkRule::Resolver, html) == albums(LinkRule::ResolverOrQobuz, html).filter(
            |url: Seq<char>| begins(url, "https://lucida.to/?url="@),
        ),
{
    lemma_selection(links(html));
}

proof fn lemma_selection(links: Seq<Seq<char>>)
    requires
        forall|k: int| 0 <= k < links.len() ==> !is_encoded(#[trigger] links[k]),
    ensures
        unique(album_urls(LinkRule::Resolver, links)) == unique(
            album_urls(LinkRule::ResolverOrQobuz, links),
        ).filter(|url: Seq<char>| begins(url, "https://lucida.to/?url="@)),
    decreases links.len(),
{
    reveal(Seq::filter);
    let resolved = |url: Seq<char>| begins(url, "https://lucida.to/?url="@);
    if links.len() > 0 {
        let front = links.drop_last();
        let href = links.last();
        assert(!is_encoded(links[links.len() - 1]));
        lemma_selection(front);
        lemma_album_url(LinkRule::ResolverOrQobuz, href);
        let some = album_urls(LinkRule::Resolver, front);
        let all = album_urls(LinkRule::ResolverOrQobuz, front);
        if let Some(url) = album_url(LinkRule::ResolverOrQobuz, href) {
            assert(all.push(url).drop_last() =~= all);
            assert(some.push(url).drop_last() =~= some);
            assert(unique(all).push(url).drop_last() =~= unique(all));
            if resolved(url) {
                lemma_filter_contains(unique(all), resolved, url);
            }
        }
    }
}

/// An item that the predicate accepts is in the filtered sequence exactly if
/// it is in the sequence.
proof fn lemma_filter_contains(items: Seq<Seq<char>>, keep: spec_fn(Seq<char>) -> bool, x: Seq<char>)
    requires
        keep(x),
    ensures
        items.filter(keep).contains(x) <==> items.contains(x),
    decreases items.len(),
{
    reveal(Seq::filter);
    if items.len() > 0 {
        let front = items.drop_last();
        lemma_filter_contains(front, keep, x);
        assert(items =~= front.push(items.last()));
        lemma_push_contains(front, items.last(), x);
        lemma_push_contains(front.filter(keep), items.last(), x);
    }
}

/// Whether the list holds the text.
fn lists(items: &Vec<String>, text: &str) -> (r: bool)
    ensures
        r == texts(items@).contains(text@),
{
    let mut i: usize = 0;
    while i < items.len()
        invariant
            i <= items.len(),
            forall|j: int| 0 <= j < i ==> texts(items@)[j] != text@,
        decreases items.len() - i,
    {
        if same_text(items[i].as_str(), text) {
            assert(texts(items@)[i as int] == text@);
            return true;
        }
        i += 1;
    }
    false
}

/// Whether a text names an album.
fn check_album(rule: LinkRule, text: &str) -> (r: bool)
    ensures
        r == names_album(rule, text@),
{
    contains(text, "/album/") || match rule {
        LinkRule::Resolver => contains(text, "%2Falbum%2F"),
        LinkRule::ResolverOrQobuz => false,
    }
}

/// The album URL that a link stands for, if the rule keeps it.
fn keep_link(rule: LinkRule, href: &[char]) -> (r: Option<String>)
    ensures
        match r {
            Some(url) => album_url(rule, href@) == Some(url@),
            None => album_url(rule, href@) is None,
        },
{
    let href: String = string_of(href);
    if !check_album(rule, href.as_str()) {
        return None;
    }
    if starts_with(href.as_str(), "/?url=") {
        return Some("https://lucida.to".to_owned().concat(href.as_str()));
    }
    match rule {
        LinkRule::ResolverOrQobuz => {
            if starts_with(href.as_str(), "https://www.qobuz.com/") {
                Some(href)
            } else {
                None
            }
        },
        LinkRule::Resolver => None,
    }
}

/// Adds the albums that a line links to, after those of the links in `seen`.
fn add_line(rule: LinkRule, line: &[char], found: &mut Vec<String>, seen: Ghost<Seq<Seq<char>>>)
    requires
        texts(old(found)@) == unique(album_urls(rule, seen@)),
    ensures
        texts(final(found)@) == unique(album_urls(rule, seen@ + hrefs(line@))),
{
    let attribute: Vec<char> = chars_of("href=\"");
    let quote: Vec<char> = vec!['"'];
    let mut rest: &[char] = line;
    let ghost mut done: Seq<Seq<char>> = Seq::empty();
    proof {
        reveal_strlit("href=\"");
        assert(quote@ =~= seq!['"']);
        assert(seen@ + done =~= seen@);
        assert(done + hrefs(rest@) =~= hrefs(line@));
    }
    loop
        invariant
            attribute@ == "href=\""@,
            attribute@.len() == 6,
            quote@ == seq!['"'],
            texts(found@) == unique(album_urls(rule, seen@ + done)),
            done + hrefs(rest@) == hrefs(line@),
        decreases rest@.len(),
    {
        proof {
            lemma_find_from(rest@, "href=\""@, 0);
        }
        let start: usize = match search(rest, attribute.as_slice()) {
            Some(start) => start,
            None => {
                assert(done + hrefs(rest@) =~= done);
                return;
            },
        };
        let size: usize = rest.len();
        let value: &[char] = slice_subrange(rest, start + 6, size);
        assert(value@ =~= rest@.skip(start + 6));
        proof {
            lemma_find_from(value@, seq!['"'], 0);
        }
        let end: usize = match search(value, quote.as_slice()) {
            Some(end) => end,
            None => {
                assert(done + hrefs(rest@) =~= done);
                return;
            },
        };
        let href: &[char] = slice_subrange(value, 0, end);
        assert(href@ =~= value@.take(end as int));
        let next: &[char] = slice_subrange(value, end, value.len());
        assert(next@ =~= value@.skip(end as int));
        let ghost before = seen@ + done;
        assert(before.push(href@).drop_last() =~= before);
        let ghost urls = album_urls(rule, before);
        let kept: Option<String> = keep_link(rule, href);
        if let Some(url) = kept {
            assert(urls.push(url@).drop_last() =~= urls);
            if !lists(found, url.as_str()) {
                let ghost listed = found@;
                found.push(url);
                assert(texts(found@) =~= texts(listed).push(url@));
            }
        }
        proof {
            assert(done + (seq![href@] + hrefs(next@)) =~= done.push(href@) + hrefs(next@));
            done = done.push(href@);
            assert(seen@ + done =~= before.push(href@));
        }
        rest = next;
    }
}

/// The albums that a page links to.
fn scan_page(rule: LinkRule, html: &str) -> (r: Vec<String>)
    ensures
        texts(r@) == albums(rule, html@),
{
    let mut found: Vec<String> = Vec::new();
    if !check_album(rule, html) {
        proof {
            law_no_album_text_no_albums(rule, html@);
        }
        assert(texts(found@) =~= albums(rule, html@));
        return found;
    }
    let chars: Vec<char> = chars_of(html);
    let newline: Vec<char> = vec!['\n'];
    let mut rest: &[char] = chars.as_slice();
    let ghost mut seen: Seq<Seq<char>> = Seq::empty();
    proof {
        assert(newline@ =~= seq!['\n']);
        assert(seen + links(html@) =~= links(html@));
        assert(texts(found@) =~= unique(album_urls(rule, seen)));
    }
    while rest.len() > 0
        invariant
            newline@ == seq!['\n'],
            texts(found@) == unique(album_urls(rule, seen)),
            seen + links(rest@) == links(html@),
        decreases rest@.len(),
    {
        proof {
            lemma_find_from(rest@, seq!['\n'], 0);
        }
        let end: Option<usize> = search(rest, newline.as_slice());
        let mut line_len: usize = rest.len();
        let mut next_at: usize = rest.len();
        if let Some(n) = end {
            line_len = n;
            next_at = n + 1;
            if n > 0 && rest[n - 1] == '\r' {
                line_len = n - 1;
            }
        }
        let line: &[char] = slice_subrange(rest, 0, line_len);
        let next: &[char] = slice_subrange(rest, next_at, rest.len());
        proof {
            assert(lines(rest@)[0] =~= line@);
            assert(lines(rest@).skip(1) =~= lines(next@));
            assert(links(rest@) == hrefs(line@) + links(next@));
            assert(seen + (hrefs(line@) + links(next@)) =~= (seen + hrefs(line@)) + links(next@));
        }
        add_line(rule, line, &mut found, Ghost(seen));
        proof {
            seen = seen + hrefs(line@);
        }
        rest = next;
    }
    assert(seen + links(rest@) =~= seen);
    found
}

/// The albums that the rendered HTML of an artist page links to: through the
/// site's resolver or straight to Qobuz, each once, in page order.
pub fn extract_albums_from_html(html: &str) -> (r: Vec<String>)
    ensures
        texts(r@) == albums(LinkRule::ResolverOrQobuz, html@),
{
    scan_page(LinkRule::ResolverOrQobuz, html)
}

/// The albums of an artist page, from the reply to a request for it.
pub open spec fn artist_page_albums(status: Option<u16>, html: Option<Seq<char>>) -> Seq<
    Seq<char>,
> {
    match (status, html) {
        (Some(200), Some(html)) => albums(LinkRule::Resolver, html),
        _ => Seq::empty(),
    }
}

/// The albums that an artist page links to through the site's resolver, each
/// once, in page order. Such links typically hold the album's address
/// percent-encoded: `/?url=https%3A%2F%2Fwww.qobuz.com%2F...%2Falbum%2F...`. `status` is the status of the reply, if one came, and
/// `html` its body, if it could be read; without a good reply there are none.
pub fn extract_albums_from_artist_page(status: Option<u16>, html: Option<&str>) -> (r: Vec<String>)
    ensures
        texts(r@) == if status == Some(200u16) && html is Some {
            albums(LinkRule::Resolver, html->0@)
        } else {
            Seq::empty()
        },
        texts(r@) == artist_page_albums(status, option_text(html)),
{
    if let (Some(200), Some(html)) = (status, html) {
        scan_page(LinkRule::Resolver, html)
    } else {
        let none: Vec<String> = Vec::new();
        assert(texts(none@) =~= Seq::<Seq<char>>::empty());
        none
    }
}

} // verus!
