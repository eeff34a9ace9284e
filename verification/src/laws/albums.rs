//! Which albums an artist page lists.
use crate::albums::{
    album_url, album_urls, albums, artist_page_albums, hrefs, hrefs_of_lines, lemma_album_urls,
    lemma_unique, links, unique, LinkRule,
};
use crate::laws::text::{law_lines_are_what_newlines_part, law_search_finds_the_first_place};
use crate::text::{begins, find, lemma_find_from, lines, mentions, without_return};
use vstd::prelude::*;

verus! {

/// A link through the resolver is no link to Qobuz.
proof fn lemma_beginnings_differ(href: Seq<char>)
    ensures
        !(begins(href, "/?url="@) && begins(href, "https://www.qobuz.com/"@)),
{
    reveal_strlit("/?url=");
    reveal_strlit("https://www.qobuz.com/");
    if begins(href, "/?url="@) && begins(href, "https://www.qobuz.com/"@) {
        assert(href.subrange(0, 6)[0] == href[0]);
        assert(href.subrange(0, 22)[0] == href[0]);
    }
}

/// In rendered HTML a link is kept exactly if it mentions `/album/` and begins
/// with the resolver's path, which the site's address is put before, or with
/// Qobuz's address, which stays as it is.
pub proof fn law_rendered_links_to_albums_are_kept(href: Seq<char>)
    ensures
        mentions(href, "/album/"@) && begins(href, "/?url="@) ==> album_url(
            LinkRule::ResolverOrQobuz,
            href,
        ) == Some("https://lucida.to"@ + href),
        mentions(href, "/album/"@) && begins(href, "https://www.qobuz.com/"@) ==> album_url(
            LinkRule::ResolverOrQobuz,
            href,
        ) == Some(href),
        album_url(LinkRule::ResolverOrQobuz, href) is Some ==> mentions(href, "/album/"@) && (
        begins(href, "/?url="@) || begins(href, "https://www.qobuz.com/"@)),
{
    lemma_beginnings_differ(href);
}

/// Rendered HTML lists an address exactly if it links to an album there:
/// through the resolver, behind the site's address, or straight to Qobuz. None
/// is listed twice.
pub proof fn law_rendered_page_lists_its_albums(html: Seq<char>, url: Seq<char>)
    ensures
        albums(LinkRule::ResolverOrQobuz, html).contains(url) <==> exists|k: int|
            0 <= k < links(html).len() && mentions(#[trigger] links(html)[k], "/album/"@) && ((
            begins(links(html)[k], "/?url="@) && url == "https://lucida.to"@ + links(html)[k]) || (
            begins(links(html)[k], "https://www.qobuz.com/"@) && url == links(html)[k])),
        albums(LinkRule::ResolverOrQobuz, html).no_duplicates(),
{
    let rule = LinkRule::ResolverOrQobuz;
    lemma_unique(album_urls(rule, links(html)));
    lemma_album_urls(rule, links(html), url);
    if albums(rule, html).contains(url) {
        let k = choose|k: int|
            0 <= k < links(html).len() && album_url(rule, #[trigger] links(html)[k]) == Some(url);
        law_rendered_links_to_albums_are_kept(links(html)[k]);
    }
    assert forall|k: int|
        0 <= k < links(html).len() && mentions(#[trigger] links(html)[k], "/album/"@) && ((begins(
            links(html)[k],
            "/?url="@,
        ) && url == "https://lucida.to"@ + links(html)[k]) || (begins(
            links(html)[k],
            "https://www.qobuz.com/"@,
        ) && url == links(html)[k])) implies albums(rule, html).contains(url) by {
        law_rendered_links_to_albums_are_kept(links(html)[k]);
        assert(album_url(rule, links(html)[k]) == Some(url));
    }
}

/// A fetched artist page lists an address exactly if it is the site's, followed
/// by a link through the resolver that names an album, with plain or with
/// percent-encoded slashes. None is listed twice. Without a reply of status 200
/// and a body, nothing is listed.
pub proof fn law_artist_page_lists_its_albums(
    status: Option<u16>,
    body: Option<Seq<char>>,
    html: Seq<char>,
    url: Seq<char>,
)
    ensures
        artist_page_albums(Some(200u16), Some(html)).contains(url) <==> exists|k: int|
            0 <= k < links(html).len() && begins(#[trigger] links(html)[k], "/?url="@) && (
            mentions(links(html)[k], "/album/"@) || mentions(links(html)[k], "%2Falbum%2F"@))
                && url == "https://lucida.to"@ + links(html)[k],
        artist_page_albums(Some(200u16), Some(html)).no_duplicates(),
        status != Some(200u16) || body is None ==> artist_page_albums(status, body).len() == 0,
{
    let rule = LinkRule::Resolver;
    lemma_unique(album_urls(rule, links(html)));
    lemma_album_urls(rule, links(html), url);
    assert forall|k: int|
        0 <= k < links(html).len() && begins(#[trigger] links(html)[k], "/?url="@) && (mentions(
            links(html)[k],
            "/album/"@,
        ) || mentions(links(html)[k], "%2Falbum%2F"@)) && url == "https://lucida.to"@
            + links(html)[k] implies albums(rule, html).contains(url) by {
        assert(album_url(rule, links(html)[k]) == Some(url));
    }
    if albums(rule, html).contains(url) {
        let k = choose|k: int|
            0 <= k < links(html).len() && album_url(rule, #[trigger] links(html)[k]) == Some(url);
        assert(begins(links(html)[k], "/?url="@));
    }
}

/// Albums are listed in the order of the page: of two of them, the earlier one
/// is linked to before any link to the later one.
pub proof fn law_albums_come_in_page_order(rule: LinkRule, html: Seq<char>, p: int, q: int)
    requires
        0 <= p < q < albums(rule, html).len(),
    ensures
        exists|i: int|
            0 <= i < links(html).len() && album_url(rule, #[trigger] links(html)[i]) == Some(
                albums(rule, html)[p],
            ) && no_link_before(rule, links(html), i, albums(rule, html)[q]),
{
    lemma_listed_in_order(rule, links(html), p, q);
}

/// Whether none of the links up to the given one stands for an album.
pub open spec fn no_link_before(
    rule: LinkRule,
    links: Seq<Seq<char>>,
    i: int,
    url: Seq<char>,
) -> bool {
    forall|j: int| 0 <= j <= i ==> album_url(rule, #[trigger] links[j]) != Some(url)
}

proof fn lemma_listed_in_order(rule: LinkRule, links: Seq<Seq<char>>, p: int, q: int)
    requires
        0 <= p < q < unique(album_urls(rule, links)).len(),
    ensures
        exists|i: int|
            0 <= i < links.len() && album_url(rule, #[trigger] links[i]) == Some(
                unique(album_urls(rule, links))[p],
            ) && no_link_before(rule, links, i, unique(album_urls(rule, links))[q]),
    decreases links.len(),
{
    let all = unique(album_urls(rule, links));
    if links.len() == 0 {
        assert(all.len() == 0);
    } else {
        let front = links.drop_last();
        let urls = album_urls(rule, front);
        let listed = unique(urls);
        if let Some(url) = album_url(rule, links.last()) {
            assert(urls.push(url).drop_last() =~= urls);
        }
        lemma_unique(urls);
        if q < listed.len() {
            lemma_listed_in_order(rule, front, p, q);
            let i = choose|i: int|
                0 <= i < front.len() && album_url(rule, #[trigger] front[i]) == Some(listed[p])
                    && no_link_before(rule, front, i, listed[q]);
            assert(links[i] == front[i]);
            assert forall|j: int| 0 <= j <= i implies album_url(rule, #[trigger] links[j]) != Some(
                all[q],
            ) by {
                assert(links[j] == front[j]);
            }
            assert(no_link_before(rule, links, i, all[q]));
        } else {
            let url = all[q];
            assert(!listed.contains(url));
            lemma_album_urls(rule, front, listed[p]);
            lemma_album_urls(rule, front, url);
            assert(listed.contains(listed[p]));
            let i = choose|i: int|
                0 <= i < front.len() && album_url(rule, #[trigger] front[i]) == Some(listed[p]);
            assert(links[i] == front[i]);
            assert forall|j: int| 0 <= j <= i implies album_url(rule, #[trigger] links[j]) != Some(
                url,
            ) by {
                assert(links[j] == front[j]);
            }
            assert(no_link_before(rule, links, i, url));
        }
    }
}

/// The first `href` attribute of a line gives what stands between its quotes;
/// the search goes on from the closing quote. A line without the attribute, or
/// with one that is not closed, gives nothing more.
pub proof fn law_links_are_what_the_quotes_enclose(
    before: Seq<char>,
    value: Seq<char>,
    after: Seq<char>,
)
    requires
        find(before + "href=\""@ + value, "href=\""@) == Some(before.len() as int),
        !value.contains('"'),
    ensures
        hrefs(before + "href=\""@ + value).len() == 0,
        hrefs(before + "href=\""@ + value + (seq!['"'] + after)) == seq![value] + hrefs(
            seq!['"'] + after,
        ),
{
    reveal_strlit("href=\"");
    let attribute = "href=\""@;
    let quote = seq!['"'];
    let open = before + attribute + value;
    let closed = open + (quote + after);
    law_search_finds_the_first_place(open, attribute, before.len() as int);
    law_search_finds_the_first_place(closed, attribute, before.len() as int);
    assert(closed.subrange(before.len() as int, before.len() as int + 6) =~= attribute);
    assert forall|j: int| 0 <= j < before.len() implies #[trigger] closed.subrange(
        j,
        j + attribute.len(),
    ) != attribute by {
        assert(closed.subrange(j, j + 6) =~= open.subrange(j, j + attribute.len()));
    }
    assert(open.skip(before.len() as int + 6) =~= value);
    let rest = closed.skip(before.len() as int + 6);
    assert(rest =~= value + (quote + after));
    law_search_finds_the_first_place(value, quote, 0);
    assert forall|j: int| 0 <= j <= value.len() - quote.len() implies #[trigger] value.subrange(
        j,
        j + quote.len(),
    ) != quote by {
        assert(value.subrange(j, j + 1)[0] == value[j]);
        assert(quote[0] == '"');
    }
    law_search_finds_the_first_place(rest, quote, value.len() as int);
    assert(rest.subrange(value.len() as int, value.len() as int + 1) =~= quote);
    assert forall|j: int| 0 <= j < value.len() implies #[trigger] rest.subrange(
        j,
        j + quote.len(),
    ) != quote by {
        assert(rest.subrange(j, j + 1)[0] == value[j]);
        assert(quote[0] == '"');
    }
    assert(rest.take(value.len() as int) =~= value);
    assert(rest.skip(value.len() as int) =~= quote + after);
}

/// A line that does not mention the attribute gives no link.
pub proof fn law_line_without_attribute_has_no_links(line: Seq<char>)
    requires
        !mentions(line, "href=\""@),
    ensures
        hrefs(line).len() == 0,
{
    lemma_find_from(line, "href=\""@, 0);
}

/// The links of a page are those of its lines, one line after the other.
pub proof fn law_links_are_found_line_by_line(line: Seq<char>, rest: Seq<char>)
    requires
        !line.contains('\n'),
    ensures
        links(line.push('\n') + rest) == hrefs(without_return(line)) + links(rest),
        links(line) == hrefs(line),
{
    law_lines_are_what_newlines_part(line, rest);
    let all = lines(line.push('\n') + rest);
    assert(all.skip(1) =~= lines(rest));
    if line.len() > 0 {
        assert(lines(line).skip(1) =~= Seq::<Seq<char>>::empty());
        assert(hrefs_of_lines(lines(line).skip(1)) =~= Seq::<Seq<char>>::empty());
        assert(links(line) =~= hrefs(line));
    } else {
        reveal_strlit("href=\"");
        assert(!mentions(line, "href=\""@));
        law_line_without_attribute_has_no_links(line);
        assert(links(line) =~= hrefs(line));
    }
}

} // verus!
