use lucida_downloader::albums::{extract_albums_from_artist_page, extract_albums_from_html};

const PAGE: &str = "<html>\n<a href=\"/?url=https%3A%2F%2Fwww.qobuz.com/album/one\">1</a><a href=\"/?url=x/album/two\">2</a>\r\n<a href=\"https://www.qobuz.com/album/three\">3</a>\n<a href=\"/?url=x/album/two\">again</a>\n<a href=\"/about\">about</a>\n<a href=\"https://example.org/album/four\">4</a>\n</html>\n";

#[test]
fn html_albums_come_once_and_in_page_order() {
    assert_eq!(
        extract_albums_from_html(PAGE),
        vec![
            "https://lucida.to/?url=https%3A%2F%2Fwww.qobuz.com/album/one",
            "https://lucida.to/?url=x/album/two",
            "https://www.qobuz.com/album/three",
        ]
    );
}

#[test]
fn artist_page_albums_are_the_resolver_ones() {
    assert_eq!(
        extract_albums_from_artist_page(Some(200), Some(PAGE)),
        vec![
            "https://lucida.to/?url=https%3A%2F%2Fwww.qobuz.com/album/one",
            "https://lucida.to/?url=x/album/two",
        ]
    );
}

#[test]
fn artist_page_albums_are_a_selection_of_the_html_ones() {
    let selected: Vec<String> = extract_albums_from_html(PAGE)
        .into_iter()
        .filter(|url| url.starts_with("https://lucida.to/?url="))
        .collect();
    assert_eq!(extract_albums_from_artist_page(Some(200), Some(PAGE)), selected);
}

#[test]
fn artist_page_without_a_good_reply_has_no_albums() {
    assert!(extract_albums_from_artist_page(None, None).is_empty());
    assert!(extract_albums_from_artist_page(Some(200), None).is_empty());
    assert!(extract_albums_from_artist_page(Some(404), Some(PAGE)).is_empty());
}

#[test]
fn page_without_album_text_has_no_albums() {
    assert!(extract_albums_from_html("<a href=\"/?url=x\">x</a>").is_empty());
    assert!(extract_albums_from_html("").is_empty());
}

#[test]
fn attribute_does_not_run_over_the_end_of_a_line() {
    assert!(extract_albums_from_html("href=\"/?url=x\n/album/y\"").is_empty());
}

#[test]
fn unclosed_attribute_ends_the_line_only() {
    assert_eq!(
        extract_albums_from_html("href=\"/?url=a/album/1\nhref=\"/?url=b/album/2\""),
        vec!["https://lucida.to/?url=b/album/2"]
    );
}

#[test]
fn search_goes_on_from_the_closing_quote() {
    assert_eq!(
        extract_albums_from_html("href=\"\"href=\"/?url=a/album/1\"href=\"/?url=b/album/2\""),
        vec!["https://lucida.to/?url=a/album/1", "https://lucida.to/?url=b/album/2"]
    );
}

#[test]
fn hrefs_may_hold_any_characters() {
    assert_eq!(
        extract_albums_from_html("\u{e9}\u{1f3b5} href=\"/?url=\u{e9}/album/\u{1f3b5}\""),
        vec!["https://lucida.to/?url=\u{e9}/album/\u{1f3b5}"]
    );
}

#[test]
fn no_album_is_listed_twice() {
    let albums = extract_albums_from_html(PAGE);
    for (i, album) in albums.iter().enumerate() {
        assert!(album.contains("/album/"));
        assert!(!albums[i + 1..].contains(album));
    }
}

#[test]
fn encoded_album_links_of_an_artist_page_are_kept() {
    let page = "<a href=\"/?url=https%3A%2F%2Fwww.qobuz.com%2Fus-en%2Falbum%2Fx%2F1\">x</a>";
    assert_eq!(
        extract_albums_from_artist_page(Some(200), Some(page)),
        vec!["https://lucida.to/?url=https%3A%2F%2Fwww.qobuz.com%2Fus-en%2Falbum%2Fx%2F1"]
    );
    assert!(extract_albums_from_html(page).is_empty());
}

#[test]
fn encoded_and_plain_album_links_keep_the_page_order() {
    let page = "<a href=\"/?url=a%2Falbum%2F1\">1</a><a href=\"/?url=b/album/2\">2</a>\n\
                <a href=\"/?url=a%2Falbum%2F1\">1</a><a href=\"/?url=c%2Fartist%2F3\">3</a>\n\
                <a href=\"https://www.qobuz.com/x%2Falbum%2F4\">4</a>\n";
    assert_eq!(
        extract_albums_from_artist_page(Some(200), Some(page)),
        vec!["https://lucida.to/?url=a%2Falbum%2F1", "https://lucida.to/?url=b/album/2"]
    );
    assert_eq!(extract_albums_from_html(page), vec!["https://lucida.to/?url=b/album/2"]);
}
