use leadswarm_native::{extract_html_metadata, fast_cache_key};
use xxhash_rust::xxh3::xxh3_64;

#[test]
fn cache_key_is_the_hex_digest_of_the_lowered_parts() {
    let expected = format!("{:016x}", xxh3_64("pizza|berlin".as_bytes()));
    assert_eq!(fast_cache_key("pizza", "berlin"), expected);
}

#[test]
fn cache_key_lowercases_both_parts() {
    assert_eq!(fast_cache_key("PIZZA", "Berlin"), fast_cache_key("pizza", "berlin"));
    let expected = format!("{:016x}", xxh3_64("plumber near me|new york, ny".as_bytes()));
    assert_eq!(fast_cache_key("Plumber Near Me", "New York, NY"), expected);
}

#[test]
fn cache_key_is_sixteen_hex_digits() {
    let key = fast_cache_key("a", "b");
    assert_eq!(key.len(), 16);
    assert!(key.chars().all(|c| c.is_ascii_hexdigit() && !c.is_ascii_uppercase()));
}

#[test]
fn empty_html_yields_nothing() {
    let m = extract_html_metadata("");
    assert_eq!(m.title, None);
    assert_eq!(m.meta_description, None);
    assert!(m.social_links.is_empty());
}

#[test]
fn title_and_description_are_extracted() {
    let html = "<html><head><title>  Acme Cafe  </title>\
                <meta name='description' content='Best coffee in town'>\
                </head><body></body></html>";
    let m = extract_html_metadata(html);
    assert_eq!(m.title, Some("Acme Cafe".to_string()));
    assert_eq!(m.meta_description, Some("Best coffee in town".to_string()));
}

#[test]
fn blank_title_and_empty_description_are_dropped() {
    let html = "<html><head><title>   </title>\
                <meta name='description' content=''>\
                </head><body></body></html>";
    let m = extract_html_metadata(html);
    assert_eq!(m.title, None);
    assert_eq!(m.meta_description, None);
}

#[test]
fn social_links_are_filtered_and_deduplicated_in_order() {
    let html = "<html><body>\
                <a href='https://example.com/about'>about</a>\
                <a href='https://facebook.com/acme'>fb</a>\
                <a href='https://www.instagram.com/acme'>ig</a>\
                <a href='https://facebook.com/acme'>fb again</a>\
                <a href='https://tiktok.com/@acme'>tt</a>\
                </body></html>";
    let m = extract_html_metadata(html);
    assert_eq!(
        m.social_links,
        vec![
            "https://facebook.com/acme".to_string(),
            "https://www.instagram.com/acme".to_string(),
            "https://tiktok.com/@acme".to_string(),
        ]
    );
}

#[test]
fn non_social_links_are_ignored() {
    let html = "<html><body><a href='https://example.com'>x</a>\
                <a href='https://linkedin.com/company/acme'>li</a></body></html>";
    let m = extract_html_metadata(html);
    assert_eq!(m.social_links, vec!["https://linkedin.com/company/acme".to_string()]);
}

#[test]
fn unicode_titles_are_trimmed_like_std() {
    let html = "<html><head><title>\u{2009} Chez Café \u{00a0}</title></head><body></body></html>";
    let m = extract_html_metadata(html);
    assert_eq!(m.title, Some("Chez Café".to_string()));
}
