use emporium_monitor::js_url::{bundle_url, extract_script_urls, format_script_url, pick_script_url};
use emporium_monitor::listing::{first_word_of, parse_listing, ListingError};

#[test]
fn picks_the_index_bundle() {
    let urls = vec!["./vendor.js".to_string(), "./assets/index-abc.js".to_string(), "./assets/index-def.js".to_string()];
    assert_eq!(pick_script_url(urls), Some("./assets/index-abc.js".to_string()));
    assert_eq!(pick_script_url(vec!["/assets/index-x.js".to_string()]), None);
}

#[test]
fn formats_script_url_against_base() {
    assert_eq!(format_script_url("./assets/index-a.js", "https://shop.example"), "https://shop.example/assets/index-a.js");
    assert_eq!(format_script_url("././x.js", "https://b"), "https://b/x.js");
    assert_eq!(format_script_url("x.js", "https://b"), "https://b/x.js");
}

#[test]
fn reads_script_urls_from_page() {
    let html = "<html><head><script src=\"./a.js\"></script><script>inline()</script><script src=\"./assets/index-Q1.js\"></script></head><body></body></html>";
    assert_eq!(extract_script_urls(html), vec!["./a.js".to_string(), "./assets/index-Q1.js".to_string()]);
    assert_eq!(bundle_url(html, "https://shop.example"), Some("https://shop.example/assets/index-Q1.js".to_string()));
    assert_eq!(bundle_url("<html></html>", "https://shop.example"), None);
}

fn card(img: &str, title: &str, desc: &str, price: &str) -> String {
    format!("<div><img src=\"{img}\"><h3>{title}</h3><p>{desc}</p><div><span>{price}</span></div></div>")
}

fn page(cards: &[String]) -> String {
    format!("<html><body><div><div><main><div><ul>{}</ul></div></main></div></div></body></html>", cards.concat())
}

#[test]
fn listing_page_yields_rewards() {
    let html = page(&[card("https://img.example/a.png", "Stickers", "A pack", "3 tokens"), card("https://img.example/b.png", "Mug", "", "12")]);
    let rewards = parse_listing(&html).unwrap();
    assert_eq!(rewards.len(), 2);
    assert_eq!(rewards[0].title, "Stickers");
    assert_eq!(rewards[0].description, "A pack");
    assert_eq!(rewards[0].tokens, 3);
    assert_eq!(rewards[0].image_url, "https://img.example/a.png");
    assert_eq!(rewards[1].tokens, 12);
}

#[test]
fn listing_card_failures_are_reported() {
    let bad_price = page(&[card("https://img.example/a.png", "T", "D", "many tokens")]);
    assert_eq!(parse_listing(&bad_price), Err(ListingError::PriceInvalid));
    let bad_url = page(&[card("not a url", "T", "D", "1")]);
    assert_eq!(parse_listing(&bad_url), Err(ListingError::ImageUrlInvalid));
    let no_title = page(&["<div><img src=\"https://i/x\"><p>D</p><div><span>1</span></div></div>".to_string()]);
    assert_eq!(parse_listing(&no_title), Err(ListingError::TitleMissing));
    let no_image = page(&["<div><h3>T</h3><p>D</p><div><span>1</span></div></div>".to_string()]);
    assert_eq!(parse_listing(&no_image), Err(ListingError::ImageMissing));
    assert_eq!(parse_listing("<html></html>").unwrap().len(), 0);
}

#[test]
fn first_word_stops_at_space() {
    assert_eq!(first_word_of("12 tokens"), "12");
    assert_eq!(first_word_of("12"), "12");
    assert_eq!(first_word_of(" 12"), "");
}
