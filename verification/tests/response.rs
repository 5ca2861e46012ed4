use xiv_quote::response::display_text;
use xiv_quote::response::fallback_text;
use xiv_quote::response::LoreResponse;

const FALLBACK: &str = "Have you heard of the critically acclaimed MMORPG Final Fantasy XIV? With an expanded free trial which you can play through the entirety of A Realm Reborn and the award-winning Heavensward expansion up to level 60 for free with no restrictions on playtime.";

#[test]
fn empty_reply_shows_fallback_sentence() {
    let r = LoreResponse { results_total: 0, texts: vec![] };
    assert_eq!(display_text(&r), FALLBACK);
    assert_eq!(fallback_text(), FALLBACK);
}

#[test]
fn reply_with_text_shows_first_entry() {
    let r = LoreResponse {
        results_total: 500,
        texts: vec![String::from("Hear... Feel... Think..."), String::from("unused")],
    };
    assert_eq!(display_text(&r), "Hear... Feel... Think...");
}

#[test]
fn single_entry_is_shown_verbatim() {
    let r = LoreResponse { results_total: 1, texts: vec![String::from(" spaced \u{e0} text ")] };
    assert_eq!(display_text(&r), " spaced \u{e0} text ");
}
