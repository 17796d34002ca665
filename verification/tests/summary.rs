use generic_api_client::attempt::ConnectionAttemptInfo;
use generic_api_client::text::{append_decimal, contains, lowercase_chars, prefix_within};
use generic_api_client::WebSocketMessage;

fn summary(message: WebSocketMessage) -> String {
    ConnectionAttemptInfo::summarize_message(&message)
}

fn text_summary(text: &str) -> String {
    summary(WebSocketMessage::Text(text.to_string()))
}

#[test]
fn a_short_text_is_shown_whole() {
    assert_eq!(text_summary("{\"op\":\"subscribe\"}"), "Text({\"op\":\"subscribe\"})");
    assert_eq!(text_summary(""), "Text()");
}

#[test]
fn a_text_of_the_limit_is_shown_whole() {
    let text = "a".repeat(256);
    assert_eq!(text_summary(&text), format!("Text({text})"));
}

#[test]
fn a_longer_text_is_cut() {
    let text = "a".repeat(257);
    assert_eq!(text_summary(&text), format!("Text({}…)", "a".repeat(256)));
}

#[test]
fn a_text_is_cut_between_characters() {
    // the character that crosses the limit is left out
    let text = format!("{}é{}", "a".repeat(255), "b".repeat(10));
    assert_eq!(text_summary(&text), format!("Text({}…)", "a".repeat(255)));
    let text = format!("{}😀", "a".repeat(253));
    assert_eq!(text_summary(&text), format!("Text({}…)", "a".repeat(253)));
    // one that ends right at the limit is shown
    let text = format!("{}é{}", "a".repeat(254), "b".repeat(10));
    assert_eq!(text_summary(&text), format!("Text({}é…)", "a".repeat(254)));
    let text = format!("{}😀", "a".repeat(252));
    assert_eq!(text_summary(&text), format!("Text({text})"));
}

#[test]
fn every_sensitive_word_hides_the_text() {
    for word in [
        "api_key", "apikey", "api-secret", "apisecret", "secret", "signature", "passphrase", "token",
    ] {
        let text = format!("x{word}y");
        assert_eq!(text_summary(&text), format!("Text(len={}, redacted=true)", text.len()));
    }
}

#[test]
fn sensitive_words_are_found_in_any_case() {
    assert_eq!(text_summary("ToKeN"), "Text(len=5, redacted=true)");
    assert_eq!(text_summary("{\"API_KEY\":\"k\"}"), "Text(len=15, redacted=true)");
}

#[test]
fn only_ascii_letters_are_put_in_lower_case() {
    // U+212A KELVIN SIGN is no ASCII letter
    assert_eq!(text_summary("to\u{212A}en"), "Text(to\u{212A}en)");
}

#[test]
fn the_length_of_a_hidden_text_is_in_bytes() {
    assert_eq!(text_summary("éétoken"), "Text(len=9, redacted=true)");
}

#[test]
fn a_sensitive_word_behind_the_limit_hides_the_text_too() {
    let text = format!("{}token", "a".repeat(1000));
    assert_eq!(text_summary(&text), "Text(len=1005, redacted=true)");
}

#[test]
fn hidden_texts_of_one_length_have_one_summary() {
    assert_eq!(text_summary("token=abc"), text_summary("secret=de"));
}

#[test]
fn of_other_messages_only_the_length_is_shown() {
    assert_eq!(summary(WebSocketMessage::Binary(vec![])), "Binary(len=0)");
    assert_eq!(summary(WebSocketMessage::Binary(vec![7; 1234])), "Binary(len=1234)");
    assert_eq!(summary(WebSocketMessage::Ping(vec![1, 2])), "Ping(len=2)");
    assert_eq!(summary(WebSocketMessage::Pong(vec![0; 10])), "Pong(len=10)");
}

#[test]
fn numbers_are_written_in_decimal() {
    for number in [0, 9, 10, 99, 100, 65535, usize::MAX] {
        let mut text = String::from("n=");
        append_decimal(&mut text, number);
        assert_eq!(text, format!("n={number}"));
    }
}

#[test]
fn text_is_found_at_either_end_and_between() {
    let text = lowercase_chars("ABCabd");
    assert_eq!(text, vec!['a', 'b', 'c', 'a', 'b', 'd']);
    assert!(contains(&text, "abc"));
    assert!(contains(&text, "abd"));
    assert!(contains(&text, "ca"));
    assert!(contains(&text, ""));
    assert!(!contains(&text, "abe"));
    assert!(!contains(&text, "abcabda"));
}

#[test]
fn a_prefix_holds_as_many_whole_characters_as_fit() {
    assert_eq!(prefix_within("aé😀", 0), "");
    assert_eq!(prefix_within("aé😀", 1), "a");
    assert_eq!(prefix_within("aé😀", 2), "a");
    assert_eq!(prefix_within("aé😀", 3), "aé");
    assert_eq!(prefix_within("aé😀", 6), "aé");
    assert_eq!(prefix_within("aé😀", 7), "aé😀");
    assert_eq!(prefix_within("aé😀", 100), "aé😀");
}
