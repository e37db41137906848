use chat_overlay::text::split_tokens;

#[test]
fn tokens_are_the_runs_between_whitespace() {
    assert_eq!(split_tokens("gg PogChamp gg"), vec!["gg", "PogChamp", "gg"]);
}

#[test]
fn any_amount_of_whitespace_separates() {
    assert_eq!(split_tokens("  a   b \t c\n\nd\r\n"), vec!["a", "b", "c", "d"]);
}

#[test]
fn unicode_whitespace_separates() {
    assert_eq!(split_tokens("a\u{a0}b\u{2003}c\u{3000}d"), vec!["a", "b", "c", "d"]);
}

#[test]
fn an_empty_message_has_no_tokens() {
    assert!(split_tokens("").is_empty());
    assert!(split_tokens(" \t\n ").is_empty());
}

#[test]
fn a_message_without_whitespace_is_one_token() {
    assert_eq!(split_tokens("hello"), vec!["hello"]);
}

#[test]
fn tokens_keep_their_characters() {
    assert_eq!(split_tokens("héllo wörld ✨ ok"), vec!["héllo", "wörld", "✨", "ok"]);
}

#[test]
fn tokens_agree_with_the_standard_split() {
    let messages = [
        "the quick  brown\tfox",
        " leading and trailing ",
        "x",
        "tabs\tand\u{b}vertical\u{c}feeds",
        "zero\u{200b}width is no space",
        "line\u{2028}separator\u{2029}paragraph\u{85}next",
    ];
    for message in messages {
        let expected: Vec<String> = message.split_whitespace().map(String::from).collect();
        assert_eq!(split_tokens(message), expected);
    }
}
