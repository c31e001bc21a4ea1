use wkfl::utils::to_title_case;

#[test]
fn test_empty_string() {
    assert_eq!(to_title_case(""), "");
}

#[test]
fn test_basic_capitalization() {
    assert_eq!(to_title_case("hello world"), "Hello World");
}

#[test]
fn test_preserve_subsequent_capitalization() {
    assert_eq!(to_title_case("MacBook Pro"), "MacBook Pro");
    assert_eq!(to_title_case("iPhone and iPad"), "iPhone and iPad");
}

#[test]
fn test_articles_and_prepositions() {
    assert_eq!(
        to_title_case("the quick brown fox jumps over the lazy dog"),
        "The Quick Brown Fox Jumps Over the Lazy Dog"
    );
}

#[test]
fn test_preserve_whitespace() {
    assert_eq!(
        to_title_case("hello   world  \t  test"),
        "Hello   World  \t  Test"
    );
}

#[test]
fn test_first_and_last_words() {
    assert_eq!(to_title_case("the end"), "The End");
    assert_eq!(
        to_title_case("journey to the center"),
        "Journey to the Center"
    );
}

#[test]
fn test_technical_terms() {
    assert_eq!(to_title_case("WiFi and 5G"), "WiFi and 5G");
}

#[test]
fn test_mixed_case_with_brands() {
    assert_eq!(
        to_title_case("an iOS App for macOS"),
        "An iOS App for macOS"
    );
}
