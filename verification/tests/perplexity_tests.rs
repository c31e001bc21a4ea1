use wkfl::llm::perplexity::{extract_supports_from_text, extract_title_from_url};
use wkfl::llm::Source;

fn create_test_sources() -> Vec<Source> {
    vec![
        Source {
            title: "Source 1".to_string(),
            uri: "http://example.com/1".to_string(),
        },
        Source {
            title: "Source 2".to_string(),
            uri: "http://example.com/2".to_string(),
        },
    ]
}

#[test]
fn test_single_reference() {
    let sources = create_test_sources();
    let input = "This is a test sentence.[0] This has no reference.";
    let (supports, cleaned_text) = extract_supports_from_text(input, &sources);

    assert_eq!(supports.len(), 1);
    assert_eq!(supports[0].text, "This is a test sentence.");
    assert_eq!(supports[0].start_index, 0);
    assert_eq!(supports[0].end_index, 24);
    assert_eq!(supports[0].source_indices, vec![0]);
    assert_eq!(
        cleaned_text,
        "This is a test sentence. This has no reference."
    );
}

#[test]
fn test_multiple_references() {
    let sources = create_test_sources();
    let input = "This is supported by multiple sources.[0][1]";
    let (supports, cleaned_text) = extract_supports_from_text(input, &sources);

    println!("{:?} - {}", supports, cleaned_text);
    assert_eq!(supports.len(), 1);
    assert_eq!(supports[0].text, "This is supported by multiple sources.");
    assert_eq!(supports[0].start_index, 0);
    assert_eq!(supports[0].end_index, 38);
    assert_eq!(supports[0].source_indices, vec![0, 1]);
    assert_eq!(cleaned_text, "This is supported by multiple sources.");
}

#[test]
fn test_invalid_reference() {
    let sources = create_test_sources();
    let input = "This has an invalid reference.[99] This is normal text.";
    let (supports, cleaned_text) = extract_supports_from_text(input, &sources);

    assert_eq!(supports.len(), 0);
    assert_eq!(
        cleaned_text,
        "This has an invalid reference.[99] This is normal text."
    );
}

#[test]
fn test_multiple_sentences() {
    let sources = create_test_sources();
    let input = "First sentence.[0] Second sentence.[1] Third sentence with no reference.";
    let (supports, cleaned_text) = extract_supports_from_text(input, &sources);

    assert_eq!(supports.len(), 2);
    assert_eq!(supports[0].text, "First sentence.");
    assert_eq!(supports[0].source_indices, vec![0]);
    assert_eq!(supports[1].text, "Second sentence.");
    assert_eq!(supports[1].source_indices, vec![1]);
    assert_eq!(
        cleaned_text,
        "First sentence. Second sentence. Third sentence with no reference."
    );
}

#[test]
fn test_empty_text() {
    let sources = create_test_sources();
    let input = "";
    let (supports, cleaned_text) = extract_supports_from_text(input, &sources);

    assert_eq!(supports.len(), 0);
    assert_eq!(cleaned_text, "");
}

#[test]
fn test_no_references() {
    let sources = create_test_sources();
    let input = "This text has no references at all.";
    let (supports, cleaned_text) = extract_supports_from_text(input, &sources);

    assert_eq!(supports.len(), 0);
    assert_eq!(cleaned_text, input);
}

#[test]
fn test_consecutive_references() {
    let sources = create_test_sources();
    let input = "This is referenced.[0][1] This is also referenced.[0][1]";
    let (supports, cleaned_text) = extract_supports_from_text(input, &sources);

    assert_eq!(supports.len(), 2);
    assert_eq!(supports[0].text, "This is referenced.");
    assert_eq!(supports[0].source_indices, vec![0, 1]);
    assert_eq!(supports[1].text, "This is also referenced.");
    assert_eq!(supports[1].source_indices, vec![0, 1]);
    assert_eq!(cleaned_text, "This is referenced. This is also referenced.");
}

#[test]
fn test_mixed_valid_and_invalid_references() {
    let sources = create_test_sources();
    let input = "Valid reference.[0] Invalid reference.[99] Another valid one.[1]";
    let (supports, cleaned_text) = extract_supports_from_text(input, &sources);

    assert_eq!(supports.len(), 2);
    assert_eq!(supports[0].text, "Valid reference.");
    assert_eq!(supports[0].source_indices, vec![0]);
    assert_eq!(supports[1].text, "Another valid one.");
    assert_eq!(supports[1].source_indices, vec![1]);
    assert_eq!(
        cleaned_text,
        "Valid reference. Invalid reference.[99] Another valid one."
    );
}

#[test]
fn title_comes_from_url_host() {
    assert_eq!(extract_title_from_url("https://example.com/article"), "example.com");
}

#[test]
fn title_falls_back_to_raw_text() {
    assert_eq!(extract_title_from_url("not a url"), "not a url");
}
