use rama::text::split_text;

fn owned(segments: &[&str]) -> Vec<String> {
    segments.iter().map(|segment| segment.to_string()).collect()
}

#[test]
fn test_split_text_without_separator() {
    assert_eq!(split_text("username", '-'), owned(&["username"]));
}

#[test]
fn test_split_text_empty_text_has_one_empty_segment() {
    assert_eq!(split_text("", '-'), owned(&[""]));
}

#[test]
fn test_split_text_separator_alone() {
    assert_eq!(split_text("-", '-'), owned(&["", ""]));
    assert_eq!(split_text("---", '-'), owned(&["", "", "", ""]));
}

#[test]
fn test_split_text_segments_in_order() {
    assert_eq!(
        split_text("john-residential-country-us", '-'),
        owned(&["john", "residential", "country", "us"])
    );
}

#[test]
fn test_split_text_empty_segments_are_kept() {
    assert_eq!(split_text("a--b", '-'), owned(&["a", "", "b"]));
    assert_eq!(split_text("-a", '-'), owned(&["", "a"]));
    assert_eq!(split_text("a-", '-'), owned(&["a", ""]));
}

#[test]
fn test_split_text_other_separators() {
    assert_eq!(split_text("a-b_c-d", '_'), owned(&["a-b", "c-d"]));
    assert_eq!(split_text("a b", ' '), owned(&["a", "b"]));
}

#[test]
fn test_split_text_counts_characters_not_bytes() {
    assert_eq!(
        split_text("jörg-münchen-straße", '-'),
        owned(&["jörg", "münchen", "straße"])
    );
    assert_eq!(split_text("aübücü", 'ü'), owned(&["a", "b", "c", ""]));
    assert_eq!(split_text("日本→東京→港", '→'), owned(&["日本", "東京", "港"]));
}

#[test]
fn test_split_text_agrees_with_std_and_joins_back() {
    let texts = [
        "",
        "-",
        "a",
        "a-b",
        "-a-",
        "--a--b--",
        "username-label1-label2",
        "é-è-ê",
    ];
    for text in texts {
        let segments = split_text(text, '-');
        let expected: Vec<String> = text.split('-').map(|segment| segment.to_string()).collect();
        assert_eq!(segments, expected);
        assert_eq!(segments.join("-"), text);
        assert!(segments.iter().all(|segment| !segment.contains('-')));
    }
}
