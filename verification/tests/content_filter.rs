use locoryn::content_filter::filtered_text;

#[test]
fn content_filter_replaces_entire_inappropriate_words_with_hashes() {
    assert_eq!(filtered_text(true, "hello crap"), "hello ####");
}

#[test]
fn text_passes_unchanged_when_filtering_is_off() {
    assert_eq!(filtered_text(false, "hello crap"), "hello crap");
    assert_eq!(filtered_text(true, "hello there"), "hello there");
}
