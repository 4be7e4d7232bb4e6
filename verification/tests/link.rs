use jacanaoesta::link::{get_next_page, parse_link, parse_link_header};
use jacanaoesta::text::{chars_of, find, has_prefix, same_str, split_at_each, string_of, trimmed};

fn next(header: &str) -> Option<String> {
    get_next_page(header.to_string())
}

#[test]
fn next_cursor_of_a_header_with_next_and_prev() {
    let header = "<https://example.test/api/v1/accounts/1/following?page=2>; rel=\"next\", <https://example.test/api/v1/accounts/1/following?page=0>; rel=\"prev\"";
    assert_eq!(
        next(header),
        Some("https://example.test/api/v1/accounts/1/following?page=2".to_string())
    );
}

#[test]
fn no_cursor_where_only_prev_is_named() {
    let header = "<https://example.test/api/v1/accounts/1/following?min_id=7>; rel=\"prev\"";
    assert_eq!(next(header), None);
}

#[test]
fn next_is_found_behind_other_entries() {
    let header = "<https://example.test/a?min_id=7>; rel=\"prev\", <https://example.test/a?max_id=3>; rel=\"next\"";
    assert_eq!(next(header), Some("https://example.test/a?max_id=3".to_string()));
}

#[test]
fn next_in_the_target_is_no_relation() {
    let header = "<https://example.test/next>; rel=\"prev\"";
    assert_eq!(next(header), None);
    let header = "<https://example.test/a?next=1>; rel=\"previous\"; title=\"next\"";
    assert_eq!(next(header), None);
}

#[test]
fn the_relation_is_matched_exactly() {
    assert_eq!(next("<https://example.test/a>; rel=\"Next\""), None);
    assert_eq!(next("<https://example.test/a>; rel=\"next \""), None);
    assert_eq!(next("<https://example.test/a>; rel=\"nextpage\""), None);
    assert_eq!(next("<https://example.test/a>; rel=\"next prev\""), None);
    assert_eq!(next("<https://example.test/a>; REL=\"next\""), None);
}

#[test]
fn the_relation_may_stand_without_quotes() {
    assert_eq!(next("<https://example.test/a>; rel=next"), Some("https://example.test/a".to_string()));
    assert_eq!(next("<https://example.test/a>; rel=\"next"), None);
}

#[test]
fn blanks_around_a_parameter_do_not_count() {
    assert_eq!(next("<u>;rel=\"next\""), Some("u".to_string()));
    assert_eq!(next("  <u> ; \t rel=\"next\" \t"), Some("u".to_string()));
    assert_eq!(next("<u>; rel = \"next\""), None);
}

#[test]
fn the_first_rel_parameter_decides() {
    assert_eq!(next("<u>; rel=\"prev\"; rel=\"next\""), None);
    assert_eq!(next("<u>; title=\"x\"; rel=\"next\"; rel=\"prev\""), Some("u".to_string()));
}

#[test]
fn the_first_entry_with_next_wins() {
    assert_eq!(next("<u>; rel=\"next\", <v>; rel=\"next\""), Some("u".to_string()));
}

#[test]
fn entries_without_a_target_are_passed_over() {
    assert_eq!(next(""), None);
    assert_eq!(next("rel=\"next\""), None);
    assert_eq!(next("u>; rel=\"next\""), None);
    assert_eq!(next("<u; rel=\"next\""), None);
    assert_eq!(next(">u<; rel=\"next\""), None);
    assert_eq!(next("<u> rel=\"next\""), None);
    assert_eq!(next("rel=\"next\"; <u>"), None);
    assert_eq!(next("junk, <v>; rel=\"next\""), Some("v".to_string()));
}

#[test]
fn the_target_is_what_stands_between_the_first_brackets() {
    assert_eq!(next("<>; rel=\"next\""), Some("".to_string()));
    assert_eq!(next("<a;b>; rel=\"next\""), Some("a;b".to_string()));
    assert_eq!(next("x<a<b>c>; rel=\"next\""), Some("a<b".to_string()));
    assert_eq!(next("<https://example.test/ü?q=é>; rel=\"next\""), Some("https://example.test/ü?q=é".to_string()));
}

#[test]
fn links_come_in_the_order_of_the_entries() {
    let links = parse_link_header("<a>; rel=\"next\", nothing, <b>; rel=\"prev\", <c>; rel=last");
    assert_eq!(links.len(), 3);
    assert_eq!((links[0].url.as_str(), links[0].rel.as_str()), ("a", "next"));
    assert_eq!((links[1].url.as_str(), links[1].rel.as_str()), ("b", "prev"));
    assert_eq!((links[2].url.as_str(), links[2].rel.as_str()), ("c", "last"));
    assert_eq!(parse_link_header("").len(), 0);
}

#[test]
fn one_entry_gives_one_link() {
    let entry: Vec<char> = " <https://example.test/p>; rel=\"next\"".chars().collect();
    let link = parse_link(&entry).unwrap();
    assert_eq!(link.url, "https://example.test/p");
    assert_eq!(link.rel, "next");
    let entry: Vec<char> = "<https://example.test/p>".chars().collect();
    assert!(parse_link(&entry).is_none());
}

#[test]
fn text_is_split_at_each_mark() {
    let text: Vec<char> = "a,,b,".chars().collect();
    let pieces = split_at_each(&text, ',');
    let pieces: Vec<String> = pieces.iter().map(|p| string_of(p)).collect();
    assert_eq!(pieces, vec!["a", "", "b", ""]);
    let pieces = split_at_each(&[], ',');
    assert_eq!(pieces, vec![Vec::<char>::new()]);
    let text: Vec<char> = "abc".chars().collect();
    assert_eq!(split_at_each(&text, ','), vec![text.clone()]);
}

#[test]
fn text_is_searched_and_trimmed() {
    let text: Vec<char> = " \t a b\t ".chars().collect();
    assert_eq!(find(&text, 'a'), 3);
    assert_eq!(find(&text, 'z'), text.len());
    assert_eq!(find(&[], 'z'), 0);
    assert_eq!(string_of(trimmed(&text)), "a b");
    let blank: Vec<char> = " \t ".chars().collect();
    assert_eq!(string_of(trimmed(&blank)), "");
    let other: Vec<char> = "\na\n".chars().collect();
    assert_eq!(string_of(trimmed(&other)), "\na\n");
}

#[test]
fn text_is_compared() {
    assert!(same_str("next", "next"));
    assert!(!same_str("next", "nex"));
    assert!(!same_str("next", "nexT"));
    assert!(same_str("", ""));
    let text = chars_of("rel=é");
    assert_eq!(text, vec!['r', 'e', 'l', '=', 'é']);
    assert_eq!(string_of(&text), "rel=é");
    assert!(has_prefix(&text, &chars_of("rel=")));
    assert!(has_prefix(&text, &[]));
    assert!(!has_prefix(&text, &chars_of("rel=é!")));
    assert!(!has_prefix(&text, &chars_of("ref")));
}
