use enumland::backends::crtsh::CrtshResponse;
use enumland::domains::DomainSet;
use enumland::extract::{accepts, extract, is_plain_name, sift_field, split_candidates};
use enumland::text::{contains_char, split_lines, starts_with_wildcard};
use enumland::utils::valid_domain;

fn records(fields: &[&str]) -> Vec<CrtshResponse> {
    fields.iter().map(|f| CrtshResponse { name_value: f.to_string() }).collect()
}

fn sorted(set: &DomainSet) -> Vec<String> {
    let mut names = set.names().clone();
    names.sort();
    names
}

fn extracted_names(fields: &[&str]) -> Vec<String> {
    sorted(&extract(&records(fields)).domains)
}

#[test]
fn test_valid_domain() {
    assert!(valid_domain("https://google.com"));
    assert!(valid_domain("http://google.com"));
    assert!(valid_domain("google.com"));
    assert!(valid_domain("google"));
}

#[test]
fn valid_domain_rejects_what_no_url_parser_takes() {
    assert!(!valid_domain(""));
    assert!(!valid_domain("exa mple.com"));
    assert!(!valid_domain("<example>.com"));
}

#[test]
fn valid_domain_takes_a_name_only_with_the_scheme_in_front() {
    // "example.com" alone is a relative reference; it passes on the second try.
    assert!(valid_domain("example.com"));
    assert!(valid_domain("sub.example.com"));
}

#[test]
fn contains_char_finds_the_character_anywhere() {
    assert!(contains_char("admin@example.com", '@'));
    assert!(contains_char("@", '@'));
    assert!(contains_char("tail@", '@'));
    assert!(!contains_char("example.com", '@'));
    assert!(!contains_char("", '@'));
    assert!(contains_char("caf\u{e9}@x", '@'));
}

#[test]
fn starts_with_wildcard_needs_both_characters_in_front() {
    assert!(starts_with_wildcard("*.example.com"));
    assert!(starts_with_wildcard("*."));
    assert!(!starts_with_wildcard("*"));
    assert!(!starts_with_wildcard(""));
    assert!(!starts_with_wildcard("*example.com"));
    assert!(!starts_with_wildcard(".*example.com"));
    assert!(!starts_with_wildcard("www.*.example.com"));
}

#[test]
fn split_lines_cuts_at_every_line_feed() {
    assert_eq!(split_lines("example.com\nwww.example.com"), vec!["example.com", "www.example.com"]);
    assert_eq!(split_lines("one"), vec!["one"]);
    assert_eq!(split_lines(""), vec![""]);
    assert_eq!(split_lines("\n"), vec!["", ""]);
    assert_eq!(split_lines("a\n"), vec!["a", ""]);
    assert_eq!(split_lines("\na"), vec!["", "a"]);
    assert_eq!(split_lines("a\n\nb"), vec!["a", "", "b"]);
    assert_eq!(split_lines("a\r\nb"), vec!["a\r", "b"]);
}

#[test]
fn split_lines_counts_characters_not_bytes() {
    assert_eq!(split_lines("caf\u{e9}\n\u{fc}ber\nz"), vec!["caf\u{e9}", "\u{fc}ber", "z"]);
}

#[test]
fn split_lines_agrees_with_the_standard_split() {
    for text in ["", "a", "a\nb\nc", "\n\n", "x\n", "\ny\n", "m\u{e9}\n\u{4e2d}\u{6587}\n"] {
        let expected: Vec<&str> = text.split('\n').collect();
        assert_eq!(split_lines(text), expected);
    }
}

#[test]
fn split_candidates_gives_none_for_an_empty_field() {
    assert!(split_candidates("").is_empty());
    assert_eq!(split_candidates("a\nb"), vec!["a", "b"]);
    assert_eq!(split_candidates("\n"), vec!["", ""]);
}

#[test]
fn is_plain_name_turns_away_emails_and_wildcards() {
    assert!(is_plain_name("example.com"));
    assert!(is_plain_name("google"));
    assert!(!is_plain_name("admin@example.com"));
    assert!(!is_plain_name("*.example.com"));
    assert!(!is_plain_name("*.admin@example.com"));
}

#[test]
fn accepts_applies_all_three_filters() {
    assert!(accepts("example.com"));
    assert!(accepts("WWW.Example.COM"));
    assert!(accepts("google"));
    assert!(!accepts("admin@example.com"));
    assert!(!accepts("*.example.com"));
    assert!(!accepts("exa mple.com"));
    assert!(!accepts(""));
}

#[test]
fn two_names_in_one_field_are_both_extracted() {
    assert_eq!(
        extracted_names(&["example.com\nwww.example.com"]),
        vec!["example.com", "www.example.com"]
    );
}

#[test]
fn a_wildcard_alone_yields_nothing() {
    let out = extract(&records(&["*.example.com"]));
    assert!(out.domains.is_empty());
    assert_eq!(out.domains.len(), 0);
    assert_eq!(out.rejected, vec!["*.example.com"]);
}

#[test]
fn a_wildcard_beside_its_base_keeps_the_base() {
    assert_eq!(extracted_names(&["*.example.com\nexample.com"]), vec!["example.com"]);
    assert_eq!(extracted_names(&["example.com\n*.example.com"]), vec!["example.com"]);
}

#[test]
fn an_email_address_yields_nothing() {
    let out = extract(&records(&["admin@example.com"]));
    assert!(out.domains.is_empty());
    assert_eq!(out.rejected, vec!["admin@example.com"]);
}

#[test]
fn mixed_case_collapses_to_one_lower_case_entry() {
    assert_eq!(
        extracted_names(&["WWW.Example.COM", "www.example.com"]),
        vec!["www.example.com"]
    );
    assert_eq!(extracted_names(&["WWW.Example.COM\nwww.example.com"]), vec!["www.example.com"]);
    let out = extract(&records(&["Example.com", "example.com"]));
    assert_eq!(out.domains.len(), 1);
    assert!(out.domains.contains("example.com"));
    assert!(!out.domains.contains("Example.com"));
}

#[test]
fn lower_casing_reaches_beyond_ascii() {
    let out = extract(&records(&["B\u{dc}CHER.example"]));
    assert_eq!(sorted(&out.domains), vec!["b\u{fc}cher.example"]);
}

#[test]
fn an_empty_response_yields_an_empty_set() {
    let out = extract(&Vec::new());
    assert!(out.domains.is_empty());
    assert!(out.rejected.is_empty());
}

#[test]
fn an_empty_field_has_no_candidate() {
    let out = extract(&records(&[""]));
    assert!(out.domains.is_empty());
    assert!(out.rejected.is_empty());
}

#[test]
fn an_empty_line_is_a_rejected_candidate() {
    let out = extract(&records(&["example.com\n"]));
    assert_eq!(sorted(&out.domains), vec!["example.com"]);
    assert_eq!(out.rejected, vec![""]);
}

#[test]
fn all_invalid_input_still_gives_a_result() {
    let out = extract(&records(&["*.a.example\nroot@a.example", "exa mple.com"]));
    assert!(out.domains.is_empty());
    assert_eq!(out.rejected, vec!["*.a.example", "root@a.example", "exa mple.com"]);
}

#[test]
fn a_bare_word_counts_as_a_domain() {
    assert_eq!(extracted_names(&["google"]), vec!["google"]);
}

#[test]
fn clean_single_name_records_give_their_lower_case_forms() {
    assert_eq!(
        extracted_names(&["example.com", "M.Example.com", "dev.example.com", "SUPPORT.EXAMPLE.COM"]),
        vec!["dev.example.com", "example.com", "m.example.com", "support.example.com"]
    );
}

#[test]
fn extraction_gives_the_same_set_every_time() {
    let input = records(&["example.com\nwww.example.com", "*.example.com", "Dev.Example.com"]);
    let first = extract(&input);
    let second = extract(&input);
    assert_eq!(sorted(&first.domains), sorted(&second.domains));
    assert_eq!(first.rejected, second.rejected);
    assert_eq!(
        sorted(&first.domains),
        vec!["dev.example.com", "example.com", "www.example.com"]
    );
}

#[test]
fn order_and_repetition_of_records_do_not_change_the_set() {
    let one = extracted_names(&["a.example", "b.example\nc.example", "a.example"]);
    let other = extracted_names(&["b.example\nc.example", "a.example"]);
    assert_eq!(one, other);
    assert_eq!(one, vec!["a.example", "b.example", "c.example"]);
}

#[test]
fn a_repeated_field_is_looked_at_once() {
    let out = extract(&records(&["*.example.com\nexample.com", "*.example.com\nexample.com"]));
    assert_eq!(sorted(&out.domains), vec!["example.com"]);
    assert_eq!(out.rejected, vec!["*.example.com"]);
}

#[test]
fn the_same_rejected_candidate_in_two_different_fields_is_reported_twice() {
    let out = extract(&records(&["*.example.com", "*.example.com\nexample.com"]));
    assert_eq!(out.rejected, vec!["*.example.com", "*.example.com"]);
}

#[test]
fn sift_field_adds_to_what_is_there() {
    let mut domains = DomainSet::new();
    domains.insert("old.example".to_string());
    let mut rejected = vec!["earlier".to_string()];
    sift_field("New.example\n*.new.example\nold.example", &mut domains, &mut rejected);
    assert_eq!(sorted(&domains), vec!["new.example", "old.example"]);
    assert_eq!(rejected, vec!["earlier", "*.new.example"]);
}

#[test]
fn the_lines_of_a_text_join_back_to_it() {
    for text in ["", "a", "a\nb\nc", "\n\n", "x\n", "\ny\n", "*.a.example\nA.example"] {
        let lines = split_lines(text);
        assert!(!lines.is_empty());
        assert!(lines.iter().all(|line| !line.contains('\n')));
        assert_eq!(lines.join("\n"), text);
    }
}

#[test]
fn a_crt_sh_answer_for_example_com() {
    let out = extract(&records(&[
        "example.com",
        "www.example.com",
        "example.com\nwww.example.com",
        "*.example.com\nexample.com",
        "m.example.com",
        "dev.example.com\nwww.example.com",
        "products.example.com",
        "support.example.com",
        "m.testexample.com",
        "user@example.com",
        "www.example.com",
    ]));
    let mut expected = vec![
        "example.com",
        "www.example.com",
        "m.example.com",
        "dev.example.com",
        "products.example.com",
        "support.example.com",
        "m.testexample.com",
    ];
    expected.sort();
    assert_eq!(sorted(&out.domains), expected);
    assert_eq!(out.domains.len(), 7);
    assert_eq!(out.rejected, vec!["*.example.com", "user@example.com"]);
}

#[test]
fn an_empty_field_among_clean_ones_adds_nothing() {
    let out = extract(&records(&["example.com", "", "M.Example.com"]));
    assert_eq!(sorted(&out.domains), vec!["example.com", "m.example.com"]);
    assert!(out.rejected.is_empty());
}
