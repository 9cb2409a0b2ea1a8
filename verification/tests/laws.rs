use loker::background::scheduler::get_nth_interval_seconds;
use loker::handlers::models::PaginationToken;
use loker::utils::aws_sig_v4::canonicalize_query;
use loker::utils::encoding::{aws_uri_encode, hex_encode};
use loker::utils::filter::split_search_terms;

#[test]
fn test_query_canonical_form_ignores_pair_order() {
    let a = canonicalize_query("b=2&a=1&c=3");
    let b = canonicalize_query("c=3&a=1&b=2");
    assert_eq!(a, b);
    assert_eq!(a, "a=1&b=2&c=3");
}

#[test]
fn test_search_terms_rejoin_to_the_text() {
    for text in ["testTermSecond19##", "1#testTerm", "Test.1Term5Second_Test", "", "ÀbcDé9", "a b\u{3000}c"] {
        let terms = split_search_terms(text);
        assert_eq!(terms.concat(), text.chars().filter(|c| !c.is_whitespace()).collect::<String>());
        assert!(terms.iter().all(|t| !t.is_empty()));
        assert_eq!(split_search_terms(text), terms);
    }
}

#[test]
fn test_uri_encoding_is_url_safe() {
    let encoded = aws_uri_encode("ä ö/ü?&=+#%\u{1F600}", true);
    assert!(encoded
        .chars()
        .all(|c| c.is_ascii_alphanumeric() || "-._~%".contains(c)));
    let kept = aws_uri_encode("a/b c", false);
    assert_eq!(kept, "a/b%20c");
}

#[test]
fn test_hex_text_has_two_digits_per_byte() {
    let bytes: Vec<u8> = (0..=255).collect();
    let text = hex_encode(&bytes);
    assert_eq!(text.len(), 512);
    assert!(text.chars().all(|c| c.is_ascii_digit() || ('a'..='f').contains(&c)));
}

#[test]
fn test_next_page_starts_where_the_page_ends() {
    let page = PaginationToken { page_size: 7, page_index: 4 };
    let (limit, offset) = page.as_query_parts().unwrap();
    let next = page.get_next_page(36).unwrap();
    let (_, next_offset) = next.as_query_parts().unwrap();
    assert_eq!(next_offset, offset + limit);
    assert!(page.get_next_page(35).is_none());
}

#[test]
fn test_next_interval_is_within_one_interval() {
    for now in [0u64, 1, 59, 60, 61, 3599, 3600, 1_700_000_000] {
        let next = get_nth_interval_seconds(now, 60, 1);
        assert!(now < next && next <= now + 60);
        assert_eq!(next % 60, 0);
        assert_eq!(get_nth_interval_seconds(now, 60, 2), next + 60);
    }
}

#[test]
fn test_whitespace_separates_search_terms() {
    assert_eq!(split_search_terms("test term"), vec!["test".to_string(), "term".to_string()]);
    assert_eq!(split_search_terms("  a  b\t"), vec!["a".to_string(), "b".to_string()]);
    assert_eq!(split_search_terms("a #\n#"), vec!["a".to_string(), "#".to_string(), "#".to_string()]);
    assert_eq!(split_search_terms("testTerm other1"), vec!["test", "Term", "other", "1"]);
    assert!(split_search_terms(" \t ").is_empty());
}
