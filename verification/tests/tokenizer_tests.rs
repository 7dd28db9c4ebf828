use real_ip::text::{maybe_bracketed, maybe_quoted};
use real_ip::tokenizer::CommaSeparatedIterator;

fn collect_tokens(s: &str) -> Vec<&str> {
    let mut it = CommaSeparatedIterator::new(s);
    let mut out = Vec::new();
    while let Some(tok) = it.next() {
        out.push(tok);
    }
    out
}

#[test]
fn test_comma_separated_iterator() {
    assert_eq!(
        vec!["abc", "def", "ghi", "jkl ", "mno", "pqr"],
        collect_tokens("abc,def, ghi,\tjkl , mno,\tpqr")
    );
    assert_eq!(
        vec![
            "abc",
            "\"def\"",
            "\"ghi\"",
            "\"jkl\"",
            "\"mno\"",
            "pqr",
            "\"abc, def\""
        ],
        collect_tokens("abc,\"def\", \"ghi\",\t\"jkl\" , \"mno\",\tpqr, \"abc, def\"")
    );
}

#[test]
fn test_maybe_quoted() {
    assert_eq!("abc", maybe_quoted("abc"));
    assert_eq!("abc", maybe_quoted("\"abc\""));
    assert_eq!("a\"bc", maybe_quoted("\"a\\\"bc\""));
}

#[test]
fn test_maybe_bracketed() {
    assert_eq!("abc", maybe_bracketed("abc"));
    assert_eq!("abc", maybe_bracketed("[abc]"));
    assert_eq!("[abc", maybe_bracketed("[abc"));
    assert_eq!("abc]", maybe_bracketed("abc]"));
}

#[test]
fn test_comma_inside_quotes_is_one_entry() {
    assert_eq!(vec!["\"abc, def\""], collect_tokens("\"abc, def\""));
}

#[test]
fn test_empty_value_has_no_tokens() {
    assert_eq!(Vec::<&str>::new(), collect_tokens(""));
}

#[test]
fn test_empty_entries_between_commas() {
    assert_eq!(vec!["", "a"], collect_tokens(",a,"));
    assert_eq!(vec!["", "", "a"], collect_tokens(",,a"));
}

#[test]
fn test_trailing_text_after_quote_is_discarded() {
    assert_eq!(vec!["\"ab\"", "cd"], collect_tokens("\"ab\"junk,cd"));
}

#[test]
fn test_unterminated_quote_is_flushed() {
    assert_eq!(vec!["\"ab, cd"], collect_tokens("\"ab, cd"));
}
