use book_info::text::{chars_of, has_suffix, lowered_is, split_tokens, to_ascii_lower};

fn chars(s: &str) -> Vec<char> {
    s.chars().collect()
}

#[test]
fn ascii_lower_maps_capitals_only() {
    assert_eq!(to_ascii_lower('A'), 'a');
    assert_eq!(to_ascii_lower('Z'), 'z');
    assert_eq!(to_ascii_lower('M'), 'm');
    assert_eq!(to_ascii_lower('a'), 'a');
    assert_eq!(to_ascii_lower('@'), '@');
    assert_eq!(to_ascii_lower('['), '[');
    assert_eq!(to_ascii_lower('7'), '7');
    assert_eq!(to_ascii_lower('É'), 'É');
}

#[test]
fn chars_of_keeps_every_character_in_order() {
    assert_eq!(chars_of(""), Vec::<char>::new());
    assert_eq!(chars_of("abc"), vec!['a', 'b', 'c']);
    assert_eq!(chars_of("né 漫"), vec!['n', 'é', ' ', '漫']);
}

#[test]
fn lowered_is_ignores_ascii_case() {
    assert!(lowered_is(&chars("CBZ"), &chars("cbz")));
    assert!(lowered_is(&chars("cBz"), &chars("cbz")));
    assert!(lowered_is(&chars(""), &chars("")));
    assert!(!lowered_is(&chars("cbzz"), &chars("cbz")));
    assert!(!lowered_is(&chars("cb"), &chars("cbz")));
    assert!(!lowered_is(&chars("cbr"), &chars("cbz")));
    // The word itself is taken as it stands.
    assert!(!lowered_is(&chars("cbz"), &chars("CBZ")));
}

#[test]
fn has_suffix_compares_the_end() {
    assert!(has_suffix(&chars("page.jpg"), &chars("jpg")));
    assert!(has_suffix(&chars("jpg"), &chars("jpg")));
    assert!(has_suffix(&chars("anything"), &chars("")));
    assert!(has_suffix(&chars(""), &chars("")));
    assert!(!has_suffix(&chars("pg"), &chars("jpg")));
    assert!(!has_suffix(&chars("page.jpg "), &chars("jpg")));
    assert!(!has_suffix(&chars("page.JPG"), &chars("jpg")));
    assert!(!has_suffix(&chars("jpg.txt"), &chars("jpg")));
}

#[test]
fn split_tokens_trims_and_drops_empty_pieces() {
    assert_eq!(split_tokens("book, fantasy, ", ','), vec!["book", "fantasy"]);
    assert_eq!(split_tokens("one", ','), vec!["one"]);
    assert_eq!(split_tokens("  one  ", ','), vec!["one"]);
    assert_eq!(split_tokens("a,b", ','), vec!["a", "b"]);
    assert_eq!(split_tokens(",a,,b,", ','), vec!["a", "b"]);
    assert_eq!(split_tokens("science fiction ,  space opera", ','), vec![
        "science fiction",
        "space opera"
    ]);
}

#[test]
fn split_tokens_of_nothing_is_empty() {
    assert_eq!(split_tokens("", ','), Vec::<String>::new());
    assert_eq!(split_tokens(",", ','), Vec::<String>::new());
    assert_eq!(split_tokens(" , ,, ", ','), Vec::<String>::new());
    assert_eq!(split_tokens("   ", ','), Vec::<String>::new());
}

#[test]
fn split_tokens_trims_unicode_white_space() {
    // Tab, line feed, no-break space and ideographic space are white space.
    assert_eq!(split_tokens("\t a \n,\u{a0}b\u{3000}", ','), vec!["a", "b"]);
    // A zero-width space is not.
    assert_eq!(split_tokens("\u{200b}a", ','), vec!["\u{200b}a"]);
}

#[test]
fn split_tokens_keeps_inner_white_space_and_other_separators() {
    assert_eq!(split_tokens("a  b;c", ','), vec!["a  b;c"]);
    assert_eq!(split_tokens("a;b ; c", ';'), vec!["a", "b", "c"]);
    assert_eq!(split_tokens("漫画, マンガ", ','), vec!["漫画", "マンガ"]);
}
