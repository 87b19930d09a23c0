use hyperswap::utils::token::{
    generate_secret_token, generate_slug, generate_token, hex_digit, slugify,
};

fn is_hex(text: &str) -> bool {
    text.chars().all(|c| matches!(c, '0'..='9' | 'a'..='f'))
}

#[test]
fn a_token_has_the_length_asked_for() {
    assert_eq!(generate_token(0), "");
    assert_eq!(generate_token(1).len(), 1);
    assert_eq!(generate_token(17).len(), 17);
    assert_eq!(generate_token(200).chars().count(), 200);
}

#[test]
fn a_token_holds_hex_digits_alone() {
    for _ in 0..50 {
        let token = generate_token(40);
        assert!(is_hex(&token), "{}", token);
    }
}

#[test]
fn a_secret_token_has_64_digits() {
    let token = generate_secret_token();
    assert_eq!(token.len(), 64);
    assert!(is_hex(&token), "{}", token);
}

#[test]
fn secret_tokens_differ() {
    assert_ne!(generate_secret_token(), generate_secret_token());
}

#[test]
fn tokens_use_every_digit() {
    let token = generate_token(4000);
    for digit in "0123456789abcdef".chars() {
        assert!(token.contains(digit), "no {} among 4000 digits", digit);
    }
}

#[test]
fn digits_stand_in_order() {
    let digits: String = (0..16).map(hex_digit).collect();
    assert_eq!(digits, "0123456789abcdef");
    assert_eq!(hex_digit(0), '0');
    assert_eq!(hex_digit(9), '9');
    assert_eq!(hex_digit(10), 'a');
    assert_eq!(hex_digit(15), 'f');
}

#[test]
fn a_slug_keeps_letters_and_digits_with_one_hyphen_per_gap() {
    for (name, words) in [("Alpha beta  GAMMA", 3), ("x", 1), ("a1 -- b2 // c3 .. d4", 4), ("", 0), (" ? ", 0)] {
        let slug = generate_slug(name);
        let kept: String = slug.chars().filter(|c| *c != '-').collect();
        let wanted: String =
            name.to_ascii_lowercase().chars().filter(|c| c.is_ascii_alphanumeric()).collect();
        assert_eq!(kept, wanted, "{:?}", name);
        let hyphens = slug.chars().filter(|c| *c == '-').count();
        assert_eq!(hyphens, if words == 0 { 0 } else { words - 1 }, "{:?}", name);
    }
}

#[test]
fn a_slug_joins_words_by_hyphens() {
    assert_eq!(generate_slug("Hello World"), "hello-world");
    assert_eq!(generate_slug("Acme, Inc."), "acme-inc");
    assert_eq!(generate_slug("R2-D2 & C-3PO"), "r2-d2-c-3po");
}

#[test]
fn a_slug_has_no_hyphen_at_either_end() {
    assert_eq!(generate_slug("  --Team Rocket!!  "), "team-rocket");
    assert_eq!(generate_slug("-a-"), "a");
}

#[test]
fn a_slug_collapses_runs() {
    assert_eq!(generate_slug("a - - - b___c"), "a-b-c");
    assert_eq!(generate_slug("a--b"), "a-b");
}

#[test]
fn a_slug_of_nothing_is_empty() {
    assert_eq!(generate_slug(""), "");
    assert_eq!(generate_slug("---"), "");
    assert_eq!(generate_slug(" !?"), "");
}

#[test]
fn a_slug_is_in_lower_case() {
    assert_eq!(generate_slug("ABC Def 123"), "abc-def-123");
    // The Kelvin sign has the Latin letter k as its lower case.
    assert_eq!(generate_slug("\u{212a}elvin"), "kelvin");
}

#[test]
fn a_slug_leaves_out_other_letters() {
    assert_eq!(generate_slug("Caf\u{e9} Cr\u{e8}me"), "caf-cr-me");
    assert_eq!(generate_slug("\u{c9}cole"), "cole");
}

#[test]
fn slugify_takes_the_text_as_it_is() {
    assert_eq!(slugify("hello world"), "hello-world");
    assert_eq!(slugify("Hello World"), "ello-orld");
    assert_eq!(slugify("x"), "x");
    assert_eq!(slugify("9 to 5"), "9-to-5");
}
