use std::collections::HashSet;

use url_shortner::code::{
    code_of_draws, generate_short_code, is_code_char_exec, is_short_code_str, CODE_LEN,
};
use url_shortner::registry::{Drawn, ShortenError, UrlRegistry, DEFAULT_MAX_DRAWS};

fn is_alphanumeric_code(code: &str) -> bool {
    code.chars().count() == 6 && code.chars().all(|c| c.is_ascii_alphanumeric())
}

#[test]
fn example_scenario() {
    let mut registry = UrlRegistry::new();
    let code = registry.shorten("https://example.com").unwrap();
    assert!(is_alphanumeric_code(&code));
    assert_eq!(registry.resolve(&code), Some("https://example.com".to_string()));

    let all = registry.list_all();
    assert_eq!(all.len(), 1);
    assert_eq!(all[0].code, code);
    assert_eq!(all[0].long_url, "https://example.com");

    let never = if code == "zzzzzz" { "yyyyyy" } else { "zzzzzz" };
    assert_eq!(registry.resolve(never), None);
}

#[test]
fn new_registry_is_empty() {
    let registry = UrlRegistry::new();
    assert_eq!(registry.len(), 0);
    assert!(registry.list_all().is_empty());
    assert_eq!(registry.max_draws(), DEFAULT_MAX_DRAWS);
    assert_eq!(DEFAULT_MAX_DRAWS, 64);
    assert_eq!(registry.resolve("abc123"), None);
    assert!(!registry.contains_code("abc123"));
}

#[test]
fn code_length_is_six() {
    assert_eq!(CODE_LEN, 6);
}

#[test]
fn generated_codes_are_six_alphanumerics() {
    for _ in 0..500 {
        let code = generate_short_code();
        assert_eq!(code.len(), 6);
        assert!(is_alphanumeric_code(&code), "{}", code);
        assert!(is_short_code_str(&code));
    }
}

#[test]
fn generated_codes_vary() {
    let codes: HashSet<String> = (0..200).map(|_| generate_short_code()).collect();
    assert!(codes.len() > 1);
    let symbols: HashSet<char> = codes.iter().flat_map(|c| c.chars()).collect();
    assert!(symbols.len() > 10);
}

#[test]
fn codes_are_pairwise_distinct() {
    let mut registry = UrlRegistry::new();
    let mut seen = HashSet::new();
    for n in 0..2000 {
        let code = registry.shorten(&format!("https://example.com/{}", n)).unwrap();
        assert!(seen.insert(code));
    }
    assert_eq!(registry.len(), 2000);
}

#[test]
fn same_url_twice_gives_two_codes() {
    let mut registry = UrlRegistry::new();
    let first = registry.shorten("https://example.com").unwrap();
    let second = registry.shorten("https://example.com").unwrap();
    assert_ne!(first, second);
    assert_eq!(registry.len(), 2);
    assert_eq!(registry.resolve(&first), Some("https://example.com".to_string()));
    assert_eq!(registry.resolve(&second), Some("https://example.com".to_string()));
}

#[test]
fn round_trip() {
    let mut registry = UrlRegistry::new();
    let urls = ["https://example.com", "not a url at all", "", "https://例え.jp/パス?q=1"];
    let mut codes = Vec::new();
    for url in urls {
        let code = registry.shorten(url).unwrap();
        assert_eq!(registry.resolve(&code), Some(url.to_string()));
        codes.push(code);
    }
    for (code, url) in codes.iter().zip(urls) {
        assert_eq!(registry.resolve(code), Some(url.to_string()));
    }
}

#[test]
fn no_false_positives() {
    let mut registry = UrlRegistry::new();
    assert!(registry.try_allocate("abc123", "https://a.example"));
    assert!(registry.try_allocate("Zz09aA", "https://b.example"));
    for probe in
        ["abc124", "ABC123", "abc12", "abc1234", "", "zzzzzz", "zz09aa", " abc123", "abc 123"]
    {
        assert_eq!(registry.resolve(probe), None, "{:?}", probe);
        assert!(!registry.contains_code(probe));
    }
    assert_eq!(registry.resolve("abc123"), Some("https://a.example".to_string()));
    assert_eq!(registry.resolve("Zz09aA"), Some("https://b.example".to_string()));
}

#[test]
fn listing_is_complete_and_in_order() {
    let mut registry = UrlRegistry::new();
    let mut expected = Vec::new();
    for n in 0..50 {
        let url = format!("https://example.com/page/{}", n);
        let code = registry.shorten(&url).unwrap();
        expected.push((code, url));
    }
    let all = registry.list_all();
    assert_eq!(all.len(), 50);
    for (entry, (code, url)) in all.iter().zip(expected.iter()) {
        assert_eq!(&entry.code, code);
        assert_eq!(&entry.long_url, url);
    }
}

#[test]
fn try_allocate_takes_a_free_well_formed_code() {
    let mut registry = UrlRegistry::new();
    assert!(registry.try_allocate("abc123", "https://example.com"));
    assert_eq!(registry.len(), 1);
    assert!(registry.contains_code("abc123"));
    assert_eq!(registry.resolve("abc123"), Some("https://example.com".to_string()));
    let all = registry.list_all();
    assert_eq!(all[0].code, "abc123");
    assert_eq!(all[0].long_url, "https://example.com");
}

#[test]
fn try_allocate_refuses_a_taken_code() {
    let mut registry = UrlRegistry::new();
    assert!(registry.try_allocate("abc123", "https://first.example"));
    assert!(!registry.try_allocate("abc123", "https://second.example"));
    assert_eq!(registry.len(), 1);
    assert_eq!(registry.resolve("abc123"), Some("https://first.example".to_string()));
}

#[test]
fn try_allocate_refuses_malformed_codes() {
    let mut registry = UrlRegistry::new();
    for bad in ["", "abc12", "abc1234", "abc-12", "abc 12", "ab/123", "äbc123", "ａｂｃ１２３", "abc12\n"]
    {
        assert!(!registry.try_allocate(bad, "https://example.com"));
        assert_eq!(registry.resolve(bad), None);
    }
    assert_eq!(registry.len(), 0);
}

#[test]
fn try_allocate_is_case_sensitive() {
    let mut registry = UrlRegistry::new();
    assert!(registry.try_allocate("abcdef", "https://lower.example"));
    assert!(registry.try_allocate("ABCDEF", "https://upper.example"));
    assert_eq!(registry.resolve("abcdef"), Some("https://lower.example".to_string()));
    assert_eq!(registry.resolve("ABCDEF"), Some("https://upper.example".to_string()));
    assert_eq!(registry.resolve("AbCdEf"), None);
}

#[test]
fn shorten_without_draws_reports_exhaustion() {
    let mut registry = UrlRegistry::with_max_draws(0);
    assert_eq!(registry.max_draws(), 0);
    assert_eq!(
        registry.shorten("https://example.com"),
        Err(ShortenError::KeyspaceExhaustion)
    );
    assert_eq!(registry.len(), 0);
    assert!(registry.list_all().is_empty());
}

#[test]
fn shorten_with_one_draw_succeeds_on_an_empty_registry() {
    let mut registry = UrlRegistry::with_max_draws(1);
    let code = registry.shorten("https://example.com").unwrap();
    assert!(is_alphanumeric_code(&code));
    assert_eq!(registry.max_draws(), 1);
    assert_eq!(registry.resolve(&code), Some("https://example.com".to_string()));
}

#[test]
fn shorten_keeps_earlier_allocations() {
    let mut registry = UrlRegistry::new();
    assert!(registry.try_allocate("abc123", "https://kept.example"));
    let code = registry.shorten("https://new.example").unwrap();
    assert_ne!(code, "abc123");
    assert_eq!(registry.resolve("abc123"), Some("https://kept.example".to_string()));
    assert_eq!(registry.resolve(&code), Some("https://new.example".to_string()));
    let all = registry.list_all();
    assert_eq!(all.len(), 2);
    assert_eq!(all[0].code, "abc123");
    assert_eq!(all[1].code, code);
}

#[test]
fn alphabet_has_sixty_two_symbols() {
    let count = (0u32..0x11_0000)
        .filter_map(char::from_u32)
        .filter(|c| is_code_char_exec(*c))
        .count();
    assert_eq!(count, 62);
    for c in ['A', 'Z', 'a', 'z', '0', '9', 'm', 'Q', '5'] {
        assert!(is_code_char_exec(c));
    }
    for c in ['@', '[', '`', '{', '/', ':', ' ', '-', '_', 'é', '٣'] {
        assert!(!is_code_char_exec(c));
    }
}

#[test]
fn short_codes_are_recognised() {
    assert!(is_short_code_str("abc123"));
    assert!(is_short_code_str("000000"));
    assert!(is_short_code_str("ZZZZZZ"));
    assert!(!is_short_code_str(""));
    assert!(!is_short_code_str("abc12"));
    assert!(!is_short_code_str("abc1234"));
    assert!(!is_short_code_str("abc12!"));
    assert!(!is_short_code_str("ééé"));
    assert!(!is_short_code_str("éééééé"));
}

fn draws_of(codes: &[&str]) -> Vec<String> {
    codes.iter().map(|c| c.to_string()).collect()
}

fn seeded(max_draws: usize) -> UrlRegistry {
    let mut registry = UrlRegistry::with_max_draws(max_draws);
    assert!(registry.try_allocate("abc123", "https://a.example"));
    assert!(registry.try_allocate("def456", "https://b.example"));
    registry
}

#[test]
fn code_of_draws_spells_the_bytes_in_order() {
    assert_eq!(code_of_draws(&b"Ab3xZ9".to_vec()), "Ab3xZ9");
    assert_eq!(code_of_draws(&b"AAAAAA".to_vec()), "AAAAAA");
    assert_eq!(code_of_draws(&b"AAAAAB".to_vec()), "AAAAAB");
    assert_eq!(code_of_draws(&b"BAAAAA".to_vec()), "BAAAAA");
    assert_eq!(code_of_draws(&vec![0x30, 0x39, 0x41, 0x5a, 0x61, 0x7a]), "09AZaz");
    assert_eq!(code_of_draws(&Vec::new()), "");
    assert_eq!(code_of_draws(&b"abc".to_vec()), "abc");
}

#[test]
fn code_of_draws_keeps_apart_what_differs() {
    let alphabet = b"ABCDEFGHIJKLMNOPQRSTUVWXYZabcdefghijklmnopqrstuvwxyz0123456789";
    let mut seen = HashSet::new();
    for position in 0..6 {
        for symbol in alphabet.iter() {
            let mut draws = b"AAAAAA".to_vec();
            draws[position] = *symbol;
            let code = code_of_draws(&draws);
            assert!(is_short_code_str(&code));
            assert_eq!(code.as_bytes()[position], *symbol);
            seen.insert(code);
        }
    }
    assert_eq!(seen.len(), 6 * 61 + 1);
}

#[test]
fn after_draw_allocates_a_free_candidate() {
    let mut registry = seeded(3);
    assert_eq!(registry.after_draw(0, "Zz9Zz9", "https://c.example"), Drawn::Allocated);
    assert_eq!(registry.len(), 3);
    assert_eq!(registry.resolve("Zz9Zz9"), Some("https://c.example".to_string()));
}

#[test]
fn after_draw_allocates_at_the_last_draw_allowed() {
    let mut registry = seeded(3);
    assert_eq!(registry.after_draw(2, "Zz9Zz9", "https://c.example"), Drawn::Allocated);
    assert_eq!(registry.len(), 3);
}

#[test]
fn after_draw_asks_for_another_draw_below_the_cap() {
    let mut registry = seeded(3);
    assert_eq!(registry.after_draw(0, "abc123", "https://c.example"), Drawn::Redraw);
    assert_eq!(registry.after_draw(1, "def456", "https://c.example"), Drawn::Redraw);
    assert_eq!(registry.len(), 2);
    assert_eq!(registry.resolve("abc123"), Some("https://a.example".to_string()));
    assert_eq!(registry.resolve("def456"), Some("https://b.example".to_string()));
}

#[test]
fn after_draw_gives_up_at_the_cap() {
    let mut registry = seeded(3);
    assert_eq!(registry.after_draw(2, "abc123", "https://c.example"), Drawn::Exhausted);
    assert_eq!(registry.len(), 2);
    assert_eq!(registry.resolve("abc123"), Some("https://a.example".to_string()));
}

#[test]
fn after_draw_refuses_a_draw_beyond_the_cap() {
    let mut registry = seeded(3);
    assert_eq!(registry.after_draw(3, "Zz9Zz9", "https://c.example"), Drawn::Exhausted);
    assert_eq!(registry.after_draw(usize::MAX, "Zz9Zz9", "https://c.example"), Drawn::Exhausted);
    assert_eq!(registry.len(), 2);
    let mut none = UrlRegistry::with_max_draws(0);
    assert_eq!(none.after_draw(0, "Zz9Zz9", "https://c.example"), Drawn::Exhausted);
    assert_eq!(none.len(), 0);
}

#[test]
fn after_draw_treats_a_malformed_candidate_as_taken() {
    let mut registry = seeded(2);
    assert_eq!(registry.after_draw(0, "abc12", "https://c.example"), Drawn::Redraw);
    assert_eq!(registry.after_draw(1, "abc-12", "https://c.example"), Drawn::Exhausted);
    assert_eq!(registry.len(), 2);
}

#[test]
fn shorten_with_draws_takes_the_first_free_candidate() {
    let mut registry = seeded(DEFAULT_MAX_DRAWS);
    let draws = draws_of(&["abc123", "def456", "Zz9Zz9", "Yy8Yy8"]);
    assert_eq!(registry.shorten_with_draws("https://c.example", &draws), Ok("Zz9Zz9".to_string()));
    assert_eq!(registry.len(), 3);
    let all = registry.list_all();
    assert_eq!(all[0].code, "abc123");
    assert_eq!(all[0].long_url, "https://a.example");
    assert_eq!(all[1].code, "def456");
    assert_eq!(all[1].long_url, "https://b.example");
    assert_eq!(all[2].code, "Zz9Zz9");
    assert_eq!(all[2].long_url, "https://c.example");
    assert_eq!(registry.resolve("Yy8Yy8"), None);
}

#[test]
fn shorten_with_draws_takes_the_first_draw_when_free() {
    let mut registry = seeded(DEFAULT_MAX_DRAWS);
    let draws = draws_of(&["Zz9Zz9", "Yy8Yy8"]);
    assert_eq!(registry.shorten_with_draws("https://c.example", &draws), Ok("Zz9Zz9".to_string()));
    assert_eq!(registry.len(), 3);
    assert_eq!(registry.resolve("Yy8Yy8"), None);
}

#[test]
fn shorten_with_draws_stops_at_the_cap() {
    let mut registry = seeded(2);
    let draws = draws_of(&["abc123", "def456", "Zz9Zz9"]);
    assert_eq!(
        registry.shorten_with_draws("https://c.example", &draws),
        Err(ShortenError::KeyspaceExhaustion)
    );
    assert_eq!(registry.len(), 2);
    assert_eq!(registry.resolve("Zz9Zz9"), None);

    let mut registry = seeded(3);
    assert_eq!(registry.shorten_with_draws("https://c.example", &draws), Ok("Zz9Zz9".to_string()));
}

#[test]
fn shorten_with_draws_fails_when_every_draw_is_taken() {
    let mut registry = seeded(DEFAULT_MAX_DRAWS);
    let draws = draws_of(&["abc123", "def456", "abc123", "bad", ""]);
    assert_eq!(
        registry.shorten_with_draws("https://c.example", &draws),
        Err(ShortenError::KeyspaceExhaustion)
    );
    assert_eq!(registry.shorten_with_draws("https://c.example", &Vec::new()),
        Err(ShortenError::KeyspaceExhaustion));
    assert_eq!(registry.len(), 2);
    assert_eq!(registry.resolve("abc123"), Some("https://a.example".to_string()));
    assert_eq!(registry.resolve("def456"), Some("https://b.example".to_string()));
}

#[test]
fn shorten_with_draws_passes_over_malformed_draws() {
    let mut registry = seeded(DEFAULT_MAX_DRAWS);
    let draws = draws_of(&["abc12", "abc1234", "ab c12", "Zz9Zz9"]);
    assert_eq!(registry.shorten_with_draws("https://c.example", &draws), Ok("Zz9Zz9".to_string()));
    assert_eq!(registry.len(), 3);
}
