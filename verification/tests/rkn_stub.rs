use freedpi::probe::config::ProbeConfig;
use freedpi::probe::letters::lower_case;
use freedpi::probe::rkn_stub::{
    contains_subsequence, default_rkn_stubs, is_rkn_stub, is_rkn_stub_default,
};

#[test]
fn test_rkn_stub_detected() {
    let body = b"This page is blocked by Roskomnadzor. The content is restricted.";
    assert!(is_rkn_stub_default(body));
}

#[test]
fn test_rkn_stub_russian() {
    let body = "Доступ к данному ресурсу заблокирован по решению Роскомнадзора.".as_bytes();
    assert!(is_rkn_stub_default(body));
}

#[test]
fn test_rkn_stub_blockpage() {
    let body = b"<html><title>BlockPage</title><body>Access denied</body></html>";
    assert!(is_rkn_stub_default(body));
}

#[test]
fn test_rkn_stub_poiskman() {
    let body = b"<html><body>PoiskMan block page</body></html>";
    assert!(is_rkn_stub_default(body));
}

#[test]
fn test_rkn_stub_internet_zapret() {
    let body = b"internet-zapret project blocking";
    assert!(is_rkn_stub_default(body));
}

#[test]
fn test_no_stub_clean_page() {
    let body = b"<html><title>Example</title><body>Hello World</body></html>";
    assert!(!is_rkn_stub_default(body));
}

#[test]
fn test_no_stub_empty() {
    assert!(!is_rkn_stub_default(b""));
}

#[test]
fn test_contains_subsequence_basic() {
    assert!(contains_subsequence(b"hello world", b"world"));
    assert!(!contains_subsequence(b"hello world", b"xyz"));
}

#[test]
fn test_contains_subsequence_empty_needle() {
    assert!(contains_subsequence(b"hello", b""));
}

#[test]
fn every_known_block_page_is_recognised() {
    let stubs = default_rkn_stubs();
    assert_eq!(stubs.len(), 10);
    for stub in &stubs {
        assert!(is_rkn_stub_default(stub.as_bytes()));
        let upper = stub.to_uppercase();
        assert!(is_rkn_stub_default(upper.as_bytes()));
        let wrapped = format!("<html>{}</html>", upper);
        assert!(is_rkn_stub_default(wrapped.as_bytes()));
    }
}

#[test]
fn the_settings_say_what_a_block_page_holds() {
    let mut config = ProbeConfig::default();
    assert!(is_rkn_stub(b"access RESTRICTED here", &config));
    config.rkn_stub_substrings = vec!["Ёлка Закрыто".to_string(), "gone".to_string()];
    assert!(!is_rkn_stub(b"access RESTRICTED here", &config));
    assert!(is_rkn_stub(b"it is Gone", &config));
    assert!(is_rkn_stub("ёлка ЗАКРЫТО".as_bytes(), &config));
    assert!(!is_rkn_stub("ёлка открыто".as_bytes(), &config));
    config.rkn_stub_substrings = vec!["Доступ ЗАБОРОНЕНО: ЇЖАК ҐАНОК".to_string()];
    assert!(is_rkn_stub("доступ Заборонено: їжак ґанок".as_bytes(), &config));
    assert!(is_rkn_stub("ДОСТУП ЗАБОРОНЕНО: ЇЖАК ҐАНОК".as_bytes(), &config));
    config.rkn_stub_substrings = vec!["gesperrt für ä".to_string()];
    assert!(is_rkn_stub("GESPERRT FÜR Ä".as_bytes(), &config));
    config.rkn_stub_substrings = Vec::new();
    assert!(!is_rkn_stub(b"gone", &config));
    config.rkn_stub_substrings = vec![String::new()];
    assert!(is_rkn_stub(b"x", &config));
    assert!(!is_rkn_stub(b"", &config));
}

#[test]
fn bytes_that_are_no_text_do_no_harm() {
    assert!(!is_rkn_stub_default(&[0xD0]));
    assert!(!is_rkn_stub_default(&[0xD0, 0xD0, 0xFF, 0x41]));
    // A torn letter around a block text does not hide it.
    let mut torn = vec![0xD0];
    torn.extend_from_slice(b"blockpage");
    torn.push(0xD0);
    torn.push(0xA0);
    assert!(is_rkn_stub_default(&torn));
    assert!(!contains_subsequence(b"", b"a"));
    assert!(contains_subsequence(b"", b""));
}

#[test]
fn letters_are_lowered_one_by_one() {
    let same = |upper: &str, lower: &str| {
        assert_eq!(String::from_utf8(lower_case(upper.as_bytes())).unwrap(), lower)
    };
    same("Hello, WORLD 123", "hello, world 123");
    same("ÄÖÜß ÀÉÎ ŁÓDŹ ŸĴ", "äöüß àéî łódź ÿĵ");
    same("ΑΒΓ ΆΈΏ Ϗ", "αβγ άέώ ϗ");
    same("АЯЁ ЄІЇҐ ЎЂ ӘҚӨ Ԛ", "аяё єіїґ ўђ әқө ԛ");
    same("ԱՖ ႠჅ ᲐᲿ Ꭰ Ᏽ", "աֆ ⴀⴥ აჿ ꭰ ᏽ");
    same("ẠỚỸ ᾈ Ⓐ Ⅳ ＡＺ", "ạớỹ ᾀ ⓐ ⅳ ａｚ");
    // Another number of bytes, or four of them, and no letters.
    same("İ \u{212A} Ⱥ 𐐀 漢字 😀", "İ \u{212A} Ⱥ 𐐀 漢字 😀");
    // The letters that are covered agree with the usual lower case.
    for u in 0x20u32..0x10000 {
        if let Some(c) = char::from_u32(u) {
            let text = c.to_string();
            let usual = text.to_lowercase();
            let lower = String::from_utf8(lower_case(text.as_bytes())).unwrap();
            if usual.len() == text.len() {
                assert_eq!(lower, usual, "{:x}", u);
            } else {
                assert_eq!(lower, text, "{:x}", u);
            }
        }
    }
}

#[test]
fn bytes_that_form_no_letter_stay() {
    for bytes in [
        vec![0xC3],
        vec![0x84, 0xC3, 0x41],
        vec![0xE1, 0xBA],
        vec![0xE0, 0x83, 0x84],
        vec![0xC1, 0x81],
        vec![0xFF, 0xC3, 0xC3, 0x84],
    ] {
        let lower = lower_case(&bytes);
        assert_eq!(lower.len(), bytes.len());
        assert_eq!(lower_case(&lower), lower);
    }
    assert_eq!(lower_case(&[0x84, 0xC3, 0x41]), vec![0x84, 0xC3, 0x61]);
    assert_eq!(lower_case(&[0xE0, 0x83, 0x84]), vec![0xE0, 0x83, 0x84]);
    assert_eq!(lower_case(&[0xFF, 0xC3, 0xC3, 0x84]), vec![0xFF, 0xC3, 0xC3, 0xA4]);
}
