use banglakit::normalize::{
    ekar_recombine, ikar_swap, nfc, pre_normalize, reph_reorder, ya_phala_zwj, AA_KAR, E_KAR,
    HASANTA, I_KAR, O_KAR, RA, YA, ZWJ,
};

#[test]
fn pre_normalize_strips_soft_hyphen() {
    assert_eq!(pre_normalize("a\u{00AD}b"), "ab");
}

#[test]
fn pre_normalize_folds_crlf() {
    assert_eq!(pre_normalize("a\r\nb"), "a\nb");
}

#[test]
fn ikar_swap_moves_i_kar_after_consonant() {
    let input = format!("{}{}", I_KAR, '\u{0995}');
    let expected = format!("{}{}", '\u{0995}', I_KAR);
    assert_eq!(ikar_swap(&input), expected);
}

#[test]
fn ikar_swap_handles_e_kar() {
    let input = format!("{}{}", E_KAR, '\u{0995}');
    let expected = format!("{}{}", '\u{0995}', E_KAR);
    assert_eq!(ikar_swap(&input), expected);
}

#[test]
fn ekar_recombine_folds_o_kar() {
    let input = format!("{}{}{}", '\u{0995}', E_KAR, AA_KAR);
    let expected = format!("{}{}", '\u{0995}', O_KAR);
    assert_eq!(ekar_recombine(&input), expected);
}

#[test]
fn ya_phala_inserts_zwj() {
    let input = format!("{}{}{}", RA, HASANTA, YA);
    let expected = format!("{}{}{}{}", RA, ZWJ, HASANTA, YA);
    assert_eq!(ya_phala_zwj(&input), expected);
}

#[test]
fn reph_reorder_consonant_first_moves_reph_before() {
    // ক + র + ্  →  র + ্ + ক
    let input = format!("{}{}{}", '\u{0995}', RA, HASANTA);
    let expected = format!("{}{}{}", RA, HASANTA, '\u{0995}');
    assert_eq!(reph_reorder(&input), expected);
}

#[test]
fn reph_reorder_idempotent_when_reph_first() {
    // র + ্ + ক  →  unchanged
    let input = format!("{}{}{}", RA, HASANTA, '\u{0995}');
    assert_eq!(reph_reorder(&input), input);
}

#[test]
fn nfc_decomposes_precomposed_nukta() {
    // U+09DC has composition exclusion; NFC decomposes to U+09A1 U+09BC.
    let composed = "\u{09DC}";
    assert_eq!(nfc(composed), "\u{09A1}\u{09BC}");
}

#[test]
fn pre_normalize_folds_nbsp_and_is_idempotent() {
    let once = pre_normalize("a\u{00A0}b\r\r\nc\u{00AD}");
    assert_eq!(once, "a b\nc");
    assert_eq!(pre_normalize(&once), once);
}

#[test]
fn ikar_swap_keeps_length_and_moves_past_conjunct() {
    // ি + ক + ্ + ষ → ক + ্ + ষ + ি
    let input = format!("{}{}{}{}", I_KAR, '\u{0995}', HASANTA, '\u{09B7}');
    let expected = format!("{}{}{}{}", '\u{0995}', HASANTA, '\u{09B7}', I_KAR);
    let got = ikar_swap(&input);
    assert_eq!(got, expected);
    assert_eq!(got.chars().count(), input.chars().count());
}

#[test]
fn ekar_recombine_folds_au_kar() {
    let input = format!("{}{}{}", '\u{0995}', E_KAR, '\u{09D7}');
    assert_eq!(ekar_recombine(&input), "\u{0995}\u{09CC}");
}

fn sorted_chars(s: &str) -> Vec<char> {
    let mut v: Vec<char> = s.chars().collect();
    v.sort();
    v
}

#[test]
fn reordering_passes_only_move_characters() {
    for s in ["\u{09BF}\u{0995}\u{09CD}\u{09B7}a", "\u{0995}\u{09B0}\u{09CD}x\u{09C7}\u{09AE}", "plain text"] {
        assert_eq!(sorted_chars(&ikar_swap(s)), sorted_chars(s));
        assert_eq!(sorted_chars(&reph_reorder(s)), sorted_chars(s));
    }
    assert_ne!(ikar_swap("\u{09BF}\u{0995}"), "\u{09BF}\u{0995}");
    assert_ne!(reph_reorder("\u{0995}\u{09B0}\u{09CD}"), "\u{0995}\u{09B0}\u{09CD}");
}

#[test]
fn lone_cr_and_nbsp_fold_in_place() {
    assert_eq!(pre_normalize("a\r\u{00A0}b"), "a\n b");
    assert_eq!(pre_normalize("a\r\n\u{00A0}b"), "a\n b");
}

#[test]
fn reph_moves_before_a_cluster_closed_by_a_vowel_sign() {
    let ka = '\u{0995}';
    let input: String = [ka, AA_KAR, RA, HASANTA].iter().collect();
    let expected: String = [RA, HASANTA, ka, AA_KAR].iter().collect();
    assert_eq!(reph_reorder(&input), expected);
}

#[test]
fn reph_moves_before_a_whole_conjunct() {
    let (ka, ssa) = ('\u{0995}', '\u{09B7}');
    let input: String = [ka, HASANTA, ssa, RA, HASANTA].iter().collect();
    let expected: String = [RA, HASANTA, ka, HASANTA, ssa].iter().collect();
    assert_eq!(reph_reorder(&input), expected);
}

#[test]
fn ekar_and_ya_phala_passes_are_idempotent() {
    let e = "\u{09C7}";
    for s in [
        format!("\u{0995}{e}{e}\u{09BE}x{e}\u{09D7}"),
        "\u{09B0}\u{09CD}\u{09AF}\u{09B0}\u{09CD}\u{09B0}\u{09CD}\u{09AF}".to_string(),
        "\u{200D}\u{09B0}\u{09CD}\u{09AF}".to_string(),
    ] {
        let r = ekar_recombine(&s);
        assert_eq!(ekar_recombine(&r), r);
        assert_eq!(r, s.replace("\u{09C7}\u{09BE}", "\u{09CB}").replace("\u{09C7}\u{09D7}", "\u{09CC}"));
        let y = ya_phala_zwj(&s);
        assert_eq!(ya_phala_zwj(&y), y);
        let without = |t: &str| t.chars().filter(|c| *c != ZWJ).collect::<String>();
        assert_eq!(without(&y), without(&s));
    }
}

#[test]
fn nfc_output_is_stable() {
    for s in ["\u{09A1}\u{09BC}", "\u{09DC}", "e\u{0301}"] {
        let once = nfc(s);
        assert_eq!(nfc(&once), once);
    }
}
