use selector_signatures::score::{
    checked_score_signature, count_digits, is_decimal_digit, score_from_counts, score_signature,
};

#[test]
fn score_signature_should_return_correct_score() {
    let signature = String::from("test_signature");
    let score = score_signature(&signature);
    let expected_score = 1000
        - (signature.len() as u32)
        - (signature.matches(|c: char| c.is_numeric()).count() as u32) * 3;
    assert_eq!(score, expected_score);
}

#[test]
fn score_of_plain_text_is_base_less_length() {
    assert_eq!(score_signature("test_signature"), 986);
    assert_eq!(score_signature(""), 1000);
}

#[test]
fn score_charges_three_more_for_each_digit() {
    assert_eq!(score_signature("a(uint256)"), 1000 - 10 - 9);
    assert_eq!(score_signature("a1(uint256)"), 1000 - 11 - 12);
    assert_eq!(score_signature("0123456789"), 1000 - 10 - 30);
}

#[test]
fn score_ties_are_broken_by_length_and_digits() {
    assert!(score_signature("a(uint256)") > score_signature("a(uint256,uint256)"));
    assert!(score_signature("a(uint256)") > score_signature("a1(uint256)"));
}

#[test]
fn score_falls_with_length_at_fixed_digit_count() {
    let mut text = String::from("f(uint8)");
    let mut last = score_signature(&text);
    for _ in 0..50 {
        text.push('x');
        let next = score_signature(&text);
        assert!(next < last);
        assert_eq!(next + 1, last);
        last = next;
    }
}

#[test]
fn score_counts_length_in_bytes_and_decimal_digits_only() {
    // two bytes, no digit
    assert_eq!(score_signature("é"), 998);
    // ARABIC-INDIC DIGIT THREE: two bytes, no decimal digit
    assert_eq!(score_signature("٣"), 998);
    // ROMAN NUMERAL ONE: three bytes, no decimal digit
    assert_eq!(score_signature("Ⅰ"), 997);
    // VULGAR FRACTION ONE HALF scores as any other character of two bytes
    assert_eq!(score_signature("a\u{00BD}()"), 995);
    assert_eq!(score_signature("a\u{00E9}()"), 995);
    assert_eq!(score_signature("a\u{00BD}()"), score_signature("a\u{00E9}()"));
}

#[test]
fn only_zero_to_nine_are_digits() {
    for c in "0123456789".chars() {
        assert!(is_decimal_digit(c));
    }
    for c in "/:aZ ٣Ⅰ\u{00BD}\u{00B2}".chars() {
        assert!(!is_decimal_digit(c));
    }
    assert_eq!(count_digits("a(uint256,uint256)"), 6);
    assert_eq!(count_digits("test_signature"), 0);
    assert_eq!(count_digits("٣1Ⅰ2"), 2);
    assert_eq!(count_digits(""), 0);
}

#[test]
fn score_from_counts_is_base_less_length_less_three_a_digit() {
    assert_eq!(score_from_counts(0, 0), 1000);
    assert_eq!(score_from_counts(14, 0), 986);
    assert_eq!(score_from_counts(10, 3), 981);
    assert_eq!(score_from_counts(11, 4), 977);
    assert_eq!(score_from_counts(18, 6), 964);
    assert_eq!(score_from_counts(1000, 0), 0);
    assert_eq!(score_from_counts(250, 250), 0);
}

#[test]
fn scenario_signatures_have_their_scores() {
    assert_eq!(score_signature("a(uint256)"), 981);
    assert_eq!(score_signature("a1(uint256)"), 977);
    assert_eq!(score_signature("a(uint256,uint256)"), 964);
    assert_eq!(score_signature("test_signature"), 986);
}

#[test]
fn equal_texts_score_equally() {
    for text in ["transfer(address,uint256)", "a1(uint8)", "", "é٣"] {
        let copy = text.to_string();
        assert_eq!(score_signature(text), score_signature(&copy));
        assert_eq!(checked_score_signature(text), checked_score_signature(&copy));
    }
    let long = "x9".repeat(600);
    assert_eq!(checked_score_signature(&long), checked_score_signature(&long.clone()));
}

#[test]
fn checked_score_agrees_where_a_score_exists() {
    assert_eq!(checked_score_signature("test_signature"), Some(986));
    assert_eq!(checked_score_signature("a(uint256)"), Some(981));
    let exact = "x".repeat(1000);
    assert_eq!(checked_score_signature(&exact), Some(0));
    let digits = "7".repeat(250);
    assert_eq!(checked_score_signature(&digits), Some(0));
}

#[test]
fn checked_score_is_none_where_the_cost_exceeds_the_base() {
    let long = "x".repeat(1001);
    assert_eq!(checked_score_signature(&long), None);
    let digits = "7".repeat(251);
    assert_eq!(checked_score_signature(&digits), None);
    let wide = "é".repeat(501);
    assert_eq!(checked_score_signature(&wide), None);
}
