use bunner_cors_rs::util::{
    ascii_lowercase, eq_ignore_ascii_case, is_http_token, lowercase_unicode_if_needed, lowercase_unicode_into,
};
use bunner_cors_rs::{equals_ignore_case, normalize_lower};

#[test]
fn should_return_ascii_lowercase_when_input_ascii_then_use_fast_path() {
    let result = normalize_lower("HeAdEr");

    assert_eq!(result, "header");
}

#[test]
fn should_return_unicode_lowercase_when_input_unicode_then_preserve_characters() {
    let result = normalize_lower("TÉST");

    assert_eq!(result, "tést");
}

#[test]
fn should_return_original_when_unicode_lowercase_then_skip_extra_allocation() {
    let result = normalize_lower("straße");

    assert_eq!(result, "straße");
}

#[test]
fn should_return_ascii_lowercase_when_input_empty_then_return_empty_string() {
    let result = normalize_lower("");

    assert_eq!(result, "");
}

#[test]
fn should_return_true_when_ascii_values_match_case_insensitively_then_detect_equality() {
    let result = equals_ignore_case("FoO", "fOo");

    assert!(result);
}

#[test]
fn should_return_false_when_ascii_values_differ_then_detect_inequality() {
    let result = equals_ignore_case("Foo", "Bar");

    assert!(!result);
}

#[test]
fn should_return_true_when_unicode_values_match_case_insensitively_then_detect_equality() {
    let result = equals_ignore_case("TÉST", "tést");

    assert!(result);
}

#[test]
fn should_lowercase_only_second_value_when_mixed_case_then_detect_equality() {
    let result = equals_ignore_case("münchen", "MÜNCHEN");

    assert!(result);
}

#[test]
fn should_return_false_when_unicode_values_differ_then_detect_inequality() {
    let result = equals_ignore_case("Ápp", "Ápd");

    assert!(!result);
}

#[test]
fn should_compare_directly_when_inputs_without_uppercase_then_use_simple_equality() {
    let result = equals_ignore_case("straße", "strasse");

    assert!(!result);
}

#[test]
fn should_return_true_when_value_contains_valid_token_characters_then_accept_value() {
    assert!(is_http_token("X-Custom"));
    assert!(is_http_token("token123"));
}

#[test]
fn should_return_false_when_value_contains_invalid_character_then_reject_value() {
    assert!(!is_http_token("Header:Value"));
    assert!(!is_http_token(" space"));
}

#[test]
fn should_return_false_when_value_empty_then_reject_value() {
    assert!(!is_http_token(""));
}

#[test]
fn should_return_none_when_input_has_no_uppercase_then_skip_allocation() {
    let result = lowercase_unicode_if_needed("straße");

    assert!(result.is_none());
}

#[test]
fn should_return_lowercased_string_when_input_contains_uppercase_then_allocate_buffer() {
    let result = lowercase_unicode_if_needed("Sérvice");

    assert_eq!(result, Some("sérvice".to_string()));
}

#[test]
fn should_return_false_when_value_all_lowercase_then_leave_buffer_empty() {
    let mut buffer = String::new();

    let result = lowercase_unicode_into("straße", &mut buffer);

    assert!(!result);
    assert!(buffer.is_empty());
}

#[test]
fn should_lowercase_value_when_buffer_capacity_sufficient_then_reuse_allocation() {
    let mut buffer = String::with_capacity(16);

    let result = lowercase_unicode_into("SÉRVICE", &mut buffer);

    assert!(result);
    assert_eq!(buffer, "sérvice");
}

#[test]
fn equals_ignore_case_is_symmetric_on_examples() {
    for (a, b) in [("ÄBC", "äbc"), ("x", "X"), ("ß", "SS"), ("", "")] {
        assert_eq!(equals_ignore_case(a, b), equals_ignore_case(b, a));
    }
}

#[test]
fn equals_ignore_case_agrees_with_lowercase_forms() {
    assert!(equals_ignore_case("Ωmega", "ωMEGA"));
    assert_eq!(normalize_lower("Ωmega"), normalize_lower("ωMEGA"));
}

#[test]
fn normalize_lower_maps_kelvin_sign_to_ascii_k() {
    assert_eq!(normalize_lower("\u{212A}"), "k");
}

#[test]
fn ascii_case_folding_leaves_non_ascii_alone() {
    assert_eq!(ascii_lowercase("ÀBC"), "Àbc");
    assert!(eq_ignore_ascii_case("Vary", "vARY"));
    assert!(!eq_ignore_ascii_case("É", "é"));
}

#[test]
fn trimming_removes_unicode_white_space_only() {
    assert_eq!(bunner_cors_rs::text::trim_string("\u{3000}\u{85}x\u{2003}\u{a0}"), "x");
    assert_eq!(bunner_cors_rs::text::trim_string("\u{180e}x\u{200b}"), "\u{180e}x\u{200b}");
    assert!(bunner_cors_rs::text::is_whitespace('\u{2028}'));
    assert!(!bunner_cors_rs::text::is_whitespace('\u{200b}'));
}
