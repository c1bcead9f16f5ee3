use chat_stats::extract::extract_int_value;

#[test]
fn finds_server_count() {
    assert_eq!(extract_int_value("Servers:", "Servers: ``42``"), Some(42));
}

#[test]
fn finds_member_count() {
    assert_eq!(extract_int_value("Users:", "Users: ``7``"), Some(7));
}

#[test]
fn label_is_case_sensitive() {
    assert_eq!(extract_int_value("Servers:", "servers: ``42``"), None);
}

#[test]
fn unrelated_text_is_absence_not_error() {
    assert_eq!(extract_int_value("Servers:", "hello world"), None);
    assert_eq!(extract_int_value("Servers:", ""), None);
}

#[test]
fn no_whitespace_needed() {
    assert_eq!(extract_int_value("Servers:", "Servers:``9``"), Some(9));
}

#[test]
fn long_whitespace_run() {
    assert_eq!(extract_int_value("Servers:", "Servers: \t  ``123``"), Some(123));
}

#[test]
fn label_embedded_in_longer_text() {
    assert_eq!(
        extract_int_value("Servers:", "Stats!\nServers: ``31425``\nUsers: ``99``"),
        Some(31425)
    );
    assert_eq!(
        extract_int_value("Users:", "Stats!\nServers: ``31425``\nUsers: ``99``"),
        Some(99)
    );
}

#[test]
fn missing_backticks_do_not_match() {
    assert_eq!(extract_int_value("Servers:", "Servers: 42"), None);
    assert_eq!(extract_int_value("Servers:", "Servers: `42`"), None);
    assert_eq!(extract_int_value("Servers:", "Servers: ``42`"), None);
}

#[test]
fn empty_code_span_does_not_match() {
    assert_eq!(extract_int_value("Servers:", "Servers: ``````"), None);
}

#[test]
fn non_digit_code_span_does_not_match() {
    assert_eq!(extract_int_value("Servers:", "Servers: ``many``"), None);
}

#[test]
fn leading_zeros_parse() {
    assert_eq!(extract_int_value("Servers:", "Servers: ``0000042``"), Some(42));
}

#[test]
fn u32_boundary() {
    assert_eq!(
        extract_int_value("Servers:", "Servers: ``4294967295``"),
        Some(u32::MAX)
    );
}

#[test]
fn overflowing_match_yields_nothing() {
    assert_eq!(extract_int_value("Servers:", "Servers: ``4294967296``"), None);
}

#[test]
fn overflowing_match_does_not_fall_through_to_later_match() {
    assert_eq!(
        extract_int_value("Servers:", "Servers: ``99999999999`` Servers: ``5``"),
        None
    );
}

#[test]
fn leftmost_match_wins() {
    assert_eq!(
        extract_int_value("Servers:", "Servers: ``5`` Servers: ``6``"),
        Some(5)
    );
}

#[test]
fn digits_stop_at_first_non_digit() {
    assert_eq!(extract_int_value("Servers:", "Servers: ``12a``"), None);
    assert_eq!(extract_int_value("Servers:", "Servers: ``12``a"), Some(12));
}
