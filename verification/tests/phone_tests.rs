use mobcsv::phone::add_country_prefix;
use mobcsv::phone::is_valid_phone;
use mobcsv::phone::normalize;
use mobcsv::phone::remove_dialing_prefix;
use mobcsv::phone::remove_special_chars;
use mobcsv::phone::trim_ws;

#[test]
fn stripping_special_chars_twice_changes_nothing() {
    let once = remove_special_chars("+2(011) 1-661#30*61");
    let twice = remove_special_chars(once.as_str());
    assert_eq!(once, "201116613061");
    assert_eq!(twice, once);
}

#[test]
fn trim_removes_edge_whitespace_only() {
    assert_eq!(trim_ws("\t 201116613061 \r\n"), "201116613061");
    assert_eq!(trim_ws(""), "");
    assert_eq!(trim_ws("  \t "), "");
}

#[test]
fn dialing_prefix_removed_once() {
    assert_eq!(remove_dialing_prefix("00201116613061"), "201116613061");
    assert_eq!(remove_dialing_prefix("0123456789"), "123456789");
    assert_eq!(remove_dialing_prefix("000123"), "0123");
    assert_eq!(remove_dialing_prefix("123"), "123");
    assert_eq!(remove_dialing_prefix(""), "");
}

#[test]
fn country_prefix_is_pure_concatenation() {
    assert_eq!(add_country_prefix("1116613061"), "201116613061");
    assert_eq!(add_country_prefix("540029129"), "966540029129");
    assert_eq!(add_country_prefix("7123"), "7123");
    assert_eq!(add_country_prefix(""), "");
}

#[test]
fn normalize_keeps_unrecognized_strings() {
    assert_eq!(normalize("20111bad"), "20111bad");
    assert!(!is_valid_phone("20111bad"));
}

#[test]
fn normalize_short_number_still_too_short() {
    assert_eq!(normalize("1232131"), "201232131");
    assert!(!is_valid_phone("201232131"));
}

#[test]
fn normalize_strips_specials_without_inference() {
    assert_eq!(normalize("+2(0111)6613061"), "201116613061");
    assert!(is_valid_phone("201116613061"));
}

#[test]
fn normalize_drops_leading_zeros_before_stripping() {
    assert_eq!(normalize("00201116613061"), "201116613061");
    assert_eq!(normalize(" 0123456789 "), "20123456789");
    assert!(is_valid_phone("20123456789"));
}

#[test]
fn normalize_infers_country_codes() {
    assert_eq!(normalize("1116613061"), "201116613061");
    assert_eq!(normalize("540029129"), "966540029129");
}

#[test]
fn validator_length_bounds() {
    assert!(is_valid_phone("20123456789"));
    assert!(!is_valid_phone("2012345678"));
    assert!(is_valid_phone("2012345678901"));
    assert!(!is_valid_phone("20123456789012"));
    assert!(is_valid_phone("966123456789"));
    assert!(!is_valid_phone("96612345678"));
    assert!(is_valid_phone("96612345678901"));
    assert!(!is_valid_phone("966123456789012"));
    assert!(!is_valid_phone(""));
    assert!(!is_valid_phone("12345678901"));
}

#[test]
fn validator_rejects_non_digits_after_code() {
    assert!(!is_valid_phone("20123456x89"));
    assert!(!is_valid_phone("966five4002912"));
}
