use fns::country::CountryCode;
use fns::decimal::decimal_string;
use fns::hostname::get_vpn_string;

#[test]
fn get_vpn_string_when_au_enum_string_should_return_correct_string() {
    let test_country = CountryCode::Au;
    let test_index = 42;
    let expected_result = "au42.nordvpn.com";

    let actual_result = get_vpn_string(&test_country, &test_index);

    assert_eq!(expected_result, actual_result);
}

#[test]
fn get_vpn_string_when_empty_country_should_return_correct_string() {
    let test_country = CountryCode::Empty;
    let test_index = 42;
    let expected_result = "42.nordvpn.com";

    let actual_result = get_vpn_string(&test_country, &test_index);

    assert_eq!(expected_result, actual_result);
}

#[test]
fn get_vpn_string_at_the_ends_of_the_id_space() {
    assert_eq!(get_vpn_string(&CountryCode::Us, &0), "us0.nordvpn.com");
    assert_eq!(
        get_vpn_string(&CountryCode::Uk, &u32::MAX),
        "uk4294967295.nordvpn.com"
    );
    assert_eq!(get_vpn_string(&CountryCode::De, &1000), "de1000.nordvpn.com");
}

#[test]
fn get_vpn_string_gives_distinct_names_to_distinct_ids() {
    let mut names: Vec<String> = Vec::new();
    for id in 0..1200u32 {
        names.push(get_vpn_string(&CountryCode::Au, &id));
    }
    for i in 0..names.len() {
        for j in (i + 1)..names.len() {
            assert_ne!(names[i], names[j]);
        }
    }
}

#[test]
fn decimal_string_writes_the_shortest_text() {
    assert_eq!(decimal_string(0), "0");
    assert_eq!(decimal_string(7), "7");
    assert_eq!(decimal_string(10), "10");
    assert_eq!(decimal_string(1905), "1905");
    assert_eq!(decimal_string(u64::MAX), "18446744073709551615");
}

#[test]
fn country_code_gives_its_prefix_in_lower_case() {
    assert_eq!(CountryCode::Au.code(), "au");
    assert_eq!(CountryCode::Za.code(), "za");
    assert_eq!(CountryCode::Empty.code(), "");
}

#[test]
fn country_code_is_read_from_its_two_letters() {
    assert_eq!(CountryCode::from_code("au"), Some(CountryCode::Au));
    assert_eq!(CountryCode::from_code("Au"), Some(CountryCode::Au));
    assert_eq!(CountryCode::from_code("VN"), Some(CountryCode::Vn));
    assert_eq!(CountryCode::from_code("xx"), None);
    assert_eq!(CountryCode::from_code(""), None);
    assert_eq!(CountryCode::from_code("aus"), None);
}
