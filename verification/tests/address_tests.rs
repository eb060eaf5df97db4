use fns::classify::ProbeOutcome;
use fns::error::ConfigurationError;
use fns::ipv4::{
    is_blacklisted, is_in_same_subnet, is_same_ip, is_valid_ip, validate_target, Ipv4Addr,
};
use fns::probe::{outcome_of_reply, parse_ping_result, read_reply};

#[test]
fn when_valid_hostname_should_return_ip() {
    let test_ping_result = "PING au548.nordvpn.com (41.42.43.44): 56 data bytes".to_string();

    let expect_ip_string = "41.42.43.44".to_string().parse::<Ipv4Addr>().unwrap();

    let actual_result = parse_ping_result(test_ping_result);

    assert_eq!(expect_ip_string, actual_result);
}

#[test]
fn when_invalid_hostname_empty_should_return_zero_oct() {
    let test_ping_result = "".to_string();

    let expect_ip_string = "0.0.0.0".to_string().parse::<Ipv4Addr>().unwrap();

    let actual_result = parse_ping_result(test_ping_result);

    assert_eq!(expect_ip_string, actual_result);
}

#[test]
fn when_source_target_subnet_same_should_return_true() {
    let test_a: u8 = 10;
    let test_b: u8 = 20;
    let test_c: u8 = 30;

    let test_source = Ipv4Addr::new(test_a.clone(), test_b.clone(), test_c.clone(), 1);
    let test_target = Ipv4Addr::new(test_a.clone(), test_b.clone(), test_c.clone(), 42);

    let actual_result = is_in_same_subnet(&test_source, &test_target);
    assert_eq!(actual_result, true);
}

#[test]
fn when_source_target_subnet_different_should_return_false() {
    let test_a: u8 = 10;
    let test_b: u8 = 20;

    let test_source = Ipv4Addr::new(test_a.clone(), test_b.clone(), 0, 1);
    let test_target = Ipv4Addr::new(test_a.clone(), test_b.clone(), 1, 42);

    let actual_result = is_in_same_subnet(&test_source, &test_target);
    assert_eq!(actual_result, false);
}

#[test]
fn when_source_target_exactly_same_should_return_true() {
    let test_a: u8 = 10;
    let test_b: u8 = 20;
    let test_c: u8 = 30;
    let test_source = Ipv4Addr::new(test_a.clone(), test_b.clone(), test_c.clone(), 200);
    let test_target = Ipv4Addr::new(test_a.clone(), test_b.clone(), test_c.clone(), 200);

    let actual_result = is_in_same_subnet(&test_source, &test_target);
    assert_eq!(actual_result, true);
}

#[test]
fn when_same_ip_should_return_true() {
    let test_source = "1.2.3.4".parse::<Ipv4Addr>().unwrap();
    let test_target = "1.2.3.4".parse::<Ipv4Addr>().unwrap();

    assert_eq!(is_same_ip(&test_source, &test_target), true);
}

#[test]
fn when_different_ip_should_return_true() {
    let test_source = "4.3.2.1".parse::<Ipv4Addr>().unwrap();
    let test_target = "1.2.3.4".parse::<Ipv4Addr>().unwrap();

    assert_eq!(is_same_ip(&test_source, &test_target), false);
}

#[test]
fn when_empty_should_throw_error() {
    let actual_error_message =
        is_valid_ip(&"".to_string()).expect_err("expecting an error to occur");
    assert_eq!(actual_error_message, "Invalid IP Address");
}

#[test]
fn when_zero_ip_should_throw_error() {
    let actual_error_message = is_valid_ip(&"0.0.0.0".to_string()).expect_err("blah");
    assert_eq!(actual_error_message, "IP Address is blacklisted");
}

#[test]
fn when_loopback_ip_should_throw_error() {
    let actual_error_message = is_valid_ip(&"127.0.0.1".to_string()).expect_err("blah");
    assert_eq!(actual_error_message, "IP Address is blacklisted");
}

#[test]
fn when_bad_ip_should_throw_errorxxx() {
    let actual_error_message = is_valid_ip(&"#.#.#.#".to_string()).expect_err("blah");
    assert_eq!(actual_error_message, "Invalid IP Address");
}

#[test]
fn when_valid_ip_should_return_brackets() {
    let actual_result =
        is_valid_ip(&"1.2.3.4".to_string()).expect("should of gotten a string back");
    assert_eq!(actual_result, ());
}

#[test]
fn same_ip_is_never_true_of_the_zero_address() {
    let zero = Ipv4Addr::new(0, 0, 0, 0);
    assert_eq!(is_same_ip(&zero, &zero), false);
    assert_eq!(is_same_ip(&zero, &Ipv4Addr::new(1, 2, 3, 4)), false);
    assert_eq!(is_same_ip(&Ipv4Addr::new(1, 2, 3, 4), &zero), false);
}

#[test]
fn octets_come_most_significant_first() {
    assert_eq!(Ipv4Addr::new(41, 42, 43, 44).octets(), [41, 42, 43, 44]);
}

#[test]
fn parse_reads_every_well_formed_address() {
    assert_eq!(Ipv4Addr::parse("0.0.0.0"), Some(Ipv4Addr::new(0, 0, 0, 0)));
    assert_eq!(Ipv4Addr::parse("1.2.3.4"), Some(Ipv4Addr::new(1, 2, 3, 4)));
    assert_eq!(
        Ipv4Addr::parse("255.255.255.255"),
        Some(Ipv4Addr::new(255, 255, 255, 255))
    );
    assert_eq!(Ipv4Addr::parse("10.200.0.99"), Some(Ipv4Addr::new(10, 200, 0, 99)));
}

#[test]
fn parse_refuses_what_is_no_address() {
    assert_eq!(Ipv4Addr::parse(""), None);
    assert_eq!(Ipv4Addr::parse("1.2.3"), None);
    assert_eq!(Ipv4Addr::parse("1.2.3.4.5"), None);
    assert_eq!(Ipv4Addr::parse("1..3.4"), None);
    assert_eq!(Ipv4Addr::parse(".1.2.3"), None);
    assert_eq!(Ipv4Addr::parse("1.2.3."), None);
    assert_eq!(Ipv4Addr::parse("256.1.1.1"), None);
    assert_eq!(Ipv4Addr::parse("1.2.3.1000"), None);
    assert_eq!(Ipv4Addr::parse("01.2.3.4"), None);
    assert_eq!(Ipv4Addr::parse("1.2.3.00"), None);
    assert_eq!(Ipv4Addr::parse(" 1.2.3.4"), None);
    assert_eq!(Ipv4Addr::parse("1.2.3.4 "), None);
    assert_eq!(Ipv4Addr::parse("a.b.c.d"), None);
    assert_eq!(Ipv4Addr::parse("1.2.3.-4"), None);
    assert_eq!(Ipv4Addr::parse("١.2.3.4"), None);
}

#[test]
fn to_text_and_parse_agree() {
    let samples = [
        Ipv4Addr::new(0, 0, 0, 0),
        Ipv4Addr::new(127, 0, 0, 1),
        Ipv4Addr::new(41, 42, 43, 44),
        Ipv4Addr::new(255, 255, 255, 255),
        Ipv4Addr::new(9, 10, 99, 100),
    ];
    for ip in samples.iter() {
        assert_eq!(Ipv4Addr::parse(&ip.to_text()), Some(*ip));
    }
    assert_eq!(Ipv4Addr::new(41, 42, 43, 44).to_text(), "41.42.43.44");
    assert_eq!(Ipv4Addr::new(9, 10, 99, 100).to_text(), "9.10.99.100");
}

#[test]
fn validate_target_tells_the_three_answers_apart() {
    assert_eq!(validate_target("41.42.43.44"), Ok(Ipv4Addr::new(41, 42, 43, 44)));
    assert_eq!(
        validate_target("0.0.0.0"),
        Err(ConfigurationError::BlacklistedAddress)
    );
    assert_eq!(
        validate_target("127.0.0.1"),
        Err(ConfigurationError::BlacklistedAddress)
    );
    assert_eq!(validate_target("127.0.0.2"), Ok(Ipv4Addr::new(127, 0, 0, 2)));
    assert_eq!(validate_target("localhost"), Err(ConfigurationError::InvalidAddress));
}

#[test]
fn only_zero_and_loopback_are_blacklisted() {
    assert!(is_blacklisted(&Ipv4Addr::new(0, 0, 0, 0)));
    assert!(is_blacklisted(&Ipv4Addr::new(127, 0, 0, 1)));
    assert!(!is_blacklisted(&Ipv4Addr::new(127, 0, 0, 0)));
    assert!(!is_blacklisted(&Ipv4Addr::new(0, 0, 0, 1)));
    assert!(!is_blacklisted(&Ipv4Addr::new(41, 42, 43, 44)));
}

#[test]
fn from_str_reads_what_parse_reads() {
    assert_eq!("1.2.3.4".parse::<Ipv4Addr>(), Ok(Ipv4Addr::new(1, 2, 3, 4)));
    assert_eq!(
        "1.2.3".parse::<Ipv4Addr>(),
        Err(ConfigurationError::InvalidAddress)
    );
    assert_eq!(
        "0.0.0.0".parse::<Ipv4Addr>(),
        Ok(Ipv4Addr::new(0, 0, 0, 0))
    );
}

#[test]
fn configuration_errors_have_their_messages() {
    assert_eq!(ConfigurationError::InvalidAddress.message(), "Invalid IP Address");
    assert_eq!(
        ConfigurationError::BlacklistedAddress.message(),
        "IP Address is blacklisted"
    );
    assert_eq!(
        ConfigurationError::NoWorkers.message(),
        "Thread count must be at least 1"
    );
}

#[test]
fn ping_output_is_read_from_its_first_line_only() {
    let reply = "PING au548.nordvpn.com (41.42.43.44): 56 data bytes\n64 bytes from (1.2.3.4)";
    assert_eq!(read_reply(reply), Some(Ipv4Addr::new(41, 42, 43, 44)));
    let late = "\nPING au548.nordvpn.com (41.42.43.44): 56 data bytes";
    assert_eq!(read_reply(late), None);
    assert_eq!(parse_ping_result(late.to_string()), Ipv4Addr::new(0, 0, 0, 0));
}

#[test]
fn malformed_ping_output_resolves_nothing() {
    assert_eq!(read_reply("ping: cannot resolve au1.nordvpn.com"), None);
    assert_eq!(read_reply("PING host )41.42.43.44("), None);
    assert_eq!(read_reply("PING host (41.42.43.44"), None);
    assert_eq!(read_reply("PING host ()"), None);
    assert_eq!(read_reply("PING host (41.42.43)"), None);
    assert_eq!(read_reply("PING host (41.42.43.444)"), None);
    assert_eq!(
        parse_ping_result("PING host (not an address)".to_string()),
        Ipv4Addr::new(0, 0, 0, 0)
    );
}

#[test]
fn outcome_of_reply_is_resolved_or_unresolved() {
    assert_eq!(
        outcome_of_reply("PING au548.nordvpn.com (41.42.43.44): 56 data bytes"),
        ProbeOutcome::Resolved(Ipv4Addr::new(41, 42, 43, 44))
    );
    assert_eq!(
        outcome_of_reply("PING x (0.0.0.0): 56 data bytes"),
        ProbeOutcome::Resolved(Ipv4Addr::new(0, 0, 0, 0))
    );
    assert_eq!(outcome_of_reply(""), ProbeOutcome::Unresolved);
    assert_eq!(outcome_of_reply("no brackets here"), ProbeOutcome::Unresolved);
}
