use release_assets::toolchain::{is_digit, maybe_date, Channel, ParseError, Toolchain};
use target_lexicon::{Architecture, BinaryFormat, Environment, OperatingSystem, Triple, Vendor};
use time::{Date, Month};

fn linux_gnu() -> Triple {
    Triple {
        architecture: Architecture::X86_64,
        vendor: Vendor::Unknown,
        operating_system: OperatingSystem::Linux,
        environment: Environment::Gnu,
        binary_format: BinaryFormat::Elf,
    }
}

fn new_year_2022() -> Date {
    Date::from_calendar_date(2022, Month::January, 1).unwrap()
}

#[test]
fn test_toolchain() {
    assert_eq!(Toolchain::channel(Channel::Stable), "stable".parse().unwrap());
    assert_eq!(Toolchain::channel(Channel::Beta), "beta".parse().unwrap());
    assert_eq!(Toolchain::channel(Channel::Nightly), "nightly".parse().unwrap());
    assert_eq!(
        Toolchain::channel(Channel::Partial { major: 1, minor: 58 }),
        "1.58".parse().unwrap()
    );
    assert_eq!(
        Toolchain::channel(Channel::Full { major: 1, minor: 58, patch: 1 }),
        "1.58.1".parse().unwrap()
    );
    assert_eq!(
        Toolchain::with_date(Channel::Stable, new_year_2022()),
        "stable-2022-01-01".parse().unwrap()
    );
    assert_eq!(
        Toolchain::with_host(Channel::Stable, linux_gnu()),
        "stable-x86_64-unknown-linux-gnu".parse().unwrap()
    );
    assert_eq!(
        Toolchain::with_date_and_host(Channel::Stable, new_year_2022(), linux_gnu()),
        "stable-2022-01-01-x86_64-unknown-linux-gnu".parse().unwrap()
    );
    assert_eq!(
        Toolchain::with_date_and_host(
            Channel::Full { major: 1, minor: 58, patch: 1 },
            new_year_2022(),
            linux_gnu()
        ),
        "1.58.1-2022-01-01-x86_64-unknown-linux-gnu".parse().unwrap()
    );
}

#[test]
fn toolchain_new_sets_every_part() {
    let toolchain = Toolchain::new(Channel::Beta, Some(new_year_2022()), Some(linux_gnu()));
    assert_eq!(toolchain.channel, Channel::Beta);
    assert_eq!(toolchain.date, Some(new_year_2022()));
    assert_eq!(toolchain.host, Some(linux_gnu()));
    assert_eq!(Toolchain::default(), Toolchain::channel(Channel::Stable));
    assert_eq!(Channel::default(), Channel::Stable);
}

#[test]
fn toolchain_text_round_trip() {
    for name in [
        "stable",
        "beta",
        "nightly",
        "1.58",
        "1.58.1",
        "0.0.0",
        "255.255.255",
        "nightly-2022-01-01",
        "stable-x86_64-unknown-linux-gnu",
        "1.58.1-2022-12-31-aarch64-unknown-linux-gnu",
        "nightly-2024-02-29",
        "nightly-0001-01-01",
    ] {
        let toolchain = Toolchain::parse(name).unwrap();
        assert_eq!(toolchain.to_string(), name);
    }
}

#[test]
fn toolchain_date_is_written_with_leading_zeros() {
    let date = Date::from_calendar_date(987, Month::March, 4).unwrap();
    assert_eq!(Toolchain::with_date(Channel::Nightly, date).to_string(), "nightly-0987-03-04");
    let first = Date::from_calendar_date(0, Month::December, 31).unwrap();
    assert_eq!(Toolchain::with_date(Channel::Beta, first).to_string(), "beta-0000-12-31");
    let last = Date::from_calendar_date(9999, Month::October, 10).unwrap();
    assert_eq!(Toolchain::with_date(Channel::Beta, last).to_string(), "beta-9999-10-10");
    let early = Date::from_calendar_date(-45, Month::January, 9).unwrap();
    assert_eq!(Toolchain::with_date(Channel::Beta, early).to_string(), "beta--0045-01-09");
    let earliest = Date::from_calendar_date(-9999, Month::January, 1).unwrap();
    assert_eq!(Toolchain::with_date(Channel::Beta, earliest).to_string(), "beta--9999-01-01");
    assert!(Date::from_calendar_date(10000, Month::January, 1).is_err());
    assert!(Date::from_calendar_date(-10000, Month::January, 1).is_err());
}

#[test]
fn every_channel_is_read_back_from_its_name() {
    for channel in [Channel::Stable, Channel::Beta, Channel::Nightly] {
        assert_eq!(Channel::parse(&channel.to_string()), Ok(channel));
        assert_eq!(Toolchain::parse(&channel.to_string()), Ok(Toolchain::channel(channel)));
    }
    for major in 0..=255u8 {
        for minor in [0u8, 1, 9, 10, 58, 99, 100, 199, 200, 255] {
            let partial = Channel::Partial { major, minor };
            assert_eq!(Channel::parse(&partial.to_string()), Ok(partial));
            let full = Channel::Full { major: minor, minor: major, patch: minor };
            assert_eq!(Channel::parse(&full.to_string()), Ok(full));
            assert_eq!(Toolchain::parse(&full.to_string()), Ok(Toolchain::channel(full)));
        }
    }
}

#[test]
fn channel_text() {
    assert_eq!(Channel::Stable.to_string(), "stable");
    assert_eq!(Channel::Beta.to_string(), "beta");
    assert_eq!(Channel::Nightly.to_string(), "nightly");
    assert_eq!(Channel::Partial { major: 1, minor: 58 }.to_string(), "1.58");
    assert_eq!(Channel::Full { major: 10, minor: 0, patch: 255 }.to_string(), "10.0.255");
}

#[test]
fn channel_numbers_are_read_like_integers() {
    assert_eq!(Channel::parse("+1.+58"), Ok(Channel::Partial { major: 1, minor: 58 }));
    assert_eq!(Channel::parse("001.058"), Ok(Channel::Partial { major: 1, minor: 58 }));
    assert_eq!(
        Channel::parse("0000000000000000000000255.00000000000000000000000000000000000000001"),
        Ok(Channel::Partial { major: 255, minor: 1 })
    );
    assert_eq!(
        Channel::parse("0000000000000000000000256.1"),
        Err(ParseError::InvalidNumber)
    );
    assert_eq!(Channel::parse("99999999999999999999999999.1"), Err(ParseError::InvalidNumber));
    assert_eq!(Channel::parse("0.0.0"), Ok(Channel::Full { major: 0, minor: 0, patch: 0 }));
    assert_eq!(
        Channel::parse("255.255.255"),
        Ok(Channel::Full { major: 255, minor: 255, patch: 255 })
    );
}

#[test]
fn channel_errors() {
    assert_eq!(Channel::parse("1"), Err(ParseError::MissingMinorVersion));
    assert_eq!(Channel::parse("255"), Err(ParseError::MissingMinorVersion));
    assert_eq!(Channel::parse(""), Err(ParseError::InvalidNumber));
    assert_eq!(Channel::parse("256"), Err(ParseError::InvalidNumber));
    assert_eq!(Channel::parse("1.256"), Err(ParseError::InvalidNumber));
    assert_eq!(Channel::parse("1.58.256"), Err(ParseError::InvalidNumber));
    assert_eq!(Channel::parse("1.58.1.2"), Err(ParseError::InvalidNumber));
    assert_eq!(Channel::parse("1."), Err(ParseError::InvalidNumber));
    assert_eq!(Channel::parse("1.58."), Err(ParseError::InvalidNumber));
    assert_eq!(Channel::parse(".58"), Err(ParseError::InvalidNumber));
    assert_eq!(Channel::parse("-1.58"), Err(ParseError::InvalidNumber));
    assert_eq!(Channel::parse("+.58"), Err(ParseError::InvalidNumber));
    assert_eq!(Channel::parse("Stable"), Err(ParseError::InvalidNumber));
    assert_eq!(Channel::parse("stable "), Err(ParseError::InvalidNumber));
    assert_eq!(Channel::parse("1.5\u{e9}"), Err(ParseError::InvalidNumber));
}

#[test]
fn toolchain_errors() {
    assert_eq!(Toolchain::parse("stable-2022-02-30"), Err(ParseError::InvalidDate));
    assert_eq!(Toolchain::parse("stable-2022-13-01"), Err(ParseError::InvalidDate));
    assert_eq!(Toolchain::parse("stable-2022-00-10"), Err(ParseError::InvalidDate));
    assert_eq!(Toolchain::parse("stable-2022-01-00"), Err(ParseError::InvalidDate));
    assert_eq!(Toolchain::parse("stable-2023-02-29"), Err(ParseError::InvalidDate));
    assert_eq!(Toolchain::parse("stable-1900-02-29"), Err(ParseError::InvalidDate));
    assert!(Toolchain::parse("stable-2000-02-29").is_ok());
    assert_eq!(Toolchain::parse("stable-nonsense"), Err(ParseError::InvalidHost));
    assert_eq!(Toolchain::parse("stable-2022-01-01-nonsense"), Err(ParseError::InvalidHost));
    assert_eq!(Toolchain::parse("stable-2022-1-1"), Err(ParseError::InvalidHost));
    assert_eq!(
        Toolchain::parse("oldest-x86_64-unknown-linux-gnu"),
        Err(ParseError::InvalidNumber)
    );
    assert_eq!(Toolchain::parse("1-x86_64-unknown-linux-gnu"), Err(ParseError::MissingMinorVersion));
    // The date is looked at before the host, and the host before the channel.
    assert_eq!(Toolchain::parse("oldest-2022-02-30-nonsense"), Err(ParseError::InvalidDate));
    assert_eq!(Toolchain::parse("oldest-2022-02-03-nonsense"), Err(ParseError::InvalidHost));
}

#[test]
fn toolchain_edges() {
    // Nothing after the dash: neither date nor host.
    assert_eq!(Toolchain::parse("stable-"), Ok(Toolchain::channel(Channel::Stable)));
    // One more dash before the host is passed over.
    assert_eq!(
        Toolchain::parse("stable--x86_64-unknown-linux-gnu"),
        Ok(Toolchain::with_host(Channel::Stable, linux_gnu()))
    );
    // A date may be followed by a dash and nothing more.
    assert_eq!(
        Toolchain::parse("stable-2022-01-01-"),
        Ok(Toolchain::with_date(Channel::Stable, new_year_2022()))
    );
    // The host may follow the date without a dash.
    assert_eq!(
        Toolchain::parse("stable-2022-01-01x86_64-unknown-linux-gnu"),
        Ok(Toolchain::with_date_and_host(Channel::Stable, new_year_2022(), linux_gnu()))
    );
}

#[test]
fn date_shapes() {
    assert!(maybe_date("2022-01-01"));
    assert!(maybe_date("2022-01-01-x86_64"));
    assert!(maybe_date("0000-00-00"));
    assert!(maybe_date("9999-99-99"));
    assert!(!maybe_date("2022-01-0"));
    assert!(!maybe_date(""));
    assert!(!maybe_date("2022/01/01"));
    assert!(!maybe_date("20220-1-01"));
    assert!(!maybe_date("x86_64-unknown-linux-gnu"));
    assert!(!maybe_date("2022-01-0\u{661}"));
}

#[test]
fn digits() {
    assert!(is_digit(b"0123456789"));
    assert!(is_digit(b""));
    assert!(!is_digit(b"12a"));
    assert!(!is_digit(b"/"));
    assert!(!is_digit(b":"));
    assert!(!is_digit("\u{661}".as_bytes()));
}
