use smoke::run::{parse_count, ConfigError, Context};
use smoke::seed::{Seed, SeedError};
use std::str::FromStr;

#[test]
fn string_seed() {
    assert_eq!(
        "00000000-00000000-00000000-00000000",
        Seed::from(0).to_string()
    )
}

#[test]
fn string_seed_parse() {
    assert_eq!(
        Seed::from_str("10000000-01020304-12412414-09080706").expect("parse correctly"),
        Seed::from(0x10000000_01020304_12412414_09080706)
    )
}

#[test]
fn seed_text_is_upper_case_hex() {
    let s = Seed::from(0x0123456789abcdef_fedcba9876543210);
    assert_eq!(s.to_string(), "01234567-89ABCDEF-FEDCBA98-76543210");
}

#[test]
fn seed_round_trip_arbitrary() {
    for v in [
        0u128,
        1,
        u128::MAX,
        0xdeadbeef_00000001_80000000_7fffffff,
        0x10000000_01020304_12412414_09080706,
    ] {
        let s = Seed::from(v);
        assert_eq!(Seed::parse(&s.to_string()), Ok(s));
    }
}

#[test]
fn seed_parse_errors() {
    assert_eq!(Seed::parse("00000000-00000000-00000000"), Err(SeedError::WrongArity));
    assert_eq!(Seed::parse(""), Err(SeedError::WrongArity));
    assert_eq!(Seed::parse("0-0-0-0-0"), Err(SeedError::WrongArity));
    assert_eq!(
        Seed::parse("0000000X-00000000-00000000-00000000"),
        Err(SeedError::NotHex(0))
    );
    assert_eq!(Seed::parse("00000000--00000000-00000000"), Err(SeedError::NotHex(1)));
    assert_eq!(
        Seed::parse("00000000-00000000-100000000-00000000"),
        Err(SeedError::NotHex(2))
    );
    assert_eq!(
        Seed::parse("00000000-00000000-00000000-0000000G"),
        Err(SeedError::NotHex(3))
    );
    assert_eq!(
        Seed::from_str("00000000-00000000-00000000-0000000g"),
        Err("cannot parse 4th element as hexadecimal integer")
    );
    assert_eq!(
        Seed::from_str("0-0"),
        Err("expecting 4 hexadecimal values separated by -")
    );
}

#[test]
fn seed_parse_accepts_only_the_canonical_form() {
    assert_eq!(
        Seed::parse("FFFFFFFF-00000000-00000000-0000000A"),
        Ok(Seed::from(0xffffffff_00000000_00000000_0000000a))
    );
    assert_eq!(Seed::parse("1-2-3-4"), Err(SeedError::NotHex(0)));
    assert_eq!(
        Seed::parse("ffffffff-00000000-00000000-00000000"),
        Err(SeedError::NotHex(0))
    );
    assert_eq!(
        Seed::parse("00000000-+0000000-00000000-00000000"),
        Err(SeedError::NotHex(1))
    );
}

#[test]
fn count_parsing() {
    assert_eq!(parse_count("1000"), Some(1000));
    assert_eq!(parse_count("+7"), Some(7));
    assert_eq!(parse_count("18446744073709551615"), Some(u64::MAX));
    assert_eq!(parse_count("18446744073709551616"), None);
    assert_eq!(parse_count(""), None);
    assert_eq!(parse_count("12a"), None);
    assert_eq!(parse_count("-1"), None);
}

#[test]
fn context_configuration() {
    let default = Seed::from(42);
    let c = Context::configure(None, None, default).ok().unwrap();
    assert_eq!(c.seed(), default);
    assert_eq!(c.nb_tests(), 1000);
    let c = Context::configure(Some("00000000-00000000-00000000-00000001"), Some("5"), default)
        .ok()
        .unwrap();
    assert_eq!(c.seed(), Seed::from(1));
    assert_eq!(c.nb_tests(), 5);
    assert!(matches!(
        Context::configure(Some("00000000-00000001"), None, default),
        Err(ConfigError::BadSeed(SeedError::WrongArity))
    ));
    assert!(matches!(
        Context::configure(None, Some("many"), default),
        Err(ConfigError::BadCount)
    ));
}
