use std::cmp::Ordering;
use std::collections::HashSet;
use std::time::SystemTime;

use uuid::{
    clone, compare, from_random_words, from_str, from_time_fields, gregorian_ticks, parse,
    ParseError, UUID, UUID_random, UUID_time,
};

fn version_char(u: &UUID) -> char {
    u.to_str().chars().nth(14).unwrap()
}

#[test]
fn test_compare() {
    let uuid = UUID();
    let uuid2 = clone(uuid);

    assert!(uuid == uuid);
    assert!(uuid == uuid2);
    assert!(uuid >= uuid2);
    assert!(uuid <= uuid2);

    let uuid = UUID { v1: 123, v2: 123 };
    let uuid2 = UUID { v1: 122, v2: 123 };

    assert!(uuid > uuid2);
    assert!(uuid2 < uuid);
}

#[test]
fn test_string() {
    let uuid = UUID();
    assert!(from_str(&uuid.to_str()) == Some(uuid));
}

#[test]
fn test_generate() {
    let uuid0 = UUID { v1: 0, v2: 0 };
    let uuid1 = UUID();
    let uuid2 = UUID_random();
    let uuid3 = UUID_time();

    assert!(uuid0 < uuid1);
    assert!(uuid0 < uuid2);
    assert!(uuid0 < uuid3);

    assert!(uuid1 != uuid2);
    assert!(uuid2 != uuid3);
    assert!(uuid3 != uuid1);
}

#[test]
fn test() {
    for _i in 0..100000 {
        let uuid = UUID();
        assert!(Some(uuid) == from_str(&uuid.to_str()));

        let uuid = UUID_random();
        assert!(Some(uuid) == from_str(&uuid.to_str()));

        let uuid = UUID_time();
        assert!(Some(uuid) == from_str(&uuid.to_str()));
    }
}

#[test]
fn round_trip_extremes() {
    let zero = UUID { v1: 0, v2: 0 };
    let full = UUID { v1: u64::MAX, v2: u64::MAX };
    assert_eq!(zero.to_str(), "00000000-0000-0000-0000-000000000000");
    assert_eq!(full.to_str(), "ffffffff-ffff-ffff-ffff-ffffffffffff");
    assert_eq!(parse(&zero.to_str()), Ok(zero));
    assert_eq!(parse(&full.to_str()), Ok(full));
    let mixed = UUID { v1: 0x0123_4567_89ab_cdef, v2: 0xfedc_ba98_7654_3210 };
    assert_eq!(mixed.to_str(), "01234567-89ab-cdef-fedc-ba9876543210");
    assert_eq!(parse(&mixed.to_str()), Ok(mixed));
}

#[test]
fn format_known_value() {
    let u = UUID { v1: 0x550e_8400_e29b_41d4, v2: 0xa716_4466_5544_0000 };
    assert_eq!(u.to_str(), "550e8400-e29b-41d4-a716-446655440000");
}

#[test]
fn format_shape_of_generated() {
    for u in [UUID(), UUID_random(), UUID_time(), UUID { v1: 7, v2: 9 }] {
        let s = u.to_str();
        assert_eq!(s.len(), 36);
        for (k, c) in s.chars().enumerate() {
            if k == 8 || k == 13 || k == 18 || k == 23 {
                assert_eq!(c, '-');
            } else {
                assert!(c.is_ascii_digit() || ('a'..='f').contains(&c));
            }
        }
    }
}

#[test]
fn parse_then_format_scenario() {
    let text = "550e8400-e29b-41d4-a716-446655440000";
    let u = parse(text).unwrap();
    assert_eq!(u, UUID { v1: 0x550e_8400_e29b_41d4, v2: 0xa716_4466_5544_0000 });
    assert_eq!(u.to_str(), text);
}

#[test]
fn parse_rejects_bad_content() {
    let text = "not-a-uuid-at-all-xxxxxxxxxxxxxxxxxx";
    assert_eq!(text.chars().count(), 36);
    assert_eq!(parse(text), Err(ParseError::InvalidFormat));
    assert_eq!(from_str(text), None);
    // 37 characters: the length is wrong before the content is looked at.
    assert_eq!(parse("not-a-uuid-at-all-xxxxxxxxxxxxxxxxxxx"), Err(ParseError::InvalidLength));
}

#[test]
fn parse_rejects_short() {
    assert_eq!(parse("short"), Err(ParseError::InvalidLength));
    assert_eq!(parse(""), Err(ParseError::InvalidLength));
    assert_eq!(parse("550e8400-e29b-41d4-a716-4466554400000"), Err(ParseError::InvalidLength));
    assert_eq!(from_str("short"), None);
}

#[test]
fn parse_rejects_misplaced_hyphen() {
    assert_eq!(parse("550e8400e-29b-41d4-a716-446655440000"), Err(ParseError::InvalidFormat));
    assert_eq!(parse("550e8400-e29b-41d4-a716+446655440000"), Err(ParseError::InvalidFormat));
    assert_eq!(parse("550e8400-e29b-41d4-a716-44665544000g"), Err(ParseError::InvalidFormat));
}

#[test]
fn parse_rejects_non_ascii() {
    let text = "550e8400-e29b-41d4-a716-44665544000é";
    assert_eq!(text.chars().count(), 36);
    assert_eq!(parse(text), Err(ParseError::InvalidFormat));
}

#[test]
fn parse_accepts_uppercase() {
    let upper = parse("550E8400-E29B-41D4-A716-446655440000").unwrap();
    let lower = parse("550e8400-e29b-41d4-a716-446655440000").unwrap();
    assert_eq!(upper, lower);
    assert_eq!(upper.to_str(), "550e8400-e29b-41d4-a716-446655440000");
}

#[test]
fn compare_orders_by_bits() {
    let a = UUID { v1: 1, v2: u64::MAX };
    let b = UUID { v1: 2, v2: 0 };
    assert_eq!(compare(&a, &b), Ordering::Less);
    assert_eq!(compare(&b, &a), Ordering::Greater);
    assert_eq!(compare(&a, &a), Ordering::Equal);
    assert_eq!(a.partial_cmp(&b), Some(Ordering::Less));
    assert!(a.to_str() < b.to_str());
    let c = UUID { v1: 2, v2: 1 };
    assert_eq!(compare(&b, &c), Ordering::Less);
    assert!(b.to_str() < c.to_str());
}

#[test]
fn order_laws_on_random_triples() {
    for _i in 0..1000 {
        let a = UUID_random();
        let b = UUID_random();
        let c = if _i % 2 == 0 { UUID_random() } else { clone(a) };
        for (x, y) in [(a, b), (b, c), (a, c)] {
            assert_eq!(compare(&x, &y), compare(&y, &x).reverse());
            assert_eq!(compare(&x, &y) == Ordering::Equal, x == y);
            assert_eq!(x == y, y == x);
            assert_eq!(compare(&x, &y), x.to_str().cmp(&y.to_str()));
        }
        assert_eq!(compare(&a, &a), Ordering::Equal);
        if compare(&a, &b) == Ordering::Less && compare(&b, &c) == Ordering::Less {
            assert_eq!(compare(&a, &c), Ordering::Less);
        }
        if a == c && c == a {
            assert!(compare(&a, &c) == Ordering::Equal);
        }
    }
}

#[test]
fn zero_below_generated() {
    let zero = UUID { v1: 0, v2: 0 };
    for _i in 0..100 {
        assert!(zero < UUID());
        assert!(zero < UUID_random());
        assert!(zero < UUID_time());
    }
}

#[test]
fn generators_do_not_collide() {
    let mut seen: HashSet<UUID> = HashSet::new();
    for _i in 0..100000 {
        assert!(seen.insert(UUID()));
        assert!(seen.insert(UUID_random()));
        assert!(seen.insert(UUID_time()));
    }
    let a = UUID_time();
    let b = UUID_time();
    assert!(a != b);
}

#[test]
fn generated_versions() {
    assert_eq!(version_char(&UUID()), '4');
    assert_eq!(version_char(&UUID_random()), '4');
    let t = UUID_time();
    assert_eq!(version_char(&t), '1');
    for u in [UUID(), UUID_random(), t] {
        let variant = u.to_str().chars().nth(19).unwrap();
        assert!(['8', '9', 'a', 'b'].contains(&variant));
    }
    assert!(t.v2 & 0x0100_0000_0000 != 0);
}

#[test]
fn random_layout() {
    assert_eq!(from_random_words(0, 0), UUID { v1: 0x4000, v2: 0x8000_0000_0000_0000 });
    assert_eq!(from_random_words(0, 0).to_str(), "00000000-0000-4000-8000-000000000000");
    assert_eq!(
        from_random_words(u64::MAX, u64::MAX),
        UUID { v1: 0xffff_ffff_ffff_4fff, v2: 0xbfff_ffff_ffff_ffff }
    );
}

#[test]
fn time_layout() {
    let u = from_time_fields(0x0123_4567_89ab_cdef, 0x1234, 0x0a0b_0c0d_0e0f);
    assert_eq!(u.to_str(), "89abcdef-4567-1123-9234-0a0b0c0d0e0f");
    let high = from_time_fields(u64::MAX, u16::MAX, u64::MAX);
    assert_eq!(high.to_str(), "ffffffff-ffff-1fff-bfff-ffffffffffff");
}

#[test]
fn ticks_from_unix_time() {
    assert_eq!(gregorian_ticks(0, 0), 0x01b2_1dd2_1381_4000);
    assert_eq!(gregorian_ticks(1, 599), 0x01b2_1dd2_1381_4000 + 10_000_000 + 5);
    let big = (u64::MAX as u128 * 10_000_000 + 9_999_999 + 0x01b2_1dd2_1381_4000) % (1u128 << 60);
    assert_eq!(gregorian_ticks(u64::MAX, 999_999_999) as u128, big);
}

#[test]
fn time_based_timestamp_is_now() {
    let before = SystemTime::now().duration_since(SystemTime::UNIX_EPOCH).unwrap();
    let u = UUID_time();
    let after = SystemTime::now().duration_since(SystemTime::UNIX_EPOCH).unwrap();
    let low = gregorian_ticks(before.as_secs(), before.subsec_nanos());
    let high = gregorian_ticks(after.as_secs(), after.subsec_nanos());
    let ts = ((u.v1 & 0xfff) << 48) | (((u.v1 >> 16) & 0xffff) << 32) | (u.v1 >> 32);
    assert!(low <= ts && ts <= high);
}

#[test]
fn parse_through_from_str_trait() {
    let u: UUID = "00000000-0000-4000-8000-00000000002a".parse().unwrap();
    assert_eq!(u, UUID { v1: 0x4000, v2: 0x8000_0000_0000_002a });
    assert_eq!("00000000-0000-4000-8000-00000000002".parse::<UUID>(), Err(ParseError::InvalidLength));
}
