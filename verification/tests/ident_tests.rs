use one_time_secret::ident::parse_id;

#[test]
fn parse_reads_the_hyphenated_form() {
    assert_eq!(
        parse_id("a1a2a3a4-b1b2-c1c2-d1d2-d3d4d5d6d7d8"),
        Some(0xa1a2a3a4b1b2c1c2d1d2d3d4d5d6d7d8)
    );
    assert_eq!(parse_id("00000000-0000-0000-0000-000000000000"), Some(0));
    assert_eq!(parse_id("00000000-0000-0000-0000-000000000001"), Some(1));
    assert_eq!(parse_id("ffffffff-ffff-ffff-ffff-ffffffffffff"), Some(u128::MAX));
}

#[test]
fn parse_reads_upper_case() {
    assert_eq!(
        parse_id("A1A2A3A4-B1B2-C1C2-D1D2-D3D4D5D6D7D8"),
        Some(0xa1a2a3a4b1b2c1c2d1d2d3d4d5d6d7d8)
    );
}

#[test]
fn parse_reads_the_simple_urn_and_braced_forms() {
    let id = Some(0xa1a2a3a4b1b2c1c2d1d2d3d4d5d6d7d8u128);
    assert_eq!(parse_id("a1a2a3a4b1b2c1c2d1d2d3d4d5d6d7d8"), id);
    assert_eq!(parse_id("urn:uuid:a1a2a3a4-b1b2-c1c2-d1d2-d3d4d5d6d7d8"), id);
    assert_eq!(parse_id("{a1a2a3a4-b1b2-c1c2-d1d2-d3d4d5d6d7d8}"), id);
}

#[test]
fn parse_refuses_malformed_text() {
    assert_eq!(parse_id(""), None);
    assert_eq!(parse_id("hello"), None);
    assert_eq!(parse_id("a1a2a3a4-b1b2-c1c2-d1d2-d3d4d5d6d7d"), None);
    assert_eq!(parse_id("a1a2a3a4-b1b2-c1c2-d1d2-d3d4d5d6d7d8a"), None);
    assert_eq!(parse_id("a1a2a3a4-b1b2-c1c2-d1d2-d3d4d5d6d7dg"), None);
    assert_eq!(parse_id("a1a2a3a4b1b2-c1c2-d1d2-d3d4d5d6d7d8-"), None);
    assert_eq!(parse_id("a1a2a3a4-b1b2-c1c2-d1d2-d3d4d5d6d7d8 "), None);
    assert_eq!(parse_id("123"), None);
}
