use decoyssh::addrs::{dedup_addrs, enrich_with_env_addrs, normalize_parsed_addrs};
use decoyssh::PeerAddr;

fn v4(a: u8, b: u8, c: u8, d: u8, port: u16) -> PeerAddr {
    let ip = u32::from_be_bytes([a, b, c, d]);
    PeerAddr { v6: false, ip: ip as u128, port }
}

fn v6_mapped(a: u8, b: u8, c: u8, d: u8, port: u16) -> PeerAddr {
    let ip = 0xffff_0000_0000u128 | (u32::from_be_bytes([a, b, c, d]) as u128);
    PeerAddr { v6: true, ip, port }
}

fn default_bind() -> PeerAddr {
    v4(0, 0, 0, 0, 22)
}

#[test]
fn test_enrich_with_compatible_env_addrs() {
    // Starting from the lone default bind address, the addresses read
    // from the two compatibility environment variables replace it.
    let mut addrs = vec![default_bind()];
    let extra = vec![
        v4(127, 0, 0, 1, 22),
        v4(127, 0, 0, 2, 22),
        v6_mapped(127, 0, 0, 3, 22),
    ];

    enrich_with_env_addrs(&mut addrs, &extra);

    assert!(addrs.len() == 3, "{addrs:?}");
    assert!(addrs[0] == v4(127, 0, 0, 1, 22));
    assert!(addrs[1] == v4(127, 0, 0, 2, 22));
    assert!(addrs[2] == v6_mapped(127, 0, 0, 3, 22));
}

#[test]
fn test_enrich_with_no_extra_addrs_keeps_default() {
    let mut addrs = vec![default_bind()];
    let extra: Vec<PeerAddr> = Vec::new();
    enrich_with_env_addrs(&mut addrs, &extra);
    assert_eq!(addrs, vec![default_bind()]);
}

#[test]
fn test_enrich_collapses_adjacent_duplicates() {
    let mut addrs = vec![default_bind()];
    let extra = vec![
        v4(10, 0, 0, 1, 22),
        v4(10, 0, 0, 1, 22),
        v4(10, 0, 0, 2, 22),
        v4(10, 0, 0, 1, 22),
    ];
    enrich_with_env_addrs(&mut addrs, &extra);
    // Only adjacent duplicates collapse, as with Vec::dedup.
    assert_eq!(
        addrs,
        vec![v4(10, 0, 0, 1, 22), v4(10, 0, 0, 2, 22), v4(10, 0, 0, 1, 22)]
    );
}

#[test]
fn test_dedup_addrs() {
    let mut addrs = vec![
        v4(1, 1, 1, 1, 22),
        v4(1, 1, 1, 1, 22),
        v4(2, 2, 2, 2, 22),
        v4(2, 2, 2, 2, 22),
        v4(1, 1, 1, 1, 22),
    ];
    dedup_addrs(&mut addrs);
    assert_eq!(
        addrs,
        vec![v4(1, 1, 1, 1, 22), v4(2, 2, 2, 2, 22), v4(1, 1, 1, 1, 22)]
    );
}

#[test]
fn test_normalize_detects_lone_default() {
    let mut addrs = vec![default_bind(), default_bind()];
    assert!(normalize_parsed_addrs(&mut addrs));
    assert_eq!(addrs, vec![default_bind()]);

    let mut addrs = vec![default_bind(), v4(9, 9, 9, 9, 22)];
    assert!(!normalize_parsed_addrs(&mut addrs));
    assert_eq!(addrs.len(), 2);

    let mut addrs = vec![v4(9, 9, 9, 9, 2222)];
    assert!(!normalize_parsed_addrs(&mut addrs));
}
