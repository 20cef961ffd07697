use connect_guard::memory::{bytes_from_words, word_addresses};
use connect_guard::profile::{Profile, Verdict};
use connect_guard::sockaddr::{decode_sockaddr, sockaddr_len, Family, SOCKADDR_IN6_LEN, SOCKADDR_IN_LEN};

fn sockaddr_in(addr: [u8; 4], port: u16) -> Vec<u8> {
    let mut b = vec![2u8, 0];
    b.extend_from_slice(&port.to_be_bytes());
    b.extend_from_slice(&addr);
    b.extend_from_slice(&[0u8; 8]);
    b
}

fn sockaddr_in6(addr: [u8; 16], port: u16) -> Vec<u8> {
    let mut b = vec![10u8, 0];
    b.extend_from_slice(&port.to_be_bytes());
    b.extend_from_slice(&[0, 0, 0, 7]);
    b.extend_from_slice(&addr);
    b.extend_from_slice(&[1, 2, 3, 4]);
    b
}

/// The words a tracee's memory would hand out for these bytes.
fn words_of(b: &[u8]) -> Vec<u64> {
    b.chunks_exact(8)
        .map(|c| u64::from_le_bytes([c[0], c[1], c[2], c[3], c[4], c[5], c[6], c[7]]))
        .collect()
}

fn read_back(b: &[u8]) -> Vec<u8> {
    let len = sockaddr_len(words_of(b)[0]).unwrap();
    bytes_from_words(&words_of(&b[..len]), len)
}

fn profile(ips: &[&str]) -> Profile {
    Profile::new(ips.iter().map(|s| s.to_string()).collect())
}

#[test]
fn ipv4_round_trip() {
    let raw = sockaddr_in([93, 184, 216, 34], 80);
    let d = decode_sockaddr(&read_back(&raw)).unwrap();
    assert_eq!(d.family, Family::Inet);
    assert_eq!(d.octets, vec![93, 184, 216, 34]);
    assert_eq!(d.port, 80);
    assert_eq!(d.address_text(), "93.184.216.34");
}

#[test]
fn ipv6_round_trip() {
    let mut a = [0u8; 16];
    a[0] = 0x20;
    a[1] = 0x01;
    a[2] = 0x0d;
    a[3] = 0xb8;
    a[15] = 0x01;
    let raw = sockaddr_in6(a, 8080);
    let d = decode_sockaddr(&read_back(&raw)).unwrap();
    assert_eq!(d.family, Family::Inet6);
    assert_eq!(d.octets, a.to_vec());
    assert_eq!(d.port, 8080);
    assert_eq!(d.address_text(), "2001:db8::1");
}

#[test]
fn port_in_host_order() {
    let d = decode_sockaddr(&sockaddr_in([127, 0, 0, 1], 9000)).unwrap();
    assert_eq!(d.port, 9000);
    let d = decode_sockaddr(&sockaddr_in([127, 0, 0, 1], 0xabcd)).unwrap();
    assert_eq!(d.port, 0xabcd);
}

#[test]
fn other_family_not_evaluated() {
    // AF_UNIX
    let mut raw = vec![1u8, 0];
    raw.extend_from_slice(b"/tmp/socket\0\0\0\0\0");
    assert!(decode_sockaddr(&raw).is_none());
    assert_eq!(sockaddr_len(words_of(&raw)[0]), None);
    assert!(decode_sockaddr(&vec![2u8, 0, 0]).is_none());
}

#[test]
fn sockaddr_sizes_by_family() {
    assert_eq!(sockaddr_len(0x0102_0304_5000_0002), Some(SOCKADDR_IN_LEN));
    assert_eq!(sockaddr_len(0x0000_0000_901f_000a), Some(SOCKADDR_IN6_LEN));
    assert_eq!(sockaddr_len(0x0000_0000_0002_0000), None);
}

#[test]
fn words_laid_out_little_endian() {
    let b = bytes_from_words(&vec![0x0807_0605_0403_0201, 0x100f_0e0d_0c0b_0a09], 16);
    assert_eq!(b, (1u8..=16).collect::<Vec<u8>>());
    // A partial last word is not read and stays zero.
    let b = bytes_from_words(&vec![0xffff_ffff_ffff_ffff, 0x0101_0101_0101_0101, 0x0202_0202_0202_0202], 28);
    assert_eq!(b.len(), 28);
    assert_eq!(&b[24..], &[0, 0, 0, 0]);
    assert_eq!(b[23], 2);
}

#[test]
fn word_addresses_step_by_word() {
    assert_eq!(word_addresses(0x1000, 28), Some(vec![0x1000, 0x1008, 0x1010]));
    assert_eq!(word_addresses(0x1000, 16), Some(vec![0x1000, 0x1008]));
    assert_eq!(word_addresses(u64::MAX - 7, 16), None);
    assert_eq!(word_addresses(u64::MAX, 8), Some(vec![u64::MAX]));
}

#[test]
fn loopback_allowed_and_other_blocked() {
    let p = profile(&["127.0.0.1"]);
    let d = decode_sockaddr(&sockaddr_in([127, 0, 0, 1], 9000)).unwrap();
    assert_eq!(p.decide(&d), Verdict::Allow);
    let d = decode_sockaddr(&sockaddr_in([93, 184, 216, 34], 80)).unwrap();
    assert_eq!(p.decide(&d), Verdict::Block);
    assert_eq!(format!("{}:{}", d.address_text(), d.port), "93.184.216.34:80");
}

#[test]
fn ipv6_loopback_allowed_and_other_blocked() {
    let p = profile(&["::1"]);
    let mut lo = [0u8; 16];
    lo[15] = 1;
    let d = decode_sockaddr(&sockaddr_in6(lo, 8080)).unwrap();
    assert_eq!(d.address_text(), "::1");
    assert_eq!(p.decide(&d), Verdict::Allow);
    let mut other = [0u8; 16];
    other[15] = 2;
    let d = decode_sockaddr(&sockaddr_in6(other, 8080)).unwrap();
    assert_eq!(p.decide(&d), Verdict::Block);
    let d = decode_sockaddr(&sockaddr_in6([0x20, 0x01, 0x0d, 0xb8, 0, 0, 0, 0, 0, 0, 0, 0, 0, 0, 0, 1], 443)).unwrap();
    assert_eq!(p.decide(&d), Verdict::Block);
    // The IPv4 loopback is a different text from the IPv6 one.
    let d = decode_sockaddr(&sockaddr_in([127, 0, 0, 1], 8080)).unwrap();
    assert_eq!(p.decide(&d), Verdict::Block);
}

#[test]
fn port_does_not_matter() {
    let p = profile(&["10.0.0.5", "::1"]);
    for port in [0u16, 22, 80, 65535] {
        let d = decode_sockaddr(&sockaddr_in([10, 0, 0, 5], port)).unwrap();
        assert_eq!(p.decide(&d), Verdict::Allow);
        let d = decode_sockaddr(&sockaddr_in([10, 0, 0, 6], port)).unwrap();
        assert_eq!(p.decide(&d), Verdict::Block);
    }
}

#[test]
fn empty_policy_blocks_everything() {
    let p = profile(&[]);
    let d = decode_sockaddr(&sockaddr_in([127, 0, 0, 1], 80)).unwrap();
    assert_eq!(p.decide(&d), Verdict::Block);
}

#[test]
fn default_policy_is_loopback_only() {
    let p = Profile::from_loaded(None);
    assert_eq!(p.allowed_ips, vec!["127.0.0.1".to_string()]);
    assert_eq!(Profile::loopback_only().allowed_ips, vec!["127.0.0.1".to_string()]);
    let q = Profile::from_loaded(Some(vec!["::1".to_string(), "10.1.2.3".to_string()]));
    assert_eq!(q.allowed_ips, vec!["::1".to_string(), "10.1.2.3".to_string()]);
    assert!(q.allows(&"10.1.2.3".to_string()));
    assert!(!q.allows(&"127.0.0.1".to_string()));
}
