use connect_guard::text::{ipv4_string, ipv6_string};

fn v6(groups: [u16; 8]) -> Vec<u8> {
    let mut o = Vec::new();
    for g in groups {
        o.push((g >> 8) as u8);
        o.push((g & 0xff) as u8);
    }
    o
}

#[test]
fn ipv4_dotted_decimal() {
    assert_eq!(ipv4_string(&vec![127, 0, 0, 1]), "127.0.0.1");
    assert_eq!(ipv4_string(&vec![93, 184, 216, 34]), "93.184.216.34");
    assert_eq!(ipv4_string(&vec![0, 0, 0, 0]), "0.0.0.0");
    assert_eq!(ipv4_string(&vec![255, 255, 255, 255]), "255.255.255.255");
    assert_eq!(ipv4_string(&vec![10, 9, 100, 200]), "10.9.100.200");
}

#[test]
fn ipv6_loopback_and_unspecified() {
    assert_eq!(ipv6_string(&v6([0, 0, 0, 0, 0, 0, 0, 1])), "::1");
    assert_eq!(ipv6_string(&v6([0; 8])), "::");
}

#[test]
fn ipv6_compresses_longest_run() {
    assert_eq!(ipv6_string(&v6([0x2001, 0xdb8, 0, 0, 0, 0, 0, 1])), "2001:db8::1");
    assert_eq!(ipv6_string(&v6([1, 0, 0, 1, 0, 0, 0, 1])), "1:0:0:1::1");
    assert_eq!(ipv6_string(&v6([0xfe80, 0, 0, 0, 0x1ff, 0xfe23, 0x4567, 0x890a])), "fe80::1ff:fe23:4567:890a");
    assert_eq!(ipv6_string(&v6([1, 2, 3, 4, 5, 6, 0, 0])), "1:2:3:4:5:6::");
}

#[test]
fn ipv6_first_of_equal_runs() {
    assert_eq!(ipv6_string(&v6([1, 0, 0, 2, 0, 0, 3, 4])), "1::2:0:0:3:4");
}

#[test]
fn ipv6_single_zero_not_compressed() {
    assert_eq!(ipv6_string(&v6([1, 0, 2, 3, 4, 5, 6, 7])), "1:0:2:3:4:5:6:7");
    assert_eq!(ipv6_string(&v6([0xabcd, 0xef01, 0x2345, 0x6789, 0xabcd, 0xef01, 0x2345, 0x6789])),
        "abcd:ef01:2345:6789:abcd:ef01:2345:6789");
}

#[test]
fn ipv6_v4_mapped() {
    assert_eq!(ipv6_string(&v6([0, 0, 0, 0, 0, 0xffff, 0x0a00, 0x0001])), "::ffff:10.0.0.1");
    // An IPv4-compatible address is not printed in dotted form.
    assert_eq!(ipv6_string(&v6([0, 0, 0, 0, 0, 0, 0x0a00, 0x0001])), "::a00:1");
}
