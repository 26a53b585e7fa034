use type_bridge::ip::{format_ipv4, get_local_ip, pick_local_ip, InterfaceAddr};

fn is_dotted_quad(s: &str) -> bool {
    let parts: Vec<&str> = s.split('.').collect();
    parts.len() == 4
        && parts
            .iter()
            .all(|p| !p.is_empty() && p.len() <= 3 && p.chars().all(|c| c.is_ascii_digit()) && p.parse::<u32>().unwrap() <= 255)
}

#[test]
fn test_get_local_ip_returns_nonempty() {
    let ip = get_local_ip();
    assert!(!ip.is_empty());
}

#[test]
fn test_get_local_ip_valid_format() {
    let ip = get_local_ip();
    // Fallback is 127.0.0.1 — always a valid IP
    assert!(is_dotted_quad(&ip));
}

#[test]
fn test_filter_loopback_rejected() {
    let ip = get_local_ip();
    if ip == "127.0.0.1" {
        // Accept fallback — means no non-loopback interface was found
    } else {
        assert!(!ip.starts_with("127."));
    }
}

#[test]
fn pick_skips_loopback_unspecified_and_ipv6() {
    let addrs = vec![
        InterfaceAddr { loopback: true, ipv4: Some([127, 0, 0, 1]) },
        InterfaceAddr { loopback: false, ipv4: None },
        InterfaceAddr { loopback: false, ipv4: Some([0, 0, 0, 0]) },
        InterfaceAddr { loopback: false, ipv4: Some([127, 1, 2, 3]) },
        InterfaceAddr { loopback: false, ipv4: Some([192, 168, 1, 42]) },
        InterfaceAddr { loopback: false, ipv4: Some([10, 0, 0, 7]) },
    ];
    assert_eq!(pick_local_ip(&addrs), "192.168.1.42");
}

#[test]
fn pick_falls_back_to_localhost() {
    assert_eq!(pick_local_ip(&vec![]), "127.0.0.1");
    let only_loopback = vec![InterfaceAddr { loopback: true, ipv4: Some([10, 1, 1, 1]) }];
    assert_eq!(pick_local_ip(&only_loopback), "127.0.0.1");
}

#[test]
fn dotted_decimal_has_no_leading_zeros() {
    assert_eq!(format_ipv4([0, 9, 10, 255]), "0.9.10.255");
}
