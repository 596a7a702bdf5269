use syncdaq_web::address::{ip4_to_str, mac6_to_str, same_ip, v4_to_str, V4Addr};
use syncdaq_web::clock::{capture_id_at, init_id_at, new_capture_id, new_init_id};
use syncdaq_web::text::{bracket, dec_i64, dec_u64, hex_u8, is_named, join};

#[test]
fn decimal_text() {
    for n in [0u64, 7, 10, 99, 100, 65535, 4294967296, u64::MAX] {
        assert_eq!(dec_u64(n), n.to_string());
    }
    for n in [0i64, 1, -1, 1700000000123, i64::MAX, i64::MIN] {
        assert_eq!(dec_i64(n), n.to_string());
    }
}

#[test]
fn hexadecimal_text() {
    for b in 0..=255u8 {
        assert_eq!(hex_u8(b), format!("{b:02x}"));
    }
}

#[test]
fn joined_text() {
    let parts: Vec<String> = vec!["a".to_string(), "".to_string(), "c".to_string()];
    assert_eq!(join(&parts, "--"), "a----c");
    assert_eq!(join(&Vec::new(), ","), "");
    assert_eq!(join(&vec!["x".to_string()], ","), "x");
}

#[test]
fn bracketed_text() {
    assert_eq!(bracket(&vec![0, 12, 7]), "[0, 12, 7]");
    assert_eq!(bracket(&Vec::new()), "[]");
    assert_eq!(bracket(&vec![5]), format!("{:?}", vec![5]));
}

#[test]
fn names_ignore_case_and_padding() {
    assert!(is_named(" \t Rect\n", "rect"));
    assert!(is_named("RECT", "rect"));
    assert!(is_named("\u{3000}none\u{a0}", "none"));
    assert!(!is_named("re ct", "rect"));
    assert!(!is_named("", "rect"));
    assert!(is_named("   ", ""));
    assert!(!is_named("rect", "Rect"));
}

#[test]
fn white_space_is_what_trim_removes() {
    for n in 0..=0x10ffffu32 {
        if let Some(c) = char::from_u32(n) {
            let s = format!("{c}");
            assert_eq!(is_named(&s, ""), s.trim().is_empty(), "{n:x}");
        }
    }
}

#[test]
fn lower_case_is_ascii_only() {
    for n in 0..0x3000u32 {
        if let Some(c) = char::from_u32(n) {
            let s = format!("x{c}x");
            assert!(is_named(&s, &s.to_ascii_lowercase()));
        }
    }
}

#[test]
fn mac_text() {
    assert_eq!(mac6_to_str(&[2, 0, 0x5e, 0x10, 0, 0xff]), "02:00:5e:10:00:ff");
    assert_ne!(mac6_to_str(&[1, 2, 3, 4, 5, 6]), mac6_to_str(&[1, 2, 3, 4, 5, 7]));
}

#[test]
fn ip_text() {
    assert_eq!(ip4_to_str(&[10, 100, 11, 20]), "10.100.11.20");
    assert_eq!(ip4_to_str(&[0, 0, 0, 255]), "0.0.0.255");
    assert_ne!(ip4_to_str(&[1, 11, 1, 1]), ip4_to_str(&[11, 1, 1, 1]));
    let a = V4Addr { ip: [127, 0, 0, 1], port: 3000 };
    assert_eq!(v4_to_str(&a), "127.0.0.1:3000");
}

#[test]
fn addresses_are_compared() {
    assert!(same_ip(&[10, 0, 0, 1], &[10, 0, 0, 1]));
    for i in 0..4 {
        let mut other = [10, 0, 0, 1];
        other[i] += 1;
        assert!(!same_ip(&[10, 0, 0, 1], &other));
    }
}

#[test]
fn names_carry_the_time() {
    assert_eq!(init_id_at(1700000000123), "init-1700000000123");
    assert_eq!(capture_id_at(-5), "cap--5");
    assert_ne!(capture_id_at(1), capture_id_at(2));
}

#[test]
fn new_names_carry_the_present_time() {
    let before = chrono::Utc::now().timestamp_millis();
    let cap: i64 = new_capture_id().strip_prefix("cap-").unwrap().parse().unwrap();
    let init: i64 = new_init_id().strip_prefix("init-").unwrap().parse().unwrap();
    let after = chrono::Utc::now().timestamp_millis();
    assert!(before <= cap && cap <= after);
    assert!(before <= init && init <= after);
}
