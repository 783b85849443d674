use donna_desktop::identity::{
    current_triple_arch, hostname, kept_device_id, public_device_id, random_secret, secret_of,
    socket_name, socket_path,
};

fn is_uuid_v4(text: &str) -> bool {
    let bytes = text.as_bytes();
    bytes.len() == 36
        && bytes.iter().enumerate().all(|(i, b)| match i {
            8 | 13 | 18 | 23 => *b == b'-',
            14 => *b == b'4',
            19 => b"89ab".contains(b),
            _ => b"0123456789abcdef".contains(b),
        })
}

#[test]
fn secret_is_hexadecimal() {
    let mut bytes = [0u8; 32];
    bytes[0] = 0x0a;
    bytes[31] = 0xff;
    let secret = secret_of(&bytes);
    assert_eq!(secret.len(), 64);
    assert!(secret.starts_with("0a00"));
    assert!(secret.ends_with("00ff"));
}

#[test]
fn secrets_differ_with_their_bytes() {
    let mut other = [7u8; 32];
    other[16] = 8;
    assert_ne!(secret_of(&[7u8; 32]), secret_of(&other));
}

#[test]
fn launches_have_secrets_of_their_own() {
    let first = random_secret();
    let second = random_secret();
    assert_eq!(first.len(), 64);
    assert!(first.bytes().all(|b| b"0123456789abcdef".contains(&b)));
    assert_ne!(first, second);
    assert_ne!(first, "0".repeat(64));
}

#[test]
fn stored_device_id_is_kept() {
    let device = public_device_id(&Some(" \u{2003}\tabc-123\u{a0}\n".to_string()));
    assert_eq!(device.id, "abc-123");
    assert!(!device.store);
    assert_eq!(kept_device_id(&Some("a b".to_string())), Some("a b".to_string()));
}

#[test]
fn missing_device_id_is_made() {
    for existing in [None, Some(String::new()), Some(" \n\u{3000}".to_string())] {
        assert_eq!(kept_device_id(&existing), None);
        let device = public_device_id(&existing);
        assert!(device.store);
        assert!(is_uuid_v4(&device.id), "{}", device.id);
    }
    assert_ne!(public_device_id(&None).id, public_device_id(&None).id);
}

#[test]
fn fresh_device_id_is_kept_once_stored() {
    let fresh = public_device_id(&None);
    let again = public_device_id(&Some(fresh.id.clone()));
    assert_eq!(again.id, fresh.id);
    assert!(!again.store);
    let cut = public_device_id(&Some(format!("{}\n", fresh.id)));
    assert_eq!(public_device_id(&Some(cut.id.clone())).id, cut.id);
}

#[test]
fn every_white_space_is_trimmed() {
    for code in 0..=0x10ffffu32 {
        if let Some(c) = char::from_u32(code) {
            let listed = matches!(
                code,
                0x9..=0xd
                    | 0x20
                    | 0x85
                    | 0xa0
                    | 0x1680
                    | 0x2000..=0x200a
                    | 0x2028
                    | 0x2029
                    | 0x202f
                    | 0x205f
                    | 0x3000
            );
            assert_eq!(c.is_whitespace(), listed, "{code:x}");
        }
    }
}

#[test]
fn name_of_the_mac() {
    assert_eq!(hostname(Some(b" Ada's Mac\n".to_vec())), "Ada's Mac");
    assert_eq!(hostname(Some("Zoë\n".as_bytes().to_vec())), "Zoë");
    assert_eq!(hostname(Some(b"\n".to_vec())), "Mac");
    assert_eq!(hostname(Some(Vec::new())), "Mac");
    assert_eq!(hostname(Some(vec![0xff, 0xfe])), "Mac");
    assert_eq!(hostname(None), "Mac");
}

#[test]
fn architectures() {
    assert_eq!(current_triple_arch("x86_64"), "x86_64");
    assert_eq!(current_triple_arch("aarch64"), "aarch64");
    assert_eq!(current_triple_arch("riscv64"), "aarch64");
}

#[test]
fn sockets_of_different_launches_differ() {
    assert_eq!(socket_name(1700000000123), "donna-desktop-1700000000123.sock");
    assert_eq!(socket_name(0), "donna-desktop-0.sock");
    assert_ne!(socket_name(10), socket_name(100));
    assert_eq!(socket_path(b"/tmp/", 7), b"/tmp/donna-desktop-7.sock");
    assert_eq!(socket_path(b"/\xfe", 7), b"/\xfe/donna-desktop-7.sock");
}
