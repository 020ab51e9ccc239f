use sgx_ra::codec::{
    msg1_progress, msg3_progress,
    deserialize_bytes, deserialize_msg0, deserialize_msg1, deserialize_msg2, deserialize_msg3,
    deserialize_msg4, msg2_progress, msg4_progress, serialize_bytes, serialize_msg0,
    serialize_msg1, serialize_msg2, serialize_msg3, serialize_msg4, ParseProgress,
};
use sgx_ra::msg::{PsSecPropDescInternal, RaMsg0, RaMsg1, RaMsg2, RaMsg3, RaMsg4};
use sgx_ra::wire::{u16_from_le, u16_le, u32_be, u32_from_be, u32_le, u64_be, u64_le};

fn sample_msg2(sig_rl: Option<Vec<u8>>) -> RaMsg2 {
    RaMsg2 {
        g_b: vec![0x41u8; 65],
        spid: (0u8..16).collect(),
        quote_type: 1,
        sign_gb_ga: vec![0x5au8; 256],
        mac: vec![0xccu8; 16],
        sig_rl,
    }
}

#[test]
fn wire_integers_round_trip() {
    assert_eq!(u16_le(0x0201), vec![0x01, 0x02]);
    assert_eq!(u16_from_le(0x01, 0x02), 0x0201);
    assert_eq!(u32_le(0x04030201), vec![0x01, 0x02, 0x03, 0x04]);
    assert_eq!(u32_be(0x04030201), vec![0x04, 0x03, 0x02, 0x01]);
    assert_eq!(u32_from_be(0x04, 0x03, 0x02, 0x01), 0x04030201);
    assert_eq!(
        u64_le(0x0807060504030201),
        vec![0x01, 0x02, 0x03, 0x04, 0x05, 0x06, 0x07, 0x08]
    );
    assert_eq!(
        u64_be(0x0807060504030201),
        vec![0x08, 0x07, 0x06, 0x05, 0x04, 0x03, 0x02, 0x01]
    );
}

#[test]
fn msg0_round_trip_and_exact_bytes() {
    let m = RaMsg0 { exgid: 7 };
    let bytes = serialize_msg0(&m);
    assert_eq!(bytes, vec![7, 0, 0, 0]);
    let (back, used) = deserialize_msg0(&bytes).unwrap();
    assert_eq!(used, 4);
    assert_eq!(back.exgid, 7);
    assert!(deserialize_msg0(&bytes[..3]).is_none());
}

#[test]
fn msg1_round_trip_and_exact_bytes() {
    let m = RaMsg1 { gid: vec![1, 2, 3, 4], g_a: vec![0x42u8; 65] };
    let bytes = serialize_msg1(&m);
    assert_eq!(bytes.len(), 77);
    assert_eq!(&bytes[0..4], &[1, 2, 3, 4]);
    // length of g_a as a little-endian u64
    assert_eq!(&bytes[4..12], &[65, 0, 0, 0, 0, 0, 0, 0]);
    assert_eq!(&bytes[12..77], &[0x42u8; 65][..]);
    let (back, used) = deserialize_msg1(&bytes).unwrap();
    assert_eq!(used, 77);
    assert_eq!(back.gid, m.gid);
    assert_eq!(back.g_a, m.g_a);
}

#[test]
fn msg1_rejects_wrong_key_length() {
    let m = RaMsg1 { gid: vec![1, 2, 3, 4], g_a: vec![0x42u8; 65] };
    let mut bytes = serialize_msg1(&m);
    bytes[4] = 64;
    assert!(deserialize_msg1(&bytes).is_none());
}

#[test]
fn msg2_round_trip_without_sig_rl() {
    let m = sample_msg2(None);
    let bytes = serialize_msg2(&m);
    let (back, used) = deserialize_msg2(&bytes).unwrap();
    assert_eq!(used, bytes.len());
    assert_eq!(back.g_b, m.g_b);
    assert_eq!(back.spid, m.spid);
    assert_eq!(back.quote_type, 1);
    assert_eq!(back.sign_gb_ga, m.sign_gb_ga);
    assert_eq!(back.mac, m.mac);
    assert!(back.sig_rl.is_none());
}

#[test]
fn msg2_round_trip_with_sig_rl_and_trailing_bytes() {
    let m = sample_msg2(Some(vec![9, 8, 7]));
    let mut bytes = serialize_msg2(&m);
    let expected = bytes.len();
    bytes.extend_from_slice(&[0xff, 0xee]);
    let (back, used) = deserialize_msg2(&bytes).unwrap();
    assert_eq!(used, expected);
    assert_eq!(back.sig_rl, Some(vec![9, 8, 7]));
}

#[test]
fn msg2_rejects_bad_option_tag() {
    let m = sample_msg2(None);
    let mut bytes = serialize_msg2(&m);
    let last = bytes.len() - 1;
    bytes[last] = 2;
    assert!(deserialize_msg2(&bytes).is_none());
}

#[test]
fn msg2_progress_reports_needed_length() {
    let m = sample_msg2(Some(vec![1u8; 10]));
    let bytes = serialize_msg2(&m);
    match msg2_progress(&bytes[..50]) {
        ParseProgress::NeedMore(k) => assert_eq!(k, 99),
        _ => panic!("expected NeedMore"),
    }
    match msg2_progress(&bytes) {
        ParseProgress::Ready(n) => assert_eq!(n, bytes.len()),
        _ => panic!("expected Ready"),
    }
}

#[test]
fn msg3_round_trip_without_descriptor() {
    let m = RaMsg3 {
        mac: vec![0xabu8; 16],
        g_a: vec![0x42u8; 65],
        ps_sec_prop: None,
        quote: (0..1116u32).map(|i| (i % 251) as u8).collect(),
    };
    let bytes = serialize_msg3(&m);
    assert_eq!(bytes.len(), 1206);
    let (back, used) = deserialize_msg3(&bytes).unwrap();
    assert_eq!(used, 1206);
    assert_eq!(back.mac, m.mac);
    assert_eq!(back.g_a, m.g_a);
    assert!(back.ps_sec_prop.is_none());
    assert_eq!(back.quote, m.quote);
}

#[test]
fn msg3_round_trip_with_descriptor() {
    let m = RaMsg3 {
        mac: vec![0xabu8; 16],
        g_a: vec![0x42u8; 65],
        ps_sec_prop: Some(PsSecPropDescInternal { inner: vec![0x11u8; 256] }),
        quote: vec![0x33u8; 1116],
    };
    let bytes = serialize_msg3(&m);
    assert_eq!(bytes.len(), 1462);
    let (back, used) = deserialize_msg3(&bytes).unwrap();
    assert_eq!(used, 1462);
    assert_eq!(back.ps_sec_prop.as_ref().unwrap().inner, vec![0x11u8; 256]);
    assert_eq!(back.quote, m.quote);
}

#[test]
fn msg4_round_trip_all_shapes() {
    let variants = vec![
        RaMsg4 { is_enclave_trusted: true, is_pse_manifest_trusted: None, pib: None },
        RaMsg4 { is_enclave_trusted: false, is_pse_manifest_trusted: Some(true), pib: None },
        RaMsg4 {
            is_enclave_trusted: true,
            is_pse_manifest_trusted: Some(false),
            pib: Some(String::from("0A1B2C")),
        },
    ];
    for m in variants {
        let bytes = serialize_msg4(&m);
        let (back, used) = deserialize_msg4(&bytes).unwrap();
        assert_eq!(used, bytes.len());
        assert_eq!(back.is_enclave_trusted, m.is_enclave_trusted);
        assert_eq!(back.is_pse_manifest_trusted, m.is_pse_manifest_trusted);
        assert_eq!(back.pib, m.pib);
    }
}

#[test]
fn msg4_rejects_bad_bool() {
    let m = RaMsg4 { is_enclave_trusted: true, is_pse_manifest_trusted: None, pib: None };
    let mut bytes = serialize_msg4(&m);
    bytes[0] = 3;
    assert!(deserialize_msg4(&bytes).is_none());
}

#[test]
fn msg4_rejects_non_ascii_pib_bytes() {
    let m = RaMsg4 {
        is_enclave_trusted: true,
        is_pse_manifest_trusted: None,
        pib: Some(String::from("AB")),
    };
    let mut bytes = serialize_msg4(&m);
    let last = bytes.len() - 1;
    bytes[last] = 0xC3;
    assert!(deserialize_msg4(&bytes).is_none());
    match msg4_progress(&bytes) {
        ParseProgress::Invalid => {},
        _ => panic!("expected Invalid"),
    }
}

#[test]
fn byte_string_round_trip() {
    let v = vec![1u8, 2, 3, 4, 5];
    let bytes = serialize_bytes(&v);
    assert_eq!(&bytes[0..8], &[5, 0, 0, 0, 0, 0, 0, 0]);
    let (back, used) = deserialize_bytes(&bytes).unwrap();
    assert_eq!(used, 13);
    assert_eq!(back, v);
    assert!(deserialize_bytes(&bytes[..10]).is_none());
}

#[test]
fn msg1_progress_reports_needed_length() {
    let m = RaMsg1 { gid: vec![1, 2, 3, 4], g_a: vec![0x42u8; 65] };
    let bytes = serialize_msg1(&m);
    match msg1_progress(&bytes[..5]) {
        ParseProgress::NeedMore(k) => assert_eq!(k, 12),
        _ => panic!("expected NeedMore"),
    }
    match msg1_progress(&bytes) {
        ParseProgress::Ready(n) => assert_eq!(n, 77),
        _ => panic!("expected Ready"),
    }
    let mut bad = bytes.clone();
    bad[4] = 66;
    match msg1_progress(&bad) {
        ParseProgress::Invalid => {},
        _ => panic!("expected Invalid"),
    }
}

#[test]
fn msg3_progress_distinguishes_shapes() {
    let m = RaMsg3 {
        mac: vec![0xabu8; 16],
        g_a: vec![0x42u8; 65],
        ps_sec_prop: None,
        quote: vec![0x33u8; 1116],
    };
    let bytes = serialize_msg3(&m);
    match msg3_progress(&bytes[..200]) {
        ParseProgress::NeedMore(k) => assert_eq!(k, 1206),
        _ => panic!("expected NeedMore"),
    }
    match msg3_progress(&bytes) {
        ParseProgress::Ready(n) => assert_eq!(n, 1206),
        _ => panic!("expected Ready"),
    }
}
