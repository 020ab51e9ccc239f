use sgx_ra::cmac::Cmac;
use sgx_ra::digest::sha256;
use sgx_ra::error::{CryptoError, LocalAttestationError};
use sgx_ra::local_attestation::verify_report_shape;
use sgx_ra::kdf::derive_secret_keys;
use sgx_ra::key_exchange::DHKE;
use sgx_ra::pem::pem_to_der;

const RFC4493_KEY: [u8; 16] = [
    0x2b, 0x7e, 0x15, 0x16, 0x28, 0xae, 0xd2, 0xa6, 0xab, 0xf7, 0x15, 0x88, 0x09, 0xcf, 0x4f,
    0x3c,
];

#[test]
fn cmac_rfc4493_empty_message() {
    let cmac = Cmac::new(&RFC4493_KEY).unwrap();
    let tag = cmac.sign(&[]);
    let expected = [
        0xbb, 0x1d, 0x69, 0x29, 0xe9, 0x59, 0x37, 0x28, 0x7f, 0xa3, 0x7d, 0x12, 0x9b, 0x75,
        0x67, 0x46,
    ];
    assert_eq!(tag, expected.to_vec());
}

#[test]
fn cmac_rfc4493_one_block() {
    let cmac = Cmac::new(&RFC4493_KEY).unwrap();
    let msg = [
        0x6b, 0xc1, 0xbe, 0xe2, 0x2e, 0x40, 0x9f, 0x96, 0xe9, 0x3d, 0x7e, 0x11, 0x73, 0x93,
        0x17, 0x2a,
    ];
    let tag = cmac.sign(&msg);
    let expected = [
        0x07, 0x0a, 0x16, 0xb4, 0x6b, 0x4d, 0x41, 0x44, 0xf7, 0x9b, 0xdd, 0x9d, 0xd0, 0x4a,
        0x28, 0x7c,
    ];
    assert_eq!(tag, expected.to_vec());
}

#[test]
fn cmac_verify_accepts_and_rejects() {
    let cmac = Cmac::new(&RFC4493_KEY).unwrap();
    let data = b"some data to authenticate";
    let mut tag = cmac.sign(data);
    assert!(cmac.verify(data, &tag).is_ok());
    tag[0] ^= 1;
    assert_eq!(cmac.verify(data, &tag), Err(CryptoError::CmacVerificationError));
    let tag2 = cmac.sign(data);
    assert!(cmac.verify(b"other data", &tag2).is_err());
}

#[test]
fn cmac_rejects_wrong_key_length() {
    assert!(Cmac::new(&[0u8; 15]).is_err());
    assert!(Cmac::new(&[0u8; 17]).is_err());
}

#[test]
fn sha256_known_answers() {
    let d = sha256(b"abc");
    let expected = [
        0xba, 0x78, 0x16, 0xbf, 0x8f, 0x01, 0xcf, 0xea, 0x41, 0x41, 0x40, 0xde, 0x5d, 0xae,
        0x22, 0x23, 0xb0, 0x03, 0x61, 0xa3, 0x96, 0x17, 0x7a, 0x9c, 0xb4, 0x10, 0xff, 0x61,
        0xf2, 0x00, 0x15, 0xad,
    ];
    assert_eq!(d, expected.to_vec());
    let empty = sha256(b"");
    let expected_empty = [
        0xe3, 0xb0, 0xc4, 0x42, 0x98, 0xfc, 0x1c, 0x14, 0x9a, 0xfb, 0xf4, 0xc8, 0x99, 0x6f,
        0xb9, 0x24, 0x27, 0xae, 0x41, 0xe4, 0x64, 0x9b, 0x93, 0x4c, 0xa4, 0x95, 0x99, 0x1b,
        0x78, 0x52, 0xb8, 0x55,
    ];
    assert_eq!(empty, expected_empty.to_vec());
}

/// The four child keys are derived with the exact label bytes of the
/// key tree, one CMAC each.
#[test]
fn derived_keys_use_the_documented_labels() {
    let kdk_cmac = Cmac::new(&RFC4493_KEY).unwrap();
    let (smk, sk, mk, vk) = derive_secret_keys(&kdk_cmac).unwrap();
    assert_eq!(smk, kdk_cmac.sign(&[0x01, 0x53, 0x4d, 0x4b, 0x00, 0x80, 0x00]));
    assert_eq!(sk, kdk_cmac.sign(&[0x01, 0x53, 0x4b, 0x00, 0x80, 0x00]));
    assert_eq!(mk, kdk_cmac.sign(&[0x01, 0x4d, 0x4b, 0x00, 0x80, 0x00]));
    assert_eq!(vk, kdk_cmac.sign(&[0x01, 0x56, 0x4b, 0x00, 0x80, 0x00]));
}

/// Derivation is stable across runs on the same KDK, and the four keys
/// are pairwise distinct.
#[test]
fn derived_keys_stable_and_pairwise_distinct() {
    let kdk_cmac = Cmac::new(&RFC4493_KEY).unwrap();
    let (smk1, sk1, mk1, vk1) = derive_secret_keys(&kdk_cmac).unwrap();
    let (smk2, sk2, mk2, vk2) = derive_secret_keys(&kdk_cmac).unwrap();
    assert_eq!(smk1, smk2);
    assert_eq!(sk1, sk2);
    assert_eq!(mk1, mk2);
    assert_eq!(vk1, vk2);
    let keys = [&smk1, &sk1, &mk1, &vk1];
    for i in 0..4 {
        assert_eq!(keys[i].len(), 16);
        for j in (i + 1)..4 {
            assert_ne!(keys[i], keys[j]);
        }
    }
}

/// Both sides of an ephemeral exchange derive the same KDK.
#[test]
fn ecdh_peers_agree_on_kdk() {
    let alice = DHKE::generate_keypair().unwrap();
    let bob = DHKE::generate_keypair().unwrap();
    let g_a = alice.get_public_key();
    let g_b = bob.get_public_key();
    assert_eq!(g_a.len(), 65);
    assert_eq!(g_a[0], 0x04);
    let kdk_a = alice.derive_key(&g_b).unwrap();
    let kdk_b = bob.derive_key(&g_a).unwrap();
    assert_eq!(kdk_a, kdk_b);
    assert_eq!(kdk_a.len(), 16);
}

/// Different exchanges give different KDKs.
#[test]
fn ecdh_distinct_sessions_distinct_kdk() {
    let a1 = DHKE::generate_keypair().unwrap();
    let b1 = DHKE::generate_keypair().unwrap();
    let a2 = DHKE::generate_keypair().unwrap();
    let b2 = DHKE::generate_keypair().unwrap();
    let p_b1 = b1.get_public_key();
    let p_b2 = b2.get_public_key();
    let k1 = a1.derive_key(&p_b1).unwrap();
    let k2 = a2.derive_key(&p_b2).unwrap();
    assert_ne!(k1, k2);
}

#[test]
fn ecdh_rejects_bad_peer_point() {
    let alice = DHKE::generate_keypair().unwrap();
    let bad_peer = vec![0x04u8; 65];
    assert_eq!(alice.derive_key(&bad_peer).err(), Some(CryptoError::Provider));
}

#[test]
fn pem_decodes_base64_body() {
    let pem = b"-----BEGIN THING-----\n3q2+7w==\n-----END THING-----\n";
    assert_eq!(pem_to_der(pem).unwrap(), vec![0xde, 0xad, 0xbe, 0xef]);
    let pem_crlf = b"-----BEGIN THING-----\r\n3q2+\r\n7w==\r\n-----END THING-----\r\n";
    assert_eq!(pem_to_der(pem_crlf).unwrap(), vec![0xde, 0xad, 0xbe, 0xef]);
    let bad = b"-----BEGIN THING-----\n!!!!\n-----END THING-----\n";
    assert_eq!(pem_to_der(bad), Err(CryptoError::Encoding));
}

#[test]
fn report_shape_is_checked() {
    assert!(verify_report_shape(&[0u8; 432]).is_ok());
    assert_eq!(
        verify_report_shape(&[0u8; 431]),
        Err(LocalAttestationError::IncorrectReportLength)
    );
    assert!(verify_report_shape(&[0u8; 433]).is_err());
}
