use sgx_ra::certificate::X509Cert;
use sgx_ra::error::AttestationError;
use sgx_ra::ias::verify_response;
use sgx_ra::pem::base64_decode;

const ROOT_CERT_PEM: &str = "-----BEGIN CERTIFICATE-----\nMIIDJzCCAg+gAwIBAgIUEwnAh8YHISYBoTbWmKTUJA/JdfMwDQYJKoZIhvcNAQEL\nBQAwIzEhMB8GA1UEAwwYVGVzdCBBdHRlc3RhdGlvbiBSb290IENBMB4XDTI2MTAx\nMjA5MTg1M1oXDTQ2MTAwNzA5MTg1M1owIzEhMB8GA1UEAwwYVGVzdCBBdHRlc3Rh\ndGlvbiBSb290IENBMIIBIjANBgkqhkiG9w0BAQEFAAOCAQ8AMIIBCgKCAQEAkm2S\nZm5IjKnHfzE7pwGp3G8UeiCeZLqIf7xN+xPRrtliHRpf8Ltjgp0Ffl0Diva65jVD\nDmNBurUs1xr1UL6vfbIYAarVD1Z4lYAaQ+0Z7/bjkW1qLlj0AVZ9gbqLQO84fs/M\n9yeIIdzZXImzchaedFvYgZPtZ++ZVwB5bxlqkdgyNEHTUq9DuqCyX8I9n5fhHzcs\n3O9jFFeJCBFXje2vwbC7asgWhTXdUocQmL12CqmRIglhBw6HdwTrc16vACVqBIpW\nFlsszMZbdnEUCBgl89R+4rx7PEZ0HbGJ92f1aWyNia95RUha1N18FhKGAzTfBseO\nHzIJBV+VJDrwV/CamwIDAQABo1MwUTAdBgNVHQ4EFgQUqnAXlcm/ldTh/Pihortl\n9qKVLJcwHwYDVR0jBBgwFoAUqnAXlcm/ldTh/Pihortl9qKVLJcwDwYDVR0TAQH/\nBAUwAwEB/zANBgkqhkiG9w0BAQsFAAOCAQEADM7uqChHnx9VGuioHC9SzL82PcUy\nD0gVNsDoCxgxS0MoFC2u5dWgze+HB/7TKObwBWyl2kl11ni3k52gPeLSzeOOa6Jq\nJHPJmsGECKdZClGahaCswR4ZDIjpZZGTlB6gcrEJF9NKsWwQI1LBBvOQSQ40WyW7\nv90aLpqFZlddsRoDVgo/XY7qUnN0W1M40dnjWL+aVovh2eDpfkLL0QmVTrwcqepU\nJNNuwBauvX3oES298Tb3rwqSG7FlZB5/WOWQ/dxnMOzGaZDgpASANa1k1wqIABZL\nii57KH4L1oM9boYXoma5nxBMVSXSquDbK4g0aqKvlP9ov9mL4nS21su9UQ==\n-----END CERTIFICATE-----\n";
const LEAF_CERT_PEM: &str = "-----BEGIN CERTIFICATE-----\nMIIC1DCCAbwCFDcOriYVFKZf8IGNPS/aFEnVBEGZMA0GCSqGSIb3DQEBCwUAMCMx\nITAfBgNVBAMMGFRlc3QgQXR0ZXN0YXRpb24gUm9vdCBDQTAeFw0yNjEwMTIwOTE4\nNTNaFw00NjEwMDcwOTE4NTNaMCoxKDAmBgNVBAMMH1Rlc3QgQXR0ZXN0YXRpb24g\nUmVwb3J0IFNpZ25pbmcwggEiMA0GCSqGSIb3DQEBAQUAA4IBDwAwggEKAoIBAQCb\nZshyOWaY4HXxCG2OTj50FsNrEUW/apgdJmnWch0N80FMoFqV9Vsqg3CCzT0yHsej\nFIQcjh6qxsLdJrMhusCxNOVcSZfUDnM2En6DW5+/oR5xFUhkVTmroVXI3UMDUs12\nzrDEsIH3ZOFgFo4GmFPSIfLY51PuA6z+hMVR44RgQOgbIcSmt+F8+gfo5Wx4+qai\nmpkTs0gQCsYXIooN+8lRmmaJetuhDdng/geJchAo5Gm10BT+0tYinQfsez/yprvO\nYZ6AmHuoNyWHhf+P+0iqZrlp4UpnoKatJ1o9UYH0hYK29GKVw78NWsAcKRwaIOEd\neUbFpG4HIBeADkIsuihJAgMBAAEwDQYJKoZIhvcNAQELBQADggEBACoXxfg7W0qC\nUsnlaDs6sHo95YsXpiK0uUYDwRaDSI9TRHES+yHMXCsKe9H6HWbcdgxtoViFi9kf\nTSm5qMPMpo/RkWYV3PzgHJjOkMBTZb2YcuKh9OIK2PTmeHdOUWP33jKfD9l8jpY+\nSlJE4z4KWIaIB5DLou9oIPy0l633eMqWxLge7QEE60Iky5Y2McH0leTMbM+6CUB0\nhQlHwFqs5keY/+oWwUquPRnh52v3hIypgDrMk1AVoKzqWdFGGyYsQI5ZBX2YBCGM\nC9MI9ZvWlI61CH+ToXF67UTiVhzA/4l6sNWIde7GAhyWVA0g+1w0cCktA9PHfr+M\nwO32V8nFCGE=\n-----END CERTIFICATE-----\n";
const CHAIN_HEADER: &str = "-----BEGIN%20CERTIFICATE-----%0AMIIC1DCCAbwCFDcOriYVFKZf8IGNPS/aFEnVBEGZMA0GCSqGSIb3DQEBCwUAMCMx%0AITAfBgNVBAMMGFRlc3QgQXR0ZXN0YXRpb24gUm9vdCBDQTAeFw0yNjEwMTIwOTE4%0ANTNaFw00NjEwMDcwOTE4NTNaMCoxKDAmBgNVBAMMH1Rlc3QgQXR0ZXN0YXRpb24g%0AUmVwb3J0IFNpZ25pbmcwggEiMA0GCSqGSIb3DQEBAQUAA4IBDwAwggEKAoIBAQCb%0AZshyOWaY4HXxCG2OTj50FsNrEUW/apgdJmnWch0N80FMoFqV9Vsqg3CCzT0yHsej%0AFIQcjh6qxsLdJrMhusCxNOVcSZfUDnM2En6DW5%2B/oR5xFUhkVTmroVXI3UMDUs12%0AzrDEsIH3ZOFgFo4GmFPSIfLY51PuA6z%2BhMVR44RgQOgbIcSmt%2BF8%2Bgfo5Wx4%2Bqai%0AmpkTs0gQCsYXIooN%2B8lRmmaJetuhDdng/geJchAo5Gm10BT%2B0tYinQfsez/yprvO%0AYZ6AmHuoNyWHhf%2BP%2B0iqZrlp4UpnoKatJ1o9UYH0hYK29GKVw78NWsAcKRwaIOEd%0AeUbFpG4HIBeADkIsuihJAgMBAAEwDQYJKoZIhvcNAQELBQADggEBACoXxfg7W0qC%0AUsnlaDs6sHo95YsXpiK0uUYDwRaDSI9TRHES%2ByHMXCsKe9H6HWbcdgxtoViFi9kf%0ATSm5qMPMpo/RkWYV3PzgHJjOkMBTZb2YcuKh9OIK2PTmeHdOUWP33jKfD9l8jpY%2B%0ASlJE4z4KWIaIB5DLou9oIPy0l633eMqWxLge7QEE60Iky5Y2McH0leTMbM%2B6CUB0%0AhQlHwFqs5keY/%2BoWwUquPRnh52v3hIypgDrMk1AVoKzqWdFGGyYsQI5ZBX2YBCGM%0AC9MI9ZvWlI61CH%2BToXF67UTiVhzA/4l6sNWIde7GAhyWVA0g%2B1w0cCktA9PHfr%2BM%0AwO32V8nFCGE%3D%0A-----END%20CERTIFICATE-----%0A-----BEGIN%20CERTIFICATE-----%0AMIIDJzCCAg%2BgAwIBAgIUEwnAh8YHISYBoTbWmKTUJA/JdfMwDQYJKoZIhvcNAQEL%0ABQAwIzEhMB8GA1UEAwwYVGVzdCBBdHRlc3RhdGlvbiBSb290IENBMB4XDTI2MTAx%0AMjA5MTg1M1oXDTQ2MTAwNzA5MTg1M1owIzEhMB8GA1UEAwwYVGVzdCBBdHRlc3Rh%0AdGlvbiBSb290IENBMIIBIjANBgkqhkiG9w0BAQEFAAOCAQ8AMIIBCgKCAQEAkm2S%0AZm5IjKnHfzE7pwGp3G8UeiCeZLqIf7xN%2BxPRrtliHRpf8Ltjgp0Ffl0Diva65jVD%0ADmNBurUs1xr1UL6vfbIYAarVD1Z4lYAaQ%2B0Z7/bjkW1qLlj0AVZ9gbqLQO84fs/M%0A9yeIIdzZXImzchaedFvYgZPtZ%2B%2BZVwB5bxlqkdgyNEHTUq9DuqCyX8I9n5fhHzcs%0A3O9jFFeJCBFXje2vwbC7asgWhTXdUocQmL12CqmRIglhBw6HdwTrc16vACVqBIpW%0AFlsszMZbdnEUCBgl89R%2B4rx7PEZ0HbGJ92f1aWyNia95RUha1N18FhKGAzTfBseO%0AHzIJBV%2BVJDrwV/CamwIDAQABo1MwUTAdBgNVHQ4EFgQUqnAXlcm/ldTh/Pihortl%0A9qKVLJcwHwYDVR0jBBgwFoAUqnAXlcm/ldTh/Pihortl9qKVLJcwDwYDVR0TAQH/%0ABAUwAwEB/zANBgkqhkiG9w0BAQsFAAOCAQEADM7uqChHnx9VGuioHC9SzL82PcUy%0AD0gVNsDoCxgxS0MoFC2u5dWgze%2BHB/7TKObwBWyl2kl11ni3k52gPeLSzeOOa6Jq%0AJHPJmsGECKdZClGahaCswR4ZDIjpZZGTlB6gcrEJF9NKsWwQI1LBBvOQSQ40WyW7%0Av90aLpqFZlddsRoDVgo/XY7qUnN0W1M40dnjWL%2BaVovh2eDpfkLL0QmVTrwcqepU%0AJNNuwBauvX3oES298Tb3rwqSG7FlZB5/WOWQ/dxnMOzGaZDgpASANa1k1wqIABZL%0Aii57KH4L1oM9boYXoma5nxBMVSXSquDbK4g0aqKvlP9ov9mL4nS21su9UQ%3D%3D%0A-----END%20CERTIFICATE-----%0A";
const SIG_HEADER: &str = "iB2qS0Na0YKtwTELtiICcnXOZV69wX6qKEV1uAqettV0W3akHVxaB6TyeFLp1wNtuKlozkI7cMBuLXMUjCyXMTatJ5GfdDoGUzy15jFR04QDhFJlOg6KNqzojVz4u3JSE/JxE43s4N7pxkJM32fR7Wxwp5kVt04Q0Z3fIz1Re+oJjHlgfEwqCGEaQjQ2YV//T8XTrjazh0BHZ2OVrCt4+4Yk4o/iAh0qbmRa+UCI+PIWuQ+774U0ocVEKqNx4DkcLDTqTDzxPPVrNG+Y3FnmKwhjcmGzt0Lb/8FwvJ+AviU1x4pJszKUE0SaM9ReMXZ6YvVIuTd4pcemJLpQta3vMQ==";
const BODY: [u8; 40] = [
    0x7b, 0x22, 0x69, 0x73, 0x76, 0x45, 0x6e, 0x63, 0x6c, 0x61, 0x76, 0x65, 0x51, 0x75,
    0x6f, 0x74, 0x65, 0x53, 0x74, 0x61, 0x74, 0x75, 0x73, 0x22, 0x3a, 0x22, 0x4f, 0x4b,
    0x22, 0x2c, 0x22, 0x69, 0x64, 0x22, 0x3a, 0x22, 0x34, 0x32, 0x22, 0x7d,
];

fn root_cert() -> X509Cert {
    X509Cert::new_from_pem(ROOT_CERT_PEM.as_bytes()).unwrap()
}

fn leaf_cert() -> X509Cert {
    X509Cert::new_from_pem(LEAF_CERT_PEM.as_bytes()).unwrap()
}

/// A genuine signed report passes the whole chain.
#[test]
fn valid_report_verifies() {
    let root = root_cert();
    assert!(verify_response(&root, CHAIN_HEADER, SIG_HEADER, &BODY).is_ok());
}

/// A chain not ending at the pinned root is a mismatch.
#[test]
fn wrong_pinned_root_is_mismatch() {
    let wrong_root = leaf_cert();
    assert_eq!(
        verify_response(&wrong_root, CHAIN_HEADER, SIG_HEADER, &BODY),
        Err(AttestationError::MismatchedIASRootCertificate)
    );
}

/// A flipped body byte breaks the report signature.
#[test]
fn tampered_body_is_bad_signature() {
    let root = root_cert();
    let mut body = BODY.to_vec();
    body[5] ^= 1;
    assert_eq!(
        verify_response(&root, CHAIN_HEADER, SIG_HEADER, &body),
        Err(AttestationError::BadSignature)
    );
}

/// A corrupted signature header fails the same way.
#[test]
fn tampered_signature_is_bad_signature() {
    let root = root_cert();
    let sig = if SIG_HEADER.starts_with('A') {
        format!("B{}", &SIG_HEADER[1..])
    } else {
        format!("A{}", &SIG_HEADER[1..])
    };
    let r = verify_response(&root, CHAIN_HEADER, sig.as_str(), &BODY);
    assert_eq!(r, Err(AttestationError::BadSignature));
}

/// A header without two PEM blocks cannot be a chain.
#[test]
fn garbage_header_is_invalid_certificate() {
    let root = root_cert();
    assert_eq!(
        verify_response(&root, "no certificates here", SIG_HEADER, &BODY),
        Err(AttestationError::InvalidIASCertificate)
    );
    // a single certificate is not a chain either
    assert_eq!(
        verify_response(&root, LEAF_CERT_PEM, SIG_HEADER, &BODY),
        Err(AttestationError::InvalidIASCertificate)
    );
}

#[test]
fn certificate_chain_checks() {
    let root = root_cert();
    let leaf = leaf_cert();
    assert!(leaf.verify_this_certificate(&root).is_ok());
    assert!(root.verify_this_certificate(&leaf).is_err());
    // self-signed root verifies under itself
    assert!(root.verify_this_certificate(&root).is_ok());
}

#[test]
fn certificate_equality_is_by_der() {
    let a = root_cert();
    let b = root_cert();
    let c = leaf_cert();
    assert!(a == b);
    assert!(a != c);
}

#[test]
fn leaf_signature_over_body_verifies_directly() {
    let leaf = leaf_cert();
    let sig = base64_decode(SIG_HEADER.as_bytes()).unwrap();
    assert!(leaf.verify_signature(&BODY, &sig).is_ok());
    assert!(leaf.verify_signature(b"other body", &sig).is_err());
    let root = root_cert();
    assert!(root.verify_signature(&BODY, &sig).is_err());
}
