use vpn_ip_tracker::config::TrackerConfig;
use vpn_ip_tracker::iface::InterfaceSnapshot;
use vpn_ip_tracker::report::{
    classify_status, credential_header_value, ipv4_text_bytes, report_request, ReportError,
    CREDENTIAL_HEADER,
    REPORT_TIMEOUT_SECS,
};

fn text(a: [u8; 4]) -> String {
    String::from_utf8(ipv4_text_bytes(u32::from_be_bytes(a))).unwrap()
}

#[test]
fn address_text_is_dotted_decimal() {
    assert_eq!(text([1, 2, 3, 4]), "1.2.3.4");
    assert_eq!(text([0, 0, 0, 0]), "0.0.0.0");
    assert_eq!(text([255, 255, 255, 255]), "255.255.255.255");
    assert_eq!(text([10, 100, 9, 200]), "10.100.9.200");
    assert_eq!(text([192, 168, 1, 1]), "192.168.1.1");
}

#[test]
fn request_carries_url_token_and_address() {
    let config = TrackerConfig::new("SECRET-REDACTED".into(), "https://report.example/ip".into());
    let snap = InterfaceSnapshot {
        name: "tun0".into(),
        address: u32::from_be_bytes([10, 8, 0, 2]),
        index: 7,
    };
    let req = report_request(&snap, &config);
    assert_eq!(req.url, "https://report.example/ip");
    assert_eq!(req.token, "SECRET-REDACTED");
    assert_eq!(req.body, b"10.8.0.2".to_vec());
    assert_eq!(CREDENTIAL_HEADER, "Credential");
    assert_eq!(REPORT_TIMEOUT_SECS, 10);
}

#[test]
fn any_2xx_is_success() {
    assert_eq!(classify_status(200), Ok(()));
    assert_eq!(classify_status(204), Ok(()));
    assert_eq!(classify_status(299), Ok(()));
    assert_eq!(classify_status(199), Err(ReportError::Status(199)));
    assert_eq!(classify_status(301), Err(ReportError::Status(301)));
    assert_eq!(classify_status(404), Err(ReportError::Status(404)));
    assert_eq!(classify_status(500), Err(ReportError::Status(500)));
}

#[test]
fn credential_value_is_sensitive_and_verbatim() {
    let v = credential_header_value("SECRET-REDACTED").unwrap();
    assert!(v.is_sensitive());
    assert_eq!(v.as_bytes(), b"SECRET-REDACTED");
    let v = credential_header_value("with\ttab and space").unwrap();
    assert_eq!(v.as_bytes(), b"with\ttab and space");
    assert!(credential_header_value("caf\u{e9}").is_ok());
    assert!(credential_header_value("").is_ok());
}

#[test]
fn credential_value_refuses_control_characters() {
    assert!(matches!(credential_header_value("a\nb"), Err(ReportError::InvalidCredential)));
    assert!(matches!(credential_header_value("a\rb"), Err(ReportError::InvalidCredential)));
    assert!(matches!(credential_header_value("\u{7f}"), Err(ReportError::InvalidCredential)));
    assert!(matches!(credential_header_value("\u{0}"), Err(ReportError::InvalidCredential)));
}
