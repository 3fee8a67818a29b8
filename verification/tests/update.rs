use ferro_code::update::parse_available_version;

#[test]
fn parses_available_update_from_doctor_report() {
    let report = br#"{
        "checks": {
            "updates.status": {
                "details": {
                    "latest version": "0.147.0",
                    "latest version status": "newer version is available"
                }
            }
        }
    }"#;

    assert_eq!(
        parse_available_version(report).unwrap(),
        Some("0.147.0".into())
    );
}

#[test]
fn current_version_does_not_create_an_update_notification() {
    let report = br#"{
        "checks": {
            "updates.status": {
                "details": {
                    "latest version": "0.146.0",
                    "latest version status": "current version is not older"
                }
            }
        }
    }"#;

    assert_eq!(parse_available_version(report).unwrap(), None);
}
