use vpn_ip_tracker::config::TrackerConfig;

const TEST_TOKEN: &str = "some_env_token";
const TEST_URL: &str = "https://some_url/";

#[test]
fn test_config_new() {
    let config = TrackerConfig::new(TEST_TOKEN.into(), TEST_URL.into());

    assert_eq!(config.token, TEST_TOKEN);
    assert_eq!(config.report_url, TEST_URL);
}

#[test]
fn test_load_config_no_available() {
    let config = TrackerConfig::load(None, None);
    assert!(config.is_none());
}

#[test]
fn test_load_config_env() {
    let from_env = Some(TrackerConfig::new(TEST_TOKEN.into(), TEST_URL.into()));
    let config = TrackerConfig::load(None, from_env).unwrap();

    assert_eq!(config.token, TEST_TOKEN);
    assert_eq!(config.report_url, TEST_URL);
}

#[test]
fn test_load_token_file() {
    let stored = Some(TrackerConfig::new(TEST_TOKEN.into(), TEST_URL.into()));
    let config = TrackerConfig::load(stored, None).unwrap();

    assert_eq!(config.token, TEST_TOKEN);
    assert_eq!(config.report_url, TEST_URL);
}

#[test]
fn load_prefers_stored_over_environment() {
    let stored = Some(TrackerConfig::new("file_token".into(), "https://file/".into()));
    let from_env = Some(TrackerConfig::new("env_token".into(), "https://env/".into()));
    let config = TrackerConfig::load(stored, from_env).unwrap();
    assert_eq!(config.token, "file_token");
    assert_eq!(config.report_url, "https://file/");
}

#[test]
fn load_skips_empty_stored_config() {
    let stored = Some(TrackerConfig::new(String::new(), String::new()));
    let from_env = Some(TrackerConfig::new("env_token".into(), "https://env/".into()));
    let config = TrackerConfig::load(stored, from_env).unwrap();
    assert_eq!(config.token, "env_token");

    let stored = Some(TrackerConfig::new(String::new(), String::new()));
    assert!(TrackerConfig::load(stored, None).is_none());
}

#[test]
fn load_never_resolves_a_partial_config() {
    let stored = Some(TrackerConfig::new("file_token".into(), String::new()));
    assert!(TrackerConfig::load(stored, None).is_none());

    let stored = Some(TrackerConfig::new("file_token".into(), String::new()));
    let from_env = Some(TrackerConfig::new("env_token".into(), "https://env/".into()));
    let config = TrackerConfig::load(stored, from_env).unwrap();
    assert_eq!(config.token, "env_token");
    assert_eq!(config.report_url, "https://env/");

    let from_env = Some(TrackerConfig::new(String::new(), "https://env/".into()));
    assert!(TrackerConfig::load(None, from_env).is_none());
    let from_env = Some(TrackerConfig::new("env_token".into(), String::new()));
    assert!(TrackerConfig::load(None, from_env).is_none());
}

#[test]
fn validity_needs_both_fields() {
    assert!(TrackerConfig::new("t".into(), "https://u/".into()).is_valid());
    assert!(!TrackerConfig::new(String::new(), "https://u/".into()).is_valid());
    assert!(!TrackerConfig::new("t".into(), String::new()).is_valid());
    assert!(!TrackerConfig::new(String::new(), String::new()).is_valid());
}
