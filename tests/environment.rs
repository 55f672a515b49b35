use xiler_sync::environment::{
    ensure_is_not_empty, required_setting, setting_or_default, Config, ConfigError,
};

#[test]
fn not_empty_value_is_kept() {
    assert_eq!(ensure_is_not_empty("value".to_string()), Ok("value".to_string()));
    assert_eq!(ensure_is_not_empty(String::new()), Err(ConfigError::Empty));
}

#[test]
fn default_used_when_unset() {
    assert_eq!(setting_or_default(None, "xiler-dns"), Ok("xiler-dns".to_string()));
    assert_eq!(setting_or_default(Some("test".to_string()), "xiler-dns"), Ok("test".to_string()));
    assert_eq!(setting_or_default(Some(String::new()), "xiler-dns"), Err(ConfigError::Empty));
}

#[test]
fn required_value_must_be_set() {
    assert_eq!(required_setting(None), Err(ConfigError::Missing));
    assert_eq!(required_setting(Some(String::new())), Err(ConfigError::Empty));
    assert_eq!(required_setting(Some("test".to_string())), Ok("test".to_string()));
}

#[test]
fn config_from_settings() {
    let config = Config::from_settings(
        None,
        Some("address".to_string()),
        Some("signature".to_string()),
        None,
        None,
    )
    .unwrap();
    assert_eq!(config.api_base_url, "https://turbo.ordinalswallet.com/");
    assert_eq!(config.slug, "xiler-dns");
    assert_eq!(config.checkpoint_path, "./last_update.timestamp");
    assert_eq!(config.publish_url(), "https://turbo.ordinalswallet.com//collection/update");
    assert_eq!(
        Config::from_settings(None, None, Some("s".to_string()), None, None).unwrap_err(),
        ConfigError::Missing
    );
}

#[test]
fn checkpoint_path_taken_as_found() {
    let address = || Some("address".to_string());
    let signature = || Some("signature".to_string());
    let config = Config::from_settings(None, address(), signature(), None, Some(String::new())).unwrap();
    assert_eq!(config.checkpoint_path, "");
    let config = Config::from_settings(
        None,
        address(),
        signature(),
        None,
        Some("./last_update.timestamp.test".to_string()),
    )
    .unwrap();
    assert_eq!(config.checkpoint_path, "./last_update.timestamp.test");
}

#[test]
fn config_error_of_first_failing_setting() {
    assert_eq!(
        Config::from_settings(Some(String::new()), None, None, None, None).unwrap_err(),
        ConfigError::Empty
    );
    assert_eq!(
        Config::from_settings(None, Some(String::new()), None, None, None).unwrap_err(),
        ConfigError::Empty
    );
    assert_eq!(
        Config::from_settings(None, Some("a".to_string()), None, Some(String::new()), None)
            .unwrap_err(),
        ConfigError::Missing
    );
    assert_eq!(
        Config::from_settings(
            None,
            Some("a".to_string()),
            Some("s".to_string()),
            Some(String::new()),
            None
        )
        .unwrap_err(),
        ConfigError::Empty
    );
}
