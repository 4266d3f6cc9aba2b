use authcore::config::{
    get_config, number_setting, parse_signed, reload_config, signed_setting, text_setting, Config,
    ConfigStore,
};
use authcore::record::parse_unsigned;
use authcore::frontend;

#[test]
fn defaults_fill_missing_settings() {
    let c = Config::from_settings(None, None, None, None, None, None, None, None, None);
    assert_eq!(c.environment, "development");
    assert_eq!(c.log_level, "info");
    assert_eq!(c.api_host, "127.0.0.1");
    assert_eq!(c.api_port, 8000);
    assert_eq!(c.database_url, "sqlite:///app/data/app.db");
    assert_eq!(c.api_token, "dev_api_token");
    assert_eq!(c.jwt_secret, "dev_jwt_secret");
    assert_eq!(c.access_token_expire_minutes, 30);
    assert_eq!(c.backend_url, "http://localhost:5000");
}

#[test]
fn given_settings_win() {
    let c = Config::from_settings(
        Some("production".to_string()),
        None,
        None,
        Some("9000".to_string()),
        None,
        Some("tok".to_string()),
        None,
        Some("45".to_string()),
        None,
    );
    assert_eq!(c.environment, "production");
    assert_eq!(c.api_port, 9000);
    assert_eq!(c.api_token, "tok");
    assert_eq!(c.access_token_expire_minutes, 45);
}

#[test]
fn unreadable_numbers_fall_back() {
    assert_eq!(number_setting(&Some("70000".to_string()), 65535, 8000), 8000);
    assert_eq!(number_setting(&Some("x1".to_string()), 65535, 8000), 8000);
    assert_eq!(number_setting(&Some("".to_string()), 65535, 8000), 8000);
    assert_eq!(number_setting(&Some("65535".to_string()), 65535, 8000), 65535);
    assert_eq!(number_setting(&None, 65535, 8000), 8000);
    assert_eq!(text_setting(None, "d"), "d");
    assert_eq!(text_setting(Some("v".to_string()), "d"), "v");
}

#[test]
fn reload_replaces_the_whole_value() {
    let mut store = ConfigStore::new(Config::from_settings(
        None, None, None, None, None, None, None, None, None,
    ));
    let before = get_config(&store);
    reload_config(
        &mut store,
        Config::from_settings(None, None, None, Some("1".to_string()), None, None, None, None, None),
    );
    let after = get_config(&store);
    assert_eq!(before.api_port, 8000);
    assert_eq!(after.api_port, 1);
    let copy = after.snapshot();
    assert_eq!(copy.api_token, after.api_token);
}

#[test]
fn frontend_settings_and_requests() {
    let c = frontend::Config::from_settings(None, None, None, None, None, None);
    assert_eq!(c.web_port, 3000);
    assert_eq!(c.api_url, "http://localhost:8000");
    let mut store = frontend::ConfigStore::new(c);
    let first = frontend::get_config(&store);
    let second = frontend::get_config(&store);
    assert_eq!(first.api_token, second.api_token);
    frontend::reload_config(
        &mut store,
        frontend::Config::from_settings(None, None, None, None, None, Some("t".to_string())),
    );
    assert_eq!(frontend::get_config(&store).api_token, "t");
    assert_eq!(frontend::authorization_value("abc"), "Bearer abc");
    assert_eq!(frontend::endpoint_url("http://h:1", "/api/items"), "http://h:1/api/items");
}

#[test]
fn numbers_read_as_str_parse_does() {
    let c = Config::from_settings(
        None,
        None,
        None,
        Some("+80".to_string()),
        None,
        None,
        None,
        Some("-5".to_string()),
        None,
    );
    assert_eq!(c.api_port, 80);
    assert_eq!(c.access_token_expire_minutes, -5);
    assert_eq!(signed_setting(&Some("+7".to_string()), 30), 7);
    assert_eq!(signed_setting(&Some("-".to_string()), 30), 30);
    assert_eq!(signed_setting(&Some("--5".to_string()), 30), 30);
    assert_eq!(signed_setting(&Some("x".to_string()), 30), 30);
    assert_eq!(number_setting(&Some("-1".to_string()), 65535, 8000), 8000);
    assert_eq!(number_setting(&Some("+".to_string()), 65535, 8000), 8000);
    assert_eq!(parse_signed(b"-9223372036854775808"), Some(i64::MIN));
    assert_eq!(parse_signed(b"9223372036854775807"), Some(i64::MAX));
    assert_eq!(parse_signed(b"9223372036854775808"), None);
    assert_eq!(parse_signed(b"-9223372036854775809"), None);
    assert_eq!(parse_unsigned(b"+0065535", 65535), Some(65535));
    for text in ["-5", "+80", "0", "-0", "+", "-", "", "12a", "99999999999999999999"] {
        assert_eq!(parse_signed(text.as_bytes()), text.parse::<i64>().ok());
        assert_eq!(parse_unsigned(text.as_bytes(), 65535), text.parse::<u16>().ok().map(u64::from));
    }
}

#[test]
fn reads_agree_and_reload_replaces() {
    let mut store = ConfigStore::new(Config::from_settings(
        None, None, None, None, None, None, None, None, None,
    ));
    assert_eq!(get_config(&store).api_token, get_config(&store).api_token);
    let fresh = || {
        Config::from_settings(None, None, None, None, None, Some("t2".to_string()), None, None, None)
    };
    reload_config(&mut store, fresh());
    let after_one = get_config(&store);
    reload_config(&mut store, fresh());
    let after_two = get_config(&store);
    assert_eq!(after_one.api_token, "t2");
    assert_eq!(after_two.api_token, after_one.api_token);
    assert_eq!(after_two.api_port, after_one.api_port);
}
