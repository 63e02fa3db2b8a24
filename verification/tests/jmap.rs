use directory::jmap::{
    invalid_header, parse_http_header, parse_http_headers, parse_spam_header, seconds,
    split_at_colon, JmapConfig, JmapSettings, Rate, SimpleCron, SpamHeaderError,
};
use directory::registry::Diagnostic;
use directory::settings::Setting;

#[test]
fn jmap_defaults() {
    let (config, diagnostics) = JmapConfig::parse(JmapSettings::unset());
    assert_eq!(diagnostics, vec![]);
    assert_eq!(config.default_language, "en");
    assert_eq!(config.query_max_results, 5000);
    assert_eq!(config.changes_max_results, 5000);
    assert_eq!(config.snippet_max_results, 100);
    assert_eq!(config.request_max_size, 10000000);
    assert_eq!(config.request_max_calls, 16);
    assert_eq!(config.request_max_concurrent, 4);
    assert_eq!(config.get_max_objects, 500);
    assert_eq!(config.set_max_objects, 500);
    assert_eq!(config.upload_max_size, 50000000);
    assert_eq!(config.upload_max_concurrent, 4);
    assert_eq!(config.upload_tmp_quota_size, 50000000);
    assert_eq!(config.upload_tmp_quota_amount, 1000);
    assert_eq!(config.upload_tmp_ttl, 3600);
    assert_eq!(config.mailbox_max_depth, 10);
    assert_eq!(config.mailbox_name_max_len, 255);
    assert_eq!(config.mail_attachments_max_size, 50000000);
    assert_eq!(config.mail_parse_max_items, 10);
    assert_eq!(config.mail_max_size, 75000000);
    assert_eq!(config.sieve_max_script_name, 512);
    assert_eq!(config.sieve_max_scripts, 256);
    assert_eq!(config.session_cache_ttl, 3_600_000);
    assert_eq!(config.rate_authenticated, Some(Rate { requests: 1000, period: 60_000 }));
    assert_eq!(config.rate_authenticate_req, Some(Rate { requests: 10, period: 60_000 }));
    assert_eq!(config.rate_anonymous, Some(Rate { requests: 100, period: 60_000 }));
    assert!(!config.rate_use_forwarded);
    assert_eq!(config.event_source_throttle, 1_000);
    assert_eq!(config.push_max_total, 100);
    assert_eq!(config.push_attempt_interval, 60_000);
    assert_eq!(config.push_attempts_max, 3);
    assert_eq!(config.push_retry_interval, 1_000);
    assert_eq!(config.push_timeout, 10_000);
    assert_eq!(config.push_verify_timeout, 60_000);
    assert_eq!(config.push_throttle, 1_000);
    assert_eq!(config.web_socket_throttle, 1_000);
    assert_eq!(config.web_socket_timeout, 600_000);
    assert_eq!(config.web_socket_heartbeat, 60_000);
    assert_eq!(config.oauth_expiry_user_code, 1800);
    assert_eq!(config.oauth_expiry_auth_code, 600);
    assert_eq!(config.oauth_expiry_token, 3600);
    assert_eq!(config.oauth_expiry_refresh_token, 2_592_000);
    assert_eq!(config.oauth_expiry_refresh_token_renew, 345_600);
    assert_eq!(config.oauth_max_auth_attempts, 3);
    assert_eq!(config.spam_header, None);
    assert_eq!(config.http_headers, vec![]);
    assert!(config.encrypt);
    assert!(!config.encrypt_append);
    assert!(config.principal_allow_lookups);
    assert_eq!(config.session_purge_frequency, SimpleCron::Hour { minute: 15 });
}

#[test]
fn jmap_made_up_oauth_key() {
    let (first, _) = JmapConfig::parse(JmapSettings::unset());
    let (second, _) = JmapConfig::parse(JmapSettings::unset());
    for key in [&first.oauth_key, &second.oauth_key] {
        assert_eq!(key.chars().count(), 64);
        assert!(key.chars().all(|c| c.is_ascii_alphanumeric()));
    }
    let mut settings = JmapSettings::unset();
    settings.oauth_key = Some("given".to_string());
    assert_eq!(JmapConfig::parse(settings).0.oauth_key, "given");
}

#[test]
fn jmap_values_and_unreadable_keys() {
    let mut settings = JmapSettings::unset();
    settings.default_language = Setting::Value("de".to_string());
    settings.query_max_results = Setting::Value(7);
    settings.changes_max_results = Setting::Invalid;
    settings.upload_tmp_ttl = Setting::Value(90_999);
    settings.oauth_expiry_token = Setting::Invalid;
    settings.oauth_max_auth_attempts = Setting::Invalid;
    settings.rate_authenticated = Setting::Invalid;
    settings.rate_anonymous = Setting::Value(Rate { requests: 1, period: 2 });
    settings.encrypt = Setting::Value(false);
    settings.principal_allow_lookups = Setting::Invalid;
    settings.session_purge_frequency = Setting::Value(SimpleCron::Day { hour: 3, minute: 30 });
    settings.push_attempts_max = Setting::Value(9);
    let (config, diagnostics) = JmapConfig::parse(settings);
    assert_eq!(diagnostics, vec![]);
    assert_eq!(config.default_language, "de");
    assert_eq!(config.query_max_results, 7);
    assert_eq!(config.changes_max_results, 5000);
    assert_eq!(config.upload_tmp_ttl, 90);
    assert_eq!(config.oauth_expiry_token, 3600);
    assert_eq!(config.oauth_max_auth_attempts, 10);
    assert_eq!(config.rate_authenticated, None);
    assert_eq!(config.rate_anonymous, Some(Rate { requests: 1, period: 2 }));
    assert!(!config.encrypt);
    assert!(config.principal_allow_lookups);
    assert_eq!(config.session_purge_frequency, SimpleCron::Day { hour: 3, minute: 30 });
    assert_eq!(config.push_attempts_max, 9);
    let mut other = JmapSettings::unset();
    other.default_language = Setting::Invalid;
    assert_eq!(JmapConfig::parse(other).0.default_language, "en");
}

#[test]
fn seconds_are_whole() {
    assert_eq!(seconds(Setting::Value(0), 5), 0);
    assert_eq!(seconds(Setting::Value(999), 5), 0);
    assert_eq!(seconds(Setting::Value(1000), 5), 1);
    assert_eq!(seconds(Setting::Value(u64::MAX), 5), u64::MAX / 1000);
    assert_eq!(seconds(Setting::Missing, 5), 5);
    assert_eq!(seconds(Setting::Invalid, 5), 5);
}

#[test]
fn http_header_name_is_lowered() {
    assert_eq!(
        parse_http_header("X-Frame-Options:  DENY "),
        Ok(("x-frame-options".to_string(), "DENY".to_string()))
    );
    assert_eq!(
        parse_http_header(" Strict-Transport-Security : max-age=31536000; includeSubDomains"),
        Ok((
            "strict-transport-security".to_string(),
            "max-age=31536000; includeSubDomains".to_string()
        ))
    );
    assert_eq!(parse_http_header("a:b:c"), Ok(("a".to_string(), "b:c".to_string())));
    assert_eq!(parse_http_header("a:"), Ok(("a".to_string(), "".to_string())));
    assert_eq!(parse_http_header("a: ünï"), Ok(("a".to_string(), "ünï".to_string())));
}

#[test]
fn http_header_errors() {
    assert_eq!(
        parse_http_header("no colon here"),
        Err("Invalid header found in property \"server.http.headers\": no colon here".to_string())
    );
    assert_eq!(
        parse_http_header("bad name: x"),
        Err("Invalid header found in property \"server.http.headers\": invalid HTTP header name"
            .to_string())
    );
    assert_eq!(
        parse_http_header(": x"),
        Err("Invalid header found in property \"server.http.headers\": invalid HTTP header name"
            .to_string())
    );
    assert_eq!(
        parse_http_header("name: a\u{7f}b"),
        Err("Invalid header found in property \"server.http.headers\": failed to parse header value"
            .to_string())
    );
    assert_eq!(
        parse_http_header("name: a\nb"),
        Err("Invalid header found in property \"server.http.headers\": failed to parse header value"
            .to_string())
    );
    assert_eq!(invalid_header("x"), "Invalid header found in property \"server.http.headers\": x");
}

#[test]
fn one_bad_http_header_spoils_all() {
    let good = vec!["A: 1".to_string(), "B: 2".to_string()];
    assert_eq!(
        parse_http_headers(&good),
        Ok(vec![("a".to_string(), "1".to_string()), ("b".to_string(), "2".to_string())])
    );
    assert_eq!(parse_http_headers(&vec![]), Ok(vec![]));
    let bad = vec!["A: 1".to_string(), "B".to_string(), "C D: 3".to_string()];
    assert_eq!(
        parse_http_headers(&bad),
        Err("Invalid header found in property \"server.http.headers\": B".to_string())
    );
    let mut settings = JmapSettings::unset();
    settings.http_headers = bad;
    let (config, diagnostics) = JmapConfig::parse(settings);
    assert_eq!(config.http_headers, vec![]);
    assert_eq!(
        diagnostics,
        vec![Diagnostic {
            key: "server.http.headers".to_string(),
            message: "Invalid header found in property \"server.http.headers\": B".to_string(),
        }]
    );
    let mut settings = JmapSettings::unset();
    settings.http_headers = good;
    let (config, diagnostics) = JmapConfig::parse(settings);
    assert_eq!(diagnostics, vec![]);
    assert_eq!(
        config.http_headers,
        vec![("a".to_string(), "1".to_string()), ("b".to_string(), "2".to_string())]
    );
}

#[test]
fn spam_header_parts() {
    assert_eq!(
        parse_spam_header("X-Spam-Status: Yes"),
        Ok(Some(("X-Spam-Status".to_string(), "Yes".to_string())))
    );
    assert_eq!(
        parse_spam_header(" Subject :  [SPAM]: x "),
        Ok(Some(("Subject".to_string(), "[SPAM]: x".to_string())))
    );
    assert_eq!(parse_spam_header("X-Spam-Status"), Ok(None));
    assert_eq!(parse_spam_header(""), Ok(None));
    assert_eq!(
        parse_spam_header("X Spam: Yes"),
        Err(SpamHeaderError::InvalidName("X Spam".to_string()))
    );
    assert_eq!(parse_spam_header(": Yes"), Err(SpamHeaderError::InvalidName("".to_string())));
    assert_eq!(
        parse_spam_header("X-Späm: Yes"),
        Err(SpamHeaderError::InvalidName("X-Späm".to_string()))
    );
    assert_eq!(split_at_colon(" a : b "), Some(("a", "b")));
    assert_eq!(split_at_colon("ab"), None);
}

#[test]
fn jmap_spam_header_setting() {
    let mut settings = JmapSettings::unset();
    settings.spam_header = Some("X-Spam-Status: Yes".to_string());
    let (config, diagnostics) = JmapConfig::parse(settings);
    assert_eq!(config.spam_header, Some(("X-Spam-Status".to_string(), "Yes".to_string())));
    assert_eq!(diagnostics, vec![]);
    let mut settings = JmapSettings::unset();
    settings.spam_header = Some("X Spam: Yes".to_string());
    settings.http_headers = vec!["oops".to_string()];
    let (config, diagnostics) = JmapConfig::parse(settings);
    assert_eq!(config.spam_header, None);
    assert_eq!(
        diagnostics,
        vec![
            Diagnostic {
                key: "spam.header.is-spam".to_string(),
                message: "Invalid header name: X Spam".to_string(),
            },
            Diagnostic {
                key: "server.http.headers".to_string(),
                message: "Invalid header found in property \"server.http.headers\": oops".to_string(),
            },
        ]
    );
}

#[test]
fn jmap_drawn_key_is_used_only_without_a_setting() {
    let (config, _) = JmapConfig::parse_with_key(JmapSettings::unset(), "drawn".to_string());
    assert_eq!(config.oauth_key, "drawn");
    let mut settings = JmapSettings::unset();
    settings.oauth_key = Some("given".to_string());
    let (config, _) = JmapConfig::parse_with_key(settings, "drawn".to_string());
    assert_eq!(config.oauth_key, "given");
}

#[test]
fn http_header_name_rules() {
    assert_eq!(
        parse_http_header("!#$%&'*+-.^_`|~09AZaz: v"),
        Ok(("!#$%&'*+-.^_`|~09azaz".to_string(), "v".to_string()))
    );
    let bad = Err(
        "Invalid header found in property \"server.http.headers\": invalid HTTP header name"
            .to_string(),
    );
    for name in ["a b", "a\"b", "a(b", "a,b", "a/b", "a;b", "a=b", "a@b", "a[b", "a{b", "é", "a\u{7f}"] {
        assert_eq!(parse_http_header(&format!("{}: v", name)), bad);
    }
    let longest = "a".repeat(65535);
    assert_eq!(
        parse_http_header(&format!("{}: v", longest)),
        Ok((longest.clone(), "v".to_string()))
    );
    assert_eq!(parse_http_header(&format!("{}a: v", longest)), bad);
    let middle = "B".repeat(65);
    assert_eq!(
        parse_http_header(&format!("{}: v", middle)),
        Ok(("b".repeat(65), "v".to_string()))
    );
}
