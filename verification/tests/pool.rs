use directory::pool::{build_failure, pool_config, PoolConfig, PoolSettings};
use directory::settings::Setting;

#[test]
fn pool_defaults() {
    let settings = PoolSettings {
        max_connections: Setting::Missing,
        create_timeout: Setting::Missing,
        wait_timeout: Setting::Missing,
        recycle_timeout: Setting::Missing,
    };
    assert_eq!(
        pool_config(settings),
        PoolConfig {
            max_size: 10,
            create_timeout: Some(30_000),
            wait_timeout: Some(30_000),
            recycle_timeout: Some(30_000),
        }
    );
}

#[test]
fn pool_values_are_taken() {
    let settings = PoolSettings {
        max_connections: Setting::Value(3),
        create_timeout: Setting::Value(1_000),
        wait_timeout: Setting::Value(2_000),
        recycle_timeout: Setting::Value(0),
    };
    assert_eq!(
        pool_config(settings),
        PoolConfig {
            max_size: 3,
            create_timeout: Some(1_000),
            wait_timeout: Some(2_000),
            recycle_timeout: Some(0),
        }
    );
}

#[test]
fn pool_unreadable_keys() {
    let settings = PoolSettings {
        max_connections: Setting::Invalid,
        create_timeout: Setting::Invalid,
        wait_timeout: Setting::Invalid,
        recycle_timeout: Setting::Invalid,
    };
    assert_eq!(
        pool_config(settings),
        PoolConfig { max_size: 10, create_timeout: Some(30_000), wait_timeout: None, recycle_timeout: None }
    );
}

#[test]
fn pool_failure_message() {
    assert_eq!(
        build_failure("\"directory.ldap\"", "no runtime"),
        "Failed to build pool for \"directory.ldap\": no runtime"
    );
}

#[test]
fn setting_fallbacks() {
    assert_eq!(Setting::Value(1).or(2, 3), 1);
    assert_eq!(Setting::<u8>::Missing.or(2, 3), 2);
    assert_eq!(Setting::<u8>::Invalid.or(2, 3), 3);
    assert_eq!(Setting::Value(1).or_missing(2), Some(1));
    assert_eq!(Setting::<u8>::Missing.or_missing(2), Some(2));
    assert_eq!(Setting::<u8>::Invalid.or_missing(2), None);
}
