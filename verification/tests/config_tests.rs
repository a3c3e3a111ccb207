//! Configuration defaults and field carrying.

use futu::config::FutuConfig;

#[test]
fn test_default_config() {
    let config = FutuConfig::default();
    assert_eq!(config.host, "127.0.0.1");
    assert_eq!(config.port, 11111);
    assert_eq!(config.client_id, "nautilus_futu");
    assert_eq!(config.client_ver, 100);
    assert!(config.rsa_key_path.is_none());
    assert!(!config.enable_encryption);
    assert!(config.reconnect);
    assert_eq!(config.reconnect_interval_secs, 5);
}

#[test]
fn test_custom_config() {
    let config = FutuConfig {
        host: "192.168.1.100".to_string(),
        port: 22222,
        client_id: "my_client".to_string(),
        client_ver: 200,
        rsa_key_path: Some("/tmp/rsa.key".to_string()),
        enable_encryption: true,
        reconnect: false,
        reconnect_interval_secs: 10,
    };
    assert_eq!(config.host, "192.168.1.100");
    assert_eq!(config.port, 22222);
    assert_eq!(config.client_id, "my_client");
    assert_eq!(config.client_ver, 200);
    assert_eq!(config.rsa_key_path.unwrap(), "/tmp/rsa.key".to_string());
    assert!(config.enable_encryption);
    assert!(!config.reconnect);
    assert_eq!(config.reconnect_interval_secs, 10);
}

#[test]
fn test_clone() {
    let config = FutuConfig {
        host: "10.0.0.1".to_string(),
        port: 33333,
        ..FutuConfig::default()
    };
    let cloned = config.clone();
    assert_eq!(cloned.host, config.host);
    assert_eq!(cloned.port, config.port);
    assert_eq!(cloned.client_id, config.client_id);
    assert_eq!(cloned.enable_encryption, config.enable_encryption);
}
