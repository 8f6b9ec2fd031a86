use datavfs::services::{FtpConfig, GDriveConfig, RemoteSource, S3Config, ServiceKind};
use std::collections::BTreeMap;

fn map_of(pairs: &[(&str, &str)]) -> BTreeMap<String, String> {
    pairs.iter().map(|(k, v)| (k.to_string(), v.to_string())).collect()
}

fn ftp() -> FtpConfig {
    FtpConfig {
        endpoint: "ftp://host:21".to_string(),
        root: "/pub".to_string(),
        username: "anon".to_string(),
        password: "SECRET-REDACTED".to_string(),
    }
}

#[test]
fn ftp_settings() {
    assert_eq!(
        ftp().to_map(),
        map_of(&[("endpoint", "ftp://host:21"), ("root", "/pub"), ("user", "anon"), ("password", "SECRET-REDACTED")])
    );
    assert_eq!(ftp().scheme(), ServiceKind::Ftp);
}

#[test]
fn gdrive_settings() {
    let c = GDriveConfig {
        root: "/".to_string(),
        refresh_token: "r".to_string(),
        client_id: "id".to_string(),
        client_secret: "s".to_string(),
    };
    assert_eq!(c.scheme(), ServiceKind::Gdrive);
    assert_eq!(
        c.to_map(),
        map_of(&[("root", "/"), ("refresh_token", "r"), ("client_id", "id"), ("client_secret", "s")])
    );
}

#[test]
fn s3_settings_through_source() {
    let c = S3Config {
        root: "/r".to_string(),
        bucket: "b".to_string(),
        endpoint: "http://e".to_string(),
        region: "us".to_string(),
        access_key_id: "k".to_string(),
        secret_access_key: "x".to_string(),
    };
    let src = RemoteSource::S3(c);
    assert_eq!(src.scheme(), ServiceKind::S3);
    assert_eq!(
        src.to_map(),
        map_of(&[
            ("root", "/r"),
            ("bucket", "b"),
            ("endpoint", "http://e"),
            ("region", "us"),
            ("access_key_id", "k"),
            ("secret_access_key", "x"),
        ])
    );
}

#[test]
fn source_clone_is_equal() {
    let src = RemoteSource::FTP(ftp());
    assert_eq!(src.clone(), src);
}
