use datavfs::config::{DataMode, LocalConfig, RemoteConfig};
use datavfs::layers::{DataVfs, SecureLayer, VfsLayer};
use datavfs::local::{DiskStat, LocalBackend, LocalHandle, LocalWalk};
use datavfs::meta::{DataUsage, Metadata, Timestamp};
use datavfs::operator::{DataError, DataInner, Removal};
use datavfs::remote::{appended_content, layer_plan, LayerSpec, OpenDALBackend, OpenDALHandle, OpenDALQuery, RemoteRequest};
use datavfs::services::{FtpConfig, RemoteSource};
use datavfs::throttle::Throttle;

fn local() -> LocalBackend {
    LocalBackend::with_id(5, LocalConfig { path: "/srv/store".to_string() })
}

fn disk(mount: &str, total: u64, free: u64) -> DiskStat {
    DiskStat { mount_point: mount.to_string(), total_space: total, available_space: free }
}

fn remote_config(bandwidth: Option<Throttle>, max_threads: Option<u8>) -> RemoteConfig {
    RemoteConfig {
        max_threads,
        bandwidth,
        src: RemoteSource::FTP(FtpConfig {
            endpoint: "ftp://127.0.0.1:21".to_string(),
            root: "/".to_string(),
            username: "u".to_string(),
            password: "p".to_string(),
        }),
    }
}

#[test]
fn local_backend_settings() {
    let be = LocalBackend::new(LocalConfig { path: "/srv/store".to_string() });
    assert_eq!(be.path, "/srv/store");
    assert_eq!(be.config, LocalConfig { path: "/srv/store".to_string() });
    let other = LocalBackend::new(LocalConfig { path: "/srv/store".to_string() });
    assert_ne!(be.get_id(), other.get_id());
}

#[test]
fn local_metadata_is_named_below_root() {
    let be = local();
    let t = Some(Timestamp { secs: 3, nanos: 1 });
    let m = be.describe("/srv/store/a/b", false, t, None, t, 12);
    assert_eq!(m, Metadata::new("/a/b".to_string(), false, t, None, t, 12));
    assert_eq!(be.describe("/srv/store", true, None, None, None, 0).path, "/");
}

#[test]
fn local_usage_uses_first_holding_disk() {
    let be = local();
    let disks = vec![disk("/boot", 10, 5), disk("/srv", 100, 40), disk("/", 1000, 1)];
    assert_eq!(be.select_disk(&disks), Some(1));
    assert_eq!(be.usage(&disks).unwrap(), DataUsage { max_bytes: 100, used_bytes: 60, free_bytes: 40 });
    let none = vec![disk("/boot", 10, 5), disk("/srvx", 1, 1)];
    assert_eq!(be.select_disk(&none), None);
    assert!(matches!(be.usage(&none), Err(DataError::Unsupported)));
}

#[test]
fn local_inner_has_every_capability() {
    let inner: DataInner<u8, u8, u8> = local().to_inner(1, 2, 3);
    assert_eq!(inner.id, 5);
    assert_eq!(inner.info, DataMode::Local(LocalConfig { path: "/srv/store".to_string() }));
    assert_eq!((inner.reader, inner.writer, inner.full), (Some(1), Some(2), Some(3)));
}

#[test]
fn local_handle_paths() {
    let dir = LocalHandle::new("/srv".to_string(), "/a/b".to_string(), true);
    assert_eq!(dir.removal(), Removal::Tree("/srv/a/b".to_string()));
    let file = LocalHandle::new("/srv".to_string(), "c.txt".to_string(), false);
    assert_eq!(file.removal(), Removal::Single("/srv/c.txt".to_string()));
    assert_eq!(file.rename_paths("/d.txt"), ("/srv/c.txt".to_string(), "/srv/c.txt/d.txt".to_string()));
}

#[test]
fn secure_layer_passes_identity_on() {
    let layer = SecureLayer::new(local());
    assert_eq!(layer.get_id(), 5);
    let other: SecureLayer<LocalBackend> = layer.bind(LocalBackend::with_id(8, LocalConfig { path: "/x".to_string() }));
    assert_eq!(other.get_id(), 8);
    assert_eq!(other.inner().path, "/x");
}

#[test]
fn layer_plans() {
    let t = Throttle { bandwidth: 10, burst: 20 };
    assert_eq!(layer_plan(&remote_config(Some(t), Some(4))), vec![
        LayerSpec::Throttle { bandwidth: 10, burst: 20 },
        LayerSpec::ConcurrentLimit(4),
        LayerSpec::Logging,
    ]);
    assert_eq!(layer_plan(&remote_config(None, None)), vec![LayerSpec::Logging]);
    assert_eq!(layer_plan(&remote_config(None, Some(2))), vec![LayerSpec::ConcurrentLimit(2), LayerSpec::Logging]);
}

#[test]
fn remote_backend_opens_with_layers() {
    let cfg = remote_config(Some(Throttle { bandwidth: 1024, burst: 4096 }), Some(3));
    let be = OpenDALBackend::new(cfg.clone()).unwrap();
    assert_eq!(be.config, cfg);
    let copy = be.clone();
    assert_eq!(copy.get_id(), be.get_id());
    assert_eq!(be.realpath("/a/b"), "/a/b");
    let inner: DataInner<u8, u8, u8> = be.to_inner(1, 2);
    assert_eq!(inner.info, DataMode::Remote(cfg));
    assert_eq!((inner.reader, inner.writer, inner.full), (Some(1), Some(2), None));
}

#[test]
fn remote_keys_per_request() {
    assert_eq!(OpenDALBackend::key_for(RemoteRequest::Stat, "a"), "/a");
    assert_eq!(OpenDALBackend::key_for(RemoteRequest::RemoveDir, "a"), "/a/");
    assert_eq!(OpenDALBackend::key_for(RemoteRequest::RemoveFile, "/a/"), "/a");
    assert_eq!(OpenDALBackend::key_for(RemoteRequest::CreateDir, "/a"), "/a/");
    assert_eq!(OpenDALBackend::key_for(RemoteRequest::List, "/a"), "/a/");
    assert_eq!(OpenDALBackend::key_for(RemoteRequest::Write, "/a"), "/a");
}

#[test]
fn remote_set_length_only_empties() {
    assert_eq!(OpenDALBackend::length_key("f", 0).unwrap(), "/f");
    assert!(matches!(OpenDALBackend::length_key("f", 3), Err(DataError::Unsupported)));
}

#[test]
fn remote_transfers_follow_kind_of_source() {
    let dir = Some(Metadata::new("/d".to_string(), true, None, None, None, 0));
    assert_eq!(OpenDALBackend::transfer_keys("/d", "/e", &dir).unwrap(), ("/d/".to_string(), "/e/".to_string()));
    let file = Some(Metadata::new("/f".to_string(), false, None, None, None, 0));
    assert_eq!(OpenDALBackend::transfer_keys("/f", "/g/", &file).unwrap(), ("/f".to_string(), "/g".to_string()));
    assert!(matches!(OpenDALBackend::transfer_keys("/f", "/g", &None), Err(DataError::NotFound)));
}

#[test]
fn remote_metadata() {
    let t = Some(Timestamp { secs: 100, nanos: 0 });
    let m = OpenDALBackend::meta("/x/y", false, t, 77);
    assert_eq!(m, Metadata::new("/x/y".to_string(), false, t, None, None, 77));
}

#[test]
fn remote_listing_hides_its_root_unless_asked() {
    let be = OpenDALBackend::new(remote_config(None, None)).unwrap();
    let q = OpenDALQuery::new(be.operator().clone(), "/dir/".to_string(), false, false);
    assert!(!q.admits(&Metadata::new("dir".to_string(), true, None, None, None, 0)));
    assert!(q.admits(&Metadata::new("/dir/a".to_string(), false, None, None, None, 0)));
    let with_root = OpenDALQuery::new(be.operator().clone(), "/dir/".to_string(), false, true);
    assert!(with_root.admits(&Metadata::new("/dir/".to_string(), true, None, None, None, 0)));
}

#[test]
fn remote_handle_keys() {
    let be = OpenDALBackend::new(remote_config(None, None)).unwrap();
    let dir = OpenDALHandle::new(be.operator().clone(), "d", true);
    assert_eq!(dir.removal(), Removal::Tree("/d/".to_string()));
    assert_eq!(dir.rename_keys("e"), ("/d/".to_string(), "/e/".to_string()));
    assert_eq!(dir.list_key(), "/d/");
    let file = OpenDALHandle::new(be.operator().clone(), "/f/", false);
    assert_eq!(file.removal(), Removal::Single("/f".to_string()));
}

#[test]
fn remote_store_refuses_random_access() {
    let be = OpenDALBackend::new(remote_config(None, None)).unwrap();
    let inner: DataInner<u8, u8, u8> = be.to_inner(1, 2);
    assert!(matches!(inner.full(), Err(DataError::Unsupported)));
    assert_eq!(*inner.reader().unwrap(), 1);
    assert_eq!(*inner.writer().unwrap(), 2);
}

#[test]
fn local_walk_enters_subdirectories_only_when_recursive() {
    let mut flat = LocalWalk::new("/r".to_string(), false);
    assert_eq!(flat.next_dir(), Some("/r".to_string()));
    flat.found("/r/sub".to_string(), true);
    flat.found("/r/f".to_string(), false);
    assert_eq!(flat.next_dir(), None);
    let mut deep = LocalWalk::new("/r".to_string(), true);
    assert_eq!(deep.next_dir(), Some("/r".to_string()));
    deep.found("/r/a".to_string(), true);
    deep.found("/r/f".to_string(), false);
    deep.found("/r/b".to_string(), true);
    assert_eq!(deep.next_dir(), Some("/r/b".to_string()));
    assert_eq!(deep.next_dir(), Some("/r/a".to_string()));
    assert_eq!(deep.next_dir(), None);
}

#[test]
fn appending_to_remote_content() {
    assert_eq!(appended_content(false, Some(vec![1, 2]), &vec![3]), vec![1, 2, 3]);
    assert_eq!(appended_content(false, None, &vec![3]), vec![3]);
    assert_eq!(appended_content(true, Some(vec![1, 2]), &vec![3]), vec![3]);
}

#[test]
fn remote_backend_reports_a_failed_build() {
    let err = opendal::Error::new(opendal::ErrorKind::ConfigInvalid, "bad endpoint");
    match OpenDALBackend::from_built(Err(err), remote_config(None, None), 4) {
        Err(DataError::Remote(e)) => assert_eq!(e.kind(), opendal::ErrorKind::ConfigInvalid),
        Err(_) => panic!("wrong error"),
        Ok(_) => panic!("a failed build must not open"),
    }
}
