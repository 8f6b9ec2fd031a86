use datavfs::join_force;
use datavfs::local::LocalBackend;
use datavfs::path::{file_name_of, parent_path, relative_path};
use datavfs::remote::path_to_str;

#[test]
fn join_force_appends_relative_path() {
    assert_eq!(join_force("/data", "a/b"), "/data/a/b");
}

#[test]
fn join_force_skips_root_of_item() {
    assert_eq!(join_force("/data", "/a/b"), "/data/a/b");
    assert_eq!(join_force("/data/", "/a"), "/data/a");
}

#[test]
fn join_force_drops_empty_and_dot_pieces() {
    assert_eq!(join_force("/data", "//a/./b/"), "/data/a/b");
    assert_eq!(join_force("/data", "./a"), "/data/./a");
    assert_eq!(join_force("/data", "a/../b"), "/data/a/../b");
}

#[test]
fn join_force_on_empty_base_and_item() {
    assert_eq!(join_force("", "a/b"), "a/b");
    assert_eq!(join_force("/data", ""), "/data");
    assert_eq!(join_force("/data", "/"), "/data");
}

#[test]
fn relative_path_below_base() {
    assert_eq!(relative_path("/data", "/data/a/b"), "/a/b");
    assert_eq!(relative_path("/data", "/data"), "/");
    assert_eq!(relative_path("/data/", "/data//x/./y"), "/x/y");
}

#[test]
fn relative_path_outside_base_is_unchanged() {
    assert_eq!(relative_path("/data", "/other/a"), "/other/a");
    assert_eq!(relative_path("/data", "/database/a"), "/database/a");
}

#[test]
fn get_relative_reads_back_realpath() {
    let be = LocalBackend::with_id(7, datavfs::config::LocalConfig { path: "/srv/store".to_string() });
    let real = be.realpath("/docs/report.txt");
    assert_eq!(real, "/srv/store/docs/report.txt");
    assert_eq!(LocalBackend::get_relative("/srv/store", &real), "/docs/report.txt");
}

#[test]
fn file_names() {
    assert_eq!(file_name_of("/a/b.txt"), "b.txt");
    assert_eq!(file_name_of("/a/b/"), "b");
    assert_eq!(file_name_of("/"), "");
    assert_eq!(file_name_of("/a/.."), "");
    assert_eq!(file_name_of(""), "");
    assert_eq!(file_name_of("name"), "name");
}

#[test]
fn parents() {
    assert_eq!(parent_path("/a/b"), Some("/a".to_string()));
    assert_eq!(parent_path("/a"), Some("/".to_string()));
    assert_eq!(parent_path("a"), Some("".to_string()));
    assert_eq!(parent_path("/"), None);
    assert_eq!(parent_path(""), None);
}

#[test]
fn remote_keys_for_files_and_dirs() {
    assert_eq!(path_to_str("a/b", false), "/a/b");
    assert_eq!(path_to_str("a/b", true), "/a/b/");
    assert_eq!(path_to_str("/a/b/", false), "/a/b");
    assert_eq!(path_to_str("/a/b/", true), "/a/b/");
    assert_eq!(path_to_str("a\\b", false), "/a/b");
    assert_eq!(path_to_str("a\\", true), "/a//");
    assert_eq!(path_to_str("", true), "/");
    assert_eq!(path_to_str("/", false), "");
}

#[test]
fn remote_keys_of_dirs_are_stable() {
    let once = path_to_str("x\\y", true);
    assert_eq!(path_to_str(&once, true), once);
}

#[test]
fn relative_path_from_root_and_from_nothing() {
    assert_eq!(relative_path("/", "/a/b"), "/a/b");
    assert_eq!(relative_path("", "/x"), "/x");
    assert_eq!(relative_path("", "x/y"), "/x/y");
}

#[test]
fn join_force_stays_below_base_lexically() {
    let p = join_force("/data", "../x");
    assert_eq!(p, "/data/../x");
    assert_eq!(relative_path("/data", &p), "/../x");
    assert_eq!(join_force("/data", "."), "/data/.");
    assert_eq!(relative_path("/data", "/data/."), "/");
}

#[test]
fn forced_join_keeps_only_named_pieces_after_base() {
    assert_eq!(join_force("/srv", "/a//./b/"), "/srv/a/b");
    assert_eq!(join_force("/srv", "./a"), "/srv/./a");
    assert_eq!(relative_path("/srv", "/srv/./a"), "/a");
    assert_eq!(join_force("", "/a/b"), "a/b");
}

#[test]
fn path_seen_from_itself_is_root() {
    assert_eq!(LocalBackend::get_relative("/srv/store", "/srv/store"), "/");
    assert_eq!(relative_path("/srv/store/", "/srv/store"), "/");
}

#[test]
fn canonical_items_read_back_exactly() {
    let be = LocalBackend::with_id(9, datavfs::config::LocalConfig { path: "/srv".to_string() });
    for item in ["/", "/a", "/a/b", "/a/../b"] {
        let real = be.realpath(item);
        assert_eq!(LocalBackend::get_relative("/srv", &real), item);
    }
    let m = be.describe(&be.realpath("/x/y"), false, None, None, None, 3);
    assert_eq!(m.path, "/x/y");
}

#[test]
fn rooted_items_read_back_component_by_component() {
    let be = LocalBackend::with_id(9, datavfs::config::LocalConfig { path: "/srv".to_string() });
    assert_eq!(LocalBackend::get_relative("/srv", &be.realpath("/a//b/")), "/a/b");
}
