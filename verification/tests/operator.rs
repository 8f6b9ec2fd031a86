use datavfs::config::{DataMode, LocalConfig};
use datavfs::meta::{ExtMetadata, Metadata, Timestamp};
use datavfs::operator::{
    DataError, DataFile, DataInner, DataOperator, EnsureAction, EnsureEvent, EnsureStep, FileAction,
};

type Inner = DataInner<u8, u16, u32>;
type Op = DataOperator<u8, u16, u32>;

fn local_mode() -> DataMode {
    DataMode::Local(LocalConfig { path: "/srv".to_string() })
}

fn meta(path: &str, size: u64) -> Metadata {
    Metadata::new(path.to_string(), false, Some(Timestamp { secs: 10, nanos: 5 }), None, None, size)
}

#[test]
fn capabilities_gate_requests() {
    let inner: Inner = DataInner { id: 1, info: local_mode(), reader: Some(1), writer: None, full: None };
    assert_eq!(*inner.reader().unwrap(), 1);
    assert!(matches!(inner.writer(), Err(DataError::Unsupported)));
    assert!(matches!(inner.full(), Err(DataError::Unsupported)));
    let none: Inner = DataInner { id: 1, info: local_mode(), reader: None, writer: Some(2), full: Some(3) };
    assert!(matches!(none.reader(), Err(DataError::Unsupported)));
    assert_eq!(*none.writer().unwrap(), 2);
    assert_eq!(*none.full().unwrap(), 3);
}

#[test]
fn info_reports_capabilities() {
    let op: Op = DataOperator::from_inner(DataInner { id: 42, info: local_mode(), reader: Some(1), writer: Some(2), full: None });
    let info = op.info();
    assert_eq!(info.id, 42);
    assert_eq!(info.mode, local_mode());
    assert!(info.can_read && info.can_append && !info.can_full);
    assert_eq!(op.id(), 42);
}

#[test]
fn get_existing_needs_a_hit() {
    let op: Op = DataOperator::from_inner(DataInner { id: 3, info: local_mode(), reader: Some(1), writer: None, full: None });
    let f = op.get_existing(Some(meta("/a.txt", 4))).unwrap();
    assert_eq!(f.path(), "/a.txt");
    assert_eq!(f.name(), "a.txt");
    assert_eq!(f.metadata(), meta("/a.txt", 4));
    assert!(matches!(op.get_existing(None), Err(DataError::NotFound)));
}

#[test]
fn files_are_equal_by_store_and_metadata() {
    let a: Op = DataOperator::from_inner(DataInner { id: 3, info: local_mode(), reader: Some(1), writer: None, full: None });
    let b: Op = DataOperator::from_inner(DataInner { id: 4, info: local_mode(), reader: Some(1), writer: None, full: None });
    let fa = a.get_existing(Some(meta("/x", 1))).unwrap();
    assert!(fa == a.get_existing(Some(meta("/x", 1))).unwrap());
    assert!(fa != b.get_existing(Some(meta("/x", 1))).unwrap());
    assert!(fa != a.get_existing(Some(meta("/x", 2))).unwrap());
    assert!(fa == fa.clone());
}

fn run(op: &Op, answers: Vec<EnsureEvent>) -> (Vec<&'static str>, Option<FileAction<u8, u16, u32>>, bool) {
    let (mut step, mut action) = op.ensure_file_start();
    let mut trace = Vec::new();
    let mut answers = answers.into_iter();
    loop {
        match action {
            EnsureAction::Stat => trace.push("stat"),
            EnsureAction::SetLength(n) => {
                assert_eq!(n, 0);
                trace.push("set_length")
            }
            EnsureAction::Done(f) => return (trace, Some(f), false),
            EnsureAction::Fail(e) => {
                assert!(matches!(e, DataError::NotFound));
                return (trace, None, true);
            }
        }
        let event = answers.next().unwrap();
        let next = op.ensure_file_step(step, event);
        step = next.0;
        action = next.1;
    }
}

#[test]
fn ensure_file_creates_missing_file() {
    let op: Op = DataOperator::from_inner(DataInner { id: 9, info: local_mode(), reader: Some(1), writer: Some(2), full: None });
    let (trace, result, failed) = run(&op, vec![EnsureEvent::Stat(None), EnsureEvent::LengthSet, EnsureEvent::Stat(Some(meta("/n", 0)))]);
    assert_eq!(trace, vec!["stat", "set_length", "stat"]);
    assert!(!failed);
    match result.unwrap() {
        FileAction::Created(f) => assert_eq!(f.metadata(), meta("/n", 0)),
        FileAction::Found(_) => panic!("expected Created"),
    }
}

#[test]
fn ensure_file_finds_present_file() {
    let op: Op = DataOperator::from_inner(DataInner { id: 9, info: local_mode(), reader: Some(1), writer: Some(2), full: None });
    let (trace, result, _) = run(&op, vec![EnsureEvent::Stat(Some(meta("/p", 1))), EnsureEvent::Stat(Some(meta("/p", 2)))]);
    assert_eq!(trace, vec!["stat", "stat"]);
    let action = result.unwrap();
    assert!(matches!(action, FileAction::Found(_)));
    assert_eq!(action.as_file().metadata(), meta("/p", 2));
    assert_eq!(action.into_file().metadata().size(), 2);
}

#[test]
fn ensure_file_fails_when_file_vanishes() {
    let op: Op = DataOperator::from_inner(DataInner { id: 9, info: local_mode(), reader: Some(1), writer: Some(2), full: None });
    let (trace, result, failed) = run(&op, vec![EnsureEvent::Stat(None), EnsureEvent::LengthSet, EnsureEvent::Stat(None)]);
    assert_eq!(trace, vec!["stat", "set_length", "stat"]);
    assert!(result.is_none() && failed);
    assert_eq!(EnsureStep::Finished, op.ensure_file_step(EnsureStep::AwaitFinalStat { created: false }, EnsureEvent::Stat(None)).0);
}

#[test]
fn metadata_accessors() {
    let m = Metadata::new("/d/e".to_string(), true, None, Some(Timestamp { secs: 1, nanos: 0 }), None, 0);
    assert!(m.is_dir() && !m.is_file());
    assert_eq!(m.name(), "e");
    assert_eq!(m.path(), "/d/e");
    assert_eq!(m.mtime(), None);
    assert_eq!(m.atime(), Some(Timestamp { secs: 1, nanos: 0 }));
    assert_eq!(m.ctime(), None);
    assert_eq!(m.size(), 0);
    let f = DataFile::new(m.clone(), std::sync::Arc::new(DataInner::<u8, u8, u8> { id: 1, info: local_mode(), reader: None, writer: None, full: None }));
    assert_eq!(f.name(), "e");
}

#[test]
fn unix_permissions() {
    let mut m = ExtMetadata::default();
    m.path = "/x/y".to_string();
    assert_eq!(m.unix_perms(), 0o100444);
    let m = m.can_write(true);
    assert_eq!(m.unix_perms(), 0o100666);
    let mut d = ExtMetadata::default();
    d.is_dir = true;
    assert_eq!(d.unix_perms(), 0o040444);
    assert_eq!(d.can_write(true).unix_perms(), 0o040666);
    assert_eq!(m.name(), "y");
}
