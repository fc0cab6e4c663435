use fdsearch::config::ColorTable;
use fdsearch::config::Config;
use fdsearch::config::Paint;
use fdsearch::dir_entry::DirEntry;
use fdsearch::dir_entry::EntryMetadata;
use fdsearch::dir_entry::FileKind;
use fdsearch::error_codes::ExitCode;
use fdsearch::filetypes::FileType;
use fdsearch::filter::SizeFilter;
use fdsearch::filter::TimeFilter;
use fdsearch::filter::time::Timestamp;

fn plain_config() -> Config {
    Config {
        case_sensitive: false,
        search_full_path: false,
        ignore_hidden: true,
        read_fdignore: true,
        follow_links: false,
        strip_cwd_prefix: false,
        hyperlink: false,
        format: None,
        path_separator: None,
        actual_path_separator: b"/".to_vec(),
        ls_colors: None,
        null_separator: false,
        host: Vec::new(),
        cwd: None,
    }
}

fn meta(kind: FileKind) -> EntryMetadata {
    EntryMetadata { kind, size: 10, modified_secs: 1000, modified_nanos: 0 }
}

#[test]
fn metadata_cache_fills_once() {
    let mut e = DirEntry::borken_symlink(b"/tmp/link".to_vec());
    assert!(e.metedata().is_none());
    e.fill_metedata(Some(meta(FileKind::Symlink)));
    let first = e.metedata();
    let second = e.metedata();
    assert!(matches!(first, Some(m) if matches!(m.kind, FileKind::Symlink)));
    assert!(matches!(second, Some(m) if matches!(m.kind, FileKind::Symlink)));
    // a later fill with a different outcome never replaces the cache
    e.fill_metedata(Some(meta(FileKind::File)));
    assert!(matches!(e.metedata(), Some(m) if matches!(m.kind, FileKind::Symlink)));
    e.fill_metedata(None);
    assert!(matches!(e.metedata(), Some(m) if matches!(m.kind, FileKind::Symlink)));
}

#[test]
fn failed_stat_is_cached_as_none() {
    let mut e = DirEntry::borken_symlink(b"/tmp/link".to_vec());
    e.fill_metedata(None);
    assert!(e.metedata().is_none());
    e.fill_metedata(Some(meta(FileKind::File)));
    assert!(e.metedata().is_none());
    assert!(e.metedata_filled());
}

#[test]
fn file_type_of_broken_symlink_comes_from_metadata() {
    let mut e = DirEntry::borken_symlink(b"/tmp/link".to_vec());
    assert!(e.file_type().is_none());
    e.fill_metedata(Some(meta(FileKind::Symlink)));
    assert!(matches!(e.file_type(), Some(FileKind::Symlink)));
}

#[test]
fn style_cache_fills_once() {
    let mut e = DirEntry::normol(b"x".to_vec(), Some(FileKind::File), 1);
    assert!(e.style().is_none());
    e.fill_style(Some(Paint { prefix: b"<".to_vec(), suffix: b">".to_vec() }));
    assert_eq!(e.style().unwrap().prefix, b"<".to_vec());
    e.fill_style(None);
    assert_eq!(e.style().unwrap().suffix, b">".to_vec());
}

#[test]
fn stripped_path_honours_config() {
    let e = DirEntry::normol(b"./a/b".to_vec(), Some(FileKind::File), 2);
    let mut c = plain_config();
    assert_eq!(e.stripped_path(&c), b"./a/b".to_vec());
    c.strip_cwd_prefix = true;
    assert_eq!(e.stripped_path(&c), b"a/b".to_vec());
    assert_eq!(e.path(), &b"./a/b".to_vec());
    assert_eq!(e.depth(), Some(2));
}

#[test]
fn should_ignore_by_kind_and_probes() {
    let ft = FileType::default();
    let file = DirEntry::normol(b"f".to_vec(), Some(FileKind::File), 0);
    // every flag off: a plain file is ignored
    assert!(ft.should_ignore(&file, false, false));
    let keep_files = FileType { files: true, ..FileType::default() };
    assert!(!keep_files.should_ignore(&file, false, false));
    let exec_only = FileType { files: true, executables_only: true, ..FileType::default() };
    assert!(exec_only.should_ignore(&file, false, false));
    assert!(!exec_only.should_ignore(&file, true, false));
    let empty_only = FileType { files: true, empty_only: true, ..FileType::default() };
    assert!(empty_only.should_ignore(&file, false, false));
    assert!(!empty_only.should_ignore(&file, false, true));
    let unknown = DirEntry::normol(b"u".to_vec(), Some(FileKind::Other), 0);
    assert!(keep_files.should_ignore(&unknown, true, true));
    let untyped = DirEntry::normol(b"n".to_vec(), None, 0);
    assert!(keep_files.should_ignore(&untyped, true, true));
}

#[test]
fn exit_codes() {
    assert_eq!(ExitCode::Success.as_i32(), 0);
    assert_eq!(ExitCode::HasResult(true).as_i32(), 0);
    assert_eq!(ExitCode::HasResult(false).as_i32(), 1);
    assert_eq!(ExitCode::GeneralError.as_i32(), 1);
    assert_eq!(ExitCode::KilledBySigint.as_i32(), 130);
    assert!(!ExitCode::Success.is_error());
    assert!(ExitCode::KilledBySigint.is_error());
    let all_good = vec![ExitCode::Success, ExitCode::HasResult(true)];
    assert_eq!(ExitCode::merge_exitcodes(&all_good), ExitCode::Success);
    let one_bad = vec![ExitCode::Success, ExitCode::HasResult(false)];
    assert_eq!(ExitCode::merge_exitcodes(&one_bad), ExitCode::GeneralError);
    assert_eq!(ExitCode::merge_exitcodes(&Vec::new()), ExitCode::Success);
}

#[test]
fn size_filter_parsing() {
    assert_eq!(SizeFilter::from_string(&b"10k".to_vec()).unwrap(), SizeFilter::Equals(10000));
    assert_eq!(SizeFilter::from_string(&b"+10k".to_vec()).unwrap(), SizeFilter::Min(10000));
    assert_eq!(
        SizeFilter::from_string(&b"-2Mi".to_vec()).unwrap(),
        SizeFilter::MAX(2 * 1024 * 1024)
    );
    assert_eq!(SizeFilter::from_string(&b"500b".to_vec()).unwrap(), SizeFilter::Equals(500));
    assert_eq!(SizeFilter::from_string(&b"10KiB".to_vec()).unwrap(), SizeFilter::Equals(10240));
    assert_eq!(SizeFilter::from_string(&b"1gb".to_vec()).unwrap(), SizeFilter::Equals(1000000000));
    assert_eq!(
        SizeFilter::from_string(&b"3t".to_vec()).unwrap(),
        SizeFilter::Equals(3 * 1000 * 1000 * 1000 * 1000)
    );
    assert!(SizeFilter::from_string(&b"abc".to_vec()).is_err());
    assert!(SizeFilter::from_string(&b"10".to_vec()).is_err());
    assert!(SizeFilter::from_string(&b"k10".to_vec()).is_err());
    assert!(SizeFilter::from_string(&b"10kk".to_vec()).is_err());
    assert!(SizeFilter::from_string(&b"".to_vec()).is_err());
    assert!(SizeFilter::from_string(&b"+".to_vec()).is_err());
    // a quantity that cannot fit in 64 bits is refused
    assert!(SizeFilter::from_string(&b"99999999999999999999b".to_vec()).is_err());
    assert!(SizeFilter::from_string(&b"99999999999999999999999999t".to_vec()).is_err());
}

#[test]
fn size_filter_bounds() {
    assert!(SizeFilter::MAX(100).is_within(100));
    assert!(SizeFilter::MAX(100).is_within(0));
    assert!(!SizeFilter::MAX(100).is_within(101));
    assert!(SizeFilter::Min(100).is_within(100));
    assert!(!SizeFilter::Min(100).is_within(99));
    assert!(SizeFilter::Equals(7).is_within(7));
    assert!(!SizeFilter::Equals(7).is_within(8));
}

fn dur(s: &str) -> Option<(u64, u32)> {
    humantime::parse_duration(s)
        .ok()
        .map(|d| (d.as_secs(), d.subsec_nanos()))
}

#[test]
fn time_filter_duration() {
    let reference = Timestamp { secs: 1000000, nanos: 500 };
    let f = TimeFilter::before(&reference, "1h", dur("1h")).unwrap();
    assert_eq!(f, TimeFilter::Before(Timestamp { secs: 1000000 - 3600, nanos: 500 }));
    let f = TimeFilter::after(&reference, "2days", dur("2days")).unwrap();
    assert_eq!(f, TimeFilter::After(Timestamp { secs: 1000000 - 172800, nanos: 500 }));
    // subtracting below the representable range yields no filter
    let early = Timestamp { secs: i64::MIN, nanos: 0 };
    assert!(TimeFilter::before(&early, "1h", dur("1h")).is_none());
}

#[test]
fn time_filter_rfc3339_and_timestamp() {
    let reference = Timestamp { secs: 0, nanos: 0 };
    let s = "2018-10-27T10:00:00+00:00";
    let f = TimeFilter::after(&reference, s, dur(s)).unwrap();
    assert_eq!(f, TimeFilter::After(Timestamp { secs: 1540634400, nanos: 0 }));
    let f = TimeFilter::before(&reference, "@1609459200", dur("@1609459200")).unwrap();
    assert_eq!(f, TimeFilter::Before(Timestamp { secs: 1609459200, nanos: 0 }));
}

#[test]
fn time_filter_rejects_what_no_form_accepts() {
    let reference = Timestamp { secs: 0, nanos: 0 };
    for s in ["not a time", "", "@", "@12x", "@99999999999999999999", "2015-13-45"] {
        assert!(TimeFilter::before(&reference, s, dur(s)).is_none());
        assert!(TimeFilter::after(&reference, s, dur(s)).is_none());
    }
    // in-range epoch seconds parse; seconds past chrono's range do not
    assert!(TimeFilter::before(&reference, "@-1", dur("@-1")).is_some());
    let max = format!("@{}", i64::MAX);
    assert!(TimeFilter::before(&reference, &max, dur(&max)).is_none());
}

#[test]
fn time_filter_local_date_parses() {
    let reference = Timestamp { secs: 0, nanos: 0 };
    // local midnight depends on the zone; the parse must still succeed
    assert!(TimeFilter::before(&reference, "2015-05-15", dur("2015-05-15")).is_some());
    let s = "2015-05-15 12:00:00";
    assert!(TimeFilter::before(&reference, s, dur(s)).is_some());
}

#[test]
fn time_filter_applies_to() {
    let limit = Timestamp { secs: 100, nanos: 50 };
    let before = TimeFilter::Before(limit);
    let after = TimeFilter::After(limit);
    assert!(before.applies_to(&Timestamp { secs: 99, nanos: 900 }));
    assert!(before.applies_to(&Timestamp { secs: 100, nanos: 49 }));
    assert!(!before.applies_to(&Timestamp { secs: 100, nanos: 50 }));
    assert!(!before.applies_to(&Timestamp { secs: 101, nanos: 0 }));
    assert!(after.applies_to(&Timestamp { secs: 100, nanos: 51 }));
    assert!(!after.applies_to(&Timestamp { secs: 100, nanos: 50 }));
    assert!(!after.applies_to(&Timestamp { secs: 99, nanos: 999999999 }));
}

#[test]
fn entries_order_by_path_components() {
    let e = |p: &[u8]| DirEntry::normol(p.to_vec(), Some(FileKind::File), 0);
    // componentwise: `a` comes before `a/b`, and `a/b` before `a.b`
    assert!(e(b"a") < e(b"a/b"));
    assert!(e(b"a/b") < e(b"a.b"));
    assert!(e(b"/a") < e(b"a"));
    assert!(e(b"a/b") == e(b"a//b"));
    assert!(e(b"a/") == e(b"a"));
    assert!(e(b"b") > e(b"a/z"));
    // type and metadata play no part
    let mut dir = DirEntry::normol(b"same".to_vec(), Some(FileKind::Directory), 3);
    dir.fill_metedata(None);
    assert!(dir == e(b"same"));
    let mut sorted = vec![e(b"b"), e(b"a/c"), e(b"a")];
    sorted.sort_by(|x, y| x.cmp_by_path(y));
    let paths: Vec<&Vec<u8>> = sorted.iter().map(|x| x.path()).collect();
    assert_eq!(paths, vec![&b"a".to_vec(), &b"a/c".to_vec(), &b"b".to_vec()]);
}

#[test]
fn config_and_colortable_build() {
    let c = Config {
        ls_colors: Some(ColorTable { directory: None }),
        ..plain_config()
    };
    assert!(c.ls_colors.is_some());
}
