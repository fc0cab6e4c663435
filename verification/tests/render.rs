use fdsearch::config::ColorTable;
use fdsearch::config::Config;
use fdsearch::config::Paint;
use fdsearch::dir_entry::DirEntry;
use fdsearch::dir_entry::FileKind;
use fdsearch::fmt::FormatTemplate;
use fdsearch::hyperlink::encode;
use fdsearch::hyperlink::PathUrl;
use fdsearch::output::print_entry;

fn base_config() -> Config {
    Config {
        case_sensitive: false,
        search_full_path: false,
        ignore_hidden: true,
        read_fdignore: true,
        follow_links: false,
        strip_cwd_prefix: false,
        hyperlink: false,
        format: None,
        path_separator: None,
        actual_path_separator: b"/".to_vec(),
        ls_colors: None,
        null_separator: false,
        host: Vec::new(),
        cwd: None,
    }
}

#[test]
fn plain_record_ends_with_newline() {
    let e = DirEntry::normol(b"a/b.txt".to_vec(), Some(FileKind::File), 1);
    let c = base_config();
    assert_eq!(print_entry(&e, &c), b"a/b.txt\n".to_vec());
}

#[test]
fn null_terminator() {
    let e = DirEntry::normol(b"a".to_vec(), Some(FileKind::File), 1);
    let c = Config { null_separator: true, ..base_config() };
    assert_eq!(print_entry(&e, &c), b"a\0".to_vec());
}

#[test]
fn directories_get_a_trailing_separator() {
    let e = DirEntry::normol(b"a/dir".to_vec(), Some(FileKind::Directory), 1);
    let c = base_config();
    assert_eq!(print_entry(&e, &c), b"a/dir/\n".to_vec());
}

#[test]
fn plain_record_with_separator_replacement() {
    let e = DirEntry::normol(b"a/b/c".to_vec(), Some(FileKind::File), 1);
    let c = Config { path_separator: Some(b"\\".to_vec()), ..base_config() };
    assert_eq!(print_entry(&e, &c), b"a\\b\\c\n".to_vec());
}

#[test]
fn format_record() {
    let e = DirEntry::normol(b"/tmp/notes.txt".to_vec(), Some(FileKind::File), 1);
    let c = Config {
        format: Some(FormatTemplate::parse(&b"{/.}.bak".to_vec())),
        ..base_config()
    };
    assert_eq!(print_entry(&e, &c), b"notes.bak\n".to_vec());
}

#[test]
fn colorized_prefix_covers_dirname_and_separators() {
    let mut e = DirEntry::normol(b"a/b/c.txt".to_vec(), Some(FileKind::File), 1);
    e.fill_style(Some(Paint { prefix: b"<F>".to_vec(), suffix: b"</F>".to_vec() }));
    let c = Config {
        ls_colors: Some(ColorTable {
            directory: Some(Paint { prefix: b"<D>".to_vec(), suffix: b"</D>".to_vec() }),
        }),
        ..base_config()
    };
    // the directory prefix is `a/b/`: the parent and the one separator after it
    assert_eq!(print_entry(&e, &c), b"<D>a/b/</D><F>c.txt</F>\n".to_vec());
}

#[test]
fn colorized_without_parent_has_no_prefix_span() {
    let mut e = DirEntry::normol(b"c.txt".to_vec(), Some(FileKind::File), 1);
    e.fill_style(Some(Paint { prefix: b"<F>".to_vec(), suffix: b"</F>".to_vec() }));
    let c = Config {
        ls_colors: Some(ColorTable {
            directory: Some(Paint { prefix: b"<D>".to_vec(), suffix: b"</D>".to_vec() }),
        }),
        ..base_config()
    };
    assert_eq!(print_entry(&e, &c), b"<F>c.txt</F>\n".to_vec());
}

#[test]
fn colorized_directory_gets_styled_trailing_separator() {
    let mut e = DirEntry::normol(b"a/d".to_vec(), Some(FileKind::Directory), 1);
    e.fill_style(Some(Paint { prefix: b"<F>".to_vec(), suffix: b"</F>".to_vec() }));
    let c = Config {
        ls_colors: Some(ColorTable {
            directory: Some(Paint { prefix: b"<D>".to_vec(), suffix: b"</D>".to_vec() }),
        }),
        ..base_config()
    };
    assert_eq!(print_entry(&e, &c), b"<D>a/</D><F>d</F><D>/</D>\n".to_vec());
}

#[test]
fn hyperlink_wraps_record() {
    let e = DirEntry::normol(b"x y".to_vec(), Some(FileKind::File), 1);
    let c = Config {
        hyperlink: true,
        host: b"myhost".to_vec(),
        cwd: Some(b"/tmp".to_vec()),
        ..base_config()
    };
    let mut expected = Vec::new();
    expected.extend_from_slice(b"\x1B]8;;file://myhost/tmp/x%20y\x1B\\");
    expected.extend_from_slice(b"x y");
    expected.extend_from_slice(b"\x1B]8;;\x1B\\");
    expected.extend_from_slice(b"\n");
    assert_eq!(print_entry(&e, &c), expected);
}

#[test]
fn hyperlink_skipped_without_cwd_for_relative_path() {
    let e = DirEntry::normol(b"rel".to_vec(), Some(FileKind::File), 1);
    let c = Config { hyperlink: true, host: b"h".to_vec(), cwd: None, ..base_config() };
    assert_eq!(print_entry(&e, &c), b"rel\n".to_vec());
}

#[test]
fn url_building() {
    let u = PathUrl::new(&b"/tmp/a b".to_vec(), None).unwrap();
    assert_eq!(u.url_bytes(&b"host".to_vec()), b"file://host/tmp/a%20b".to_vec());
    assert!(PathUrl::new(&b"rel".to_vec(), None).is_none());
    let u = PathUrl::new(&b"rel".to_vec(), Some(&b"/home".to_vec())).unwrap();
    assert_eq!(u.url_bytes(&b"".to_vec()), b"file:///home/rel".to_vec());
}

#[test]
fn percent_encoding_of_every_byte() {
    for b in 0u8..=255 {
        let mut out = Vec::new();
        encode(&mut out, b);
        let unreserved = b.is_ascii_alphanumeric()
            || b == b'/'
            || b == b':'
            || b == b'-'
            || b == b'.'
            || b == b'_'
            || b == b'~';
        if unreserved {
            assert_eq!(out, vec![b]);
        } else {
            assert_eq!(out.len(), 3);
            assert_eq!(out[0], b'%');
            let hex = format!("{b:02X}");
            assert_eq!(&out[1..], hex.as_bytes());
        }
    }
}
