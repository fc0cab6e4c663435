use fdsearch::fmt::FormatTemplate;
use fdsearch::filesystem::absolute_path;
use fdsearch::filesystem::is_existing_directory;
use fdsearch::filesystem::path_absolute_form;
use fdsearch::filesystem::strip_current_dir;
use fdsearch::output::replace_path_separator;
use fdsearch::paths::basename;
use fdsearch::paths::dirname;
use fdsearch::paths::remove_extension;

#[test]
fn basename_cases() {
    assert_eq!(basename(&b"/tmp/notes.txt".to_vec()), b"notes.txt".to_vec());
    assert_eq!(basename(&b"notes.txt".to_vec()), b"notes.txt".to_vec());
    assert_eq!(basename(&b"/".to_vec()), b"/".to_vec());
    assert_eq!(basename(&b"a/b/".to_vec()), b"b".to_vec());
    assert_eq!(basename(&b"a/..".to_vec()), b"a/..".to_vec());
    assert_eq!(basename(&b"".to_vec()), b"".to_vec());
}

#[test]
fn dirname_cases() {
    assert_eq!(dirname(&b"/tmp/notes.txt".to_vec()), b"/tmp".to_vec());
    assert_eq!(dirname(&b"notes.txt".to_vec()), b".".to_vec());
    assert_eq!(dirname(&b"/".to_vec()), b"/".to_vec());
    assert_eq!(dirname(&b"/foo".to_vec()), b"/".to_vec());
    assert_eq!(dirname(&b"a/b/c".to_vec()), b"a/b".to_vec());
    assert_eq!(dirname(&b"./foo".to_vec()), b".".to_vec());
    assert_eq!(dirname(&b"a//b".to_vec()), b"a".to_vec());
}

#[test]
fn remove_extension_cases() {
    assert_eq!(remove_extension(&b"/tmp/notes.txt".to_vec()), b"/tmp/notes".to_vec());
    assert_eq!(remove_extension(&b"notes.txt".to_vec()), b"notes".to_vec());
    assert_eq!(remove_extension(&b"noext".to_vec()), b"noext".to_vec());
    assert_eq!(remove_extension(&b".hidden".to_vec()), b".hidden".to_vec());
    assert_eq!(remove_extension(&b"a/b.c.d".to_vec()), b"a/b.c".to_vec());
    assert_eq!(remove_extension(&b"/".to_vec()), b"/".to_vec());
}

#[test]
fn strip_current_dir_cases() {
    assert_eq!(strip_current_dir(&b"./foo".to_vec()), b"foo".to_vec());
    assert_eq!(strip_current_dir(&b"foo".to_vec()), b"foo".to_vec());
    assert_eq!(strip_current_dir(&b".".to_vec()), b"".to_vec());
    assert_eq!(strip_current_dir(&b".foo".to_vec()), b".foo".to_vec());
    assert_eq!(strip_current_dir(&b"/a".to_vec()), b"/a".to_vec());
}

#[test]
fn absolute_path_cases() {
    assert_eq!(absolute_path(&b"x/y".to_vec(), &b"/home".to_vec()), b"/home/x/y".to_vec());
    assert_eq!(absolute_path(&b"./x".to_vec(), &b"/home".to_vec()), b"/home/x".to_vec());
    assert_eq!(absolute_path(&b"/abs".to_vec(), &b"/home".to_vec()), b"/abs".to_vec());
    assert_eq!(path_absolute_form(&b"x".to_vec(), &b"/h/".to_vec()), b"/h/x".to_vec());
}

#[test]
fn existing_directory_combination() {
    assert!(is_existing_directory(true, true, false));
    assert!(is_existing_directory(true, false, true));
    assert!(!is_existing_directory(true, false, false));
    assert!(!is_existing_directory(false, true, true));
}

#[test]
fn separator_replacement_on_root() {
    let sep = b"#".to_vec();
    assert_eq!(FormatTemplate::replace_separator(&b"/".to_vec(), Some(&sep)), b"#".to_vec());
}

#[test]
fn separator_replacement_native_is_identity_on_clean_paths() {
    let slash = b"/".to_vec();
    assert_eq!(
        FormatTemplate::replace_separator(&b"a/b/c".to_vec(), Some(&slash)),
        b"a/b/c".to_vec()
    );
    assert_eq!(
        FormatTemplate::replace_separator(&b"/a/b".to_vec(), Some(&slash)),
        b"/a/b".to_vec()
    );
    // a path with doubled separators collapses once and then stays stable
    let once = FormatTemplate::replace_separator(&b"a//b/".to_vec(), Some(&slash));
    assert_eq!(once, b"a/b".to_vec());
    let twice = FormatTemplate::replace_separator(&once, Some(&slash));
    assert_eq!(twice, once);
}

#[test]
fn separator_replacement_components() {
    let sep = b"=>".to_vec();
    assert_eq!(
        FormatTemplate::replace_separator(&b"/tmp/x".to_vec(), Some(&sep)),
        b"=>tmp=>x".to_vec()
    );
    assert_eq!(FormatTemplate::replace_separator(&b"a/b".to_vec(), None), b"a/b".to_vec());
    assert_eq!(
        FormatTemplate::replace_separator(&b"./x".to_vec(), Some(&sep)),
        b".=>x".to_vec()
    );
}

#[test]
fn flat_separator_replacement() {
    assert_eq!(replace_path_separator(&b"a/b/c".to_vec(), &b"##".to_vec()), b"a##b##c".to_vec());
    assert_eq!(replace_path_separator(&b"abc".to_vec(), &b"#".to_vec()), b"abc".to_vec());
    assert_eq!(replace_path_separator(&b"//".to_vec(), &b"!".to_vec()), b"!!".to_vec());
}
