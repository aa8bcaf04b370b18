use del_empty_pngs::entry::{
    eq_ignore_ascii_case, extension, has_png_extension, to_ascii_lower, FileEntry, FileKind,
};

fn regular(name: &str) -> FileEntry {
    FileEntry::new(name.as_bytes().to_vec(), FileKind::Regular)
}

#[test]
fn extension_is_what_follows_the_last_dot() {
    assert_eq!(extension(b"a.png"), Some(&b"png"[..]));
    assert_eq!(extension(b"a.PNG"), Some(&b"PNG"[..]));
    assert_eq!(extension(b"archive.tar.gz"), Some(&b"gz"[..]));
    assert_eq!(extension(b"a.b.c.png"), Some(&b"png"[..]));
    assert_eq!(extension(b".hidden.png"), Some(&b"png"[..]));
    assert_eq!(extension(b"x.y"), Some(&b"y"[..]));
}

#[test]
fn extension_may_be_empty() {
    assert_eq!(extension(b"a."), Some(&b""[..]));
    assert_eq!(extension(b"a.png."), Some(&b""[..]));
    assert_eq!(extension(b"..."), Some(&b""[..]));
}

#[test]
fn names_without_extension() {
    assert_eq!(extension(b""), None);
    assert_eq!(extension(b"png"), None);
    assert_eq!(extension(b"README"), None);
    assert_eq!(extension(b".png"), None);
    assert_eq!(extension(b".gitignore"), None);
    assert_eq!(extension(b"."), None);
    assert_eq!(extension(b".."), None);
}

#[test]
fn extension_agrees_with_std_on_file_names() {
    let names = [
        "a.png", "a.PNG", "a", "", ".", "..", "...", ".a", "a.", ".a.b", "a.b.", "a..b", "..a",
        "a..", ".png", "x.tar.gz", "no dot", "trailing.dot.",
    ];
    for name in names {
        let expected = std::path::Path::new(name).extension().map(|e| e.as_encoded_bytes());
        assert_eq!(extension(name.as_bytes()), expected, "extension of {:?}", name);
    }
}

#[test]
fn lower_case_of_bytes() {
    assert_eq!(to_ascii_lower(b'A'), b'a');
    assert_eq!(to_ascii_lower(b'Z'), b'z');
    assert_eq!(to_ascii_lower(b'P'), b'p');
    assert_eq!(to_ascii_lower(b'a'), b'a');
    assert_eq!(to_ascii_lower(b'z'), b'z');
    assert_eq!(to_ascii_lower(b'@'), b'@');
    assert_eq!(to_ascii_lower(b'['), b'[');
    assert_eq!(to_ascii_lower(b'0'), b'0');
    assert_eq!(to_ascii_lower(b'.'), b'.');
    assert_eq!(to_ascii_lower(0), 0);
    assert_eq!(to_ascii_lower(0xc4), 0xc4);
    assert_eq!(to_ascii_lower(0xff), 0xff);
}

#[test]
fn lower_case_agrees_with_std_on_every_byte() {
    for b in 0..=255u8 {
        assert_eq!(to_ascii_lower(b), b.to_ascii_lowercase());
    }
}

#[test]
fn comparing_without_case() {
    assert!(eq_ignore_ascii_case(b"png", b"png"));
    assert!(eq_ignore_ascii_case(b"PNG", b"png"));
    assert!(eq_ignore_ascii_case(b"pNg", b"PnG"));
    assert!(eq_ignore_ascii_case(b"", b""));
    assert!(!eq_ignore_ascii_case(b"pn", b"png"));
    assert!(!eq_ignore_ascii_case(b"pngs", b"png"));
    assert!(!eq_ignore_ascii_case(b"jpg", b"png"));
    assert!(!eq_ignore_ascii_case(b"pnh", b"png"));
    assert!(!eq_ignore_ascii_case(b"@", b"`"));
    assert!(!eq_ignore_ascii_case(b"[", b"{"));
    assert!(!eq_ignore_ascii_case(b"0", b"P"));
}

#[test]
fn png_extension_in_any_case() {
    assert!(has_png_extension(b"a.png"));
    assert!(has_png_extension(b"a.PNG"));
    assert!(has_png_extension(b"a.Png"));
    assert!(has_png_extension(b"a.pNG"));
    assert!(has_png_extension(b"photo.final.png"));
    assert!(has_png_extension(b".hidden.png"));
    assert!(has_png_extension(b"..png"));
}

#[test]
fn names_that_are_not_png() {
    assert!(!has_png_extension(b"a.jpg"));
    assert!(!has_png_extension(b"a.png.bak"));
    assert!(!has_png_extension(b"a.apng"));
    assert!(!has_png_extension(b"a.pn"));
    assert!(!has_png_extension(b"a.pngx"));
    assert!(!has_png_extension(b"a.png "));
    assert!(!has_png_extension(b"apng"));
    assert!(!has_png_extension(b"png"));
    assert!(!has_png_extension(b".png"));
    assert!(!has_png_extension(b"a.png."));
    assert!(!has_png_extension(b""));
    assert!(!has_png_extension(b"note.txt"));
}

#[test]
fn extension_matching_is_case_insensitive() {
    assert!(regular("a.PNG").is_candidate());
    assert!(regular("a.Png").is_candidate());
    assert!(regular("a.png").is_candidate());
    assert!(!regular("a.jpg").is_candidate());
}

#[test]
fn only_regular_files_are_candidates() {
    let name = b"a.png".to_vec();
    assert!(FileEntry::new(name.clone(), FileKind::Regular).is_candidate());
    assert!(!FileEntry::new(name.clone(), FileKind::Directory).is_candidate());
    assert!(!FileEntry::new(name.clone(), FileKind::Symlink).is_candidate());
    assert!(!FileEntry::new(name, FileKind::Other).is_candidate());
}

#[test]
fn names_need_not_be_text() {
    assert!(FileEntry::new(vec![0xff, 0xfe, b'.', b'p', b'n', b'g'], FileKind::Regular).is_candidate());
    assert!(!FileEntry::new(vec![b'a', b'.', 0xff, b'n', b'g'], FileKind::Regular).is_candidate());
    assert!(!FileEntry::new(vec![b'a', b'.', b'p', b'n', 0xe7], FileKind::Regular).is_candidate());
}

#[test]
fn new_keeps_name_and_kind() {
    let entry = FileEntry::new(b"a.png".to_vec(), FileKind::Symlink);
    assert_eq!(entry.name, b"a.png".to_vec());
    assert_eq!(entry.kind, FileKind::Symlink);
}
