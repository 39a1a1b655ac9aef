use lib::filesystem::file_util::{reverse_path, split_file_path};

#[test]
fn test_split_util() {
    assert_eq!(split_file_path("/"), None);
    assert_eq!(split_file_path("/dev/"), Some(("/", "dev")));
    assert_eq!(split_file_path("/dev/proc/"), Some(("/dev", "proc")));
    assert_eq!(split_file_path("/a.txt"), Some(("/", "a.txt")));
}

#[test]
fn test_reverse_str() {
    let src = "/";
    let mut buf = [0u8; 100];
    reverse_path(src, "/", &mut buf);
    let dest = core::str::from_utf8(&mut buf).unwrap();
    assert_eq!(dest.len(), 100);
    assert_eq!(buf[0], b'/');
    assert!(buf[1..].iter().all(|b| *b == 0));
}

#[test]
fn split_rejects_relative_paths() {
    assert_eq!(split_file_path(""), None);
    assert_eq!(split_file_path("dev/proc"), None);
}

#[test]
fn split_keeps_nested_parent() {
    assert_eq!(split_file_path("/usr/local/bin"), Some(("/usr/local", "bin")));
}

#[test]
fn reverse_three_names() {
    let mut buf = [0u8; 10];
    reverse_path("/a/b/c", "/", &mut buf);
    assert_eq!(&buf[..6], b"/c/b/a");
    assert!(buf[6..].iter().all(|b| *b == 0));
}

#[test]
fn reverse_keeps_trailing_separator() {
    let mut buf = [0u8; 11];
    reverse_path("/usr/local/", "/", &mut buf);
    assert_eq!(&buf, b"/local/usr/");
}

#[test]
fn reverse_trims_white_space() {
    let mut buf = [b'#'; 8];
    reverse_path("  /x/yz \n", "/", &mut buf);
    assert_eq!(&buf[..5], b"/yz/x");
    assert_eq!(&buf[5..], b"###");
}

#[test]
fn reverse_without_leading_separator() {
    let mut buf = [0u8; 5];
    reverse_path("ab/cd", "/", &mut buf);
    assert_eq!(&buf, b"cd/ab");
}

#[test]
fn reverse_trims_unicode_white_space() {
    let mut buf = [0u8; 16];
    reverse_path("\u{3000}/a/bc\u{00a0}\u{2009}", "/", &mut buf);
    assert_eq!(&buf[..5], b"/bc/a");
    assert!(buf[5..].iter().all(|b| *b == 0));
}

#[test]
fn reverse_keeps_non_ascii_names() {
    let src = "/é/ü";
    let mut buf = [0u8; 6];
    reverse_path(src, "/", &mut buf);
    assert_eq!(&buf, "/ü/é".as_bytes());
}

#[test]
fn reversing_twice_gives_the_path_back() {
    for src in ["/usr/local/bin", "/a/bc/def/", "x/y", "/", "name"] {
        let mut once = vec![0u8; src.len()];
        reverse_path(src, "/", &mut once);
        let mid = String::from_utf8(once.clone()).unwrap();
        let mut twice = vec![0u8; src.len()];
        reverse_path(&mid, "/", &mut twice);
        assert_eq!(twice, src.as_bytes().to_vec());
    }
}
