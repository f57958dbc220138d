use equirect::path::{extension, file_name, file_stem, parent, pieces_of, same_path, Platform};
use std::path::Path;

fn text(v: Option<Vec<char>>) -> Option<String> {
    v.map(|c| c.into_iter().collect())
}

const SAMPLES: [&str; 38] = [
    "", ".", "..", "/", "//", "///", "a", "a/", "a//", "/a", "/a/", "//a", "a/b", "a//b", "a/./b",
    "a/../b", "./a", "./", "./.", "../a", "/..", "/.", "a/.", "a/..", "a/b/.", "/a/b/c.mp4",
    "/a/b.c/d", ".hidden", "a/.hidden.mp4", "x.tar.gz", "x.", "/x/.", "name with space.mkv", "..mp4",
    "a/b//", "C:\\a", "\\\\a\\b", "./../x",
];

#[test]
fn parents_on_unix_are_those_of_the_standard_library() {
    for s in SAMPLES {
        let want = Path::new(s).parent().map(|p| p.to_str().unwrap().to_string());
        assert_eq!(parent(Platform::Unix, s), want, "parent of {s:?}");
        assert_eq!(parent(Platform::MacOs, s), want, "parent of {s:?}");
    }
}

#[test]
fn names_on_unix_are_those_of_the_standard_library() {
    for s in SAMPLES {
        let p = Path::new(s);
        let name = p.file_name().map(|x| x.to_str().unwrap().to_string());
        let stem = p.file_stem().map(|x| x.to_str().unwrap().to_string());
        let ext = p.extension().map(|x| x.to_str().unwrap().to_string());
        assert_eq!(text(file_name(Platform::Unix, s)), name, "name of {s:?}");
        assert_eq!(text(file_stem(Platform::Unix, s)), stem, "stem of {s:?}");
        assert_eq!(text(extension(Platform::Unix, s)), ext, "extension of {s:?}");
    }
}

#[test]
fn equality_on_unix_is_that_of_the_standard_library() {
    for a in SAMPLES {
        for b in SAMPLES {
            let want = Path::new(a) == Path::new(b);
            assert_eq!(same_path(Platform::Unix, a, b), want, "{a:?} and {b:?}");
        }
    }
}

#[test]
fn parents_on_windows() {
    let up = |s: &str| parent(Platform::Windows, s);
    assert_eq!(up("C:\\Videos\\a.mp4"), Some("C:\\Videos".to_string()));
    assert_eq!(up("C:\\Videos"), Some("C:\\".to_string()));
    assert_eq!(up("C:\\"), None);
    assert_eq!(up("C:"), None);
    assert_eq!(up("C:a"), Some("C:".to_string()));
    assert_eq!(up("C:/Videos/b/"), Some("C:/Videos".to_string()));
    assert_eq!(up("\\\\server\\share\\a"), Some("\\\\server\\share\\".to_string()));
    assert_eq!(up("\\\\server\\share\\"), None);
    assert_eq!(up("\\\\server\\share"), None);
    assert_eq!(up("\\\\?\\C:\\a\\b"), Some("\\\\?\\C:\\a".to_string()));
    assert_eq!(up("\\\\?\\UNC\\server\\share\\a"), Some("\\\\?\\UNC\\server\\share\\".to_string()));
    assert_eq!(up("\\\\.\\COM1"), None);
    assert_eq!(up("\\a"), Some("\\".to_string()));
    assert_eq!(up("a\\b/c"), Some("a\\b".to_string()));
    assert_eq!(up(".\\a"), Some(".".to_string()));
    assert_eq!(up("."), Some("".to_string()));
    assert_eq!(up(""), None);
}

#[test]
fn equality_on_windows() {
    let same = |a: &str, b: &str| same_path(Platform::Windows, a, b);
    assert!(same("C:\\a\\b", "c:/a//b/"));
    assert!(same("C:\\a\\.\\b", "C:\\a\\b"));
    assert!(!same("C:\\a", "C:\\A"));
    assert!(!same("C:\\a", "C:a"));
    assert!(same("\\\\server\\share", "\\\\server\\share\\"));
    assert!(!same("\\\\?\\C:\\a", "C:\\a"));
    assert!(same("\\\\?\\C:\\a", "\\\\?\\c:\\a"));
    assert!(!same("\\\\?\\C:\\a\\.", "\\\\?\\C:\\a"));
    assert!(same("//server/share/x", "\\\\server\\share\\x"));
}

#[test]
fn pieces_leave_out_what_says_nothing() {
    let pieces = |p: Platform, s: &str| -> Vec<String> {
        pieces_of(p, s).into_iter().map(|c| c.into_iter().collect()).collect()
    };
    assert_eq!(pieces(Platform::Unix, "/a//b/./c/"), vec!["a", "b", "c"]);
    assert_eq!(pieces(Platform::Windows, "C:\\a/b\\..\\c"), vec!["a", "b", "..", "c"]);
    assert_eq!(pieces(Platform::Unix, "./x"), vec!["x"]);
    assert_eq!(pieces(Platform::Unix, "/").len(), 0);
}

#[test]
fn names_on_windows() {
    assert_eq!(text(file_stem(Platform::Windows, "C:\\v\\clip.one.mp4")), Some("clip.one".to_string()));
    assert_eq!(text(extension(Platform::Windows, "C:\\v/clip.MP4")), Some("MP4".to_string()));
    assert_eq!(text(file_name(Platform::Windows, "C:\\")), None);
    assert_eq!(text(file_name(Platform::Windows, "a\\..")), None);
}

#[test]
fn parents_drop_the_last_piece() {
    for s in SAMPLES {
        let pieces = pieces_of(Platform::Unix, s);
        if let Some(up) = parent(Platform::Unix, s) {
            assert!(up.len() < s.len());
            assert!(s.starts_with(&up));
            if !pieces.is_empty() {
                assert_eq!(pieces_of(Platform::Unix, &up), pieces[..pieces.len() - 1].to_vec());
            }
        }
    }
}
