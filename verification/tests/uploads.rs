use gws::uploads::{examine_upload, steps_up, weigh_upload, PathPart};

fn allowed(path: &str) -> bool {
    let upload = examine_upload(path);
    assert_eq!(upload.path, path);
    !upload.absolute && !upload.climbs
}

#[test]
fn plain_relative_paths_are_allowed() {
    for path in ["report.pdf", "a/b/c", "./a", "a//b/", "", "...", "a/..b", "a/b..", ".a"] {
        assert!(allowed(path), "{path}");
    }
}

#[test]
fn climbing_paths_are_not() {
    for path in ["..", "../x", "a/../b", "a/..", "./..", "a//../b"] {
        let upload = examine_upload(path);
        assert!(upload.climbs && !upload.absolute, "{path}");
    }
}

#[test]
fn absolute_paths_are_judged_as_the_platform_does() {
    for path in ["/etc/passwd", "/", "C:\\x", "\\\\server\\share", "\\x"] {
        assert_eq!(
            examine_upload(path).absolute,
            std::path::Path::new(path).is_absolute(),
            "{path}"
        );
    }
}

#[test]
fn what_the_platform_says_is_taken_over() {
    let parts = vec![PathPart::RootDir, PathPart::Normal, PathPart::ParentDir];
    assert!(steps_up(&parts));
    let upload = weigh_upload("x", true, &parts);
    assert!(upload.absolute && upload.climbs);
    assert_eq!(upload.path, "x");
    let parts = vec![PathPart::Prefix, PathPart::CurDir, PathPart::Normal];
    assert!(!steps_up(&parts));
    let upload = weigh_upload("..", false, &parts);
    assert!(!upload.absolute && !upload.climbs);
    assert!(!steps_up(&vec![]));
}
