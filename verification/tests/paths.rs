use donna_desktop::paths::{
    browser_script, bundled_worker, device_id_path, display_name, join_bytes, join_path,
    server_go_dir, sidecar_bin, support_dir, workspaces_path,
};
use std::path::{Path, PathBuf};

#[test]
fn joins_as_the_standard_library_does() {
    for base in ["", "/", "a", "a/", "/a/b", "a//", "."] {
        for rest in ["", "b", "../x", "/abs", "b/c", "a b"] {
            let expected = PathBuf::from(base).join(rest);
            assert_eq!(join_path(base, rest), expected.to_str().unwrap(), "{base:?} {rest:?}");
        }
    }
}

#[test]
fn support_directory() {
    assert_eq!(
        support_dir(&Some("/Users/ada".to_string())),
        "/Users/ada/Library/Application Support/Donna"
    );
    assert_eq!(support_dir(&None), "./Library/Application Support/Donna");
    assert_eq!(support_dir(&Some(String::new())), "Library/Application Support/Donna");
}

#[test]
fn files_in_the_support_directory() {
    assert_eq!(workspaces_path("/s"), "/s/workspaces.json");
    assert_eq!(device_id_path("/s"), "/s/device-id");
}

#[test]
fn sources_of_the_worker() {
    assert_eq!(
        server_go_dir("/repo/donna-desktop/src-tauri"),
        "/repo/donna-desktop/src-tauri/../../donna-server-go"
    );
    assert_eq!(browser_script("/m"), "/m/../browser/server.js");
}

#[test]
fn joins_bytes_as_the_standard_library_does() {
    for base in ["", "/", "a", "a/", "/a/b", "é", "é/", "."] {
        for rest in ["", "b", "../x", "/abs", "/é", "é/c"] {
            let expected = PathBuf::from(base).join(rest);
            let joined = join_bytes(base.as_bytes(), rest.as_bytes());
            assert_eq!(joined, expected.to_str().unwrap().as_bytes(), "{base:?} {rest:?}");
            assert_eq!(joined, join_path(base, rest).as_bytes());
        }
    }
    assert_eq!(join_bytes(b"/\xff", b"\xfe"), b"/\xff/\xfe");
}

#[test]
fn binary_of_the_worker() {
    let beside = Some(b"/Applications/Donna.app/Contents/MacOS".to_vec());
    let bundled: &[u8] = b"/Applications/Donna.app/Contents/MacOS/donna-agent-local";
    assert_eq!(bundled_worker(&beside), bundled);
    assert_eq!(bundled_worker(&None), b"./donna-agent-local");
    assert_eq!(bundled_worker(&Some(Vec::new())), b"donna-agent-local");
    assert_eq!(bundled_worker(&Some(b"/\xff".to_vec())), b"/\xff/donna-agent-local");
    assert_eq!(sidecar_bin(&beside, true, "/m", "aarch64"), bundled);
    assert_eq!(sidecar_bin(&None, true, "/m", "aarch64"), b"./donna-agent-local");
    assert_eq!(
        sidecar_bin(&beside, false, "/m", "x86_64"),
        b"/m/binaries/donna-agent-local-x86_64-apple-darwin"
    );
    assert_eq!(
        sidecar_bin(&None, false, "/m", "arm64"),
        b"/m/binaries/donna-agent-local-aarch64-apple-darwin"
    );
}

#[test]
fn names_of_workspaces() {
    assert_eq!(display_name("/Users/ada/code/donna"), "donna");
    assert_eq!(display_name("/Users/ada/code/donna/"), "donna");
    assert_eq!(display_name("/Users/ada/./."), "ada");
    assert_eq!(display_name("/"), "Workspace");
    assert_eq!(display_name(""), "Workspace");
    assert_eq!(display_name("/a/.."), "Workspace");
    assert_eq!(display_name("/a/日本"), "日本");
}

#[test]
fn names_are_those_of_the_standard_library() {
    let paths = [
        "", "/", "//", ".", "..", "./", "../", "a", "a/", "a//", "a/.", "a/..", "a/./", "./a",
        "../a", "/a/b", "/a//b/", "/.hidden", "...", "/a/...", "a b/c d", "a/./..", "/..",
    ];
    for path in paths {
        let expected = Path::new(path).file_name().and_then(|s| s.to_str()).unwrap_or("Workspace");
        assert_eq!(display_name(path), expected, "{path:?}");
    }
}
