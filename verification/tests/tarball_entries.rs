use volt::config::{Algorithm, VoltConfig};
use volt::paths::{join_path, parent_path, path_components, path_file_name, paths_equal, PathStyle};
use volt::tarball::{
    decompress_tarball, entry_bytes, entry_target, generate_script, package_directory,
    plan_extraction, replace_text, unpackable_paths, strip_first_component, tarball_algorithm, tarball_entries,
    try_decompress_tarball, verify_tarball, Extraction, TarEntry, TarballCheck, VoltPackage,
};

fn gzip(data: &[u8]) -> Vec<u8> {
    let mut c = libdeflater::Compressor::new(libdeflater::CompressionLvl::default());
    let mut out = vec![0u8; c.gzip_compress_bound(data.len())];
    let n = c.gzip_compress(data, &mut out).unwrap();
    out.truncate(n);
    out
}

fn archive(files: &[(&str, &[u8])]) -> Vec<u8> {
    let mut b = tar::Builder::new(Vec::new());
    for (path, data) in files {
        let mut h = tar::Header::new_gnu();
        h.set_size(data.len() as u64);
        h.set_mode(0o644);
        h.set_cksum();
        b.append_data(&mut h, path, *data).unwrap();
    }
    b.into_inner().unwrap()
}

#[test]
fn algorithm_from_integrity() {
    assert_eq!(tarball_algorithm("sha1-abc"), Algorithm::Sha1);
    assert_eq!(tarball_algorithm("sha512-abc"), Algorithm::Sha512);
    assert_eq!(tarball_algorithm("md5-abc"), Algorithm::Sha512);
}

#[test]
fn integrity_check() {
    let good = VoltConfig::calc_hash(b"tarball", Algorithm::Sha512).unwrap();
    assert!(matches!(verify_tarball(b"tarball", &good), TarballCheck::Verified));
    match verify_tarball(b"other", &good) {
        TarballCheck::Mismatch { computed } => assert_ne!(computed, good),
        TarballCheck::Verified => panic!("a different download must not verify"),
    }
    // a `sha1-` integrity is compared with the hex digest
    assert!(matches!(
        verify_tarball(b"hello world", "sha1-2aae6c35c94fcfb415dbe95f408b9ce91ee846ed"),
        TarballCheck::Verified
    ));
}

#[test]
fn inflating() {
    let data = b"package/index.js contents".to_vec();
    let gz = gzip(&data);
    assert_eq!(decompress_tarball(&gz), data);
    assert_eq!(try_decompress_tarball(&gz), Some(data));
    assert_eq!(try_decompress_tarball(&[1, 2, 3]), None);
    assert_eq!(try_decompress_tarball(&[0, 0, 0, 0, 0, 0, 0, 0]), None);
}

#[test]
fn inflating_two_members() {
    // libdeflate reads the first member; the buffer has the size the last
    // four bytes record, so the rest of it stays zero
    let mut cat = gzip(b"a");
    cat.extend(gzip(b"bc"));
    assert_eq!(decompress_tarball(&cat), vec![b'a', 0]);
}

#[test]
fn reading_entries() {
    let tar = archive(&[("package/index.js", b"hi"), ("package/lib/a.js", b"abc")]);
    let read = tarball_entries(&tar);
    assert!(read.error.is_none());
    let entries = read.entries;
    assert_eq!(entries.len(), 2);
    assert_eq!(entries[0].path.as_deref(), Some("package/index.js"));
    assert_eq!(entries[0].size, 2);
    assert_eq!(entries[0].contents, b"hi");
    // the stored buffer is the zeroed buffer of the recorded size, then the contents
    assert_eq!(entry_bytes(&entries[1]), vec![0, 0, 0, b'a', b'b', b'c']);
    let bad = tarball_entries(&[7u8; 600]);
    assert!(bad.entries.is_empty());
    assert!(bad.error.is_some());
}

#[test]
fn reading_stops_at_a_bad_header() {
    let mut tar = archive(&[("package/index.js", b"hi"), ("package/lib/a.js", b"abc")]);
    // spoil the checksum of the second header
    tar[1024 + 148] ^= 0x01;
    let read = tarball_entries(&tar);
    assert_eq!(read.entries.len(), 1);
    assert_eq!(read.entries[0].path.as_deref(), Some("package/index.js"));
    assert_eq!(read.entries[0].contents, b"hi");
    assert!(read.error.is_some());
}

#[test]
fn entry_places() {
    assert_eq!(strip_first_component("package/lib/index.js"), "lib/index.js");
    assert_eq!(strip_first_component("README"), "README");
    assert_eq!(strip_first_component("package/"), "");
    let pkg = VoltPackage {
        name: "send".to_string(),
        version: "0.17.2".to_string(),
        tarball: "https://example.org/send.tgz".to_string(),
        integrity: "sha512-x".to_string(),
        bin: None,
    };
    assert_eq!(pkg.directory_name(), "send@0.17.2");
    assert_eq!(pkg.cacache_key(), "send@0.17.2");
    let dir = package_directory("/w/node_modules", &pkg.directory_name(), PathStyle::Unix);
    assert_eq!(dir, "/w/node_modules/.volt/send@0.17.2");
    assert_eq!(entry_target(&dir, "package/lib/index.js", PathStyle::Unix), "/w/node_modules/.volt/send@0.17.2/lib/index.js");
}

#[test]
fn parents() {
    assert_eq!(parent_path("/a/b/c", PathStyle::Unix).as_deref(), Some("/a/b"));
    assert_eq!(parent_path("/a/b/", PathStyle::Unix).as_deref(), Some("/a"));
    assert_eq!(parent_path("a//b", PathStyle::Unix).as_deref(), Some("a"));
    assert_eq!(parent_path("/a", PathStyle::Unix).as_deref(), Some("/"));
    assert_eq!(parent_path("a", PathStyle::Unix).as_deref(), Some(""));
    assert_eq!(parent_path("/", PathStyle::Unix), None);
    assert_eq!(parent_path("", PathStyle::Unix), None);
    assert_eq!(parent_path("C:\\x\\y", PathStyle::Windows).as_deref(), Some("C:\\x"));
}

#[test]
fn parents_of_dot_components_and_drives() {
    assert_eq!(parent_path("a/b/.", PathStyle::Unix).as_deref(), Some("a"));
    assert_eq!(parent_path("a/./b", PathStyle::Unix).as_deref(), Some("a"));
    assert_eq!(parent_path(".", PathStyle::Unix).as_deref(), Some(""));
    assert_eq!(parent_path("./a", PathStyle::Unix).as_deref(), Some("."));
    assert_eq!(parent_path("..", PathStyle::Unix).as_deref(), Some(""));
    assert_eq!(parent_path("/.", PathStyle::Unix), None);
    assert_eq!(parent_path("C:\\", PathStyle::Windows), None);
    assert_eq!(parent_path("C:", PathStyle::Windows), None);
    assert_eq!(parent_path("C:.", PathStyle::Windows), None);
    assert_eq!(parent_path("C:\\a", PathStyle::Windows).as_deref(), Some("C:\\"));
    assert_eq!(parent_path("C:a", PathStyle::Windows).as_deref(), Some("C:"));
    assert_eq!(parent_path("C:./a", PathStyle::Windows).as_deref(), Some("C:."));
}

#[test]
fn joining_with_drives() {
    assert_eq!(join_path("C:\\u", "\\x", PathStyle::Windows), "C:\\x");
    assert_eq!(join_path("C:", "x", PathStyle::Windows), "C:x");
    assert_eq!(join_path("C:\\u", "D:y", PathStyle::Windows), "D:y");
    assert_eq!(join_path("\\u", "x", PathStyle::Windows), "\\u\\x");
    assert_eq!(join_path("/u", "\\x", PathStyle::Unix), "/u/\\x");
}

#[test]
fn comparing_paths() {
    assert!(paths_equal("a/./b", "a/b", PathStyle::Unix));
    assert!(paths_equal("a/b/", "a//b", PathStyle::Unix));
    assert!(!paths_equal("/a", "a", PathStyle::Unix));
    assert!(!paths_equal("./a", "a", PathStyle::Unix));
    assert!(!paths_equal("a/..", "a", PathStyle::Unix));
    assert!(paths_equal("c:\\x", "C:/x", PathStyle::Windows));
    assert!(!paths_equal("C:x", "C:\\x", PathStyle::Windows));
    assert!(paths_equal("C:./x", "C:x", PathStyle::Windows));
    assert_eq!(path_components("/w/./p@1/", PathStyle::Unix), vec!["/", "w", "p@1"]);
    assert_eq!(path_components("c:\\x", PathStyle::Windows), vec!["C:", "\\", "x"]);
}

#[test]
fn windows_prefixes() {
    let w = PathStyle::Windows;
    assert_eq!(parent_path("\\\\s\\h\\a", w).as_deref(), Some("\\\\s\\h\\"));
    assert_eq!(parent_path("\\\\s\\h", w), None);
    assert_eq!(parent_path("\\\\s\\h\\", w), None);
    assert_eq!(parent_path("\\\\?\\C:\\a\\.", w).as_deref(), Some("\\\\?\\C:\\a"));
    assert_eq!(join_path("\\\\s\\h", "x", w), "\\\\s\\h\\x");
    assert_eq!(join_path("\\\\s\\h\\u", "\\x", w), "\\\\s\\h\\x");
    assert_eq!(join_path("\\\\?\\C:\\a", "b/../c", w), "\\\\?\\C:\\a\\c");
    assert_eq!(join_path("\\\\?\\C:\\a", "\\x", w), "\\\\?\\C:\\x");
    assert_eq!(join_path("C:\\a", "\\\\s\\h", w), "\\\\s\\h");
    assert!(paths_equal("\\\\s\\h\\x", "//s/h/x", w));
    assert!(paths_equal("\\\\?\\c:\\x", "\\\\?\\C:\\x", w));
    assert!(!paths_equal("C:\\x", "\\\\?\\C:\\x", w));
    assert!(!paths_equal("\\\\?\\x\\a", "\\\\?\\x\\a/b", w));
    assert_eq!(path_components("\\\\s\\h\\x", w), vec!["//s/h", "\\", "x"]);
    assert_eq!(path_components("\\\\.\\COM1", w), vec!["\\\\.\\COM1", "\\"]);
    assert_eq!(path_file_name("\\\\?\\C:\\a\\.", w), None);
}

#[test]
fn directories_created_once() {
    let mut e = Extraction::new();
    let pkg = "/w/.volt/p@1";
    assert!(!e.record(pkg, pkg, PathStyle::Unix));
    assert!(e.record(pkg, "/w/.volt/p@1/lib", PathStyle::Unix));
    assert!(!e.record(pkg, "/w/.volt/p@1/lib", PathStyle::Unix));
    // the same directory written another way is not created again
    assert!(!e.record(pkg, "/w/.volt/p@1/./lib/", PathStyle::Unix));
    assert!(!e.record(pkg, "/w/.volt/p@1/.", PathStyle::Unix));
    assert!(e.record(pkg, "/w/.volt/p@1/lib/x", PathStyle::Unix));
    assert_eq!(e.created.len(), 8);
}

#[test]
fn planning_a_whole_tarball() {
    let pkg = "/w/.volt/p@1";
    let paths: Vec<String> = ["package/a.js", "package/lib/b.js", "package/lib/c.js", "package/lib/./d.js", "package/x/y/z.js"]
        .iter()
        .map(|s| s.to_string())
        .collect();
    let plan = plan_extraction(pkg, &paths, PathStyle::Unix);
    assert_eq!(plan.len(), 5);
    assert_eq!(plan[0].target, "/w/.volt/p@1/a.js");
    assert_eq!(plan[0].parent.as_deref(), Some("/w/.volt/p@1"));
    assert!(!plan[0].create);
    assert_eq!(plan[1].parent.as_deref(), Some("/w/.volt/p@1/lib"));
    assert!(plan[1].create);
    assert!(!plan[2].create);
    assert_eq!(plan[3].target, "/w/.volt/p@1/lib/./d.js");
    assert_eq!(plan[3].parent.as_deref(), Some("/w/.volt/p@1/lib"));
    assert!(!plan[3].create);
    assert_eq!(plan[4].parent.as_deref(), Some("/w/.volt/p@1/x/y"));
    assert!(plan[4].create);
}

#[test]
fn planning_a_target_without_parent() {
    let paths = vec!["package//".to_string()];
    let plan = plan_extraction("/w/.volt/p@1", &paths, PathStyle::Unix);
    assert_eq!(plan[0].target, "/");
    assert_eq!(plan[0].parent, None);
    assert!(!plan[0].create);
}

#[test]
fn replacing_text() {
    assert_eq!(replace_text("a%~dp0\\..b%~dp0\\..", "%~dp0\\..", "/v"), "a/vb/v");
    assert_eq!(replace_text("aaa", "aa", "b"), "ba");
    assert_eq!(replace_text("abc", "", "x"), "xaxbxcx");
    assert_eq!(replace_text("", "", "x"), "x");
}

fn config(os: &str) -> VoltConfig {
    VoltConfig {
        current_dir: "/w".to_string(),
        home_dir: "/h".to_string(),
        node_modules_dir: "/w/node_modules".to_string(),
        volt_dir: "/h/.volt".to_string(),
        lock_file_path: "/w/volt.lock".to_string(),
        os: os.to_string(),
    }
}

fn package_with_bin(bin: Option<Vec<(String, String)>>) -> VoltPackage {
    VoltPackage {
        name: "tool".to_string(),
        version: "1.0.0".to_string(),
        tarball: String::new(),
        integrity: String::new(),
        bin,
    }
}

#[test]
fn scripts_for_binaries() {
    let bin = Some(vec![("tool".to_string(), "bin/tool.js".to_string()), ("other".to_string(), "o.js".to_string())]);
    let unix = generate_script(&config("linux"), &package_with_bin(bin.clone()));
    assert_eq!(unix.dir, "node_modules/scripts");
    let sc = unix.script.unwrap();
    assert_eq!(sc.path, "node_modules/scripts/tool.sh");
    assert_eq!(sc.contents, "\n            node  \"/h/.volt/.volt/tool/bin/tool.js\" %*\n            ");
    assert!(sc.executable);

    let win = generate_script(&config("windows"), &package_with_bin(bin));
    assert_eq!(win.dir, "node_modules/.bin");
    let sc = win.script.unwrap();
    assert_eq!(sc.path, "node_modules/.bin/tool.cmd");
    assert!(!sc.executable);
    assert!(sc.contents.contains("\"/h/.volt\\tool\\bin/tool.js\" %*"));
    assert!(!sc.contents.contains("%~dp0\\.."));
    assert!(sc.contents.contains("\"%~dp0\\node.exe\""));

    let none = generate_script(&config("linux"), &package_with_bin(None));
    assert_eq!(none.dir, "node_modules/scripts");
    assert!(none.script.is_none());
}

#[test]
fn entry_with_unicode_prefix() {
    let entry = TarEntry { path: Some("pkg/ü".to_string()), size: 0, contents: vec![] };
    assert_eq!(strip_first_component(entry.path.as_deref().unwrap()), "ü");
}

#[test]
fn entries_unpacked_up_to_the_first_unusable() {
    let e = |p: Option<&str>| TarEntry { path: p.map(|s| s.to_string()), size: 0, contents: vec![] };
    let entries = vec![e(Some("package/a")), e(Some("b")), e(None), e(Some("package/c"))];
    assert_eq!(unpackable_paths(&entries), vec!["package/a".to_string(), "b".to_string()]);
    // the cut after the first '/' would fall inside the second "\u{e9}"
    let entries = vec![e(Some("\u{e9}\u{e9}/x")), e(Some("package/a"))];
    assert!(unpackable_paths(&entries).is_empty());
}

#[test]
fn file_names() {
    assert_eq!(path_file_name("/w/project", PathStyle::Unix).as_deref(), Some("project"));
    assert_eq!(path_file_name("/w/project/", PathStyle::Unix).as_deref(), Some("project"));
    assert_eq!(path_file_name("/w/project/.", PathStyle::Unix).as_deref(), Some("project"));
    assert_eq!(path_file_name("/w/..", PathStyle::Unix), None);
    assert_eq!(path_file_name("/", PathStyle::Unix), None);
    assert_eq!(path_file_name("C:\\", PathStyle::Windows), None);
    assert_eq!(path_file_name("C:\\u\\p", PathStyle::Windows).as_deref(), Some("p"));
}
