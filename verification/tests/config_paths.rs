use volt::config::{path_style_for_os, Algorithm, VoltConfig};
use volt::errors::VoltError;
use volt::paths::{join_path, PathStyle};

#[test]
fn joins() {
    assert_eq!(join_path("/a", "b", PathStyle::Unix), "/a/b");
    assert_eq!(join_path("/a/", "b", PathStyle::Unix), "/a/b");
    assert_eq!(join_path("", "b", PathStyle::Unix), "b");
    assert_eq!(join_path("/a", "/b", PathStyle::Unix), "/b");
    assert_eq!(join_path("C:\\u", "b", PathStyle::Windows), "C:\\u\\b");
    assert_eq!(join_path("a\\", "b", PathStyle::Unix), "a\\/b");
}

#[test]
fn configuration() {
    let c = VoltConfig::initialize(Ok("/work/proj".to_string()), Some("/home/u".to_string()), "linux".to_string())
        .unwrap();
    assert_eq!(c.current_dir, "/work/proj");
    assert_eq!(c.home_dir, "/home/u");
    assert_eq!(c.node_modules_dir, "/work/proj/node_modules");
    assert_eq!(c.volt_dir, "/home/u/.volt");
    assert_eq!(c.lock_file_path, "/work/proj/volt.lock");
    assert_eq!(c.os, "linux");
    let w = VoltConfig::initialize(Ok("C:\\p".to_string()), Some("C:\\Users\\u".to_string()), "windows".to_string())
        .unwrap();
    assert_eq!(w.volt_dir, "C:\\Users\\u\\.volt");
    assert_eq!(path_style_for_os("windows"), PathStyle::Windows);
    assert_eq!(path_style_for_os("macos"), PathStyle::Unix);
}

#[test]
fn configuration_errors() {
    match VoltConfig::initialize(Err("gone".to_string()), Some("/h".to_string()), "linux".to_string()) {
        Err(VoltError::EnvironmentError { env, source }) => {
            assert_eq!(env, "CURRENT_DIRECTORY");
            assert_eq!(source, "gone");
        }
        other => panic!("unexpected {:?}", other),
    }
    assert!(matches!(
        VoltConfig::initialize(Ok("/w".to_string()), None, "linux".to_string()),
        Err(VoltError::GetHomeDirError)
    ));
}

#[test]
fn tarball_hashes() {
    assert_eq!(
        VoltConfig::calc_hash(b"hello world", Algorithm::Sha1).unwrap(),
        "sha1-2aae6c35c94fcfb415dbe95f408b9ce91ee846ed"
    );
    assert_eq!(
        VoltConfig::calc_hash(b"hello world", Algorithm::Sha512).unwrap(),
        "sha512-MJ7MSJwS1utMxA9QyQLytNDtd+5RGnx6m808qG1M2G+YndNbxf9JlnDaNCVbRbDP2DDoH2Bdz33FVC6TrpzXbw=="
    );
    // every algorithm but SHA-1 is hashed with SHA-512
    assert_eq!(
        VoltConfig::calc_hash(b"", Algorithm::Sha256).unwrap(),
        "sha512-z4PhNX7vuL3xVChQ1m2AB9Yg5AULVxXcg/SpIdNs6c5H0NE8XYXysP+DGNKHfuwvY7kxvUdBeoGlODJ6+SfaPg=="
    );
}

#[test]
fn console_mode_for_colours() {
    assert_eq!(volt::config::virtual_terminal_mode(0x3), Some(0x7));
    assert_eq!(volt::config::virtual_terminal_mode(0x7), None);
    assert_eq!(volt::config::virtual_terminal_mode(0), Some(4));
}
