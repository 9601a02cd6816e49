use volt::node::{
    decompress_node_archive, get_node_path, linux_links, node_download, parse_version,
    path_needs_update, resolve_node_version, use_strategy, windows_links, Arch, Lts, Node,
    NodeSubcommand, NodeVersion, Os, Resolution, UseStrategy,
};
use volt::semver::version_to_string;

fn index(versions: &[&str]) -> Vec<NodeVersion> {
    versions
        .iter()
        .map(|t| NodeVersion {
            version: parse_version(t).unwrap(),
            lts: None,
            files: vec![],
        })
        .collect()
}

fn found(r: Resolution) -> String {
    match r {
        Resolution::Found(v) => version_to_string(&v),
        other => panic!("expected a version, got {:?}", other),
    }
}

#[test]
fn exact_version_must_be_listed() {
    let avail = index(&["16.0.0", "16.1.0", "17.0.0"]);
    assert_eq!(found(resolve_node_version("16.1.0", &avail)), "16.1.0");
    assert!(matches!(resolve_node_version("16.2.0", &avail), Resolution::NotFound));
    // a leading `v` parses, but no release is written that way
    assert!(matches!(resolve_node_version("v16.1.0", &avail), Resolution::NotFound));
}

#[test]
fn range_picks_newest_match() {
    let avail = index(&["14.18.0", "16.0.0", "16.13.1", "16.2.0", "17.3.0"]);
    assert_eq!(found(resolve_node_version("^16", &avail)), "16.13.1");
    assert_eq!(found(resolve_node_version(">=14 <16", &avail)), "14.18.0");
    assert!(matches!(resolve_node_version(">=20", &avail), Resolution::NotFound));
}

#[test]
fn invalid_request() {
    let avail = index(&["16.0.0"]);
    assert!(matches!(resolve_node_version("not a version!", &avail), Resolution::Invalid));
}

#[test]
fn download_plan_unix() {
    let ver = parse_version("16.1.0").unwrap();
    let d = node_download("16.1.0", &ver, Os::Linux, Arch::X64);
    assert_eq!(d.url, "https://nodejs.org/dist/v16.1.0/node-v16.1.0-linux-x64.tar.xz");
    assert_eq!(d.file_name, "node-v16.1.0-linux-x64.tar.xz");
    assert_eq!(d.unpack_location, "node-v16.1.0-linux-x64");
    assert_eq!(d.tar_name.as_deref(), Some("node-v16.1.0-linux-x64.tar"));
    let d = node_download("16", &ver, Os::Macos, Arch::X86);
    assert_eq!(d.url, "https://nodejs.org/dist/v16.1.0/node-v16.1.0-darwin-x86.tar.xz");
}

#[test]
fn download_plan_windows() {
    let ver = parse_version("16.1.0").unwrap();
    let d = node_download("^16.1", &ver, Os::Windows, Arch::X64);
    assert_eq!(d.url, "https://nodejs.org/dist/v16.1.0//win-x64/node.exe");
    assert_eq!(d.file_name, "node.exe");
    assert_eq!(d.unpack_location, "^16.1");
    assert!(d.tar_name.is_none());
}

#[test]
fn node_paths() {
    assert_eq!(
        get_node_path("/home/u/.local/share", "16.1.0", Os::Linux, Arch::X64),
        "/home/u/.local/share/volt/node/node-v16.1.0-linux-x64"
    );
    assert_eq!(
        get_node_path("C:\\Users\\a\\AppData\\Roaming", "16.1.0", Os::Windows, Arch::Unknown),
        "C:\\Users\\a\\AppData\\Roaming\\volt\\node\\16.1.0"
    );
    let l = linux_links("/home/u", "/data/node-v1");
    assert_eq!(l.link_dir, "/home/u/.local/bin");
    assert_eq!(l.bin_dir, "/data/node-v1/bin");
}

#[test]
fn windows_use_paths() {
    let l = windows_links("C:\\Users\\a", "16.1.0");
    assert_eq!(l.node_path, "C:\\Users\\a\\AppData\\Local\\Volt\\Node\\16.1.0\\node.exe");
    assert_eq!(l.link_dir, "C:\\Users\\a\\AppData\\Local\\Volt\\bin");
    assert_eq!(l.link_file, "C:\\Users\\a\\AppData\\Local\\Volt\\bin\\node.exe");
    assert_eq!(l.link, "C:\\Users\\a\\AppData\\Local\\Volt\\bin\\node.exe");
    assert_eq!(
        l.path_command,
        "[Environment]::SetEnvironmentVariable('Path', [Environment]::GetEnvironmentVariable('Path', 'User') + 'C:\\Users\\a\\AppData\\Local\\Volt\\bin', 'User')"
    );
    assert!(path_needs_update("C:\\Windows;C:\\Tools", &l.link_dir));
    assert!(!path_needs_update("C:\\Windows;C:\\Users\\a\\AppData\\Local\\Volt\\bin", &l.link_dir));
}

#[test]
fn platform_names_and_strategy() {
    assert_eq!(Os::Windows.name(), "win");
    assert_eq!(Os::Macos.name(), "darwin");
    assert_eq!(Os::Linux.name(), "linux");
    assert_eq!(Arch::X86.name(), "x86");
    assert_eq!(Arch::X64.name(), "x64");
    assert_eq!(use_strategy(Os::Windows), UseStrategy::Windows);
    assert_eq!(use_strategy(Os::Linux), UseStrategy::LinkBinaries);
    assert_eq!(use_strategy(Os::Macos), UseStrategy::Nothing);
}

#[test]
fn lts_and_subcommands() {
    assert_eq!(Lts::Yes("Gallium".to_string()).into_option().as_deref(), Some("Gallium"));
    assert_eq!(Lts::No(false).into_option(), None);
    assert_eq!(Node::subcommand("use"), NodeSubcommand::Use);
    assert_eq!(Node::subcommand("install"), NodeSubcommand::Install);
    assert_eq!(Node::subcommand("remove"), NodeSubcommand::Remove);
    assert_eq!(Node::subcommand("list"), NodeSubcommand::Other);
}

#[test]
fn xz_round_trip() {
    let data = b"a node release tarball".to_vec();
    let packed = lzma::compress(&data, 6).unwrap();
    assert_eq!(decompress_node_archive(&packed), Some(data));
    assert_eq!(decompress_node_archive(b"not xz at all"), None);
}
