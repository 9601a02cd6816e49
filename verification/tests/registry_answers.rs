use volt::errors::VoltError;
use volt::logout::Logout;
use volt::registry::{
    check_peer_dependency, dep_tree_mode, registry_url_of, requested_label, response_step,
    DepTreeMode, PackageSpec, ResponseStep, MAX_RETRIES,
};

fn npm(name: &str, requested: Option<&str>) -> PackageSpec {
    PackageSpec::Npm { name: name.to_string(), requested: requested.map(|r| r.to_string()) }
}

#[test]
fn spec_texts() {
    assert_eq!(npm("send", Some("0.17.2")).to_text(), "send@0.17.2");
    assert_eq!(npm("@types/node", None).to_text(), "@types/node");
    assert_eq!(requested_label(&npm("send", None)).as_deref(), Some("latest"));
    assert_eq!(requested_label(&npm("send", Some("^1"))).as_deref(), Some("^1"));
    assert_eq!(requested_label(&PackageSpec::Other { text: "./dir".to_string() }), None);
    assert_eq!(registry_url_of("send@1.0.0"), "http://registry.voltpkg.com/send@1.0.0.sp");
}

#[test]
fn answers() {
    let spec = npm("send", Some("1.0.0"));
    assert!(matches!(response_step(&spec, 200, 0), ResponseStep::Accept));
    match response_step(&spec, 429, 0) {
        ResponseStep::Fail(VoltError::TooManyRequests { url }) => {
            assert_eq!(url, "http://registry.voltpkg.com/send@1.0.0.sp")
        }
        other => panic!("unexpected {:?}", other),
    }
    assert!(matches!(response_step(&spec, 400, 2), ResponseStep::Fail(VoltError::BadRequest { .. })));
    assert!(matches!(response_step(&spec, 404, 0), ResponseStep::Retry));
    assert!(matches!(response_step(&spec, 503, MAX_RETRIES - 1), ResponseStep::Retry));
    match response_step(&spec, 404, MAX_RETRIES) {
        ResponseStep::Fail(VoltError::PackageNotFound { url, package_name }) => {
            assert_eq!(url, "http://registry.voltpkg.com/send@1.0.0.sp");
            assert_eq!(package_name, "send@1.0.0");
        }
        other => panic!("unexpected {:?}", other),
    }
    match response_step(&spec, 503, MAX_RETRIES) {
        ResponseStep::Fail(VoltError::NetworkUnknownError { url, package_name, code }) => {
            assert_eq!(url, "http://registry.voltpkg.com/send.sp");
            assert_eq!(package_name, "send@1.0.0");
            assert_eq!(code, "503");
        }
        other => panic!("unexpected {:?}", other),
    }
}

#[test]
fn retries_are_bounded() {
    let spec = npm("x", None);
    let mut attempts = 0;
    let mut retries = 0;
    loop {
        attempts += 1;
        match response_step(&spec, 500, retries) {
            ResponseStep::Retry => retries += 1,
            _ => break,
        }
    }
    assert_eq!(attempts, MAX_RETRIES as u32 + 1);
}

#[test]
fn small_decisions() {
    assert_eq!(dep_tree_mode(1), DepTreeMode::One);
    assert_eq!(dep_tree_mode(3), DepTreeMode::Many);
    assert!(!check_peer_dependency("react"));
    assert!(Logout::exec().is_ok());
}
