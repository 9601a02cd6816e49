use volt::node::parse_version;
use volt::semver::{compare_versions, version_to_string, Identifier, Precedence, Version};
use volt::text::u64_to_decimal;

fn v(text: &str) -> Version {
    parse_version(text).expect("a valid version")
}

#[test]
fn decimal_rendering() {
    assert_eq!(u64_to_decimal(0), "0");
    assert_eq!(u64_to_decimal(7), "7");
    assert_eq!(u64_to_decimal(10), "10");
    assert_eq!(u64_to_decimal(18446744073709551615), "18446744073709551615");
}

#[test]
fn numeric_fields_decide_first() {
    assert_eq!(compare_versions(&v("1.2.3"), &v("1.2.10")), Precedence::Less);
    assert_eq!(compare_versions(&v("2.0.0"), &v("1.9.9")), Precedence::Greater);
    assert_eq!(compare_versions(&v("1.10.0"), &v("1.9.0")), Precedence::Greater);
}

#[test]
fn pre_release_ranks_below_release() {
    assert_eq!(compare_versions(&v("1.0.0-alpha"), &v("1.0.0")), Precedence::Less);
    assert_eq!(compare_versions(&v("1.0.0"), &v("1.0.0-rc.1")), Precedence::Greater);
    assert_eq!(compare_versions(&v("1.0.0-alpha.1"), &v("1.0.0-alpha.beta")), Precedence::Less);
    assert_eq!(compare_versions(&v("1.0.0-alpha"), &v("1.0.0-alpha.1")), Precedence::Less);
    assert_eq!(compare_versions(&v("1.0.0-beta.2"), &v("1.0.0-beta.11")), Precedence::Less);
}

#[test]
fn build_metadata_is_ignored() {
    assert_eq!(compare_versions(&v("1.0.0+a"), &v("1.0.0+b")), Precedence::Equal);
}

#[test]
fn text_order_by_code_point() {
    assert_eq!(compare_versions(&v("1.0.0-abc"), &v("1.0.0-abd")), Precedence::Less);
    assert_eq!(compare_versions(&v("1.0.0-ab"), &v("1.0.0-abc")), Precedence::Less);
    assert_eq!(compare_versions(&v("1.0.0-b"), &v("1.0.0-abc")), Precedence::Greater);
    assert_eq!(compare_versions(&v("1.0.0-same"), &v("1.0.0-same")), Precedence::Equal);
    assert_eq!(compare_versions(&v("1.0.0-B"), &v("1.0.0-a")), Precedence::Less);
}

#[test]
fn version_text_form() {
    assert_eq!(version_to_string(&v("1.2.3")), "1.2.3");
    assert_eq!(version_to_string(&v("1.2.3-beta.4+build.5")), "1.2.3-beta.4+build.5");
    assert_eq!(version_to_string(&v("v16.13.0")), "16.13.0");
    let manual = Version {
        major: 0,
        minor: 10,
        patch: 200,
        build: vec![],
        pre_release: vec![Identifier::AlphaNumeric("rc".to_string()), Identifier::Numeric(3)],
    };
    assert_eq!(version_to_string(&manual), "0.10.200-rc.3");
}

#[test]
fn duplicate_keeps_version() {
    let a = v("3.4.5-x.7+meta");
    let b = a.duplicate();
    assert_eq!(version_to_string(&a), version_to_string(&b));
    assert_eq!(compare_versions(&a, &b), Precedence::Equal);
}

#[test]
fn order_laws_on_samples() {
    let texts = ["1.0.0-alpha", "1.0.0-alpha.1", "1.0.0-beta", "1.0.0", "1.0.1", "1.1.0+b", "2.0.0"];
    let vs: Vec<Version> = texts.iter().map(|t| v(t)).collect();
    for a in &vs {
        assert_eq!(compare_versions(a, a), Precedence::Equal);
        for b in &vs {
            let ab = compare_versions(a, b);
            let ba = compare_versions(b, a);
            let flipped = match ab {
                Precedence::Less => Precedence::Greater,
                Precedence::Equal => Precedence::Equal,
                Precedence::Greater => Precedence::Less,
            };
            assert_eq!(ba, flipped);
            for c in &vs {
                if ab != Precedence::Greater && compare_versions(b, c) != Precedence::Greater {
                    assert_ne!(compare_versions(a, c), Precedence::Greater);
                }
            }
        }
    }
    // the samples are listed in increasing order
    for i in 1..vs.len() {
        assert_eq!(compare_versions(&vs[i - 1], &vs[i]), Precedence::Less);
    }
}
