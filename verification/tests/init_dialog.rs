use volt::init::{
    is_valid_package_name, Init, InitAction, InitDialog, InitEvent, InitStep, License, Prompt,
};

fn input(action: &InitAction) -> (String, Option<String>, bool) {
    match action {
        InitAction::Ask(Prompt::Input { message, default, allow_empty })
        | InitAction::Retry(Prompt::Input { message, default, allow_empty }) => {
            (message.clone(), default.clone(), *allow_empty)
        }
        other => panic!("expected an input prompt, got {:?}", other),
    }
}

#[test]
fn package_names() {
    for good in ["volt", "my-package", "a.b_c~d", "-x", "~", "0", "@scope/pkg", "@*a/b", "@s.x/y"] {
        assert!(is_valid_package_name(good), "{} should be accepted", good);
    }
    for bad in ["", "Upper", "a b", ".x", "_x", "@/x", "@s/", "@s", "@s/A", "a/b", "@s/x/y", "naïve"] {
        assert!(!is_valid_package_name(bad), "{} should be refused", bad);
    }
}

#[test]
fn defaults_for_yes() {
    let d = Init::default_data(
        "project".to_string(),
        Some("Jane".to_string()),
        Some("jane@example.org".to_string()),
        None,
    );
    assert_eq!(d.name, "project");
    assert_eq!(d.version, "0.1.0");
    assert_eq!(d.description, None);
    assert_eq!(d.main, "index.js");
    assert_eq!(d.author.as_deref(), Some("Jane <jane@example.org>"));
    assert_eq!(d.repository, None);
    assert_eq!(d.license, License::Mit);
    assert_eq!(d.private, None);
    let none = Init::default_data("p".to_string(), None, None, None);
    assert_eq!(none.author, None);
    let only_mail = Init::default_data("p".to_string(), None, Some("m@x".to_string()), None);
    assert_eq!(only_mail.author.as_deref(), Some(" <m@x>"));
}

#[test]
fn licenses() {
    let options = License::options();
    assert_eq!(options.len(), 8);
    assert_eq!(options[0], "MIT License");
    assert_eq!(options[1], "Apache License 2.0");
    assert_eq!(License::from_index(1), Some(License::Apache2));
    assert_eq!(License::from_index(8), None);
    assert_eq!(License::default_license(), License::Mit);
}

#[test]
fn whole_dialogue() {
    let (d, a) = InitDialog::start("proj".to_string());
    assert_eq!(input(&a), ("name".to_string(), Some("proj".to_string()), false));
    // a refused name is asked for again
    let (d, a) = d.advance(InitEvent::Text("Bad Name".to_string()));
    assert!(matches!(a, InitAction::Retry(_)));
    assert_eq!(d.step, InitStep::Name);
    let (d, a) = d.advance(InitEvent::Text("good-name".to_string()));
    assert_eq!(input(&a), ("version".to_string(), Some("1.0.0".to_string()), false));
    let (d, a) = d.advance(InitEvent::Text("2.0.0".to_string()));
    assert_eq!(input(&a), ("description".to_string(), None, true));
    let (d, a) = d.advance(InitEvent::Text("A tool".to_string()));
    assert_eq!(input(&a), ("main".to_string(), Some("index.js".to_string()), false));
    let (d, a) = d.advance(InitEvent::Text("main.js".to_string()));
    assert!(matches!(a, InitAction::LookupGitAuthor));
    let (d, a) = d.advance(InitEvent::GitAuthor {
        name: Some("Jane".to_string()),
        email: Some("j@x.org".to_string()),
    });
    assert_eq!(input(&a), ("author".to_string(), Some("Jane <j@x.org>".to_string()), true));
    let (d, a) = d.advance(InitEvent::Text("Jane <j@x.org>".to_string()));
    assert_eq!(input(&a), ("repository".to_string(), None, true));
    let (d, a) = d.advance(InitEvent::Text("https://example.org/r".to_string()));
    match &a {
        InitAction::Ask(Prompt::Select { message, paged, selected, items }) => {
            assert_eq!(message, "License");
            assert!(*paged);
            assert_eq!(*selected, Some(1));
            assert_eq!(items.len(), 8);
        }
        other => panic!("expected the license prompt, got {:?}", other),
    }
    // whatever is chosen, the preselected license is kept
    let (d, a) = d.advance(InitEvent::Choice(0));
    assert!(matches!(a, InitAction::Ask(Prompt::Confirm { default_answer: false, .. })));
    let (d, a) = d.advance(InitEvent::Flag(true));
    assert_eq!(d.step, InitStep::Done);
    match a {
        InitAction::Write(data) => {
            assert_eq!(data.name, "good-name");
            assert_eq!(data.version, "2.0.0");
            assert_eq!(data.description.as_deref(), Some("A tool"));
            assert_eq!(data.main, "main.js");
            assert_eq!(data.author.as_deref(), Some("Jane <j@x.org>"));
            assert_eq!(data.repository.as_deref(), Some("https://example.org/r"));
            assert_eq!(data.license, License::Apache2);
            assert_eq!(data.private, Some(true));
        }
        other => panic!("expected the data, got {:?}", other),
    }
}

#[test]
fn author_default_needs_a_name() {
    let (d, _) = InitDialog::start("p".to_string());
    let (d, _) = d.advance(InitEvent::Text("p".to_string()));
    let (d, _) = d.advance(InitEvent::Text("1.0.0".to_string()));
    let (d, _) = d.advance(InitEvent::Text("".to_string()));
    let (d, _) = d.advance(InitEvent::Text("index.js".to_string()));
    let (_, a) = d.advance(InitEvent::GitAuthor { name: None, email: Some("m@x".to_string()) });
    assert_eq!(input(&a), ("author".to_string(), None, true));
}
