use mh::ptc::prelude::{
    discover, user_prelude_path, FileProbe, Prelude, PreludeError, PreludeOrigin,
    MAX_PRELUDE_BYTES, WORKSPACE_PRELUDE,
};

fn file(content: &str) -> FileProbe {
    FileProbe::File { bytes: content.len() as u64, content: Ok(content.to_string()) }
}

#[test]
fn workspace_prelude_wins_over_the_user_prelude() {
    let user = "/ws/user/prelude.js".to_string();
    let found = discover("/ws", file("// workspace"), Some((user, file("// user"))))
        .unwrap()
        .unwrap();
    assert_eq!(found.source, "// workspace");
    assert_eq!(found.path, format!("/ws/{WORKSPACE_PRELUDE}"));
    assert_eq!(found.origin, PreludeOrigin::Workspace);
}

#[test]
fn user_prelude_is_the_fallback_and_absence_is_not_an_error() {
    let user = "/ws/user/prelude.js".to_string();
    let nothing = discover("/ws", FileProbe::Missing, Some((user.clone(), FileProbe::Missing)));
    assert_eq!(nothing.unwrap(), None);
    assert_eq!(discover("/ws", FileProbe::Missing, None).unwrap(), None);

    let found = discover("/ws", FileProbe::Missing, Some((user, file("// user"))))
        .unwrap()
        .unwrap();
    assert_eq!(found.source, "// user");
    assert!(!found.origin.requires_confirmation());
    assert!(PreludeOrigin::Workspace.requires_confirmation());
}

#[test]
fn an_oversized_prelude_fails_instead_of_being_ignored() {
    let error = discover("/ws", file(&"x".repeat(MAX_PRELUDE_BYTES + 1)), None).unwrap_err();
    assert!(
        matches!(error, PreludeError::TooLarge { bytes, .. } if bytes == MAX_PRELUDE_BYTES + 1),
        "expected a size error, got {}",
        error.message()
    );
    assert!(discover("/ws", file(&"x".repeat(MAX_PRELUDE_BYTES)), None).unwrap().is_some());
}

#[test]
fn a_directory_at_the_prelude_path_is_not_a_prelude() {
    assert_eq!(discover("/ws", FileProbe::NotFile, None).unwrap(), None);
}

#[test]
fn descriptions_come_from_doc_lines_only() {
    let prelude = Prelude {
        path: "p.js".to_string(),
        source: [
            "//! cargoTest() -> exec result for the test suite\n",
            "// an ordinary comment is not a description\n",
            "  //! indented doc lines still count\n",
            "function cargoTest() { return exec({ command: [\"cargo\", \"test\"] }); }\n",
        ]
        .join(""),
        origin: PreludeOrigin::Workspace,
    };
    assert_eq!(
        prelude.description().unwrap(),
        "cargoTest() -> exec result for the test suite\nindented doc lines still count"
    );
}

#[test]
fn a_prelude_without_doc_lines_contributes_no_description() {
    let prelude = Prelude {
        path: "p.js".to_string(),
        source: "// just code\nfunction f() { return 1; }\n".to_string(),
        origin: PreludeOrigin::Workspace,
    };
    assert_eq!(prelude.description(), None);

    let blank = Prelude {
        path: "p.js".to_string(),
        source: "//!\n//!   \n".to_string(),
        origin: PreludeOrigin::Workspace,
    };
    assert_eq!(blank.description(), None, "blank doc lines are not content");
}

#[test]
fn an_unreadable_workspace_prelude_is_not_passed_over() {
    let user = Some(("/u/prelude.js".to_string(), file("// user")));
    let error = discover("/ws", FileProbe::Unreadable("denied".to_string()), user).unwrap_err();
    assert!(matches!(&error, PreludeError::Io { path, .. } if path == "/ws/.mh/prelude.js"));
    assert!(error.message().contains("denied"));
}

#[test]
fn a_prelude_is_known_by_the_hash_of_its_content() {
    let prelude = Prelude {
        path: "p.js".to_string(),
        source: "abc".to_string(),
        origin: PreludeOrigin::User,
    };
    assert_eq!(
        prelude.identity().0,
        "sha256:9d2d80d59177850a916298529acf29b45e8a3bbdf60f63040939b33446081943"
    );
    assert!(prelude.eval_name().contains("p.js"));
}

#[test]
fn the_user_prelude_lies_in_the_configuration_directory() {
    let xdg = Some("/x".to_string());
    let home = Some("/home/u".to_string());
    assert_eq!(user_prelude_path(&xdg, &home), Some("/x/mh/prelude.js".to_string()));
    assert_eq!(
        user_prelude_path(&Some(String::new()), &home),
        Some("/home/u/.config/mh/prelude.js".to_string())
    );
    assert_eq!(user_prelude_path(&None, &None), None);
}
