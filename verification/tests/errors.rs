use site_compiler::error::CompilationError;

#[test]
fn each_failure_has_its_message() {
    assert_eq!(CompilationError::FrontMatter.message(), "missing frontmatter");
    assert_eq!(CompilationError::Content.message(), "missing content");
    assert_eq!(
        CompilationError::Yaml("missing field `title`".to_string()).message(),
        "frontmatter error: missing field `title`"
    );
    assert_eq!(
        CompilationError::Render("Helper not found crate2".to_string()).message(),
        "rendering: Helper not found crate2"
    );
    assert_eq!(
        CompilationError::Io("No such file or directory (os error 2)".to_string()).message(),
        "No such file or directory (os error 2)"
    );
}

#[test]
fn a_copy_of_a_failure_is_the_same_failure() {
    let failures = vec![
        CompilationError::Io("io".to_string()),
        CompilationError::FrontMatter,
        CompilationError::Yaml("yaml".to_string()),
        CompilationError::Content,
        CompilationError::Render("render".to_string()),
    ];
    for failure in &failures {
        assert_eq!(&failure.duplicate(), failure);
    }
}
