//! The ways in which a compilation run fails.

use vstd::prelude::*;
use vstd::string::StringExecFns;

verus! {

/// A failure that ends a compilation run.  None is retried and none is
/// turned into a partial result.
#[derive(Clone, Debug, PartialEq, Eq)]
pub enum CompilationError {
    /// Reading or writing the file system failed; holds the diagnostic.
    Io(String),
    /// The source has no delimiter line.
    FrontMatter,
    /// The metadata segment does not have the shape of the metadata; holds
    /// the parser's diagnostic.
    Yaml(String),
    /// The source has only one delimiter line.
    Content,
    /// A template could not be rendered; holds the diagnostic.
    Render(String),
}

impl CompilationError {
    /// The text that `message` gives.
    pub open spec fn spec_message(self) -> Seq<char> {
        match self {
            CompilationError::Io(diagnostic) => diagnostic@,
            CompilationError::FrontMatter => "missing frontmatter"@,
            CompilationError::Yaml(diagnostic) => "frontmatter error: "@ + diagnostic@,
            CompilationError::Content => "missing content"@,
            CompilationError::Render(diagnostic) => "rendering: "@ + diagnostic@,
        }
    }

    /// A copy of the failure.
    pub fn duplicate(&self) -> (copy: CompilationError)
        ensures
            copy == *self,
    {
        match self {
            CompilationError::Io(diagnostic) => CompilationError::Io(diagnostic.clone()),
            CompilationError::FrontMatter => CompilationError::FrontMatter,
            CompilationError::Yaml(diagnostic) => CompilationError::Yaml(diagnostic.clone()),
            CompilationError::Content => CompilationError::Content,
            CompilationError::Render(diagnostic) => CompilationError::Render(diagnostic.clone()),
        }
    }

    /// The failure in words, for the user.
    pub fn message(&self) -> (text: String)
        ensures
            text@ == self.spec_message(),
    {
        match self {
            CompilationError::Io(diagnostic) => diagnostic.clone(),
            CompilationError::FrontMatter => String::from_str("missing frontmatter"),
            CompilationError::Yaml(diagnostic) => String::from_str("frontmatter error: ").concat(
                diagnostic.as_str(),
            ),
            CompilationError::Content => String::from_str("missing content"),
            CompilationError::Render(diagnostic) => String::from_str("rendering: ").concat(
                diagnostic.as_str(),
            ),
        }
    }
}

} // verus!
