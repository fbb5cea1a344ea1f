//! What can go wrong between a configuration document and a list of tasks.

use vstd::prelude::*;
use vstd::string::StringExecFns;

verus! {

/// Why a script could not be loaded or expanded.
#[derive(Debug, Clone, PartialEq, Eq)]
pub enum ScriptError {
    /// The text is no well-formed configuration document; holds the parser's words.
    Syntax(String),
    /// A key that is needed is absent; holds the key.
    MissingField(String),
    /// A key holds a value of the wrong shape; holds the key.
    TypeMismatch(String),
    /// A provider was asked for a placeholder that it does not resolve.
    UnknownPlaceholder(String),
    /// No registered provider claims this placeholder of the template.
    UnresolvedPlaceholder(String),
    /// A provider claims a placeholder that another provider claims already.
    DuplicateClaim(String),
    /// A task still holds the sigil after expansion.
    IncompleteTask { name: String, remaining_args: Vec<String> },
    /// The command has no token, so there is no executable to run.
    EmptyCommand,
    /// No primary provider was registered.
    MissingMainLoader,
    /// The primary provider has not been given its benchmark description;
    /// holds the path where the configuration says it lies.
    MissingDescription(String),
}

/// A `ScriptError` as a mathematical value.
pub enum ErrorView {
    Syntax(Seq<char>),
    MissingField(Seq<char>),
    TypeMismatch(Seq<char>),
    UnknownPlaceholder(Seq<char>),
    UnresolvedPlaceholder(Seq<char>),
    DuplicateClaim(Seq<char>),
    IncompleteTask { name: Seq<char>, remaining_args: Seq<Seq<char>> },
    EmptyCommand,
    MissingMainLoader,
    MissingDescription(Seq<char>),
}

impl View for ScriptError {
    type V = ErrorView;

    open spec fn view(&self) -> ErrorView {
        match self {
            ScriptError::Syntax(s) => ErrorView::Syntax(s@),
            ScriptError::MissingField(s) => ErrorView::MissingField(s@),
            ScriptError::TypeMismatch(s) => ErrorView::TypeMismatch(s@),
            ScriptError::UnknownPlaceholder(s) => ErrorView::UnknownPlaceholder(s@),
            ScriptError::UnresolvedPlaceholder(s) => ErrorView::UnresolvedPlaceholder(s@),
            ScriptError::DuplicateClaim(s) => ErrorView::DuplicateClaim(s@),
            ScriptError::IncompleteTask { name, remaining_args } => ErrorView::IncompleteTask {
                name: name@,
                remaining_args: remaining_args.deep_view(),
            },
            ScriptError::EmptyCommand => ErrorView::EmptyCommand,
            ScriptError::MissingMainLoader => ErrorView::MissingMainLoader,
            ScriptError::MissingDescription(s) => ErrorView::MissingDescription(s@),
        }
    }
}

/// The words of `words`, each followed by a blank.
pub open spec fn spaced(words: Seq<Seq<char>>) -> Seq<char>
    decreases words.len(),
{
    if words.len() == 0 {
        Seq::empty()
    } else {
        spaced(words.drop_last()) + words.last().push(' ')
    }
}

impl ErrorView {
    /// The words that head the message of each kind of error.
    pub open spec fn heading(self) -> Seq<char> {
        match self {
            ErrorView::Syntax(_) => "invalid configuration document: "@,
            ErrorView::MissingField(_) => "missing field: "@,
            ErrorView::TypeMismatch(_) => "field of the wrong type: "@,
            ErrorView::UnknownPlaceholder(_) => "unknown placeholder: "@,
            ErrorView::UnresolvedPlaceholder(_) => "no provider for placeholder: "@,
            ErrorView::DuplicateClaim(_) => "placeholder claimed twice: "@,
            ErrorView::IncompleteTask { .. } => "command not completed: "@,
            ErrorView::EmptyCommand => "the command is empty"@,
            ErrorView::MissingMainLoader => "no main loader is registered"@,
            ErrorView::MissingDescription(_) => "benchmark description not loaded: "@,
        }
    }

    /// What follows the heading: the key, placeholder or path, or the name
    /// and arguments of the task.
    pub open spec fn detail(self) -> Seq<char> {
        match self {
            ErrorView::Syntax(s) => s,
            ErrorView::MissingField(s) => s,
            ErrorView::TypeMismatch(s) => s,
            ErrorView::UnknownPlaceholder(s) => s,
            ErrorView::UnresolvedPlaceholder(s) => s,
            ErrorView::DuplicateClaim(s) => s,
            ErrorView::IncompleteTask { name, remaining_args } => spaced(seq![name]) + spaced(
                remaining_args,
            ),
            ErrorView::EmptyCommand => Seq::empty(),
            ErrorView::MissingMainLoader => Seq::empty(),
            ErrorView::MissingDescription(s) => s,
        }
    }

    /// The message of the error: its heading, then its detail.
    pub open spec fn message(self) -> Seq<char> {
        self.heading() + self.detail()
    }
}

fn spaced_words(words: &Vec<String>) -> (line: String)
    ensures
        line@ == spaced(words.deep_view()),
{
    let mut line = String::new();
    let mut i: usize = 0;
    while i < words.len()
        invariant
            i <= words@.len(),
            line@ == spaced(words.deep_view().take(i as int)),
        decreases words@.len() - i,
    {
        proof {
            reveal_strlit(" ");
            let upto = words.deep_view().take(i + 1);
            assert(upto.drop_last() =~= words.deep_view().take(i as int));
            assert(upto.last() == words@[i as int]@);
            assert(line@ + words@[i as int]@ + " "@ =~= line@ + words@[i as int]@.push(' '));
        }
        line.append(words[i].as_str());
        line.append(" ");
        i = i + 1;
    }
    assert(words.deep_view().take(i as int) =~= words.deep_view());
    line
}

impl ScriptError {
    /// A line of text that says what went wrong.
    pub fn message(&self) -> (text: String)
        ensures
            text@ == self@.message(),
    {
        match self {
            ScriptError::Syntax(s) => String::from_str("invalid configuration document: ").concat(
                s.as_str(),
            ),
            ScriptError::MissingField(s) => String::from_str("missing field: ").concat(s.as_str()),
            ScriptError::TypeMismatch(s) => String::from_str("field of the wrong type: ").concat(
                s.as_str(),
            ),
            ScriptError::UnknownPlaceholder(s) => String::from_str("unknown placeholder: ").concat(
                s.as_str(),
            ),
            ScriptError::UnresolvedPlaceholder(s) => String::from_str(
                "no provider for placeholder: ",
            ).concat(s.as_str()),
            ScriptError::DuplicateClaim(s) => String::from_str(
                "placeholder claimed twice: ",
            ).concat(s.as_str()),
            ScriptError::IncompleteTask { name, remaining_args } => {
                let mut text = String::from_str("command not completed: ");
                proof {
                    reveal_strlit(" ");
                    assert(spaced(seq![name@]) =~= name@.push(' ')) by {
                        assert(seq![name@].drop_last() =~= Seq::<Seq<char>>::empty());
                        assert(spaced(Seq::<Seq<char>>::empty()) =~= Seq::<char>::empty());
                    }
                    assert(name@ + " "@ =~= name@.push(' '));
                }
                text.append(name.as_str());
                text.append(" ");
                let args = spaced_words(remaining_args);
                text.append(args.as_str());
                proof {
                    assert(text@ =~= self@.heading() + (spaced(seq![name@]) + spaced(
                        remaining_args.deep_view(),
                    )));
                }
                text
            },
            ScriptError::EmptyCommand => {
                let text = String::from_str("the command is empty");
                assert(text@ + Seq::<char>::empty() =~= text@);
                text
            },
            ScriptError::MissingMainLoader => {
                let text = String::from_str("no main loader is registered");
                assert(text@ + Seq::<char>::empty() =~= text@);
                text
            },
            ScriptError::MissingDescription(s) => String::from_str(
                "benchmark description not loaded: ",
            ).concat(s.as_str()),
        }
    }
}

} // verus!
