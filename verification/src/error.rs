use vstd::prelude::*;
use vstd::string::StringExecFns;

verus! {

/// What can go wrong, as a mathematical value: the view of a [`ConfigError`].
pub enum Fault {
    /// The key is empty, or one of its segments is.
    EmptyKey,
    /// No entry is stored under this segment where the walk needed one.
    PathNotFound(Seq<char>),
    /// The entry under this segment is not a table, so the walk cannot go below it.
    TypeMismatch(Seq<char>),
    /// The root itself is not a table, so nothing can be stored in it.
    RootNotTable,
    /// The document text is not valid; the codec's message.
    Parse(Seq<char>),
    /// The tree cannot be written as a document; the codec's message.
    Serialize(Seq<char>),
}

/// An error of the configuration store.
///
/// `TypeMismatch` and `RootNotTable` are the two forms of one kind of failure: a table
/// was needed and something else was found, either under a named segment or at the root.
#[derive(Debug, PartialEq, Eq)]
pub enum ConfigError {
    /// The key is empty, or one of its segments is.
    EmptyKey,
    /// No entry is stored under this segment where the walk needed one.
    PathNotFound(String),
    /// The entry under this segment is not a table, so the walk cannot go below it.
    TypeMismatch(String),
    /// The root itself is not a table, so nothing can be stored in it.
    RootNotTable,
    /// The document text is not valid; the codec's message.
    Parse(String),
    /// The tree cannot be written as a document; the codec's message.
    Serialize(String),
}

impl View for ConfigError {
    type V = Fault;

    open spec fn view(&self) -> Fault {
        match *self {
            ConfigError::EmptyKey => Fault::EmptyKey,
            ConfigError::PathNotFound(s) => Fault::PathNotFound(s@),
            ConfigError::TypeMismatch(s) => Fault::TypeMismatch(s@),
            ConfigError::RootNotTable => Fault::RootNotTable,
            ConfigError::Parse(s) => Fault::Parse(s@),
            ConfigError::Serialize(s) => Fault::Serialize(s@),
        }
    }
}

impl Fault {
    /// The fault in words.
    pub open spec fn message(self) -> Seq<char> {
        match self {
            Fault::EmptyKey => "Key cannot be empty"@,
            Fault::PathNotFound(s) => "Path '"@ + s + "' does not exist"@,
            Fault::TypeMismatch(s) => "'"@ + s + "' is not a table"@,
            Fault::RootNotTable => "Parent is not a table"@,
            Fault::Parse(m) => m,
            Fault::Serialize(m) => m,
        }
    }
}

impl ConfigError {
    /// The error in words, for a reader.
    pub fn message(&self) -> (r: String)
        ensures
            r@ == self@.message(),
    {
        match self {
            ConfigError::EmptyKey => "Key cannot be empty".to_owned(),
            ConfigError::PathNotFound(s) => "Path '".to_owned().concat(s.as_str()).concat(
                "' does not exist",
            ),
            ConfigError::TypeMismatch(s) => "'".to_owned().concat(s.as_str()).concat(
                "' is not a table",
            ),
            ConfigError::RootNotTable => "Parent is not a table".to_owned(),
            ConfigError::Parse(m) => m.clone(),
            ConfigError::Serialize(m) => m.clone(),
        }
    }
}

} // verus!
