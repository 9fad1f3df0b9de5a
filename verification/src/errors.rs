use vstd::prelude::*;
use vstd::string::StringExecFns;

verus! {

/// What can go wrong while a front-matter block is converted.
#[derive(Debug, Clone, PartialEq, Eq)]
pub enum Error {
    /// The value could not be written in the target format; holds the cause.
    Serialization(String),
    /// The block's text is not valid for its format; holds the cause.
    Deserialization(String),
    /// No format has this name or delimiter.
    FormatName(String),
    /// The document does not open with a known delimiter, or never closes it.
    InferFormat,
}

/// The mathematical value of an [`Error`].
pub ghost enum Failure {
    Serialization(Seq<char>),
    Deserialization(Seq<char>),
    FormatName(Seq<char>),
    InferFormat,
}

impl View for Error {
    type V = Failure;

    open spec fn view(&self) -> Failure {
        match self {
            Error::Serialization(m) => Failure::Serialization(m@),
            Error::Deserialization(m) => Failure::Deserialization(m@),
            Error::FormatName(m) => Failure::FormatName(m@),
            Error::InferFormat => Failure::InferFormat,
        }
    }
}

/// The text that describes a failure to a user.
pub open spec fn failure_message(f: Failure) -> Seq<char> {
    match f {
        Failure::Serialization(_) => "Any errors occurred during serialization"@,
        Failure::Deserialization(_) => "Any errors occurred during deserialization"@,
        Failure::FormatName(n) => "Unsupported format name. name:"@ + n,
        Failure::InferFormat => "Cannot infer format. Please specify either FILE or FORMAT"@,
    }
}

impl Error {
    /// The text that describes this error to a user.
    pub fn message(&self) -> (text: String)
        ensures
            text@ == failure_message(self@),
    {
        match self {
            Error::Serialization(_) => String::from_str("Any errors occurred during serialization"),
            Error::Deserialization(_) => String::from_str(
                "Any errors occurred during deserialization",
            ),
            Error::FormatName(n) => {
                let mut text = String::from_str("Unsupported format name. name:");
                text.append(n.as_str());
                text
            },
            Error::InferFormat => String::from_str(
                "Cannot infer format. Please specify either FILE or FORMAT",
            ),
        }
    }

    /// The cause that a (de)serialization error carries, or the name that was
    /// not recognised; empty for [`Error::InferFormat`].
    pub fn detail(&self) -> (text: String)
        ensures
            text@ == match self@ {
                Failure::Serialization(m) => m,
                Failure::Deserialization(m) => m,
                Failure::FormatName(m) => m,
                Failure::InferFormat => Seq::<char>::empty(),
            },
    {
        match self {
            Error::Serialization(m) => m.clone(),
            Error::Deserialization(m) => m.clone(),
            Error::FormatName(m) => m.clone(),
            Error::InferFormat => String::new(),
        }
    }
}

} // verus!
