//! The closed set of failures the engine can report.
//!
//! Every variant carries structured fields; the text a build sees is produced
//! in one place, by the `render` functions, so that each message has exactly
//! one shape.

use vstd::prelude::*;

use crate::strutil::{flag_override_var, spec_override_var};

verus! {

use vstd::string::StringExecFns;

/// Failure of a fallback build closure.
#[derive(Debug)]
pub enum BuildInternalClosureError {
    /// The closure's own discovery step failed; the field holds the
    /// collaborator's message.
    PkgConfig(String),
    /// General failure.
    Failed(String),
}

/// The mathematical value of a `BuildInternalClosureError`.
pub ghost enum BiceView {
    PkgConfig(Seq<char>),
    Failed(Seq<char>),
}

impl View for BuildInternalClosureError {
    type V = BiceView;

    open spec fn view(&self) -> BiceView {
        match self {
            BuildInternalClosureError::PkgConfig(s) => BiceView::PkgConfig(s@),
            BuildInternalClosureError::Failed(s) => BiceView::Failed(s@),
        }
    }
}

/// The message text of a closure failure.
pub open spec fn spec_bice_msg(e: BiceView) -> Seq<char> {
    match e {
        BiceView::PkgConfig(s) => s,
        BiceView::Failed(s) => s,
    }
}

impl BuildInternalClosureError {
    /// A general failure, with human-readable details.
    pub fn failed(details: &str) -> (r: BuildInternalClosureError)
        ensures
            r@ == BiceView::Failed(details@),
    {
        BuildInternalClosureError::Failed(details.to_owned())
    }

    /// The message text of this failure.
    pub fn render(&self) -> (r: String)
        ensures
            r@ == spec_bice_msg(self@),
    {
        match self {
            BuildInternalClosureError::PkgConfig(s) => s.clone(),
            BuildInternalClosureError::Failed(s) => s.clone(),
        }
    }
}

/// Everything that can make a resolution pass fail.
#[derive(Debug)]
pub enum Error {
    /// The discovery collaborator failed; the field holds its message.
    PkgConfig(String),
    /// One of the registered fallback build closures failed; the fields hold
    /// the dependency key and the closure's failure.
    BuildInternalClosureError(String, BuildInternalClosureError),
    /// Failed to read the manifest; the fields hold the message and the
    /// underlying cause.
    FailToRead(String, String),
    /// An error was detected in the dependency metadata of the manifest.
    InvalidMetadata(String),
    /// A dependency defined manually by its `NO_PKG_CONFIG` variable ended up
    /// with neither a lib nor a framework; the field holds its key.
    MissingLib(String),
    /// A `BUILD_INTERNAL` variable held an invalid value.
    BuildInternalInvalid(String),
    /// An internal build was requested for the named dependency at the given
    /// version, but no closure is registered for it.
    BuildInternalNoClosure(String, String),
    /// The internally built library (key, built version) stays below the
    /// required minimum version.
    BuildInternalWrongVersion(String, String, String),
}

/// The mathematical value of an `Error`.
pub ghost enum ErrorView {
    PkgConfig(Seq<char>),
    BuildInternalClosureError(Seq<char>, BiceView),
    FailToRead(Seq<char>, Seq<char>),
    InvalidMetadata(Seq<char>),
    MissingLib(Seq<char>),
    BuildInternalInvalid(Seq<char>),
    BuildInternalNoClosure(Seq<char>, Seq<char>),
    BuildInternalWrongVersion(Seq<char>, Seq<char>, Seq<char>),
}

impl View for Error {
    type V = ErrorView;

    open spec fn view(&self) -> ErrorView {
        match self {
            Error::PkgConfig(s) => ErrorView::PkgConfig(s@),
            Error::BuildInternalClosureError(n, e) => ErrorView::BuildInternalClosureError(
                n@,
                e@,
            ),
            Error::FailToRead(m, c) => ErrorView::FailToRead(m@, c@),
            Error::InvalidMetadata(m) => ErrorView::InvalidMetadata(m@),
            Error::MissingLib(n) => ErrorView::MissingLib(n@),
            Error::BuildInternalInvalid(m) => ErrorView::BuildInternalInvalid(m@),
            Error::BuildInternalNoClosure(n, v) => ErrorView::BuildInternalNoClosure(n@, v@),
            Error::BuildInternalWrongVersion(n, g, r) => ErrorView::BuildInternalWrongVersion(
                n@,
                g@,
                r@,
            ),
        }
    }
}

/// The message text of an error.
pub open spec fn spec_error_msg(e: ErrorView) -> Seq<char> {
    match e {
        ErrorView::PkgConfig(s) => s,
        ErrorView::BuildInternalClosureError(n, inner) => "Failed to build "@ + n + ": "@
            + spec_bice_msg(inner),
        ErrorView::FailToRead(m, _) => m,
        ErrorView::InvalidMetadata(m) => m,
        ErrorView::MissingLib(n) => "You should define at least one lib using "@
            + spec_override_var(n, "LIB"@) + " or "@ + spec_override_var(n, "LIB_FRAMEWORK"@),
        ErrorView::BuildInternalInvalid(m) => m,
        ErrorView::BuildInternalNoClosure(n, v) => "Missing build internal closure for "@ + n
            + " (version "@ + v + ")"@,
        ErrorView::BuildInternalWrongVersion(n, g, r) => "Internally built "@ + n + " "@ + g
            + " but minimum required version is "@ + r,
    }
}

impl Error {
    /// The message text of this error, as the build tool prints it.
    pub fn render(&self) -> (r: String)
        ensures
            r@ == spec_error_msg(self@),
    {
        match self {
            Error::PkgConfig(s) => s.clone(),
            Error::BuildInternalClosureError(n, inner) => String::from_str("Failed to build ")
                .concat(n.as_str())
                .concat(": ")
                .concat(inner.render().as_str()),
            Error::FailToRead(m, _) => m.clone(),
            Error::InvalidMetadata(m) => m.clone(),
            Error::MissingLib(n) => {
                let v1 = flag_override_var(n.as_str(), "LIB");
                let v2 = flag_override_var(n.as_str(), "LIB_FRAMEWORK");
                String::from_str("You should define at least one lib using ")
                    .concat(v1.as_str())
                    .concat(" or ")
                    .concat(v2.as_str())
            },
            Error::BuildInternalInvalid(m) => m.clone(),
            Error::BuildInternalNoClosure(n, v) => String::from_str(
                "Missing build internal closure for ",
            ).concat(n.as_str()).concat(" (version ").concat(v.as_str()).concat(")"),
            Error::BuildInternalWrongVersion(n, g, r) => String::from_str("Internally built ")
                .concat(n.as_str())
                .concat(" ")
                .concat(g.as_str())
                .concat(" but minimum required version is ")
                .concat(r.as_str()),
        }
    }
}

} // verus!
