//! Shared error definitions for the marketplace.
//!
//! Errors that originate in the operating system or the network carry the
//! text of their cause as a plain string.

use vstd::prelude::*;

use crate::locator::opt_string_view;

verus! {

#[verifier::external_type_specification]
#[verifier::external_body]
pub struct ExIoError(std::io::Error);

/// The text of a `Debug`-formatted path (`format!("{:?}", Path::new(s))`).
pub uninterp spec fn path_debug_text(path: Seq<char>) -> Seq<char>;

/// `<std::io::Error as Display>::fmt`: the error's message. Nothing is claimed
/// of the text, which comes from the operating system.
#[verifier::external_body]
fn io_error_text(err: &std::io::Error) -> String {
    err.to_string()
}

/// `<Path as Debug>::fmt` on the path spelled by `path`: the quoted, escaped
/// path, claimed to be what `path_debug_text` names.
#[verifier::external_body]
pub(crate) fn path_debug(path: &str) -> (r: String)
    ensures
        r@ == path_debug_text(path@),
{
    format!("{:?}", std::path::Path::new(path))
}

/// Errors reported by marketplace operations.
#[derive(Debug)]
pub enum MarketplaceError {
    Configuration(String),
    Io { path: String, message: String },
    Network { operation: String, message: String, url: Option<String> },
    RateLimited { source_slug: String, reset_at: Option<String> },
    InvalidManifest { repository: String, reason: String },
    ExtensionNotFound { id: String },
    SourceNotFound { slug: String },
    AuthenticationRequired { slug: String },
    Todo,
}

/// The message of an error (what its `Display` prints).
pub open spec fn error_message_spec(e: MarketplaceError) -> Seq<char> {
    match e {
        MarketplaceError::Configuration(m) => "configuration error: "@ + m@,
        MarketplaceError::Io { path, message } => "I/O error at "@ + path_debug_text(path@) + ": "@
            + message@,
        MarketplaceError::Network { operation, message, url } => "network request failed: "@ + message@,
        MarketplaceError::RateLimited { source_slug, reset_at } => "rate limit active for source "@
            + source_slug@ + match reset_at {
            Some(v) => " (resets at "@ + v@ + ")"@,
            None => Seq::empty(),
        },
        MarketplaceError::InvalidManifest { repository, reason } => "manifest invalid for repository "@
            + repository@ + ": "@ + reason@,
        MarketplaceError::ExtensionNotFound { id } => "extension not found: "@ + id@,
        MarketplaceError::SourceNotFound { slug } => "source not found: "@ + slug@,
        MarketplaceError::AuthenticationRequired { slug } => "authentication required for source "@
            + slug@ + ", credentials missing"@,
        MarketplaceError::Todo => "operation not yet implemented"@,
    }
}

impl MarketplaceError {
    /// An I/O error at `path`, carrying the message of `source`.
    pub fn io(path: &str, source: std::io::Error) -> (r: Self)
        ensures
            r matches MarketplaceError::Io { path: p, .. } && p@ == path@,
    {
        let message = io_error_text(&source);
        MarketplaceError::Io { path: String::from_str(path), message }
    }

    /// A configuration error with the given message.
    pub fn configuration(msg: &str) -> (r: Self)
        ensures
            r matches MarketplaceError::Configuration(m) && m@ == msg@,
    {
        MarketplaceError::Configuration(String::from_str(msg))
    }

    /// A network error during `operation`, caused by `message`, at `url` when known.
    pub fn network(operation: &str, message: &str, url: Option<String>) -> (r: Self)
        ensures
            r matches MarketplaceError::Network { operation: o, message: m, url: u } && o@ == operation@
                && m@ == message@ && opt_string_view(u) == opt_string_view(url),
    {
        MarketplaceError::Network {
            operation: String::from_str(operation),
            message: String::from_str(message),
            url,
        }
    }

    /// The error's message, as its `Display` implementation prints it.
    pub fn message(&self) -> (r: String)
        ensures
            r@ == error_message_spec(*self),
    {
        match self {
            MarketplaceError::Configuration(m) => {
                let mut s = String::from_str("configuration error: ");
                s.append(m.as_str());
                s
            },
            MarketplaceError::Io { path, message } => {
                let mut s = String::from_str("I/O error at ");
                let quoted = path_debug(path.as_str());
                s.append(quoted.as_str());
                s.append(": ");
                s.append(message.as_str());
                s
            },
            MarketplaceError::Network { message, .. } => {
                let mut s = String::from_str("network request failed: ");
                s.append(message.as_str());
                s
            },
            MarketplaceError::RateLimited { source_slug, reset_at } => {
                let mut s = String::from_str("rate limit active for source ");
                s.append(source_slug.as_str());
                match reset_at {
                    Some(v) => {
                        let mut tail = String::from_str(" (resets at ");
                        tail.append(v.as_str());
                        tail.append(")");
                        s.append(tail.as_str());
                    },
                    None => {
                        assert(s@ + Seq::<char>::empty() =~= s@);
                    },
                }
                s
            },
            MarketplaceError::InvalidManifest { repository, reason } => {
                let mut s = String::from_str("manifest invalid for repository ");
                s.append(repository.as_str());
                s.append(": ");
                s.append(reason.as_str());
                s
            },
            MarketplaceError::ExtensionNotFound { id } => {
                let mut s = String::from_str("extension not found: ");
                s.append(id.as_str());
                s
            },
            MarketplaceError::SourceNotFound { slug } => {
                let mut s = String::from_str("source not found: ");
                s.append(slug.as_str());
                s
            },
            MarketplaceError::AuthenticationRequired { slug } => {
                let mut s = String::from_str("authentication required for source ");
                s.append(slug.as_str());
                s.append(", credentials missing");
                s
            },
            MarketplaceError::Todo => String::from_str("operation not yet implemented"),
        }
    }
}

} // verus!
