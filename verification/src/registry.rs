//! Asking the Volt registry for a package: the address asked, and what
//! each answer means, with a bounded number of retries.

use vstd::prelude::*;
use vstd::string::*;

use crate::errors::VoltError;
use crate::text::{decimal, u64_to_decimal};

verus! {

/// How many times a request is repeated after its first attempt.
pub const MAX_RETRIES: u8 = 3;

/// A package requested on the command line.
#[derive(Debug)]
pub enum PackageSpec {
    /// A registry package, with the version or range asked for.
    Npm { name: String, requested: Option<String> },
    /// Any other kind of specification (a directory, a git repository…).
    Other { text: String },
}

/// The text of a specification: the package name, then `@` and the
/// requested version if there is one.
pub open spec fn spec_text(spec: PackageSpec) -> Seq<char> {
    match spec {
        PackageSpec::Npm { name, requested } => match requested {
            Some(r) => name@ + "@"@ + r@,
            None => name@,
        },
        PackageSpec::Other { text } => text@,
    }
}

impl PackageSpec {
    /// The text of a specification.
    pub fn to_text(&self) -> (s: String)
        ensures
            s@ == spec_text(*self),
    {
        match self {
            PackageSpec::Npm { name, requested } => match requested {
                Some(r) => {
                    let mut s = name.clone();
                    s.append("@");
                    s.append(r.as_str());
                    s
                },
                None => name.clone(),
            },
            PackageSpec::Other { text } => text.clone(),
        }
    }
}

/// The version shown for a registry package: the one requested, or
/// `latest`.
pub fn requested_label(spec: &PackageSpec) -> (s: Option<String>)
    ensures
        match *spec {
            PackageSpec::Npm { requested, .. } => s matches Some(t) && t@ == match requested {
                Some(r) => r@,
                None => "latest"@,
            },
            PackageSpec::Other { .. } => s is None,
        },
{
    match spec {
        PackageSpec::Npm { requested, .. } => match requested {
            Some(r) => Some(r.clone()),
            None => Some(String::from_str("latest")),
        },
        PackageSpec::Other { .. } => None,
    }
}

/// The registry address of a text.
pub open spec fn registry_url(text: Seq<char>) -> Seq<char> {
    "http://registry.voltpkg.com/"@ + text + ".sp"@
}

/// The registry address of a text.
pub fn registry_url_of(text: &str) -> (s: String)
    ensures
        s@ == registry_url(text@),
{
    let mut s = String::from_str("http://registry.voltpkg.com/");
    s.append(text);
    s.append(".sp");
    s
}

/// What to do with a registry answer.
#[derive(Debug)]
pub enum ResponseStep {
    /// The body holds the package: decode it.
    Accept,
    /// Give up with this error.
    Fail(VoltError),
    /// Ask again.
    Retry,
}

/// Decides what an HTTP status means on attempt number `retries` (counted
/// from zero): 200 is accepted; 429 and 400 fail at once; any other status
/// is retried until the last attempt, where 404 reports a missing package
/// and the rest an unknown error with the status code.
pub fn response_step(spec: &PackageSpec, status: u16, retries: u8) -> (r: ResponseStep)
    requires
        spec is Npm,
        retries <= MAX_RETRIES,
    ensures
        retries == MAX_RETRIES ==> !(r is Retry),
        status == 200 ==> r is Accept,
        status == 429 ==> (r matches ResponseStep::Fail(VoltError::TooManyRequests { url })
            && url@ == registry_url(spec_text(*spec))),
        status == 400 ==> (r matches ResponseStep::Fail(VoltError::BadRequest { url })
            && url@ == registry_url(spec_text(*spec))),
        status != 200 && status != 429 && status != 400 ==> {
            if retries < MAX_RETRIES {
                r is Retry
            } else if status == 404 {
                r matches ResponseStep::Fail(VoltError::PackageNotFound { url, package_name })
                    && url@ == registry_url(spec_text(*spec))
                    && package_name@ == spec_text(*spec)
            } else {
                r matches ResponseStep::Fail(VoltError::NetworkUnknownError { url, package_name, code })
                    && url@ == registry_url(spec->Npm_name@)
                    && package_name@ == spec_text(*spec)
                    && code@ == decimal(status as nat)
            }
        },
{
    if status == 200 {
        return ResponseStep::Accept;
    }
    let text = spec.to_text();
    if status == 429 {
        ResponseStep::Fail(VoltError::TooManyRequests { url: registry_url_of(text.as_str()) })
    } else if status == 400 {
        ResponseStep::Fail(VoltError::BadRequest { url: registry_url_of(text.as_str()) })
    } else if retries < MAX_RETRIES {
        ResponseStep::Retry
    } else if status == 404 {
        ResponseStep::Fail(
            VoltError::PackageNotFound { url: registry_url_of(text.as_str()), package_name: text },
        )
    } else {
        let name = match spec {
            PackageSpec::Npm { name, .. } => name.as_str(),
            PackageSpec::Other { text } => text.as_str(),
        };
        let url = registry_url_of(name);
        ResponseStep::Fail(
            VoltError::NetworkUnknownError {
                url,
                package_name: text,
                code: u64_to_decimal(status as u64),
            },
        )
    }
}

/// How the dependency tree of the requested packages is fetched.
#[derive(PartialEq, Eq, Structural, Clone, Copy, Debug)]
pub enum DepTreeMode {
    /// All packages at once, concurrently.
    Many,
    /// The single package alone.
    One,
}

/// How `count` requested packages (at least one) are fetched.
pub fn dep_tree_mode(count: usize) -> (m: DepTreeMode)
    requires
        count >= 1,
    ensures
        m == (if count > 1 { DepTreeMode::Many } else { DepTreeMode::One }),
{
    if count > 1 {
        DepTreeMode::Many
    } else {
        DepTreeMode::One
    }
}

/// Whether a package's peer dependency is already provided; no package
/// is ever considered so.
pub fn check_peer_dependency(_package_name: &str) -> (b: bool)
    ensures
        !b,
{
    false
}

} // verus!
