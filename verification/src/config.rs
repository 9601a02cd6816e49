//! The directories a command works in, and tarball digests.

use vstd::prelude::*;
use vstd::string::*;

use crate::errors::VoltError;
use crate::paths::{join_path, path_join, PathStyle};
use crate::text::{starts_with, text_equal};

verus! {

/// Where a command works: the project, the user's home, and the
/// directories and files derived from them.
#[derive(Debug)]
pub struct VoltConfig {
    pub current_dir: String,
    pub home_dir: String,
    pub node_modules_dir: String,
    pub volt_dir: String,
    pub lock_file_path: String,
    pub os: String,
}

/// The path convention of an operating system name as
/// `std::env::consts::OS` gives it.
pub open spec fn style_for_os(os: Seq<char>) -> PathStyle {
    if os == "windows"@ {
        PathStyle::Windows
    } else {
        PathStyle::Unix
    }
}

/// The path convention of an operating system name.
pub fn path_style_for_os(os: &str) -> (s: PathStyle)
    ensures
        s == style_for_os(os@),
{
    if text_equal(os, "windows") {
        PathStyle::Windows
    } else {
        PathStyle::Unix
    }
}

/// The digest algorithms an integrity string can name.
#[derive(PartialEq, Eq, Structural, Clone, Copy, Debug)]
pub enum Algorithm {
    Sha512,
    Sha384,
    Sha256,
    Sha1,
}

/// Lowercase hex of the SHA-1 digest of `data`.
pub uninterp spec fn sha1_hex(data: Seq<u8>) -> Seq<char>;

/// The SHA-512 integrity string of `data`: `sha512-` and the base64 of the
/// digest.
pub uninterp spec fn sha512_integrity(data: Seq<u8>) -> Seq<char>;

/// Calls `ssri::IntegrityOpts` with `Algorithm::Sha1` over `data` and
/// renders the result with `Integrity::to_hex`: the hex encoding of the
/// 20-byte digest, so 40 characters.
#[verifier::external_body]
fn ssri_sha1_hex(data: &[u8]) -> (s: String)
    ensures
        s@ == sha1_hex(data@),
        s@.len() == 40,
{
    let integrity = ssri::IntegrityOpts::new().algorithm(ssri::Algorithm::Sha1).chain(data).result();
    integrity.to_hex().1
}

/// Calls `ssri::IntegrityOpts` with `Algorithm::Sha512` over `data` and
/// renders the result with its `Display`, which writes the algorithm's
/// name, `-`, and the digest.
#[verifier::external_body]
fn ssri_sha512_integrity(data: &[u8]) -> (s: String)
    ensures
        s@ == sha512_integrity(data@),
        starts_with(s@, "sha512-"@),
{
    let integrity = ssri::IntegrityOpts::new().algorithm(ssri::Algorithm::Sha512).chain(data).result();
    integrity.to_string()
}

/// The integrity text `calc_hash` gives.
pub open spec fn tarball_hash(data: Seq<u8>, algorithm: Algorithm) -> Seq<char> {
    if algorithm == Algorithm::Sha1 {
        "sha1-"@ + sha1_hex(data)
    } else {
        sha512_integrity(data)
    }
}

impl VoltConfig {
    /// Builds the configuration from the current directory (or the error
    /// reading it gave), the home directory if one is known, and the
    /// operating system's name.
    pub fn initialize(
        current_dir: Result<String, String>,
        home_dir: Option<String>,
        os: String,
    ) -> (r: Result<VoltConfig, VoltError>)
        ensures
            match current_dir {
                Err(e) => r matches Err(VoltError::EnvironmentError { env, source })
                    && env@ == "CURRENT_DIRECTORY"@ && source@ == e@,
                Ok(cwd) => match home_dir {
                    None => r matches Err(VoltError::GetHomeDirError),
                    Some(home) => r matches Ok(c) && {
                        let style = style_for_os(os@);
                        &&& c.current_dir@ == cwd@
                        &&& c.home_dir@ == home@
                        &&& c.node_modules_dir@ == path_join(cwd@, "node_modules"@, style)
                        &&& c.volt_dir@ == path_join(home@, ".volt"@, style)
                        &&& c.lock_file_path@ == path_join(cwd@, "volt.lock"@, style)
                        &&& c.os@ == os@
                    },
                },
            },
    {
        let current_directory = match current_dir {
            Ok(d) => d,
            Err(e) => {
                return Err(
                    VoltError::EnvironmentError {
                        env: String::from_str("CURRENT_DIRECTORY"),
                        source: e,
                    },
                );
            },
        };
        let home_directory = match home_dir {
            Some(h) => h,
            None => {
                return Err(VoltError::GetHomeDirError);
            },
        };
        let style = path_style_for_os(os.as_str());
        let node_modules_directory = join_path(current_directory.as_str(), "node_modules", style);
        let volt_dir = join_path(home_directory.as_str(), ".volt", style);
        let lock_file_path = join_path(current_directory.as_str(), "volt.lock", style);
        Ok(
            VoltConfig {
                current_dir: current_directory,
                home_dir: home_directory,
                node_modules_dir: node_modules_directory,
                volt_dir,
                lock_file_path,
                os,
            },
        )
    }

    /// The integrity text of a tarball: for SHA-1, `sha1-` and the hex
    /// digest; for any other algorithm, the SHA-512 integrity string. The
    /// text always names the algorithm it was made with.
    pub fn calc_hash(data: &[u8], algorithm: Algorithm) -> (r: Result<String, VoltError>)
        ensures
            r matches Ok(s) && s@ == tarball_hash(data@, algorithm),
            r matches Ok(s) && (algorithm == Algorithm::Sha1 ==> starts_with(s@, "sha1-"@)),
            r matches Ok(s) && (algorithm != Algorithm::Sha1 ==> starts_with(s@, "sha512-"@)),
    {
        if algorithm == Algorithm::Sha1 {
            let hash = ssri_sha1_hex(data);
            let mut integrity = String::from_str("sha1-");
            integrity.append(hash.as_str());
            proof {
                reveal_strlit("sha1-");
                assert(integrity@.subrange(0, 5) =~= "sha1-"@);
            }
            Ok(integrity)
        } else {
            Ok(ssri_sha512_integrity(data))
        }
    }
}

/// The console mode bit that turns on virtual-terminal processing.
pub const ENABLE_VIRTUAL_TERMINAL_PROCESSING: u32 = 4u32;

/// The console mode to set so that colours show: the mode with
/// virtual-terminal processing added, or `None` when it is on already.
pub fn virtual_terminal_mode(mode: u32) -> (r: Option<u32>)
    ensures
        mode & ENABLE_VIRTUAL_TERMINAL_PROCESSING == 0 ==> r == Some(mode | ENABLE_VIRTUAL_TERMINAL_PROCESSING),
        mode & ENABLE_VIRTUAL_TERMINAL_PROCESSING != 0 ==> r is None,
{
    if mode & ENABLE_VIRTUAL_TERMINAL_PROCESSING == 0 {
        Some(mode | ENABLE_VIRTUAL_TERMINAL_PROCESSING)
    } else {
        None
    }
}

} // verus!
