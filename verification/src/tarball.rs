//! Package tarballs: checking a download against its integrity string,
//! inflating it, reading its entries, planning where each entry goes, and
//! the scripts for a package's binaries.

use vstd::prelude::*;
use vstd::string::*;
use vstd::utf8::{decode_utf8, encode_utf8, encode_utf8_decode_utf8, is_char_boundary};

use crate::config::{style_for_os, tarball_hash, Algorithm, VoltConfig};
use crate::paths::{
    join_path, parent_path, path_join, path_parent, paths_equal, same_path, texts, PathStyle,
};
use crate::text::{starts_with, text_equal, text_starts_with};

use std::io::Read;

verus! {

/// A package as the registry describes it.
#[derive(Debug)]
pub struct VoltPackage {
    pub name: String,
    pub version: String,
    pub tarball: String,
    pub integrity: String,
    /// The package's binaries, as (name, file) pairs in the order the
    /// registry's map yields them.
    pub bin: Option<Vec<(String, String)>>,
}

/// `name@version`.
pub open spec fn name_at_version(p: VoltPackage) -> Seq<char> {
    p.name@ + "@"@ + p.version@
}

impl VoltPackage {
    /// The directory the package is unpacked into, `name@version`.
    pub fn directory_name(&self) -> (s: String)
        ensures
            s@ == name_at_version(*self),
    {
        let mut s = self.name.clone();
        s.append("@");
        s.append(self.version.as_str());
        s
    }

    /// The key the package's file map is stored under, `name@version`.
    pub fn cacache_key(&self) -> (s: String)
        ensures
            s@ == name_at_version(*self),
    {
        self.directory_name()
    }
}

// ----- binary scripts -----

/// `s` with every occurrence of `pat` replaced by `rep`, scanning from the
/// left without overlaps, as `str::replace` does; an empty pattern occurs
/// before each character and at the end.
pub open spec fn replace_all(s: Seq<char>, pat: Seq<char>, rep: Seq<char>) -> Seq<char>
    decreases s.len(),
{
    if s.len() == 0 {
        if pat.len() == 0 {
            rep
        } else {
            s
        }
    } else if pat.len() == 0 {
        rep + seq![s[0]] + replace_all(s.drop_first(), pat, rep)
    } else if starts_with(s, pat) {
        rep + replace_all(s.skip(pat.len() as int), pat, rep)
    } else {
        seq![s[0]] + replace_all(s.drop_first(), pat, rep)
    }
}

/// `s` with every occurrence of `pat` replaced by `rep`.
pub fn replace_text(s: &str, pat: &str, rep: &str) -> (r: String)
    ensures
        r@ == replace_all(s@, pat@, rep@),
{
    let n = s.unicode_len();
    let m = pat.unicode_len();
    let mut r = String::new();
    let mut i: usize = 0;
    assert(s@.skip(0) =~= s@);
    assert(r@ + replace_all(s@, pat@, rep@) =~= replace_all(s@, pat@, rep@));
    while i < n
        invariant
            n == s@.len(),
            m == pat@.len(),
            i <= n,
            r@ + replace_all(s@.skip(i as int), pat@, rep@) == replace_all(s@, pat@, rep@),
        decreases n - i,
    {
        let rest = s.substring_char(i, n);
        assert(rest@ =~= s@.skip(i as int));
        let ghost tail = s@.skip(i as int);
        if m == 0 {
            let c = s.substring_char(i, i + 1);
            assert(c@ =~= seq![tail[0]]);
            assert(tail.drop_first() =~= s@.skip(i + 1));
            assert(r@ + rep@ + c@ + replace_all(s@.skip(i + 1), pat@, rep@) =~= r@ + replace_all(
                tail,
                pat@,
                rep@,
            ));
            r.append(rep);
            r.append(c);
            i = i + 1;
        } else if text_starts_with(rest, pat) {
            assert(tail.skip(m as int) =~= s@.skip(i + m));
            assert(r@ + rep@ + replace_all(s@.skip(i + m), pat@, rep@) =~= r@ + replace_all(
                tail,
                pat@,
                rep@,
            ));
            r.append(rep);
            i = i + m;
        } else {
            let c = s.substring_char(i, i + 1);
            assert(c@ =~= seq![tail[0]]);
            assert(tail.drop_first() =~= s@.skip(i + 1));
            assert(r@ + c@ + replace_all(s@.skip(i + 1), pat@, rep@) =~= r@ + replace_all(
                tail,
                pat@,
                rep@,
            ));
            r.append(c);
            i = i + 1;
        }
    }
    assert(s@.skip(n as int) =~= Seq::<char>::empty());
    if m == 0 {
        r.append(rep);
    } else {
        assert(r@ + replace_all(s@.skip(n as int), pat@, rep@) =~= r@);
    }
    r
}

/// The shell script for a binary: it runs node on file `file` of package
/// `name` in the store under `volt_dir`.
pub open spec fn unix_script(volt_dir: Seq<char>, name: Seq<char>, file: Seq<char>) -> Seq<char> {
    "\n            node  \""@ + volt_dir + "/.volt/"@ + name + "/"@ + file
        + "\" %*\n            "@
}

/// The command script for a binary, before the store path is put in: it
/// runs the node beside it when there is one, else the node on the path.
pub open spec fn windows_template(name: Seq<char>, file: Seq<char>) -> Seq<char> {
    "\n            @IF EXIST \"%~dp0\\node.exe\" (\n                \"%~dp0\\node.exe\"  \"%~dp0\\..\\"@
        + name + "\\"@ + file
        + "\" %*\n                ) ELSE (\n                    @SETLOCAL\n                    @SET PATHEXT=%PATHEXT:;.JS;=;%\n                    node  \"%~dp0\\..\\"@
        + name + "\\"@ + file + "\" %*\n                    )"@
}

/// The command script for a binary: the template with each `%~dp0\..`
/// replaced by the store path.
pub open spec fn windows_script(volt_dir: Seq<char>, name: Seq<char>, file: Seq<char>) -> Seq<char> {
    replace_all(windows_template(name, file), "%~dp0\\.."@, volt_dir)
}

/// A script file to write for a package's binary.
#[derive(Debug)]
pub struct BinScript {
    pub path: String,
    pub contents: String,
    /// Whether the file is made executable once created.
    pub executable: bool,
}

/// What `generate_script` calls for: a directory, then possibly a script.
#[derive(Debug)]
pub struct ScriptPlan {
    /// The directory created (with its parents) first.
    pub dir: String,
    /// The script for the package's first binary, when it has binaries.
    pub script: Option<BinScript>,
}

/// Generates the binary and other required scripts for the package: the
/// scripts directory, and for the first of the package's binaries a
/// script that runs node on that binary's file in the store. On Windows
/// this is `node_modules/.bin/<name>.cmd`, elsewhere an executable
/// `node_modules/scripts/<name>.sh`.
pub fn generate_script(config: &VoltConfig, package: &VoltPackage) -> (r: ScriptPlan)
    requires
        package.bin matches Some(v) ==> v.len() > 0,
    ensures
        r.dir@ == (if style_for_os(config.os@) == PathStyle::Windows {
            "node_modules/.bin"@
        } else {
            "node_modules/scripts"@
        }),
        match package.bin {
            None => r.script is None,
            Some(v) => r.script matches Some(sc) && {
                let name = v@[0].0@;
                let file = v@[0].1@;
                if style_for_os(config.os@) == PathStyle::Windows {
                    &&& sc.path@ == "node_modules/.bin/"@ + name + ".cmd"@
                    &&& sc.contents@ == windows_script(config.volt_dir@, name, file)
                    &&& !sc.executable
                } else {
                    &&& sc.path@ == "node_modules/scripts/"@ + name + ".sh"@
                    &&& sc.contents@ == unix_script(config.volt_dir@, name, file)
                    &&& sc.executable
                }
            },
        },
{
    let windows = crate::config::path_style_for_os(config.os.as_str()) == PathStyle::Windows;
    let dir = if windows {
        String::from_str("node_modules/.bin")
    } else {
        String::from_str("node_modules/scripts")
    };
    let script = match &package.bin {
        None => None,
        Some(v) => {
            let name = v[0].0.as_str();
            let file = v[0].1.as_str();
            if windows {
                let mut path = String::from_str("node_modules/.bin/");
                path.append(name);
                path.append(".cmd");
                let mut t = String::from_str(
                    "\n            @IF EXIST \"%~dp0\\node.exe\" (\n                \"%~dp0\\node.exe\"  \"%~dp0\\..\\",
                );
                t.append(name);
                t.append("\\");
                t.append(file);
                t.append(
                    "\" %*\n                ) ELSE (\n                    @SETLOCAL\n                    @SET PATHEXT=%PATHEXT:;.JS;=;%\n                    node  \"%~dp0\\..\\",
                );
                t.append(name);
                t.append("\\");
                t.append(file);
                t.append("\" %*\n                    )");
                let contents = replace_text(t.as_str(), "%~dp0\\..", config.volt_dir.as_str());
                Some(BinScript { path, contents, executable: false })
            } else {
                let mut path = String::from_str("node_modules/scripts/");
                path.append(name);
                path.append(".sh");
                let mut contents = String::from_str("\n            node  \"");
                contents.append(config.volt_dir.as_str());
                contents.append("/.volt/");
                contents.append(name);
                contents.append("/");
                contents.append(file);
                contents.append("\" %*\n            ");
                Some(BinScript { path, contents, executable: true })
            }
        },
    };
    ScriptPlan { dir, script }
}
// ----- integrity -----

/// The algorithm an integrity string is checked with: SHA-1 when it
/// starts with `sha1`, SHA-512 otherwise.
pub open spec fn integrity_algorithm(integrity: Seq<char>) -> Algorithm {
    if starts_with(integrity, "sha1"@) {
        Algorithm::Sha1
    } else {
        Algorithm::Sha512
    }
}

/// The algorithm an integrity string is checked with.
pub fn tarball_algorithm(integrity: &str) -> (a: Algorithm)
    ensures
        a == integrity_algorithm(integrity@),
{
    if text_starts_with(integrity, "sha1") {
        Algorithm::Sha1
    } else {
        Algorithm::Sha512
    }
}

/// The outcome of checking a download.
#[derive(Debug)]
pub enum TarballCheck {
    /// The digest matches the integrity string.
    Verified,
    /// The digest differs; this is the one computed.
    Mismatch { computed: String },
}

/// Checks downloaded bytes against the package's integrity string.
pub fn verify_tarball(bytes: &[u8], integrity: &str) -> (r: TarballCheck)
    ensures
        match r {
            TarballCheck::Verified => integrity@ == tarball_hash(bytes@, integrity_algorithm(integrity@)),
            TarballCheck::Mismatch { computed } => computed@ == tarball_hash(bytes@, integrity_algorithm(integrity@))
                && integrity@ != computed@,
        },
{
    let algorithm = tarball_algorithm(integrity);
    let computed = match VoltConfig::calc_hash(bytes, algorithm) {
        Ok(h) => h,
        Err(_) => String::new(),
    };
    if text_equal(integrity, computed.as_str()) {
        TarballCheck::Verified
    } else {
        TarballCheck::Mismatch { computed }
    }
}

// ----- inflating -----

/// What libdeflate's gzip decompression writes when given room for
/// `capacity` bytes, or `None` when it reports an error.
pub uninterp spec fn gzip_inflate(data: Seq<u8>, capacity: nat) -> Option<Seq<u8>>;

/// The little-endian number in the four bytes of `data` from `at` on.
pub open spec fn le32_at(data: Seq<u8>, at: int) -> nat {
    (data[at] as nat) + 256 * (data[at + 1] as nat) + 65536 * (data[at + 2] as nat) + 16777216 * (
    data[at + 3] as nat)
}

/// Calls `libdeflater::Decompressor::gzip_decompress` with an output
/// buffer of `capacity` zero bytes and keeps the bytes it reports having
/// written, which fit in the buffer. libdeflate accepts a member only when
/// it holds a ten-byte header and an eight-byte trailer, and when the size
/// in the trailer that follows the compressed stream equals the number of
/// bytes written, modulo 2^32. Where that trailer stands depends on where
/// the compressed stream ends, which is not stated; it is the last eight
/// bytes when nothing follows the member.
#[verifier::external_body]
fn libdeflate_gzip(data: &[u8], capacity: usize) -> (r: Option<Vec<u8>>)
    ensures
        match r {
            Some(v) => {
                &&& gzip_inflate(data@, capacity as nat) == Some(v@)
                &&& v.len() <= capacity
                &&& data.len() >= 18
                &&& exists|p: int|
                    10 <= p && p + 8 <= data.len() && #[trigger] le32_at(data@, p + 4) == (v.len() as int)
                        % 4294967296int
            },
            None => gzip_inflate(data@, capacity as nat) is None,
        },
{
    let mut out = vec![0u8; capacity];
    let n = libdeflater::Decompressor::new().gzip_decompress(data, &mut out).ok()?;
    out.truncate(n);
    Some(out)
}

/// The size a gzip member records in its last four bytes (little endian).
pub open spec fn gzip_isize(data: Seq<u8>) -> nat {
    le32_at(data, data.len() - 4)
}

/// The tarball `decompress_tarball` gives: the inflated bytes in a buffer
/// of the recorded size, the rest of it zero.
pub open spec fn padded(written: Seq<u8>, size: nat) -> Seq<u8> {
    written + Seq::new((size - written.len()) as nat, |i: int| 0u8)
}

/// The recorded size of a gzip member.
fn read_isize(data: &[u8]) -> (n: usize)
    requires
        data.len() >= 4,
    ensures
        n as nat == gzip_isize(data@),
{
    let k = data.len();
    let total: u64 = data[k - 4] as u64 + 256 * (data[k - 3] as u64) + 65536 * (data[k - 2] as u64)
        + 16777216 * (data[k - 1] as u64);
    assert(total <= 0xffff_ffff);
    proof {
        assert(usize::MAX >= 0xffff_ffff);
    }
    total as usize
}

/// Pads `written` with zeros up to `size` bytes.
fn pad_zeros(written: Vec<u8>, size: usize) -> (r: Vec<u8>)
    requires
        written.len() <= size,
    ensures
        r@ == padded(written@, size as nat),
{
    let mut r = written;
    let ghost w = r@;
    while r.len() < size
        invariant
            w.len() <= r.len() <= size,
            r@ == padded(w, (r.len()) as nat),
        decreases size - r.len(),
    {
        r.push(0u8);
        assert(r@ =~= padded(w, r.len() as nat));
    }
    r
}

/// Inflates a gzip-compressed tarball into a buffer of the size its
/// trailer records.
pub fn decompress_tarball(gz_data: &[u8]) -> (r: Vec<u8>)
    requires
        gz_data.len() >= 4,
        gzip_inflate(gz_data@, gzip_isize(gz_data@)) is Some,
    ensures
        r@ == padded(gzip_inflate(gz_data@, gzip_isize(gz_data@))->0, gzip_isize(gz_data@)),
        r.len() == gzip_isize(gz_data@),
{
    let size = read_isize(gz_data);
    let written = libdeflate_gzip(gz_data, size).unwrap();
    pad_zeros(written, size)
}

/// When the inflated bytes fill the size the input's last four bytes
/// record (as they do for a single gzip member with nothing after it,
/// whose own trailer libdeflate checks), the tarball is exactly those
/// bytes.
pub proof fn lemma_tarball_is_inflated_bytes(gz_data: Seq<u8>, inflated: Seq<u8>)
    requires
        gz_data.len() >= 4,
        gzip_inflate(gz_data, gzip_isize(gz_data)) == Some(inflated),
        inflated.len() == gzip_isize(gz_data),
    ensures
        padded(gzip_inflate(gz_data, gzip_isize(gz_data))->0, gzip_isize(gz_data)) == inflated,
{
    assert(padded(inflated, gzip_isize(gz_data)) =~= inflated);
}

/// Inflates a gzip-compressed tarball, or gives `None` when it is too
/// short to hold a trailer or does not inflate.
pub fn try_decompress_tarball(gz_data: &[u8]) -> (r: Option<Vec<u8>>)
    ensures
        match r {
            Some(v) => gz_data.len() >= 4 && gzip_inflate(gz_data@, gzip_isize(gz_data@)) is Some
                && v@ == padded(gzip_inflate(gz_data@, gzip_isize(gz_data@))->0, gzip_isize(gz_data@)),
            None => gz_data.len() < 4 || gzip_inflate(gz_data@, gzip_isize(gz_data@)) is None,
        },
{
    if gz_data.len() < 4 {
        return None;
    }
    let size = read_isize(gz_data);
    if libdeflate_gzip(gz_data, size).is_some() {
        Some(decompress_tarball(gz_data))
    } else {
        None
    }
}

// ----- reading entries -----

/// One entry of a tar archive: its path (absent when it is not valid
/// UTF-8), the size its header records, and the bytes read from it.
#[derive(Debug)]
pub struct TarEntry {
    pub path: Option<String>,
    pub size: u64,
    pub contents: Vec<u8>,
}

/// The values of a tar entry.
pub struct TarEntryView {
    pub path: Option<Seq<char>>,
    pub size: u64,
    pub contents: Seq<u8>,
}

/// The values of a tar entry.
pub open spec fn entry_view(e: TarEntry) -> TarEntryView {
    TarEntryView {
        path: match e.path {
            Some(p) => Some(p@),
            None => None,
        },
        size: e.size,
        contents: e.contents@,
    }
}

/// What reading an archive gave: the entries read, in order, up to the
/// first error, and that error's text.
#[derive(Debug)]
pub struct TarRead {
    pub entries: Vec<TarEntry>,
    pub error: Option<String>,
}

/// The entries the `tar` crate reads from an in-memory archive before it
/// stops, and the text of the error it stops on, if any.
pub uninterp spec fn tar_archive(data: Seq<u8>) -> (Seq<TarEntryView>, Option<Seq<char>>);

/// The values of what `read_tar_entries` returns.
pub open spec fn read_view(r: TarRead) -> (Seq<TarEntryView>, Option<Seq<char>>) {
    (
        r.entries@.map_values(|e: TarEntry| entry_view(e)),
        match r.error {
            Some(e) => Some(e@),
            None => None,
        },
    )
}

/// Walks `tar::Archive::entries` over the bytes and, for each entry,
/// records `Entry::size`, reads it to its end, and takes `Entry::path` as
/// text when it is UTF-8. An I/O error ends the walk; the entries read
/// before it are kept, with its text.
#[verifier::external_body]
fn read_tar_entries(data: &[u8]) -> (r: TarRead)
    ensures
        read_view(r) == tar_archive(data@),
{
    let mut entries = Vec::new();
    let walk = (|| -> std::io::Result<()> {
        for entry in tar::Archive::new(std::io::Cursor::new(data)).entries()? {
            let mut entry = entry?;
            let (size, mut contents) = (entry.size(), Vec::new());
            entry.read_to_end(&mut contents)?;
            let path = entry.path()?.to_str().map(|s| s.to_string());
            entries.push(TarEntry { path, size, contents });
        }
        Ok(())
    })();
    TarRead { entries, error: walk.err().map(|e| e.to_string()) }
}

/// The entries of an inflated tarball, up to the first error reading it.
pub fn tarball_entries(data: &[u8]) -> (r: TarRead)
    ensures
        read_view(r) == tar_archive(data@),
{
    read_tar_entries(data)
}

/// The bytes stored for an entry: a buffer of the recorded size, zeroed,
/// followed by the bytes read from the entry.
pub open spec fn entry_buffer(size: nat, contents: Seq<u8>) -> Seq<u8> {
    Seq::new(size, |i: int| 0u8) + contents
}

/// The bytes stored for an entry.
pub fn entry_bytes(entry: &TarEntry) -> (r: Vec<u8>)
    requires
        entry.size <= usize::MAX,
        entry.size + entry.contents.len() <= usize::MAX,
    ensures
        r@ == entry_buffer(entry.size as nat, entry.contents@),
{
    let size = entry.size as usize;
    let mut r: Vec<u8> = Vec::new();
    while r.len() < size
        invariant
            r.len() <= size,
            r@ == Seq::new(r.len() as nat, |i: int| 0u8),
        decreases size - r.len(),
    {
        r.push(0u8);
        assert(r@ =~= Seq::new(r.len() as nat, |i: int| 0u8));
    }
    let mut i: usize = 0;
    while i < entry.contents.len()
        invariant
            size == entry.size,
            size + entry.contents.len() <= usize::MAX,
            i <= entry.contents.len(),
            r@ == Seq::new(size as nat, |k: int| 0u8) + entry.contents@.take(i as int),
        decreases entry.contents.len() - i,
    {
        r.push(entry.contents[i]);
        assert(entry.contents@.take(i + 1) =~= entry.contents@.take(i as int).push(entry.contents@[i as int]));
        assert(r@ =~= Seq::new(size as nat, |k: int| 0u8) + entry.contents@.take(i + 1));
        i = i + 1;
    }
    assert(entry.contents@.take(entry.contents.len() as int) =~= entry.contents@);
    r
}

// ----- where entries go -----

/// The position of the first `c` in `s`, or -1.
pub open spec fn first_index(s: Seq<char>, c: char) -> int
    decreases s.len(),
{
    if s.len() == 0 {
        -1
    } else if s[0] == c {
        0
    } else {
        let k = first_index(s.drop_first(), c);
        if k < 0 { -1 } else { k + 1 }
    }
}

proof fn lemma_first_index(s: Seq<char>, c: char, k: int)
    requires
        0 <= k <= s.len(),
        forall|j: int| 0 <= j < k ==> s[j] != c,
        k < s.len() ==> s[k] == c,
    ensures
        first_index(s, c) == (if k == s.len() { -1 } else { k }),
    decreases k,
{
    if k > 0 {
        lemma_first_index(s.drop_first(), c, k - 1);
    }
}

/// The path an entry is unpacked to can be cut after its first `/`: the
/// cut falls between characters of the UTF-8 text. (The cut is made at
/// the byte offset equal to the character position of that `/` plus one.)
pub open spec fn entry_cut_ok(path: Seq<char>) -> bool {
    let k = first_index(path, '/');
    k < 0 || is_char_boundary(encode_utf8(path), k + 1)
}

/// Whether an entry's path can be cut after its first `/` (see
/// [`entry_cut_ok`]).
pub fn entry_cut_allowed(path: &str) -> (b: bool)
    ensures
        b == entry_cut_ok(path@),
{
    let len = path.unicode_len();
    let mut k: usize = 0;
    while k < len && path.get_char(k) != '/'
        invariant
            len == path@.len(),
            k <= len,
            forall|j: int| 0 <= j < k ==> path@[j] != '/',
        decreases len - k,
    {
        k = k + 1;
    }
    proof {
        lemma_first_index(path@, '/', k as int);
    }
    if k == len {
        true
    } else {
        path.is_char_boundary(k + 1)
    }
}

/// An entry's path without its first component: the text from the byte
/// after the first `/`'s character position on, or all of it when there
/// is no `/`.
pub open spec fn entry_rest(path: Seq<char>) -> Seq<char> {
    let k = first_index(path, '/');
    if k < 0 {
        path
    } else {
        decode_utf8(encode_utf8(path).subrange(k + 1, encode_utf8(path).len() as int))
    }
}

/// An entry's path without its first component (see [`entry_rest`]).
pub fn strip_first_component(path: &str) -> (r: &str)
    requires
        entry_cut_ok(path@),
    ensures
        r@ == entry_rest(path@),
{
    let len = path.unicode_len();
    let mut k: usize = 0;
    while k < len && path.get_char(k) != '/'
        invariant
            len == path@.len(),
            k <= len,
            forall|j: int| 0 <= j < k ==> path@[j] != '/',
        decreases len - k,
    {
        k = k + 1;
    }
    proof {
        lemma_first_index(path@, '/', k as int);
    }
    if k == len {
        path
    } else {
        let (_, rest) = path.split_at(k + 1);
        proof {
            encode_utf8_decode_utf8(rest@);
        }
        rest
    }
}

/// The directory a package's entries are unpacked into:
/// `node_modules/.volt/name@version`.
pub fn package_directory(node_modules_dir: &str, directory_name: &str, style: PathStyle) -> (r: String)
    ensures
        r@ == path_join(path_join(node_modules_dir@, ".volt"@, style), directory_name@, style),
{
    let volt = join_path(node_modules_dir, ".volt", style);
    join_path(volt.as_str(), directory_name, style)
}

/// The place an entry is unpacked to: its path, without the first
/// component, under the package directory.
pub open spec fn target_of(package_dir: Seq<char>, path: Seq<char>, style: PathStyle) -> Seq<char> {
    path_join(package_dir, entry_rest(path), style)
}

/// The place an entry is unpacked to (see [`target_of`]).
pub fn entry_target(package_dir: &str, entry_path: &str, style: PathStyle) -> (r: String)
    requires
        entry_cut_ok(entry_path@),
    ensures
        r@ == target_of(package_dir@, entry_path@, style),
{
    let rest = strip_first_component(entry_path);
    join_path(package_dir, rest, style)
}

// ----- which directories to create -----

/// The directories recorded while unpacking a package: the package
/// directory is recorded before each entry, and an entry's parent when it
/// is created.
#[derive(Debug)]
pub struct Extraction {
    pub created: Vec<String>,
}

/// Whether `v` holds a path equal to `p`.
pub open spec fn holds_path(v: Seq<Seq<char>>, p: Seq<char>, style: PathStyle) -> bool {
    exists|k: int| 0 <= k < v.len() && same_path(#[trigger] v[k], p, style)
}

/// Records the package directory, then decides whether the parent of the
/// next entry is created: exactly when no recorded path equals it.
pub open spec fn record_step(
    created: Seq<Seq<char>>,
    package_dir: Seq<char>,
    parent: Seq<char>,
    style: PathStyle,
) -> (Seq<Seq<char>>, bool) {
    let with_dir = created.push(package_dir);
    if holds_path(with_dir, parent, style) {
        (with_dir, false)
    } else {
        (with_dir.push(parent), true)
    }
}

/// Whether `v` holds a path equal to `p`.
fn holds_equal_path(v: &Vec<String>, p: &str, style: PathStyle) -> (b: bool)
    ensures
        b == holds_path(texts(v@), p@, style),
{
    let mut i: usize = 0;
    while i < v.len()
        invariant
            i <= v.len(),
            forall|j: int| 0 <= j < i ==> !same_path(v@[j]@, p@, style),
        decreases v.len() - i,
    {
        if paths_equal(v[i].as_str(), p, style) {
            assert(texts(v@)[i as int] == v@[i as int]@);
            return true;
        }
        i = i + 1;
    }
    assert forall|k: int| 0 <= k < texts(v@).len() implies !same_path(
        #[trigger] texts(v@)[k],
        p@,
        style,
    ) by {
        assert(texts(v@)[k] == v@[k]@);
    }
    false
}

impl Extraction {
    /// Nothing recorded yet.
    pub fn new() -> (e: Extraction)
        ensures
            e.created@.len() == 0,
    {
        Extraction { created: Vec::new() }
    }

    /// Records the package directory and tells whether `parent`, the
    /// parent of the next entry's target, must be created.
    pub fn record(&mut self, package_dir: &str, parent: &str, style: PathStyle) -> (create: bool)
        ensures
            (texts(final(self).created@), create) == record_step(
                texts(old(self).created@),
                package_dir@,
                parent@,
                style,
            ),
    {
        self.created.push(String::from_str(package_dir));
        let ghost with_dir = texts(self.created@);
        assert(with_dir =~= texts(old(self).created@).push(package_dir@));
        if holds_equal_path(&self.created, parent, style) {
            false
        } else {
            self.created.push(String::from_str(parent));
            assert(texts(self.created@) =~= with_dir.push(parent@));
            true
        }
    }
}

/// A directory is created at most once while a package is unpacked, and
/// the package directory is never created as an entry's parent.
pub proof fn lemma_created_once(
    created: Seq<Seq<char>>,
    package_dir: Seq<char>,
    parent: Seq<char>,
    next_dir: Seq<char>,
    next_parent: Seq<char>,
    style: PathStyle,
)
    ensures
        record_step(created, package_dir, parent, style).1 ==> !same_path(parent, package_dir, style),
        same_path(next_parent, parent, style) ==> !record_step(
            record_step(created, package_dir, parent, style).0,
            next_dir,
            next_parent,
            style,
        ).1,
{
    let with_dir = created.push(package_dir);
    assert(same_path(with_dir[with_dir.len() - 1], package_dir, style));
    let after = record_step(created, package_dir, parent, style).0;
    let next = after.push(next_dir);
    if same_path(next_parent, parent, style) {
        if holds_path(with_dir, parent, style) {
            let k = choose|k: int| 0 <= k < with_dir.len() && same_path(#[trigger] with_dir[k], parent, style);
            assert(same_path(next[k], next_parent, style));
        } else {
            assert(same_path(next[after.len() - 1], next_parent, style));
        }
    }
}

// ----- the whole tarball -----

/// Where one entry of a tarball goes.
#[derive(Debug)]
pub struct EntryPlan {
    /// The place the entry is unpacked to.
    pub target: String,
    /// The target's parent; absent when the target has none.
    pub parent: Option<String>,
    /// Whether the parent is created before the entry is stored.
    pub create: bool,
}

/// The parent of the place an entry is unpacked to.
pub open spec fn parent_of(package_dir: Seq<char>, path: Seq<char>, style: PathStyle) -> Option<
    Seq<char>,
> {
    path_parent(target_of(package_dir, path, style), style)
}

/// Whether the entry with path `path` has a parent equal to `d`.
pub open spec fn parent_is(package_dir: Seq<char>, path: Seq<char>, d: Seq<char>, style: PathStyle) -> bool {
    match parent_of(package_dir, path, style) {
        Some(e) => same_path(e, d, style),
        None => false,
    }
}

/// Whether the parent of entry `i` is created: it has one, it is not the
/// package directory, and no earlier entry has the same parent.
pub open spec fn creates(package_dir: Seq<char>, paths: Seq<Seq<char>>, i: int, style: PathStyle) -> bool {
    match parent_of(package_dir, paths[i], style) {
        Some(d) => !same_path(d, package_dir, style) && forall|j: int|
            0 <= j < i ==> !#[trigger] parent_is(package_dir, paths[j], d, style),
        None => false,
    }
}

/// The value of an optional string.
pub open spec fn opt_text(o: Option<String>) -> Option<Seq<char>> {
    match o {
        Some(s) => Some(s@),
        None => None,
    }
}

/// Every recorded directory is the package directory or the parent of one
/// of the first `i` entries.
spec fn recorded_ok(c: Seq<Seq<char>>, pd: Seq<char>, ps: Seq<Seq<char>>, i: int, style: PathStyle) -> bool {
    forall|k: int|
        0 <= k < c.len() ==> same_path(#[trigger] c[k], pd, style) || exists|j: int|
            0 <= j < i && #[trigger] parent_is(pd, ps[j], c[k], style)
}

/// The parents of the first `i` entries are all recorded.
spec fn parents_held(c: Seq<Seq<char>>, pd: Seq<char>, ps: Seq<Seq<char>>, i: int, style: PathStyle) -> bool {
    forall|j: int|
        0 <= j < i ==> match #[trigger] parent_of(pd, ps[j], style) {
            Some(e) => holds_path(c, e, style),
            None => true,
        }
}

/// One step of the plan keeps what is recorded in line with the entries
/// planned, and decides creation as [`creates`] says.
proof fn lemma_plan_step(
    pd: Seq<char>,
    ps: Seq<Seq<char>>,
    i: int,
    style: PathStyle,
    old_c: Seq<Seq<char>>,
    new_c: Seq<Seq<char>>,
    parent: Option<Seq<char>>,
    create: bool,
)
    requires
        0 <= i < ps.len(),
        parent == parent_of(pd, ps[i], style),
        recorded_ok(old_c, pd, ps, i, style),
        parents_held(old_c, pd, ps, i, style),
        match parent {
            Some(d) => (new_c, create) == record_step(old_c, pd, d, style),
            None => new_c == old_c.push(pd) && !create,
        },
    ensures
        recorded_ok(new_c, pd, ps, i + 1, style),
        parents_held(new_c, pd, ps, i + 1, style),
        create == creates(pd, ps, i, style),
{
    let with_dir = old_c.push(pd);
    assert(same_path(with_dir[old_c.len() as int], pd, style));
    // what was recorded before stays recorded
    assert forall|j: int| 0 <= j < i implies match #[trigger] parent_of(pd, ps[j], style) {
        Some(e) => holds_path(new_c, e, style),
        None => true,
    } by {
        if let Some(e) = parent_of(pd, ps[j], style) {
            assert(holds_path(old_c, e, style));
            let k = choose|k: int| 0 <= k < old_c.len() && same_path(#[trigger] old_c[k], e, style);
            assert(new_c[k] == old_c[k]);
        }
    }
    assert forall|k: int| 0 <= k < new_c.len() implies same_path(#[trigger] new_c[k], pd, style)
        || exists|j: int| 0 <= j < i + 1 && #[trigger] parent_is(pd, ps[j], new_c[k], style) by {
        if k < old_c.len() {
            assert(new_c[k] == old_c[k]);
            if !same_path(old_c[k], pd, style) {
                let j = choose|j: int| 0 <= j < i && #[trigger] parent_is(pd, ps[j], old_c[k], style);
                assert(parent_is(pd, ps[j], new_c[k], style));
            }
        } else if k == old_c.len() {
            assert(new_c[k] == pd);
        } else {
            assert(parent_is(pd, ps[i], new_c[k], style));
        }
    }
    if let Some(d) = parent {
        // the parent is held already exactly when it is the package
        // directory or the parent of an earlier entry
        if holds_path(with_dir, d, style) {
            let k = choose|k: int| 0 <= k < with_dir.len() && same_path(#[trigger] with_dir[k], d, style);
            if k < old_c.len() {
                assert(with_dir[k] == old_c[k]);
                if !same_path(old_c[k], pd, style) {
                    let j = choose|j: int| 0 <= j < i && #[trigger] parent_is(pd, ps[j], old_c[k], style);
                    assert(parent_is(pd, ps[j], d, style));
                }
            }
            assert(!creates(pd, ps, i, style));
            assert(holds_path(new_c, d, style));
        } else {
            assert forall|j: int| 0 <= j < i implies !#[trigger] parent_is(pd, ps[j], d, style) by {
                if parent_is(pd, ps[j], d, style) {
                    let e = parent_of(pd, ps[j], style)->0;
                    assert(holds_path(old_c, e, style));
                    let k = choose|k: int| 0 <= k < old_c.len() && same_path(#[trigger] old_c[k], e, style);
                    assert(same_path(with_dir[k], d, style));
                }
            }
            assert(same_path(new_c[with_dir.len() as int], d, style));
        }
    }
    assert forall|j: int| 0 <= j < i + 1 implies match #[trigger] parent_of(pd, ps[j], style) {
        Some(e) => holds_path(new_c, e, style),
        None => true,
    } by {
        if j < i {
            assert(match parent_of(pd, ps[j], style) {
                Some(e) => holds_path(new_c, e, style),
                None => true,
            });
        }
    }
}

/// Whether an entry can be unpacked: its path is UTF-8 and can be cut
/// after its first `/`.
pub open spec fn unpackable(e: TarEntryView) -> bool {
    e.path matches Some(p) && entry_cut_ok(p)
}

/// Whether an entry's path is the text `t`, which can be cut after its
/// first `/`.
pub open spec fn unpacked_as(e: TarEntry, t: String) -> bool {
    entry_view(e).path == Some(t@) && entry_cut_ok(t@)
}

/// The paths of the entries that are unpacked: those before the first
/// entry that cannot be.
pub fn unpackable_paths(entries: &Vec<TarEntry>) -> (r: Vec<String>)
    ensures
        r.len() <= entries.len(),
        forall|i: int| 0 <= i < r.len() ==> unpacked_as(entries@[i], #[trigger] r@[i]),
        r.len() < entries.len() ==> !unpackable(entry_view(entries@[r.len() as int])),
{
    let mut r: Vec<String> = Vec::new();
    while r.len() < entries.len()
        invariant
            r.len() <= entries.len(),
            forall|i: int| 0 <= i < r.len() ==> unpacked_as(entries@[i], #[trigger] r@[i]),
        decreases entries.len() - r.len(),
    {
        let i = r.len();
        match &entries[i].path {
            Some(p) => {
                if !entry_cut_allowed(p.as_str()) {
                    return r;
                }
                let ghost old_r = r@;
                r.push(String::from_str(p.as_str()));
                assert forall|j: int| 0 <= j < r.len() implies unpacked_as(entries@[j], #[trigger] r@[j]) by {
                    if j < i {
                        assert(r@[j] == old_r[j]);
                    }
                }
            },
            None => {
                return r;
            },
        }
    }
    r
}

/// Plans the unpacking of a package's entries, in order: each entry's
/// target, its parent, and whether the parent is created before the entry
/// is stored.
pub fn plan_extraction(package_dir: &str, paths: &Vec<String>, style: PathStyle) -> (r: Vec<EntryPlan>)
    requires
        forall|i: int| 0 <= i < paths.len() ==> entry_cut_ok(#[trigger] paths@[i]@),
    ensures
        r.len() == paths.len(),
        forall|i: int|
            0 <= i < paths.len() ==> {
                &&& (#[trigger] r@[i]).target@ == target_of(package_dir@, paths@[i]@, style)
                &&& opt_text(r@[i].parent) == parent_of(package_dir@, paths@[i]@, style)
                &&& r@[i].create == creates(package_dir@, texts(paths@), i, style)
            },
{
    let ghost ps = texts(paths@);
    let ghost pd = package_dir@;
    let mut ext = Extraction::new();
    let mut r: Vec<EntryPlan> = Vec::new();
    let mut i: usize = 0;
    while i < paths.len()
        invariant
            i <= paths.len(),
            ps == texts(paths@),
            pd == package_dir@,
            forall|k: int| 0 <= k < paths.len() ==> entry_cut_ok(#[trigger] paths@[k]@),
            r.len() == i,
            forall|k: int|
                0 <= k < i ==> {
                    &&& (#[trigger] r@[k]).target@ == target_of(pd, ps[k], style)
                    &&& opt_text(r@[k].parent) == parent_of(pd, ps[k], style)
                    &&& r@[k].create == creates(pd, ps, k, style)
                },
            recorded_ok(texts(ext.created@), pd, ps, i as int, style),
            parents_held(texts(ext.created@), pd, ps, i as int, style),
        decreases paths.len() - i,
    {
        assert(ps[i as int] == paths@[i as int]@);
        let target = entry_target(package_dir, paths[i].as_str(), style);
        let parent = parent_path(target.as_str(), style);
        let ghost old_created = texts(ext.created@);
        let create = match &parent {
            Some(d) => ext.record(package_dir, d.as_str(), style),
            None => {
                ext.created.push(String::from_str(package_dir));
                assert(texts(ext.created@) =~= old_created.push(pd));
                false
            },
        };
        proof {
            lemma_plan_step(pd, ps, i as int, style, old_created, texts(ext.created@), opt_text(parent), create);
        }
        r.push(EntryPlan { target, parent, create });
        i = i + 1;
    }
    r
}

/// While a package is unpacked no directory is created twice: two entries
/// whose parents are both created have different parents.
pub proof fn lemma_extraction_creates_once(
    package_dir: Seq<char>,
    paths: Seq<Seq<char>>,
    style: PathStyle,
    i: int,
    j: int,
)
    requires
        0 <= i < j < paths.len(),
        creates(package_dir, paths, i, style),
        creates(package_dir, paths, j, style),
    ensures
        !same_path(
            parent_of(package_dir, paths[i], style)->0,
            parent_of(package_dir, paths[j], style)->0,
            style,
        ),
{
    assert(!parent_is(package_dir, paths[i], parent_of(package_dir, paths[j], style)->0, style));
}

/// Every entry's parent exists when the entry is stored: it is the package
/// directory, or it was created for that entry or an earlier one.
pub proof fn lemma_parent_created(package_dir: Seq<char>, paths: Seq<Seq<char>>, style: PathStyle, i: int)
    requires
        0 <= i < paths.len(),
        parent_of(package_dir, paths[i], style) is Some,
    ensures
        same_path(parent_of(package_dir, paths[i], style)->0, package_dir, style) || exists|j: int|
            0 <= j <= i && creates(package_dir, paths, j, style) && #[trigger] parent_is(
                package_dir,
                paths[j],
                parent_of(package_dir, paths[i], style)->0,
                style,
            ),
    decreases i,
{
    let d = parent_of(package_dir, paths[i], style)->0;
    assert(parent_is(package_dir, paths[i], d, style));
    if !same_path(d, package_dir, style) && !creates(package_dir, paths, i, style) {
        let j0 = choose|j: int| 0 <= j < i && #[trigger] parent_is(package_dir, paths[j], d, style);
        lemma_parent_created(package_dir, paths, style, j0);
        let e = parent_of(package_dir, paths[j0], style)->0;
        if !same_path(e, package_dir, style) {
            let j = choose|j: int|
                0 <= j <= j0 && creates(package_dir, paths, j, style) && #[trigger] parent_is(
                    package_dir,
                    paths[j],
                    e,
                    style,
                );
            assert(parent_is(package_dir, paths[j], d, style));
        }
    }
}

} // verus!
