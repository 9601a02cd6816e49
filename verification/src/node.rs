//! Managing local node versions: which release a request names, where it
//! is downloaded from and unpacked to, and how it is put on the `PATH`.

use vstd::prelude::*;
use vstd::string::*;

use crate::paths::{join_path, path_join, PathStyle};
use crate::semver::{
    compare_versions, lemma_version_order_flip, lemma_version_order_refl,
    lemma_version_order_trans, lemma_version_text_slash_free, slash_free, version_le, version_order, version_text, version_to_string,
    Identifier, Precedence, Version, VersionView,
};
use crate::text::{
    after_last, contains_text, ends_with, strip_suffix, text_after_last, text_contains,
    text_equal,
};

use node_semver::Identifier as SemverIdentifier;

verus! {

/// The operating systems node is built for.
#[derive(PartialEq, Eq, Structural, Clone, Copy, Debug)]
pub enum Os {
    Windows,
    Macos,
    Linux,
    Unknown,
}

/// The processor architectures node is built for.
#[derive(PartialEq, Eq, Structural, Clone, Copy, Debug)]
pub enum Arch {
    X86,
    X64,
    Unknown,
}

/// The name node's release files use for an operating system.
pub open spec fn os_name(os: Os) -> Seq<char> {
    match os {
        Os::Windows => "win"@,
        Os::Macos => "darwin"@,
        Os::Linux => "linux"@,
        Os::Unknown => Seq::empty(),
    }
}

/// The name node's release files use for an architecture.
pub open spec fn arch_name(arch: Arch) -> Seq<char> {
    match arch {
        Arch::X86 => "x86"@,
        Arch::X64 => "x64"@,
        Arch::Unknown => Seq::empty(),
    }
}

impl Os {
    /// The name of a known operating system in node's file names.
    pub fn name(&self) -> (s: &'static str)
        requires
            *self != Os::Unknown,
        ensures
            s@ == os_name(*self),
    {
        match self {
            Os::Windows => "win",
            Os::Macos => "darwin",
            _ => "linux",
        }
    }
}

impl Arch {
    /// The name of a known architecture in node's file names.
    pub fn name(&self) -> (s: &'static str)
        requires
            *self != Arch::Unknown,
        ensures
            s@ == arch_name(*self),
    {
        match self {
            Arch::X86 => "x86",
            _ => "x64",
        }
    }
}

/// The `lts` field of a release: `false`, or the name of the LTS line.
#[derive(Debug)]
pub enum Lts {
    No(bool),
    Yes(String),
}

impl Lts {
    /// The LTS line's name, if the release belongs to one.
    pub fn into_option(self) -> (r: Option<String>)
        ensures
            match self {
                Lts::No(_) => r is None,
                Lts::Yes(x) => r == Some(x),
            },
    {
        match self {
            Lts::No(_) => None,
            Lts::Yes(x) => Some(x),
        }
    }
}

/// One entry of the node release index.
#[derive(Debug)]
pub struct NodeVersion {
    pub version: Version,
    pub lts: Option<String>,
    pub files: Vec<String>,
}

/// The `node` command.
#[derive(Clone, Copy, Debug)]
pub struct Node {}

/// The subcommands of `node`.
#[derive(PartialEq, Eq, Structural, Clone, Copy, Debug)]
pub enum NodeSubcommand {
    Use,
    Install,
    Remove,
    Other,
}

impl Node {
    /// Which subcommand a name selects.
    pub fn subcommand(name: &str) -> (c: NodeSubcommand)
        ensures
            c == (if name@ == "use"@ {
                NodeSubcommand::Use
            } else if name@ == "install"@ {
                NodeSubcommand::Install
            } else if name@ == "remove"@ {
                NodeSubcommand::Remove
            } else {
                NodeSubcommand::Other
            }),
    {
        if text_equal(name, "use") {
            NodeSubcommand::Use
        } else if text_equal(name, "install") {
            NodeSubcommand::Install
        } else if text_equal(name, "remove") {
            NodeSubcommand::Remove
        } else {
            NodeSubcommand::Other
        }
    }
}

// ----- parsing and matching through node-semver -----

/// What `node_semver::Version::parse` gives for a text.
pub uninterp spec fn semver_parse(text: Seq<char>) -> Option<VersionView>;

/// Whether `node_semver::Range::parse` accepts a text.
pub uninterp spec fn semver_range_valid(text: Seq<char>) -> bool;

/// What `node_semver::Version::satisfies` answers for a version and the
/// range a text parses to.
pub uninterp spec fn semver_satisfies(range: Seq<char>, version: VersionView) -> bool;

/// The values of an optional version.
pub open spec fn option_view(o: Option<Version>) -> Option<VersionView> {
    match o {
        Some(v) => Some(v@),
        None => None,
    }
}

/// Calls `node_semver::Version::parse` and copies the parsed fields. Its
/// identifiers are made of characters whose low byte is an ASCII letter
/// or digit, and of `-`, so none holds a `/`.
#[verifier::external_body]
fn parse_semver(text: &str) -> (r: Option<Version>)
    ensures
        option_view(r) == semver_parse(text@),
        r matches Some(v) ==> slash_free(v@),
{
    let v = node_semver::Version::parse(text).ok()?;
    let id = |i: SemverIdentifier| match i {
        SemverIdentifier::Numeric(n) => Identifier::Numeric(n),
        SemverIdentifier::AlphaNumeric(s) => Identifier::AlphaNumeric(s),
    };
    let pre_release = v.pre_release.into_iter().map(id).collect();
    let build = v.build.into_iter().map(id).collect();
    Some(Version { major: v.major, minor: v.minor, patch: v.patch, build, pre_release })
}

/// Calls `node_semver::Range::parse` and tells whether it succeeded.
#[verifier::external_body]
fn range_parses(text: &str) -> (b: bool)
    ensures
        b == semver_range_valid(text@),
{
    node_semver::Range::parse(text).is_ok()
}

/// Calls `node_semver::Version::satisfies` on a copy of `v` and the range
/// that `range` parses to (as `range_parses` checks it does).
#[verifier::external_body]
fn semver_version_satisfies(v: &Version, range: &str) -> (b: bool)
    requires
        semver_range_valid(range@),
    ensures
        b == semver_satisfies(range@, v@),
{
    let id = |i: &Identifier| match i {
        Identifier::Numeric(n) => SemverIdentifier::Numeric(*n),
        Identifier::AlphaNumeric(s) => SemverIdentifier::AlphaNumeric(s.clone()),
    };
    let sv = node_semver::Version {
        major: v.major, minor: v.minor, patch: v.patch,
        build: v.build.iter().map(id).collect(),
        pre_release: v.pre_release.iter().map(id).collect(),
    };
    node_semver::Range::parse(range).map(|r| sv.satisfies(&r)).unwrap_or(false)
}

/// Parses a version text.
pub fn parse_version(text: &str) -> (r: Option<Version>)
    ensures
        option_view(r) == semver_parse(text@),
        r matches Some(v) ==> slash_free(v@),
{
    parse_semver(text)
}

// ----- resolving a request -----

/// The versions of the index entries.
pub open spec fn versions_of(entries: Seq<NodeVersion>) -> Seq<VersionView> {
    entries.map_values(|n: NodeVersion| n.version@)
}

/// Some listed version is written exactly as the request.
pub open spec fn listed_exactly(request: Seq<char>, versions: Seq<VersionView>) -> bool {
    exists|i: int| 0 <= i < versions.len() && version_text(#[trigger] versions[i]) == request
}

/// The version `max()` picks among those that satisfy the range: the
/// highest, and of equally high ones the last.
pub open spec fn newest_satisfying(range: Seq<char>, versions: Seq<VersionView>) -> Option<
    VersionView,
>
    decreases versions.len(),
{
    if versions.len() == 0 {
        None
    } else {
        let prev = newest_satisfying(range, versions.drop_last());
        let x = versions.last();
        if semver_satisfies(range, x) {
            match prev {
                None => Some(x),
                Some(m) => if version_order(m, x) == Precedence::Greater {
                    Some(m)
                } else {
                    Some(x)
                },
            }
        } else {
            prev
        }
    }
}

/// What a version request resolves to.
#[derive(Debug)]
pub enum Resolution {
    /// The request is neither a version nor a range.
    Invalid,
    /// No listed release matches the request.
    NotFound,
    /// The release to install.
    Found(Version),
}

/// The resolution of `request` against the listed versions: a version
/// text resolves to itself when some release is written exactly so; a
/// range resolves to the newest release that satisfies it.
pub open spec fn resolution(request: Seq<char>, versions: Seq<VersionView>) -> Option<
    Option<VersionView>,
> {
    match semver_parse(request) {
        Some(v) => Some(if listed_exactly(request, versions) { Some(v) } else { None }),
        None => if semver_range_valid(request) {
            Some(newest_satisfying(request, versions))
        } else {
            None
        },
    }
}

/// Resolves a version request against the release index. The outer
/// `None` of `resolution` is an invalid request, the inner one a request
/// that nothing matches.
pub fn resolve_node_version(request: &str, available: &Vec<NodeVersion>) -> (r: Resolution)
    ensures
        match resolution(request@, versions_of(available@)) {
            None => r is Invalid,
            Some(None) => r is NotFound,
            Some(Some(v)) => r matches Resolution::Found(x) && x@ == v,
        },
        semver_parse(request@) is Some ==> (r matches Resolution::Found(x) ==> slash_free(x@)),
{
    let ghost versions = versions_of(available@);
    if let Some(ver) = parse_version(request) {
        let mut found = false;
        let mut i: usize = 0;
        while i < available.len()
            invariant
                versions == versions_of(available@),
                i <= available.len(),
                found ==> listed_exactly(request@, versions),
                !found ==> forall|j: int| 0 <= j < i ==> version_text(#[trigger] versions[j]) != request@,
            ensures
                found ==> listed_exactly(request@, versions),
                !found ==> forall|j: int|
                    0 <= j < versions.len() ==> version_text(#[trigger] versions[j]) != request@,
            decreases available.len() - i,
        {
            let text = version_to_string(&available[i].version);
            if text_equal(request, text.as_str()) {
                found = true;
                assert(version_text(versions[i as int]) == request@);
                break;
            }
            i = i + 1;
        }
        if found {
            Resolution::Found(ver)
        } else {
            Resolution::NotFound
        }
    } else if range_parses(request) {
        let mut best: Option<Version> = None;
        let mut i: usize = 0;
        assert(versions.take(0) =~= Seq::<VersionView>::empty());
        while i < available.len()
            invariant
                versions == versions_of(available@),
                versions.len() == available.len(),
                semver_range_valid(request@),
                i <= available.len(),
                option_view(best) == newest_satisfying(request@, versions.take(i as int)),
            decreases available.len() - i,
        {
            let candidate = &available[i].version;
            let ghost t = versions.take(i + 1);
            assert(t.drop_last() =~= versions.take(i as int));
            assert(t.last() == candidate@);
            if semver_version_satisfies(candidate, request) {
                let replace = match &best {
                    None => true,
                    Some(m) => compare_versions(m, candidate) != Precedence::Greater,
                };
                if replace {
                    best = Some(candidate.duplicate());
                }
            }
            i = i + 1;
        }
        assert(versions.take(available.len() as int) =~= versions);
        match best {
            Some(v) => Resolution::Found(v),
            None => Resolution::NotFound,
        }
    } else {
        Resolution::Invalid
    }
}

/// The version a range resolves to satisfies the range, is one of the
/// listed versions, and ranks at least as high as every listed version
/// that satisfies the range; when it resolves to nothing, no listed
/// version satisfies the range.
pub proof fn lemma_newest_satisfying(range: Seq<char>, versions: Seq<VersionView>)
    ensures
        match newest_satisfying(range, versions) {
            Some(m) => {
                &&& semver_satisfies(range, m)
                &&& exists|k: int| 0 <= k < versions.len() && versions[k] == m
                &&& forall|i: int|
                    0 <= i < versions.len() && semver_satisfies(range, #[trigger] versions[i])
                        ==> version_le(versions[i], m)
            },
            None => forall|i: int|
                0 <= i < versions.len() ==> !semver_satisfies(range, #[trigger] versions[i]),
        },
    decreases versions.len(),
{
    if versions.len() > 0 {
        let init = versions.drop_last();
        let x = versions.last();
        lemma_newest_satisfying(range, init);
        lemma_version_order_refl(x);
        let n = versions.len() - 1;
        assert(versions[n] == x);
        match newest_satisfying(range, init) {
            Some(m) => {
                let k0 = choose|k: int| 0 <= k < init.len() && init[k] == m;
                assert(versions[k0] == m);
                lemma_version_order_flip(m, x);
                if semver_satisfies(range, x) && version_order(m, x) != Precedence::Greater {
                    assert forall|i: int|
                        0 <= i < versions.len() && semver_satisfies(range, #[trigger] versions[i])
                            implies version_le(versions[i], x) by {
                        if i < n {
                            assert(init[i] == versions[i]);
                            lemma_version_order_trans(versions[i], m, x);
                        }
                    }
                } else {
                    assert forall|i: int|
                        0 <= i < versions.len() && semver_satisfies(range, #[trigger] versions[i])
                            implies version_le(versions[i], m) by {
                        if i < n {
                            assert(init[i] == versions[i]);
                        }
                    }
                }
            },
            None => {
                assert forall|i: int| 0 <= i < n implies #[trigger] versions[i] == init[i] by {}
            },
        }
    }
}

// ----- where a release comes from and goes to -----

/// The download address of a release: the Windows executable, or the
/// `.tar.xz` archive for other systems.
pub open spec fn node_download_url(version: Seq<char>, platform: Os, arch: Arch) -> Seq<char> {
    let base = "https://nodejs.org/dist/"@ + "v"@ + version + "/"@;
    if platform == Os::Windows {
        base + "/win-"@ + arch_name(arch) + "/node.exe"@
    } else {
        base + "node-v"@ + version + "-"@ + os_name(platform) + "-"@ + arch_name(arch)
            + ".tar.xz"@
    }
}

/// What to fetch for a release and where it goes.
#[derive(Debug)]
pub struct NodeDownload {
    /// The address of the file.
    pub url: String,
    /// The name of the file.
    pub file_name: String,
    /// The directory, under the node directory, that holds the release
    /// once unpacked.
    pub unpack_location: String,
    /// For an archive, the name of the decompressed tarball.
    pub tar_name: Option<String>,
}

proof fn lemma_after_last_append(p: Seq<char>, t: Seq<char>, c: char)
    requires
        forall|j: int| 0 <= j < t.len() ==> t[j] != c,
    ensures
        after_last(p + t, c) == after_last(p, c) + t,
    decreases t.len(),
{
    if t.len() == 0 {
        assert(p + t =~= p);
        assert(after_last(p, c) + t =~= after_last(p, c));
    } else {
        let s = p + t;
        lemma_after_last_append(p, t.drop_last(), c);
        assert(s.drop_last() =~= p + t.drop_last());
        assert(s.last() == t.last());
        assert(after_last(p, c) + t =~= (after_last(p, c) + t.drop_last()).push(t.last()));
    }
}

proof fn lemma_ends_with_after_last(p: Seq<char>, t: Seq<char>, c: char)
    requires
        forall|j: int| 0 <= j < t.len() ==> t[j] != c,
    ensures
        ends_with(after_last(p + t, c), t),
{
    lemma_after_last_append(p, t, c);
    let a = after_last(p, c) + t;
    assert(a.subrange(a.len() - t.len(), a.len() as int) =~= t);
}

/// Plans the download of a resolved release. `request` is the text the
/// user asked for; Windows keeps each release in a directory named after
/// it, other systems in the directory the archive unpacks to.
pub fn node_download(request: &str, version: &Version, platform: Os, arch: Arch) -> (d: NodeDownload)
    requires
        platform != Os::Unknown,
        arch != Arch::Unknown,
    ensures
        d.url@ == node_download_url(version_text(version@), platform, arch),
        d.file_name@ == after_last(d.url@, '/'),
        platform == Os::Windows ==> d.unpack_location@ == request@ && d.tar_name is None,
        platform != Os::Windows ==> {
            &&& ends_with(d.file_name@, ".tar.xz"@)
            &&& d.unpack_location@ == d.file_name@.subrange(0, d.file_name@.len() - 7)
            &&& d.tar_name matches Some(t) && t@ == d.file_name@.subrange(0, d.file_name@.len() - 3)
        },
{
    let vt = version_to_string(version);
    let mut url = String::from_str("https://nodejs.org/dist/");
    url.append("v");
    url.append(vt.as_str());
    url.append("/");
    if platform == Os::Windows {
        url.append("/win-");
        url.append(arch.name());
        url.append("/node.exe");
        let file_name = String::from_str(text_after_last(url.as_str(), '/'));
        NodeDownload {
            url,
            file_name,
            unpack_location: String::from_str(request),
            tar_name: None,
        }
    } else {
        url.append("node-v");
        url.append(vt.as_str());
        url.append("-");
        url.append(platform.name());
        url.append("-");
        url.append(arch.name());
        let ghost prefix = url@;
        url.append(".tar.xz");
        let file_name = String::from_str(text_after_last(url.as_str(), '/'));
        proof {
            reveal_strlit(".tar.xz");
            reveal_strlit(".xz");
            lemma_ends_with_after_last(prefix, ".tar.xz"@, '/');
            let f = file_name@;
            assert(f.subrange(f.len() - 3, f.len() as int) =~= ".tar.xz"@.subrange(4, 7));
            assert(".tar.xz"@.subrange(4, 7) =~= ".xz"@);
        }
        let unpack = strip_suffix(file_name.as_str(), ".tar.xz").unwrap();
        let unpack_location = String::from_str(unpack);
        let tar = strip_suffix(file_name.as_str(), ".xz").unwrap();
        let tar_name = Some(String::from_str(tar));
        NodeDownload { url, file_name, unpack_location, tar_name }
    }
}

/// The directory that holds an installed release: under the data
/// directory, `volt/node/` and the version on Windows, or the archive's
/// directory name elsewhere.
pub open spec fn node_path(data_dir: Seq<char>, version: Seq<char>, platform: Os, arch: Arch) -> Seq<
    char,
> {
    let style = if platform == Os::Windows { PathStyle::Windows } else { PathStyle::Unix };
    let dir = if platform == Os::Windows {
        version
    } else {
        archive_dir(version, platform, arch)
    };
    path_join(path_join(path_join(data_dir, "volt"@, style), "node"@, style), dir, style)
}

/// The directory a release archive unpacks to:
/// `node-v<version>-<os>-<arch>`.
pub open spec fn archive_dir(version: Seq<char>, platform: Os, arch: Arch) -> Seq<char> {
    "node-v"@ + version + "-"@ + os_name(platform) + "-"@ + arch_name(arch)
}

/// The archive of a release whose text holds no `/` unpacks to the
/// release's directory under the node directory.
proof fn lemma_unpack_text(data_dir: Seq<char>, version: Seq<char>, platform: Os, arch: Arch)
    requires
        platform != Os::Windows,
        platform != Os::Unknown,
        arch != Arch::Unknown,
        forall|j: int| 0 <= j < version.len() ==> version[j] != '/',
    ensures
        ({
            let f = after_last(node_download_url(version, platform, arch), '/');
            &&& f.subrange(0, f.len() - 7) == archive_dir(version, platform, arch)
            &&& node_path(data_dir, version, platform, arch) == path_join(
                path_join(path_join(data_dir, "volt"@, PathStyle::Unix), "node"@, PathStyle::Unix),
                f.subrange(0, f.len() - 7),
                PathStyle::Unix,
            )
        }),
{
    reveal_strlit("node-v");
    reveal_strlit("-");
    reveal_strlit(".tar.xz");
    reveal_strlit("linux");
    reveal_strlit("darwin");
    reveal_strlit("x86");
    reveal_strlit("x64");
    reveal_strlit("/");
    let base = "https://nodejs.org/dist/"@ + "v"@ + version + "/"@;
    let a = archive_dir(version, platform, arch);
    let t = a + ".tar.xz"@;
    assert(node_download_url(version, platform, arch) =~= base + t);
    let os = os_name(platform);
    let ar = arch_name(arch);
    assert(forall|j: int| 0 <= j < os.len() ==> os[j] != '/');
    assert(forall|j: int| 0 <= j < ar.len() ==> ar[j] != '/');
    assert forall|j: int| 0 <= j < t.len() implies t[j] != '/' by {
        let n1 = 6 + version.len();
        let n2 = n1 + 1 + os.len();
        let n3 = n2 + 1 + ar.len();
        if j < 6 {
            assert(t[j] == "node-v"@[j]);
        } else if j < n1 {
            assert(t[j] == version[j - 6]);
        } else if j < n1 + 1 {
            assert(t[j] == '-');
        } else if j < n2 {
            assert(t[j] == os[j - n1 - 1]);
        } else if j < n2 + 1 {
            assert(t[j] == '-');
        } else if j < n3 {
            assert(t[j] == ar[j - n2 - 1]);
        } else {
            assert(t[j] == ".tar.xz"@[j - n3]);
        }
    }
    lemma_after_last_append(base, t, '/');
    assert(base.last() == '/');
    assert(after_last(base, '/') =~= Seq::<char>::empty());
    assert(after_last(base + t, '/') =~= t);
    assert(t.subrange(0, t.len() - 7) =~= a);
}

/// Installing and removing a release name the same directory: on systems
/// other than Windows, the archive that `node_download` plans for a parsed
/// version unpacks, under the node directory, to the directory
/// `get_node_path` gives for that version's text.
pub proof fn lemma_unpack_location_is_node_path(
    data_dir: Seq<char>,
    version: VersionView,
    platform: Os,
    arch: Arch,
)
    requires
        platform != Os::Windows,
        platform != Os::Unknown,
        arch != Arch::Unknown,
        slash_free(version),
    ensures
        ({
            let t = version_text(version);
            let f = after_last(node_download_url(t, platform, arch), '/');
            &&& f.subrange(0, f.len() - 7) == archive_dir(t, platform, arch)
            &&& node_path(data_dir, t, platform, arch) == path_join(
                path_join(path_join(data_dir, "volt"@, PathStyle::Unix), "node"@, PathStyle::Unix),
                f.subrange(0, f.len() - 7),
                PathStyle::Unix,
            )
        }),
{
    lemma_version_text_slash_free(version);
    lemma_unpack_text(data_dir, version_text(version), platform, arch);
}

/// The directory that holds an installed release.
pub fn get_node_path(data_dir: &str, version: &str, platform: Os, arch: Arch) -> (p: String)
    requires
        platform == Os::Windows || (platform != Os::Unknown && arch != Arch::Unknown),
    ensures
        p@ == node_path(data_dir@, version@, platform, arch),
{
    let style = if platform == Os::Windows { PathStyle::Windows } else { PathStyle::Unix };
    let dir = if platform == Os::Windows {
        String::from_str(version)
    } else {
        let mut d = String::from_str("node-v");
        d.append(version);
        d.append("-");
        d.append(platform.name());
        d.append("-");
        d.append(arch.name());
        d
    };
    let volt = join_path(data_dir, "volt", style);
    let node = join_path(volt.as_str(), "node", style);
    join_path(node.as_str(), dir.as_str(), style)
}

// ----- selecting a release -----

/// How `node use` makes a release the current one.
#[derive(PartialEq, Eq, Structural, Clone, Copy, Debug)]
pub enum UseStrategy {
    /// Link `node.exe` into Volt's `bin` directory.
    Windows,
    /// Link every file of the release's `bin` directory into `~/.local/bin`.
    LinkBinaries,
    /// Nothing is done on this system.
    Nothing,
}

/// How `node use` proceeds on a platform.
pub fn use_strategy(platform: Os) -> (s: UseStrategy)
    ensures
        s == (if platform == Os::Windows {
            UseStrategy::Windows
        } else if platform == Os::Linux {
            UseStrategy::LinkBinaries
        } else {
            UseStrategy::Nothing
        }),
{
    if platform == Os::Windows {
        UseStrategy::Windows
    } else if platform == Os::Linux {
        UseStrategy::LinkBinaries
    } else {
        UseStrategy::Nothing
    }
}

/// The directories `node use` links between on Linux.
#[derive(Debug)]
pub struct LinuxLinks {
    /// `~/.local/bin`.
    pub link_dir: String,
    /// The release's `bin` directory.
    pub bin_dir: String,
}

/// The directories `node use` links between on Linux.
pub fn linux_links(home: &str, node_path: &str) -> (l: LinuxLinks)
    ensures
        l.link_dir@ == path_join(path_join(home@, ".local"@, PathStyle::Unix), "bin"@, PathStyle::Unix),
        l.bin_dir@ == path_join(node_path@, "bin"@, PathStyle::Unix),
{
    let local = join_path(home, ".local", PathStyle::Unix);
    LinuxLinks {
        link_dir: join_path(local.as_str(), "bin", PathStyle::Unix),
        bin_dir: join_path(node_path, "bin", PathStyle::Unix),
    }
}

/// The files `node use` touches on Windows.
#[derive(Debug)]
pub struct WindowsLinks {
    /// The release's executable.
    pub node_path: String,
    /// Volt's `bin` directory.
    pub link_dir: String,
    /// A previous link in Volt's `bin` directory.
    pub link_file: String,
    /// The link to create.
    pub link: String,
    /// The PowerShell command that appends `link_dir` to the user's `Path`.
    pub path_command: String,
}

/// Volt's `bin` directory on Windows.
pub open spec fn windows_link_dir(home: Seq<char>) -> Seq<char> {
    home + "\\AppData\\Local\\Volt\\bin"@
}

/// The files `node use` touches on Windows for a home directory and a
/// version.
pub fn windows_links(home: &str, version: &str) -> (l: WindowsLinks)
    ensures
        l.node_path@ == home@ + "\\AppData\\Local\\Volt\\Node\\"@ + version@ + "\\node.exe"@,
        l.link_dir@ == windows_link_dir(home@),
        l.link_file@ == home@ + "\\AppData\\Local\\Volt\\bin\\node.exe"@,
        l.link@ == windows_link_dir(home@) + "\\"@ + "node.exe"@,
        l.path_command@ == "[Environment]::SetEnvironmentVariable('Path', [Environment]::GetEnvironmentVariable('Path', 'User') + '"@
            + windows_link_dir(home@) + "', 'User')"@,
{
    let mut node_path = String::from_str(home);
    node_path.append("\\AppData\\Local\\Volt\\Node\\");
    node_path.append(version);
    node_path.append("\\node.exe");
    let mut link_dir = String::from_str(home);
    link_dir.append("\\AppData\\Local\\Volt\\bin");
    let mut link_file = String::from_str(home);
    link_file.append("\\AppData\\Local\\Volt\\bin\\node.exe");
    let mut link = link_dir.clone();
    link.append("\\");
    link.append("node.exe");
    let mut path_command = String::from_str(
        "[Environment]::SetEnvironmentVariable('Path', [Environment]::GetEnvironmentVariable('Path', 'User') + '",
    );
    path_command.append(link_dir.as_str());
    path_command.append("', 'User')");
    WindowsLinks { node_path, link_dir, link_file, link, path_command }
}

/// Whether the `PATH` value lacks Volt's `bin` directory, so that it must
/// be extended.
pub fn path_needs_update(path_var: &str, link_dir: &str) -> (b: bool)
    ensures
        b == !contains_text(path_var@, link_dir@),
{
    !text_contains(path_var, link_dir)
}

// ----- unpacking a download -----

/// What `lzma::decompress` makes of some bytes, or `None` when it fails.
pub uninterp spec fn lzma_decompress(data: Seq<u8>) -> Option<Seq<u8>>;

/// The values of optional bytes.
pub open spec fn bytes_view(o: Option<Vec<u8>>) -> Option<Seq<u8>> {
    match o {
        Some(v) => Some(v@),
        None => None,
    }
}

/// Calls `lzma::decompress`, which reads the bytes through liblzma's
/// automatic decoder (`.xz` and `.lzma` data) with no memory limit; an
/// error comes back as `None`.
#[verifier::external_body]
fn xz_decompress(data: &[u8]) -> (r: Option<Vec<u8>>)
    ensures
        bytes_view(r) == lzma_decompress(data@),
{
    lzma::decompress(data).ok()
}

/// The tarball inside a downloaded `.tar.xz` release, or `None` when the
/// download does not decompress.
pub fn decompress_node_archive(content: &[u8]) -> (r: Option<Vec<u8>>)
    ensures
        bytes_view(r) == lzma_decompress(content@),
{
    xz_decompress(content)
}

} // verus!
