//! Semantic versions as the node release index lists them: their
//! precedence, their text form, and the laws that make the precedence a
//! total preorder.

use vstd::prelude::*;
use vstd::string::*;

use crate::text::decimal;

verus! {

/// The result of comparing two values.
#[derive(PartialEq, Eq, Structural, Clone, Copy, Debug)]
pub enum Precedence {
    Less,
    Equal,
    Greater,
}

impl Precedence {
    /// The same comparison seen from the other side.
    pub open spec fn flip(self) -> Precedence {
        match self {
            Precedence::Less => Precedence::Greater,
            Precedence::Equal => Precedence::Equal,
            Precedence::Greater => Precedence::Less,
        }
    }
}

/// Comparison of two integers.
pub open spec fn int_order(a: int, b: int) -> Precedence {
    if a < b {
        Precedence::Less
    } else if a == b {
        Precedence::Equal
    } else {
        Precedence::Greater
    }
}

/// Lexicographic comparison of texts by code point (the order of their
/// UTF-8 bytes, which is how `String` is ordered).
pub open spec fn text_order(a: Seq<char>, b: Seq<char>) -> Precedence
    decreases a.len(),
{
    if a.len() == 0 {
        if b.len() == 0 { Precedence::Equal } else { Precedence::Less }
    } else if b.len() == 0 {
        Precedence::Greater
    } else {
        match int_order(a[0] as int, b[0] as int) {
            Precedence::Equal => text_order(a.drop_first(), b.drop_first()),
            other => other,
        }
    }
}

/// A pre-release or build identifier.
#[derive(Debug)]
pub enum Identifier {
    Numeric(u64),
    AlphaNumeric(String),
}

/// The mathematical value of an [`Identifier`].
pub enum IdentifierView {
    Numeric(u64),
    AlphaNumeric(Seq<char>),
}

impl View for Identifier {
    type V = IdentifierView;

    open spec fn view(&self) -> IdentifierView {
        match self {
            Identifier::Numeric(n) => IdentifierView::Numeric(*n),
            Identifier::AlphaNumeric(s) => IdentifierView::AlphaNumeric(s@),
        }
    }
}

/// Identifiers order numeric before alphanumeric, then by value.
pub open spec fn identifier_order(a: IdentifierView, b: IdentifierView) -> Precedence {
    match (a, b) {
        (IdentifierView::Numeric(x), IdentifierView::Numeric(y)) => int_order(x as int, y as int),
        (IdentifierView::Numeric(_), IdentifierView::AlphaNumeric(_)) => Precedence::Less,
        (IdentifierView::AlphaNumeric(_), IdentifierView::Numeric(_)) => Precedence::Greater,
        (IdentifierView::AlphaNumeric(x), IdentifierView::AlphaNumeric(y)) => text_order(x, y),
    }
}

/// Lexicographic comparison of identifier lists.
pub open spec fn identifiers_order(a: Seq<IdentifierView>, b: Seq<IdentifierView>) -> Precedence
    decreases a.len(),
{
    if a.len() == 0 {
        if b.len() == 0 { Precedence::Equal } else { Precedence::Less }
    } else if b.len() == 0 {
        Precedence::Greater
    } else {
        match identifier_order(a[0], b[0]) {
            Precedence::Equal => identifiers_order(a.drop_first(), b.drop_first()),
            other => other,
        }
    }
}

/// A semantic version.
#[derive(Debug)]
pub struct Version {
    pub major: u64,
    pub minor: u64,
    pub patch: u64,
    pub build: Vec<Identifier>,
    pub pre_release: Vec<Identifier>,
}

/// The mathematical value of a [`Version`].
pub struct VersionView {
    pub major: u64,
    pub minor: u64,
    pub patch: u64,
    pub build: Seq<IdentifierView>,
    pub pre_release: Seq<IdentifierView>,
}

/// The values of a list of identifiers.
pub open spec fn identifiers_view(ids: Seq<Identifier>) -> Seq<IdentifierView> {
    ids.map_values(|i: Identifier| i@)
}

impl View for Version {
    type V = VersionView;

    open spec fn view(&self) -> VersionView {
        VersionView {
            major: self.major,
            minor: self.minor,
            patch: self.patch,
            build: identifiers_view(self.build@),
            pre_release: identifiers_view(self.pre_release@),
        }
    }
}

/// Semantic-version precedence: major, minor and patch numerically; a
/// version without pre-release identifiers ranks above one with them;
/// otherwise the pre-release lists decide. Build metadata is ignored.
pub open spec fn version_order(a: VersionView, b: VersionView) -> Precedence {
    match int_order(a.major as int, b.major as int) {
        Precedence::Equal => match int_order(a.minor as int, b.minor as int) {
            Precedence::Equal => match int_order(a.patch as int, b.patch as int) {
                Precedence::Equal => {
                    if a.pre_release.len() == 0 && b.pre_release.len() == 0 {
                        Precedence::Equal
                    } else if a.pre_release.len() == 0 {
                        Precedence::Greater
                    } else if b.pre_release.len() == 0 {
                        Precedence::Less
                    } else {
                        identifiers_order(a.pre_release, b.pre_release)
                    }
                },
                other => other,
            },
            other => other,
        },
        other => other,
    }
}

/// `a` ranks at most as high as `b`.
pub open spec fn version_le(a: VersionView, b: VersionView) -> bool {
    version_order(a, b) != Precedence::Greater
}

// ----- laws of the orders -----

proof fn lemma_int_order(a: int, b: int)
    ensures
        int_order(b, a) == int_order(a, b).flip(),
        int_order(a, b) == Precedence::Equal <==> a == b,
{
}

/// Comparing texts the other way round flips the result.
pub proof fn lemma_text_order_flip(a: Seq<char>, b: Seq<char>)
    ensures
        text_order(b, a) == text_order(a, b).flip(),
    decreases a.len(),
{
    if a.len() > 0 && b.len() > 0 {
        lemma_int_order(a[0] as int, b[0] as int);
        lemma_text_order_flip(a.drop_first(), b.drop_first());
    }
}

/// Two texts compare equal exactly when they are the same text.
pub proof fn lemma_text_order_equal(a: Seq<char>, b: Seq<char>)
    ensures
        text_order(a, b) == Precedence::Equal <==> a == b,
    decreases a.len(),
{
    if a.len() > 0 && b.len() > 0 {
        lemma_text_order_equal(a.drop_first(), b.drop_first());
        lemma_int_order(a[0] as int, b[0] as int);
        if text_order(a, b) == Precedence::Equal {
            assert(a[0] as int == b[0] as int);
            assert(a[0] == b[0]);
            assert(a.drop_first() == b.drop_first());
            assert(a =~= seq![a[0]] + a.drop_first());
            assert(b =~= seq![b[0]] + b.drop_first());
        }
        if a == b {
            assert(a.drop_first() =~= b.drop_first());
        }
    } else if a.len() == 0 && b.len() == 0 {
        assert(a =~= b);
    }
}

/// "At most" on texts is transitive.
pub proof fn lemma_text_order_trans(a: Seq<char>, b: Seq<char>, c: Seq<char>)
    requires
        text_order(a, b) != Precedence::Greater,
        text_order(b, c) != Precedence::Greater,
    ensures
        text_order(a, c) != Precedence::Greater,
    decreases a.len(),
{
    if a.len() > 0 && b.len() > 0 && c.len() > 0 {
        if a[0] == b[0] && b[0] == c[0] {
            lemma_text_order_trans(a.drop_first(), b.drop_first(), c.drop_first());
        }
    }
}

/// Comparing identifiers the other way round flips the result.
pub proof fn lemma_identifier_order_flip(a: IdentifierView, b: IdentifierView)
    ensures
        identifier_order(b, a) == identifier_order(a, b).flip(),
{
    match (a, b) {
        (IdentifierView::Numeric(x), IdentifierView::Numeric(y)) => {
            lemma_int_order(x as int, y as int);
        },
        (IdentifierView::AlphaNumeric(x), IdentifierView::AlphaNumeric(y)) => {
            lemma_text_order_flip(x, y);
        },
        _ => {},
    }
}

/// Two identifiers compare equal exactly when they are the same.
pub proof fn lemma_identifier_order_equal(a: IdentifierView, b: IdentifierView)
    ensures
        identifier_order(a, b) == Precedence::Equal <==> a == b,
{
    match (a, b) {
        (IdentifierView::Numeric(x), IdentifierView::Numeric(y)) => {
            lemma_int_order(x as int, y as int);
        },
        (IdentifierView::AlphaNumeric(x), IdentifierView::AlphaNumeric(y)) => {
            lemma_text_order_equal(x, y);
        },
        _ => {},
    }
}

/// "At most" on identifiers is transitive.
pub proof fn lemma_identifier_order_trans(a: IdentifierView, b: IdentifierView, c: IdentifierView)
    requires
        identifier_order(a, b) != Precedence::Greater,
        identifier_order(b, c) != Precedence::Greater,
    ensures
        identifier_order(a, c) != Precedence::Greater,
{
    match (a, b, c) {
        (
            IdentifierView::AlphaNumeric(x),
            IdentifierView::AlphaNumeric(y),
            IdentifierView::AlphaNumeric(z),
        ) => {
            lemma_text_order_trans(x, y, z);
        },
        _ => {},
    }
}

/// A strictly smaller identifier followed by one at most as large gives a
/// strictly smaller one.
proof fn lemma_identifier_order_strict(a: IdentifierView, b: IdentifierView, c: IdentifierView)
    requires
        identifier_order(a, b) == Precedence::Less,
        identifier_order(b, c) != Precedence::Greater,
    ensures
        identifier_order(a, c) == Precedence::Less,
{
    lemma_identifier_order_trans(a, b, c);
    lemma_identifier_order_equal(a, c);
    lemma_identifier_order_flip(a, b);
    if a == c {
        assert(identifier_order(b, a) == Precedence::Greater);
    }
}

/// Comparing identifier lists the other way round flips the result.
pub proof fn lemma_identifiers_order_flip(a: Seq<IdentifierView>, b: Seq<IdentifierView>)
    ensures
        identifiers_order(b, a) == identifiers_order(a, b).flip(),
    decreases a.len(),
{
    if a.len() > 0 && b.len() > 0 {
        lemma_identifier_order_flip(a[0], b[0]);
        lemma_identifiers_order_flip(a.drop_first(), b.drop_first());
    }
}

/// An identifier list compares equal to itself.
pub proof fn lemma_identifiers_order_refl(a: Seq<IdentifierView>)
    ensures
        identifiers_order(a, a) == Precedence::Equal,
    decreases a.len(),
{
    if a.len() > 0 {
        lemma_identifier_order_equal(a[0], a[0]);
        lemma_identifiers_order_refl(a.drop_first());
    }
}

/// "At most" on identifier lists is transitive.
pub proof fn lemma_identifiers_order_trans(
    a: Seq<IdentifierView>,
    b: Seq<IdentifierView>,
    c: Seq<IdentifierView>,
)
    requires
        identifiers_order(a, b) != Precedence::Greater,
        identifiers_order(b, c) != Precedence::Greater,
    ensures
        identifiers_order(a, c) != Precedence::Greater,
    decreases a.len(),
{
    if a.len() > 0 && b.len() > 0 && c.len() > 0 {
        let ab = identifier_order(a[0], b[0]);
        let bc = identifier_order(b[0], c[0]);
        lemma_identifier_order_equal(a[0], b[0]);
        lemma_identifier_order_equal(b[0], c[0]);
        if ab == Precedence::Equal && bc == Precedence::Equal {
            lemma_identifiers_order_trans(a.drop_first(), b.drop_first(), c.drop_first());
        } else if ab == Precedence::Less {
            lemma_identifier_order_strict(a[0], b[0], c[0]);
        } else {
            assert(a[0] == b[0]);
        }
    }
}

/// Comparing versions the other way round flips the result.
pub proof fn lemma_version_order_flip(a: VersionView, b: VersionView)
    ensures
        version_order(b, a) == version_order(a, b).flip(),
{
    lemma_int_order(a.major as int, b.major as int);
    lemma_int_order(a.minor as int, b.minor as int);
    lemma_int_order(a.patch as int, b.patch as int);
    lemma_identifiers_order_flip(a.pre_release, b.pre_release);
}

/// Every version compares equal to itself.
pub proof fn lemma_version_order_refl(a: VersionView)
    ensures
        version_order(a, a) == Precedence::Equal,
{
    lemma_identifiers_order_refl(a.pre_release);
}

/// "At most" on versions is transitive.
pub proof fn lemma_version_order_trans(a: VersionView, b: VersionView, c: VersionView)
    requires
        version_le(a, b),
        version_le(b, c),
    ensures
        version_le(a, c),
{
    if a.major == b.major && b.major == c.major && a.minor == b.minor && b.minor == c.minor
        && a.patch == b.patch && b.patch == c.patch {
        if a.pre_release.len() > 0 && b.pre_release.len() > 0 && c.pre_release.len() > 0 {
            lemma_identifiers_order_trans(a.pre_release, b.pre_release, c.pre_release);
        }
    }
}

/// Any two versions are comparable one way or the other.
pub proof fn lemma_version_order_total(a: VersionView, b: VersionView)
    ensures
        version_le(a, b) || version_le(b, a),
{
    lemma_version_order_flip(a, b);
}

// ----- comparing versions -----

/// Calls `Ord::cmp` of `node_semver::Version` on copies of the two
/// versions. Its source compares major, minor and patch numerically, then
/// puts a version without pre-release identifiers above one with them, then
/// compares the pre-release identifier lists as `Vec`s of its derived
/// `Ord` on `Identifier` (numbers below text, numbers by value, text by
/// bytes); build identifiers do not count. That is [`version_order`].
#[verifier::external_body]
fn semver_precedence(a: &Version, b: &Version) -> (p: Precedence)
    ensures
        p == version_order(a@, b@),
{
    let id = |i: &Identifier| match i {
        Identifier::Numeric(n) => node_semver::Identifier::Numeric(*n),
        Identifier::AlphaNumeric(t) => node_semver::Identifier::AlphaNumeric(t.clone()),
    };
    let copy = |v: &Version| node_semver::Version { major: v.major, minor: v.minor, patch: v.patch,
        build: v.build.iter().map(id).collect(), pre_release: v.pre_release.iter().map(id).collect() };
    match copy(a).cmp(&copy(b)) {
        std::cmp::Ordering::Less => Precedence::Less,
        std::cmp::Ordering::Equal => Precedence::Equal,
        std::cmp::Ordering::Greater => Precedence::Greater,
    }
}

/// Compares two versions by semantic-version precedence.
pub fn compare_versions(a: &Version, b: &Version) -> (p: Precedence)
    ensures
        p == version_order(a@, b@),
{
    semver_precedence(a, b)
}

// ----- text form -----

/// The text of an identifier.
pub open spec fn identifier_text(i: IdentifierView) -> Seq<char> {
    match i {
        IdentifierView::Numeric(n) => decimal(n as nat),
        IdentifierView::AlphaNumeric(s) => s,
    }
}

/// Identifier texts joined by dots.
pub open spec fn joined_identifiers(ids: Seq<IdentifierView>) -> Seq<char>
    decreases ids.len(),
{
    if ids.len() == 0 {
        Seq::empty()
    } else if ids.len() == 1 {
        identifier_text(ids[0])
    } else {
        joined_identifiers(ids.drop_last()) + seq!['.'] + identifier_text(ids.last())
    }
}

/// Whether a text holds no `/`.
pub open spec fn slash_free_text(t: Seq<char>) -> bool {
    forall|j: int| 0 <= j < t.len() ==> t[j] != '/'
}

/// Whether no alphanumeric identifier of a list holds a `/`.
pub open spec fn slash_free_identifiers(ids: Seq<IdentifierView>) -> bool {
    forall|i: int|
        0 <= i < ids.len() ==> match #[trigger] ids[i] {
            IdentifierView::AlphaNumeric(t) => slash_free_text(t),
            IdentifierView::Numeric(_) => true,
        }
}

/// Whether no alphanumeric identifier of a version holds a `/`, as is so
/// of every version `node_semver` parses.
pub open spec fn slash_free(v: VersionView) -> bool {
    slash_free_identifiers(v.pre_release) && slash_free_identifiers(v.build)
}

proof fn lemma_decimal_slash_free(n: nat)
    ensures
        slash_free_text(decimal(n)),
    decreases n,
{
    if n >= 10 {
        lemma_decimal_slash_free(n / 10);
        assert(decimal(n) == decimal(n / 10).push(crate::text::digit_char(n % 10)));
    }
}

proof fn lemma_joined_slash_free(ids: Seq<IdentifierView>)
    requires
        slash_free_identifiers(ids),
    ensures
        slash_free_text(joined_identifiers(ids)),
    decreases ids.len(),
{
    if ids.len() > 0 {
        let last = ids[ids.len() - 1];
        match last {
            IdentifierView::Numeric(n) => lemma_decimal_slash_free(n as nat),
            IdentifierView::AlphaNumeric(_) => {},
        }
        if ids.len() > 1 {
            let init = ids.drop_last();
            assert forall|i: int| 0 <= i < init.len() implies match #[trigger] init[i] {
                IdentifierView::AlphaNumeric(t) => slash_free_text(t),
                IdentifierView::Numeric(_) => true,
            } by {
                assert(init[i] == ids[i]);
            }
            lemma_joined_slash_free(init);
        }
    }
}

/// The text of a version holds no `/` when its identifiers hold none.
pub proof fn lemma_version_text_slash_free(v: VersionView)
    requires
        slash_free(v),
    ensures
        slash_free_text(version_text(v)),
{
    lemma_decimal_slash_free(v.major as nat);
    lemma_decimal_slash_free(v.minor as nat);
    lemma_decimal_slash_free(v.patch as nat);
    lemma_joined_slash_free(v.pre_release);
    lemma_joined_slash_free(v.build);
    let pre: Seq<char> = if v.pre_release.len() == 0 {
        Seq::empty()
    } else {
        seq!['-'] + joined_identifiers(v.pre_release)
    };
    let bld: Seq<char> = if v.build.len() == 0 {
        Seq::empty()
    } else {
        seq!['+'] + joined_identifiers(v.build)
    };
    let t = decimal(v.major as nat) + seq!['.'] + decimal(v.minor as nat) + seq!['.'] + decimal(
        v.patch as nat,
    ) + pre + bld;
    assert(version_text(v) == t);
}

/// The text of a version: `major.minor.patch`, then `-` and the
/// pre-release identifiers if there are any, then `+` and the build
/// identifiers if there are any.
pub open spec fn version_text(v: VersionView) -> Seq<char> {
    decimal(v.major as nat) + seq!['.'] + decimal(v.minor as nat) + seq!['.'] + decimal(
        v.patch as nat,
    ) + (if v.pre_release.len() == 0 {
        Seq::empty()
    } else {
        seq!['-'] + joined_identifiers(v.pre_release)
    }) + (if v.build.len() == 0 {
        Seq::empty()
    } else {
        seq!['+'] + joined_identifiers(v.build)
    })
}

/// Calls the `Display` of `node_semver::Version` on a copy of `v`. Its
/// source writes `major.minor.patch`, then `-` and the pre-release
/// identifiers joined by `.` if there are any, then `+` and the build
/// identifiers joined by `.` if there are any, each identifier as its
/// number or text. That is [`version_text`].
#[verifier::external_body]
fn semver_display(v: &Version) -> (s: String)
    ensures
        s@ == version_text(v@),
{
    let id = |i: &Identifier| match i {
        Identifier::Numeric(n) => node_semver::Identifier::Numeric(*n),
        Identifier::AlphaNumeric(t) => node_semver::Identifier::AlphaNumeric(t.clone()),
    };
    let copy = node_semver::Version {
        major: v.major,
        minor: v.minor,
        patch: v.patch,
        build: v.build.iter().map(id).collect(),
        pre_release: v.pre_release.iter().map(id).collect(),
    };
    format!("{}", copy)
}

/// Renders a version as its `Display` does.
pub fn version_to_string(v: &Version) -> (s: String)
    ensures
        s@ == version_text(v@),
{
    semver_display(v)
}

// ----- copies -----

impl Identifier {
    /// A copy of this identifier.
    pub fn duplicate(&self) -> (r: Identifier)
        ensures
            r@ == self@,
    {
        match self {
            Identifier::Numeric(n) => Identifier::Numeric(*n),
            Identifier::AlphaNumeric(s) => Identifier::AlphaNumeric(s.clone()),
        }
    }
}

/// A copy of a list of identifiers.
fn duplicate_identifiers(ids: &Vec<Identifier>) -> (r: Vec<Identifier>)
    ensures
        identifiers_view(r@) == identifiers_view(ids@),
{
    let mut r: Vec<Identifier> = Vec::new();
    let mut i: usize = 0;
    while i < ids.len()
        invariant
            i <= ids.len(),
            r.len() == i,
            forall|j: int| 0 <= j < i ==> #[trigger] r@[j]@ == ids@[j]@,
        decreases ids.len() - i,
    {
        r.push(ids[i].duplicate());
        i = i + 1;
    }
    assert(identifiers_view(r@) =~= identifiers_view(ids@));
    r
}

impl Version {
    /// A copy of this version.
    pub fn duplicate(&self) -> (r: Version)
        ensures
            r@ == self@,
    {
        Version {
            major: self.major,
            minor: self.minor,
            patch: self.patch,
            build: duplicate_identifiers(&self.build),
            pre_release: duplicate_identifiers(&self.pre_release),
        }
    }
}

} // verus!
