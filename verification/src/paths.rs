//! File-system paths held as text, with the rules of `std::path::Path` and
//! `PathBuf`: joining, taking the parent, and comparing by components. In
//! Windows style a path may start with a prefix: a drive (`C:`), a server
//! share (`\\server\share`), a device (`\\.\name`) or a verbatim prefix
//! (`\\?\`), after which only `\` separates components.

use vstd::prelude::*;
use vstd::string::*;

verus! {

/// Which separator convention a path follows.
#[derive(PartialEq, Eq, Structural, Clone, Copy, Debug)]
pub enum PathStyle {
    /// `/` separates components.
    Unix,
    /// `\` separates components; `/` is accepted as well.
    Windows,
}

/// Whether `c` separates components in this style.
pub open spec fn is_separator(c: char, style: PathStyle) -> bool {
    c == '/' || (style == PathStyle::Windows && c == '\\')
}

/// The separator this style writes.
pub open spec fn separator(style: PathStyle) -> char {
    match style {
        PathStyle::Unix => '/',
        PathStyle::Windows => '\\',
    }
}

/// Whether `c` is an ASCII letter.
pub open spec fn is_ascii_letter(c: char) -> bool {
    ('a' <= c && c <= 'z') || ('A' <= c && c <= 'Z')
}

/// Whether `c` separates components of a path in this style; in a
/// verbatim path (`\\?\`) only `\` does.
pub open spec fn is_sep_in(c: char, style: PathStyle, verbatim: bool) -> bool {
    (c == '/' && !verbatim) || (style == PathStyle::Windows && c == '\\')
}

/// The kinds of prefix a Windows path can start with.
#[derive(PartialEq, Eq, Structural, Clone, Copy, Debug)]
pub enum PrefixKind {
    /// No prefix.
    NoPrefix,
    /// A drive, `C:`.
    Disk,
    /// A verbatim drive, `\\?\C:`.
    VerbatimDisk,
    /// A server share, `\\server\share`.
    Unc,
    /// A verbatim server share, `\\?\UNC\server\share`.
    VerbatimUnc,
    /// Another verbatim prefix, `\\?\name`.
    Verbatim,
    /// A device namespace, `\\.\name`.
    DeviceNs,
}

/// The first place at or after `i` where a separator stands (only `\`
/// when `verbatim`), or the length of `p`.
pub open spec fn next_sep(p: Seq<char>, i: int, verbatim: bool) -> int
    decreases p.len() - i,
{
    if i >= p.len() {
        p.len() as int
    } else if is_sep_in(p[i], PathStyle::Windows, verbatim) {
        i
    } else {
        next_sep(p, i + 1, verbatim)
    }
}

/// `p` starts with two separators.
pub open spec fn two_seps(p: Seq<char>) -> bool {
    p.len() >= 2 && is_separator(p[0], PathStyle::Windows) && is_separator(p[1], PathStyle::Windows)
}

/// `p` starts with `\\?\`, written with backslashes.
pub open spec fn verbatim_start(p: Seq<char>) -> bool {
    p.len() >= 4 && p[0] == '\\' && p[1] == '\\' && p[2] == '?' && p[3] == '\\'
}

/// `p` starts with `\\?\UNC` and a separator.
pub open spec fn verbatim_unc_start(p: Seq<char>) -> bool {
    verbatim_start(p) && p.len() >= 8 && p[4] == 'U' && p[5] == 'N' && p[6] == 'C' && is_separator(
        p[7],
        PathStyle::Windows,
    )
}

/// `p` starts with `\\?\`, a drive, and then `\` or nothing.
pub open spec fn verbatim_disk_start(p: Seq<char>) -> bool {
    verbatim_start(p) && !verbatim_unc_start(p) && p.len() >= 6 && is_ascii_letter(p[4]) && p[5]
        == ':' && (p.len() == 6 || p[6] == '\\')
}

/// `p` starts with two separators, `.` and a separator.
pub open spec fn device_start(p: Seq<char>) -> bool {
    two_seps(p) && !verbatim_start(p) && p.len() >= 4 && p[2] == '.' && is_separator(
        p[3],
        PathStyle::Windows,
    )
}

/// Where the server name of `\\server\share` ends.
pub open spec fn unc_server_end(p: Seq<char>) -> int {
    next_sep(p, 2, false)
}

/// Where the share name of `\\server\share` ends.
pub open spec fn unc_share_end(p: Seq<char>) -> int {
    next_sep(p, unc_server_end(p) + 1, false)
}

/// `p` starts with two separators, a server name, a separator and a share
/// name.
pub open spec fn unc_start(p: Seq<char>) -> bool {
    &&& two_seps(p)
    &&& !verbatim_start(p)
    &&& !device_start(p)
    &&& unc_server_end(p) > 2
    &&& unc_server_end(p) < p.len()
    &&& unc_share_end(p) > unc_server_end(p) + 1
}

/// The kind of prefix a path starts with, as `std::path` reads it on
/// Windows; Unix paths have none.
pub open spec fn prefix_kind(p: Seq<char>, style: PathStyle) -> PrefixKind {
    if style == PathStyle::Unix {
        PrefixKind::NoPrefix
    } else if verbatim_start(p) {
        if verbatim_unc_start(p) {
            PrefixKind::VerbatimUnc
        } else if verbatim_disk_start(p) {
            PrefixKind::VerbatimDisk
        } else {
            PrefixKind::Verbatim
        }
    } else if device_start(p) {
        PrefixKind::DeviceNs
    } else if unc_start(p) {
        PrefixKind::Unc
    } else if p.len() >= 2 && is_ascii_letter(p[0]) && p[1] == ':' {
        PrefixKind::Disk
    } else {
        PrefixKind::NoPrefix
    }
}

/// Where the server name of `\\?\UNC\server\share` ends.
pub open spec fn vunc_server_end(p: Seq<char>) -> int {
    next_sep(p, 8, true)
}

/// The length of the prefix a path starts with; 0 when there is none.
pub open spec fn prefix_len(p: Seq<char>, style: PathStyle) -> int {
    match prefix_kind(p, style) {
        PrefixKind::NoPrefix => 0,
        PrefixKind::Disk => 2,
        PrefixKind::VerbatimDisk => 6,
        PrefixKind::Unc => unc_share_end(p),
        PrefixKind::VerbatimUnc => {
            let s = vunc_server_end(p);
            if s < p.len() && next_sep(p, s + 1, true) > s + 1 {
                next_sep(p, s + 1, true)
            } else {
                s
            }
        },
        PrefixKind::Verbatim => next_sep(p, 4, true),
        PrefixKind::DeviceNs => next_sep(p, 4, false),
    }
}

/// Whether a path is verbatim: its prefix starts with `\\?\`.
pub open spec fn is_verbatim(p: Seq<char>, style: PathStyle) -> bool {
    let k = prefix_kind(p, style);
    k == PrefixKind::Verbatim || k == PrefixKind::VerbatimUnc || k == PrefixKind::VerbatimDisk
}

/// Whether a path's prefix stands for a root of its own (every prefix but
/// a drive).
pub open spec fn implicit_root(p: Seq<char>, style: PathStyle) -> bool {
    prefix_kind(p, style) != PrefixKind::NoPrefix && prefix_kind(p, style) != PrefixKind::Disk
}

/// Whether a separator follows the prefix.
pub open spec fn physical_root(p: Seq<char>, style: PathStyle) -> bool {
    p.len() > prefix_len(p, style) && is_separator(p[prefix_len(p, style)], style)
}

/// Whether the path has a root: a separator after the prefix, or a prefix
/// that stands for one.
pub open spec fn has_root(p: Seq<char>, style: PathStyle) -> bool {
    physical_root(p, style) || implicit_root(p, style)
}

/// Whether a path without a root starts, after its prefix, with a `.`
/// component.
pub open spec fn has_cur_dir(p: Seq<char>, style: PathStyle) -> bool {
    let k = prefix_len(p, style);
    &&& !has_root(p, style)
    &&& p.len() > k
    &&& p[k] == '.'
    &&& (p.len() == k + 1 || is_separator(p[k + 1], style))
}

/// The length of what precedes the named components: prefix, separator
/// of the root and a leading `.`.
pub open spec fn before_body(p: Seq<char>, style: PathStyle) -> int {
    prefix_len(p, style) + (if physical_root(p, style) {
        1int
    } else {
        0int
    }) + (if has_cur_dir(p, style) {
        1int
    } else {
        0int
    })
}

/// `base` joined with `comp`, as `PathBuf::push` does: a component with a
/// prefix replaces the path; a verbatim path takes the components of
/// `comp` one by one (see [`push_components`]); a component that starts
/// with a separator keeps only the prefix of `base`; otherwise a separator
/// is put between them unless `base` is empty, a bare drive, or ends with
/// a separator.
pub open spec fn path_join(base: Seq<char>, comp: Seq<char>, style: PathStyle) -> Seq<char> {
    if prefix_len(comp, style) > 0 {
        comp
    } else if is_verbatim(base, style) && comp.len() > 0 {
        base.take(prefix_len(base, style)) + render(
            true,
            push_components(components(base, style).drop_first(), components(comp, style), style),
            style,
        )
    } else if physical_root(comp, style) {
        base.take(prefix_len(base, style)) + comp
    } else if base.len() == 0 || is_separator(base.last(), style) || (prefix_kind(base, style)
        == PrefixKind::Disk && prefix_len(base, style) == base.len()) {
        base + comp
    } else {
        base + seq![separator(style)] + comp
    }
}

/// Whether `c` separates components in this style.
pub fn char_is_separator(c: char, style: PathStyle) -> (b: bool)
    ensures
        b == is_separator(c, style),
{
    c == '/' || (style == PathStyle::Windows && c == '\\')
}

/// Whether `c` separates components (only `\` in a verbatim path).
fn char_is_sep_in(c: char, style: PathStyle, verbatim: bool) -> (b: bool)
    ensures
        b == is_sep_in(c, style, verbatim),
{
    (c == '/' && !verbatim) || (style == PathStyle::Windows && c == '\\')
}

/// Whether `c` is an ASCII letter.
fn is_letter(c: char) -> (b: bool)
    ensures
        b == is_ascii_letter(c),
{
    ('a' <= c && c <= 'z') || ('A' <= c && c <= 'Z')
}

/// The separator of a style, as a one-character string.
fn separator_str(style: PathStyle) -> (s: &'static str)
    ensures
        s@ == seq![separator(style)],
{
    match style {
        PathStyle::Unix => {
            let s = "/";
            proof {
                reveal_strlit("/");
            }
            s
        },
        PathStyle::Windows => {
            let s = "\\";
            proof {
                reveal_strlit("\\");
            }
            s
        },
    }
}

/// The first separator at or after `i` (see [`next_sep`]).
fn next_sep_at(p: &str, i: usize, verbatim: bool) -> (r: usize)
    requires
        i <= p@.len(),
    ensures
        r == next_sep(p@, i as int, verbatim),
        i <= r <= p@.len(),
{
    let n = p.unicode_len();
    let mut j = i;
    while j < n && !char_is_sep_in(p.get_char(j), PathStyle::Windows, verbatim)
        invariant
            n == p@.len(),
            i <= j <= n,
            next_sep(p@, i as int, verbatim) == next_sep(p@, j as int, verbatim),
        decreases n - j,
    {
        j = j + 1;
    }
    j
}

/// The kind and length of the prefix a path starts with.
fn prefix_of(p: &str, style: PathStyle) -> (r: (PrefixKind, usize))
    ensures
        r.0 == prefix_kind(p@, style),
        r.1 == prefix_len(p@, style),
        r.1 <= p@.len(),
        r.0 != PrefixKind::NoPrefix ==> r.1 > 0,
{
    if style == PathStyle::Unix {
        return (PrefixKind::NoPrefix, 0);
    }
    let n = p.unicode_len();
    let two = n >= 2 && char_is_separator(p.get_char(0), style) && char_is_separator(
        p.get_char(1),
        style,
    );
    let verb = n >= 4 && p.get_char(0) == '\\' && p.get_char(1) == '\\' && p.get_char(2) == '?'
        && p.get_char(3) == '\\';
    if verb {
        if n >= 8 && p.get_char(4) == 'U' && p.get_char(5) == 'N' && p.get_char(6) == 'C'
            && char_is_separator(p.get_char(7), style) {
            let s = next_sep_at(p, 8, true);
            if s < n {
                let e = next_sep_at(p, s + 1, true);
                if e > s + 1 {
                    return (PrefixKind::VerbatimUnc, e);
                }
            }
            return (PrefixKind::VerbatimUnc, s);
        }
        if n >= 6 && is_letter(p.get_char(4)) && p.get_char(5) == ':' && (n == 6 || p.get_char(6)
            == '\\') {
            return (PrefixKind::VerbatimDisk, 6);
        }
        return (PrefixKind::Verbatim, next_sep_at(p, 4, true));
    }
    if two && n >= 4 && p.get_char(2) == '.' && char_is_separator(p.get_char(3), style) {
        return (PrefixKind::DeviceNs, next_sep_at(p, 4, false));
    }
    if two {
        let s = next_sep_at(p, 2, false);
        if s > 2 && s < n {
            let e = next_sep_at(p, s + 1, false);
            if e > s + 1 {
                return (PrefixKind::Unc, e);
            }
        }
    }
    if n >= 2 && is_letter(p.get_char(0)) && p.get_char(1) == ':' {
        return (PrefixKind::Disk, 2);
    }
    (PrefixKind::NoPrefix, 0)
}

/// Whether a prefix kind is verbatim.
fn verbatim_kind(k: PrefixKind) -> (b: bool)
    ensures
        b == (k == PrefixKind::Verbatim || k == PrefixKind::VerbatimUnc || k
            == PrefixKind::VerbatimDisk),
{
    k == PrefixKind::Verbatim || k == PrefixKind::VerbatimUnc || k == PrefixKind::VerbatimDisk
}

/// Prefix kind and length, separator of the root and leading `.` of a
/// path.
fn path_front(p: &str, style: PathStyle) -> (f: (PrefixKind, usize, bool, bool))
    ensures
        f.0 == prefix_kind(p@, style),
        f.1 == prefix_len(p@, style),
        f.1 <= p@.len(),
        f.0 != PrefixKind::NoPrefix ==> f.1 > 0,
        f.2 == physical_root(p@, style),
        f.3 == has_cur_dir(p@, style),
{
    let (kind, k) = prefix_of(p, style);
    let len = p.unicode_len();
    let root = len > k && char_is_separator(p.get_char(k), style);
    let implicit = kind != PrefixKind::NoPrefix && kind != PrefixKind::Disk;
    let cur = !root && !implicit && len > k && p.get_char(k) == '.' && (len == k + 1
        || char_is_separator(p.get_char(k + 1), style));
    (kind, k, root, cur)
}

/// `base` joined with `comp`, as `PathBuf::push` does (see [`path_join`]).
pub fn join_path(base: &str, comp: &str, style: PathStyle) -> (r: String)
    ensures
        r@ == path_join(base@, comp@, style),
{
    let (_, cl, croot, _) = path_front(comp, style);
    if cl > 0 {
        return String::from_str(comp);
    }
    let (bk, bl, _, _) = path_front(base, style);
    let lc = comp.unicode_len();
    if verbatim_kind(bk) && lc > 0 {
        let bc = path_components(base, style);
        let cc = path_components(comp, style);
        assert(texts(bc@).len() == bc.len());
        let pushed = push_all(&bc, &cc, style);
        let mut r = String::from_str(base.substring_char(0, bl));
        append_rendered(&mut r, &pushed, style);
        return r;
    }
    if croot {
        let mut r = String::from_str(base.substring_char(0, bl));
        r.append(comp);
        return r;
    }
    let lb = base.unicode_len();
    let mut r = String::from_str(base);
    if lb == 0 || char_is_separator(base.get_char(lb - 1), style) || (bk == PrefixKind::Disk && bl
        == lb) {
        r.append(comp);
    } else {
        r.append(separator_str(style));
        r.append(comp);
    }
    r
}

// ----- pushing onto a verbatim path -----

/// The token of the root.
pub open spec fn root_token(style: PathStyle) -> Seq<char> {
    seq![separator(style)]
}

/// Whether a component token is a name (not the root, `.` or `..`).
pub open spec fn is_normal(t: Seq<char>, style: PathStyle) -> bool {
    t != root_token(style) && t != seq!['.'] && t != seq!['.', '.']
}

/// One component pushed onto the components after a verbatim prefix: the
/// root replaces them all, `.` is dropped, `..` removes a name before it.
pub open spec fn push_component(rest: Seq<Seq<char>>, c: Seq<char>, style: PathStyle) -> Seq<
    Seq<char>,
> {
    if c == root_token(style) {
        seq![c]
    } else if c == seq!['.'] {
        rest
    } else if c == seq!['.', '.'] {
        if rest.len() > 0 && is_normal(rest.last(), style) {
            rest.drop_last()
        } else {
            rest
        }
    } else {
        rest.push(c)
    }
}

/// Components pushed one by one (see [`push_component`]).
pub open spec fn push_components(rest: Seq<Seq<char>>, cs: Seq<Seq<char>>, style: PathStyle) -> Seq<
    Seq<char>,
>
    decreases cs.len(),
{
    if cs.len() == 0 {
        rest
    } else {
        push_components(push_component(rest, cs[0], style), cs.drop_first(), style)
    }
}

/// Component tokens written out, a separator before each one that does
/// not follow the root (nor, when `need_sep` is false, the start).
pub open spec fn render(need_sep: bool, ts: Seq<Seq<char>>, style: PathStyle) -> Seq<char>
    decreases ts.len(),
{
    if ts.len() == 0 {
        Seq::empty()
    } else {
        let t = ts[0];
        (if need_sep && t != root_token(style) {
            seq![separator(style)]
        } else {
            Seq::empty()
        }) + t + render(t != root_token(style), ts.drop_first(), style)
    }
}

/// The components of `base` after its prefix, with those of `comp` pushed.
fn push_all(bc: &Vec<String>, cc: &Vec<String>, style: PathStyle) -> (r: Vec<String>)
    requires
        bc.len() > 0,
    ensures
        texts(r@) == push_components(texts(bc@).drop_first(), texts(cc@), style),
{
    let mut rest: Vec<String> = Vec::new();
    let mut i: usize = 1;
    while i < bc.len()
        invariant
            1 <= i <= bc.len(),
            texts(rest@) == texts(bc@).subrange(1, i as int),
        decreases bc.len() - i,
    {
        let ghost before = texts(rest@);
        rest.push(String::from_str(bc[i].as_str()));
        assert(texts(rest@) =~= before.push(bc@[i as int]@));
        assert(texts(bc@).subrange(1, i + 1) =~= texts(bc@).subrange(1, i as int).push(
            texts(bc@)[i as int],
        ));
        i = i + 1;
    }
    assert(texts(bc@).subrange(1, bc.len() as int) =~= texts(bc@).drop_first());
    let ghost goal = push_components(texts(bc@).drop_first(), texts(cc@), style);
    let root = separator_str(style);
    let dot = ".";
    let dots = "..";
    proof {
        reveal_strlit(".");
        reveal_strlit("..");
        assert(texts(cc@).skip(0) =~= texts(cc@));
    }
    let mut j: usize = 0;
    while j < cc.len()
        invariant
            j <= cc.len(),
            root@ == root_token(style),
            dot@ == seq!['.'],
            dots@ == seq!['.', '.'],
            push_components(texts(rest@), texts(cc@).skip(j as int), style) == goal,
        decreases cc.len() - j,
    {
        let c = cc[j].as_str();
        let ghost r0 = texts(rest@);
        assert(texts(cc@).skip(j as int).drop_first() =~= texts(cc@).skip(j + 1));
        assert(texts(cc@).skip(j as int)[0] == c@);
        if crate::text::text_equal(c, root) {
            rest = Vec::new();
            rest.push(String::from_str(c));
            assert(texts(rest@) =~= seq![c@]);
        } else if crate::text::text_equal(c, dot) {
        } else if crate::text::text_equal(c, dots) {
            let n = rest.len();
            if n > 0 {
                let last = rest[n - 1].as_str();
                assert(r0.last() == last@);
                if !crate::text::text_equal(last, root) && !crate::text::text_equal(last, dot)
                    && !crate::text::text_equal(last, dots) {
                    rest.pop();
                    assert(texts(rest@) =~= r0.drop_last());
                }
            }
        } else {
            rest.push(String::from_str(c));
            assert(texts(rest@) =~= r0.push(c@));
        }
        j = j + 1;
    }
    assert(texts(cc@).skip(cc.len() as int) =~= Seq::<Seq<char>>::empty());
    rest
}

/// Appends the tokens written out after a verbatim prefix (see
/// [`render`]).
fn append_rendered(out: &mut String, ts: &Vec<String>, style: PathStyle)
    requires
        style == PathStyle::Windows,
    ensures
        final(out)@ == old(out)@ + render(true, texts(ts@), style),
{
    let root = separator_str(style);
    let mut need_sep = true;
    let mut i: usize = 0;
    proof {
        assert(texts(ts@).skip(0) =~= texts(ts@));
    }
    while i < ts.len()
        invariant
            i <= ts.len(),
            root@ == root_token(style),
            out@ + render(need_sep, texts(ts@).skip(i as int), style) == old(out)@ + render(
                true,
                texts(ts@),
                style,
            ),
        decreases ts.len() - i,
    {
        let t = ts[i].as_str();
        let ghost o = out@;
        assert(texts(ts@).skip(i as int).drop_first() =~= texts(ts@).skip(i + 1));
        assert(texts(ts@).skip(i as int)[0] == t@);
        let is_root = crate::text::text_equal(t, root);
        if need_sep && !is_root {
            out.append(root);
        }
        out.append(t);
        proof {
            let sep: Seq<char> = if need_sep && !is_root {
                seq![separator(style)]
            } else {
                Seq::empty()
            };
            assert(out@ =~= o + sep + t@);
            assert(o + render(need_sep, texts(ts@).skip(i as int), style) =~= o + sep + t@ + render(
                !is_root,
                texts(ts@).skip(i + 1),
                style,
            ));
        }
        need_sep = !is_root;
        i = i + 1;
    }
    assert(texts(ts@).skip(ts.len() as int) =~= Seq::<Seq<char>>::empty());
    assert(out@ + render(need_sep, Seq::<Seq<char>>::empty(), style) =~= out@);
}

// ----- the parent of a path -----

/// `p` without trailing separators and `.` components (which a verbatim
/// path keeps), never cut below its first `b` characters.
pub open spec fn trim_right(p: Seq<char>, b: int, style: PathStyle, v: bool) -> Seq<char>
    decreases p.len(),
{
    if p.len() > b && p.len() > 0 && (is_sep_in(p.last(), style, v) || (!v && p.last() == '.' && (
    p.len() - 1 == b || (p.len() >= 2 && is_sep_in(p[p.len() - 2], style, v))))) {
        trim_right(p.drop_last(), b, style, v)
    } else {
        p
    }
}

/// `p` without the characters after its last separator, never cut below
/// its first `b` characters.
pub open spec fn strip_last(p: Seq<char>, b: int, style: PathStyle, v: bool) -> Seq<char>
    decreases p.len(),
{
    if p.len() > b && p.len() > 0 && !is_sep_in(p.last(), style, v) {
        strip_last(p.drop_last(), b, style, v)
    } else {
        p
    }
}

/// The parent of a path, as `Path::parent` gives it: the path without its
/// last component and the separators and `.` components around it. A path
/// of one relative component (or just `.`) has the empty parent; a path
/// that ends in its root or prefix, and the empty path, have none.
pub open spec fn path_parent(p: Seq<char>, style: PathStyle) -> Option<Seq<char>> {
    let b = before_body(p, style);
    let v = is_verbatim(p, style);
    let q = trim_right(p, b, style, v);
    if q.len() > b {
        Some(trim_right(strip_last(q, b, style, v), b, style, v))
    } else if has_cur_dir(p, style) && prefix_len(p, style) == 0 {
        Some(Seq::empty())
    } else {
        None
    }
}

/// Whether `p` ends in a name: neither in a separator nor, outside a
/// verbatim path, in a `.` component.
pub open spec fn ends_in_name(p: Seq<char>, b: int, style: PathStyle, v: bool) -> bool {
    &&& p.len() > 0
    &&& !is_sep_in(p.last(), style, v)
    &&& (v || !(p.last() == '.' && (p.len() - 1 == b || (p.len() >= 2 && is_sep_in(
        p[p.len() - 2],
        style,
        v,
    )))))
}

proof fn lemma_strip_name(x: Seq<char>, n: Seq<char>, b: int, style: PathStyle, v: bool)
    requires
        x.len() > b,
        x.len() > 0,
        is_sep_in(x.last(), style, v),
        forall|i: int| 0 <= i < n.len() ==> !is_sep_in(#[trigger] n[i], style, v),
    ensures
        strip_last(x + n, b, style, v) == x,
    decreases n.len(),
{
    if n.len() == 0 {
        assert(x + n =~= x);
    } else {
        assert((x + n).drop_last() =~= x + n.drop_last());
        assert((x + n).last() == n[n.len() - 1]);
        lemma_strip_name(x, n.drop_last(), b, style, v);
    }
}

/// The parent of a path that ends in a name is the path before that name:
/// for a path `p` that ends in a name and reaches past the prefix and root,
/// a separator `s` and a name `n` (no separators, not `.`), the parent of
/// `p s n` is `p`. In Windows style `/` and `\` both separate components
/// (in a verbatim path only `\`).
pub proof fn lemma_parent_of_child(p: Seq<char>, s: char, n: Seq<char>, style: PathStyle)
    requires
        is_sep_in(s, style, is_verbatim(p.push(s) + n, style)),
        n.len() > 0,
        n != seq!['.'],
        forall|i: int|
            0 <= i < n.len() ==> !is_sep_in(#[trigger] n[i], style, is_verbatim(p.push(s) + n, style)),
        p.len() > before_body(p.push(s) + n, style),
        ends_in_name(p, before_body(p.push(s) + n, style), style, is_verbatim(p.push(s) + n, style)),
    ensures
        path_parent(p.push(s) + n, style) == Some(p),
{
    let q = p.push(s) + n;
    let b = before_body(q, style);
    let v = is_verbatim(q, style);
    assert(q.last() == n[n.len() - 1]);
    if n.len() == 1 {
        assert(n[0] != '.') by {
            if n[0] == '.' {
                assert(n =~= seq!['.']);
            }
        }
    } else {
        assert(q[q.len() - 2] == n[n.len() - 2]);
    }
    assert(trim_right(q, b, style, v) == q);
    lemma_strip_name(p.push(s), n, b, style, v);
    assert(p.push(s).drop_last() =~= p);
    assert(trim_right(p, b, style, v) == p);
    assert(trim_right(p.push(s), b, style, v) == p);
}

/// The length `trim_right` leaves of the first `end` characters of `p`.
fn trim_right_len(p: &str, b: usize, end: usize, style: PathStyle, v: bool) -> (k: usize)
    requires
        b <= end <= p@.len(),
    ensures
        b <= k <= end,
        p@.take(k as int) == trim_right(p@.take(end as int), b as int, style, v),
{
    let mut k = end;
    while k > b && (char_is_sep_in(p.get_char(k - 1), style, v) || (!v && p.get_char(k - 1) == '.'
        && (k - 1 == b || (k >= 2 && char_is_sep_in(p.get_char(k - 2), style, v)))))
        invariant
            b <= k <= end <= p@.len(),
            trim_right(p@.take(end as int), b as int, style, v) == trim_right(
                p@.take(k as int),
                b as int,
                style,
                v,
            ),
        decreases k,
    {
        assert(p@.take(k as int).drop_last() =~= p@.take(k - 1));
        k = k - 1;
    }
    k
}

/// The length `strip_last` leaves of the first `end` characters of `p`.
fn strip_last_len(p: &str, b: usize, end: usize, style: PathStyle, v: bool) -> (k: usize)
    requires
        b <= end <= p@.len(),
    ensures
        b <= k <= end,
        p@.take(k as int) == strip_last(p@.take(end as int), b as int, style, v),
{
    let mut k = end;
    while k > b && !char_is_sep_in(p.get_char(k - 1), style, v)
        invariant
            b <= k <= end <= p@.len(),
            strip_last(p@.take(end as int), b as int, style, v) == strip_last(
                p@.take(k as int),
                b as int,
                style,
                v,
            ),
        decreases k,
    {
        assert(p@.take(k as int).drop_last() =~= p@.take(k - 1));
        k = k - 1;
    }
    k
}

/// The parent of a path (see [`path_parent`]).
pub fn parent_path(p: &str, style: PathStyle) -> (r: Option<String>)
    ensures
        match r {
            Some(x) => path_parent(p@, style) == Some(x@),
            None => path_parent(p@, style) is None,
        },
{
    let (kind, k, root, cur) = path_front(p, style);
    let v = verbatim_kind(kind);
    let len = p.unicode_len();
    let b = k + (if root {
        1usize
    } else {
        0usize
    }) + (if cur {
        1usize
    } else {
        0usize
    });
    assert(p@.take(len as int) =~= p@);
    let q = trim_right_len(p, b, len, style, v);
    if q > b {
        let s = strip_last_len(p, b, q, style, v);
        let t = trim_right_len(p, b, s, style, v);
        Some(String::from_str(p.substring_char(0, t)))
    } else if cur && k == 0 {
        Some(String::new())
    } else {
        None
    }
}

// ----- comparing paths -----

/// The texts of a list of strings.
pub open spec fn texts(v: Seq<String>) -> Seq<Seq<char>> {
    v.map_values(|s: String| s@)
}

/// The upper-case ASCII letters.
pub open spec fn upper_letters() -> Seq<char> {
    seq!['A', 'B', 'C', 'D', 'E', 'F', 'G', 'H', 'I', 'J', 'K', 'L', 'M', 'N', 'O', 'P', 'Q', 'R', 'S', 'T', 'U', 'V', 'W', 'X', 'Y', 'Z']
}

/// The place of an ASCII letter in the alphabet.
pub open spec fn letter_index(c: char) -> int {
    if 'a' <= c && c <= 'z' {
        c as int - 'a' as int
    } else {
        c as int - 'A' as int
    }
}

/// The token that stands for a drive: its letter in upper case and `:`.
pub open spec fn drive_token(c: char) -> Seq<char> {
    seq![upper_letters()[letter_index(c)], ':']
}

/// The token that stands for a path's prefix; prefixes compare equal when
/// `std::path` reads them as the same (drive letters in either case).
pub open spec fn prefix_token(p: Seq<char>, style: PathStyle) -> Seq<char> {
    let k = prefix_len(p, style);
    match prefix_kind(p, style) {
        PrefixKind::NoPrefix => Seq::empty(),
        PrefixKind::Disk => drive_token(p[0]),
        PrefixKind::VerbatimDisk => "\\\\?\\"@ + drive_token(p[4]),
        PrefixKind::Unc => "//"@ + p.subrange(2, unc_server_end(p)) + "/"@ + p.subrange(
            unc_server_end(p) + 1,
            k,
        ),
        PrefixKind::VerbatimUnc => "\\\\?\\UNC\\"@ + p.subrange(8, vunc_server_end(p)) + "\\"@ + (
        if k > vunc_server_end(p) {
            p.subrange(vunc_server_end(p) + 1, k)
        } else {
            Seq::empty()
        }),
        PrefixKind::Verbatim => p.take(k),
        PrefixKind::DeviceNs => "\\\\.\\"@ + p.subrange(4, k),
    }
}

/// `parts` with `comp` added, unless `comp` is empty, or `.` outside a
/// verbatim path.
pub open spec fn flush(parts: Seq<Seq<char>>, comp: Seq<char>, v: bool) -> Seq<Seq<char>> {
    if comp.len() == 0 || (!v && comp == seq!['.']) {
        parts
    } else {
        parts.push(comp)
    }
}

/// The named components of `p` up to `cur_end`, where the characters from
/// `end` to `cur_end` are the end of the component being read and nothing
/// before the first `b` characters is read.
pub open spec fn parts(p: Seq<char>, b: int, end: int, cur_end: int, style: PathStyle, v: bool) -> Seq<
    Seq<char>,
>
    decreases end,
{
    if end <= b || end <= 0 {
        flush(Seq::empty(), p.subrange(end, cur_end), v)
    } else if is_sep_in(p[end - 1], style, v) {
        flush(parts(p, b, end - 1, end - 1, style, v), p.subrange(end, cur_end), v)
    } else {
        parts(p, b, end - 1, cur_end, style, v)
    }
}

/// The components of a path, as `Path::components` yields them and `==` on
/// paths compares them: the prefix, the root (whichever separator it is
/// written with, or implied by a prefix that is not verbatim), a leading
/// `.` when there is no prefix, then each name, leaving out empty names
/// and, outside verbatim paths, `.` names.
pub open spec fn components(p: Seq<char>, style: PathStyle) -> Seq<Seq<char>> {
    let k = prefix_len(p, style);
    let v = is_verbatim(p, style);
    let prefix: Seq<Seq<char>> = if k > 0 {
        seq![prefix_token(p, style)]
    } else {
        Seq::empty()
    };
    let root: Seq<Seq<char>> = if physical_root(p, style) || (implicit_root(p, style) && !v) {
        seq![root_token(style)]
    } else {
        Seq::empty()
    };
    let cur: Seq<Seq<char>> = if has_cur_dir(p, style) && k == 0 {
        seq![seq!['.']]
    } else {
        Seq::empty()
    };
    prefix + root + cur + parts(p, before_body(p, style), p.len() as int, p.len() as int, style, v)
}

/// Whether two paths are equal as `Path` values: they have the same
/// components.
pub open spec fn same_path(a: Seq<char>, b: Seq<char>, style: PathStyle) -> bool {
    components(a, style) == components(b, style)
}

/// Adds `comp` to `out` unless it is empty, or `.` outside a verbatim path.
fn push_flushed(out: &mut Vec<String>, comp: &str, v: bool)
    ensures
        texts(final(out)@) == flush(texts(old(out)@), comp@, v),
{
    let n = comp.unicode_len();
    if n == 0 || (!v && n == 1 && comp.get_char(0) == '.') {
        assert(n == 1 ==> comp@ =~= seq!['.']);
        return;
    }
    assert(!v ==> comp@ != seq!['.']) by {
        if comp@ == seq!['.'] {
            assert(comp@[0] == '.');
        }
    }
    out.push(String::from_str(comp));
    assert(texts(out@) =~= texts(old(out)@).push(comp@));
}

/// Adds the named components of `p` (see [`parts`]) to `out`.
fn push_parts(
    p: &str,
    b: usize,
    end: usize,
    cur_end: usize,
    style: PathStyle,
    v: bool,
    out: &mut Vec<String>,
)
    requires
        end <= cur_end <= p@.len(),
    ensures
        texts(final(out)@) == texts(old(out)@) + parts(
            p@,
            b as int,
            end as int,
            cur_end as int,
            style,
            v,
        ),
    decreases end,
{
    if end <= b || end == 0 {
        let comp = p.substring_char(end, cur_end);
        let ghost before = texts(out@);
        push_flushed(out, comp, v);
        assert(flush(before, comp@, v) =~= before + flush(Seq::empty(), comp@, v));
    } else if char_is_sep_in(p.get_char(end - 1), style, v) {
        let ghost before = texts(out@);
        push_parts(p, b, end - 1, end - 1, style, v, out);
        let ghost mid = parts(p@, b as int, end - 1, end - 1, style, v);
        let comp = p.substring_char(end, cur_end);
        push_flushed(out, comp, v);
        assert(flush(before + mid, comp@, v) =~= before + flush(mid, comp@, v));
    } else {
        push_parts(p, b, end - 1, cur_end, style, v, out);
    }
}

/// The token of the drive whose letter is `c`.
fn drive_text(c: char) -> (t: String)
    requires
        is_ascii_letter(c),
    ensures
        t@ == drive_token(c),
{
    let letters = "ABCDEFGHIJKLMNOPQRSTUVWXYZ";
    let colon = ":";
    proof {
        reveal_strlit("ABCDEFGHIJKLMNOPQRSTUVWXYZ");
        reveal_strlit(":");
    }
    let i: usize = if 'a' <= c && c <= 'z' {
        (c as u32 - 'a' as u32) as usize
    } else {
        (c as u32 - 'A' as u32) as usize
    };
    let mut t = String::from_str(letters.substring_char(i, i + 1));
    t.append(colon);
    assert(t@ =~= drive_token(c));
    t
}

/// The token of a path's prefix (see [`prefix_token`]).
fn prefix_text(p: &str, style: PathStyle, kind: PrefixKind, k: usize) -> (t: String)
    requires
        kind == prefix_kind(p@, style),
        k == prefix_len(p@, style),
        k <= p@.len(),
    ensures
        t@ == prefix_token(p@, style),
{
    match kind {
        PrefixKind::NoPrefix => String::new(),
        PrefixKind::Disk => drive_text(p.get_char(0)),
        PrefixKind::VerbatimDisk => {
            let mut t = String::from_str("\\\\?\\");
            let d = drive_text(p.get_char(4));
            t.append(d.as_str());
            t
        },
        PrefixKind::Unc => {
            let s = next_sep_at(p, 2, false);
            let mut t = String::from_str("//");
            t.append(p.substring_char(2, s));
            t.append("/");
            t.append(p.substring_char(s + 1, k));
            t
        },
        PrefixKind::VerbatimUnc => {
            let s = next_sep_at(p, 8, true);
            let mut t = String::from_str("\\\\?\\UNC\\");
            t.append(p.substring_char(8, s));
            t.append("\\");
            if k > s {
                t.append(p.substring_char(s + 1, k));
            }
            t
        },
        PrefixKind::Verbatim => String::from_str(p.substring_char(0, k)),
        PrefixKind::DeviceNs => {
            let e = next_sep_at(p, 4, false);
            let mut t = String::from_str("\\\\.\\");
            t.append(p.substring_char(4, k));
            t
        },
    }
}

/// The components of a path (see [`components`]), each as text.
pub fn path_components(p: &str, style: PathStyle) -> (r: Vec<String>)
    ensures
        texts(r@) == components(p@, style),
{
    let (kind, k, root, cur) = path_front(p, style);
    let v = verbatim_kind(kind);
    let implicit = kind != PrefixKind::NoPrefix && kind != PrefixKind::Disk;
    let len = p.unicode_len();
    let mut r: Vec<String> = Vec::new();
    let ghost front: Seq<Seq<char>> = Seq::empty();
    if k > 0 {
        r.push(prefix_text(p, style, kind, k));
        proof {
            front = front.push(prefix_token(p@, style));
        }
        assert(texts(r@) =~= front);
    }
    if root || (implicit && !v) {
        let ghost before = texts(r@);
        let t = String::from_str(separator_str(style));
        r.push(t);
        proof {
            front = front.push(root_token(style));
        }
        assert(texts(r@) =~= before.push(root_token(style)));
        assert(texts(r@) =~= front);
    }
    if cur && k == 0 {
        let dot = ".";
        proof {
            reveal_strlit(".");
        }
        let ghost before = texts(r@);
        let t = String::from_str(dot);
        assert(t@ =~= seq!['.']);
        r.push(t);
        proof {
            front = front.push(seq!['.']);
        }
        assert(texts(r@) =~= before.push(seq!['.']));
        assert(texts(r@) =~= front);
    }
    assert(texts(r@) =~= front);
    let b = k + (if root {
        1usize
    } else {
        0usize
    }) + (if cur {
        1usize
    } else {
        0usize
    });
    push_parts(p, b, len, len, style, v, &mut r);
    let ghost pre: Seq<Seq<char>> = if k > 0 {
        seq![prefix_token(p@, style)]
    } else {
        Seq::empty()
    };
    let ghost rootp: Seq<Seq<char>> = if root || (implicit && !v) {
        seq![root_token(style)]
    } else {
        Seq::empty()
    };
    let ghost curp: Seq<Seq<char>> = if cur && k == 0 {
        seq![seq!['.']]
    } else {
        Seq::empty()
    };
    assert(front =~= pre + rootp + curp);
    r
}

/// Whether two paths are equal as `Path` values (see [`same_path`]).
pub fn paths_equal(a: &str, b: &str, style: PathStyle) -> (r: bool)
    ensures
        r == same_path(a@, b@, style),
{
    let ca = path_components(a, style);
    let cb = path_components(b, style);
    assert(texts(ca@).len() == ca.len() && texts(cb@).len() == cb.len());
    if ca.len() != cb.len() {
        return false;
    }
    let mut i: usize = 0;
    while i < ca.len()
        invariant
            ca.len() == cb.len(),
            texts(ca@) == components(a@, style),
            texts(cb@) == components(b@, style),
            i <= ca.len(),
            forall|j: int| 0 <= j < i ==> ca@[j]@ == cb@[j]@,
        decreases ca.len() - i,
    {
        if !crate::text::text_equal(ca[i].as_str(), cb[i].as_str()) {
            assert(texts(ca@)[i as int] != texts(cb@)[i as int]);
            return false;
        }
        i = i + 1;
    }
    assert(texts(ca@) =~= texts(cb@));
    true
}

/// The last component of a path when it is a name, as `Path::file_name`
/// gives it: absent when the path ends in its prefix, root, a `.` or `..`.
pub open spec fn file_name(p: Seq<char>, style: PathStyle) -> Option<Seq<char>> {
    let names = parts(
        p,
        before_body(p, style),
        p.len() as int,
        p.len() as int,
        style,
        is_verbatim(p, style),
    );
    if names.len() > 0 && names.last() != seq!['.'] && names.last() != seq!['.', '.'] {
        Some(names.last())
    } else {
        None
    }
}

/// The last component of a path when it is a name (see [`file_name`]).
pub fn path_file_name(p: &str, style: PathStyle) -> (r: Option<String>)
    ensures
        match r {
            Some(x) => file_name(p@, style) == Some(x@),
            None => file_name(p@, style) is None,
        },
{
    let (kind, k, root, cur) = path_front(p, style);
    let v = verbatim_kind(kind);
    let len = p.unicode_len();
    let b = k + (if root {
        1usize
    } else {
        0usize
    }) + (if cur {
        1usize
    } else {
        0usize
    });
    let mut names: Vec<String> = Vec::new();
    push_parts(p, b, len, len, style, v, &mut names);
    assert(texts(names@) =~= parts(p@, b as int, len as int, len as int, style, v));
    let n = names.len();
    if n == 0 {
        return None;
    }
    let last = names[n - 1].as_str();
    assert(texts(names@).len() == n);
    assert(texts(names@).last() == last@);
    let dot = ".";
    let dots = "..";
    proof {
        reveal_strlit(".");
        reveal_strlit("..");
    }
    assert(seq!['.', '.'] =~= dots@);
    assert(seq!['.'] =~= dot@);
    if crate::text::text_equal(last, dots) || crate::text::text_equal(last, dot) {
        None
    } else {
        Some(String::from_str(last))
    }
}

} // verus!
