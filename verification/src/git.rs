//! Values from the user's git configuration (`~/.gitconfig`).

use vstd::prelude::*;
use vstd::string::*;
use vstd::utf8::{decode_utf8, encode_utf8, encode_utf8_decode_utf8, encode_utf8_valid_utf8, is_char_boundary,
    is_char_boundary_start_end_of_seq, valid_utf8};

use crate::config::{style_for_os, VoltConfig};
use crate::errors::VoltError;
use crate::paths::{join_path, path_join};
use crate::config::path_style_for_os;
use crate::text::{decimal, text_equal, u64_to_decimal};

verus! {

/// The place of a value in a git configuration: section, optional
/// subsection, and key.
#[derive(Debug)]
pub struct GitConfigQuery {
    pub section: String,
    pub subsection: Option<String>,
    pub key: String,
}

/// The place a supported dotted key names: `user.name`, `user.email`
/// and `repository.url` (read from `remote "origin"`); other keys name
/// nothing.
pub open spec fn query_for(key: Seq<char>) -> Option<(Seq<char>, Option<Seq<char>>, Seq<char>)> {
    if key == "user.name"@ {
        Some(("user"@, None, "name"@))
    } else if key == "user.email"@ {
        Some(("user"@, None, "email"@))
    } else if key == "repository.url"@ {
        Some(("remote"@, Some("origin"@), "url"@))
    } else {
        None
    }
}

/// The view of a query.
pub open spec fn query_view(q: GitConfigQuery) -> (Seq<char>, Option<Seq<char>>, Seq<char>) {
    (
        q.section@,
        match q.subsection {
            Some(s) => Some(s@),
            None => None,
        },
        q.key@,
    )
}

/// Where a dotted key is read from, if it is supported.
pub fn git_config_query(key: &str) -> (q: Option<GitConfigQuery>)
    ensures
        match q {
            Some(x) => query_for(key@) == Some(query_view(x)),
            None => query_for(key@) is None,
        },
{
    if text_equal(key, "user.name") {
        Some(GitConfigQuery { section: String::from_str("user"), subsection: None, key: String::from_str("name") })
    } else if text_equal(key, "user.email") {
        Some(GitConfigQuery { section: String::from_str("user"), subsection: None, key: String::from_str("email") })
    } else if text_equal(key, "repository.url") {
        Some(
            GitConfigQuery {
                section: String::from_str("remote"),
                subsection: Some(String::from_str("origin")),
                key: String::from_str("url"),
            },
        )
    } else {
        None
    }
}

/// The file the user's git configuration is read from.
pub fn git_config_path(config: &VoltConfig) -> (p: String)
    ensures
        p@ == path_join(config.home_dir@, ".gitconfig"@, style_for_os(config.os@)),
{
    let style = path_style_for_os(config.os.as_str());
    join_path(config.home_dir.as_str(), ".gitconfig", style)
}

/// Where `git_config`'s parser stopped on a text it could not parse.
#[derive(Debug)]
pub struct ParseFailure {
    /// The one-indexed line it stopped on.
    pub line: usize,
    /// The bytes it left unparsed: the end of the text.
    pub rest: Vec<u8>,
    /// Whether it was reading a config name when it stopped (otherwise a
    /// section header).
    pub in_config_name: bool,
}

/// The error `git_config::parser::parse_from_str` gives for a text: its
/// line number (`Error::line_number`), the bytes it left unparsed
/// (`Error::remaining_data`) and whether the parser last attempted was the
/// config-name one; `None` when the text parses.
pub uninterp spec fn git_config_parse_error(data: Seq<char>) -> Option<(usize, Seq<u8>, bool)>;

/// The raw bytes `GitConfig::get_raw_value` gives at a place of a text
/// that parses; `None` when the value is not set there.
pub uninterp spec fn git_config_raw(
    data: Seq<char>,
    section: Seq<char>,
    subsection: Option<Seq<char>>,
    key: Seq<char>,
) -> Option<Seq<u8>>;

/// The text `String::from_utf8_lossy` makes of some bytes.
pub uninterp spec fn utf8_lossy(bytes: Seq<u8>) -> Seq<char>;

/// The values of an optional byte vector.
pub open spec fn opt_bytes(o: Option<Vec<u8>>) -> Option<Seq<u8>> {
    match o {
        Some(v) => Some(v@),
        None => None,
    }
}

/// Parses `data` with `git_config::parser::parse_from_str`. On an error,
/// gives `Error::line_number`, a copy of `Error::remaining_data` (the
/// unparsed end of the input, which is never empty) and whether the
/// error's debug form names the `ConfigName` parser (the parser node has
/// no other public reader). Otherwise converts the parser into a
/// `git_config::file::GitConfig` with `From` and calls `get_raw_value` on
/// it; a value that is not set comes back as `None`.
#[verifier::external_body]
fn git_config_raw_value(data: &str, query: &GitConfigQuery) -> (r: Result<Option<Vec<u8>>, ParseFailure>)
    ensures
        match r {
            Err(f) => {
                &&& git_config_parse_error(data@) == Some((f.line, f.rest@, f.in_config_name))
                &&& 0 < f.rest.len() <= data.spec_bytes().len()
                &&& f.rest@ == data.spec_bytes().subrange(
                    data.spec_bytes().len() - f.rest.len(),
                    data.spec_bytes().len() as int,
                )
            },
            Ok(v) => {
                &&& git_config_parse_error(data@) is None
                &&& opt_bytes(v) == git_config_raw(
                    data@,
                    query_view(*query).0,
                    query_view(*query).1,
                    query_view(*query).2,
                )
            },
        },
{
    let parser = match git_config::parser::parse_from_str(data) {
        Ok(p) => p,
        Err(e) => {
            let in_config_name = format!("{:?}", e).contains("ConfigName");
            return Err(ParseFailure { line: e.line_number(), rest: e.remaining_data().to_vec(), in_config_name });
        },
    };
    let config = git_config::file::GitConfig::from(parser);
    let sub = query.subsection.as_deref();
    Ok(config.get_raw_value(&query.section, sub, &query.key).ok().map(|v| v.into_owned()))
}

/// Calls `String::from_utf8_lossy`: bytes that are valid UTF-8 give the
/// text they encode.
#[verifier::external_body]
fn lossy_text(bytes: &[u8]) -> (s: String)
    ensures
        s@ == utf8_lossy(bytes@),
        valid_utf8(bytes@) ==> s@ == decode_utf8(bytes@),
{
    String::from_utf8_lossy(bytes).into_owned()
}

// ----- the parse error's message -----

/// The lower-case hexadecimal digits.
pub open spec fn hex_digits() -> Seq<char> {
    seq!['0', '1', '2', '3', '4', '5', '6', '7', '8', '9', 'a', 'b', 'c', 'd', 'e', 'f']
}

/// A byte as two lower-case hexadecimal digits.
pub open spec fn hex_byte(b: u8) -> Seq<char> {
    seq![hex_digits()[(b / 16) as int], hex_digits()[(b % 16) as int]]
}

/// Bytes as two-digit hexadecimal numbers separated by `, `.
pub open spec fn hex_items(s: Seq<u8>) -> Seq<char>
    decreases s.len(),
{
    if s.len() == 0 {
        Seq::empty()
    } else if s.len() == 1 {
        hex_byte(s[0])
    } else {
        hex_items(s.drop_last()) + ", "@ + hex_byte(s.last())
    }
}

/// Bytes as `format!("{:02x?}", bytes)` writes them: `[0a, ff]`.
pub open spec fn hex_list(s: Seq<u8>) -> Seq<char> {
    "["@ + hex_items(s) + "]"@
}

/// The largest place at or below `k` where `bytes` can be cut between two
/// characters.
pub open spec fn cut_below(bytes: Seq<u8>, k: nat) -> nat
    decreases k,
{
    if k == 0 || is_char_boundary(bytes, k as int) {
        k
    } else {
        cut_below(bytes, (k - 1) as nat)
    }
}

/// How the message shows the unparsed end `rest` of the text `data`. The
/// rest is valid UTF-8 exactly when it starts between two characters of
/// the text; then it is shown as text, else as hexadecimal bytes. A rest of
/// more than ten bytes is shown by its first ten and the count of the
/// others; where ten bytes would cut a character in two, the text shown
/// stops before that character.
pub open spec fn rest_shown(data: Seq<char>, rest: Seq<u8>) -> Seq<char> {
    let b = encode_utf8(data);
    let omitted = "' ... ("@ + decimal((rest.len() - 10) as nat) + " characters omitted)"@;
    if is_char_boundary(b, b.len() - rest.len()) {
        if rest.len() > 10 {
            "'"@ + decode_utf8(rest.take(cut_below(rest, 10) as int)) + omitted
        } else {
            "'"@ + decode_utf8(rest) + "'"@
        }
    } else if rest.len() > 10 {
        "'"@ + hex_list(rest.take(10)) + omitted
    } else {
        "'"@ + hex_list(rest) + "'"@
    }
}

/// The message of a parse error, as the parser's error displays itself.
pub open spec fn parse_error_text(data: Seq<char>, line: usize, rest: Seq<u8>, in_config_name: bool) -> Seq<
    char,
> {
    "Got an unexpected token on line "@ + decimal(line as nat) + " while trying to parse a "@ + (
    if in_config_name {
        "config name"@
    } else {
        "section header"@
    }) + ": "@ + rest_shown(data, rest)
}

/// The hexadecimal form of the first `n` bytes (see [`hex_list`]).
fn hex_text(bytes: &[u8], n: usize) -> (s: String)
    requires
        n <= bytes.len(),
    ensures
        s@ == hex_list(bytes@.take(n as int)),
{
    let digits = "0123456789abcdef";
    proof {
        reveal_strlit("0123456789abcdef");
        assert(digits@ =~= hex_digits());
    }
    let mut s = String::from_str("[");
    let mut i: usize = 0;
    while i < n
        invariant
            n <= bytes.len(),
            i <= n,
            digits@ == hex_digits(),
            s@ == "["@ + hex_items(bytes@.take(i as int)),
        decreases n - i,
    {
        let ghost before = s@;
        if i > 0 {
            s.append(", ");
        }
        let b = bytes[i];
        let hi = (b / 16) as usize;
        let lo = (b % 16) as usize;
        s.append(digits.substring_char(hi, hi + 1));
        s.append(digits.substring_char(lo, lo + 1));
        proof {
            let t = bytes@.take(i + 1);
            assert(t.drop_last() =~= bytes@.take(i as int));
            assert(t.last() == b);
            if i == 0 {
                assert(s@ =~= "["@ + hex_items(t));
            } else {
                assert(s@ =~= "["@ + hex_items(t));
            }
        }
        i = i + 1;
    }
    s.append("]");
    s
}

/// The message of a parse error (see [`parse_error_text`]).
pub fn parse_error_message(data: &str, f: &ParseFailure) -> (m: String)
    requires
        0 < f.rest.len() <= data.spec_bytes().len(),
        f.rest@ == data.spec_bytes().subrange(
            data.spec_bytes().len() - f.rest.len(),
            data.spec_bytes().len() as int,
        ),
    ensures
        m@ == parse_error_text(data@, f.line, f.rest@, f.in_config_name),
{
    let mut m = String::from_str("Got an unexpected token on line ");
    let line = u64_to_decimal(f.line as u64);
    m.append(line.as_str());
    m.append(" while trying to parse a ");
    if f.in_config_name {
        m.append("config name");
    } else {
        m.append("section header");
    }
    m.append(": ");
    let n = f.rest.len();
    let all = data.as_bytes();
    let off = all.len() - n;
    let omitted = if n > 10 {
        let mut o = String::from_str("' ... (");
        let k = u64_to_decimal((n - 10) as u64);
        o.append(k.as_str());
        o.append(" characters omitted)");
        o
    } else {
        String::new()
    };
    if data.is_char_boundary(off) {
        let (_, rest) = data.split_at(off);
        assert(rest.spec_bytes() =~= f.rest@);
        m.append("'");
        if n > 10 {
            let mut k: usize = 10;
            while k > 0 && !rest.is_char_boundary(k)
                invariant
                    k <= 10,
                    10 < rest.spec_bytes().len(),
                    cut_below(rest.spec_bytes(), k as nat) == cut_below(rest.spec_bytes(), 10),
                decreases k,
            {
                k = k - 1;
            }
            proof {
                encode_utf8_valid_utf8(rest@);
                is_char_boundary_start_end_of_seq(rest.spec_bytes());
            }
            let (head, _) = rest.split_at(k);
            proof {
                encode_utf8_decode_utf8(head@);
                assert(head.spec_bytes() =~= f.rest@.take(k as int));
            }
            m.append(head);
            m.append(omitted.as_str());
        } else {
            proof {
                encode_utf8_decode_utf8(rest@);
            }
            m.append(rest);
            m.append("'");
        }
    } else {
        m.append("'");
        let h = if n > 10 {
            hex_text(f.rest.as_slice(), 10)
        } else {
            hex_text(f.rest.as_slice(), n)
        };
        m.append(h.as_str());
        if n > 10 {
            m.append(omitted.as_str());
        } else {
            assert(f.rest@.take(n as int) =~= f.rest@);
            m.append("'");
        }
    }
    m
}

/// What `get_git_config` gives for a configuration text and a place.
pub open spec fn value_at(data: Seq<char>, q: (Seq<char>, Option<Seq<char>>, Seq<char>)) -> Result<
    Option<Seq<char>>,
    Seq<char>,
> {
    match git_config_parse_error(data) {
        Some((line, rest, in_config_name)) => Err(parse_error_text(data, line, rest, in_config_name)),
        None => match git_config_raw(data, q.0, q.1, q.2) {
            None => Ok(None),
            Some(b) => Ok(Some(utf8_lossy(b))),
        },
    }
}

/// The value at a place in a configuration text, decoded as UTF-8 with
/// invalid sequences replaced; a text that does not parse gives the parse
/// error's message.
pub fn git_config_value(data: &str, query: &GitConfigQuery) -> (r: Result<Option<String>, VoltError>)
    ensures
        match value_at(data@, query_view(*query)) {
            Err(e) => r matches Err(VoltError::GitConfigParseError { error_text }) && error_text@ == e,
            Ok(None) => r matches Ok(None),
            Ok(Some(v)) => r matches Ok(Some(s)) && s@ == v,
        },
{
    match git_config_raw_value(data, query) {
        Err(f) => Err(VoltError::GitConfigParseError { error_text: parse_error_message(data, &f) }),
        Ok(None) => Ok(None),
        Ok(Some(bytes)) => Ok(Some(lossy_text(bytes.as_slice()))),
    }
}

/// A value from the user's git configuration. `file` is the content of
/// the configuration file, or `None` when there is no such file; an
/// unsupported key gives `None` without looking.
pub fn get_git_config(key: &str, file: Option<&str>) -> (r: Result<Option<String>, VoltError>)
    ensures
        match query_for(key@) {
            None => r matches Ok(None),
            Some(q) => match file {
                None => r matches Ok(None),
                Some(data) => match value_at(data@, q) {
                    Err(e) => r matches Err(VoltError::GitConfigParseError { error_text }) && error_text@ == e,
                    Ok(None) => r matches Ok(None),
                    Ok(Some(v)) => r matches Ok(Some(s)) && s@ == v,
                },
            },
        },
{
    match git_config_query(key) {
        None => Ok(None),
        Some(q) => match file {
            None => Ok(None),
            Some(data) => git_config_value(data, &q),
        },
    }
}

/// The key `init --yes` asks for the repository with,
/// `remote.origin.url`, is not a supported key, so no repository is ever
/// read from git.
pub proof fn lemma_remote_origin_url_unsupported()
    ensures
        query_for("remote.origin.url"@) is None,
{
    reveal_strlit("remote.origin.url");
    reveal_strlit("user.name");
    reveal_strlit("user.email");
    reveal_strlit("repository.url");
    assert("remote.origin.url"@.len() != "user.name"@.len());
    assert("remote.origin.url"@.len() != "user.email"@.len());
    assert("remote.origin.url"@.len() != "repository.url"@.len());
}

} // verus!
