//! `volt init`: the data of a new `package.json`, the rule for package
//! names, and the question-and-answer dialogue that fills it in.

use vstd::prelude::*;
use vstd::string::*;

use crate::text::text_equal;

verus! {

/// The `init` command: `yes` takes every default without asking.
#[derive(Debug)]
pub struct Init {
    pub yes: bool,
}

/// The licenses offered for a new package.
#[derive(PartialEq, Eq, Structural, Clone, Copy, Debug)]
pub enum License {
    Mit,
    Apache2,
    Bsd3,
    Bsd2,
    Gpl3,
    Lgpl3,
    Mpl2,
    Unlicense,
}

/// The licenses in the order they are offered.
pub open spec fn license_at(index: int) -> Option<License> {
    if index == 0 {
        Some(License::Mit)
    } else if index == 1 {
        Some(License::Apache2)
    } else if index == 2 {
        Some(License::Bsd3)
    } else if index == 3 {
        Some(License::Bsd2)
    } else if index == 4 {
        Some(License::Gpl3)
    } else if index == 5 {
        Some(License::Lgpl3)
    } else if index == 6 {
        Some(License::Mpl2)
    } else if index == 7 {
        Some(License::Unlicense)
    } else {
        None
    }
}

/// The name a license is offered under.
pub open spec fn license_title(l: License) -> Seq<char> {
    match l {
        License::Mit => "MIT License"@,
        License::Apache2 => "Apache License 2.0"@,
        License::Bsd3 => "BSD 3-Clause License"@,
        License::Bsd2 => "BSD 2-Clause License"@,
        License::Gpl3 => "GNU General Public License v3.0"@,
        License::Lgpl3 => "GNU Lesser General Public License v3.0"@,
        License::Mpl2 => "Mozilla Public License 2.0"@,
        License::Unlicense => "The Unlicense"@,
    }
}

/// The name offered at a position.
pub open spec fn offered_title(index: int) -> Seq<char> {
    match license_at(index) {
        Some(l) => license_title(l),
        None => Seq::empty(),
    }
}

/// How many licenses are offered.
pub open spec fn license_count() -> nat {
    8
}

impl License {
    /// The license a package gets when nobody chooses one.
    pub fn default_license() -> (l: License)
        ensures
            l == License::Mit,
    {
        License::Mit
    }

    /// The name this license is offered under.
    pub fn title(&self) -> (s: &'static str)
        ensures
            s@ == license_title(*self),
    {
        match self {
            License::Mit => "MIT License",
            License::Apache2 => "Apache License 2.0",
            License::Bsd3 => "BSD 3-Clause License",
            License::Bsd2 => "BSD 2-Clause License",
            License::Gpl3 => "GNU General Public License v3.0",
            License::Lgpl3 => "GNU Lesser General Public License v3.0",
            License::Mpl2 => "Mozilla Public License 2.0",
            License::Unlicense => "The Unlicense",
        }
    }

    /// The license offered at a position, if there is one.
    pub fn from_index(index: usize) -> (l: Option<License>)
        ensures
            l == license_at(index as int),
    {
        if index == 0 {
            Some(License::Mit)
        } else if index == 1 {
            Some(License::Apache2)
        } else if index == 2 {
            Some(License::Bsd3)
        } else if index == 3 {
            Some(License::Bsd2)
        } else if index == 4 {
            Some(License::Gpl3)
        } else if index == 5 {
            Some(License::Lgpl3)
        } else if index == 6 {
            Some(License::Mpl2)
        } else if index == 7 {
            Some(License::Unlicense)
        } else {
            None
        }
    }

    /// The names of the licenses, in the order they are offered.
    pub fn options() -> (v: Vec<String>)
        ensures
            v.len() == license_count(),
            forall|i: int| 0 <= i < v.len() ==> #[trigger] v@[i]@ == offered_title(i),
    {
        let mut v: Vec<String> = Vec::new();
        let mut i: usize = 0;
        while i < 8
            invariant
                i <= 8,
                v.len() == i,
                forall|j: int| 0 <= j < i ==> #[trigger] v@[j]@ == offered_title(j),
            decreases 8 - i,
        {
            let l = License::from_index(i).unwrap();
            v.push(String::from_str(l.title()));
            i = i + 1;
        }
        v
    }
}

/// The contents of a new `package.json`.
#[derive(Debug)]
pub struct InitData {
    pub name: String,
    pub version: String,
    pub description: Option<String>,
    pub main: String,
    pub repository: Option<String>,
    pub author: Option<String>,
    pub license: License,
    pub private: Option<bool>,
}

// ----- package names -----

/// A lowercase ASCII letter or a digit.
pub open spec fn lower_alnum(c: char) -> bool {
    ('a' <= c && c <= 'z') || ('0' <= c && c <= '9')
}

/// The first character of a package's own name: `[a-z0-9-~]`.
pub open spec fn name_start(c: char) -> bool {
    lower_alnum(c) || c == '-' || c == '~'
}

/// A later character of a package's own name: `[a-z0-9-._~]`.
pub open spec fn name_char(c: char) -> bool {
    lower_alnum(c) || c == '-' || c == '.' || c == '_' || c == '~'
}

/// The first character of a scope: `[a-z0-9-*~]`.
pub open spec fn scope_start(c: char) -> bool {
    lower_alnum(c) || c == '-' || c == '*' || c == '~'
}

/// A later character of a scope: `[a-z0-9-*._~]`.
pub open spec fn scope_char(c: char) -> bool {
    lower_alnum(c) || c == '-' || c == '*' || c == '.' || c == '_' || c == '~'
}

/// A package's own name: one `name_start` then `name_char`s.
pub open spec fn bare_name(s: Seq<char>) -> bool {
    s.len() >= 1 && name_start(s[0]) && forall|i: int| 1 <= i < s.len() ==> name_char(#[trigger] s[i])
}

/// A scope: one `scope_start` then `scope_char`s.
pub open spec fn scope_name(s: Seq<char>) -> bool {
    s.len() >= 1 && scope_start(s[0]) && forall|i: int| 1 <= i < s.len() ==> scope_char(#[trigger] s[i])
}

/// `s` is `@`, a scope, `/` at position `k`, and a package's own name.
pub open spec fn scoped_at(s: Seq<char>, k: int) -> bool {
    &&& 1 <= k < s.len()
    &&& s[0] == '@'
    &&& s[k] == '/'
    &&& scope_name(s.subrange(1, k))
    &&& bare_name(s.subrange(k + 1, s.len() as int))
}

/// The package names `init` accepts, the language of
/// `^(?:@[a-z0-9-*~][a-z0-9-*._~]*/)?[a-z0-9-~][a-z0-9-._~]*$`.
pub open spec fn package_name_valid(s: Seq<char>) -> bool {
    bare_name(s) || exists|k: int| scoped_at(s, k)
}

/// An accepted package name holds no upper-case letter: every character
/// is one of `[a-z0-9-._~*@/]`.
pub proof fn lemma_valid_name_lower_case(s: Seq<char>)
    requires
        package_name_valid(s),
    ensures
        forall|i: int| 0 <= i < s.len() ==> !('A' <= #[trigger] s[i] && s[i] <= 'Z'),
        forall|i: int|
            0 <= i < s.len() ==> lower_alnum(#[trigger] s[i]) || s[i] == '-' || s[i] == '.' || s[i]
                == '_' || s[i] == '~' || s[i] == '*' || s[i] == '@' || s[i] == '/',
{
    if !bare_name(s) {
        let k = choose|k: int| scoped_at(s, k);
        let scope = s.subrange(1, k);
        let rest = s.subrange(k + 1, s.len() as int);
        assert forall|i: int| 0 <= i < s.len() implies lower_alnum(#[trigger] s[i]) || s[i] == '-'
            || s[i] == '.' || s[i] == '_' || s[i] == '~' || s[i] == '*' || s[i] == '@' || s[i]
            == '/' by {
            if 1 <= i < k {
                assert(s[i] == scope[i - 1]);
            } else if k < i {
                assert(s[i] == rest[i - k - 1]);
            }
        }
    }
}

fn is_lower_alnum(c: char) -> (b: bool)
    ensures
        b == lower_alnum(c),
{
    ('a' <= c && c <= 'z') || ('0' <= c && c <= '9')
}

/// Whether the characters of `s` from `from` on are all `name_char`s, and
/// the one at `from` a `name_start`.
fn bare_name_from(s: &str, from: usize) -> (b: bool)
    requires
        from <= s@.len(),
    ensures
        b == bare_name(s@.subrange(from as int, s@.len() as int)),
{
    let len = s.unicode_len();
    if from >= len {
        return false;
    }
    let c0 = s.get_char(from);
    if !(is_lower_alnum(c0) || c0 == '-' || c0 == '~') {
        return false;
    }
    let ghost t = s@.subrange(from as int, s@.len() as int);
    let mut i = from + 1;
    while i < len
        invariant
            len == s@.len(),
            from < len,
            from + 1 <= i <= len,
            t == s@.subrange(from as int, s@.len() as int),
            forall|j: int| 1 <= j < i - from ==> name_char(#[trigger] t[j]),
        decreases len - i,
    {
        let c = s.get_char(i);
        if !(is_lower_alnum(c) || c == '-' || c == '.' || c == '_' || c == '~') {
            assert(t[i - from] == c);
            return false;
        }
        i = i + 1;
    }
    true
}

/// Whether a package name is acceptable (see [`package_name_valid`]).
pub fn is_valid_package_name(s: &str) -> (b: bool)
    ensures
        b == package_name_valid(s@),
{
    let len = s.unicode_len();
    if len == 0 {
        return false;
    }
    let c0 = s.get_char(0);
    if c0 != '@' {
        proof {
            assert forall|k: int| !scoped_at(s@, k) by {}
            assert(s@.subrange(0, s@.len() as int) =~= s@);
        }
        return bare_name_from(s, 0);
    }
    assert(!bare_name(s@));
    // the scope runs up to the first '/'
    let mut k: usize = 1;
    while k < len && s.get_char(k) != '/'
        invariant
            len == s@.len(),
            1 <= k <= len,
            forall|j: int| 1 <= j < k ==> s@[j] != '/',
        decreases len - k,
    {
        k = k + 1;
    }
    if k >= len {
        proof {
            assert forall|m: int| !scoped_at(s@, m) by {
                if 1 <= m < s@.len() {
                    assert(s@[m] != '/');
                }
            }
        }
        return false;
    }
    // check the scope's characters
    let ghost scope = s@.subrange(1, k as int);
    if k == 1 {
        proof {
            assert forall|m: int| !scoped_at(s@, m) by {
                if scoped_at(s@, m) && m > 1 {
                    assert(s@[1] != '/');
                    assert(scope_start(s@.subrange(1, m)[0]));
                }
            }
        }
        return false;
    }
    let c1 = s.get_char(1);
    let mut scope_ok = is_lower_alnum(c1) || c1 == '-' || c1 == '*' || c1 == '~';
    let mut i: usize = 2;
    while i < k
        invariant
            len == s@.len(),
            2 <= k < len,
            2 <= i <= k,
            scope == s@.subrange(1, k as int),
            scope_ok == (scope_start(scope[0]) && forall|j: int| 1 <= j < i - 1 ==> scope_char(#[trigger] scope[j])),
        decreases k - i,
    {
        let c = s.get_char(i);
        assert(scope[i - 1] == c);
        let ok = is_lower_alnum(c) || c == '-' || c == '*' || c == '.' || c == '_' || c == '~';
        proof {
            if scope_ok && ok {
                assert forall|j: int| 1 <= j < i + 1 - 1 implies scope_char(#[trigger] scope[j]) by {
                    if j == i - 1 {
                        assert(scope[j] == c);
                    }
                }
            }
        }
        scope_ok = scope_ok && ok;
        i = i + 1;
    }
    assert(scope_ok == scope_name(scope));
    let rest_ok = bare_name_from(s, k + 1);
    proof {
        // no other position can hold the scope's '/'
        assert forall|m: int| scoped_at(s@, m) implies m == k by {
            if m < k {
                assert(s@[m] != '/');
            } else if m > k {
                let sc = s@.subrange(1, m);
                assert(sc[k - 1] == s@[k as int]);
                assert(!scope_char('/'));
            }
        }
        if scope_ok && rest_ok {
            assert(scoped_at(s@, k as int));
        }
    }
    scope_ok && rest_ok
}

// ----- the data `init --yes` writes -----

/// The author line made from git's user name and email: absent when both
/// are empty, otherwise the name, a space and the email in angle brackets.
pub open spec fn author_line(name: Seq<char>, email: Seq<char>) -> Option<Seq<char>> {
    if name.len() == 0 && email.len() == 0 {
        None
    } else {
        Some(name + " <"@ + email + ">"@)
    }
}

/// The text of an optional value, or nothing.
pub open spec fn or_empty(s: Option<String>) -> Seq<char> {
    match s {
        Some(x) => x@,
        None => Seq::empty(),
    }
}

/// The view of an optional text.
pub open spec fn option_text(s: Option<String>) -> Option<Seq<char>> {
    match s {
        Some(x) => Some(x@),
        None => None,
    }
}

/// Concatenation of a few texts.
fn concat4(a: &str, b: &str, c: &str, d: &str) -> (r: String)
    ensures
        r@ == a@ + b@ + c@ + d@,
{
    let mut r = String::from_str(a);
    r.append(b);
    r.append(c);
    r.append(d);
    r
}

/// The text of an optional value, or the empty text.
fn text_or_empty(s: &Option<String>) -> (r: String)
    ensures
        r@ == or_empty(*s),
{
    match s {
        Some(x) => x.clone(),
        None => String::new(),
    }
}

impl Init {
    /// The data `init --yes` writes: the directory's name, version
    /// `0.1.0`, `index.js`, the author from git, the repository found,
    /// and the default license.
    pub fn default_data(
        cwd: String,
        git_user_name: Option<String>,
        git_email: Option<String>,
        repository: Option<String>,
    ) -> (d: InitData)
        ensures
            d.name@ == cwd@,
            d.version@ == "0.1.0"@,
            d.description is None,
            d.main@ == "index.js"@,
            option_text(d.author) == author_line(or_empty(git_user_name), or_empty(git_email)),
            option_text(d.repository) == option_text(repository),
            d.license == License::Mit,
            d.private is None,
    {
        let name = text_or_empty(&git_user_name);
        let email = text_or_empty(&git_email);
        let author = if name.unicode_len() == 0 && email.unicode_len() == 0 {
            None
        } else {
            Some(concat4(name.as_str(), " <", email.as_str(), ">"))
        };
        InitData {
            name: cwd,
            version: String::from_str("0.1.0"),
            description: None,
            main: String::from_str("index.js"),
            repository,
            author,
            license: License::default_license(),
            private: None,
        }
    }
}

// ----- the interactive dialogue -----

/// A question to put to the user.
#[derive(Debug)]
pub enum Prompt {
    /// A line of text, with an optional default.
    Input { message: String, default: Option<String>, allow_empty: bool },
    /// A choice among items, with a preselected one.
    Select { message: String, paged: bool, selected: Option<usize>, items: Vec<String> },
    /// A yes-or-no question.
    Confirm { message: String, default_answer: bool },
}

/// The input prompt `p` is, with its parts.
pub open spec fn is_input(p: Prompt, message: Seq<char>, default: Option<Seq<char>>, allow_empty: bool) -> bool {
    p matches Prompt::Input { message: m, default: d, allow_empty: a } && m@ == message
        && option_text(d) == default && a == allow_empty
}

/// Which answer the dialogue waits for.
#[derive(PartialEq, Eq, Structural, Clone, Copy, Debug)]
pub enum InitStep {
    Name,
    Version,
    Description,
    Main,
    GitAuthor,
    Author,
    Repository,
    License,
    Private,
    Done,
}

/// What the user, or git, answered.
#[derive(Debug)]
pub enum InitEvent {
    /// The text typed at an input prompt.
    Text(String),
    /// The item chosen at a select prompt.
    Choice(usize),
    /// The answer to a yes-or-no question.
    Flag(bool),
    /// Git's `user.name` and `user.email`, where set.
    GitAuthor { name: Option<String>, email: Option<String> },
}

/// What the caller must do next.
#[derive(Debug)]
pub enum InitAction {
    /// Put this question.
    Ask(Prompt),
    /// Tell the user that the name holds characters that are not allowed,
    /// then put this question again.
    Retry(Prompt),
    /// Look up git's user name and email.
    LookupGitAuthor,
    /// Write this `package.json`.
    Write(InitData),
}

/// The answers gathered so far.
#[derive(Debug)]
pub struct InitDialog {
    pub step: InitStep,
    pub cwd: String,
    pub name: String,
    pub version: String,
    pub description: String,
    pub main: String,
    pub author: String,
    pub repository: String,
    pub license: License,
}

/// The event a step waits for.
pub open spec fn event_fits(step: InitStep, e: InitEvent) -> bool {
    match step {
        InitStep::GitAuthor => e is GitAuthor,
        InitStep::License => e is Choice,
        InitStep::Private => e is Flag,
        InitStep::Done => false,
        _ => e is Text,
    }
}

/// The default author offered: git's name and email when a name is set.
pub open spec fn author_default(name: Option<String>, email: Option<String>) -> Option<Seq<char>> {
    if or_empty(name).len() != 0 {
        Some(or_empty(name) + " "@ + "<"@ + or_empty(email) + ">"@)
    } else {
        None
    }
}

/// The author offered by default depends only on git's user name being
/// set: with a name, it is the name, a space and the email in angle
/// brackets, whatever the email (`<>` when there is none).
pub proof fn lemma_author_default_from_name(name: Option<String>, email: Option<String>)
    requires
        or_empty(name).len() != 0,
    ensures
        author_default(name, email) == Some(or_empty(name) + " <"@ + or_empty(email) + ">"@),
        author_default(name, None) == Some(or_empty(name) + " <>"@),
{
    reveal_strlit(" ");
    reveal_strlit("<");
    reveal_strlit(" <");
    reveal_strlit(">");
    reveal_strlit(" <>");
    assert(or_empty(name) + " "@ + "<"@ + or_empty(email) + ">"@ =~= or_empty(name) + " <"@
        + or_empty(email) + ">"@);
    assert(or_empty(name) + " "@ + "<"@ + or_empty(None) + ">"@ =~= or_empty(name) + " <>"@);
}

/// The input prompt a step puts, as message, default and whether an empty
/// answer is allowed.
pub open spec fn prompt_for(p: Prompt, step: InitStep, cwd: Seq<char>) -> bool {
    match step {
        InitStep::Name => is_input(p, "name"@, Some(cwd), false),
        InitStep::Version => is_input(p, "version"@, Some("1.0.0"@), false),
        InitStep::Description => is_input(p, "description"@, None, true),
        InitStep::Main => is_input(p, "main"@, Some("index.js"@), false),
        InitStep::Repository => is_input(p, "repository"@, None, true),
        _ => false,
    }
}

impl InitDialog {
    /// Every answer given so far passed its check, and once the license
    /// question is behind, the license is the preselected one.
    pub open spec fn wf(&self) -> bool {
        &&& self.step != InitStep::Name ==> package_name_valid(self.name@)
        &&& (self.step == InitStep::Private || self.step == InitStep::Done) ==> self.license
            == License::Apache2
    }

    /// The dialogue's start in the directory named `cwd`, and its first
    /// question.
    pub fn start(cwd: String) -> (r: (InitDialog, InitAction))
        ensures
            r.0.wf(),
            r.0.step == InitStep::Name,
            r.0.cwd@ == cwd@,
            r.1 matches InitAction::Ask(p) && prompt_for(p, InitStep::Name, cwd@),
    {
        let default = cwd.clone();
        let d = InitDialog {
            step: InitStep::Name,
            cwd,
            name: String::new(),
            version: String::new(),
            description: String::new(),
            main: String::new(),
            author: String::new(),
            repository: String::new(),
            license: License::default_license(),
        };
        let p = Prompt::Input {
            message: String::from_str("name"),
            default: Some(default),
            allow_empty: false,
        };
        (d, InitAction::Ask(p))
    }

    /// Takes in the answer to the current question and says what to do
    /// next. A name that breaks the naming rule is asked for again. The
    /// license is the one preselected at the select prompt (the second
    /// offered), whatever is chosen. After the private flag the data is
    /// written: every answer as given, the description, repository and
    /// author as present.
    pub fn advance(self, event: InitEvent) -> (r: (InitDialog, InitAction))
        requires
            self.wf(),
            event_fits(self.step, event),
        ensures
            r.0.wf(),
            r.0.cwd@ == self.cwd@,
            r.0.name@ == self.name@ || self.step == InitStep::Name,
            match (self.step, event) {
                (InitStep::Name, InitEvent::Text(t)) => if package_name_valid(t@) {
                    &&& r.0.step == InitStep::Version
                    &&& r.0.name@ == t@
                    &&& r.1 matches InitAction::Ask(p) && prompt_for(p, InitStep::Version, self.cwd@)
                } else {
                    &&& r.0.step == InitStep::Name
                    &&& r.1 matches InitAction::Retry(p) && prompt_for(p, InitStep::Name, self.cwd@)
                },
                (InitStep::Version, InitEvent::Text(t)) => {
                    &&& r.0.step == InitStep::Description
                    &&& r.0.version@ == t@
                    &&& r.1 matches InitAction::Ask(p) && prompt_for(p, InitStep::Description, self.cwd@)
                },
                (InitStep::Description, InitEvent::Text(t)) => {
                    &&& r.0.step == InitStep::Main
                    &&& r.0.version@ == self.version@
                    &&& r.0.description@ == t@
                    &&& r.1 matches InitAction::Ask(p) && prompt_for(p, InitStep::Main, self.cwd@)
                },
                (InitStep::Main, InitEvent::Text(t)) => {
                    &&& r.0.step == InitStep::GitAuthor
                    &&& r.0.version@ == self.version@
                    &&& r.0.description@ == self.description@
                    &&& r.0.main@ == t@
                    &&& r.1 is LookupGitAuthor
                },
                (InitStep::GitAuthor, InitEvent::GitAuthor { name, email }) => {
                    &&& r.0.step == InitStep::Author
                    &&& r.0.version@ == self.version@
                    &&& r.0.description@ == self.description@
                    &&& r.0.main@ == self.main@
                    &&& r.1 matches InitAction::Ask(p) && is_input(p, "author"@, author_default(name, email), true)
                },
                (InitStep::Author, InitEvent::Text(t)) => {
                    &&& r.0.step == InitStep::Repository
                    &&& r.0.version@ == self.version@
                    &&& r.0.description@ == self.description@
                    &&& r.0.main@ == self.main@
                    &&& r.0.author@ == t@
                    &&& r.1 matches InitAction::Ask(p) && prompt_for(p, InitStep::Repository, self.cwd@)
                },
                (InitStep::Repository, InitEvent::Text(t)) => {
                    &&& r.0.step == InitStep::License
                    &&& r.0.version@ == self.version@
                    &&& r.0.description@ == self.description@
                    &&& r.0.main@ == self.main@
                    &&& r.0.author@ == self.author@
                    &&& r.0.repository@ == t@
                    &&& r.1 matches InitAction::Ask(Prompt::Select { message, paged, selected, items })
                        && message@ == "License"@ && paged && selected == Some(1usize)
                        && items.len() == license_count()
                        && forall|i: int| 0 <= i < items.len() ==> #[trigger] items@[i]@ == offered_title(i)
                },
                (InitStep::License, InitEvent::Choice(_)) => {
                    &&& r.0.step == InitStep::Private
                    &&& r.0.version@ == self.version@
                    &&& r.0.description@ == self.description@
                    &&& r.0.main@ == self.main@
                    &&& r.0.author@ == self.author@
                    &&& r.0.repository@ == self.repository@
                    &&& r.0.license == License::Apache2
                    &&& r.1 matches InitAction::Ask(Prompt::Confirm { message, default_answer })
                        && message@ == "private"@ && !default_answer
                },
                (InitStep::Private, InitEvent::Flag(b)) => {
                    &&& r.0.step == InitStep::Done
                    &&& r.1 matches InitAction::Write(data) && {
                        &&& data.name@ == self.name@
                        &&& package_name_valid(data.name@)
                        &&& data.version@ == self.version@
                        &&& option_text(data.description) == Some(self.description@)
                        &&& data.main@ == self.main@
                        &&& option_text(data.repository) == Some(self.repository@)
                        &&& option_text(data.author) == Some(self.author@)
                        &&& data.license == License::Apache2
                        &&& data.private == Some(b)
                    }
                },
                _ => false,
            },
    {
        let mut d = self;
        match event {
            InitEvent::Text(t) => {
                if d.step == InitStep::Name {
                    if is_valid_package_name(t.as_str()) {
                        d.name = t;
                        d.step = InitStep::Version;
                        let p = Prompt::Input {
                            message: String::from_str("version"),
                            default: Some(String::from_str("1.0.0")),
                            allow_empty: false,
                        };
                        (d, InitAction::Ask(p))
                    } else {
                        let p = Prompt::Input {
                            message: String::from_str("name"),
                            default: Some(d.cwd.clone()),
                            allow_empty: false,
                        };
                        (d, InitAction::Retry(p))
                    }
                } else if d.step == InitStep::Version {
                    d.version = t;
                    d.step = InitStep::Description;
                    let p = Prompt::Input {
                        message: String::from_str("description"),
                        default: None,
                        allow_empty: true,
                    };
                    (d, InitAction::Ask(p))
                } else if d.step == InitStep::Description {
                    d.description = t;
                    d.step = InitStep::Main;
                    let p = Prompt::Input {
                        message: String::from_str("main"),
                        default: Some(String::from_str("index.js")),
                        allow_empty: false,
                    };
                    (d, InitAction::Ask(p))
                } else if d.step == InitStep::Main {
                    d.main = t;
                    d.step = InitStep::GitAuthor;
                    (d, InitAction::LookupGitAuthor)
                } else if d.step == InitStep::Author {
                    d.author = t;
                    d.step = InitStep::Repository;
                    let p = Prompt::Input {
                        message: String::from_str("repository"),
                        default: None,
                        allow_empty: true,
                    };
                    (d, InitAction::Ask(p))
                } else {
                    d.repository = t;
                    d.step = InitStep::License;
                    let p = Prompt::Select {
                        message: String::from_str("License"),
                        paged: true,
                        selected: Some(1),
                        items: License::options(),
                    };
                    (d, InitAction::Ask(p))
                }
            },
            InitEvent::GitAuthor { name, email } => {
                let user = text_or_empty(&name);
                let e = text_or_empty(&email);
                let default = if user.unicode_len() != 0 {
                    Some(concat4(user.as_str(), " ", "<", e.as_str()).concat(">"))
                } else {
                    None
                };
                d.step = InitStep::Author;
                let p = Prompt::Input { message: String::from_str("author"), default, allow_empty: true };
                (d, InitAction::Ask(p))
            },
            InitEvent::Choice(_) => {
                d.license = License::from_index(1).unwrap();
                d.step = InitStep::Private;
                let p = Prompt::Confirm { message: String::from_str("private"), default_answer: false };
                (d, InitAction::Ask(p))
            },
            InitEvent::Flag(b) => {
                let data = InitData {
                    name: d.name.clone(),
                    version: d.version.clone(),
                    description: Some(d.description.clone()),
                    main: d.main.clone(),
                    repository: Some(d.repository.clone()),
                    author: Some(d.author.clone()),
                    license: d.license,
                    private: Some(b),
                };
                d.step = InitStep::Done;
                (d, InitAction::Write(data))
            },
        }
    }
}

} // verus!
