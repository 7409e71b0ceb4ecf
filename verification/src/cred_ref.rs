//! Credential references: `<backend>:<locator>[#<profile>]`.
//!
//! The configuration stores only references, never keys. The backend is one of
//! `keychain`, `bw` and `env` (Bitwarden's Secrets Manager `bws` is never
//! accepted). The backend ends at the first `:`; the profile starts after the
//! last `#`. An unknown backend, an empty locator or an empty profile is an
//! error, never a panic.

use vstd::prelude::*;

use crate::text::{chars_of, slice_owned};

verus! {

/// A key backend.
#[derive(Debug, Clone, Copy, PartialEq, Eq, Structural)]
pub enum Backend {
    Keychain,
    Bw,
    Env,
}

/// The canonical name of a backend, as accepted when parsing.
pub open spec fn backend_name(b: Backend) -> Seq<char> {
    match b {
        Backend::Keychain => "keychain"@,
        Backend::Bw => "bw"@,
        Backend::Env => "env"@,
    }
}

/// The backend a name denotes, if any.
pub open spec fn backend_from_name(name: Seq<char>) -> Option<Backend> {
    if name == "keychain"@ {
        Some(Backend::Keychain)
    } else if name == "bw"@ {
        Some(Backend::Bw)
    } else if name == "env"@ {
        Some(Backend::Env)
    } else {
        None
    }
}

impl Backend {
    /// The canonical name, used when echoing a reference.
    pub fn as_str(self) -> (r: &'static str)
        ensures
            r@ == backend_name(self),
    {
        match self {
            Backend::Keychain => "keychain",
            Backend::Bw => "bw",
            Backend::Env => "env",
        }
    }

    /// The backend named `name`.
    pub fn parse(name: &str) -> (r: Result<Backend, CredRefError>)
        ensures
            match backend_from_name(name@) {
                Some(b) => r == Ok::<Backend, CredRefError>(b),
                None => r is Err && r->Err_0@ == CredRefFault::UnknownBackend(name@),
            },
    {
        let n = name.to_owned();
        if n == "keychain".to_owned() {
            Ok(Backend::Keychain)
        } else if n == "bw".to_owned() {
            Ok(Backend::Bw)
        } else if n == "env".to_owned() {
            Ok(Backend::Env)
        } else {
            Err(CredRefError::UnknownBackend(n))
        }
    }
}

impl core::str::FromStr for Backend {
    type Err = CredRefError;

    fn from_str(s: &str) -> (r: Result<Backend, CredRefError>)
        ensures
            match backend_from_name(s@) {
                Some(b) => r == Ok::<Backend, CredRefError>(b),
                None => r is Err && r->Err_0@ == CredRefFault::UnknownBackend(s@),
            },
    {
        Backend::parse(s)
    }
}

/// A parsed credential reference.
#[derive(Debug, PartialEq, Eq)]
pub struct CredRef {
    pub backend: Backend,
    /// Backend-specific: a provider name (keychain), `item/<name>` or `id/<id>`
    /// (bw), a variable name (env).
    pub locator: String,
    pub profile: Option<String>,
}

/// A credential reference as values.
pub struct CredRefView {
    pub backend: Backend,
    pub locator: Seq<char>,
    pub profile: Option<Seq<char>>,
}

impl View for CredRef {
    type V = CredRefView;

    open spec fn view(&self) -> CredRefView {
        CredRefView {
            backend: self.backend,
            locator: self.locator@,
            profile: crate::model::opt_view(self.profile),
        }
    }
}

/// Why a reference does not parse.
#[derive(Debug, PartialEq, Eq)]
pub enum CredRefError {
    /// No `:` at all; carries the whole input.
    MissingColon(String),
    /// The text before the first `:` names no backend; carries that text.
    UnknownBackend(String),
    /// Nothing between `<backend>:` and the profile (or the end).
    EmptyLocator,
    /// Nothing after the last `#`.
    EmptyProfile,
}

/// A parse failure as values.
pub enum CredRefFault {
    MissingColon(Seq<char>),
    UnknownBackend(Seq<char>),
    EmptyLocator,
    EmptyProfile,
}

impl View for CredRefError {
    type V = CredRefFault;

    open spec fn view(&self) -> CredRefFault {
        match self {
            CredRefError::MissingColon(s) => CredRefFault::MissingColon(s@),
            CredRefError::UnknownBackend(s) => CredRefFault::UnknownBackend(s@),
            CredRefError::EmptyLocator => CredRefFault::EmptyLocator,
            CredRefError::EmptyProfile => CredRefFault::EmptyProfile,
        }
    }
}

/// `i` is where `c` first occurs in `s`.
pub open spec fn is_first(s: Seq<char>, c: char, i: int) -> bool {
    0 <= i < s.len() && s[i] == c && forall|j: int| 0 <= j < i ==> s[j] != c
}

/// `i` is where `c` last occurs in `s`.
pub open spec fn is_last(s: Seq<char>, c: char, i: int) -> bool {
    0 <= i < s.len() && s[i] == c && forall|j: int| i < j < s.len() ==> s[j] != c
}

/// The first position of `c` in `s` (meaningful when `s` contains `c`).
pub open spec fn first_index(s: Seq<char>, c: char) -> int {
    choose|i: int| is_first(s, c, i)
}

/// The last position of `c` in `s` (meaningful when `s` contains `c`).
pub open spec fn last_index(s: Seq<char>, c: char) -> int {
    choose|i: int| is_last(s, c, i)
}

/// What parsing `s` gives: split at the first `:`, then at the last `#`.
pub open spec fn parse_spec(s: Seq<char>) -> Result<CredRefView, CredRefFault> {
    if !s.contains(':') {
        Err(CredRefFault::MissingColon(s))
    } else {
        let i = first_index(s, ':');
        let name = s.take(i);
        let rest = s.skip(i + 1);
        match backend_from_name(name) {
            None => Err(CredRefFault::UnknownBackend(name)),
            Some(b) => if rest.contains('#') {
                let j = last_index(rest, '#');
                let loc = rest.take(j);
                let prof = rest.skip(j + 1);
                if prof.len() == 0 {
                    Err(CredRefFault::EmptyProfile)
                } else if loc.len() == 0 {
                    Err(CredRefFault::EmptyLocator)
                } else {
                    Ok(CredRefView { backend: b, locator: loc, profile: Some(prof) })
                }
            } else if rest.len() == 0 {
                Err(CredRefFault::EmptyLocator)
            } else {
                Ok(CredRefView { backend: b, locator: rest, profile: None })
            },
        }
    }
}

/// The canonical text of a reference: `<backend>:<locator>[#<profile>]`.
pub open spec fn render_spec(c: CredRefView) -> Seq<char> {
    backend_name(c.backend) + ":"@ + c.locator + match c.profile {
        Some(p) => "#"@ + p,
        None => Seq::empty(),
    }
}

pub proof fn lemma_first_unique(s: Seq<char>, c: char, i: int)
    requires
        is_first(s, c, i),
    ensures
        first_index(s, c) == i,
        s.contains(c),
{
    let k = first_index(s, c);
    assert(is_first(s, c, k));
    if k < i {
        assert(s[k] == c);
    } else if k > i {
        assert(s[i] == c);
    }
}

proof fn lemma_last_unique(s: Seq<char>, c: char, i: int)
    requires
        is_last(s, c, i),
    ensures
        last_index(s, c) == i,
        s.contains(c),
{
    let k = last_index(s, c);
    assert(is_last(s, c, k));
    if k < i {
        assert(s[i] == c);
    } else if k > i {
        assert(s[k] == c);
    }
}

impl CredRef {
    /// Parses `<backend>:<locator>[#profile]`.
    pub fn parse(s: &str) -> (r: Result<CredRef, CredRefError>)
        ensures
            match r {
                Ok(c) => parse_spec(s@) == Ok::<CredRefView, CredRefFault>(c@),
                Err(e) => parse_spec(s@) == Err::<CredRefView, CredRefFault>(e@),
            },
    {
        let v = chars_of(s);
        let len = v.len();
        // The first ':' splits the backend from the rest.
        let mut i: usize = 0;
        while i < len && v[i] != ':'
            invariant
                v@ == s@,
                len == v.len(),
                i <= len,
                forall|j: int| 0 <= j < i ==> s@[j] != ':',
            decreases len - i,
        {
            i = i + 1;
        }
        if i == len {
            return Err(CredRefError::MissingColon(s.to_owned()));
        }
        proof {
            lemma_first_unique(s@, ':', i as int);
        }
        let name = slice_owned(s, 0, i);
        assert(name@ =~= s@.take(i as int));
        let backend = match Backend::parse(name.as_str()) {
            Ok(b) => b,
            Err(e) => return Err(e),
        };
        let ghost rest = s@.skip(i + 1);
        // The last '#' after the backend splits off the profile.
        let mut j: usize = len;
        while j > i + 1 && v[j - 1] != '#'
            invariant
                v@ == s@,
                len == v.len(),
                i < len,
                i + 1 <= j <= len,
                forall|m: int| j <= m < len ==> s@[m] != '#',
            decreases j,
        {
            j = j - 1;
        }
        if j > i + 1 {
            let h = j - 1;
            proof {
                assert(is_last(rest, '#', h - (i + 1))) by {
                    assert forall|m: int| h - (i + 1) < m < rest.len() implies rest[m] != '#' by {
                        assert(rest[m] == s@[m + i + 1]);
                    }
                }
                lemma_last_unique(rest, '#', h - (i + 1));
                assert(rest.take(h - (i + 1)) =~= s@.subrange(i + 1, h as int));
                assert(rest.skip(h - (i + 1) + 1) =~= s@.subrange(h + 1, len as int));
            }
            if h + 1 == len {
                return Err(CredRefError::EmptyProfile);
            }
            if h == i + 1 {
                return Err(CredRefError::EmptyLocator);
            }
            let locator = slice_owned(s, i + 1, h);
            let profile = slice_owned(s, h + 1, len);
            Ok(CredRef { backend, locator, profile: Some(profile) })
        } else {
            proof {
                assert(!rest.contains('#')) by {
                    if rest.contains('#') {
                        let m = choose|m: int| 0 <= m < rest.len() && rest[m] == '#';
                        assert(s@[m + i + 1] == '#');
                    }
                }
                assert(rest =~= s@.subrange(i + 1, len as int));
            }
            if i + 1 == len {
                return Err(CredRefError::EmptyLocator);
            }
            let locator = slice_owned(s, i + 1, len);
            Ok(CredRef { backend, locator, profile: None })
        }
    }

    /// The canonical reference text (what `show` prints; never a key).
    pub fn to_string(&self) -> (r: String)
        ensures
            r@ == render_spec(self@),
    {
        let mut out = self.backend.as_str().to_owned();
        out.append(":");
        out.append(self.locator.as_str());
        match &self.profile {
            Some(p) => {
                out.append("#");
                out.append(p.as_str());
            },
            None => {},
        }
        out
    }
}

impl CredRefError {
    /// The human-readable message (it holds at most the reference text, never a key).
    pub fn to_string(&self) -> (r: String)
        ensures
            r@ == fault_message(self@),
    {
        match self {
            CredRefError::MissingColon(s) => {
                let mut m = "credential reference is missing the ':' separator: expected `<backend>:<locator>[#profile]`, got `".to_owned();
                m.append(s.as_str());
                m.append("`");
                m
            },
            CredRefError::UnknownBackend(b) => {
                let mut m = "unknown key backend `".to_owned();
                m.append(b.as_str());
                m.append("`: only keychain | bw | env are supported");
                m
            },
            CredRefError::EmptyLocator => {
                "the credential reference locator is empty: there must be content after `<backend>:`".to_owned()
            },
            CredRefError::EmptyProfile => {
                "the credential reference profile is empty: there must be content after `#` (if the locator itself needs '#', v1 does not support that yet)".to_owned()
            },
        }
    }
}

/// The message of each parse failure.
pub open spec fn fault_message(f: CredRefFault) -> Seq<char> {
    match f {
        CredRefFault::MissingColon(s) => "credential reference is missing the ':' separator: expected `<backend>:<locator>[#profile]`, got `"@
            + s + "`"@,
        CredRefFault::UnknownBackend(b) => "unknown key backend `"@ + b
            + "`: only keychain | bw | env are supported"@,
        CredRefFault::EmptyLocator => "the credential reference locator is empty: there must be content after `<backend>:`"@,
        CredRefFault::EmptyProfile => "the credential reference profile is empty: there must be content after `#` (if the locator itself needs '#', v1 does not support that yet)"@,
    }
}

pub proof fn lemma_first_exists(s: Seq<char>, c: char)
    requires
        s.contains(c),
    ensures
        is_first(s, c, first_index(s, c)),
    decreases s.len(),
{
    if s[0] == c {
        lemma_first_unique(s, c, 0);
    } else {
        let t = s.drop_first();
        let k = choose|k: int| 0 <= k < s.len() && s[k] == c;
        assert(t[k - 1] == c);
        lemma_first_exists(t, c);
        let i = first_index(t, c);
        assert(is_first(s, c, i + 1)) by {
            assert forall|j: int| 0 <= j < i + 1 implies s[j] != c by {
                if j > 0 {
                    assert(s[j] == t[j - 1]);
                }
            }
        }
        lemma_first_unique(s, c, i + 1);
    }
}

proof fn lemma_last_exists(s: Seq<char>, c: char)
    requires
        s.contains(c),
    ensures
        is_last(s, c, last_index(s, c)),
    decreases s.len(),
{
    if s.last() == c {
        lemma_last_unique(s, c, s.len() - 1);
    } else {
        let t = s.drop_last();
        let k = choose|k: int| 0 <= k < s.len() && s[k] == c;
        assert(t[k] == c);
        lemma_last_exists(t, c);
        let i = last_index(t, c);
        assert(is_last(s, c, i)) by {
            assert forall|j: int| i < j < s.len() implies s[j] != c by {
                if j < s.len() - 1 {
                    assert(s[j] == t[j]);
                }
            }
        }
        lemma_last_unique(s, c, i);
    }
}

/// A reference whose printed text parses back to it: a non-empty locator, and a
/// non-empty profile without `#` (or, without a profile, no `#` in the locator).
pub open spec fn well_formed(c: CredRefView) -> bool {
    &&& c.locator.len() > 0
    &&& match c.profile {
        Some(p) => p.len() > 0 && !p.contains('#'),
        None => !c.locator.contains('#'),
    }
}

/// Printing a parsed reference gives back exactly the text it was parsed from.
pub proof fn law_print_after_parse(s: Seq<char>)
    requires
        parse_spec(s) is Ok,
    ensures
        render_spec(parse_spec(s)->Ok_0) == s,
        well_formed(parse_spec(s)->Ok_0),
{
    reveal_strlit(":");
    reveal_strlit("#");
    lemma_first_exists(s, ':');
    let i = first_index(s, ':');
    let name = s.take(i);
    let rest = s.skip(i + 1);
    let c = parse_spec(s)->Ok_0;
    assert(backend_name(c.backend) == name);
    assert(s =~= name + ":"@ + rest);
    if rest.contains('#') {
        lemma_last_exists(rest, '#');
        let j = last_index(rest, '#');
        assert(rest =~= rest.take(j) + "#"@ + rest.skip(j + 1));
        assert(render_spec(c) =~= name + ":"@ + (rest.take(j) + "#"@ + rest.skip(j + 1)));
        assert(!rest.skip(j + 1).contains('#')) by {
            let tl = rest.skip(j + 1);
            if tl.contains('#') {
                let m = choose|m: int| 0 <= m < tl.len() && #[trigger] tl[m] == '#';
                assert(rest[j + 1 + m] == '#');
            }
        }
    } else {
        assert(render_spec(c) =~= name + ":"@ + rest);
    }
}

/// A well-formed reference parses back from its printed text.
pub proof fn law_parse_after_print(c: CredRefView)
    requires
        well_formed(c),
    ensures
        parse_spec(render_spec(c)) == Ok::<CredRefView, CredRefFault>(c),
{
    reveal_strlit(":");
    reveal_strlit("#");
    reveal_strlit("keychain");
    reveal_strlit("bw");
    reveal_strlit("env");
    let name = backend_name(c.backend);
    let n = name.len() as int;
    let tail: Seq<char> = match c.profile {
        Some(p) => "#"@ + p,
        None => Seq::empty(),
    };
    let rest = c.locator + tail;
    let r = render_spec(c);
    assert(r =~= name + ":"@ + rest);
    assert(is_first(r, ':', n)) by {
        assert forall|j: int| 0 <= j < n implies r[j] != ':' by {
            assert(r[j] == name[j]);
        }
    }
    lemma_first_unique(r, ':', n);
    assert(r.take(n) =~= name);
    assert(r.skip(n + 1) =~= rest);
    assert(backend_from_name(name) == Some(c.backend));
    match c.profile {
        Some(p) => {
            let h = c.locator.len() as int;
            assert(is_last(rest, '#', h)) by {
                assert forall|m: int| h < m < rest.len() implies rest[m] != '#' by {
                    assert(rest[m] == p[m - h - 1]);
                }
            }
            lemma_last_unique(rest, '#', h);
            assert(rest.take(h) =~= c.locator);
            assert(rest.skip(h + 1) =~= p);
        },
        None => {
            assert(rest =~= c.locator);
        },
    }
}

impl Clone for CredRef {
    fn clone(&self) -> (r: Self)
        ensures
            r@ == self@,
    {
        CredRef {
            backend: self.backend,
            locator: self.locator.clone(),
            profile: crate::model::dup_opt(&self.profile),
        }
    }
}

impl Clone for CredRefError {
    fn clone(&self) -> (r: Self)
        ensures
            r@ == self@,
    {
        match self {
            CredRefError::MissingColon(s) => CredRefError::MissingColon(s.clone()),
            CredRefError::UnknownBackend(s) => CredRefError::UnknownBackend(s.clone()),
            CredRefError::EmptyLocator => CredRefError::EmptyLocator,
            CredRefError::EmptyProfile => CredRefError::EmptyProfile,
        }
    }
}

/// Bitwarden's Secrets Manager backend `bws` is never accepted: whatever
/// follows `bws:`, the reference is refused as an unknown backend.
pub proof fn law_bws_is_refused(rest: Seq<char>)
    ensures
        parse_spec("bws"@ + ":"@ + rest) == Err::<CredRefView, CredRefFault>(
            CredRefFault::UnknownBackend("bws"@),
        ),
{
    reveal_strlit("bws");
    reveal_strlit(":");
    reveal_strlit("keychain");
    reveal_strlit("bw");
    reveal_strlit("env");
    let s = "bws"@ + ":"@ + rest;
    assert(is_first(s, ':', 3)) by {
        assert forall|j: int| 0 <= j < 3 implies s[j] != ':' by {
            assert(s[j] == "bws"@[j]);
        }
    }
    lemma_first_unique(s, ':', 3);
    assert(s.take(3) =~= "bws"@);
    assert("bws"@.len() != "keychain"@.len());
    assert("bws"@.len() != "bw"@.len());
    assert("bws"@[0] != "env"@[0]);
}

impl core::str::FromStr for CredRef {
    type Err = CredRefError;

    fn from_str(s: &str) -> (r: Result<CredRef, CredRefError>)
        ensures
            match r {
                Ok(c) => parse_spec(s@) == Ok::<CredRefView, CredRefFault>(c@),
                Err(e) => parse_spec(s@) == Err::<CredRefView, CredRefFault>(e@),
            },
    {
        CredRef::parse(s)
    }
}

} // verus!
