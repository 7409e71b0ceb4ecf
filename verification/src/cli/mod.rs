//! What the commands decide and print, from values the caller reads.
//!
//! `show` and `key check` never take a key: `show` prints the key reference and
//! `key check` gets only whether an entry exists.

pub mod code;
pub mod env;
pub mod key;
pub mod list;
pub mod show;

use vstd::prelude::*;

use crate::catalog::modelsdev::CacheStatus;
use crate::cred_ref::{
    fault_message, first_index, law_print_after_parse, lemma_first_unique, parse_spec, render_spec,
    CredRef, CredRefError, CredRefFault, CredRefView,
};
use crate::model::{opt_str_view, Provider, ProviderView, ProvidersFile};
use crate::text::{
    chars_of, decimal, decimal_string, has_sub, lemma_decimal_digits, lemma_no_pair_concat,
    lemma_no_pair_no_sub, no_pair, slice_owned,
};

verus! {

/// Why a command cannot go on.
#[derive(Debug, PartialEq, Eq)]
pub enum CliError {
    /// No provider with this id in the catalog.
    ProviderNotFound(String),
    /// The provider has no `key_ref`.
    NoKeyRef(String),
    /// The provider's `key_ref` does not parse.
    InvalidKeyRef { id: String, cause: CredRefError },
    /// A `key set/check` target that is empty.
    EmptyTarget,
    /// A `key set/check` target with nothing before `#`.
    TargetMissingId,
    /// A `key set/check` target with nothing after `#`.
    EmptyTargetProfile,
    /// A field a snippet needs is not set for the provider.
    MissingField { id: String, field: String },
}

/// A command failure as values.
pub enum CliFault {
    ProviderNotFound(Seq<char>),
    NoKeyRef(Seq<char>),
    InvalidKeyRef { id: Seq<char>, cause: CredRefFault },
    EmptyTarget,
    TargetMissingId,
    EmptyTargetProfile,
    MissingField { id: Seq<char>, field: Seq<char> },
}

impl View for CliError {
    type V = CliFault;

    open spec fn view(&self) -> CliFault {
        match self {
            CliError::ProviderNotFound(id) => CliFault::ProviderNotFound(id@),
            CliError::NoKeyRef(id) => CliFault::NoKeyRef(id@),
            CliError::InvalidKeyRef { id, cause } => CliFault::InvalidKeyRef {
                id: id@,
                cause: cause@,
            },
            CliError::EmptyTarget => CliFault::EmptyTarget,
            CliError::TargetMissingId => CliFault::TargetMissingId,
            CliError::EmptyTargetProfile => CliFault::EmptyTargetProfile,
            CliError::MissingField { id, field } => CliFault::MissingField {
                id: id@,
                field: field@,
            },
        }
    }
}

/// The message of each command failure.
pub open spec fn cli_message(f: CliFault) -> Seq<char> {
    match f {
        CliFault::ProviderNotFound(id) => "未找到 provider `"@ + id
            + "` (provider not found); run `llmkeys list` to see available ones"@,
        CliFault::NoKeyRef(id) => "provider `"@ + id
            + "` has no key_ref configured, cannot fetch the key"@,
        CliFault::InvalidKeyRef { id, cause } => "invalid key_ref for provider `"@ + id + "`: "@
            + fault_message(cause),
        CliFault::EmptyTarget => "target must not be empty (e.g. `openrouter` or `openrouter#work`)"@,
        CliFault::TargetMissingId => "target is missing the provider id (e.g. `openrouter` or `openrouter#work`)"@,
        CliFault::EmptyTargetProfile => "the profile after `#` must not be empty"@,
        CliFault::MissingField { id, field } => "provider `"@ + id + "` is missing the field `"@
            + field + "`"@,
    }
}

impl CliError {
    /// The human-readable message.
    pub fn to_string(&self) -> (r: String)
        ensures
            r@ == cli_message(self@),
    {
        match self {
            CliError::ProviderNotFound(id) => {
                let mut m = "未找到 provider `".to_owned();
                m.append(id.as_str());
                m.append("` (provider not found); run `llmkeys list` to see available ones");
                m
            },
            CliError::NoKeyRef(id) => {
                let mut m = "provider `".to_owned();
                m.append(id.as_str());
                m.append("` has no key_ref configured, cannot fetch the key");
                m
            },
            CliError::InvalidKeyRef { id, cause } => {
                let mut m = "invalid key_ref for provider `".to_owned();
                m.append(id.as_str());
                m.append("`: ");
                let c = cause.to_string();
                m.append(c.as_str());
                m
            },
            CliError::EmptyTarget => "target must not be empty (e.g. `openrouter` or `openrouter#work`)".to_owned(),
            CliError::TargetMissingId => "target is missing the provider id (e.g. `openrouter` or `openrouter#work`)".to_owned(),
            CliError::EmptyTargetProfile => "the profile after `#` must not be empty".to_owned(),
            CliError::MissingField { id, field } => {
                let mut m = "provider `".to_owned();
                m.append(id.as_str());
                m.append("` is missing the field `");
                m.append(field.as_str());
                m.append("`");
                m
            },
        }
    }
}

/// The provider `id`, looked up in the merged catalog.
pub fn find_provider<'a>(cat: &'a ProvidersFile, id: &str) -> (r: Result<&'a Provider, CliError>)
    ensures
        match r {
            Ok(p) => cat@.contains_key(id@) && p@ == cat@[id@],
            Err(e) => !cat@.contains_key(id@) && e@ == CliFault::ProviderNotFound(id@),
        },
{
    match cat.providers.get(id) {
        Some(p) => Ok(p),
        None => Err(CliError::ProviderNotFound(id.to_owned())),
    }
}

/// The reference a provider's key is fetched by, with `profile` (when given)
/// in place of the reference's own.
pub open spec fn resolve_spec(p: ProviderView, id: Seq<char>, profile: Option<Seq<char>>) -> Result<
    CredRefView,
    CliFault,
> {
    match p.key_ref {
        None => Err(CliFault::NoKeyRef(id)),
        Some(key_ref) => match parse_spec(key_ref) {
            Err(cause) => Err(CliFault::InvalidKeyRef { id, cause }),
            Ok(c) => Ok(
                match profile {
                    Some(prof) => CredRefView { profile: Some(prof), ..c },
                    None => c,
                },
            ),
        },
    }
}

/// Parses the provider's `key_ref`; `--profile` overrides its profile.
pub fn resolve_cred(p: &Provider, id: &str, profile: Option<&str>) -> (r: Result<CredRef, CliError>)
    ensures
        match r {
            Ok(c) => resolve_spec(p@, id@, opt_str_view(profile)) == Ok::<CredRefView, CliFault>(
                c@,
            ),
            Err(e) => resolve_spec(p@, id@, opt_str_view(profile)) == Err::<CredRefView, CliFault>(
                e@,
            ),
        },
{
    let key_ref = match &p.key_ref {
        Some(k) => k,
        None => return Err(CliError::NoKeyRef(id.to_owned())),
    };
    let mut cred = match CredRef::parse(key_ref.as_str()) {
        Ok(c) => c,
        Err(cause) => return Err(CliError::InvalidKeyRef { id: id.to_owned(), cause }),
    };
    match profile {
        Some(prof) => {
            cred.profile = Some(prof.to_owned());
        },
        None => {},
    }
    Ok(cred)
}

/// The reference to fetch the key of provider `id` by (`env` and `code`).
pub open spec fn credential_spec(
    cat: Map<Seq<char>, ProviderView>,
    id: Seq<char>,
    profile: Option<Seq<char>>,
) -> Result<CredRefView, CliFault> {
    if !cat.contains_key(id) {
        Err(CliFault::ProviderNotFound(id))
    } else {
        resolve_spec(cat[id], id, profile)
    }
}

/// Finds the provider and resolves its key reference.
pub fn credential_for(cat: &ProvidersFile, id: &str, profile: Option<&str>) -> (r: Result<
    CredRef,
    CliError,
>)
    ensures
        match r {
            Ok(c) => credential_spec(cat@, id@, opt_str_view(profile)) == Ok::<
                CredRefView,
                CliFault,
            >(c@),
            Err(e) => credential_spec(cat@, id@, opt_str_view(profile)) == Err::<
                CredRefView,
                CliFault,
            >(e@),
        },
{
    let p = match find_provider(cat, id) {
        Ok(p) => p,
        Err(e) => return Err(e),
    };
    resolve_cred(p, id, profile)
}

/// How a `key set/check` target `<id[#profile]>` splits: at the first `#`.
pub open spec fn key_target_spec(t: Seq<char>) -> Result<(Seq<char>, Option<Seq<char>>), CliFault> {
    if t.contains('#') {
        let i = first_index(t, '#');
        if i == 0 {
            Err(CliFault::TargetMissingId)
        } else if i + 1 == t.len() {
            Err(CliFault::EmptyTargetProfile)
        } else {
            Ok((t.take(i), Some(t.skip(i + 1))))
        }
    } else if t.len() == 0 {
        Err(CliFault::EmptyTarget)
    } else {
        Ok((t, None))
    }
}

/// Splits a `key set/check` target into the provider id and the optional profile.
pub fn parse_key_target(target: &str) -> (r: Result<(String, Option<String>), CliError>)
    ensures
        match r {
            Ok((id, profile)) => key_target_spec(target@) == Ok::<
                (Seq<char>, Option<Seq<char>>),
                CliFault,
            >((id@, crate::model::opt_view(profile))),
            Err(e) => key_target_spec(target@) == Err::<(Seq<char>, Option<Seq<char>>), CliFault>(
                e@,
            ),
        },
{
    let v = chars_of(target);
    let len = v.len();
    let mut i: usize = 0;
    while i < len && v[i] != '#'
        invariant
            v@ == target@,
            len == v.len(),
            i <= len,
            forall|j: int| 0 <= j < i ==> target@[j] != '#',
        decreases len - i,
    {
        i = i + 1;
    }
    if i < len {
        proof {
            lemma_first_unique(target@, '#', i as int);
        }
        if i == 0 {
            return Err(CliError::TargetMissingId);
        }
        if i + 1 == len {
            return Err(CliError::EmptyTargetProfile);
        }
        let id = slice_owned(target, 0, i);
        let profile = slice_owned(target, i + 1, len);
        assert(id@ =~= target@.take(i as int));
        assert(profile@ =~= target@.skip(i + 1));
        Ok((id, Some(profile)))
    } else {
        assert(!target@.contains('#'));
        if len == 0 {
            return Err(CliError::EmptyTarget);
        }
        Ok((target.to_owned(), None))
    }
}

/// A rough human-readable duration.
pub open spec fn humanize_spec(secs: nat) -> Seq<char> {
    if secs < 60 {
        decimal(secs) + " seconds"@
    } else if secs < 3600 {
        decimal(secs / 60) + " minutes"@
    } else if secs < 86400 {
        decimal(secs / 3600) + " hours"@
    } else {
        decimal(secs / 86400) + " days"@
    }
}

/// Seconds as a rough duration: whole seconds, minutes, hours or days.
pub fn humanize(secs: u64) -> (r: String)
    ensures
        r@ == humanize_spec(secs as nat),
{
    if secs < 60 {
        let mut s = decimal_string(secs);
        s.append(" seconds");
        s
    } else if secs < 3600 {
        let mut s = decimal_string(secs / 60);
        s.append(" minutes");
        s
    } else if secs < 86_400 {
        let mut s = decimal_string(secs / 3600);
        s.append(" hours");
        s
    } else {
        let mut s = decimal_string(secs / 86_400);
        s.append(" days");
        s
    }
}

/// The line that tells where the catalog comes from.
pub open spec fn data_source_spec(status: CacheStatus) -> Seq<char> {
    match status {
        CacheStatus::Missing => "Source: built-in snapshot + user overrides (no models.dev cache; run `llmkeys refresh` to fetch)"@,
        CacheStatus::Fresh { age_secs } => "Source: built-in snapshot + models.dev cache ("@
            + humanize_spec(age_secs as nat) + " ago) + user overrides"@,
        CacheStatus::Stale { age_secs } => "Source: built-in snapshot + models.dev cache ("@
            + humanize_spec(age_secs as nat)
            + " ago, stale; consider `llmkeys refresh`) + user overrides"@,
    }
}

/// Where the catalog's data comes from, given the cache status.
pub fn data_source_line(status: CacheStatus) -> (r: String)
    ensures
        r@ == data_source_spec(status),
{
    match status {
        CacheStatus::Missing => "Source: built-in snapshot + user overrides (no models.dev cache; run `llmkeys refresh` to fetch)".to_owned(),
        CacheStatus::Fresh { age_secs } => {
            let mut s = "Source: built-in snapshot + models.dev cache (".to_owned();
            let h = humanize(age_secs);
            s.append(h.as_str());
            s.append(" ago) + user overrides");
            s
        },
        CacheStatus::Stale { age_secs } => {
            let mut s = "Source: built-in snapshot + models.dev cache (".to_owned();
            let h = humanize(age_secs);
            s.append(h.as_str());
            s.append(" ago, stale; consider `llmkeys refresh`) + user overrides");
            s
        },
    }
}

proof fn lemma_humanize_no_st(secs: nat)
    ensures
        no_pair(humanize_spec(secs), 's', 't'),
        humanize_spec(secs).len() > 0,
        humanize_spec(secs)[0] != 't',
        humanize_spec(secs).last() == 's',
{
    reveal_strlit(" seconds");
    reveal_strlit(" minutes");
    reveal_strlit(" hours");
    reveal_strlit(" days");
    let q: nat = if secs < 60 {
        secs
    } else if secs < 3600 {
        secs / 60
    } else if secs < 86400 {
        secs / 3600
    } else {
        secs / 86400
    };
    let unit = if secs < 60 {
        " seconds"@
    } else if secs < 3600 {
        " minutes"@
    } else if secs < 86400 {
        " hours"@
    } else {
        " days"@
    };
    let d = decimal(q);
    lemma_decimal_digits(q);
    assert(no_pair(d, 's', 't')) by {
        assert forall|i: int| 0 <= i < d.len() - 1 implies !(#[trigger] d[i] == 's' && d[i + 1]
            == 't') by {
            assert(48 <= (d[i] as u32) <= 57);
        }
    }
    assert(48 <= (d[0] as u32) <= 57);
    assert(48 <= (d[d.len() - 1] as u32) <= 57);
    assert(no_pair(unit, 's', 't'));
    lemma_no_pair_concat(d, unit, 's', 't');
    assert(humanize_spec(secs) == d + unit);
}

/// The line that tells where the data comes from mentions "stale" exactly when
/// the cache is stale, and for a cache of any age it shows that age.
pub proof fn law_stale_note_only_when_stale(status: CacheStatus)
    ensures
        has_sub(data_source_spec(status), "stale"@) <==> status is Stale,
        match status {
            CacheStatus::Fresh { age_secs } => has_sub(
                data_source_spec(status),
                humanize_spec(age_secs as nat) + " ago)"@,
            ),
            CacheStatus::Stale { age_secs } => has_sub(
                data_source_spec(status),
                humanize_spec(age_secs as nat) + " ago, stale"@,
            ),
            CacheStatus::Missing => true,
        },
{
    reveal_strlit("stale");
    reveal_strlit("Source: built-in snapshot + user overrides (no models.dev cache; run `llmkeys refresh` to fetch)");
    reveal_strlit("Source: built-in snapshot + models.dev cache (");
    reveal_strlit(" ago) + user overrides");
    reveal_strlit(" ago, stale; consider `llmkeys refresh`) + user overrides");
    reveal_strlit(" ago)");
    reveal_strlit(" ago, stale");
    let needle = "stale"@;
    let pre = "Source: built-in snapshot + models.dev cache ("@;
    match status {
        CacheStatus::Missing => {
            let s = "Source: built-in snapshot + user overrides (no models.dev cache; run `llmkeys refresh` to fetch)"@;
            assert(no_pair(s, 's', 't'));
            lemma_no_pair_no_sub(s, needle);
        },
        CacheStatus::Fresh { age_secs } => {
            let h = humanize_spec(age_secs as nat);
            let post = " ago) + user overrides"@;
            lemma_humanize_no_st(age_secs as nat);
            assert(no_pair(pre, 's', 't'));
            assert(no_pair(post, 's', 't'));
            lemma_no_pair_concat(pre, h, 's', 't');
            lemma_no_pair_concat(pre + h, post, 's', 't');
            assert(data_source_spec(status) == pre + h + post);
            lemma_no_pair_no_sub(pre + h + post, needle);
            let s = pre + h + post;
            let w = h + " ago)"@;
            assert(s.subrange(pre.len() as int, (pre.len() + w.len()) as int) =~= w);
        },
        CacheStatus::Stale { age_secs } => {
            let h = humanize_spec(age_secs as nat);
            let post = " ago, stale; consider `llmkeys refresh`) + user overrides"@;
            let s = pre + h + post;
            assert(data_source_spec(status) == s);
            let at: int = (pre.len() + h.len() + 6) as int;
            assert(s.subrange(at, at + needle.len()) =~= needle);
            let w = h + " ago, stale"@;
            assert(s.subrange(pre.len() as int, (pre.len() + w.len()) as int) =~= w);
        },
    }
}

/// The reference a provider's key is fetched by. Without `--profile` it is the
/// configured `key_ref` itself: printing it gives the `key_ref` text back, its
/// profile included. With `--profile` only the profile is replaced: backend and
/// locator stay the configured ones. A missing or unparsable `key_ref` is
/// reported for the provider, with the parse failure as its cause.
pub proof fn law_resolved_reference(p: ProviderView, id: Seq<char>, profile: Option<Seq<char>>)
    ensures
        p.key_ref is None ==> resolve_spec(p, id, profile) == Err::<CredRefView, CliFault>(
            CliFault::NoKeyRef(id),
        ),
        p.key_ref is Some ==> ({
            let k = p.key_ref->0;
            let r = resolve_spec(p, id, profile);
            &&& parse_spec(k) is Err ==> r == Err::<CredRefView, CliFault>(
                CliFault::InvalidKeyRef { id, cause: parse_spec(k)->Err_0 },
            )
            &&& parse_spec(k) is Ok ==> {
                &&& r is Ok
                &&& r->Ok_0.backend == parse_spec(k)->Ok_0.backend
                &&& r->Ok_0.locator == parse_spec(k)->Ok_0.locator
                &&& profile is None ==> render_spec(r->Ok_0) == k
                &&& profile is Some ==> r->Ok_0.profile == profile
            }
        }),
{
    if let Some(k) = p.key_ref {
        if parse_spec(k) is Ok {
            law_print_after_parse(k);
        }
    }
}

} // verus!
