//! `show <id>`: a provider's whole configuration. The key appears only as its
//! reference; this command never reaches a secret backend.

use vstd::prelude::*;

use crate::cli::{find_provider, CliError, CliFault};
use crate::model::{opt_str_view, role_of, ProviderView, ProvidersFile};
use crate::text::{pad_right, push_padded};

verus! {

/// One `  <label, 16 wide>: <value or (未设置)>` line.
pub open spec fn field_line(label: Seq<char>, value: Option<Seq<char>>) -> Seq<char> {
    "  "@ + pad_right(label, 16) + ": "@ + match value {
        Some(v) => v,
        None => "(未设置)"@,
    } + "\n"@
}

/// The `key_ref` line: the reference, marked as not being the key.
pub open spec fn key_ref_line(value: Option<Seq<char>>) -> Seq<char> {
    "  "@ + pad_right("key_ref"@, 16) + ": "@ + match value {
        Some(k) => k + "   (引用,不显示明文)"@,
        None => "(未设置)"@,
    } + "\n"@
}

/// What `show` prints for provider `id`.
pub open spec fn show_text(id: Seq<char>, p: ProviderView) -> Seq<char> {
    id + "\n"@ + field_line("display_name"@, p.display_name) + field_line("base_url"@, p.base_url)
        + key_ref_line(p.key_ref) + field_line("env_prefix"@, p.env_prefix) + field_line(
        "naming_note"@,
        p.naming_note,
    ) + field_line("models.chat"@, role_of(p.models, "chat"@)) + field_line(
        "models.embedding"@,
        role_of(p.models, "embedding"@),
    )
}

/// What `show` gives: the provider's text, or not found.
pub open spec fn show_spec(cat: Map<Seq<char>, ProviderView>, id: Seq<char>) -> Result<
    Seq<char>,
    CliFault,
> {
    if cat.contains_key(id) {
        Ok(show_text(id, cat[id]))
    } else {
        Err(CliFault::ProviderNotFound(id))
    }
}

fn field(out: &mut String, label: &str, value: Option<&str>)
    ensures
        final(out)@ == old(out)@ + field_line(label@, opt_str_view(value)),
{
    out.append("  ");
    push_padded(out, label, 16);
    out.append(": ");
    match value {
        Some(v) => out.append(v),
        None => out.append("(未设置)"),
    }
    out.append("\n");
}

fn as_opt_str(o: &Option<String>) -> (r: Option<&str>)
    ensures
        opt_str_view(r) == crate::model::opt_view(*o),
{
    match o {
        Some(s) => Some(s.as_str()),
        None => None,
    }
}

/// The text `show` prints for provider `id`.
pub fn run(cat: &ProvidersFile, id: &str) -> (r: Result<String, CliError>)
    ensures
        match r {
            Ok(s) => show_spec(cat@, id@) == Ok::<Seq<char>, CliFault>(s@),
            Err(e) => show_spec(cat@, id@) == Err::<Seq<char>, CliFault>(e@),
        },
{
    let p = match find_provider(cat, id) {
        Ok(p) => p,
        Err(e) => return Err(e),
    };
    let mut out = id.to_owned();
    out.append("\n");
    field(&mut out, "display_name", as_opt_str(&p.display_name));
    field(&mut out, "base_url", as_opt_str(&p.base_url));
    let ghost before_key = out@;
    out.append("  ");
    push_padded(&mut out, "key_ref", 16);
    out.append(": ");
    match &p.key_ref {
        Some(kr) => {
            out.append(kr.as_str());
            out.append("   (引用,不显示明文)");
        },
        None => out.append("(未设置)"),
    }
    out.append("\n");
    assert(out@ =~= before_key + key_ref_line(p@.key_ref));
    field(&mut out, "env_prefix", as_opt_str(&p.env_prefix));
    field(&mut out, "naming_note", as_opt_str(&p.naming_note));
    field(&mut out, "models.chat", p.models.chat());
    field(&mut out, "models.embedding", p.models.embedding());
    Ok(out)
}

/// The value a line shows: the set value, or `(未设置)`.
pub open spec fn shown(m: Map<Seq<char>, Seq<char>>, role: Seq<char>) -> Seq<char> {
    if m.contains_key(role) {
        m[role]
    } else {
        "(未设置)"@
    }
}

/// `show` succeeds exactly for a provider of the catalog. Its text opens with
/// the id and closes with the chat model's line and then the embedding model's
/// line, each showing that role's model (or `(未设置)` when the role is unset).
pub proof fn law_show_model_lines(cat: Map<Seq<char>, ProviderView>, id: Seq<char>)
    ensures
        (show_spec(cat, id) is Ok) <==> cat.contains_key(id),
        cat.contains_key(id) ==> ({
            let s = show_spec(cat, id)->Ok_0;
            let m = cat[id].models;
            let tail = "  models.chat     : "@ + shown(m, "chat"@) + "\n"@
                + "  models.embedding: "@ + shown(m, "embedding"@) + "\n"@;
            &&& s.take((id.len() + 1) as int) == id + "\n"@
            &&& s.len() >= tail.len()
            &&& s.skip(s.len() - tail.len()) == tail
        }),
{
    if cat.contains_key(id) {
        reveal_strlit("  models.chat     : ");
        reveal_strlit("  models.embedding: ");
        reveal_strlit("  ");
        reveal_strlit(": ");
        reveal_strlit("models.chat");
        reveal_strlit("models.embedding");
        reveal_strlit("\n");
        let p = cat[id];
        let m = p.models;
        let s = show_spec(cat, id)->Ok_0;
        let fc = field_line("models.chat"@, role_of(m, "chat"@));
        let fe = field_line("models.embedding"@, role_of(m, "embedding"@));
        assert(pad_right("models.chat"@, 16) =~= "models.chat     "@) by {
            reveal_strlit("models.chat     ");
        }
        assert(pad_right("models.embedding"@, 16) =~= "models.embedding"@);
        assert("  "@ + "models.chat     "@ + ": "@ =~= "  models.chat     : "@) by {
            reveal_strlit("models.chat     ");
        }
        assert("  "@ + "models.embedding"@ + ": "@ =~= "  models.embedding: "@);
        let tail = "  models.chat     : "@ + shown(m, "chat"@) + "\n"@ + "  models.embedding: "@
            + shown(m, "embedding"@) + "\n"@;
        assert(fc + fe =~= tail);
        let front = id + "\n"@ + field_line("display_name"@, p.display_name) + field_line(
            "base_url"@,
            p.base_url,
        ) + key_ref_line(p.key_ref) + field_line("env_prefix"@, p.env_prefix) + field_line(
            "naming_note"@,
            p.naming_note,
        );
        assert(s == front + fc + fe);
        assert(s =~= front + tail);
        assert(s.skip(s.len() - tail.len()) =~= tail);
        assert(s.take((id.len() + 1) as int) =~= id + "\n"@);
    }
}

} // verus!
