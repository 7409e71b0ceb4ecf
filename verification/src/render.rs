//! The snippets `env` and `code` print: a `.env` block and a LangChain block.
//! These are the only outputs that carry the key; they go to stdout or the
//! clipboard, never to a file or a log.

use vstd::prelude::*;

use crate::cli::{CliError, CliFault};
use crate::model::{role_of, Provider, ProviderView};

verus! {

/// A `<prefix><label><value>` line when the value is set.
pub open spec fn opt_line(prefix: Seq<char>, label: Seq<char>, value: Option<Seq<char>>) -> Seq<char> {
    match value {
        Some(v) => prefix + label + v + "\n"@,
        None => Seq::empty(),
    }
}

/// The `.env` block: base URL and key, then the chat and embedding models when set.
pub open spec fn dotenv_spec(id: Seq<char>, p: ProviderView, key: Seq<char>) -> Result<
    Seq<char>,
    CliFault,
> {
    match p.base_url {
        None => Err(CliFault::MissingField { id, field: "base_url"@ }),
        Some(base) => match p.env_prefix {
            None => Err(CliFault::MissingField { id, field: "env_prefix"@ }),
            Some(pre) => Ok(
                pre + "_BASE_URL="@ + base + "\n"@ + pre + "_API_KEY="@ + key + "\n"@ + opt_line(
                    pre,
                    "_MODEL="@,
                    role_of(p.models, "chat"@),
                ) + opt_line(pre, "_EMBEDDING_MODEL="@, role_of(p.models, "embedding"@)),
            ),
        },
    }
}

fn push_opt_line(out: &mut String, prefix: &str, label: &str, value: Option<&str>)
    ensures
        final(out)@ == old(out)@ + opt_line(
            prefix@,
            label@,
            crate::model::opt_str_view(value),
        ),
{
    match value {
        Some(v) => {
            out.append(prefix);
            out.append(label);
            out.append(v);
            out.append("\n");
        },
        None => {
            assert(old(out)@ + Seq::<char>::empty() =~= old(out)@);
        },
    }
}

/// Renders the `.env` block for provider `id`.
pub fn dotenv(id: &str, p: &Provider, key: &str) -> (r: Result<String, CliError>)
    ensures
        match r {
            Ok(s) => dotenv_spec(id@, p@, key@) == Ok::<Seq<char>, CliFault>(s@),
            Err(e) => dotenv_spec(id@, p@, key@) == Err::<Seq<char>, CliFault>(e@),
        },
{
    let base = match &p.base_url {
        Some(b) => b,
        None => {
            return Err(
                CliError::MissingField { id: id.to_owned(), field: "base_url".to_owned() },
            )
        },
    };
    let pre = match &p.env_prefix {
        Some(e) => e,
        None => {
            return Err(
                CliError::MissingField { id: id.to_owned(), field: "env_prefix".to_owned() },
            )
        },
    };
    let mut out = pre.clone();
    out.append("_BASE_URL=");
    out.append(base.as_str());
    out.append("\n");
    out.append(pre.as_str());
    out.append("_API_KEY=");
    out.append(key);
    out.append("\n");
    push_opt_line(&mut out, pre.as_str(), "_MODEL=", p.models.chat());
    push_opt_line(&mut out, pre.as_str(), "_EMBEDDING_MODEL=", p.models.embedding());
    Ok(out)
}

/// One `ChatOpenAI(...)`/`OpenAIEmbeddings(...)` style constructor block.
pub open spec fn lc_block(class: Seq<char>, var: Seq<char>, base: Seq<char>, key: Seq<char>, model: Seq<
    char,
>) -> Seq<char> {
    "from langchain_openai import "@ + class + "\n\n"@ + var + " = "@ + class
        + "(\n    base_url=\""@ + base + "\",\n    api_key=\""@ + key + "\",\n    model=\""@ + model
        + "\",\n)\n"@
}

/// The LangChain block: a `ChatOpenAI`, then an `OpenAIEmbeddings` when an
/// embedding model is set.
pub open spec fn langchain_spec(id: Seq<char>, p: ProviderView, key: Seq<char>) -> Result<
    Seq<char>,
    CliFault,
> {
    match p.base_url {
        None => Err(CliFault::MissingField { id, field: "base_url"@ }),
        Some(base) => match role_of(p.models, "chat"@) {
            None => Err(CliFault::MissingField { id, field: "models.chat"@ }),
            Some(chat) => Ok(
                lc_block("ChatOpenAI"@, "llm"@, base, key, chat) + match role_of(
                    p.models,
                    "embedding"@,
                ) {
                    Some(emb) => "\n"@ + lc_block("OpenAIEmbeddings"@, "embeddings"@, base, key, emb),
                    None => Seq::empty(),
                },
            ),
        },
    }
}

fn push_block(out: &mut String, class: &str, var: &str, base: &str, key: &str, model: &str)
    ensures
        final(out)@ == old(out)@ + lc_block(class@, var@, base@, key@, model@),
{
    out.append("from langchain_openai import ");
    out.append(class);
    out.append("\n\n");
    out.append(var);
    out.append(" = ");
    out.append(class);
    out.append("(\n    base_url=\"");
    out.append(base);
    out.append("\",\n    api_key=\"");
    out.append(key);
    out.append("\",\n    model=\"");
    out.append(model);
    out.append("\",\n)\n");
}

/// Renders the LangChain block for provider `id`.
pub fn langchain(id: &str, p: &Provider, key: &str) -> (r: Result<String, CliError>)
    ensures
        match r {
            Ok(s) => langchain_spec(id@, p@, key@) == Ok::<Seq<char>, CliFault>(s@),
            Err(e) => langchain_spec(id@, p@, key@) == Err::<Seq<char>, CliFault>(e@),
        },
{
    let base = match &p.base_url {
        Some(b) => b,
        None => {
            return Err(
                CliError::MissingField { id: id.to_owned(), field: "base_url".to_owned() },
            )
        },
    };
    let chat = match p.models.chat() {
        Some(c) => c,
        None => {
            return Err(
                CliError::MissingField { id: id.to_owned(), field: "models.chat".to_owned() },
            )
        },
    };
    let mut out = String::new();
    push_block(&mut out, "ChatOpenAI", "llm", base.as_str(), key, chat);
    let ghost first = out@;
    match p.models.embedding() {
        Some(emb) => {
            out.append("\n");
            push_block(&mut out, "OpenAIEmbeddings", "embeddings", base.as_str(), key, emb);
            assert(out@ =~= first + ("\n"@ + lc_block(
                "OpenAIEmbeddings"@,
                "embeddings"@,
                base@,
                key@,
                emb@,
            )));
        },
        None => {
            assert(out@ =~= first + Seq::<char>::empty());
        },
    }
    Ok(out)
}

/// The `.env` block: it exists exactly when the provider has a base URL and a
/// variable prefix. It opens with `<P>_BASE_URL=<base url>` and
/// `<P>_API_KEY=<key>`; the next line is `<P>_MODEL=<chat model>` when the
/// provider has a chat model; it ends with `<P>_EMBEDDING_MODEL=<embedding
/// model>` when the provider has an embedding model; nothing else is in it.
pub proof fn law_dotenv_lines(id: Seq<char>, p: ProviderView, key: Seq<char>)
    ensures
        (dotenv_spec(id, p, key) is Ok) <==> (p.base_url is Some && p.env_prefix is Some),
        p.base_url is None ==> dotenv_spec(id, p, key) == Err::<Seq<char>, CliFault>(
            CliFault::MissingField { id, field: "base_url"@ },
        ),
        dotenv_spec(id, p, key) is Ok ==> ({
            let s = dotenv_spec(id, p, key)->Ok_0;
            let pre = p.env_prefix->0;
            let head = pre + "_BASE_URL="@ + p.base_url->0 + "\n"@ + pre + "_API_KEY="@ + key
                + "\n"@;
            let chat_line = pre + "_MODEL="@ + p.models["chat"@] + "\n"@;
            let emb_line = pre + "_EMBEDDING_MODEL="@ + p.models["embedding"@] + "\n"@;
            let has_chat = p.models.contains_key("chat"@);
            let has_emb = p.models.contains_key("embedding"@);
            &&& s.take(head.len() as int) == head
            &&& has_chat ==> s.subrange(head.len() as int, (head.len() + chat_line.len()) as int)
                == chat_line
            &&& has_emb ==> s.skip(s.len() - emb_line.len()) == emb_line
            &&& s.len() == head.len() + (if has_chat {
                chat_line.len()
            } else {
                0
            }) + (if has_emb {
                emb_line.len()
            } else {
                0
            })
        }),
{
    if dotenv_spec(id, p, key) is Ok {
        let s = dotenv_spec(id, p, key)->Ok_0;
        let pre = p.env_prefix->0;
        let head = pre + "_BASE_URL="@ + p.base_url->0 + "\n"@ + pre + "_API_KEY="@ + key + "\n"@;
        let c = opt_line(pre, "_MODEL="@, role_of(p.models, "chat"@));
        let e = opt_line(pre, "_EMBEDDING_MODEL="@, role_of(p.models, "embedding"@));
        assert(s == head + c + e);
        assert(s.take(head.len() as int) =~= head);
        if p.models.contains_key("chat"@) {
            assert(s.subrange(head.len() as int, (head.len() + c.len()) as int) =~= c);
        }
        if p.models.contains_key("embedding"@) {
            assert(s.skip(s.len() - e.len()) =~= e);
        }
    }
}

/// The LangChain block: it exists exactly when the provider has a base URL and a
/// chat model. It opens with a `ChatOpenAI` client whose model is the chat
/// model; an `OpenAIEmbeddings` client whose model is the embedding model
/// follows exactly when the provider has one. Both use the base URL and the key.
pub proof fn law_langchain_models(id: Seq<char>, p: ProviderView, key: Seq<char>)
    ensures
        (langchain_spec(id, p, key) is Ok) <==> (p.base_url is Some && p.models.contains_key(
            "chat"@,
        )),
        p.base_url is Some && !p.models.contains_key("chat"@) ==> langchain_spec(id, p, key)
            == Err::<Seq<char>, CliFault>(CliFault::MissingField { id, field: "models.chat"@ }),
        langchain_spec(id, p, key) is Ok ==> ({
            let s = langchain_spec(id, p, key)->Ok_0;
            let base = p.base_url->0;
            let chat_block = "from langchain_openai import ChatOpenAI\n\nllm = ChatOpenAI(\n    base_url=\""@
                + base + "\",\n    api_key=\""@ + key + "\",\n    model=\""@ + p.models["chat"@]
                + "\",\n)\n"@;
            let emb_block = "\nfrom langchain_openai import OpenAIEmbeddings\n\nembeddings = OpenAIEmbeddings(\n    base_url=\""@
                + base + "\",\n    api_key=\""@ + key + "\",\n    model=\""@
                + p.models["embedding"@] + "\",\n)\n"@;
            &&& s.take(chat_block.len() as int) == chat_block
            &&& p.models.contains_key("embedding"@) ==> s.skip(chat_block.len() as int)
                == emb_block
            &&& !p.models.contains_key("embedding"@) ==> s == chat_block
        }),
{
    reveal_strlit("from langchain_openai import ChatOpenAI\n\nllm = ChatOpenAI(\n    base_url=\"");
    reveal_strlit("\nfrom langchain_openai import OpenAIEmbeddings\n\nembeddings = OpenAIEmbeddings(\n    base_url=\"");
    reveal_strlit("from langchain_openai import ");
    reveal_strlit("\n\n");
    reveal_strlit(" = ");
    reveal_strlit("(\n    base_url=\"");
    reveal_strlit("ChatOpenAI");
    reveal_strlit("OpenAIEmbeddings");
    reveal_strlit("llm");
    reveal_strlit("embeddings");
    reveal_strlit("\n");
    if langchain_spec(id, p, key) is Ok {
        let s = langchain_spec(id, p, key)->Ok_0;
        let base = p.base_url->0;
        let chat = p.models["chat"@];
        let chat_block = "from langchain_openai import ChatOpenAI\n\nllm = ChatOpenAI(\n    base_url=\""@
            + base + "\",\n    api_key=\""@ + key + "\",\n    model=\""@ + chat + "\",\n)\n"@;
        let l1 = "from langchain_openai import "@ + "ChatOpenAI"@ + "\n\n"@ + "llm"@ + " = "@
            + "ChatOpenAI"@ + "(\n    base_url=\""@;
        assert(l1 =~= "from langchain_openai import ChatOpenAI\n\nllm = ChatOpenAI(\n    base_url=\""@);
        assert(lc_block("ChatOpenAI"@, "llm"@, base, key, chat) =~= chat_block);
        if p.models.contains_key("embedding"@) {
            let emb = p.models["embedding"@];
            let l2 = "\n"@ + ("from langchain_openai import "@ + "OpenAIEmbeddings"@ + "\n\n"@
                + "embeddings"@ + " = "@ + "OpenAIEmbeddings"@ + "(\n    base_url=\""@);
            assert(l2 =~= "\nfrom langchain_openai import OpenAIEmbeddings\n\nembeddings = OpenAIEmbeddings(\n    base_url=\""@);
            let emb_block = "\nfrom langchain_openai import OpenAIEmbeddings\n\nembeddings = OpenAIEmbeddings(\n    base_url=\""@
                + base + "\",\n    api_key=\""@ + key + "\",\n    model=\""@ + emb + "\",\n)\n"@;
            assert("\n"@ + lc_block("OpenAIEmbeddings"@, "embeddings"@, base, key, emb)
                =~= emb_block);
            assert(s == chat_block + emb_block);
            assert(s.take(chat_block.len() as int) =~= chat_block);
            assert(s.skip(chat_block.len() as int) =~= emb_block);
        } else {
            assert(s =~= chat_block);
        }
    }
}

} // verus!
