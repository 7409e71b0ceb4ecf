//! `list`: every merged provider with its name and base URL, after a line that
//! tells where the data comes from.

use vstd::prelude::*;
use vstd::utf8::encode_utf8;

use crate::model::{ProviderView, ProvidersFile};
use crate::text::{pad_right, push_padded};

verus! {

/// The length in bytes of `s` as UTF-8, as `str::len` reports it.
pub open spec fn byte_len(s: Seq<char>) -> nat {
    (encode_utf8(s).len() as usize) as nat
}

/// The widest id, in bytes.
pub open spec fn id_width(ids: Seq<Seq<char>>) -> nat
    decreases ids.len(),
{
    if ids.len() == 0 {
        0
    } else {
        let w = id_width(ids.drop_last());
        if byte_len(ids.last()) > w {
            byte_len(ids.last())
        } else {
            w
        }
    }
}

/// One row: the id padded to `width`, the display name (or `-`), the base URL.
pub open spec fn row(id: Seq<char>, p: ProviderView, width: nat) -> Seq<char> {
    "  "@ + pad_right(id, width) + "  "@ + match p.display_name {
        Some(n) => n,
        None => "-"@,
    } + "  "@ + match p.base_url {
        Some(b) => b,
        None => "(无 base_url)"@,
    } + "\n"@
}

/// The rows of `ids`, in order.
pub open spec fn rows(ids: Seq<Seq<char>>, cat: Map<Seq<char>, ProviderView>, width: nat) -> Seq<
    char,
>
    decreases ids.len(),
{
    if ids.len() == 0 {
        Seq::empty()
    } else {
        rows(ids.drop_last(), cat, width) + row(ids.last(), cat[ids.last()], width)
    }
}

/// What `list` prints, for the catalog's ids in order.
pub open spec fn list_spec(ids: Seq<Seq<char>>, cat: Map<Seq<char>, ProviderView>, source: Seq<char>) -> Seq<
    char,
> {
    source + "\n"@ + if ids.len() == 0 {
        "(无 provider)\n"@
    } else {
        rows(ids, cat, id_width(ids))
    }
}

/// The text `list` prints, given the data-source line.
pub fn run(cat: &ProvidersFile, source_line: &str) -> (r: String)
    ensures
        r@ == list_spec(cat.providers.keys(), cat@, source_line@),
{
    let mut out = source_line.to_owned();
    out.append("\n");
    let n = cat.providers.len();
    let ghost ids = cat.providers.keys();
    if n == 0 {
        out.append("(无 provider)\n");
        return out;
    }
    let mut width: usize = 0;
    let mut i: usize = 0;
    assert(ids.take(0) =~= Seq::<Seq<char>>::empty());
    while i < n
        invariant
            n == ids.len(),
            ids == cat.providers.keys(),
            i <= n,
            width as nat == id_width(ids.take(i as int)),
        decreases n - i,
    {
        let w = cat.providers.key_at(i).as_str().len();
        assert(ids.take(i + 1).drop_last() =~= ids.take(i as int));
        if w > width {
            width = w;
        }
        i = i + 1;
    }
    assert(ids.take(n as int) =~= ids);
    let ghost head = out@;
    let mut i: usize = 0;
    while i < n
        invariant
            n == ids.len(),
            ids == cat.providers.keys(),
            cat@.dom() == ids.to_set(),
            i <= n,
            width as nat == id_width(ids),
            out@ == head + rows(ids.take(i as int), cat@, width as nat),
        decreases n - i,
    {
        let id = cat.providers.key_at(i);
        let p = cat.providers.value_at(i);
        let ghost before = out@;
        out.append("  ");
        push_padded(&mut out, id.as_str(), width);
        out.append("  ");
        match &p.display_name {
            Some(name) => out.append(name.as_str()),
            None => out.append("-"),
        }
        out.append("  ");
        match &p.base_url {
            Some(b) => out.append(b.as_str()),
            None => out.append("(无 base_url)"),
        }
        out.append("\n");
        proof {
            assert(ids.take(i + 1).drop_last() =~= ids.take(i as int));
            assert(out@ =~= before + row(id@, cat@[id@], width as nat));
        }
        i = i + 1;
    }
    assert(ids.take(n as int) =~= ids);
    out
}

} // verus!
