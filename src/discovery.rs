//! Model discovery: where to ask an endpoint for its models, and which of
//! the listed models it keeps.

use vstd::prelude::*;
use vstd::string::*;
use crate::endpoint::ModelDescriptor;
use crate::glob::{glob, glob_match};
use crate::text::{has_suffix, str_ends_with, string_from_chars, strip_trailing_char, trim_end_char};

verus! {

/// Some pattern of `pats` matches `id`.
pub open spec fn matches_any(pats: Seq<String>, id: Seq<char>) -> bool {
    exists|k: int| 0 <= k < pats.len() && glob((#[trigger] pats[k])@, id)
}

/// Model `id` passes the wanted list (if any) and no unwanted pattern hits it.
pub open spec fn kept(wanted: Option<Vec<String>>, unwanted: Option<Vec<String>>, id: Seq<char>) -> bool {
    &&& match wanted {
        Some(p) => matches_any(p@, id),
        None => true,
    }
    &&& match unwanted {
        Some(p) => !matches_any(p@, id),
        None => true,
    }
}

/// The models of `ms` that are kept, in their order.
pub open spec fn filtered(
    ms: Seq<ModelDescriptor>,
    wanted: Option<Vec<String>>,
    unwanted: Option<Vec<String>>,
) -> Seq<ModelDescriptor>
    decreases ms.len(),
{
    if ms.len() == 0 {
        Seq::empty()
    } else {
        let rest = filtered(ms.drop_last(), wanted, unwanted);
        if kept(wanted, unwanted, ms.last().id@) {
            rest.push(ms.last())
        } else {
            rest
        }
    }
}

/// Whether some pattern of `pats` matches `id`.
pub fn any_pattern_matches(pats: &Vec<String>, id: &str) -> (r: bool)
    ensures
        r == matches_any(pats@, id@),
{
    let mut k: usize = 0;
    while k < pats.len()
        invariant
            k <= pats@.len(),
            forall|x: int| 0 <= x < k ==> !glob((#[trigger] pats@[x])@, id@),
        decreases pats.len() - k,
    {
        if glob_match(pats[k].as_str(), id) {
            return true;
        }
        k += 1;
    }
    false
}

/// Whether model `id` is kept by the wanted and unwanted lists.
pub fn is_kept(wanted: &Option<Vec<String>>, unwanted: &Option<Vec<String>>, id: &str) -> (r: bool)
    ensures
        r == kept(*wanted, *unwanted, id@),
{
    let inc = match wanted {
        Some(p) => any_pattern_matches(p, id),
        None => true,
    };
    let exc = match unwanted {
        Some(p) => any_pattern_matches(p, id),
        None => false,
    };
    inc && !exc
}

/// The listed models that pass the wanted patterns (when given) and none
/// of the unwanted patterns, in their order.
pub fn filter_models(
    models: &Vec<ModelDescriptor>,
    wanted: &Option<Vec<String>>,
    unwanted: &Option<Vec<String>>,
) -> (r: Vec<ModelDescriptor>)
    ensures
        r@ == filtered(models@, *wanted, *unwanted),
{
    let mut out: Vec<ModelDescriptor> = Vec::new();
    let mut k: usize = 0;
    while k < models.len()
        invariant
            k <= models@.len(),
            out@ == filtered(models@.subrange(0, k as int), *wanted, *unwanted),
        decreases models.len() - k,
    {
        proof {
            let s = models@.subrange(0, k + 1);
            assert(s.drop_last() =~= models@.subrange(0, k as int));
            assert(s.last() == models@[k as int]);
        }
        if is_kept(wanted, unwanted, models[k].id.as_str()) {
            out.push(models[k].duplicate());
        }
        k += 1;
    }
    assert(models@.subrange(0, models@.len() as int) =~= models@);
    out
}

/// The model-list URL of an endpoint: trailing slashes dropped, then
/// `/models` after a `/v1` suffix, `/v1/models` otherwise.
pub open spec fn models_url_of(base: Seq<char>) -> Seq<char> {
    let b = strip_trailing_char(base, '/');
    if has_suffix(b, "/v1"@) {
        b + "/models"@
    } else {
        b + "/v1/models"@
    }
}

/// The chat-completions URL of an endpoint: trailing slashes dropped, then
/// `/chat/completions`.
pub open spec fn chat_url_of(base: Seq<char>) -> Seq<char> {
    strip_trailing_char(base, '/') + "/chat/completions"@
}

/// Where to list an endpoint's models.
pub fn models_url(base_url: &str) -> (r: String)
    ensures
        r@ == models_url_of(base_url@),
{
    let b = trim_end_char(base_url, '/');
    let mut s = string_from_chars(&b);
    if str_ends_with(s.as_str(), "/v1") {
        s.append("/models");
    } else {
        s.append("/v1/models");
    }
    s
}

/// Where to send an endpoint chat completions.
pub fn chat_completions_url(base_url: &str) -> (r: String)
    ensures
        r@ == chat_url_of(base_url@),
{
    let b = trim_end_char(base_url, '/');
    let mut s = string_from_chars(&b);
    s.append("/chat/completions");
    s
}

} // verus!
