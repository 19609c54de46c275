//! Page-level metadata extraction.
//!
//! A parsed page document is read through three trusted selections: the
//! inner HTML of its `h1` elements, the text of its script blocks, and the
//! text of its executable script blocks (those whose `type` attribute does
//! not indicate an embedded-JSON payload).  On top of these the verified
//! extractor finds the page title (exactly one `h1` is accepted) and the
//! embedded metadata text, in one of two modes: a literal
//! `window.<field>=` prefix scan, or a script-parse via the assignment
//! locator for pages that mix the assignment with other statements.

use vstd::prelude::*;

use scraper::Html;

use crate::err::DlError;
use crate::json::json_of;
use crate::script::{
    extract_assignment_src, first_assign, initial_state_from_json, initial_state_ok,
    initial_state_of, module_of, span_in_bounds, span_slice, window_bytes, InitialState,
};
use crate::text::{sanitize_seq, sanitize_title, starts_with, trim_ascii, trimmed};
use vstd::string::StringSliceAdditionalSpecFns;

verus! {

#[verifier::external_type_specification]
#[verifier::external_body]
pub struct ExHtml(Html);

/// The inner HTML of each `h1` element of the document, in document order.
pub uninterp spec fn h1_texts_of(doc: Html) -> Seq<Seq<u8>>;

/// The concatenated text of each script element, in document order.
pub uninterp spec fn script_texts_of(doc: Html) -> Seq<Seq<u8>>;

/// The concatenated text of each executable script element (those not
/// marked with a JSON content type), in document order.
pub uninterp spec fn exec_script_texts_of(doc: Html) -> Seq<Seq<u8>>;

/// Relies on `Html::parse_document`: HTML parsing itself never fails, so
/// this fails exactly on a body that is not valid UTF-8.
#[verifier::external_body]
pub fn parse_document(body: &[u8]) -> (r: Option<Html>)
    ensures
        r is Some <==> vstd::utf8::valid_utf8(body@),
{
    let s = match core::str::from_utf8(body) {
        Ok(s) => s,
        Err(_) => return None,
    };
    Some(Html::parse_document(s))
}

/// Relies on `Html::select` with selector `h1` and
/// `ElementRef::inner_html`: the inner HTML of each matching element, in
/// document order.
#[verifier::external_body]
fn h1_texts(doc: &Html) -> (r: Vec<Vec<u8>>)
    ensures
        r@.map_values(|v: Vec<u8>| v@) == h1_texts_of(*doc),
{
    let sel = scraper::Selector::parse("h1").unwrap();
    doc.select(&sel).map(|e| e.inner_html().into_bytes()).collect()
}

/// Relies on `Html::select` with selector `script` and
/// `ElementRef::text`: the concatenated text of each matching element, in
/// document order.
#[verifier::external_body]
fn script_texts(doc: &Html) -> (r: Vec<Vec<u8>>)
    ensures
        r@.map_values(|v: Vec<u8>| v@) == script_texts_of(*doc),
{
    let sel = scraper::Selector::parse("script").unwrap();
    doc.select(&sel).map(|e| e.text().collect::<Vec<_>>().join("").into_bytes()).collect()
}

/// Relies on `Html::select` with selector `script:not([type*=json])` and
/// `ElementRef::text`: the concatenated text of each matching element, in
/// document order.
#[verifier::external_body]
fn exec_script_texts(doc: &Html) -> (r: Vec<Vec<u8>>)
    ensures
        r@.map_values(|v: Vec<u8>| v@) == exec_script_texts_of(*doc),
{
    let sel = scraper::Selector::parse("script:not([type*=json])").unwrap();
    doc.select(&sel).map(|e| e.text().collect::<Vec<_>>().join("").into_bytes()).collect()
}

/// Extract the page title from the single `h1` element, with path-unsafe
/// characters substituted.  Zero `h1` elements is `TitleMissing`, more than
/// one is `TitleAmbiguous`: never a silent first pick.
#[allow(unused_variables)]
pub fn extract_title(document: &Html, video_id: &str) -> (r: Result<Vec<u8>, DlError>)
    ensures
        r matches Err(DlError::TitleMissing) <==> h1_texts_of(*document).len() == 0,
        r matches Err(DlError::TitleAmbiguous) <==> h1_texts_of(*document).len() > 1,
        r is Ok <==> h1_texts_of(*document).len() == 1,
        r matches Ok(t) ==> t@ == sanitize_seq(h1_texts_of(*document)[0]),
{
    let titles = h1_texts(document);
    let ghost model = h1_texts_of(*document);
    proof {
        assert(titles@.map_values(|v: Vec<u8>| v@).len() == model.len());
    }
    if titles.len() > 1 {
        Err(DlError::TitleAmbiguous)
    } else if titles.len() == 0 {
        Err(DlError::TitleMissing)
    } else {
        proof {
            assert(titles@.map_values(|v: Vec<u8>| v@)[0] == model[0]);
        }
        Ok(sanitize_title(titles[0].as_slice()))
    }
}

/// How metadata is embedded in the page.
pub enum ExtractMode {
    /// The whole script block is the assignment: a literal
    /// `window.<field>=` prefix followed by the payload.
    Prefix,
    /// The assignment stands among other statements: the block is parsed
    /// and the assignment located in its syntax tree.
    Ast,
}

/// The literal prefix of a prefix-mode block: `window.<field>=`.
pub open spec fn prefix_of_field(field: Seq<u8>) -> Seq<u8> {
    "window.".spec_bytes() + field + "=".spec_bytes()
}

/// The trimmed block starts with the prefix.
pub open spec fn prefix_hit(block: Seq<u8>, field: Seq<u8>) -> bool {
    prefix_of_field(field).is_prefix_of(trimmed(block))
}

/// What a prefix-mode hit yields: the trimmed block after the prefix.
pub open spec fn prefix_payload(block: Seq<u8>, field: Seq<u8>) -> Seq<u8> {
    trimmed(block).skip(prefix_of_field(field).len() as int)
}

/// The payload of the first prefix-mode hit among the blocks, if any.
pub open spec fn first_prefix_hit(blocks: Seq<Seq<u8>>, field: Seq<u8>) -> Option<Seq<u8>>
    decreases blocks.len(),
{
    if blocks.len() == 0 {
        None
    } else if prefix_hit(blocks[0], field) {
        Some(prefix_payload(blocks[0], field))
    } else {
        first_prefix_hit(blocks.drop_first(), field)
    }
}

/// The block parses as script source and holds a `window.<field>`
/// assignment whose span lies inside the block.
pub open spec fn ast_hit(block: Seq<u8>, field: Seq<u8>) -> bool {
    module_of(block) matches Some(items) && first_assign(items, window_bytes(), field) matches Some(
        item,
    ) && span_in_bounds(item, block.len() as int)
}

/// What an AST-mode hit yields: the block sliced at the located span.
pub open spec fn ast_payload(block: Seq<u8>, field: Seq<u8>) -> Seq<u8> {
    span_slice(first_assign(module_of(block).unwrap(), window_bytes(), field).unwrap(), block)
}

/// The payload of the first AST-mode hit among the blocks, if any.
pub open spec fn first_ast_hit(blocks: Seq<Seq<u8>>, field: Seq<u8>) -> Option<Seq<u8>>
    decreases blocks.len(),
{
    if blocks.len() == 0 {
        None
    } else if ast_hit(blocks[0], field) {
        Some(ast_payload(blocks[0], field))
    } else {
        first_ast_hit(blocks.drop_first(), field)
    }
}

/// What metadata extraction yields on a document, per mode.
pub open spec fn metadata_of(doc: Html, field: Seq<u8>, mode: ExtractMode) -> Option<Seq<u8>> {
    match mode {
        ExtractMode::Prefix => first_prefix_hit(script_texts_of(doc), field),
        ExtractMode::Ast => first_ast_hit(exec_script_texts_of(doc), field),
    }
}

proof fn lemma_first_prefix_at(blocks: Seq<Seq<u8>>, field: Seq<u8>, k: int)
    requires
        0 <= k <= blocks.len(),
        forall|j: int| 0 <= j < k ==> !prefix_hit(blocks[j], field),
        k < blocks.len() ==> prefix_hit(blocks[k], field),
    ensures
        first_prefix_hit(blocks, field) == if k < blocks.len() {
            Some(prefix_payload(blocks[k], field))
        } else {
            None::<Seq<u8>>
        },
    decreases k + 1,
{
    if k == 0 {
    } else {
        assert(!prefix_hit(blocks[0], field));
        lemma_first_prefix_at(blocks.drop_first(), field, k - 1);
    }
}

proof fn lemma_first_ast_at(blocks: Seq<Seq<u8>>, field: Seq<u8>, k: int)
    requires
        0 <= k <= blocks.len(),
        forall|j: int| 0 <= j < k ==> !ast_hit(blocks[j], field),
        k < blocks.len() ==> ast_hit(blocks[k], field),
    ensures
        first_ast_hit(blocks, field) == if k < blocks.len() {
            Some(ast_payload(blocks[k], field))
        } else {
            None::<Seq<u8>>
        },
    decreases k + 1,
{
    if k == 0 {
    } else {
        assert(!ast_hit(blocks[0], field));
        lemma_first_ast_at(blocks.drop_first(), field, k - 1);
    }
}

/// Build the literal prefix `window.<field>=`.
fn build_prefix(field: &[u8]) -> (r: Vec<u8>)
    ensures
        r@ == prefix_of_field(field@),
{
    let mut p: Vec<u8> = Vec::new();
    p.extend_from_slice("window.".as_bytes());
    p.extend_from_slice(field);
    p.extend_from_slice("=".as_bytes());
    p
}

/// Extract raw metadata text assigned to `window.<field>` from the
/// document's script blocks, trying blocks in document order and returning
/// on the first success of the configured mode.  Fails with
/// `MetadataNotFound` when no block of the whole document matches; in AST
/// mode a block that does not parse is skipped, not fatal for the page.
pub fn extract_metadata(document: &Html, field: &[u8], mode: ExtractMode) -> (r: Result<
    Vec<u8>,
    DlError,
>)
    ensures
        match metadata_of(*document, field@, mode) {
            None => r matches Err(DlError::MetadataNotFound),
            Some(payload) => r matches Ok(out) && out@ == payload,
        },
{
    match mode {
        ExtractMode::Prefix => {
            let blocks = script_texts(document);
            let ghost model = script_texts_of(*document);
            let prefix = build_prefix(field);
            let n: usize = blocks.len();
            proof {
                assert(blocks@.map_values(|v: Vec<u8>| v@).len() == model.len());
            }
            for i in 0..n
                invariant
                    n == blocks@.len() && n == model.len(),
                    blocks@.map_values(|v: Vec<u8>| v@) == model,
                    prefix@ == prefix_of_field(field@),
                    model == script_texts_of(*document),
                    mode matches ExtractMode::Prefix,
                    forall|j: int| 0 <= j < i ==> !prefix_hit(model[j], field@),
            {
                proof {
                    assert(blocks@.map_values(|v: Vec<u8>| v@)[i as int] == model[i as int]);
                }
                let t = trim_ascii(blocks[i].as_slice());
                if starts_with(t.as_slice(), prefix.as_slice()) {
                    proof {
                        assert(prefix_hit(model[i as int], field@));
                        lemma_first_prefix_at(model, field@, i as int);
                    }
                    let s = vstd::slice::slice_subrange(t.as_slice(), prefix.len(), t.len());
                    proof {
                        assert(s@ =~= prefix_payload(model[i as int], field@));
                    }
                    return Ok(vstd::slice::slice_to_vec(s));
                }
            }
            proof {
                lemma_first_prefix_at(model, field@, n as int);
            }
            Err(DlError::MetadataNotFound)
        },
        ExtractMode::Ast => {
            let blocks = exec_script_texts(document);
            let ghost model = exec_script_texts_of(*document);
            let n: usize = blocks.len();
            proof {
                assert(blocks@.map_values(|v: Vec<u8>| v@).len() == model.len());
            }
            for i in 0..n
                invariant
                    n == blocks@.len() && n == model.len(),
                    blocks@.map_values(|v: Vec<u8>| v@) == model,
                    model == exec_script_texts_of(*document),
                    mode matches ExtractMode::Ast,
                    forall|j: int| 0 <= j < i ==> !ast_hit(model[j], field@),
            {
                proof {
                    assert(blocks@.map_values(|v: Vec<u8>| v@)[i as int] == model[i as int]);
                }
                match extract_assignment_src(blocks[i].as_slice(), field) {
                    Ok(out) => {
                        proof {
                            assert(ast_hit(model[i as int], field@));
                            lemma_first_ast_at(model, field@, i as int);
                            assert(out@ == ast_payload(model[i as int], field@));
                        }
                        return Ok(out);
                    },
                    Err(_) => {},
                }
            }
            proof {
                lemma_first_ast_at(model, field@, n as int);
            }
            Err(DlError::MetadataNotFound)
        },
    }
}

/// Extract the raw JSON text of the page's `window.__playinfo__`
/// assignment (prefix mode).
#[allow(unused_variables)]
pub fn extract_video_json(document: &Html, video_url: &str) -> (r: Result<Vec<u8>, DlError>)
    ensures
        match first_prefix_hit(script_texts_of(*document), "__playinfo__".spec_bytes()) {
            None => r matches Err(DlError::MetadataNotFound),
            Some(payload) => r matches Ok(out) && out@ == payload,
        },
{
    extract_metadata(document, "__playinfo__".as_bytes(), ExtractMode::Prefix)
}

/// Locate and decode the page's `window.__INITIAL_STATE__` assignment (AST
/// mode): script blocks that do not parse are skipped; the first block with
/// the assignment yields the payload, whose decode failure is fatal.
pub fn extract_initial_state(document: &Html) -> (r: Result<InitialState, DlError>)
    ensures
        match first_ast_hit(exec_script_texts_of(*document), "__INITIAL_STATE__".spec_bytes()) {
            None => r matches Err(DlError::MetadataNotFound),
            Some(payload) => {
                &&& r is Ok <==> (json_of(payload) matches Some(m) && initial_state_ok(m))
                &&& (r matches Ok(st) ==> initial_state_of(
                    json_of(payload).unwrap(),
                    st.cid,
                    st.bvid@,
                ))
                &&& (r matches Err(e) ==> e matches DlError::DecodeError { .. })
            },
        },
{
    let payload = match extract_metadata(
        document,
        "__INITIAL_STATE__".as_bytes(),
        ExtractMode::Ast,
    ) {
        Ok(p) => p,
        Err(_) => {
            return Err(DlError::MetadataNotFound);
        },
    };
    initial_state_from_json(payload.as_slice())
}

} // verus!
