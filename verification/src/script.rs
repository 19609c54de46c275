//! Locating a `global.property = <expr>;` assignment in script source.
//!
//! A script fragment is parsed by an outside parser into a syntax tree; the
//! tree is read back as a closed sequence of items, each either a
//! member-assignment (the assigned object, the property name, and the byte
//! span of the right-hand side) or anything else.  The verified locator
//! walks that sequence for the first assignment to `window.<property>` and
//! slices the original source at the recorded span — the recovered text is
//! the original bytes, never a re-serialization of the tree.

use vstd::prelude::*;

use swc_common::Spanned;
use swc_ecma_ast::{AssignTarget, Expr, MemberProp, Module, ModuleItem, SimpleAssignTarget, Stmt};

use crate::decode::obj_field;
use crate::err::DlError;
use crate::json::{json_of, json_parse, JsonModel};
use crate::text::bytes_eq;
use vstd::string::StringSliceAdditionalSpecFns;

verus! {

#[verifier::external_type_specification]
#[verifier::external_body]
pub struct ExModule(Module);

/// One top-level item of a parsed script, as far as the locator reads it.
pub enum ScriptItem {
    /// A statement `<obj>.<prop> = <expr>` (any assignment operator), with
    /// the byte span of `<expr>` as the parser reports it: one-based,
    /// end-exclusive offsets into the source.
    MemberAssign { obj: Vec<u8>, prop: Vec<u8>, lo: usize, hi: usize },
    /// Any other item: a no-op for the locator.
    Other,
}

/// Ghost model of a script item.
pub enum ScriptItemModel {
    MemberAssign { obj: Seq<u8>, prop: Seq<u8>, lo: int, hi: int },
    Other,
}

impl View for ScriptItem {
    type V = ScriptItemModel;

    open spec fn view(&self) -> ScriptItemModel {
        match self {
            ScriptItem::MemberAssign { obj, prop, lo, hi } => ScriptItemModel::MemberAssign {
                obj: obj@,
                prop: prop@,
                lo: *lo as int,
                hi: *hi as int,
            },
            ScriptItem::Other => ScriptItemModel::Other,
        }
    }
}

/// What parsing a byte string as script source yields: the top-level items,
/// or `None` when the input is not valid script source.  Parsing is a
/// function of the input alone.
pub uninterp spec fn module_of(src: Seq<u8>) -> Option<Seq<ScriptItemModel>>;

/// The top-level items a parsed module holds.
pub uninterp spec fn module_items(m: Module) -> Seq<ScriptItemModel>;

/// Relies on `swc_ecma_parser::Parser::parse_module`: it fails exactly on
/// input that is not valid script source (or not UTF-8), and otherwise
/// returns the parsed module.  Spans are one-based byte offsets because the
/// input is handed to the parser starting at byte position one.
#[verifier::external_body]
fn parse_script(content: &[u8]) -> (r: Option<Module>)
    ensures
        r is Some <==> module_of(content@) is Some,
        r matches Some(m) ==> module_items(m) == module_of(content@).unwrap(),
{
    let s = match core::str::from_utf8(content) {
        Ok(s) => s,
        Err(_) => return None,
    };
    if s.len() >= u32::MAX as usize - 1 {
        return None;
    }
    let start = swc_common::BytePos(1);
    let end = swc_common::BytePos(s.len() as u32 + 1);
    let input = swc_common::input::StringInput::new(s, start, end);
    let syntax = swc_ecma_parser::Syntax::Es(Default::default());
    let mut parser = swc_ecma_parser::Parser::new(syntax, input, None);
    parser.parse_module().ok()
}

/// Relies on `Module::body`: the number of top-level items.
#[verifier::external_body]
fn module_len(m: &Module) -> (r: usize)
    ensures
        r == module_items(*m).len(),
{
    m.body.len()
}

/// Relies on the syntax-tree shape of `swc_ecma_ast`: reads one top-level
/// item, mapping an expression statement whose expression assigns to
/// `<identifier>.<identifier>` to `MemberAssign` (moving the identifier
/// text and the right-hand-side span out), and every other item to `Other`.
#[verifier::external_body]
fn module_item_at(m: &Module, i: usize) -> (r: ScriptItem)
    requires
        i < module_items(*m).len(),
    ensures
        r@ == module_items(*m)[i as int],
{
    let Some(ModuleItem::Stmt(Stmt::Expr(es))) = m.body.get(i) else { return ScriptItem::Other };
    let Expr::Assign(a) = &*es.expr else { return ScriptItem::Other };
    let AssignTarget::Simple(SimpleAssignTarget::Member(me)) = &a.left else {
        return ScriptItem::Other
    };
    let (Expr::Ident(o), MemberProp::Ident(p)) = (&*me.obj, &me.prop) else {
        return ScriptItem::Other
    };
    let span = a.right.span();
    let (obj, prop) = (o.sym.as_str().as_bytes().to_vec(), p.sym.as_str().as_bytes().to_vec());
    ScriptItem::MemberAssign { obj, prop, lo: span.lo.0 as usize, hi: span.hi.0 as usize }
}

/// The item is an assignment to `<obj>.<prop>`.
pub open spec fn assign_matches(item: ScriptItemModel, obj: Seq<u8>, prop: Seq<u8>) -> bool {
    item matches ScriptItemModel::MemberAssign { obj: o, prop: p, .. } && o == obj && p == prop
}

/// The first assignment to `<obj>.<prop>` among the items, if any.
pub open spec fn first_assign(items: Seq<ScriptItemModel>, obj: Seq<u8>, prop: Seq<u8>) -> Option<
    ScriptItemModel,
>
    decreases items.len(),
{
    if items.len() == 0 {
        None
    } else if assign_matches(items[0], obj, prop) {
        Some(items[0])
    } else {
        first_assign(items.drop_first(), obj, prop)
    }
}

proof fn lemma_first_assign_at(items: Seq<ScriptItemModel>, obj: Seq<u8>, prop: Seq<u8>, k: int)
    requires
        0 <= k <= items.len(),
        forall|j: int| 0 <= j < k ==> !assign_matches(items[j], obj, prop),
        k < items.len() ==> assign_matches(items[k], obj, prop),
    ensures
        first_assign(items, obj, prop) == if k < items.len() {
            Some(items[k])
        } else {
            None::<ScriptItemModel>
        },
    decreases k + 1,
{
    if k == 0 {
    } else {
        assert(!assign_matches(items[0], obj, prop));
        lemma_first_assign_at(items.drop_first(), obj, prop, k - 1);
    }
}

/// The span of the item lies inside a source of `len` bytes.
pub open spec fn span_in_bounds(item: ScriptItemModel, len: int) -> bool {
    item matches ScriptItemModel::MemberAssign { lo, hi, .. } && 1 <= lo && lo <= hi && hi - 1
        <= len
}

/// The source slice the item's span denotes.
pub open spec fn span_slice(item: ScriptItemModel, src: Seq<u8>) -> Seq<u8> {
    match item {
        ScriptItemModel::MemberAssign { lo, hi, .. } => src.subrange(lo - 1, hi - 1),
        ScriptItemModel::Other => Seq::empty(),
    }
}

/// The bytes of the global object name every located assignment must
/// target.
pub open spec fn window_bytes() -> Seq<u8> {
    "window".spec_bytes()
}

/// Locate the first top-level assignment `window.<prop> = <expr>` in a
/// script fragment and return the original source bytes of `<expr>`.
///
/// Fails with `ParseError` when the fragment is not valid script source,
/// and with `NotFound` when a valid fragment holds no such assignment (or
/// the parser reports a span outside the fragment).
pub fn extract_assignment_src(content: &[u8], prop: &[u8]) -> (r: Result<Vec<u8>, DlError>)
    ensures
        r matches Err(DlError::ParseError) <==> module_of(content@) is None,
        module_of(content@) matches Some(items) ==> match first_assign(
            items,
            window_bytes(),
            prop@,
        ) {
            None => r matches Err(DlError::NotFound),
            Some(item) => {
                if span_in_bounds(item, content@.len() as int) {
                    r matches Ok(out) && out@ == span_slice(item, content@)
                } else {
                    r matches Err(DlError::NotFound)
                }
            },
        },
{
    let m = match parse_script(content) {
        Some(m) => m,
        None => {
            return Err(DlError::ParseError);
        },
    };
    let ghost items = module_items(m);
    let n: usize = module_len(&m);
    for i in 0..n
        invariant
            n == items.len(),
            items == module_items(m),
            module_of(content@) == Some(items),
            forall|j: int| 0 <= j < i ==> !assign_matches(items[j], window_bytes(), prop@),
    {
        let item = module_item_at(&m, i);
        match item {
            ScriptItem::MemberAssign { obj, prop: p, lo, hi } => {
                if bytes_eq(obj.as_slice(), "window".as_bytes()) && bytes_eq(p.as_slice(), prop) {
                    proof {
                        lemma_first_assign_at(items, window_bytes(), prop@, i as int);
                    }
                    if 1 <= lo && lo <= hi && hi - 1 <= content.len() {
                        let s = vstd::slice::slice_subrange(content, lo - 1, hi - 1);
                        return Ok(vstd::slice::slice_to_vec(s));
                    } else {
                        return Err(DlError::NotFound);
                    }
                }
            },
            ScriptItem::Other => {},
        }
    }
    proof {
        lemma_first_assign_at(items, window_bytes(), prop@, n as int);
    }
    Err(DlError::NotFound)
}

/// The navigation payload located by the script locator: the fields the
/// pipeline reads from the `window.__INITIAL_STATE__` object.
pub struct InitialState {
    pub cid: i64,
    pub bvid: String,
}

/// The navigation payload decodes: a `videoData` object with a string
/// `bvid` and an integer `cid` in `i64` range.
pub open spec fn video_data_ok(m: JsonModel) -> bool {
    &&& obj_field(m, "bvid"@) matches Some(JsonModel::Str(_))
    &&& obj_field(m, "cid"@) matches Some(JsonModel::Num(_, Some(_)))
}

/// What the navigation payload's `videoData` object decodes to.
pub open spec fn video_data_of(m: JsonModel, cid: i64, bvid: Seq<char>) -> bool {
    &&& obj_field(m, "bvid"@) matches Some(JsonModel::Str(s)) && bvid == s
    &&& obj_field(m, "cid"@) matches Some(JsonModel::Num(_, Some(c))) && cid == c
}

pub open spec fn initial_state_ok(m: JsonModel) -> bool {
    obj_field(m, "videoData"@) matches Some(vd) && video_data_ok(vd)
}

pub open spec fn initial_state_of(m: JsonModel, cid: i64, bvid: Seq<char>) -> bool {
    obj_field(m, "videoData"@) matches Some(vd) && video_data_of(vd, cid, bvid)
}

/// Decode the located `__INITIAL_STATE__` text.  Fails with `DecodeError`
/// exactly when the text is not valid JSON or lacks the required fields.
pub fn initial_state_from_json(bytes: &[u8]) -> (r: Result<InitialState, DlError>)
    ensures
        r is Ok <==> (json_of(bytes@) matches Some(m) && initial_state_ok(m)),
        r matches Ok(st) ==> initial_state_of(json_of(bytes@).unwrap(), st.cid, st.bvid@),
        r matches Err(e) ==> e matches DlError::DecodeError { .. },
{
    let v = match json_parse(bytes) {
        Some(v) => v,
        None => {
            return Err(DlError::DecodeError { path: Vec::new() });
        },
    };
    let vd = match crate::json::json_get(&v, "videoData") {
        Some(f) => f,
        None => {
            return Err(
                DlError::DecodeError {
                    path: vstd::slice::slice_to_vec("videoData".as_bytes()),
                },
            );
        },
    };
    let bvid: String = match crate::json::json_get(vd, "bvid") {
        Some(f) => match crate::json::json_as_str(f) {
            Some(s) => s.to_owned(),
            None => {
                return Err(
                    DlError::DecodeError {
                        path: vstd::slice::slice_to_vec("videoData.bvid".as_bytes()),
                    },
                );
            },
        },
        None => {
            return Err(
                DlError::DecodeError {
                    path: vstd::slice::slice_to_vec("videoData.bvid".as_bytes()),
                },
            );
        },
    };
    let cid: i64 = match crate::json::json_get(vd, "cid") {
        Some(f) => match crate::json::json_as_i64(f) {
            Some(c) => c,
            None => {
                return Err(
                    DlError::DecodeError {
                        path: vstd::slice::slice_to_vec("videoData.cid".as_bytes()),
                    },
                );
            },
        },
        None => {
            return Err(
                DlError::DecodeError {
                    path: vstd::slice::slice_to_vec("videoData.cid".as_bytes()),
                },
            );
        },
    };
    Ok(InitialState { cid, bvid })
}

} // verus!
