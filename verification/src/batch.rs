//! Batch bookkeeping and configuration parsing.
//!
//! A batch processes every id even when one fails: each failure is
//! recorded, processing continues, and the final report lists exactly the
//! failed ids.  The configuration file is decoded leniently: a missing
//! file, malformed JSON, a missing key or a wrong type all fall back to an
//! empty session token.

use vstd::prelude::*;

use crate::decode::obj_field;
use crate::err::DlError;
use crate::json::{json_of, json_parse, JsonModel};
use crate::text::join_with;
use vstd::string::StringSliceAdditionalSpecFns;
use vstd::utf8::encode_utf8;

verus! {

/// The ids whose runs failed, in batch order.
pub open spec fn failed_of(ids: Seq<String>, ok: Seq<bool>) -> Seq<String>
    decreases ids.len(),
{
    if ids.len() == 0 {
        Seq::empty()
    } else {
        failed_of(ids.drop_last(), ok.drop_last()) + if ok[ids.len() - 1] {
            Seq::empty()
        } else {
            seq![ids[ids.len() - 1]]
        }
    }
}

/// Collect the failed ids of a batch: entry `i` of `ok` says whether id `i`
/// completed.  The result lists exactly the ids whose entry is false, in
/// order.
pub fn collect_failed(ids: &Vec<String>, ok: &Vec<bool>) -> (r: Vec<String>)
    requires
        ids@.len() == ok@.len(),
    ensures
        r@ == failed_of(ids@, ok@),
{
    let n: usize = ids.len();
    let mut out: Vec<String> = Vec::new();
    for i in 0..n
        invariant
            n == ids@.len() && n == ok@.len(),
            out@ == failed_of(ids@.take(i as int), ok@.take(i as int)),
    {
        if !ok[i] {
            out.push(ids[i].clone());
        }
        proof {
            assert(ids@.take(i + 1).drop_last() =~= ids@.take(i as int));
            assert(ok@.take(i + 1).drop_last() =~= ok@.take(i as int));
            assert(ids@.take(i + 1)[i as int] == ids@[i as int]);
            assert(out@ =~= failed_of(ids@.take(i + 1), ok@.take(i + 1)));
        }
    }
    proof {
        assert(ids@.take(n as int) =~= ids@);
        assert(ok@.take(n as int) =~= ok@);
    }
    out
}

/// The report of a failed batch: the failed ids joined after a fixed
/// prefix.
pub open spec fn summary_bytes(failed: Seq<String>) -> Seq<u8> {
    "failed to download: ".spec_bytes() + join_with(
        failed.map_values(|s: String| encode_utf8(s@)),
        ", ".spec_bytes(),
    )
}

/// Judge a finished batch: success when nothing failed, otherwise an error
/// whose message lists exactly the failed ids.
pub fn batch_summary(failed: &Vec<String>) -> (r: Result<(), DlError>)
    ensures
        r is Ok <==> failed@.len() == 0,
        r matches Err(e) ==> (e matches DlError::FetchError { message } && message@
            == summary_bytes(failed@)),
{
    if failed.len() == 0 {
        return Ok(());
    }
    let n: usize = failed.len();
    let mut parts: Vec<Vec<u8>> = Vec::new();
    for i in 0..n
        invariant
            n == failed@.len(),
            parts@.len() == i,
            forall|j: int| 0 <= j < i ==> #[trigger] parts@[j]@ == encode_utf8(failed@[j]@),
    {
        parts.push(vstd::slice::slice_to_vec(failed[i].as_str().as_bytes()));
    }
    let joined = crate::text::join_bytes(&parts, ", ".as_bytes());
    proof {
        assert(parts@.map_values(|v: Vec<u8>| v@) =~= failed@.map_values(
            |s: String| encode_utf8(s@),
        ));
    }
    let mut message: Vec<u8> = Vec::new();
    message.extend_from_slice("failed to download: ".as_bytes());
    message.extend_from_slice(joined.as_slice());
    Err(DlError::FetchError { message })
}

/// The session token a configuration document carries: the `SESSDATA`
/// string (or, under its canonical field name, `sess_data`), and empty when
/// the document does not hold one.
pub open spec fn config_sess(m: JsonModel) -> Seq<char> {
    match obj_field(m, "SESSDATA"@) {
        Some(JsonModel::Str(s)) => s,
        _ => match obj_field(m, "sess_data"@) {
            Some(JsonModel::Str(s)) => s,
            _ => Seq::empty(),
        },
    }
}

/// The downloader's configuration: the session token presented to the
/// platform.
#[derive(Debug)]
pub struct Config {
    pub sess_data: String,
}

/// Decode a configuration file's contents; `None` stands for an unreadable
/// or missing file.  Never fails: anything that does not hold a session
/// token yields the empty one.
pub fn config_from_bytes(contents: Option<&Vec<u8>>) -> (r: Config)
    ensures
        r.sess_data@ == match contents {
            None => Seq::<char>::empty(),
            Some(b) => match json_of(b@) {
                None => Seq::<char>::empty(),
                Some(m) => config_sess(m),
            },
        },
{
    let b = match contents {
        Some(b) => b,
        None => {
            return Config { sess_data: String::new() };
        },
    };
    let v = match json_parse(b.as_slice()) {
        Some(v) => v,
        None => {
            return Config { sess_data: String::new() };
        },
    };
    match crate::json::json_get(&v, "SESSDATA") {
        Some(f) => match crate::json::json_as_str(f) {
            Some(s) => {
                return Config { sess_data: s.to_owned() };
            },
            None => {},
        },
        None => {},
    }
    match crate::json::json_get(&v, "sess_data") {
        Some(f) => match crate::json::json_as_str(f) {
            Some(s) => {
                return Config { sess_data: s.to_owned() };
            },
            None => {},
        },
        None => {},
    }
    Config { sess_data: String::new() }
}

} // verus!
