//! Verified decoding of metadata JSON into the quality catalog.
//!
//! Unknown fields are ignored; a missing required field or a type mismatch
//! fails with `DecodeError` carrying the offending field path.  There is no
//! partial decoding: either the whole structure decodes or the operation
//! fails.

use vstd::prelude::*;

use crate::catalog::{Audio, BVInfo, Dash, Data, RawVideoInfo, Video};
use crate::err::DlError;
use crate::json::{
    json_as_array, json_as_str, json_as_u64, json_get, json_model, json_of, json_parse, JsonModel,
};

verus! {

/// Field lookup on the ghost model: `None` when the value is not an object
/// or lacks the key.
pub open spec fn obj_field(m: JsonModel, key: Seq<char>) -> Option<JsonModel> {
    match m {
        JsonModel::Obj(f) => if f.dom().contains(key) {
            Some(f[key])
        } else {
            None
        },
        _ => None,
    }
}

/// An audio variant decodes: a string `base_url` and an integer `bandwidth`
/// in `u32` range.
pub open spec fn audio_ok(m: JsonModel) -> bool {
    &&& obj_field(m, "base_url"@) matches Some(JsonModel::Str(_))
    &&& obj_field(m, "bandwidth"@) matches Some(JsonModel::Num(Some(n), _)) && n <= u32::MAX as u64
}

/// What an audio variant decodes to.
pub open spec fn audio_of(m: JsonModel, a: Audio) -> bool {
    &&& obj_field(m, "base_url"@) matches Some(JsonModel::Str(s)) && a.base_url@ == s
    &&& obj_field(m, "bandwidth"@) matches Some(JsonModel::Num(Some(n), _)) && a.bandwidth == n
}

/// A video variant decodes: additionally an integer `id` in `u8` range.
pub open spec fn video_ok(m: JsonModel) -> bool {
    &&& obj_field(m, "id"@) matches Some(JsonModel::Num(Some(n), _)) && n <= u8::MAX as u64
    &&& obj_field(m, "base_url"@) matches Some(JsonModel::Str(_))
    &&& obj_field(m, "bandwidth"@) matches Some(JsonModel::Num(Some(n), _)) && n <= u32::MAX as u64
}

/// What a video variant decodes to.
pub open spec fn video_of(m: JsonModel, v: Video) -> bool {
    &&& obj_field(m, "id"@) matches Some(JsonModel::Num(Some(n), _)) && v.id == n
    &&& obj_field(m, "base_url"@) matches Some(JsonModel::Str(s)) && v.base_url@ == s
    &&& obj_field(m, "bandwidth"@) matches Some(JsonModel::Num(Some(n), _)) && v.bandwidth == n
}

/// An array of strings decodes.
pub open spec fn str_array_ok(m: JsonModel) -> bool {
    m matches JsonModel::Arr(s) && (forall|i: int| 0 <= i < s.len() ==> #[trigger] s[i] is Str)
}

/// What an array of strings decodes to.
pub open spec fn str_array_of(m: JsonModel, out: Seq<String>) -> bool {
    m matches JsonModel::Arr(s) && out.len() == s.len() && (forall|i: int|
        0 <= i < s.len() ==> (#[trigger] s[i] matches JsonModel::Str(t) && out[i]@ == t))
}

/// An array of small integers decodes: every element an integer in `u8`
/// range.
pub open spec fn u8_array_ok(m: JsonModel) -> bool {
    m matches JsonModel::Arr(s) && (forall|i: int|
        0 <= i < s.len() ==> (#[trigger] s[i] matches JsonModel::Num(Some(n), _) && n <= u8::MAX
            as u64))
}

/// What an array of small integers decodes to.
pub open spec fn u8_array_of(m: JsonModel, out: Seq<u8>) -> bool {
    m matches JsonModel::Arr(s) && out.len() == s.len() && (forall|i: int|
        0 <= i < s.len() ==> (#[trigger] s[i] matches JsonModel::Num(Some(n), _) && out[i] == n))
}

/// An array of video variants decodes.
pub open spec fn video_array_ok(m: JsonModel) -> bool {
    m matches JsonModel::Arr(s) && (forall|i: int| 0 <= i < s.len() ==> video_ok(#[trigger] s[i]))
}

/// What an array of video variants decodes to.
pub open spec fn video_array_of(m: JsonModel, out: Seq<Video>) -> bool {
    m matches JsonModel::Arr(s) && out.len() == s.len() && (forall|i: int|
        0 <= i < s.len() ==> video_of(#[trigger] s[i], out[i]))
}

/// An array of audio variants decodes.
pub open spec fn audio_array_ok(m: JsonModel) -> bool {
    m matches JsonModel::Arr(s) && (forall|i: int| 0 <= i < s.len() ==> audio_ok(#[trigger] s[i]))
}

/// What an array of audio variants decodes to.
pub open spec fn audio_array_of(m: JsonModel, out: Seq<Audio>) -> bool {
    m matches JsonModel::Arr(s) && out.len() == s.len() && (forall|i: int|
        0 <= i < s.len() ==> audio_of(#[trigger] s[i], out[i]))
}

/// The `dash` object decodes: a `video` array of video variants and an
/// `audio` array of audio variants.
pub open spec fn dash_ok(m: JsonModel) -> bool {
    &&& obj_field(m, "video"@) matches Some(x) && video_array_ok(x)
    &&& obj_field(m, "audio"@) matches Some(x) && audio_array_ok(x)
}

/// What the `dash` object decodes to.
pub open spec fn dash_of(m: JsonModel, d: Dash) -> bool {
    &&& obj_field(m, "video"@) matches Some(x) && video_array_of(x, d.video@)
    &&& obj_field(m, "audio"@) matches Some(x) && audio_array_of(x, d.audio@)
}

/// The catalog payload decodes: labels, quality ids, and the dash object.
pub open spec fn data_ok(m: JsonModel) -> bool {
    &&& obj_field(m, "accept_description"@) matches Some(d) && str_array_ok(d)
    &&& obj_field(m, "accept_quality"@) matches Some(q) && u8_array_ok(q)
    &&& obj_field(m, "dash"@) matches Some(h) && dash_ok(h)
}

/// What the catalog payload decodes to.
pub open spec fn data_of(m: JsonModel, out: Data) -> bool {
    &&& obj_field(m, "accept_description"@) matches Some(d) && str_array_of(
        d,
        out.accept_description@,
    )
    &&& obj_field(m, "accept_quality"@) matches Some(q) && u8_array_of(q, out.accept_quality@)
    &&& obj_field(m, "dash"@) matches Some(h) && dash_of(h, out.dash)
}

/// The whole metadata document decodes: an object with a `data` field that
/// decodes as the catalog payload.
pub open spec fn bv_ok(m: JsonModel) -> bool {
    obj_field(m, "data"@) matches Some(d) && data_ok(d)
}

/// What the whole metadata document decodes to.
pub open spec fn bv_of(m: JsonModel, out: Data) -> bool {
    obj_field(m, "data"@) matches Some(d) && data_of(d, out)
}

fn decode_error(path: &[u8], field: &str) -> (r: DlError)
    ensures
        r matches DlError::DecodeError { .. },
{
    let mut p = vstd::slice::slice_to_vec(path);
    p.push(46);
    p.extend_from_slice(field.as_bytes());
    DlError::DecodeError { path: p }
}

fn decode_audio(v: &serde_json::Value, path: &[u8]) -> (r: Result<Audio, DlError>)
    ensures
        r is Ok <==> audio_ok(json_model(*v)),
        r matches Ok(a) ==> audio_of(json_model(*v), a),
        r matches Err(e) ==> e matches DlError::DecodeError { .. },
{
    let base_url: String = match json_get(v, "base_url") {
        Some(f) => match json_as_str(f) {
            Some(s) => s.to_owned(),
            None => {
                return Err(decode_error(path, "base_url"));
            },
        },
        None => {
            return Err(decode_error(path, "base_url"));
        },
    };
    let bandwidth: u64 = match json_get(v, "bandwidth") {
        Some(f) => match json_as_u64(f) {
            Some(n) => n,
            None => {
                return Err(decode_error(path, "bandwidth"));
            },
        },
        None => {
            return Err(decode_error(path, "bandwidth"));
        },
    };
    if bandwidth > 0xffff_ffff {
        return Err(decode_error(path, "bandwidth"));
    }
    Ok(Audio { base_url, bandwidth: bandwidth as u32 })
}

fn decode_video(v: &serde_json::Value, path: &[u8]) -> (r: Result<Video, DlError>)
    ensures
        r is Ok <==> video_ok(json_model(*v)),
        r matches Ok(a) ==> video_of(json_model(*v), a),
        r matches Err(e) ==> e matches DlError::DecodeError { .. },
{
    let id: u64 = match json_get(v, "id") {
        Some(f) => match json_as_u64(f) {
            Some(n) => n,
            None => {
                return Err(decode_error(path, "id"));
            },
        },
        None => {
            return Err(decode_error(path, "id"));
        },
    };
    if id > 255 {
        return Err(decode_error(path, "id"));
    }
    let base_url: String = match json_get(v, "base_url") {
        Some(f) => match json_as_str(f) {
            Some(s) => s.to_owned(),
            None => {
                return Err(decode_error(path, "base_url"));
            },
        },
        None => {
            return Err(decode_error(path, "base_url"));
        },
    };
    let bandwidth: u64 = match json_get(v, "bandwidth") {
        Some(f) => match json_as_u64(f) {
            Some(n) => n,
            None => {
                return Err(decode_error(path, "bandwidth"));
            },
        },
        None => {
            return Err(decode_error(path, "bandwidth"));
        },
    };
    if bandwidth > 0xffff_ffff {
        return Err(decode_error(path, "bandwidth"));
    }
    Ok(Video { id: id as u8, base_url, bandwidth: bandwidth as u32 })
}

fn decode_string_array(v: &serde_json::Value, path: &[u8]) -> (r: Result<Vec<String>, DlError>)
    ensures
        r is Ok <==> str_array_ok(json_model(*v)),
        r matches Ok(out) ==> str_array_of(json_model(*v), out@),
        r matches Err(e) ==> e matches DlError::DecodeError { .. },
{
    let arr = match json_as_array(v) {
        Some(a) => a,
        None => {
            return Err(DlError::DecodeError { path: vstd::slice::slice_to_vec(path) });
        },
    };
    let ghost s = json_model(*v)->Arr_0;
    let n: usize = arr.len();
    let mut out: Vec<String> = Vec::new();
    for i in 0..n
        invariant
            n == arr@.len() && n == s.len(),
            json_model(*v) == JsonModel::Arr(s),
            forall|j: int| 0 <= j < s.len() ==> json_model(#[trigger] arr@[j]) == s[j],
            out@.len() == i,
            forall|j: int|
                0 <= j < i ==> (#[trigger] s[j] matches JsonModel::Str(t) && out@[j]@ == t),
    {
        match json_as_str(&arr[i]) {
            Some(t) => {
                out.push(t.to_owned());
            },
            None => {
                return Err(decode_error(path, "element"));
            },
        }
    }
    Ok(out)
}

fn decode_u8_array(v: &serde_json::Value, path: &[u8]) -> (r: Result<Vec<u8>, DlError>)
    ensures
        r is Ok <==> u8_array_ok(json_model(*v)),
        r matches Ok(out) ==> u8_array_of(json_model(*v), out@),
        r matches Err(e) ==> e matches DlError::DecodeError { .. },
{
    let arr = match json_as_array(v) {
        Some(a) => a,
        None => {
            return Err(DlError::DecodeError { path: vstd::slice::slice_to_vec(path) });
        },
    };
    let ghost s = json_model(*v)->Arr_0;
    let n: usize = arr.len();
    let mut out: Vec<u8> = Vec::new();
    for i in 0..n
        invariant
            n == arr@.len() && n == s.len(),
            json_model(*v) == JsonModel::Arr(s),
            forall|j: int| 0 <= j < s.len() ==> json_model(#[trigger] arr@[j]) == s[j],
            out@.len() == i,
            forall|j: int|
                0 <= j < i ==> (#[trigger] s[j] matches JsonModel::Num(Some(n2), _) && out@[j]
                    == n2),
    {
        match json_as_u64(&arr[i]) {
            Some(n2) => {
                if n2 > 255 {
                    return Err(decode_error(path, "element"));
                }
                out.push(n2 as u8);
            },
            None => {
                return Err(decode_error(path, "element"));
            },
        }
    }
    Ok(out)
}

fn decode_dash(v: &serde_json::Value) -> (r: Result<Dash, DlError>)
    ensures
        r is Ok <==> dash_ok(json_model(*v)),
        r matches Ok(d) ==> dash_of(json_model(*v), d),
        r matches Err(e) ==> e matches DlError::DecodeError { .. },
{
    let video_field = match json_get(v, "video") {
        Some(f) => f,
        None => {
            return Err(decode_error("data.dash".as_bytes(), "video"));
        },
    };
    let video_arr = match json_as_array(video_field) {
        Some(a) => a,
        None => {
            return Err(decode_error("data.dash".as_bytes(), "video"));
        },
    };
    let ghost vs = json_model(*video_field)->Arr_0;
    let nv: usize = video_arr.len();
    let mut video: Vec<Video> = Vec::new();
    for i in 0..nv
        invariant
            nv == video_arr@.len() && nv == vs.len(),
            json_model(*video_field) == JsonModel::Arr(vs),
            obj_field(json_model(*v), "video"@) == Some(JsonModel::Arr(vs)),
            forall|j: int| 0 <= j < vs.len() ==> json_model(#[trigger] video_arr@[j]) == vs[j],
            video@.len() == i,
            forall|j: int| 0 <= j < i ==> video_of(#[trigger] vs[j], video@[j]),
    {
        match decode_video(&video_arr[i], "data.dash.video".as_bytes()) {
            Ok(x) => {
                video.push(x);
            },
            Err(e) => {
                proof {
                    assert(!video_ok(vs[i as int]));
                    assert(json_model(*video_field)->Arr_0 == vs);
                    if video_array_ok(json_model(*video_field)) {
                        assert(video_ok(vs[i as int]));
                    }
                    assert(!dash_ok(json_model(*v)));
                }
                return Err(e);
            },
        }
    }
    let audio_field = match json_get(v, "audio") {
        Some(f) => f,
        None => {
            return Err(decode_error("data.dash".as_bytes(), "audio"));
        },
    };
    let audio_arr = match json_as_array(audio_field) {
        Some(a) => a,
        None => {
            return Err(decode_error("data.dash".as_bytes(), "audio"));
        },
    };
    let ghost aus = json_model(*audio_field)->Arr_0;
    let na: usize = audio_arr.len();
    let mut audio: Vec<Audio> = Vec::new();
    for i in 0..na
        invariant
            na == audio_arr@.len() && na == aus.len(),
            json_model(*audio_field) == JsonModel::Arr(aus),
            obj_field(json_model(*v), "audio"@) == Some(JsonModel::Arr(aus)),
            forall|j: int| 0 <= j < aus.len() ==> json_model(#[trigger] audio_arr@[j]) == aus[j],
            audio@.len() == i,
            forall|j: int| 0 <= j < i ==> audio_of(#[trigger] aus[j], audio@[j]),
    {
        match decode_audio(&audio_arr[i], "data.dash.audio".as_bytes()) {
            Ok(x) => {
                audio.push(x);
            },
            Err(e) => {
                proof {
                    assert(!audio_ok(aus[i as int]));
                    assert(json_model(*audio_field)->Arr_0 == aus);
                    if audio_array_ok(json_model(*audio_field)) {
                        assert(audio_ok(aus[i as int]));
                    }
                    assert(!dash_ok(json_model(*v)));
                }
                return Err(e);
            },
        }
    }
    Ok(Dash { video, audio })
}

fn decode_data(v: &serde_json::Value) -> (r: Result<Data, DlError>)
    ensures
        r is Ok <==> data_ok(json_model(*v)),
        r matches Ok(d) ==> data_of(json_model(*v), d),
        r matches Err(e) ==> e matches DlError::DecodeError { .. },
{
    let desc_field = match json_get(v, "accept_description") {
        Some(f) => f,
        None => {
            return Err(decode_error("data".as_bytes(), "accept_description"));
        },
    };
    let accept_description = match decode_string_array(
        desc_field,
        "data.accept_description".as_bytes(),
    ) {
        Ok(x) => x,
        Err(e) => {
            return Err(e);
        },
    };
    let quality_field = match json_get(v, "accept_quality") {
        Some(f) => f,
        None => {
            return Err(decode_error("data".as_bytes(), "accept_quality"));
        },
    };
    let accept_quality = match decode_u8_array(quality_field, "data.accept_quality".as_bytes()) {
        Ok(x) => x,
        Err(e) => {
            return Err(e);
        },
    };
    let dash_field = match json_get(v, "dash") {
        Some(f) => f,
        None => {
            return Err(decode_error("data".as_bytes(), "dash"));
        },
    };
    let dash = match decode_dash(dash_field) {
        Ok(x) => x,
        Err(e) => {
            return Err(e);
        },
    };
    Ok(Data { accept_description, accept_quality, dash })
}

/// Decode a whole metadata document.
pub fn decode_bv_data(v: &serde_json::Value) -> (r: Result<Data, DlError>)
    ensures
        r is Ok <==> bv_ok(json_model(*v)),
        r matches Ok(d) ==> bv_of(json_model(*v), d),
        r matches Err(e) ==> e matches DlError::DecodeError { .. },
{
    let data_field = match json_get(v, "data") {
        Some(f) => f,
        None => {
            return Err(DlError::DecodeError { path: vstd::slice::slice_to_vec("data".as_bytes()) });
        },
    };
    decode_data(data_field)
}

/// Parse and decode page-embedded metadata.  Fails with `DecodeError`
/// exactly when the bytes are not a valid JSON document (empty path) or the
/// document does not decode (path of the offending field).
pub fn bv_info_from_json(bytes: &[u8]) -> (r: Result<BVInfo, DlError>)
    ensures
        r is Ok <==> (json_of(bytes@) matches Some(m) && bv_ok(m)),
        r matches Ok(info) ==> bv_of(json_of(bytes@).unwrap(), info.data),
        r matches Err(e) ==> e matches DlError::DecodeError { .. },
{
    let v = match json_parse(bytes) {
        Some(v) => v,
        None => {
            return Err(DlError::DecodeError { path: Vec::new() });
        },
    };
    match decode_bv_data(&v) {
        Ok(d) => Ok(BVInfo { data: d }),
        Err(e) => Err(e),
    }
}

/// Parse and decode the play-url endpoint payload; the schema is the same
/// as the page-embedded one.
pub fn raw_video_info_from_json(bytes: &[u8]) -> (r: Result<RawVideoInfo, DlError>)
    ensures
        r is Ok <==> (json_of(bytes@) matches Some(m) && bv_ok(m)),
        r matches Ok(info) ==> bv_of(json_of(bytes@).unwrap(), info.data),
        r matches Err(e) ==> e matches DlError::DecodeError { .. },
{
    let v = match json_parse(bytes) {
        Some(v) => v,
        None => {
            return Err(DlError::DecodeError { path: Vec::new() });
        },
    };
    match decode_bv_data(&v) {
        Ok(d) => Ok(RawVideoInfo { data: d }),
        Err(e) => Err(e),
    }
}

} // verus!
