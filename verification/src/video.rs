//! A video page: its URL, its fetched catalog, and quality selection.
//!
//! `Video` carries the page URL, the decoded metadata and the extracted
//! title; `VideoSource` is the resolved selection handed to the download
//! orchestration.  `resolve_page_best` is the end-to-end verified path from
//! a parsed page document to the resolved title and stream URLs.

use vstd::prelude::*;

use scraper::Html;

use crate::catalog::{BVInfo, Dash, Data, RawVideoInfo};
use crate::decode::{bv_info_from_json, bv_of, bv_ok};
use crate::err::DlError;
use crate::json::json_of;
use crate::page::{extract_title, extract_video_json, first_prefix_hit, h1_texts_of, script_texts_of};
use crate::resolve::{
    audio_bw, best_audio_url, best_idx_upto, best_match_upto, best_video_url, ids_as_u32,
    label_ok, VideoInfo,
};
use crate::text::sanitize_seq;
use vstd::string::StringSliceAdditionalSpecFns;

verus! {

/// The resolved selection for one video: a sanitized title and the chosen
/// video and audio URLs.
#[derive(Debug)]
pub struct VideoSource {
    pub title: Vec<u8>,
    pub video_url: String,
    pub audio_url: String,
}

/// The page URL of a video id.
pub open spec fn page_url_bytes(id: &str) -> Seq<u8> {
    "https://www.bilibili.com/video/".spec_bytes() + id.spec_bytes() + "/".spec_bytes()
}

/// The play-url endpoint for a navigation payload.
pub open spec fn playurl_bytes(bvid: &str, cid: int) -> Seq<u8> {
    "https://api.bilibili.com/x/player/wbi/playurl?bvid=".spec_bytes() + bvid.spec_bytes()
        + "&cid=".spec_bytes() + crate::text::dec_of_i64(cid) + "&fnval=4048".spec_bytes()
}

/// Build the play-url endpoint URL for a video's `bvid` and `cid`.
pub fn playurl_url(bvid: &str, cid: i64) -> (r: Vec<u8>)
    ensures
        r@ == playurl_bytes(bvid, cid as int),
{
    let mut out: Vec<u8> = Vec::new();
    out.extend_from_slice("https://api.bilibili.com/x/player/wbi/playurl?bvid=".as_bytes());
    out.extend_from_slice(bvid.as_bytes());
    out.extend_from_slice("&cid=".as_bytes());
    crate::text::push_dec_i64(&mut out, cid);
    out.extend_from_slice("&fnval=4048".as_bytes());
    out
}

/// One video page: its URL, and once fetched, its decoded metadata and
/// title.
#[derive(Debug)]
pub struct Video {
    pub url: Vec<u8>,
    pub info: BVInfo,
    pub title: Vec<u8>,
}

impl Video {
    /// A handle for the page of `id`, before any metadata is fetched.
    pub fn new(id: &str) -> (r: Video)
        ensures
            r.url@ == page_url_bytes(id),
            r.info.data.accept_description@.len() == 0,
            r.info.data.accept_quality@.len() == 0,
            r.info.data.dash.video@.len() == 0,
            r.info.data.dash.audio@.len() == 0,
            r.title@.len() == 0,
    {
        let mut url: Vec<u8> = Vec::new();
        url.extend_from_slice("https://www.bilibili.com/video/".as_bytes());
        url.extend_from_slice(id.as_bytes());
        url.extend_from_slice("/".as_bytes());
        Video {
            url,
            info: BVInfo {
                data: Data {
                    accept_description: Vec::new(),
                    accept_quality: Vec::new(),
                    dash: Dash { video: Vec::new(), audio: Vec::new() },
                },
            },
            title: Vec::new(),
        }
    }

    /// Extract title and metadata from a fetched, parsed page: the verified
    /// part of fetching a video's info.
    pub fn from_page(id: &str, document: &Html) -> (r: Result<Video, DlError>)
        ensures
            r matches Err(DlError::TitleMissing) <==> h1_texts_of(*document).len() == 0,
            r matches Err(DlError::TitleAmbiguous) <==> h1_texts_of(*document).len() > 1,
            h1_texts_of(*document).len() == 1 ==> match first_prefix_hit(
                script_texts_of(*document),
                "__playinfo__".spec_bytes(),
            ) {
                None => r matches Err(DlError::MetadataNotFound),
                Some(payload) => {
                    &&& r is Ok <==> (json_of(payload) matches Some(m) && bv_ok(m))
                    &&& (r matches Ok(v) ==> v.url@ == page_url_bytes(id) && v.title@
                        == sanitize_seq(h1_texts_of(*document)[0]) && bv_of(
                        json_of(payload).unwrap(),
                        v.info.data,
                    ))
                    &&& (r matches Err(e) ==> e matches DlError::DecodeError { .. })
                },
            },
    {
        let title = match extract_title(document, id) {
            Ok(t) => t,
            Err(e) => {
                return Err(e);
            },
        };
        let payload = match extract_video_json(document, id) {
            Ok(p) => p,
            Err(e) => {
                return Err(e);
            },
        };
        let info = match bv_info_from_json(payload.as_slice()) {
            Ok(i) => i,
            Err(e) => {
                return Err(e);
            },
        };
        let mut v = Video::new(id);
        v.info = info;
        v.title = title;
        Ok(v)
    }

    /// The human-readable labels of the accepted quality tiers.
    pub fn get_quality_description(&self) -> (r: Vec<String>)
        ensures
            r@ == self.info.data.accept_description@,
    {
        let n: usize = self.info.data.accept_description.len();
        let mut out: Vec<String> = Vec::new();
        for i in 0..n
            invariant
                n == self.info.data.accept_description@.len(),
                out@.len() == i,
                forall|j: int| 0 <= j < i ==> out@[j] == self.info.data.accept_description@[j],
        {
            out.push(self.info.data.accept_description[i].clone());
        }
        proof {
            assert(out@ =~= self.info.data.accept_description@);
        }
        out
    }

    /// The index of the numerically largest accepted quality id, keeping
    /// the first occurrence on ties.
    pub fn get_best_quality_index(&self) -> (r: usize)
        requires
            self.info.data.accept_quality@.len() > 0,
        ensures
            r == best_idx_upto(
                ids_as_u32(self.info.data.accept_quality@),
                self.info.data.accept_quality@.len() as int,
            ),
    {
        let aq = &self.info.data.accept_quality;
        let ghost bw = ids_as_u32(aq@);
        let n: usize = aq.len();
        let mut max_idx: usize = 0;
        let mut max_quality: u8 = aq[0];
        proof {
            assert(bw[0] == aq@[0] as u32);
        }
        for idx in 1..n
            invariant
                n == aq@.len(),
                bw == ids_as_u32(aq@),
                max_idx < idx <= n,
                max_idx == best_idx_upto(bw, idx as int),
                max_quality == aq@[max_idx as int],
        {
            proof {
                assert(bw[idx as int] == aq@[idx as int] as u32);
            }
            if aq[idx] > max_quality {
                max_quality = aq[idx];
                max_idx = idx;
            }
        }
        max_idx
    }

    /// The URL of the best-bandwidth video variant in the selected tier;
    /// `ResourceNotFound` when the tier has no backing variant.
    pub fn get_video_url(&self, selected_quality_index: usize) -> (r: Result<String, DlError>)
        requires
            selected_quality_index < self.info.data.accept_quality@.len(),
        ensures
            ({
                let q = self.info.data.accept_quality@[selected_quality_index as int];
                match best_match_upto(
                    self.info.data.dash.video@,
                    q,
                    self.info.data.dash.video@.len() as int,
                ) {
                    None => r matches Err(DlError::ResourceNotFound),
                    Some(i) => r matches Ok(url) && url == self.info.data.dash.video@[i].base_url,
                }
            }),
    {
        let q: u8 = self.info.data.accept_quality[selected_quality_index];
        best_video_url(&self.info.data.dash.video, q)
    }

    /// The URL of the best-bandwidth audio variant; `ResourceNotFound` on
    /// an empty audio set.
    pub fn get_audio_url(&self) -> (r: Result<String, DlError>)
        ensures
            r is Err <==> self.info.data.dash.audio@.len() == 0,
            r is Err ==> r matches Err(DlError::ResourceNotFound),
            r matches Ok(url) ==> url == self.info.data.dash.audio@[best_idx_upto(
                audio_bw(self.info.data.dash.audio@),
                self.info.data.dash.audio@.len() as int,
            )].base_url,
    {
        best_audio_url(&self.info.data.dash.audio)
    }

    /// Resolve the selection at one accepted tier: the title and the chosen
    /// video and audio URLs.  A tier without a backing variant, or an empty
    /// audio set, is a fatal `ResourceNotFound` (the video error comes
    /// first).
    pub fn select_quality(&self, selected_quality_index: usize) -> (r: Result<
        VideoSource,
        DlError,
    >)
        requires
            selected_quality_index < self.info.data.accept_quality@.len(),
        ensures
            ({
                let q = self.info.data.accept_quality@[selected_quality_index as int];
                let videos = self.info.data.dash.video@;
                let audios = self.info.data.dash.audio@;
                match best_match_upto(videos, q, videos.len() as int) {
                    None => r matches Err(DlError::ResourceNotFound),
                    Some(i) => if audios.len() == 0 {
                        r matches Err(DlError::ResourceNotFound)
                    } else {
                        r matches Ok(src) && src.title@ == self.title@ && src.video_url
                            == videos[i].base_url && src.audio_url == audios[best_idx_upto(
                            audio_bw(audios),
                            audios.len() as int,
                        )].base_url
                    },
                }
            }),
    {
        let video_url = match self.get_video_url(selected_quality_index) {
            Ok(u) => u,
            Err(e) => {
                return Err(e);
            },
        };
        let audio_url = match self.get_audio_url() {
            Ok(u) => u,
            Err(e) => {
                return Err(e);
            },
        };
        let mut title: Vec<u8> = Vec::new();
        title.extend_from_slice(self.title.as_slice());
        proof {
            assert(title@ =~= self.title@);
        }
        Ok(VideoSource { title, video_url, audio_url })
    }
}

/// Resolve a fetched page at its best backed quality: the highest quality
/// id that has a video variant, the best-bandwidth variant of that tier,
/// and the best-bandwidth audio variant.
pub fn resolve_page_best(id: &str, document: &Html) -> (r: Result<VideoSource, DlError>)
    ensures
        r matches Err(DlError::TitleMissing) <==> h1_texts_of(*document).len() == 0,
        r matches Err(DlError::TitleAmbiguous) <==> h1_texts_of(*document).len() > 1,
        h1_texts_of(*document).len() == 1 ==> match first_prefix_hit(
            script_texts_of(*document),
            "__playinfo__".spec_bytes(),
        ) {
            None => r matches Err(DlError::MetadataNotFound),
            Some(payload) => {
                &&& (r matches Err(e) && e matches DlError::DecodeError { .. }) <==> !(json_of(
                    payload,
                ) matches Some(m) && bv_ok(m))
                &&& (r matches Err(e) ==> e matches DlError::QualityLabelMissing ==> (exists|
                    d: Data,
                    j: int,
                |
                    {
                        &&& bv_of(json_of(payload).unwrap(), d)
                        &&& 0 <= j < d.dash.video@.len()
                        &&& !label_ok(
                            d.accept_quality@,
                            d.accept_description@,
                            d.dash.video@[j].id,
                        )
                    }))
                &&& (r matches Err(e) ==> e matches DlError::ResourceNotFound ==> (exists|d: Data|
                    bv_of(json_of(payload).unwrap(), d) && (d.dash.video@.len() == 0
                        || d.dash.audio@.len() == 0)))
                &&& (r matches Ok(src) ==> (exists|d: Data, q: u8|
                    {
                        &&& #[trigger] bv_of(json_of(payload).unwrap(), d)
                        &&& #[trigger] best_match_upto(
                            d.dash.video@,
                            q,
                            d.dash.video@.len() as int,
                        ) is Some
                        &&& src.title@ == sanitize_seq(h1_texts_of(*document)[0])
                        &&& (exists|j: int|
                            0 <= j < d.dash.video@.len() && #[trigger] d.dash.video@[j].id == q)
                        &&& (forall|j: int|
                            0 <= j < d.dash.video@.len() ==> #[trigger] d.dash.video@[j].id <= q)
                        &&& (best_match_upto(
                            d.dash.video@,
                            q,
                            d.dash.video@.len() as int,
                        ) matches Some(iv) && src.video_url == d.dash.video@[iv].base_url)
                        &&& d.dash.audio@.len() > 0
                        &&& src.audio_url == d.dash.audio@[best_idx_upto(
                            audio_bw(d.dash.audio@),
                            d.dash.audio@.len() as int,
                        )].base_url
                    }))
            },
        },
{
    let v = match Video::from_page(id, document) {
        Ok(v) => v,
        Err(e) => {
            return Err(e);
        },
    };
    let ghost d = v.info.data;
    let ghost payload = first_prefix_hit(
        script_texts_of(*document),
        "__playinfo__".spec_bytes(),
    ).unwrap();
    let ghost m = json_of(payload).unwrap();
    proof {
        assert(bv_of(m, d));
    }
    let raw = RawVideoInfo { data: v.info.data };
    let info = match VideoInfo::new(v.title, raw) {
        Ok(i) => i,
        Err(_) => {
            proof {
                let j = choose|j: int|
                    0 <= j < d.dash.video@.len() && !label_ok(
                        d.accept_quality@,
                        d.accept_description@,
                        d.dash.video@[j].id,
                    );
                assert(bv_of(m, d) && 0 <= j < d.dash.video@.len() && !label_ok(
                    d.accept_quality@,
                    d.accept_description@,
                    d.dash.video@[j].id,
                ));
            }
            return Err(DlError::QualityLabelMissing);
        },
    };
    if info.quality.len() == 0 {
        proof {
            if d.dash.video@.len() > 0 {
                assert(info.quality@.contains(d.dash.video@[0].id));
            }
            assert(bv_of(m, d) && d.dash.video@.len() == 0);
        }
        return Err(DlError::ResourceNotFound);
    }
    let ghost q = info.quality@[0];
    proof {
        assert(info.quality@.contains(q));
        assert forall|j: int| 0 <= j < d.dash.video@.len() implies #[trigger] d.dash.video@[j].id
            <= q by {
            let qq = d.dash.video@[j].id;
            assert(info.quality@.contains(qq));
            let k = choose|k: int| 0 <= k < info.quality@.len() && info.quality@[k] == qq;
            if k > 0 {
                assert(info.quality@[0] > info.quality@[k]);
            }
        }
    }
    let video_url = match info.get_video_url(0) {
        Ok(u) => u,
        Err(e) => {
            proof {
                crate::resolve::lemma_best_match_upto(
                    info.video@,
                    q,
                    info.video@.len() as int,
                );
                let j = choose|j: int|
                    0 <= j < d.dash.video@.len() && #[trigger] d.dash.video@[j].id == q;
                assert(false);
            }
            return Err(e);
        },
    };
    let audio_url = match info.get_audio_url() {
        Ok(u) => u,
        Err(_) => {
            proof {
                assert(bv_of(m, d) && d.dash.audio@.len() == 0);
            }
            return Err(DlError::ResourceNotFound);
        },
    };
    proof {
        assert(bv_of(m, d));
        assert(best_match_upto(d.dash.video@, q, d.dash.video@.len() as int) is Some);
        assert(exists|j: int|
            0 <= j < d.dash.video@.len() && #[trigger] d.dash.video@[j].id == q) by {
            let k = choose|k: int| 0 <= k < info.quality@.len() && info.quality@[k] == q;
            assert(info.quality@.contains(q));
        }
        assert(d.dash.audio@.len() > 0);
    }
    Ok(VideoSource { title: info.title, video_url, audio_url })
}

} // verus!
