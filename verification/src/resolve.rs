//! Stream resolution: best quality tier, best-bandwidth variant, label
//! lookup, and catalog validation.
//!
//! All selection follows one rule: the entry with the largest value wins,
//! and ties keep the first occurrence in iteration order.  An empty
//! candidate set is a fatal data inconsistency (`ResourceNotFound`), never
//! a silently empty result.

use vstd::prelude::*;

use crate::catalog::{Audio, RawVideoInfo, Video};
use crate::err::{DlError, VideoParseError};
use crate::text;

verus! {

/// One resolved stream: its source URL and bandwidth.
#[derive(Debug)]
pub struct Resource {
    pub base_url: String,
    pub bandwidth: u32,
}

impl Clone for Resource {
    fn clone(&self) -> (r: Self)
        ensures
            r == *self,
    {
        Resource { base_url: self.base_url.clone(), bandwidth: self.bandwidth }
    }
}

/// Index of the largest value among the first `n` entries, keeping the
/// first occurrence on ties.  Meaningful for `1 <= n <= bw.len()`.
pub open spec fn best_idx_upto(bw: Seq<u32>, n: int) -> int
    decreases n,
{
    if n <= 1 {
        0
    } else {
        let b = best_idx_upto(bw, n - 1);
        if bw[n - 1] > bw[b] {
            n - 1
        } else {
            b
        }
    }
}

/// Law of bandwidth selection: the chosen index is in range, no entry is
/// strictly larger, and every earlier entry is strictly smaller (ties keep
/// the first occurrence).
pub proof fn lemma_best_idx_upto(bw: Seq<u32>, n: int)
    requires
        1 <= n <= bw.len(),
    ensures
        0 <= best_idx_upto(bw, n) < n,
        forall|j: int| 0 <= j < n ==> #[trigger] bw[j] <= bw[best_idx_upto(bw, n)],
        forall|j: int| 0 <= j < best_idx_upto(bw, n) ==> #[trigger] bw[j] < bw[best_idx_upto(bw, n)],
    decreases n,
{
    if n > 1 {
        lemma_best_idx_upto(bw, n - 1);
    }
}

/// The bandwidths of a sequence of audio variants.
pub open spec fn audio_bw(s: Seq<Audio>) -> Seq<u32> {
    s.map_values(|a: Audio| a.bandwidth)
}

/// The bandwidths of a sequence of video variants.
pub open spec fn video_bw(s: Seq<Video>) -> Seq<u32> {
    s.map_values(|v: Video| v.bandwidth)
}

/// The bandwidths of a sequence of resolved resources.
pub open spec fn resource_bw(s: Seq<Resource>) -> Seq<u32> {
    s.map_values(|r: Resource| r.bandwidth)
}

/// Quality ids widened for reuse of the selection rule.
pub open spec fn ids_as_u32(s: Seq<u8>) -> Seq<u32> {
    s.map_values(|q: u8| q as u32)
}

/// Index of the best-bandwidth variant with quality id `q` among the first
/// `n` video variants, keeping the first occurrence on ties; `None` when no
/// such variant exists.
pub open spec fn best_match_upto(s: Seq<Video>, q: u8, n: int) -> Option<int>
    decreases n,
{
    if n <= 0 {
        None
    } else {
        let b = best_match_upto(s, q, n - 1);
        if s[n - 1].id != q {
            b
        } else {
            match b {
                None => Some(n - 1),
                Some(i) => if s[n - 1].bandwidth > s[i].bandwidth {
                    Some(n - 1)
                } else {
                    Some(i)
                },
            }
        }
    }
}

/// Law of filtered selection: `None` exactly when no variant carries the
/// quality id; otherwise the chosen variant carries it, no matching variant
/// has a strictly larger bandwidth, and every earlier matching variant has
/// a strictly smaller one.
pub proof fn lemma_best_match_upto(s: Seq<Video>, q: u8, n: int)
    requires
        0 <= n <= s.len(),
    ensures
        best_match_upto(s, q, n) is None <==> (forall|j: int| 0 <= j < n ==> s[j].id != q),
        best_match_upto(s, q, n) matches Some(i) ==> {
            &&& 0 <= i < n
            &&& s[i].id == q
            &&& forall|j: int| 0 <= j < n && s[j].id == q ==> s[j].bandwidth <= s[i].bandwidth
            &&& forall|j: int| 0 <= j < i && s[j].id == q ==> s[j].bandwidth < s[i].bandwidth
        },
    decreases n,
{
    if n > 0 {
        lemma_best_match_upto(s, q, n - 1);
    }
}

/// First index of `q` in `s`, if any.
pub open spec fn find_first_u8(s: Seq<u8>, q: u8) -> Option<int>
    decreases s.len(),
{
    if s.len() == 0 {
        None
    } else if s[0] == q {
        Some(0)
    } else {
        match find_first_u8(s.drop_first(), q) {
            None => None,
            Some(i) => Some(i + 1),
        }
    }
}

proof fn lemma_find_first_at(s: Seq<u8>, q: u8, k: int)
    requires
        0 <= k <= s.len(),
        forall|j: int| 0 <= j < k ==> s[j] != q,
        k < s.len() ==> s[k] == q,
    ensures
        find_first_u8(s, q) == if k < s.len() {
            Some(k)
        } else {
            None::<int>
        },
    decreases k + 1,
{
    if k == 0 {
    } else {
        assert(s[0] != q);
        lemma_find_first_at(s.drop_first(), q, k - 1);
    }
}

/// The quality id `q` has an index-aligned label: it occurs in the
/// accepted-id list, at a position the label list covers.
pub open spec fn label_ok(aq: Seq<u8>, ad: Seq<String>, q: u8) -> bool {
    match find_first_u8(aq, q) {
        None => false,
        Some(i) => i < ad.len(),
    }
}

/// The label of quality id `q`, assuming `label_ok`.
pub open spec fn label_of(aq: Seq<u8>, ad: Seq<String>, q: u8) -> String {
    ad[find_first_u8(aq, q).unwrap()]
}

/// Strictly descending.
pub open spec fn sorted_desc(s: Seq<u8>) -> bool {
    forall|i: int, j: int| 0 <= i < j < s.len() ==> s[i] > s[j]
}

/// A validated catalog: the raw accepted tiers and labels, the distinct
/// quality ids actually backed by a video variant (strictly descending),
/// their index-aligned labels, and the variant sets.
#[derive(Debug)]
pub struct VideoInfo {
    pub title: Vec<u8>,
    pub accept_description: Vec<String>,
    pub accept_quality: Vec<u8>,
    pub quality_description: Vec<String>,
    pub quality: Vec<u8>,
    pub video: Vec<Video>,
    pub audio: Vec<Audio>,
}

impl VideoInfo {
    /// Validate a raw catalog: collect the distinct quality ids of the
    /// video variants in descending order and look up the label of each.
    /// Fails exactly when some variant's quality id has no index-aligned
    /// label — a data-integrity error of the page.
    pub fn new(title: Vec<u8>, raw_video_info: RawVideoInfo) -> (r: Result<
        VideoInfo,
        VideoParseError,
    >)
        ensures
            r is Err <==> exists|j: int|
                0 <= j < raw_video_info.data.dash.video@.len() && !label_ok(
                    raw_video_info.data.accept_quality@,
                    raw_video_info.data.accept_description@,
                    raw_video_info.data.dash.video@[j].id,
                ),
            r matches Ok(v) ==> {
                &&& v.title@ == title@
                &&& v.accept_description@ == raw_video_info.data.accept_description@
                &&& v.accept_quality@ == raw_video_info.data.accept_quality@
                &&& v.video@ == raw_video_info.data.dash.video@
                &&& v.audio@ == raw_video_info.data.dash.audio@
                &&& sorted_desc(v.quality@)
                &&& forall|q: u8|
                    v.quality@.contains(q) <==> exists|j: int|
                        0 <= j < raw_video_info.data.dash.video@.len()
                            && raw_video_info.data.dash.video@[j].id == q
                &&& v.quality_description@.len() == v.quality@.len()
                &&& forall|t: int|
                    0 <= t < v.quality@.len() ==> v.quality_description@[t] == label_of(
                        raw_video_info.data.accept_quality@,
                        raw_video_info.data.accept_description@,
                        v.quality@[t],
                    )
            },
    {
        let d = raw_video_info.data;
        let videos = d.dash.video;
        let nv: usize = videos.len();

        // Distinct quality ids of the variants, strictly descending.
        let mut quality: Vec<u8> = Vec::new();
        for vi in 0..nv
            invariant
                nv == videos@.len(),
                sorted_desc(quality@),
                forall|q: u8|
                    quality@.contains(q) <==> exists|j: int|
                        0 <= j < vi && videos@[j].id == q,
        {
            let id: u8 = videos[vi].id;
            let ghost pre = quality@;
            let mut pos: usize = 0;
            while pos < quality.len() && quality[pos] > id
                invariant
                    pos <= quality@.len(),
                    forall|j: int| 0 <= j < pos ==> quality@[j] > id,
                decreases quality@.len() - pos,
            {
                pos = pos + 1;
            }
            let dup: bool = pos < quality.len() && quality[pos] == id;
            proof {
                if !dup {
                    assert forall|j: int| 0 <= j < quality@.len() implies quality@[j] != id by {
                        if j >= pos {
                            assert(quality@[pos as int] <= id);
                            if j > pos {
                                assert(quality@[j] < quality@[pos as int]);
                            }
                        }
                    }
                    assert(!quality@.contains(id));
                }
            }
            if !dup {
                let ghost old_q = pre;
                quality.insert(pos, id);
                proof {
                    assert(forall|k: int| 0 <= k < pos ==> quality@[k] == old_q[k]);
                    assert(quality@[pos as int] == id);
                    assert(forall|k: int|
                        pos < k < quality@.len() ==> quality@[k] == old_q[k - 1]);
                    assert forall|i: int, j: int|
                        0 <= i < j < quality@.len() implies quality@[i] > quality@[j] by {
                        if i < pos && j < pos {
                        } else if j == pos {
                            assert(old_q[i] > id);
                        } else if i == pos {
                            assert(j > pos);
                            if pos < old_q.len() {
                                assert(old_q[pos as int] < id);
                                if j - 1 > pos {
                                    assert(old_q[j - 1] < old_q[pos as int]);
                                }
                            }
                        } else if i < pos && j > pos {
                            if i < j - 1 {
                                assert(old_q[i] > old_q[j - 1]);
                            } else {
                                assert(old_q[i] > id);
                                assert(i == pos - 1 && j == pos + 1 && false) by {
                                    assert(i == j - 1 && i < pos && j > pos);
                                }
                            }
                        } else {
                            assert(old_q[i - 1] > old_q[j - 1]);
                        }
                    }
                    assert forall|q: u8| quality@.contains(q) implies (old_q.contains(q) || q
                        == id) by {
                        let k = choose|k: int| 0 <= k < quality@.len() && quality@[k] == q;
                        if k < pos {
                            assert(old_q[k] == q);
                        } else if k > pos {
                            assert(old_q[k - 1] == q);
                        }
                    }
                    assert forall|q: u8| old_q.contains(q) implies quality@.contains(q) by {
                        let k = choose|k: int| 0 <= k < old_q.len() && old_q[k] == q;
                        if k < pos {
                            assert(quality@[k] == q);
                        } else {
                            assert(quality@[k + 1] == q);
                        }
                    }
                    assert(quality@.contains(id));
                }
            }
            proof {
                if dup {
                    assert(quality@[pos as int] == id);
                }
                assert(quality@.contains(id));
                assert forall|q: u8| #[trigger] quality@.contains(q) implies (exists|j: int|
                    0 <= j < vi + 1 && videos@[j].id == q) by {
                    if q == id {
                        assert(videos@[vi as int].id == q);
                    } else {
                        assert(pre.contains(q));
                        let j = choose|j: int| 0 <= j < vi && videos@[j].id == q;
                        assert(0 <= j < vi + 1 && videos@[j].id == q);
                    }
                }
                assert forall|q: u8|
                    (exists|j: int| 0 <= j < vi + 1 && videos@[j].id == q) implies #[trigger] quality@.contains(
                    q,
                ) by {
                    let j = choose|j: int| 0 <= j < vi + 1 && videos@[j].id == q;
                    if j < vi {
                        assert(pre.contains(q));
                    }
                }
            }
        }

        // Look up the index-aligned label of each id.
        let aq = d.accept_quality;
        let ad = d.accept_description;
        let nq: usize = quality.len();
        let mut quality_description: Vec<String> = Vec::new();
        let mut quality_not_found: Vec<u8> = Vec::new();
        for t in 0..nq
            invariant
                nq == quality@.len(),
                quality_description@.len() == t,
                quality_not_found@.len() == 0 <==> (forall|u: int|
                    0 <= u < t ==> label_ok(aq@, ad@, quality@[u])),
                quality_not_found@.len() == 0 ==> forall|u: int|
                    0 <= u < t ==> quality_description@[u] == label_of(aq@, ad@, quality@[u]),
        {
            let q: u8 = quality[t];
            let mut idx: usize = 0;
            while idx < aq.len() && aq[idx] != q
                invariant
                    idx <= aq@.len(),
                    forall|j: int| 0 <= j < idx ==> aq@[j] != q,
                decreases aq@.len() - idx,
            {
                idx = idx + 1;
            }
            proof {
                lemma_find_first_at(aq@, q, idx as int);
            }
            if idx < aq.len() && idx < ad.len() {
                quality_description.push(ad[idx].clone());
            } else {
                quality_not_found.push(q);
                quality_description.push(String::new());
            }
        }

        if quality_not_found.len() > 0 {
            proof {
                let u = choose|u: int|
                    0 <= u < quality@.len() && !label_ok(aq@, ad@, quality@[u]);
                assert(quality@.contains(quality@[u]));
            }
            let mut message: Vec<u8> = Vec::new();
            message.extend_from_slice("no description found for quality id = [".as_bytes());
            let mut parts: Vec<Vec<u8>> = Vec::new();
            let nf: usize = quality_not_found.len();
            for p in 0..nf
                invariant
                    nf == quality_not_found@.len(),
            {
                parts.push(text::u64_to_dec(quality_not_found[p] as u64));
            }
            let joined = text::join_bytes(&parts, ", ".as_bytes());
            message.extend_from_slice(joined.as_slice());
            message.push(93);
            let msg_string: String = match text::string_from_bytes(message) {
                Some(s) => s,
                None => String::new(),
            };
            return Err(VideoParseError::new(msg_string));
        }

        proof {
            assert forall|j: int|
                0 <= j < videos@.len() implies label_ok(aq@, ad@, videos@[j].id) by {
                assert(quality@.contains(videos@[j].id));
                let u = choose|u: int| 0 <= u < quality@.len() && quality@[u] == videos@[j].id;
                assert(label_ok(aq@, ad@, quality@[u]));
            }
        }
        Ok(VideoInfo {
            title,
            accept_description: ad,
            accept_quality: aq,
            quality_description,
            quality,
            video: videos,
            audio: d.dash.audio,
        })
    }

    /// The label of the numerically largest accepted quality id (first
    /// occurrence on ties).
    pub fn get_hightest_quality_name(&self) -> (r: String)
        requires
            self.accept_quality@.len() > 0,
            self.accept_description@.len() == self.accept_quality@.len(),
        ensures
            r == self.accept_description@[best_idx_upto(
                ids_as_u32(self.accept_quality@),
                self.accept_quality@.len() as int,
            )],
    {
        let ghost bw = ids_as_u32(self.accept_quality@);
        let n: usize = self.accept_quality.len();
        let mut max_idx: usize = 0;
        let mut max_quality: u8 = self.accept_quality[0];
        proof {
            assert(bw[0] == self.accept_quality@[0] as u32);
        }
        for idx in 1..n
            invariant
                n == self.accept_quality@.len(),
                bw == ids_as_u32(self.accept_quality@),
                max_idx < idx <= n,
                max_idx == best_idx_upto(bw, idx as int),
                max_quality == self.accept_quality@[max_idx as int],
        {
            let q: u8 = self.accept_quality[idx];
            proof {
                assert(bw[idx as int] == self.accept_quality@[idx as int] as u32);
            }
            if q > max_quality {
                max_quality = q;
                max_idx = idx;
            }
        }
        self.accept_description[max_idx].clone()
    }

    /// The best-bandwidth entry of `resources` (first occurrence on ties);
    /// an empty slice is a fatal `ResourceNotFound`.
    pub fn find_best_resource(&self, resources: &[Resource]) -> (r: Result<Resource, DlError>)
        ensures
            r is Err <==> resources@.len() == 0,
            r is Err ==> r matches Err(DlError::ResourceNotFound),
            r matches Ok(res) ==> res == resources@[best_idx_upto(
                resource_bw(resources@),
                resources@.len() as int,
            )],
    {
        let n: usize = resources.len();
        if n == 0 {
            return Err(DlError::ResourceNotFound);
        }
        let ghost bw = resource_bw(resources@);
        let mut best: usize = 0;
        for i in 1..n
            invariant
                n == resources@.len(),
                bw == resource_bw(resources@),
                best < i <= n,
                best == best_idx_upto(bw, i as int),
        {
            proof {
                assert(bw[i as int] == resources@[i as int].bandwidth);
                assert(bw[best as int] == resources@[best as int].bandwidth);
            }
            if resources[i].bandwidth > resources[best].bandwidth {
                best = i;
            }
        }
        Ok(resources[best].clone())
    }

    /// The audio variants as resolved resources.
    fn audio_resources(&self) -> (r: Vec<Resource>)
        ensures
            r@.len() == self.audio@.len(),
            forall|j: int|
                0 <= j < r@.len() ==> r@[j].base_url == self.audio@[j].base_url && r@[j].bandwidth
                    == self.audio@[j].bandwidth,
    {
        let n: usize = self.audio.len();
        let mut out: Vec<Resource> = Vec::new();
        for i in 0..n
            invariant
                n == self.audio@.len(),
                out@.len() == i,
                forall|j: int|
                    0 <= j < i ==> out@[j].base_url == self.audio@[j].base_url
                        && out@[j].bandwidth == self.audio@[j].bandwidth,
        {
            out.push(
                Resource {
                    base_url: self.audio[i].base_url.clone(),
                    bandwidth: self.audio[i].bandwidth,
                },
            );
        }
        out
    }

    /// The video variants as resolved resources.
    fn video_resources(&self) -> (r: Vec<Resource>)
        ensures
            r@.len() == self.video@.len(),
            forall|j: int|
                0 <= j < r@.len() ==> r@[j].base_url == self.video@[j].base_url && r@[j].bandwidth
                    == self.video@[j].bandwidth,
    {
        let n: usize = self.video.len();
        let mut out: Vec<Resource> = Vec::new();
        for i in 0..n
            invariant
                n == self.video@.len(),
                out@.len() == i,
                forall|j: int|
                    0 <= j < i ==> out@[j].base_url == self.video@[j].base_url
                        && out@[j].bandwidth == self.video@[j].bandwidth,
        {
            out.push(
                Resource {
                    base_url: self.video[i].base_url.clone(),
                    bandwidth: self.video[i].bandwidth,
                },
            );
        }
        out
    }

    /// The best-bandwidth audio variant; fails on an empty audio set.
    pub fn get_best_audio(&self) -> (r: Result<Resource, DlError>)
        ensures
            r is Err <==> self.audio@.len() == 0,
            r is Err ==> r matches Err(DlError::ResourceNotFound),
            r matches Ok(res) ==> {
                let b = best_idx_upto(audio_bw(self.audio@), self.audio@.len() as int);
                res.base_url == self.audio@[b].base_url && res.bandwidth
                    == self.audio@[b].bandwidth
            },
    {
        let resources = self.audio_resources();
        let r = self.find_best_resource(resources.as_slice());
        proof {
            assert(resource_bw(resources@) =~= audio_bw(self.audio@));
            if self.audio@.len() > 0 {
                let b = best_idx_upto(audio_bw(self.audio@), self.audio@.len() as int);
                lemma_best_idx_upto(audio_bw(self.audio@), self.audio@.len() as int);
                assert(resources@[b].base_url == self.audio@[b].base_url);
                assert(resources@[b].bandwidth == self.audio@[b].bandwidth);
            }
        }
        r
    }

    /// The best-bandwidth video variant over all quality tiers; fails on an
    /// empty video set.
    pub fn get_best_video(&self) -> (r: Result<Resource, DlError>)
        ensures
            r is Err <==> self.video@.len() == 0,
            r is Err ==> r matches Err(DlError::ResourceNotFound),
            r matches Ok(res) ==> {
                let b = best_idx_upto(video_bw(self.video@), self.video@.len() as int);
                res.base_url == self.video@[b].base_url && res.bandwidth
                    == self.video@[b].bandwidth
            },
    {
        let resources = self.video_resources();
        let r = self.find_best_resource(resources.as_slice());
        proof {
            assert(resource_bw(resources@) =~= video_bw(self.video@));
            if self.video@.len() > 0 {
                let b = best_idx_upto(video_bw(self.video@), self.video@.len() as int);
                lemma_best_idx_upto(video_bw(self.video@), self.video@.len() as int);
                assert(resources@[b].base_url == self.video@[b].base_url);
                assert(resources@[b].bandwidth == self.video@[b].bandwidth);
            }
        }
        r
    }

    /// The URL of the best-bandwidth video variant in the selected quality
    /// tier; fails with `ResourceNotFound` when the tier has no backing
    /// variant.
    pub fn get_video_url(&self, selected_quality_index: usize) -> (r: Result<String, DlError>)
        requires
            selected_quality_index < self.quality@.len(),
        ensures
            ({
                let q = self.quality@[selected_quality_index as int];
                match best_match_upto(self.video@, q, self.video@.len() as int) {
                    None => r matches Err(DlError::ResourceNotFound),
                    Some(i) => r matches Ok(url) && url == self.video@[i].base_url,
                }
            }),
    {
        let q: u8 = self.quality[selected_quality_index];
        best_video_url(&self.video, q)
    }

    /// The URL of the best-bandwidth audio variant; fails with
    /// `ResourceNotFound` on an empty audio set.
    pub fn get_audio_url(&self) -> (r: Result<String, DlError>)
        ensures
            r is Err <==> self.audio@.len() == 0,
            r is Err ==> r matches Err(DlError::ResourceNotFound),
            r matches Ok(url) ==> url == self.audio@[best_idx_upto(
                audio_bw(self.audio@),
                self.audio@.len() as int,
            )].base_url,
    {
        best_audio_url(&self.audio)
    }
}

/// The URL of the best-bandwidth variant with quality id `q`, if any.
pub fn best_video_url(videos: &Vec<Video>, q: u8) -> (r: Result<String, DlError>)
    ensures
        match best_match_upto(videos@, q, videos@.len() as int) {
            None => r matches Err(DlError::ResourceNotFound),
            Some(i) => r matches Ok(url) && url == videos@[i].base_url,
        },
{
    let n: usize = videos.len();
    let mut best: usize = 0;
    let mut found: bool = false;
    for i in 0..n
        invariant
            n == videos@.len(),
            !found ==> best_match_upto(videos@, q, i as int) is None,
            found ==> best < i && best_match_upto(videos@, q, i as int) == Some(best as int),
    {
        if videos[i].id == q {
            if !found || videos[i].bandwidth > videos[best].bandwidth {
                best = i;
                found = true;
            }
        }
    }
    if found {
        Ok(videos[best].base_url.clone())
    } else {
        Err(DlError::ResourceNotFound)
    }
}

/// The URL of the best-bandwidth audio variant; fails on an empty set.
pub fn best_audio_url(audios: &Vec<Audio>) -> (r: Result<String, DlError>)
    ensures
        r is Err <==> audios@.len() == 0,
        r is Err ==> r matches Err(DlError::ResourceNotFound),
        r matches Ok(url) ==> url == audios@[best_idx_upto(
            audio_bw(audios@),
            audios@.len() as int,
        )].base_url,
{
    let n: usize = audios.len();
    if n == 0 {
        return Err(DlError::ResourceNotFound);
    }
    let ghost bw = audio_bw(audios@);
    let mut best: usize = 0;
    for i in 1..n
        invariant
            n == audios@.len(),
            bw == audio_bw(audios@),
            best < i <= n,
            best == best_idx_upto(bw, i as int),
    {
        proof {
            assert(bw[i as int] == audios@[i as int].bandwidth);
            assert(bw[best as int] == audios@[best as int].bandwidth);
        }
        if audios[i].bandwidth > audios[best].bandwidth {
            best = i;
        }
    }
    Ok(audios[best].base_url.clone())
}

} // verus!
