//! The pure parts of download-and-merge orchestration.
//!
//! The two stream fetches and the merge subprocess run outside the crate;
//! here stand the decisions around them: the deterministic file names
//! derived from the sanitized title, the merge command's argument list
//! (copy the video stream, transcode audio), the joint-fetch outcome (merge
//! only when both fetches succeeded, failing with the first error
//! observed), the merge outcome (exit code zero and nothing else is
//! success), and the fetch state machine `Idle -> Fetching -> {Succeeded,
//! Failed}`.

use vstd::prelude::*;

use crate::err::DlError;
use vstd::string::StringSliceAdditionalSpecFns;

verus! {

/// The fetch phase of one download: both stream fetches start together,
/// and the merge never starts before both have completed.
#[derive(Debug, PartialEq, Eq, Structural)]
pub enum FetchPhase {
    Idle,
    Fetching,
    Succeeded,
    Failed,
}

/// One planned download: where the two streams go and where the merged
/// output lands.
#[derive(Debug)]
pub struct DownloadPlan {
    pub video_path: Vec<u8>,
    pub audio_path: Vec<u8>,
    pub output_path: Vec<u8>,
}

/// `./<dir>/<title><suffix>`.
pub open spec fn path_bytes(dir: Seq<u8>, title: Seq<u8>, suffix: Seq<u8>) -> Seq<u8> {
    "./".spec_bytes() + dir + "/".spec_bytes() + title + suffix
}

fn build_path(dir: &[u8], title: &[u8], suffix: &[u8]) -> (r: Vec<u8>)
    ensures
        r@ == path_bytes(dir@, title@, suffix@),
{
    let mut out: Vec<u8> = Vec::new();
    out.extend_from_slice("./".as_bytes());
    out.extend_from_slice(dir);
    out.extend_from_slice("/".as_bytes());
    out.extend_from_slice(title);
    out.extend_from_slice(suffix);
    out
}

/// Plans downloads and judges their outcomes.
pub struct Downloader {
}

impl Downloader {
    pub fn new() -> (r: Downloader)
        ensures
            true,
    {
        Downloader {  }
    }

    /// The deterministic sibling paths of one download: the two temporary
    /// stream files and the final output, named from the sanitized title
    /// inside the working directory.
    pub fn plan(&self, dir: &[u8], title: &[u8]) -> (r: DownloadPlan)
        ensures
            r.video_path@ == path_bytes(dir@, title@, "_video.mp4".spec_bytes()),
            r.audio_path@ == path_bytes(dir@, title@, "_audio.mp4".spec_bytes()),
            r.output_path@ == path_bytes(dir@, title@, ".mp4".spec_bytes()),
    {
        DownloadPlan {
            video_path: build_path(dir, title, "_video.mp4".as_bytes()),
            audio_path: build_path(dir, title, "_audio.mp4".as_bytes()),
            output_path: build_path(dir, title, ".mp4".as_bytes()),
        }
    }
}

/// Enter the fetching phase: both fetches are started together.
pub fn begin_fetch(phase: FetchPhase) -> (r: FetchPhase)
    requires
        phase == FetchPhase::Idle,
    ensures
        r == FetchPhase::Fetching,
{
    FetchPhase::Fetching
}

/// Join the two fetch outcomes once both have completed: the merge may
/// proceed only when both succeeded; otherwise the operation fails with the
/// first error observed (the video fetch's error before the audio's) and
/// nothing is merged.
pub fn join_fetches(phase: FetchPhase, video: Result<(), DlError>, audio: Result<(), DlError>) -> (r:
    (FetchPhase, Result<(), DlError>))
    requires
        phase == FetchPhase::Fetching,
    ensures
        video is Ok && audio is Ok ==> r.0 == FetchPhase::Succeeded && r.1 is Ok,
        video matches Err(e) ==> r.0 == FetchPhase::Failed && r.1 == Err::<(), DlError>(e),
        video is Ok ==> (audio matches Err(e) ==> r.0 == FetchPhase::Failed && r.1 == Err::<
            (),
            DlError,
        >(e)),
{
    match video {
        Err(e) => (FetchPhase::Failed, Err(e)),
        Ok(_) => match audio {
            Err(e) => (FetchPhase::Failed, Err(e)),
            Ok(_) => (FetchPhase::Succeeded, Ok(())),
        },
    }
}

/// The merge command's argument list: both inputs, copy the video stream,
/// transcode audio to the fixed target codec, write the output container.
pub open spec fn merge_args_model(video: Seq<u8>, audio: Seq<u8>, output: Seq<u8>) -> Seq<
    Seq<u8>,
> {
    seq![
        "-i".spec_bytes(),
        video,
        "-i".spec_bytes(),
        audio,
        "-c:v".spec_bytes(),
        "copy".spec_bytes(),
        "-c:a".spec_bytes(),
        "aac".spec_bytes(),
        output,
    ]
}

/// Build the merge command's arguments for a plan.
pub fn merge_args(plan: &DownloadPlan) -> (r: Vec<Vec<u8>>)
    ensures
        r@.map_values(|v: Vec<u8>| v@) == merge_args_model(
            plan.video_path@,
            plan.audio_path@,
            plan.output_path@,
        ),
{
    let mut out: Vec<Vec<u8>> = Vec::new();
    out.push(vstd::slice::slice_to_vec("-i".as_bytes()));
    out.push(vstd::slice::slice_to_vec(plan.video_path.as_slice()));
    out.push(vstd::slice::slice_to_vec("-i".as_bytes()));
    out.push(vstd::slice::slice_to_vec(plan.audio_path.as_slice()));
    out.push(vstd::slice::slice_to_vec("-c:v".as_bytes()));
    out.push(vstd::slice::slice_to_vec("copy".as_bytes()));
    out.push(vstd::slice::slice_to_vec("-c:a".as_bytes()));
    out.push(vstd::slice::slice_to_vec("aac".as_bytes()));
    out.push(vstd::slice::slice_to_vec(plan.output_path.as_slice()));
    proof {
        assert(out@.map_values(|v: Vec<u8>| v@) =~= merge_args_model(
            plan.video_path@,
            plan.audio_path@,
            plan.output_path@,
        ));
    }
    out
}

/// Judge the merge tool's outcome: exit code zero is success; any other
/// code, or abnormal termination without a code, is a `MergeError` carrying
/// the captured output for diagnostics.
pub fn merge_outcome(exit_code: Option<i32>, stdout: Vec<u8>, stderr: Vec<u8>) -> (r: Result<
    (),
    DlError,
>)
    ensures
        r is Ok <==> exit_code == Some(0i32),
        r matches Err(e) ==> (e matches DlError::MergeError { exit_code: ec, stdout: so, stderr: se }
            && ec == exit_code && so@ == stdout@ && se@ == stderr@),
{
    match exit_code {
        Some(0i32) => Ok(()),
        _ => Err(DlError::MergeError { exit_code, stdout, stderr }),
    }
}

} // verus!
