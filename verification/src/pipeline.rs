//! The orchestrator: a linear run through
//! page requested → video requested → audio requested → mux requested →
//! done, where any step's failure moves directly to failed and no step is
//! re-entered.  The outside work (the fetch, the two stream downloads, the
//! muxing process) happens between the transitions; each transition takes
//! its outcome as plain values.

use vstd::prelude::*;
use crate::extract::{
    audio_key, has_stream_url, has_title, locate_media, stream_result, title_result, video_key,
    ExtractError,
};
use crate::naming::{candidate_name, generate_unique_filename, join_path, joined};
use crate::mux::MergeError;
use crate::url::{complete_url, normalized_url};

verus! {

/// The target directory cannot take the output file.
#[derive(Clone, Copy, Debug, PartialEq, Eq, Structural)]
pub enum PathError {
    NotFound,
    NotADirectory,
}

/// Accepts the probed state of the target directory: it must exist and be
/// a directory, and the two failures are told apart.
pub fn check_path(exists: bool, is_dir: bool) -> (r: Result<(), PathError>)
    ensures
        (exists && is_dir) <==> r is Ok,
        !exists ==> r == Err::<(), PathError>(PathError::NotFound),
        exists && !is_dir ==> r == Err::<(), PathError>(PathError::NotADirectory),
{
    if !exists {
        Err(PathError::NotFound)
    } else if !is_dir {
        Err(PathError::NotADirectory)
    } else {
        Ok(())
    }
}

/// Where a run stands.  The name of each step is the outside work whose
/// outcome the run is waiting for.
#[derive(Clone, Copy, Debug, PartialEq, Eq, Structural)]
pub enum Step {
    PageRequested,
    VideoRequested,
    AudioRequested,
    MuxRequested,
    Done,
    Failed,
}

/// One download-and-merge run.
pub struct Pipeline {
    pub step: Step,
    /// The normalized page URL.
    pub url: String,
    /// The caller-supplied output directory.
    pub dir: String,
    pub title: String,
    pub video_url: String,
    pub audio_url: String,
    /// The chosen output path, unique in the directory at selection time.
    pub output_path: String,
    pub video_temp: String,
    pub audio_temp: String,
}

impl Pipeline {
    /// Starts a run: normalizes the input URL and accepts the probed state
    /// of the target directory, before any network activity.
    pub fn start(raw_url: String, dir: String, dir_exists: bool, dir_is_dir: bool) -> (r: Result<
        Pipeline,
        PathError,
    >)
        ensures
            (dir_exists && dir_is_dir) <==> r is Ok,
            !dir_exists ==> r == Err::<Pipeline, PathError>(PathError::NotFound),
            dir_exists && !dir_is_dir ==> r == Err::<Pipeline, PathError>(PathError::NotADirectory),
            r matches Ok(p) ==> {
                &&& p.step == Step::PageRequested
                &&& p.url@ == normalized_url(raw_url@)
                &&& p.dir@ == dir@
                &&& p.title@.len() == 0
                &&& p.video_url@.len() == 0
                &&& p.audio_url@.len() == 0
                &&& p.output_path@.len() == 0
                &&& p.video_temp@.len() == 0
                &&& p.audio_temp@.len() == 0
            },
    {
        match check_path(dir_exists, dir_is_dir) {
            Err(e) => Err(e),
            Ok(()) => Ok(
                Pipeline {
                    step: Step::PageRequested,
                    url: complete_url(raw_url),
                    dir,
                    title: String::new(),
                    video_url: String::new(),
                    audio_url: String::new(),
                    output_path: String::new(),
                    video_temp: String::new(),
                    audio_temp: String::new(),
                },
            ),
        }
    }

    /// Takes the fetched page text: locates the media reference
    /// (all-or-nothing) and chooses the unique output path, before either
    /// stream download begins.  `existing` holds the names already present
    /// in the output directory.
    pub fn on_page(&mut self, page_text: &str, existing: &Vec<String>) -> (r: Result<
        (),
        ExtractError,
    >)
        requires
            old(self).step == Step::PageRequested,
        ensures
            r is Ok <==> has_title(page_text@) && has_stream_url(page_text@, video_key())
                && has_stream_url(page_text@, audio_key()),
            r is Ok ==> {
                &&& final(self).step == Step::VideoRequested
                &&& title_result(page_text@, final(self).title@)
                &&& stream_result(page_text@, video_key(), final(self).video_url@)
                &&& stream_result(page_text@, audio_key(), final(self).audio_url@)
                &&& exists|cnt: nat|
                    final(self).output_path@ == joined(
                        old(self).dir@,
                        candidate_name(final(self).title@, cnt),
                    ) && !existing.deep_view().contains(candidate_name(final(self).title@, cnt))
                        && (forall|j: nat|
                        j < cnt ==> existing.deep_view().contains(
                            candidate_name(final(self).title@, j),
                        ))
            },
            r is Err ==> final(self).step == Step::Failed,
            r == Err::<(), ExtractError>(ExtractError::Title) <==> !has_title(page_text@),
            r == Err::<(), ExtractError>(ExtractError::VideoUrl) <==> has_title(page_text@)
                && !has_stream_url(page_text@, video_key()),
            r == Err::<(), ExtractError>(ExtractError::AudioUrl) <==> has_title(page_text@)
                && has_stream_url(page_text@, video_key()) && !has_stream_url(
                page_text@,
                audio_key(),
            ),
            final(self).url == old(self).url,
            final(self).dir == old(self).dir,
            final(self).video_temp == old(self).video_temp,
            final(self).audio_temp == old(self).audio_temp,
    {
        match locate_media(page_text) {
            Err(e) => {
                self.step = Step::Failed;
                Err(e)
            },
            Ok(m) => {
                let fname = generate_unique_filename(existing, m.title.as_str());
                let out = join_path(self.dir.as_str(), fname.as_str());
                self.title = m.title;
                self.video_url = m.video_url;
                self.audio_url = m.audio_url;
                self.output_path = out;
                self.step = Step::VideoRequested;
                proof {
                    let cnt = choose|cnt: nat|
                        fname@ == candidate_name(self.title@, cnt) && (forall|j: nat|
                            j < cnt ==> existing.deep_view().contains(
                                candidate_name(self.title@, j),
                            ));
                    assert(self.output_path@ == joined(
                        self.dir@,
                        candidate_name(self.title@, cnt),
                    ));
                }
                Ok(())
            },
        }
    }

    /// Takes the finished video download: the stream went to the temp file
    /// at `temp_path`, and the audio download is next.
    pub fn on_video_downloaded(&mut self, temp_path: String)
        requires
            old(self).step == Step::VideoRequested,
        ensures
            final(self).step == Step::AudioRequested,
            final(self).video_temp == temp_path,
            final(self).url == old(self).url,
            final(self).dir == old(self).dir,
            final(self).title == old(self).title,
            final(self).video_url == old(self).video_url,
            final(self).audio_url == old(self).audio_url,
            final(self).output_path == old(self).output_path,
            final(self).audio_temp == old(self).audio_temp,
    {
        self.video_temp = temp_path;
        self.step = Step::AudioRequested;
    }

    /// Takes the finished audio download: both streams are complete, so
    /// the merge may start.
    pub fn on_audio_downloaded(&mut self, temp_path: String)
        requires
            old(self).step == Step::AudioRequested,
        ensures
            final(self).step == Step::MuxRequested,
            final(self).audio_temp == temp_path,
            final(self).url == old(self).url,
            final(self).dir == old(self).dir,
            final(self).title == old(self).title,
            final(self).video_url == old(self).video_url,
            final(self).audio_url == old(self).audio_url,
            final(self).output_path == old(self).output_path,
            final(self).video_temp == old(self).video_temp,
    {
        self.audio_temp = temp_path;
        self.step = Step::MuxRequested;
    }

    /// Takes the muxing tool's outcome: on its success exit the run is
    /// done and reports the chosen output path; otherwise the run fails
    /// with the tool's diagnostic text verbatim.
    pub fn on_mux_result(&mut self, success: bool, diagnostic: String) -> (r: Result<
        String,
        MergeError,
    >)
        requires
            old(self).step == Step::MuxRequested,
        ensures
            success <==> r is Ok,
            r matches Ok(path) ==> path@ == old(self).output_path@ && final(self).step
                == Step::Done,
            r matches Err(e) ==> e.detail@ == diagnostic@ && final(self).step == Step::Failed,
            final(self).url == old(self).url,
            final(self).dir == old(self).dir,
            final(self).title == old(self).title,
            final(self).video_url == old(self).video_url,
            final(self).audio_url == old(self).audio_url,
            final(self).output_path == old(self).output_path,
            final(self).video_temp == old(self).video_temp,
            final(self).audio_temp == old(self).audio_temp,
    {
        if success {
            self.step = Step::Done;
            Ok(self.output_path.clone())
        } else {
            self.step = Step::Failed;
            Err(MergeError { detail: diagnostic })
        }
    }

    /// Records an outside failure (a transport error, a failed write): the
    /// run moves directly to failed, whatever step it stood at.
    pub fn fail(&mut self)
        ensures
            final(self).step == Step::Failed,
            final(self).url == old(self).url,
            final(self).dir == old(self).dir,
            final(self).title == old(self).title,
            final(self).video_url == old(self).video_url,
            final(self).audio_url == old(self).audio_url,
            final(self).output_path == old(self).output_path,
            final(self).video_temp == old(self).video_temp,
            final(self).audio_temp == old(self).audio_temp,
    {
        self.step = Step::Failed;
    }
}

} // verus!
