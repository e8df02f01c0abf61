use vstd::prelude::*;

use crate::chunk::{chunk_count, is_plan, split_file_by_part_size, FileChunk, MAX_PARTS};
use crate::errors::{Error, InvalidReason};
use crate::oss::{complete_xml, get_complete_str, CompleteMultipartUpload, Part};

verus! {

/// Where a multipart upload stands.
#[derive(Clone, Copy, Debug, PartialEq, Eq, Structural)]
pub enum Stage {
    /// Waiting for the provider to assign an upload id.
    Initiating,
    /// Waiting for the outcome of the next part upload.
    Uploading,
    /// Waiting for the outcome of the completion request.
    Completing,
    /// A part failed; waiting for the abort request to settle.
    Aborting,
    /// Finished, successfully or not.
    Done,
}

/// What the caller reports back after performing an action.
#[derive(Debug)]
pub enum Event {
    /// The provider assigned this upload id.
    Initiated(String),
    InitiateFailed(Error),
    /// The part just sent was accepted with this tag.
    PartUploaded(String),
    PartFailed(Error),
    Completed,
    CompleteFailed(Error),
    /// The abort request settled, whatever its outcome.
    AbortSettled,
}

/// What the caller is to do next.
#[derive(Debug)]
pub enum Action {
    /// Read the chunk's byte range from the file and upload it as a part.
    UploadPart { chunk: FileChunk, upload_id: String },
    /// Send the completion request with this body.
    Complete { upload_id: String, body: String },
    /// Send the abort request.
    Abort { upload_id: String },
    /// The upload is over, with this outcome.
    Finish(Result<(), Error>),
}

/// The state of one multipart upload of one file.
#[derive(Debug)]
pub struct MultipartUpload {
    chunks: Vec<FileChunk>,
    upload_id: String,
    parts: Vec<Part>,
    stage: Stage,
    failure: Option<Error>,
}

/// What an upload holds: its plan, its upload id, the parts uploaded so far in order,
/// its stage, and the part failure that an abort is under way for.
pub struct UploadView {
    pub chunks: Seq<FileChunk>,
    pub upload_id: Seq<char>,
    pub parts: Seq<Part>,
    pub stage: Stage,
    pub failure: Option<Error>,
}

impl View for MultipartUpload {
    type V = UploadView;

    closed spec fn view(&self) -> UploadView {
        UploadView {
            chunks: self.chunks@,
            upload_id: self.upload_id@,
            parts: self.parts@,
            stage: self.stage,
            failure: self.failure,
        }
    }
}

/// The invariant of an upload: a non-empty plan, and parts recorded in plan order.
pub open spec fn upload_wf(u: UploadView) -> bool {
    &&& u.chunks.len() > 0
    &&& u.parts.len() <= u.chunks.len()
    &&& forall|i: int| 0 <= i < u.parts.len() ==> #[trigger] u.parts[i].part_number == u.chunks[i].number
    &&& u.stage == Stage::Initiating ==> u.parts.len() == 0
    &&& u.stage == Stage::Uploading ==> u.parts.len() < u.chunks.len()
    &&& u.stage == Stage::Completing ==> u.parts.len() == u.chunks.len()
    &&& u.stage == Stage::Aborting ==> u.failure is Some
}

/// Whether `e` is an outcome of the action that `stage` waits for.
pub open spec fn event_fits(stage: Stage, e: Event) -> bool {
    match e {
        Event::Initiated(_) | Event::InitiateFailed(_) => stage == Stage::Initiating,
        Event::PartUploaded(_) | Event::PartFailed(_) => stage == Stage::Uploading,
        Event::Completed | Event::CompleteFailed(_) => stage == Stage::Completing,
        Event::AbortSettled => stage == Stage::Aborting,
    }
}

/// `a` uploads `chunk` under the upload id `id`.
pub open spec fn is_upload(a: Action, chunk: FileChunk, id: Seq<char>) -> bool {
    a is UploadPart && a->UploadPart_chunk == chunk && a->UploadPart_upload_id@ == id
}

/// `a` completes the upload `id` with the body `body`.
pub open spec fn is_complete(a: Action, id: Seq<char>, body: Seq<char>) -> bool {
    a is Complete && a->Complete_upload_id@ == id && a->Complete_body@ == body
}

/// `a` aborts the upload `id`.
pub open spec fn is_abort(a: Action, id: Seq<char>) -> bool {
    a is Abort && a->Abort_upload_id@ == id
}

/// `post` and `a` are the state and action that follow `pre` on event `e`.
pub open spec fn transition(pre: UploadView, e: Event, post: UploadView, a: Action) -> bool {
    &&& post.chunks == pre.chunks
    &&& match e {
        Event::Initiated(id) => {
            &&& post.stage == Stage::Uploading
            &&& post.upload_id == id@
            &&& post.parts == pre.parts
            &&& post.failure == pre.failure
            &&& is_upload(a, pre.chunks[0], id@)
        },
        Event::InitiateFailed(err) => {
            &&& post.stage == Stage::Done
            &&& post.upload_id == pre.upload_id
            &&& post.parts == pre.parts
            &&& post.failure == pre.failure
            &&& a == Action::Finish(Err(err))
        },
        Event::PartUploaded(etag) => {
            let k = pre.parts.len() as int;
            let parts = pre.parts.push(Part { part_number: pre.chunks[k].number, etag: etag });
            &&& post.upload_id == pre.upload_id
            &&& post.parts == parts
            &&& post.failure == pre.failure
            &&& if k + 1 < pre.chunks.len() {
                post.stage == Stage::Uploading && is_upload(a, pre.chunks[k + 1], pre.upload_id)
            } else {
                post.stage == Stage::Completing && is_complete(
                    a,
                    pre.upload_id,
                    complete_xml(parts),
                )
            }
        },
        Event::PartFailed(err) => {
            &&& post.stage == Stage::Aborting
            &&& post.upload_id == pre.upload_id
            &&& post.parts == pre.parts
            &&& post.failure == Some(err)
            &&& is_abort(a, pre.upload_id)
        },
        Event::Completed => {
            &&& post.stage == Stage::Done
            &&& post.upload_id == pre.upload_id
            &&& post.parts == pre.parts
            &&& post.failure == pre.failure
            &&& a == Action::Finish(Ok(()))
        },
        Event::CompleteFailed(err) => {
            &&& post.stage == Stage::Done
            &&& post.upload_id == pre.upload_id
            &&& post.parts == pre.parts
            &&& post.failure == pre.failure
            &&& a == Action::Finish(Err(err))
        },
        Event::AbortSettled => {
            &&& post.stage == Stage::Done
            &&& post.upload_id == pre.upload_id
            &&& post.parts == pre.parts
            &&& post.failure == None::<Error>
            &&& a == Action::Finish(Err(pre.failure->0))
        },
    }
}

impl MultipartUpload {
    /// Plans the upload of a file of `file_size` bytes in parts of `chunk_size` bytes.
    /// Fails before any request on a zero part size, on a plan of too many parts, and on
    /// an empty file. On success the upload waits for its upload id: the caller sends the
    /// initiate request and reports its outcome to `step`.
    pub fn start(file_size: u64, chunk_size: u64) -> (r: Result<MultipartUpload, Error>)
        ensures
            chunk_size == 0 ==> r == Err::<MultipartUpload, Error>(
                Error::InvalidInput(InvalidReason::ZeroChunkSize),
            ),
            chunk_size > 0 && chunk_count(file_size as nat, chunk_size as nat) >= MAX_PARTS ==> r
                == Err::<MultipartUpload, Error>(Error::TooManyParts),
            chunk_size > 0 && chunk_count(file_size as nat, chunk_size as nat) < MAX_PARTS
                && file_size == 0 ==> r == Err::<MultipartUpload, Error>(
                Error::InvalidInput(InvalidReason::EmptyFile),
            ),
            chunk_size > 0 && chunk_count(file_size as nat, chunk_size as nat) < MAX_PARTS
                && file_size > 0 ==> r is Ok && upload_wf(r->Ok_0@) && r->Ok_0@.stage
                == Stage::Initiating && is_plan(r->Ok_0@.chunks, file_size as nat, chunk_size as nat)
                && r->Ok_0@.parts.len() == 0,
    {
        let chunks = match split_file_by_part_size(file_size, chunk_size) {
            Ok(c) => c,
            Err(e) => {
                return Err(e);
            },
        };
        proof {
            if file_size > 0 {
                let q = file_size as nat / chunk_size as nat;
                let m = file_size as nat % chunk_size as nat;
                assert(file_size as nat == q * chunk_size as nat + m) by (nonlinear_arith)
                    requires
                        chunk_size > 0,
                        q == file_size as nat / chunk_size as nat,
                        m == file_size as nat % chunk_size as nat,
                ;
                if q == 0 {
                    assert(q * chunk_size as nat == 0) by (nonlinear_arith)
                        requires
                            q == 0,
                    ;
                    assert(m > 0);
                }
            }
        }
        if chunks.len() == 0 {
            return Err(Error::InvalidInput(InvalidReason::EmptyFile));
        }
        proof {
            if file_size == 0 {
                assert(0nat / (chunk_size as nat) == 0 && 0nat % (chunk_size as nat) == 0) by (nonlinear_arith)
                    requires
                        chunk_size > 0,
                ;
            }
        }
        Ok(
            MultipartUpload {
                chunks,
                upload_id: String::new(),
                parts: Vec::new(),
                stage: Stage::Initiating,
                failure: None,
            },
        )
    }

    /// Whether the upload waits for an outcome of this kind.
    pub fn accepts(&self, e: &Event) -> (r: bool)
        ensures
            r == event_fits(self@.stage, *e),
    {
        match e {
            Event::Initiated(_) | Event::InitiateFailed(_) => self.stage == Stage::Initiating,
            Event::PartUploaded(_) | Event::PartFailed(_) => self.stage == Stage::Uploading,
            Event::Completed | Event::CompleteFailed(_) => self.stage == Stage::Completing,
            Event::AbortSettled => self.stage == Stage::Aborting,
        }
    }

    /// The stage the upload is in.
    pub fn stage(&self) -> (r: Stage)
        ensures
            r == self@.stage,
    {
        self.stage
    }

    /// Takes the outcome of the last action and decides the next one.
    pub fn step(&mut self, e: Event) -> (a: Action)
        requires
            upload_wf(old(self)@),
            event_fits(old(self)@.stage, e),
        ensures
            upload_wf(final(self)@),
            transition(old(self)@, e, final(self)@, a),
    {
        match e {
            Event::Initiated(id) => {
                self.upload_id = id;
                self.stage = Stage::Uploading;
                Action::UploadPart { chunk: self.chunks[0], upload_id: self.upload_id.clone() }
            },
            Event::InitiateFailed(err) => {
                self.stage = Stage::Done;
                Action::Finish(Err(err))
            },
            Event::PartUploaded(etag) => {
                let k = self.parts.len();
                let n = self.chunks.len();
                assert(k < n);
                let number = self.chunks[k].number;
                self.parts.push(Part { part_number: number, etag });
                if k + 1 < n {
                    Action::UploadPart {
                        chunk: self.chunks[k + 1],
                        upload_id: self.upload_id.clone(),
                    }
                } else {
                    self.stage = Stage::Completing;
                    let mut recorded: Vec<Part> = Vec::new();
                    core::mem::swap(&mut recorded, &mut self.parts);
                    let complete = CompleteMultipartUpload { parts: recorded };
                    let body = get_complete_str(&complete);
                    self.parts = complete.parts;
                    Action::Complete { upload_id: self.upload_id.clone(), body }
                }
            },
            Event::PartFailed(err) => {
                self.stage = Stage::Aborting;
                self.failure = Some(err);
                Action::Abort { upload_id: self.upload_id.clone() }
            },
            Event::Completed => {
                self.stage = Stage::Done;
                Action::Finish(Ok(()))
            },
            Event::CompleteFailed(err) => {
                self.stage = Stage::Done;
                Action::Finish(Err(err))
            },
            Event::AbortSettled => {
                self.stage = Stage::Done;
                match self.failure.take() {
                    Some(err) => Action::Finish(Err(err)),
                    None => Action::Finish(Ok(())),
                }
            },
        }
    }
}

/// A part failure sends no further part: the next action aborts the held upload id, the
/// only outcome then awaited is the abort settling, and the upload then finishes with the
/// part's own error.
pub proof fn lemma_part_failure_aborts(
    s0: UploadView,
    err: Error,
    s1: UploadView,
    a1: Action,
    e2: Event,
    s2: UploadView,
    a2: Action,
)
    requires
        s0.stage == Stage::Uploading,
        transition(s0, Event::PartFailed(err), s1, a1),
        event_fits(s1.stage, e2),
        transition(s1, e2, s2, a2),
    ensures
        is_abort(a1, s0.upload_id),
        e2 == Event::AbortSettled,
        s2.stage == Stage::Done,
        a2 == Action::Finish(Err(err)),
{
}

/// Once every part is accepted, the completion body lists each planned part once, in plan
/// order, with the tag it was accepted with.
pub proof fn lemma_completion_lists_parts(s0: UploadView, etag: String, s1: UploadView, a1: Action)
    requires
        upload_wf(s0),
        s0.stage == Stage::Uploading,
        transition(s0, Event::PartUploaded(etag), s1, a1),
        s1.stage == Stage::Completing,
    ensures
        s1.parts.len() == s0.chunks.len(),
        forall|i: int| 0 <= i < s1.parts.len() ==> #[trigger] s1.parts[i].part_number == s0.chunks[i].number,
        s1.parts.last().etag == etag,
        is_complete(a1, s0.upload_id, complete_xml(s1.parts)),
{
}

} // verus!
