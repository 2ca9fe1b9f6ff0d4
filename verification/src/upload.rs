//! The course of one multipart upload.
//!
//! An upload is opened with one request, sends its parts with a bounded number
//! of them in flight, and is closed with one request that lists the parts.
//! This module decides each step from the answers so far; the caller sends the
//! requests, reads the file, and reports what came back.

use crate::manifest::{
    is_ascending, lemma_sorted_form_unique, lemma_with_number_members,
    lemma_with_number_of_distinct, views_of, with_number, CompleteMultipartUpload, Part, PartView,
};
use crate::multipart::{
    complete_request, complete_request_of, content_md5_of, extract_upload_id, initiate_request,
    initiate_request_of, is_success, is_success_status, object_key, object_key_for, part_outcome,
    part_outcome_of, part_request, part_request_of, upload_id_in, EtagHeader, UploadError,
};
use crate::parts::{
    part_count, part_length, part_views, plan_parts, planned_parts, PartDescriptor,
    PartDescriptorView, MAX_IN_FLIGHT, MAX_PARTS, PART_SIZE,
};
use crate::request::{CanonicalRequest, CanonicalRequestView};
use crate::text::option_text;
use vstd::prelude::*;

verus! {

/// Where an upload stands.
#[derive(Debug, Clone, Copy, PartialEq, Eq, Structural)]
pub enum UploadPhase {
    /// The opening request is out.
    Initiating,
    /// Parts are being uploaded.
    UploadingParts,
    /// Every part is uploaded and the closing request is out.
    Completing,
    /// The service has accepted the closing request.
    Done,
    /// The upload has failed for good.
    Failed,
}

/// Where one part of an upload stands.
#[derive(Debug, Clone, Copy, PartialEq, Eq, Structural)]
pub enum PartState {
    /// Not yet started.
    Pending,
    /// Started, and no answer yet.
    InFlight,
    /// Uploaded; its entity tag is known.
    Uploaded,
    /// Its upload has failed.
    Failed,
}

/// What the caller of an upload has to do next.
#[derive(Debug)]
pub enum UploadAction {
    /// Send this request and report its answer.
    Send(CanonicalRequest),
    /// Start uploading the parts numbered from `first`, `count` of them, and
    /// report each when it ends.
    StartParts { first: u32, count: u32 },
    /// Nothing to start: report the next part that ends.
    Wait,
    /// The upload is complete.
    Succeeded,
    /// The upload has failed, or the event was none that it was waiting for.
    Failed(UploadError),
}

/// Mathematical value of an `UploadAction`.
pub enum UploadActionView {
    Send(CanonicalRequestView),
    StartParts { first: u32, count: u32 },
    Wait,
    Succeeded,
    Failed(UploadError),
}

impl View for UploadAction {
    type V = UploadActionView;

    open spec fn view(&self) -> UploadActionView {
        match self {
            UploadAction::Send(request) => UploadActionView::Send(request@),
            UploadAction::StartParts { first, count } => UploadActionView::StartParts {
                first: *first,
                count: *count,
            },
            UploadAction::Wait => UploadActionView::Wait,
            UploadAction::Succeeded => UploadActionView::Succeeded,
            UploadAction::Failed(e) => UploadActionView::Failed(*e),
        }
    }
}

/// One multipart upload and all that is known of it so far.
#[derive(Debug)]
pub struct MultipartUpload {
    bucket: String,
    region: String,
    object_key: String,
    total_size: u64,
    phase: UploadPhase,
    upload_id: String,
    plan: Vec<PartDescriptor>,
    states: Vec<PartState>,
    admitted: usize,
    in_flight: usize,
    completed: Vec<Part>,
    failure: Option<UploadError>,
}

/// Mathematical value of a `MultipartUpload`.
pub struct UploadView {
    pub bucket: Seq<char>,
    pub region: Seq<char>,
    pub object_key: Seq<char>,
    pub total_size: nat,
    pub phase: UploadPhase,
    /// The id that the service gave the upload; empty until it is known.
    pub upload_id: Seq<char>,
    /// The parts in the order of the plan, each with its entity tag once it is
    /// uploaded.
    pub plan: Seq<PartDescriptorView>,
    /// The state of each part, in the order of the plan.
    pub states: Seq<PartState>,
    /// How many parts have been started: those at the front of the plan.
    pub admitted: nat,
    /// How many parts are started and not yet ended.
    pub in_flight: nat,
    /// The uploaded parts in the order in which they ended; from the closing
    /// request on, in the order of the manifest.
    pub completed: Seq<PartView>,
    /// The first failure, if there was one.
    pub failure: Option<UploadError>,
}

impl View for MultipartUpload {
    type V = UploadView;

    closed spec fn view(&self) -> UploadView {
        UploadView {
            bucket: self.bucket@,
            region: self.region@,
            object_key: self.object_key@,
            total_size: self.total_size as nat,
            phase: self.phase,
            upload_id: self.upload_id@,
            plan: part_views(self.plan@),
            states: self.states@,
            admitted: self.admitted as nat,
            in_flight: self.in_flight as nat,
            completed: views_of(self.completed@),
            failure: self.failure,
        }
    }
}

/// How many parts are in state `state`.
pub open spec fn count_of(states: Seq<PartState>, state: PartState) -> nat
    decreases states.len(),
{
    if states.len() == 0 {
        0
    } else {
        count_of(states.drop_last(), state) + if states.last() == state {
            1nat
        } else {
            0nat
        }
    }
}

/// The entry of the manifest for the part at position `i` of the plan.
pub open spec fn manifest_entry(plan: Seq<PartDescriptorView>, i: int) -> PartView {
    PartView { part_number: plan[i].part_number, etag: plan[i].etag }
}

/// The manifest of a plan: its parts in plan order, each with its number and
/// its entity tag.
pub open spec fn manifest_of(plan: Seq<PartDescriptorView>) -> Seq<PartView> {
    Seq::new(plan.len(), |i: int| manifest_entry(plan, i))
}

/// What holds of the plan and the parts of an upload at every step.
pub open spec fn is_consistent(v: UploadView) -> bool {
    let n = v.plan.len();
    &&& n == part_count(v.total_size, PART_SIZE as nat)
    &&& n <= MAX_PARTS
    &&& v.states.len() == n
    // The plan is the one that the planner gives for the size of the file.
    &&& forall|i: int|
        0 <= i < n ==> {
            &&& (#[trigger] v.plan[i]).part_number == i + 1
            &&& v.plan[i].offset == i * PART_SIZE
            &&& v.plan[i].length == part_length(v.total_size, PART_SIZE as nat, i as nat)
        }
    // Parts are started in plan order: the started ones are the first ones.
    &&& v.admitted <= n
    &&& forall|i: int|
        0 <= i < n ==> (i < v.admitted <==> #[trigger] v.states[i] != PartState::Pending)
    // No more parts are in flight than the ceiling allows.
    &&& v.in_flight == count_of(v.states, PartState::InFlight)
    &&& v.in_flight
        <= MAX_IN_FLIGHT
    // The uploaded parts are recorded once each, with the tag in the plan.
    &&& forall|k: nat|
        #[trigger] with_number(v.completed, k) == if 1 <= k <= n && v.states[k - 1]
            == PartState::Uploaded {
            seq![manifest_entry(v.plan, k - 1)]
        } else {
            Seq::<PartView>::empty()
        }
    // A failed part leaves a failure behind.
    &&& v.failure is None ==> forall|i: int|
        0 <= i < n ==> #[trigger] v.states[i] != PartState::Failed
}

/// What holds of an upload in each phase.
pub open spec fn fits_phase(v: UploadView) -> bool {
    match v.phase {
        UploadPhase::Initiating => v.admitted == 0 && v.failure is None && v.completed.len() == 0,
        // While parts are uploaded, at least one is in flight.
        UploadPhase::UploadingParts => v.in_flight > 0,
        // The closing request is sent only when every part is uploaded, and
        // lists the parts in plan order.
        UploadPhase::Completing | UploadPhase::Done => {
            &&& v.failure is None
            &&& v.admitted == v.plan.len()
            &&& v.in_flight == 0
            &&& v.completed == manifest_of(v.plan)
        },
        UploadPhase::Failed => v.failure is Some,
    }
}

/// What holds of an upload at every step.
pub open spec fn is_valid_upload(v: UploadView) -> bool {
    is_consistent(v) && fits_phase(v)
}

/// The upload of `total_size` bytes to the object `key`, before any answer.
pub open spec fn initial_upload(
    bucket: Seq<char>,
    region: Seq<char>,
    key: Seq<char>,
    total_size: nat,
) -> UploadView {
    UploadView {
        bucket,
        region,
        object_key: key,
        total_size,
        phase: UploadPhase::Initiating,
        upload_id: Seq::empty(),
        plan: planned_parts(total_size, PART_SIZE as nat),
        states: Seq::new(part_count(total_size, PART_SIZE as nat), |i: int| PartState::Pending),
        admitted: 0,
        in_flight: 0,
        completed: Seq::empty(),
        failure: None,
    }
}

/// `v` after it has failed with `error`.
pub open spec fn failed_with(v: UploadView, error: UploadError) -> UploadView {
    UploadView { phase: UploadPhase::Failed, failure: Some(error), ..v }
}

/// `v` once every part is uploaded, and the closing request that is then
/// sent: its manifest lists the parts in plan order.
pub open spec fn closing(v: UploadView) -> (UploadView, UploadActionView) {
    (
        UploadView { phase: UploadPhase::Completing, completed: manifest_of(v.plan), ..v },
        UploadActionView::Send(
            complete_request_of(
                v.bucket,
                v.region,
                v.object_key,
                v.upload_id,
                manifest_of(v.plan),
            ),
        ),
    )
}

/// How many parts are started when the upload id is known: all of them, or as
/// many as may be in flight.
pub open spec fn first_admission(v: UploadView) -> nat {
    if v.plan.len() <= MAX_IN_FLIGHT {
        v.plan.len()
    } else {
        MAX_IN_FLIGHT as nat
    }
}

/// The step on the answer to the opening request.
pub open spec fn after_initiate(v: UploadView, status: u16, body: Seq<char>) -> (
    UploadView,
    UploadActionView,
) {
    if v.phase != UploadPhase::Initiating {
        (v, UploadActionView::Failed(UploadError::OutOfTurn))
    } else if !is_success_status(status) {
        (
            failed_with(v, UploadError::InitiateRejected { status }),
            UploadActionView::Failed(UploadError::InitiateRejected { status }),
        )
    } else {
        match upload_id_in(body) {
            None => (
                failed_with(v, UploadError::MissingUploadId),
                UploadActionView::Failed(UploadError::MissingUploadId),
            ),
            Some(id) => if v.plan.len() == 0 {
                closing(UploadView { upload_id: id, ..v })
            } else {
                let k = first_admission(v);
                (
                    UploadView {
                        phase: UploadPhase::UploadingParts,
                        upload_id: id,
                        states: Seq::new(
                            v.plan.len(),
                            |i: int|
                                if i < k {
                                    PartState::InFlight
                                } else {
                                    PartState::Pending
                                },
                        ),
                        admitted: k,
                        in_flight: k,
                        ..v
                    },
                    UploadActionView::StartParts { first: 1, count: k as u32 },
                )
            },
        }
    }
}

/// How the upload of a part ended, by its mathematical value: the text of its
/// entity tag, or the reason of its failure.
pub open spec fn tag_or_error(outcome: Result<String, UploadError>) -> Result<
    Seq<char>,
    UploadError,
> {
    match outcome {
        Ok(etag) => Ok(etag@),
        Err(e) => Err(e),
    }
}

/// Whether `v` waits for the end of part `part_number`.
pub open spec fn awaits_part(v: UploadView, part_number: u32) -> bool {
    &&& v.phase == UploadPhase::UploadingParts
    &&& 1 <= part_number <= v.plan.len()
    &&& v.states[part_number - 1] == PartState::InFlight
}

/// `v` after part `part_number` has ended with `outcome`, its entity tag or
/// the reason of its failure: the part is settled and its slot is free.
pub open spec fn settled(v: UploadView, part_number: u32, outcome: Result<Seq<char>, UploadError>)
    -> UploadView {
    let i = part_number - 1;
    match outcome {
        Ok(etag) => UploadView {
            states: v.states.update(i, PartState::Uploaded),
            plan: v.plan.update(i, PartDescriptorView { etag, ..v.plan[i] }),
            completed: v.completed.push(PartView { part_number: part_number as nat, etag }),
            in_flight: (v.in_flight - 1) as nat,
            ..v
        },
        Err(e) => UploadView {
            states: v.states.update(i, PartState::Failed),
            failure: if v.failure is None {
                Some(e)
            } else {
                v.failure
            },
            in_flight: (v.in_flight - 1) as nat,
            ..v
        },
    }
}

/// `v` after the next part of the plan has been started, where one is left.
pub open spec fn refilled(v: UploadView) -> UploadView {
    if v.admitted < v.plan.len() {
        UploadView {
            states: v.states.update(v.admitted as int, PartState::InFlight),
            admitted: v.admitted + 1,
            in_flight: v.in_flight + 1,
            ..v
        }
    } else {
        v
    }
}

/// The step on the end of a part.
///
/// The slot of the part goes to the next part of the plan, whether or not a
/// part has failed before. When no part is left in flight, the upload is
/// closed if every part was uploaded, and fails with the first failure
/// otherwise.
pub open spec fn after_part(
    v: UploadView,
    part_number: u32,
    outcome: Result<Seq<char>, UploadError>,
) -> (UploadView, UploadActionView) {
    if !awaits_part(v, part_number) {
        (v, UploadActionView::Failed(UploadError::OutOfTurn))
    } else {
        let free = settled(v, part_number, outcome);
        let next = refilled(free);
        if next.in_flight > 0 {
            (
                next,
                if free.admitted < free.plan.len() {
                    UploadActionView::StartParts { first: (free.admitted + 1) as u32, count: 1 }
                } else {
                    UploadActionView::Wait
                },
            )
        } else {
            match next.failure {
                Some(e) => (
                    UploadView { phase: UploadPhase::Failed, ..next },
                    UploadActionView::Failed(e),
                ),
                None => closing(next),
            }
        }
    }
}

/// The step on the answer to the closing request.
pub open spec fn after_complete(v: UploadView, status: u16) -> (UploadView, UploadActionView) {
    if v.phase != UploadPhase::Completing {
        (v, UploadActionView::Failed(UploadError::OutOfTurn))
    } else if is_success_status(status) {
        (UploadView { phase: UploadPhase::Done, ..v }, UploadActionView::Succeeded)
    } else {
        (
            failed_with(v, UploadError::CompleteRejected { status }),
            UploadActionView::Failed(UploadError::CompleteRejected { status }),
        )
    }
}

/// The step when the opening or the closing request could not be sent.
pub open spec fn after_transport_failure(v: UploadView) -> (UploadView, UploadActionView) {
    if v.phase == UploadPhase::Initiating || v.phase == UploadPhase::Completing {
        (failed_with(v, UploadError::Transport), UploadActionView::Failed(UploadError::Transport))
    } else {
        (v, UploadActionView::Failed(UploadError::OutOfTurn))
    }
}

impl MultipartUpload {
    /// Whether the upload is in a state that its steps can lead to.
    pub open spec fn wf(&self) -> bool {
        is_valid_upload(self@)
    }

    /// Plans the upload of a file of `total_size` bytes to the object
    /// `object_key` and gives the request that opens it.
    ///
    /// Fails, before any request exists, where the file needs more parts than
    /// an upload may have.
    pub fn begin(bucket_name: &str, region: &str, object_key: &str, total_size: u64) -> (r: Result<
        (MultipartUpload, CanonicalRequest),
        UploadError,
    >)
        ensures
            match r {
                Ok((upload, request)) => {
                    &&& part_count(total_size as nat, PART_SIZE as nat) <= MAX_PARTS
                    &&& upload.wf()
                    &&& upload@ == initial_upload(
                        bucket_name@,
                        region@,
                        object_key@,
                        total_size as nat,
                    )
                    &&& request@ == initiate_request_of(bucket_name@, region@, object_key@)
                },
                Err(e) => e == UploadError::TooManyParts && part_count(
                    total_size as nat,
                    PART_SIZE as nat,
                ) > MAX_PARTS,
            },
    {
        let plan = match plan_parts(total_size, PART_SIZE, MAX_PARTS) {
            Ok(plan) => plan,
            Err(_) => {
                return Err(UploadError::TooManyParts);
            },
        };
        let n = plan.len();
        proof {
            assert(part_views(plan@).len() == n);
            assert(planned_parts(total_size as nat, PART_SIZE as nat).len() == part_count(
                total_size as nat,
                PART_SIZE as nat,
            ));
        }
        let mut states: Vec<PartState> = Vec::new();
        while states.len() < n
            invariant
                states@.len() <= n,
                forall|i: int| 0 <= i < states@.len() ==> states@[i] == PartState::Pending,
                count_of(states@, PartState::InFlight) == 0,
            decreases n - states@.len(),
        {
            let ghost before = states@;
            states.push(PartState::Pending);
            proof {
                assert(states@.drop_last() =~= before);
            }
        }
        let upload = MultipartUpload {
            bucket: bucket_name.to_owned(),
            region: region.to_owned(),
            object_key: object_key.to_owned(),
            total_size,
            phase: UploadPhase::Initiating,
            upload_id: String::new(),
            plan,
            states,
            admitted: 0,
            in_flight: 0,
            completed: Vec::new(),
            failure: None,
        };
        proof {
            let v = upload@;
            let target = initial_upload(bucket_name@, region@, object_key@, total_size as nat);
            assert(v.states =~= target.states);
            assert(v.completed =~= target.completed);
            assert(v.plan =~= target.plan);
            assert(v == target);
            assert forall|k: nat| #[trigger] with_number(v.completed, k) == Seq::<PartView>::empty() by {}
            assert(is_valid_upload(v));
        }
        let request = initiate_request(bucket_name, region, object_key);
        Ok((upload, request))
    }

    /// Where the upload stands.
    pub fn phase(&self) -> (r: UploadPhase)
        ensures
            r == self@.phase,
    {
        self.phase
    }

    /// The id that the service gave the upload; empty until it is known.
    pub fn upload_id(&self) -> (r: &str)
        ensures
            r@ == self@.upload_id,
    {
        self.upload_id.as_str()
    }

    /// The parts in the order of the plan.
    pub fn parts(&self) -> (r: &Vec<PartDescriptor>)
        ensures
            part_views(r@) == self@.plan,
    {
        &self.plan
    }

    /// How many parts are started and not yet ended.
    pub fn in_flight(&self) -> (r: usize)
        ensures
            r == self@.in_flight,
    {
        self.in_flight
    }

    /// The first failure, if there was one.
    pub fn failure(&self) -> (r: Option<UploadError>)
        ensures
            r == self@.failure,
    {
        self.failure
    }

    /// Builds the request that uploads `data` as part `part_number` of this
    /// upload.
    pub fn part_request(&self, part_number: u32, data: Vec<u8>) -> (r: CanonicalRequest)
        ensures
            r@ == part_request_of(
                self@.bucket,
                self@.region,
                self@.object_key,
                self@.upload_id,
                part_number as nat,
                content_md5_of(data@),
                data@,
            ),
    {
        part_request(
            self.bucket.as_str(),
            self.region.as_str(),
            self.object_key.as_str(),
            self.upload_id.as_str(),
            part_number,
            data,
        )
    }

    /// Closes the upload once every part is uploaded: sorts the uploaded
    /// parts into the manifest and builds the closing request.
    fn close(self) -> (r: (MultipartUpload, UploadAction))
        requires
            is_consistent(self@),
            self@.failure is None,
            self@.admitted == self@.plan.len(),
            self@.in_flight == 0,
        ensures
            r.0.wf(),
            (r.0@, r.1@) == closing(self@),
    {
        let ghost v = self@;
        let ghost expected = manifest_of(v.plan);
        let MultipartUpload {
            bucket,
            region,
            object_key,
            total_size,
            phase: _,
            upload_id,
            plan,
            states,
            admitted,
            in_flight,
            completed,
            failure,
        } = self;
        let ghost finished = views_of(completed@);
        let manifest = CompleteMultipartUpload::from_parts(completed);
        proof {
            assert(finished == v.completed);
            assert(part_views(plan@) == v.plan);
            assert(states@ == v.states);
            lemma_count_of_bounds(v.states, PartState::InFlight);
            assert forall|i: int| 0 <= i < v.states.len() implies v.states[i]
                == PartState::Uploaded by {
                assert(v.states[i] != PartState::Pending);
                assert(v.states[i] != PartState::InFlight);
                assert(v.states[i] != PartState::Failed);
            }
            assert(is_ascending(expected));
            assert forall|k: nat| with_number(manifest@, k) == with_number(expected, k) by {
                assert(with_number(manifest@, k) == with_number(finished, k));
                lemma_with_number_of_distinct(expected, k);
                lemma_with_number_members(expected, k);
                assert(with_number(v.completed, k) == if 1 <= k <= v.plan.len() && v.states[k - 1]
                    == PartState::Uploaded {
                    seq![manifest_entry(v.plan, k - 1)]
                } else {
                    Seq::<PartView>::empty()
                });
                if 1 <= k <= v.plan.len() {
                    assert(v.states[k - 1] == PartState::Uploaded);
                    assert(expected[k - 1].part_number == k);
                    assert(with_number(expected, k) == seq![expected[k - 1]]);
                } else {
                    assert(with_number(finished, k).len() == 0);
                    assert(with_number(expected, k) =~= with_number(finished, k));
                }
            }
            lemma_sorted_form_unique(manifest@, expected);
        }
        let request = complete_request(
            bucket.as_str(),
            region.as_str(),
            object_key.as_str(),
            upload_id.as_str(),
            &manifest,
        );
        let upload = MultipartUpload {
            bucket,
            region,
            object_key,
            total_size,
            phase: UploadPhase::Completing,
            upload_id,
            plan,
            states,
            admitted,
            in_flight,
            completed: manifest.parts,
            failure,
        };
        proof {
            assert(upload@ == closing(v).0);
            assert forall|k: nat| #[trigger]
                with_number(upload@.completed, k) == with_number(finished, k) by {
                assert(with_number(manifest@, k) == with_number(finished, k));
            }
        }
        (upload, UploadAction::Send(request))
    }

    /// Takes the answer to the opening request.
    ///
    /// The upload fails where the status is not one of success or the answer
    /// names no upload. Otherwise the first parts are started, as many as may
    /// be in flight; an empty file has none and is closed at once.
    pub fn on_initiate_response(self, status: u16, body: &str) -> (r: (
        MultipartUpload,
        UploadAction,
    ))
        requires
            self.wf(),
        ensures
            r.0.wf(),
            (r.0@, r.1@) == after_initiate(self@, status, body@),
    {
        let ghost v = self@;
        let mut upload = self;
        match upload.phase {
            UploadPhase::Initiating => {},
            _ => {
                return (upload, UploadAction::Failed(UploadError::OutOfTurn));
            },
        }
        if !is_success(status) {
            let error = UploadError::InitiateRejected { status };
            upload.phase = UploadPhase::Failed;
            upload.failure = Some(error);
            return (upload, UploadAction::Failed(error));
        }
        let id = match extract_upload_id(body) {
            Some(id) => id,
            None => {
                upload.phase = UploadPhase::Failed;
                upload.failure = Some(UploadError::MissingUploadId);
                return (upload, UploadAction::Failed(UploadError::MissingUploadId));
            },
        };
        upload.upload_id = id;
        let n = upload.plan.len();
        proof {
            lemma_count_of_bounds(v.states, PartState::InFlight);
            assert(v.in_flight == 0);
        }
        if n == 0 {
            return upload.close();
        }
        let k = if n <= MAX_IN_FLIGHT {
            n
        } else {
            MAX_IN_FLIGHT
        };
        let mut states: Vec<PartState> = Vec::new();
        let mut i: usize = 0;
        while i < n
            invariant
                i <= n,
                k <= n,
                states@.len() == i,
                forall|j: int|
                    0 <= j < i ==> states@[j] == if j < k {
                        PartState::InFlight
                    } else {
                        PartState::Pending
                    },
                count_of(states@, PartState::InFlight) == if i < k {
                    i
                } else {
                    k
                },
            decreases n - i,
        {
            let ghost before = states@;
            if i < k {
                states.push(PartState::InFlight);
            } else {
                states.push(PartState::Pending);
            }
            proof {
                assert(states@.drop_last() =~= before);
            }
            i = i + 1;
        }
        upload.states = states;
        upload.phase = UploadPhase::UploadingParts;
        upload.admitted = k;
        upload.in_flight = k;
        proof {
            let target = after_initiate(v, status, body@).0;
            assert(upload@.states =~= target.states);
            assert(upload@ == target);
            assert forall|q: nat| #[trigger]
                with_number(upload@.completed, q) == Seq::<PartView>::empty() by {
                assert(with_number(v.completed, q) =~= Seq::<PartView>::empty());
            }
        }
        (upload, UploadAction::StartParts { first: 1, count: k as u32 })
    }

    /// Settles the part `part_number` with its entity tag or the reason of
    /// its failure, gives its slot to the next part of the plan, and closes
    /// or fails the upload when no part is left in flight.
    fn record_part(self, part_number: u32, outcome: Result<String, UploadError>) -> (r: (
        MultipartUpload,
        UploadAction,
    ))
        requires
            self.wf(),
        ensures
            r.0.wf(),
            (r.0@, r.1@) == after_part(self@, part_number, tag_or_error(outcome)),
    {
        let ghost v = self@;
        let ghost result = tag_or_error(outcome);
        let mut upload = self;
        let n = upload.plan.len();
        let awaited = match upload.phase {
            UploadPhase::UploadingParts => part_number >= 1 && part_number as usize <= n && (
            match upload.states[(part_number - 1) as usize] {
                PartState::InFlight => true,
                _ => false,
            }),
            _ => false,
        };
        if !awaited {
            return (upload, UploadAction::Failed(UploadError::OutOfTurn));
        }
        let i = (part_number - 1) as usize;
        proof {
            lemma_count_of_bounds(v.states, PartState::InFlight);
            lemma_count_of_update(
                v.states,
                i as int,
                match result {
                    Ok(_) => PartState::Uploaded,
                    Err(_) => PartState::Failed,
                },
                PartState::InFlight,
            );
        }
        match outcome {
            Ok(etag) => {
                upload.states.set(i, PartState::Uploaded);
                let filled = PartDescriptor {
                    part_number: upload.plan[i].part_number,
                    offset: upload.plan[i].offset,
                    length: upload.plan[i].length,
                    etag: etag.clone(),
                };
                upload.plan.set(i, filled);
                upload.completed.push(Part { part_number, etag });
            },
            Err(e) => {
                upload.states.set(i, PartState::Failed);
                if upload.failure.is_none() {
                    upload.failure = Some(e);
                }
            },
        }
        upload.in_flight = upload.in_flight - 1;
        let ghost free = settled(v, part_number, result);
        proof {
            assert(upload@.states =~= free.states);
            assert(upload@.plan =~= free.plan);
            assert(upload@.completed =~= free.completed);
            assert(upload@ == free);
            assert forall|k: nat| #[trigger]
                with_number(free.completed, k) == if 1 <= k <= n && free.states[k - 1]
                    == PartState::Uploaded {
                    seq![manifest_entry(free.plan, k - 1)]
                } else {
                    Seq::<PartView>::empty()
                } by {
                assert(with_number(v.completed, k) == if 1 <= k <= n && v.states[k - 1]
                    == PartState::Uploaded {
                    seq![manifest_entry(v.plan, k - 1)]
                } else {
                    Seq::<PartView>::empty()
                });
                if result is Ok {
                    assert(free.completed.drop_last() =~= v.completed);
                    if k == part_number {
                        assert(with_number(free.completed, k) =~= seq![
                            manifest_entry(free.plan, k - 1),
                        ]);
                    }
                }
            }
            assert(is_consistent(free));
        }
        let started = upload.admitted < n;
        let first = upload.admitted + 1;
        if started {
            proof {
                lemma_count_of_update(
                    free.states,
                    free.admitted as int,
                    PartState::InFlight,
                    PartState::InFlight,
                );
            }
            upload.states.set(upload.admitted, PartState::InFlight);
            upload.admitted = upload.admitted + 1;
            upload.in_flight = upload.in_flight + 1;
        }
        let ghost next = refilled(free);
        proof {
            assert(upload@.states =~= next.states);
            assert(upload@ == next);
            assert forall|k: nat| #[trigger]
                with_number(next.completed, k) == if 1 <= k <= n && next.states[k - 1]
                    == PartState::Uploaded {
                    seq![manifest_entry(next.plan, k - 1)]
                } else {
                    Seq::<PartView>::empty()
                } by {
                assert(with_number(free.completed, k) == if 1 <= k <= n && free.states[k - 1]
                    == PartState::Uploaded {
                    seq![manifest_entry(free.plan, k - 1)]
                } else {
                    Seq::<PartView>::empty()
                });
            }
            assert(is_consistent(next));
        }
        if upload.in_flight > 0 {
            if started {
                (upload, UploadAction::StartParts { first: first as u32, count: 1 })
            } else {
                (upload, UploadAction::Wait)
            }
        } else {
            match upload.failure {
                Some(e) => {
                    upload.phase = UploadPhase::Failed;
                    (upload, UploadAction::Failed(e))
                },
                None => upload.close(),
            }
        }
    }

    /// Takes the answer to the upload of part `part_number`.
    ///
    /// The part is uploaded where the status is one of success and the answer
    /// carries an entity tag; it has failed otherwise.
    pub fn on_part_response(self, part_number: u32, status: u16, etag: EtagHeader) -> (r: (
        MultipartUpload,
        UploadAction,
    ))
        requires
            self.wf(),
        ensures
            r.0.wf(),
            (r.0@, r.1@) == after_part(
                self@,
                part_number,
                match part_outcome_of(part_number, status, etag) {
                    Ok(part) => Ok(part.etag),
                    Err(e) => Err(e),
                },
            ),
    {
        let outcome = match part_outcome(part_number, status, etag) {
            Ok(part) => Ok(part.etag),
            Err(e) => Err(e),
        };
        self.record_part(part_number, outcome)
    }

    /// Takes note that part `part_number` could not be read or sent: the part
    /// has failed.
    pub fn on_part_failure(self, part_number: u32) -> (r: (MultipartUpload, UploadAction))
        requires
            self.wf(),
        ensures
            r.0.wf(),
            (r.0@, r.1@) == after_part(
                self@,
                part_number,
                Err(UploadError::PartTransfer { part_number }),
            ),
    {
        self.record_part(part_number, Err(UploadError::PartTransfer { part_number }))
    }

    /// Takes the answer to the closing request: the upload is done where the
    /// status is one of success, and has failed otherwise.
    pub fn on_complete_response(self, status: u16) -> (r: (MultipartUpload, UploadAction))
        requires
            self.wf(),
        ensures
            r.0.wf(),
            (r.0@, r.1@) == after_complete(self@, status),
    {
        let mut upload = self;
        match upload.phase {
            UploadPhase::Completing => {
                if is_success(status) {
                    upload.phase = UploadPhase::Done;
                    (upload, UploadAction::Succeeded)
                } else {
                    let error = UploadError::CompleteRejected { status };
                    upload.phase = UploadPhase::Failed;
                    upload.failure = Some(error);
                    (upload, UploadAction::Failed(error))
                }
            },
            _ => (upload, UploadAction::Failed(UploadError::OutOfTurn)),
        }
    }

    /// Takes note that the opening or the closing request could not be sent:
    /// the upload has failed.
    pub fn on_transport_failure(self) -> (r: (MultipartUpload, UploadAction))
        requires
            self.wf(),
        ensures
            r.0.wf(),
            (r.0@, r.1@) == after_transport_failure(self@),
    {
        let mut upload = self;
        match upload.phase {
            UploadPhase::Initiating | UploadPhase::Completing => {
                upload.phase = UploadPhase::Failed;
                upload.failure = Some(UploadError::Transport);
                (upload, UploadAction::Failed(UploadError::Transport))
            },
            _ => (upload, UploadAction::Failed(UploadError::OutOfTurn)),
        }
    }
}

/// What starting the upload of a file gives: the upload and its opening
/// request, or the reason why there is none.
pub open spec fn upload_start(
    bucket: Seq<char>,
    region: Seq<char>,
    file_path: Seq<char>,
    object_path: Option<Seq<char>>,
    file_size: nat,
) -> Result<(UploadView, CanonicalRequestView), UploadError> {
    match object_key(file_path, object_path) {
        None => Err(UploadError::InvalidFileName),
        Some(key) => if part_count(file_size, PART_SIZE as nat) > MAX_PARTS {
            Err(UploadError::TooManyParts)
        } else {
            Ok(
                (
                    initial_upload(bucket, region, key, file_size),
                    initiate_request_of(bucket, region, key),
                ),
            )
        },
    }
}

/// Starts the upload of the file at `file_path`, which holds `file_size`
/// bytes, to `object_path`, or to its own file name where none is given.
///
/// Fails where no object key can be had, and where the file needs more parts
/// than an upload may have: in both cases before any request exists.
pub fn upload_object(
    bucket_name: &str,
    region: String,
    file_path: &str,
    object_path: &Option<String>,
    file_size: u64,
) -> (r: Result<(MultipartUpload, CanonicalRequest), UploadError>)
    ensures
        match r {
            Ok((upload, request)) => upload.wf() && upload_start(
                bucket_name@,
                region@,
                file_path@,
                option_text(*object_path),
                file_size as nat,
            ) == Ok::<(UploadView, CanonicalRequestView), UploadError>((upload@, request@)),
            Err(e) => upload_start(
                bucket_name@,
                region@,
                file_path@,
                option_text(*object_path),
                file_size as nat,
            ) == Err::<(UploadView, CanonicalRequestView), UploadError>(e),
        },
{
    let key = match object_key_for(file_path, object_path) {
        Ok(key) => key,
        Err(e) => {
            return Err(e);
        },
    };
    MultipartUpload::begin(bucket_name, region.as_str(), key.as_str(), file_size)
}

/// The object key under which each of `file_paths` is uploaded: its file
/// name. A path without one fails alone; the others keep their keys.
pub fn upload_multiple_objects(file_paths: &Vec<String>) -> (r: Vec<Result<String, UploadError>>)
    ensures
        r@.len() == file_paths@.len(),
        forall|i: int|
            0 <= i < r@.len() ==> match #[trigger] r@[i] {
                Ok(key) => object_key(file_paths@[i]@, None) == Some(key@),
                Err(e) => e == UploadError::InvalidFileName && object_key(file_paths@[i]@, None)
                    is None,
            },
{
    let mut keys: Vec<Result<String, UploadError>> = Vec::new();
    let mut i: usize = 0;
    while i < file_paths.len()
        invariant
            i <= file_paths@.len(),
            keys@.len() == i,
            forall|k: int|
                0 <= k < i ==> match #[trigger] keys@[k] {
                    Ok(key) => object_key(file_paths@[k]@, None) == Some(key@),
                    Err(e) => e == UploadError::InvalidFileName && object_key(
                        file_paths@[k]@,
                        None,
                    ) is None,
                },
        decreases file_paths@.len() - i,
    {
        let key = object_key_for(file_paths[i].as_str(), &None);
        keys.push(key);
        i = i + 1;
    }
    keys
}

/// In every state that the steps of an upload lead to, no more parts are in
/// flight than the ceiling allows, and the closing request is out only when
/// every part is uploaded.
pub proof fn lemma_upload_bounds(v: UploadView)
    requires
        is_valid_upload(v),
    ensures
        v.in_flight <= MAX_IN_FLIGHT,
        v.phase == UploadPhase::Completing || v.phase == UploadPhase::Done ==> forall|i: int|
            0 <= i < v.states.len() ==> #[trigger] v.states[i] == PartState::Uploaded,
        v.phase == UploadPhase::Completing || v.phase == UploadPhase::Done ==> forall|i: int|
            0 <= i < v.completed.len() ==> (#[trigger] v.completed[i]).part_number == i + 1,
{
    if v.phase == UploadPhase::Completing || v.phase == UploadPhase::Done {
        lemma_count_of_bounds(v.states, PartState::InFlight);
        assert forall|i: int| 0 <= i < v.states.len() implies #[trigger] v.states[i]
            == PartState::Uploaded by {
            assert(v.states[i] != PartState::Pending);
            assert(v.states[i] != PartState::InFlight);
            assert(v.states[i] != PartState::Failed);
        }
    }
}

/// While parts are uploaded, the upload waits for the end of at least one of
/// them: it cannot come to a halt with parts left.
pub proof fn lemma_upload_awaits_a_part(v: UploadView)
    requires
        is_valid_upload(v),
        v.phase == UploadPhase::UploadingParts,
    ensures
        exists|part_number: u32| #[trigger] awaits_part(v, part_number),
{
    lemma_count_of_bounds(v.states, PartState::InFlight);
    let i = choose|i: int| 0 <= i < v.states.len() && #[trigger] v.states[i] == PartState::InFlight;
    assert(awaits_part(v, (i + 1) as u32));
}

/// An upload that is done or has failed stays as it is: whatever is reported
/// to it is out of turn.
pub proof fn lemma_ended_upload_stays(
    v: UploadView,
    status: u16,
    body: Seq<char>,
    part_number: u32,
    outcome: Result<Seq<char>, UploadError>,
)
    requires
        v.phase == UploadPhase::Done || v.phase == UploadPhase::Failed,
    ensures
        after_initiate(v, status, body) == (v, UploadActionView::Failed(UploadError::OutOfTurn)),
        after_part(v, part_number, outcome) == (
            v,
            UploadActionView::Failed(UploadError::OutOfTurn),
        ),
        after_complete(v, status) == (v, UploadActionView::Failed(UploadError::OutOfTurn)),
        after_transport_failure(v) == (v, UploadActionView::Failed(UploadError::OutOfTurn)),
{
}

/// Changing the state of one part changes each count by that part alone.
pub proof fn lemma_count_of_update(
    states: Seq<PartState>,
    i: int,
    new_state: PartState,
    state: PartState,
)
    requires
        0 <= i < states.len(),
    ensures
        count_of(states.update(i, new_state), state) + (if states[i] == state {
            1nat
        } else {
            0nat
        }) == count_of(states, state) + (if new_state == state {
            1nat
        } else {
            0nat
        }),
    decreases states.len(),
{
    let changed = states.update(i, new_state);
    if i == states.len() - 1 {
        assert(changed.drop_last() =~= states.drop_last());
    } else {
        assert(changed.drop_last() =~= states.drop_last().update(i, new_state));
        lemma_count_of_update(states.drop_last(), i, new_state, state);
    }
}

/// A count is zero exactly when no part is in that state, and never more than
/// the number of parts.
pub proof fn lemma_count_of_bounds(states: Seq<PartState>, state: PartState)
    ensures
        count_of(states, state) <= states.len(),
        count_of(states, state) == 0 <==> forall|i: int|
            0 <= i < states.len() ==> #[trigger] states[i] != state,
    decreases states.len(),
{
    if states.len() > 0 {
        let rest = states.drop_last();
        lemma_count_of_bounds(rest, state);
        if count_of(states, state) == 0 {
            assert forall|i: int| 0 <= i < states.len() implies #[trigger] states[i] != state by {
                if i < rest.len() {
                    assert(rest[i] == states[i]);
                }
            }
        }
        if forall|i: int| 0 <= i < states.len() ==> #[trigger] states[i] != state {
            assert(states[states.len() - 1] != state);
            assert forall|i: int| 0 <= i < rest.len() implies #[trigger] rest[i] != state by {
                assert(rest[i] == states[i]);
            }
        }
    }
}

} // verus!
