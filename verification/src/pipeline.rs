//! The steps of one frame, from the raw image to the marked position.
//!
//! The pipeline does none of the image work itself. It tells its caller which
//! step comes next and with which parameters, takes what the step produced,
//! and decides what follows: which regions are blobs, which pairs are
//! accepted, which pair is selected and where its position lies. The stages
//! it shows depend on how far the frame has come, never on what was found.

use vstd::prelude::*;
use crate::blob::{remove_blobs, BlobbingRet, LabelStats, Point};
use crate::error::DegenerateInputError;
use crate::pairing::{
    accepted, accepted_pairs, aggregates, best_candidate, final_position, is_first_maximum,
    midpoint, pair_views, CandidatePair,
};
use crate::params::{ParametersView, TunableParameters};

verus! {

/// One of the two tracked markers.
#[derive(Clone, Copy, Debug, PartialEq, Eq, Structural)]
pub enum Marker {
    First,
    Second,
}

/// A stage of the pipeline whose images are shown.
#[derive(Clone, Copy, Debug, PartialEq, Eq, Structural)]
pub enum Stage {
    Flipped,
    HsvFilter,
    Closing,
    Blobbing,
    Result,
}

/// Where a frame stands: the step that is due.
#[derive(Clone, Copy, Debug, PartialEq, Eq, Structural)]
pub enum Phase {
    Flip,
    Convert,
    Segment(Marker),
    Close(Marker),
    Label(Marker),
    Annotate,
    Done,
}

/// A step for the caller to carry out.
#[derive(Clone, Copy, Debug, PartialEq, Eq, Structural)]
pub enum Request {
    /// Mirror the raw frame.
    Flip,
    /// Convert the mirrored frame to the colour space of the marker ranges.
    ConvertToHsv,
    /// Cut the mask of a marker out of the converted frame.
    Segment { marker: Marker },
    /// Close the mask of a marker.
    Close { marker: Marker, kernel_size: i32, iterations: i32 },
    /// Label the connected regions of the closed mask of a marker and
    /// measure them.
    Label { marker: Marker },
    /// Draw the accepted pairs and the position onto the result image.
    Annotate,
    /// Nothing is left to do for this frame.
    Finished,
}

/// What the caller reports of the step it was asked for.
pub enum Event {
    /// The step is done.
    Completed,
    /// The regions are labelled; these are their measurements, the
    /// background's first.
    Labelled(Vec<LabelStats>),
    /// The step failed.
    Failed,
}

/// Why a frame was given up, or an event refused.
#[derive(Clone, Copy, Debug, PartialEq, Eq, Structural)]
pub enum FrameError {
    /// A pair of blobs has no score.
    Degenerate(DegenerateInputError),
    /// A step failed in the caller's hands.
    Upstream,
    /// The event does not answer the step that is due.
    OutOfTurn,
}

/// The phase that follows `phase`.
pub open spec fn next_phase(phase: Phase) -> Phase {
    match phase {
        Phase::Flip => Phase::Convert,
        Phase::Convert => Phase::Segment(Marker::First),
        Phase::Segment(Marker::First) => Phase::Segment(Marker::Second),
        Phase::Segment(Marker::Second) => Phase::Close(Marker::First),
        Phase::Close(Marker::First) => Phase::Close(Marker::Second),
        Phase::Close(Marker::Second) => Phase::Label(Marker::First),
        Phase::Label(Marker::First) => Phase::Label(Marker::Second),
        Phase::Label(Marker::Second) => Phase::Annotate,
        Phase::Annotate => Phase::Done,
        Phase::Done => Phase::Done,
    }
}

/// The stages in the order in which the pipeline completes them.
pub open spec fn stage_order() -> Seq<Stage> {
    seq![Stage::Flipped, Stage::HsvFilter, Stage::Closing, Stage::Blobbing, Stage::Result]
}

/// How many stages are complete when `phase` is due.
pub open spec fn stages_complete(phase: Phase) -> nat {
    match phase {
        Phase::Flip => 0,
        Phase::Convert => 1,
        Phase::Segment(_) => 1,
        Phase::Close(_) => 2,
        Phase::Label(_) => 3,
        Phase::Annotate => 4,
        Phase::Done => 5,
    }
}

/// The stages to show when `phase` is due: those that are complete, in the
/// order of the pipeline.
pub open spec fn stages_shown(phase: Phase) -> Seq<Stage> {
    stage_order().take(stages_complete(phase) as int)
}

/// The name under which a stage is shown.
pub open spec fn stage_label(stage: Stage) -> Seq<char> {
    match stage {
        Stage::Flipped => "Flipped"@,
        Stage::HsvFilter => "HSV Filter"@,
        Stage::Closing => "Closing"@,
        Stage::Blobbing => "Blobbing"@,
        Stage::Result => "Result"@,
    }
}

/// How many images a stage shows: one for the whole frame, two where each
/// marker has its own.
pub open spec fn stage_image_count(stage: Stage) -> nat {
    match stage {
        Stage::Flipped => 1,
        Stage::HsvFilter => 2,
        Stage::Closing => 2,
        Stage::Blobbing => 2,
        Stage::Result => 1,
    }
}

/// The name under which a stage is shown.
pub fn stage_name(stage: Stage) -> (r: &'static str)
    ensures
        r@ == stage_label(stage),
{
    match stage {
        Stage::Flipped => "Flipped",
        Stage::HsvFilter => "HSV Filter",
        Stage::Closing => "Closing",
        Stage::Blobbing => "Blobbing",
        Stage::Result => "Result",
    }
}

/// How many images a stage shows.
pub fn stage_images(stage: Stage) -> (r: usize)
    ensures
        r == stage_image_count(stage),
{
    match stage {
        Stage::Flipped | Stage::Result => 1,
        Stage::HsvFilter | Stage::Closing | Stage::Blobbing => 2,
    }
}

/// The state of one frame's processing.
pub struct FramePipeline {
    params: TunableParameters,
    phase: Phase,
    failure: Option<FrameError>,
    first: BlobbingRet,
    second: BlobbingRet,
    candidates: Vec<CandidatePair>,
}

impl FramePipeline {
    /// The parameters that the frame is processed with.
    pub closed spec fn parameters(self) -> ParametersView {
        self.params@
    }

    /// The step that is due.
    pub closed spec fn phase(self) -> Phase {
        self.phase
    }

    /// Why the frame was given up, if it was.
    pub closed spec fn failure(self) -> Option<FrameError> {
        self.failure
    }

    /// What is left of the labelled regions of a marker.
    pub closed spec fn remainder(self, marker: Marker) -> BlobbingRet {
        match marker {
            Marker::First => self.first,
            Marker::Second => self.second,
        }
    }

    /// The accepted pairs.
    pub closed spec fn candidates(self) -> Seq<CandidatePair> {
        self.candidates@
    }

    /// Whether the frame takes no more events: it is done or was given up.
    pub open spec fn is_over(self) -> bool {
        self.phase() == Phase::Done || self.failure() is Some
    }

    /// Whether nothing has been measured or paired yet.
    pub open spec fn is_blank(self) -> bool {
        &&& self.remainder(Marker::First).kept@.len() == 0
        &&& self.remainder(Marker::First).info@.len() == 0
        &&& self.remainder(Marker::Second).kept@.len() == 0
        &&& self.remainder(Marker::Second).info@.len() == 0
        &&& self.candidates().len() == 0
    }

    /// Whether `self` differs from `old` at most in the phase and the failure.
    pub open spec fn keeps_findings_of(self, old: FramePipeline) -> bool {
        &&& self.parameters() == old.parameters()
        &&& self.remainder(Marker::First) == old.remainder(Marker::First)
        &&& self.remainder(Marker::Second) == old.remainder(Marker::Second)
        &&& self.candidates() == old.candidates()
    }

    /// A frame at its first step, to be processed with `params`.
    pub fn new(params: TunableParameters) -> (r: FramePipeline)
        ensures
            r.parameters() == params@,
            r.phase() == Phase::Flip,
            r.failure() is None,
            r.is_blank(),
    {
        FramePipeline {
            params,
            phase: Phase::Flip,
            failure: None,
            first: BlobbingRet { kept: Vec::new(), info: Vec::new() },
            second: BlobbingRet { kept: Vec::new(), info: Vec::new() },
            candidates: Vec::new(),
        }
    }

    /// The step for the caller to carry out now.
    pub fn request(&self) -> (r: Request)
        ensures
            r == (if self.failure() is Some {
                Request::Finished
            } else {
                match self.phase() {
                    Phase::Flip => Request::Flip,
                    Phase::Convert => Request::ConvertToHsv,
                    Phase::Segment(marker) => Request::Segment { marker },
                    Phase::Close(marker) => Request::Close {
                        marker,
                        kernel_size: self.parameters().close_kernel_size as i32,
                        iterations: self.parameters().close_iterations as i32,
                    },
                    Phase::Label(marker) => Request::Label { marker },
                    Phase::Annotate => Request::Annotate,
                    Phase::Done => Request::Finished,
                }
            }),
    {
        if self.failure.is_some() {
            return Request::Finished;
        }
        match self.phase {
            Phase::Flip => Request::Flip,
            Phase::Convert => Request::ConvertToHsv,
            Phase::Segment(marker) => Request::Segment { marker },
            Phase::Close(marker) => Request::Close {
                marker,
                kernel_size: self.params.close_kernel_size(),
                iterations: self.params.close_iterations(),
            },
            Phase::Label(marker) => Request::Label { marker },
            Phase::Annotate => Request::Annotate,
            Phase::Done => Request::Finished,
        }
    }

    /// Takes the caller's report of the step that was due.
    ///
    /// A frame that is over, and a report that does not answer the step that
    /// is due, leave the frame as it is and are refused as out of turn. A
    /// failed step gives the frame up. A completed step moves the frame to the
    /// next one. The measurements of the first marker's regions are filtered
    /// into its blobs. Those of the second marker's are too, and then every
    /// pair is scored: the frame moves on with the accepted pairs, or is given
    /// up where a pair has no score.
    pub fn handle(&mut self, event: Event) -> (r: Result<(), FrameError>)
        ensures
            final(self).parameters() == old(self).parameters(),
            match (event, old(self).phase()) {
                _ if old(self).is_over() => {
                    &&& r == Err::<(), FrameError>(FrameError::OutOfTurn)
                    &&& final(self).phase() == old(self).phase()
                    &&& final(self).failure() == old(self).failure()
                    &&& final(self).keeps_findings_of(*old(self))
                },
                (Event::Failed, _) => {
                    &&& r == Err::<(), FrameError>(FrameError::Upstream)
                    &&& final(self).phase() == old(self).phase()
                    &&& final(self).failure() == Some(FrameError::Upstream)
                    &&& final(self).keeps_findings_of(*old(self))
                },
                (Event::Labelled(stats), Phase::Label(Marker::First)) => {
                    &&& r is Ok
                    &&& final(self).phase() == Phase::Label(Marker::Second)
                    &&& final(self).failure() is None
                    &&& final(self).remainder(Marker::First).is_remainder_of(
                        stats@,
                        old(self).parameters().min_blob_area,
                    )
                    &&& final(self).remainder(Marker::Second) == old(self).remainder(
                        Marker::Second,
                    )
                    &&& final(self).candidates() == old(self).candidates()
                },
                (Event::Labelled(stats), Phase::Label(Marker::Second)) => {
                    &&& final(self).remainder(Marker::First) == old(self).remainder(Marker::First)
                    &&& final(self).remainder(Marker::Second).is_remainder_of(
                        stats@,
                        old(self).parameters().min_blob_area,
                    )
                    &&& match accepted(
                        final(self).remainder(Marker::First).info@,
                        final(self).remainder(Marker::Second).info@,
                        old(self).parameters().component_weights,
                        old(self).parameters().similarity_cap,
                    ) {
                        Ok(found) => {
                            &&& r is Ok
                            &&& final(self).phase() == Phase::Annotate
                            &&& final(self).failure() is None
                            &&& pair_views(final(self).candidates()) == found
                        },
                        Err(e) => {
                            &&& r == Err::<(), FrameError>(FrameError::Degenerate(e))
                            &&& final(self).phase() == old(self).phase()
                            &&& final(self).failure() == Some(FrameError::Degenerate(e))
                            &&& final(self).candidates() == old(self).candidates()
                        },
                    }
                },
                (Event::Completed, Phase::Label(_)) | (Event::Labelled(_), _) => {
                    &&& r == Err::<(), FrameError>(FrameError::OutOfTurn)
                    &&& final(self).phase() == old(self).phase()
                    &&& final(self).failure() == old(self).failure()
                    &&& final(self).keeps_findings_of(*old(self))
                },
                (Event::Completed, phase) => {
                    &&& r is Ok
                    &&& final(self).phase() == next_phase(phase)
                    &&& final(self).failure() is None
                    &&& final(self).keeps_findings_of(*old(self))
                },
            },
    {
        if self.failure.is_some() {
            return Err(FrameError::OutOfTurn);
        }
        match self.phase {
            Phase::Done => {
                return Err(FrameError::OutOfTurn);
            },
            _ => {},
        }
        match event {
            Event::Failed => {
                self.failure = Some(FrameError::Upstream);
                Err(FrameError::Upstream)
            },
            Event::Labelled(stats) => {
                match self.phase {
                    Phase::Label(Marker::First) => {
                        self.first = remove_blobs(&stats, self.params.min_blob_area());
                        self.phase = Phase::Label(Marker::Second);
                        Ok(())
                    },
                    Phase::Label(Marker::Second) => {
                        self.second = remove_blobs(&stats, self.params.min_blob_area());
                        match accepted_pairs(&self.first.info, &self.second.info, &self.params) {
                            Ok(found) => {
                                self.candidates = found;
                                self.phase = Phase::Annotate;
                                Ok(())
                            },
                            Err(e) => {
                                self.failure = Some(FrameError::Degenerate(e));
                                Err(FrameError::Degenerate(e))
                            },
                        }
                    },
                    _ => Err(FrameError::OutOfTurn),
                }
            },
            Event::Completed => {
                let next = match self.phase {
                    Phase::Flip => Phase::Convert,
                    Phase::Convert => Phase::Segment(Marker::First),
                    Phase::Segment(Marker::First) => Phase::Segment(Marker::Second),
                    Phase::Segment(Marker::Second) => Phase::Close(Marker::First),
                    Phase::Close(Marker::First) => Phase::Close(Marker::Second),
                    Phase::Close(Marker::Second) => Phase::Label(Marker::First),
                    Phase::Label(_) => {
                        return Err(FrameError::OutOfTurn);
                    },
                    Phase::Annotate => Phase::Done,
                    Phase::Done => Phase::Done,
                };
                self.phase = next;
                Ok(())
            },
        }
    }

    /// The stages to show, in the order in which the pipeline completes them.
    pub fn get_steps(&self) -> (r: Vec<Stage>)
        ensures
            r@ == stages_shown(self.phase()),
    {
        let mut shown: Vec<Stage> = Vec::new();
        let complete: usize = match self.phase {
            Phase::Flip => 0,
            Phase::Convert | Phase::Segment(_) => 1,
            Phase::Close(_) => 2,
            Phase::Label(_) => 3,
            Phase::Annotate => 4,
            Phase::Done => 5,
        };
        if complete >= 1 {
            shown.push(Stage::Flipped);
        }
        if complete >= 2 {
            shown.push(Stage::HsvFilter);
        }
        if complete >= 3 {
            shown.push(Stage::Closing);
        }
        if complete >= 4 {
            shown.push(Stage::Blobbing);
        }
        if complete >= 5 {
            shown.push(Stage::Result);
        }
        assert(shown@ =~= stages_shown(self.phase()));
        shown
    }

    /// The parameters that the frame is processed with.
    pub fn params(&self) -> (r: &TunableParameters)
        ensures
            r@ == self.parameters(),
    {
        &self.params
    }

    /// What is left of the labelled regions of a marker.
    pub fn blobs(&self, marker: Marker) -> (r: &BlobbingRet)
        ensures
            *r == self.remainder(marker),
    {
        match marker {
            Marker::First => &self.first,
            Marker::Second => &self.second,
        }
    }

    /// The accepted pairs, in the order in which they were tried.
    pub fn accepted_pairs(&self) -> (r: &Vec<CandidatePair>)
        ensures
            r@ == self.candidates(),
    {
        &self.candidates
    }

    /// The position of the selected pair among the accepted pairs: that of
    /// the greatest score, the first of several.
    pub fn selected(&self) -> (r: Option<usize>)
        ensures
            r is None <==> self.candidates().len() == 0,
            r matches Some(i) ==> is_first_maximum(
                aggregates(pair_views(self.candidates())),
                i as int,
            ),
    {
        best_candidate(&self.candidates)
    }

    /// The position that the frame resolves to: the point midway between the
    /// centroids of the selected pair. There is none where no pair was
    /// accepted.
    pub fn position(&self) -> (r: Option<Point>)
        ensures
            r is None <==> self.candidates().len() == 0,
            r matches Some(p) ==> exists|i: int|
                {
                    &&& is_first_maximum(aggregates(pair_views(self.candidates())), i)
                    &&& p == midpoint(
                        (#[trigger] self.candidates()[i]).lower.centroid,
                        self.candidates()[i].upper.centroid,
                    )
                },
    {
        match best_candidate(&self.candidates) {
            None => None,
            Some(i) => {
                let pair = &self.candidates[i];
                assert(self.candidates()[i as int] == *pair);
                Some(final_position(&pair.lower, &pair.upper))
            },
        }
    }
}

/// The stages that are shown are always the first so many of the fixed stage
/// order, and are all of them when the frame is done. How many are shown
/// depends on the phase alone, so the order of the stages is the same
/// whatever was found in a frame.
pub proof fn lemma_stages_follow_pipeline_order(phase: Phase)
    ensures
        stages_shown(phase).len() == stages_complete(phase),
        forall|i: int|
            0 <= i < stages_shown(phase).len() ==> stages_shown(phase)[i] == stage_order()[i],
        stages_shown(Phase::Done) == stage_order(),
        stages_complete(phase) <= stages_complete(next_phase(phase)),
{
    assert(stages_shown(Phase::Done) =~= stage_order());
}

/// The phase that is due after `steps` steps have been completed.
pub open spec fn phase_after(steps: nat) -> Phase
    decreases steps,
{
    if steps == 0 {
        Phase::Flip
    } else {
        next_phase(phase_after((steps - 1) as nat))
    }
}

/// A frame is done when nine steps are completed, and not before.
pub proof fn lemma_nine_steps_complete_a_frame(steps: nat)
    ensures
        phase_after(steps) == Phase::Done <==> steps >= 9,
    decreases steps,
{
    reveal_with_fuel(phase_after, 10);
    if steps > 9 {
        lemma_nine_steps_complete_a_frame((steps - 1) as nat);
    }
}

} // verus!
