//! The policy for a release that the index does not know: rebuild the
//! index once and look again; a second miss is final.
//!
//! Scanning the root directory is the caller's part. This module decides,
//! for each lookup, what the caller is to do next.

use crate::error::{Error, Kind};
use crate::index::{answer, Index, Installed};
use crate::version::{rendered, Version, VersionView};
use vstd::prelude::*;

verus! {

/// Which lookup this is.
#[derive(Debug, Clone, Copy, PartialEq, Eq, Structural)]
pub enum Attempt {
    /// The first lookup, in the index as it stands.
    First,
    /// The lookup after the index was rebuilt.
    AfterRebuild,
}

/// What the caller is to do after a lookup.
#[derive(Debug, Clone, PartialEq, Eq)]
pub enum Step {
    /// Use the installation in this directory.
    Found(String),
    /// Rebuild the index from the root directory and look up once more,
    /// as the attempt given here.
    Rebuild(Attempt),
    /// Give up with this failure.
    Missing(Error),
}

/// What a [`Step`] stands for.
pub enum StepView {
    Found(Seq<char>),
    Rebuild(Attempt),
    Missing(Seq<char>),
}

impl View for Step {
    type V = StepView;

    open spec fn view(&self) -> StepView {
        match self {
            Step::Found(path) => StepView::Found(path@),
            Step::Rebuild(next) => StepView::Rebuild(*next),
            Step::Missing(e) => StepView::Missing(e.message@),
        }
    }
}

/// The message of the failure to find `request` after the rebuild.
pub open spec fn missing_message(request: VersionView) -> Seq<char> {
    "Proton "@ + rendered(request) + " does not exist"@
}

/// The step after a lookup of `request` in `e`: where the index answers,
/// the answer; where it does not, a rebuild after the first lookup and the
/// failure after the second.
pub open spec fn step_of(e: Seq<Installed>, request: VersionView, attempt: Attempt) -> StepView {
    match answer(e, request) {
        Some(path) => StepView::Found(path),
        None => match attempt {
            Attempt::First => StepView::Rebuild(Attempt::AfterRebuild),
            Attempt::AfterRebuild => StepView::Missing(missing_message(request)),
        },
    }
}

/// How a caller fares who looks `request` up in `before`, rebuilds where
/// told to, and then looks it up in `after` as the attempt that the step
/// gave: the number of rebuilds, and the step that the caller ends with.
pub open spec fn outcome(before: Seq<Installed>, after: Seq<Installed>, request: VersionView) -> (
    nat,
    StepView,
) {
    match step_of(before, request, Attempt::First) {
        StepView::Rebuild(next) => match step_of(after, request, next) {
            StepView::Rebuild(_) => (2, StepView::Rebuild(next)),
            last => (1, last),
        },
        first => (0, first),
    }
}

/// A request that the index answers costs no rebuild. One that it does not
/// answer costs exactly one: the retry takes what the rebuilt index
/// answers, or fails, and never asks for another rebuild.
pub proof fn lemma_rebuilds_once_at_most(
    before: Seq<Installed>,
    after: Seq<Installed>,
    request: VersionView,
)
    ensures
        outcome(before, after, request).0 == if answer(before, request) is None {
            1nat
        } else {
            0nat
        },
        !(outcome(before, after, request).1 is Rebuild),
        outcome(before, after, request).1 == match answer(before, request) {
            Some(path) => StepView::Found(path),
            None => match answer(after, request) {
                Some(path) => StepView::Found(path),
                None => StepView::Missing(missing_message(request)),
            },
        },
{
}

/// A rebuild is asked for after the first lookup only, and the lookup
/// after it is the last.
pub proof fn lemma_rebuild_only_at_first(e: Seq<Installed>, request: VersionView, attempt: Attempt)
    ensures
        step_of(e, request, attempt) matches StepView::Rebuild(next) ==> attempt == Attempt::First
            && next == Attempt::AfterRebuild,
        !(step_of(e, request, Attempt::AfterRebuild) is Rebuild),
{
}

/// Looks `version` up in `index` and says what to do next.
pub fn resolve(index: &Index, version: &Version, attempt: Attempt) -> (step: Step)
    requires
        index.wf(),
    ensures
        step@ == step_of(index@, version@, attempt),
        step matches Step::Missing(e) ==> e.kind == Kind::ProtonMissing,
{
    match index.get(version) {
        Some(path) => Step::Found(path),
        None => match attempt {
            Attempt::First => Step::Rebuild(Attempt::AfterRebuild),
            Attempt::AfterRebuild => {
                let mut message = String::from_str("Proton ");
                message.append(version.text().as_str());
                message.append(" does not exist");
                Step::Missing(Error::new(Kind::ProtonMissing, message))
            },
        },
    }
}

} // verus!
