//! The sources of steps: each step names one copy of the artifact and the
//! three addresses under which the two edges and the origin serve it.

use vstd::prelude::*;

verus! {

/// A source of steps, walked forward one step at a time.
///
/// A source stands on at most one step: the one that `next_step` produced
/// last. The three addresses are those of that step.
pub trait Command {
    /// The label of the step the source stands on.
    spec fn step_label(&self) -> Option<Seq<char>>;

    /// The address of that step's artifact at the Cloudfront edge.
    spec fn cloudfront_address(&self) -> Option<Seq<char>>;

    /// The address of that step's artifact at the Fastly edge.
    spec fn fastly_address(&self) -> Option<Seq<char>>;

    /// The address of that step's artifact at the origin store.
    spec fn s3_address(&self) -> Option<Seq<char>>;

    /// Whether the source, asked for its next step, may answer `step` and be
    /// left as `after`. A source whose steps are fixed beforehand allows one
    /// answer; one that consults the clock allows each answer the clock may
    /// lead to.
    spec fn steps_to(&self, step: Option<Seq<char>>, after: &Self) -> bool;

    /// Moves to the next step and returns its label, or `None` when the
    /// source has no further step.
    fn next_step(&mut self) -> (step: Option<String>)
        ensures
            old(self).steps_to(step.deep_view(), &*final(self)),
            step matches Some(label) ==> final(self).step_label() == Some(label@),
    ;

    /// The address at the Cloudfront edge, once the source stands on a step.
    fn cloudfront_url(&self) -> (url: Option<String>)
        ensures
            url.deep_view() == self.cloudfront_address(),
            url is Some <==> self.step_label() is Some,
    ;

    /// The address at the Fastly edge, once the source stands on a step.
    fn fastly_url(&self) -> (url: Option<String>)
        ensures
            url.deep_view() == self.fastly_address(),
            url is Some <==> self.step_label() is Some,
    ;

    /// The address at the origin store, once the source stands on a step.
    fn s3_url(&self) -> (url: Option<String>)
        ensures
            url.deep_view() == self.s3_address(),
            url is Some <==> self.step_label() is Some,
    ;
}

/// One copy of the artifact to probe: its label and its three addresses.
#[derive(Clone, Debug, PartialEq, Eq)]
pub struct Step {
    /// The date or version that names this copy. It is only ever reported.
    pub label: String,
    /// The address at the Fastly edge.
    pub fastly_url: String,
    /// The address at the Cloudfront edge.
    pub cloudfront_url: String,
    /// The address at the origin store.
    pub s3_url: String,
}

/// A step as plain text.
pub struct StepView {
    pub label: Seq<char>,
    pub fastly_url: Seq<char>,
    pub cloudfront_url: Seq<char>,
    pub s3_url: Seq<char>,
}

impl View for Step {
    type V = StepView;

    open spec fn view(&self) -> StepView {
        StepView {
            label: self.label@,
            fastly_url: self.fastly_url@,
            cloudfront_url: self.cloudfront_url@,
            s3_url: self.s3_url@,
        }
    }
}

/// The step a source stands on, if it stands on one.
pub open spec fn standing_step<C: Command>(source: &C) -> Option<StepView> {
    match (
        source.step_label(),
        source.fastly_address(),
        source.cloudfront_address(),
        source.s3_address(),
    ) {
        (Some(label), Some(fastly_url), Some(cloudfront_url), Some(s3_url)) => Some(
            StepView { label, fastly_url, cloudfront_url, s3_url },
        ),
        _ => None,
    }
}

/// The label of a step, if there is a step.
pub open spec fn label_of(step: Option<Step>) -> Option<Seq<char>> {
    match step {
        Some(step) => Some(step.label@),
        None => None,
    }
}

/// Moves `source` to its next step and gathers that step's label and
/// addresses, so that the three addresses always belong to the one label.
///
/// The source is asked once for its next step. Where it answers with a label,
/// the step returned holds that label and the addresses on which the source
/// then stands. Where it answers with none, `None` is returned.
pub fn draw_step<C: Command>(source: &mut C) -> (step: Option<Step>)
    ensures
        old(source).steps_to(label_of(step), &*final(source)),
        step matches Some(s) ==> standing_step(final(source)) == Some(s@),
{
    let label = match source.next_step() {
        Some(label) => label,
        None => return None,
    };
    let fastly_url = match source.fastly_url() {
        Some(url) => url,
        None => return None,
    };
    let cloudfront_url = match source.cloudfront_url() {
        Some(url) => url,
        None => return None,
    };
    let s3_url = match source.s3_url() {
        Some(url) => url,
        None => return None,
    };
    Some(Step { label, fastly_url, cloudfront_url, s3_url })
}

} // verus!
