//! Aggregation: everything known about one image, gathered by four branches
//! that run side by side and fail apart.
//!
//! The branches are the image's manifest, its signature provenance, the
//! verification of its signature against a key, and its vulnerability scan.
//! Provenance waits for the manifest, whose digest it needs; verification is
//! left out where no key is given. The driver runs the branches and reports
//! each one's end; the aggregation keeps the outcomes and hands them out
//! together once all four are known.

use vstd::prelude::*;
use crate::cache::CachedEntry;
use crate::image::{parsed_image, reference_of_parts, trimmed, ImageReference};
use crate::manifest::{ContentDigest, ManifestResponse};
use crate::provenance::{digest_for_provenance, required_digest, Blocked, Cosign};
use crate::scan::ScanSummary;
use crate::verify::{verification_key, CosignVerify};

verus! {

/// The manifest of an image, with its fetch time.
pub type DockerInformation = CachedEntry<ManifestResponse>;

/// The signature provenance of an image, with its fetch time.
pub type CosignInformation = CachedEntry<Cosign>;

/// The scan summary of an image, with its fetch time.
pub type TrivyInformation = CachedEntry<ScanSummary>;

/// Why there is no provenance.
#[derive(Debug, PartialEq, Eq)]
pub enum ProvenanceFailure<E> {
    /// It was not looked up, for want of the manifest or its digest.
    Blocked(Blocked),
    /// Looking it up failed.
    Failed(E),
}

/// What the orchestrator reports: how each of the four branches ended.
#[derive(Debug)]
pub struct ImageResponse<E> {
    pub image: ImageReference,
    pub docker_information: Result<DockerInformation, E>,
    pub cosign_information: Result<CosignInformation, ProvenanceFailure<E>>,
    /// `None` where no key was given.
    pub cosign_verify: Option<Result<CosignVerify, E>>,
    pub trivy_information: Result<TrivyInformation, E>,
}

/// The end of one branch, as the driver reports it.
#[derive(Debug)]
pub enum BranchEvent<E> {
    Manifest(Result<DockerInformation, E>),
    Provenance(Result<CosignInformation, E>),
    Verification(Result<CosignVerify, E>),
    Scan(Result<TrivyInformation, E>),
}

/// What the driver is to do after reporting an event.
#[derive(Debug, PartialEq, Eq)]
pub enum Directive {
    /// Go on waiting for the branches that still run.
    Wait,
    /// Start the provenance branch, with this digest of the image's manifest.
    FetchProvenance(ContentDigest),
    /// All four branches have ended: take the response.
    Complete,
}

/// Which branches the driver starts at once. The manifest and the scan always
/// run; verification runs where a key is given.
#[derive(Debug, PartialEq, Eq)]
pub struct Plan {
    pub verify_with: Option<String>,
}

/// The outcomes gathered so far. A branch that has not ended has none.
#[derive(Debug)]
pub struct Aggregation<E> {
    pub image: ImageReference,
    pub manifest: Option<Result<DockerInformation, E>>,
    pub provenance: Option<Result<CosignInformation, ProvenanceFailure<E>>>,
    /// `Some(None)` where verification is left out.
    pub verification: Option<Option<Result<CosignVerify, E>>>,
    pub scan: Option<Result<TrivyInformation, E>>,
}

/// Whether all four branches have ended.
pub open spec fn is_complete<E>(state: Aggregation<E>) -> bool {
    state.manifest is Some && state.provenance is Some && state.verification is Some
        && state.scan is Some
}

/// Whether the provenance branch runs: the manifest has come with its digest,
/// and provenance has not ended.
pub open spec fn awaits_provenance<E>(state: Aggregation<E>) -> bool {
    state.provenance is None && state.manifest is Some && required_digest(
        state.manifest->Some_0,
    ) is Ok
}

/// The outcomes after an event. The end of a branch is recorded once; an event
/// for a branch that has ended, or for provenance while it does not run, changes
/// nothing. The end of the manifest branch also ends provenance where it cannot
/// run. No event touches the outcome of another branch.
pub open spec fn after_event<E>(state: Aggregation<E>, event: BranchEvent<E>) -> Aggregation<E> {
    match event {
        BranchEvent::Manifest(outcome) => if state.manifest is Some {
            state
        } else {
            Aggregation {
                manifest: Some(outcome),
                provenance: match (state.provenance, required_digest(outcome)) {
                    (None, Err(blocked)) => Some(Err(ProvenanceFailure::Blocked(blocked))),
                    (provenance, _) => provenance,
                },
                ..state
            }
        },
        BranchEvent::Provenance(outcome) => if awaits_provenance(state) {
            Aggregation {
                provenance: Some(
                    match outcome {
                        Ok(information) => Ok(information),
                        Err(cause) => Err(ProvenanceFailure::Failed(cause)),
                    },
                ),
                ..state
            }
        } else {
            state
        },
        BranchEvent::Verification(outcome) => if state.verification is Some {
            state
        } else {
            Aggregation { verification: Some(Some(outcome)), ..state }
        },
        BranchEvent::Scan(outcome) => if state.scan is Some {
            state
        } else {
            Aggregation { scan: Some(outcome), ..state }
        },
    }
}

/// What the driver is to do after an event: start provenance where the event
/// brought the manifest's digest, take the response where all branches have
/// ended, and wait otherwise.
pub open spec fn directive_after<E>(state: Aggregation<E>, event: BranchEvent<E>) -> Directive {
    let after = after_event(state, event);
    if event is Manifest && state.manifest is None && awaits_provenance(after) {
        Directive::FetchProvenance(required_digest(after.manifest->Some_0)->Ok_0)
    } else if is_complete(after) {
        Directive::Complete
    } else {
        Directive::Wait
    }
}

impl<E> Aggregation<E> {
    /// Begins the aggregation for an image. An empty key means that nothing is
    /// to be verified.
    pub fn start(image: ImageReference, cosign_key: String) -> (r: (Aggregation<E>, Plan))
        ensures
            r.0.image == image,
            r.0.manifest is None,
            r.0.provenance is None,
            r.0.scan is None,
            cosign_key@.len() == 0 ==> r.0.verification == Some(None::<Result<CosignVerify, E>>)
                && r.1.verify_with is None,
            cosign_key@.len() != 0 ==> r.0.verification is None && r.1.verify_with == Some(
                cosign_key,
            ),
    {
        let verify_with = verification_key(cosign_key);
        let verification = if verify_with.is_none() {
            Some(None)
        } else {
            None
        };
        (
            Aggregation { image, manifest: None, provenance: None, verification, scan: None },
            Plan { verify_with },
        )
    }

    /// Begins the aggregation for what a user submitted: the text of an image
    /// reference and a key. `None` where the text is no image reference.
    pub fn for_form(image: &str, cosign_key: String) -> (r: Option<(Aggregation<E>, Plan)>)
        ensures
            r is Some <==> parsed_image(trimmed(image@)) is Some,
            r matches Some(begun) ==> {
                &&& begun.0.image@ == reference_of_parts(parsed_image(trimmed(image@))->Some_0)
                &&& begun.0.manifest is None
                &&& begun.0.provenance is None
                &&& begun.0.scan is None
                &&& cosign_key@.len() == 0 ==> begun.0.verification == Some(
                    None::<Result<CosignVerify, E>>,
                ) && begun.1.verify_with is None
                &&& cosign_key@.len() != 0 ==> begun.0.verification is None
                    && begun.1.verify_with == Some(cosign_key)
            },
    {
        match ImageReference::parse(image) {
            Some(reference) => Some(Aggregation::start(reference, cosign_key)),
            None => None,
        }
    }

    /// Whether all four branches have ended.
    pub fn complete(&self) -> (r: bool)
        ensures
            r == is_complete(*self),
    {
        self.manifest.is_some() && self.provenance.is_some() && self.verification.is_some()
            && self.scan.is_some()
    }

    /// Records the end of a branch and tells the driver what to do next.
    pub fn on_event(self, event: BranchEvent<E>) -> (r: (Aggregation<E>, Directive))
        ensures
            r.0 == after_event(self, event),
            r.1 == directive_after(self, event),
    {
        let mut state = self;
        let mut digest: Option<ContentDigest> = None;
        match event {
            BranchEvent::Manifest(outcome) => {
                if state.manifest.is_none() {
                    if state.provenance.is_none() {
                        match digest_for_provenance(&outcome) {
                            Ok(found) => {
                                digest = Some(ContentDigest(found.0.clone()));
                            },
                            Err(blocked) => {
                                state.provenance = Some(Err(ProvenanceFailure::Blocked(blocked)));
                            },
                        }
                    }
                    state.manifest = Some(outcome);
                }
            },
            BranchEvent::Provenance(outcome) => {
                let awaited = state.provenance.is_none() && match &state.manifest {
                    Some(manifest) => digest_for_provenance(manifest).is_ok(),
                    None => false,
                };
                if awaited {
                    state.provenance = Some(
                        match outcome {
                            Ok(information) => Ok(information),
                            Err(cause) => Err(ProvenanceFailure::Failed(cause)),
                        },
                    );
                }
            },
            BranchEvent::Verification(outcome) => {
                if state.verification.is_none() {
                    state.verification = Some(Some(outcome));
                }
            },
            BranchEvent::Scan(outcome) => {
                if state.scan.is_none() {
                    state.scan = Some(outcome);
                }
            },
        }
        let directive = match digest {
            Some(digest) => Directive::FetchProvenance(digest),
            None => if state.complete() {
                Directive::Complete
            } else {
                Directive::Wait
            },
        };
        (state, directive)
    }

    /// Hands out the response once all four branches have ended; until then,
    /// hands the aggregation back.
    pub fn finish(self) -> (r: Result<ImageResponse<E>, Aggregation<E>>)
        ensures
            match r {
                Ok(response) => {
                    &&& is_complete(self)
                    &&& response.image == self.image
                    &&& self.manifest == Some(response.docker_information)
                    &&& self.provenance == Some(response.cosign_information)
                    &&& self.verification == Some(response.cosign_verify)
                    &&& self.scan == Some(response.trivy_information)
                },
                Err(state) => !is_complete(self) && state == self,
            },
    {
        match (self.manifest, self.provenance, self.verification, self.scan) {
            (
                Some(docker_information),
                Some(cosign_information),
                Some(cosign_verify),
                Some(trivy_information),
            ) => Ok(
                ImageResponse {
                    image: self.image,
                    docker_information,
                    cosign_information,
                    cosign_verify,
                    trivy_information,
                },
            ),
            (manifest, provenance, verification, scan) => Err(
                Aggregation { image: self.image, manifest, provenance, verification, scan },
            ),
        }
    }
}

/// The branches fail apart: an event changes the outcome of its own branch
/// only, but for the manifest's, which may end provenance too. In particular,
/// the scan's outcome is recorded as reported whatever became of the manifest.
pub proof fn lemma_branches_independent<E>(state: Aggregation<E>, event: BranchEvent<E>)
    ensures
        after_event(state, event).image == state.image,
        !(event is Manifest) ==> after_event(state, event).manifest == state.manifest,
        !(event is Manifest) && !(event is Provenance) ==> after_event(state, event).provenance
            == state.provenance,
        !(event is Verification) ==> after_event(state, event).verification == state.verification,
        !(event is Scan) ==> after_event(state, event).scan == state.scan,
        event is Scan && state.scan is None ==> after_event(state, event).scan == Some(
            event->Scan_0,
        ),
        event is Manifest && state.manifest is None ==> after_event(state, event).manifest == Some(
            event->Manifest_0,
        ),
{
}

/// An outcome, once recorded, stays: no later event changes or removes it.
pub proof fn lemma_outcomes_stay<E>(state: Aggregation<E>, event: BranchEvent<E>)
    ensures
        state.manifest is Some ==> after_event(state, event).manifest == state.manifest,
        state.provenance is Some ==> after_event(state, event).provenance == state.provenance,
        state.verification is Some ==> after_event(state, event).verification
            == state.verification,
        state.scan is Some ==> after_event(state, event).scan == state.scan,
        is_complete(state) ==> after_event(state, event) == state,
{
}

/// Provenance depends on the manifest: where the manifest could not be fetched
/// or came without a digest, provenance ends with that reason at once and no
/// lookup is started; where it came with its digest, the lookup is started with
/// that digest.
pub proof fn lemma_provenance_needs_digest<E>(state: Aggregation<E>, outcome: Result<DockerInformation, E>)
    requires
        state.manifest is None,
        state.provenance is None,
    ensures
        required_digest(outcome) matches Err(blocked) ==> after_event(
            state,
            BranchEvent::Manifest(outcome),
        ).provenance == Some(
            Err::<CosignInformation, ProvenanceFailure<E>>(ProvenanceFailure::Blocked(blocked)),
        ) && !(directive_after(state, BranchEvent::Manifest(outcome)) is FetchProvenance),
        required_digest(outcome) matches Ok(digest) ==> directive_after(
            state,
            BranchEvent::Manifest(outcome),
        ) == Directive::FetchProvenance(digest),
{
}

} // verus!
