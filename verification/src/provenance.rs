//! Signature provenance of an image: where its detached signature manifest
//! lies, and what becomes of the manifest source's answer for that place.

use vstd::prelude::*;
use crate::cache::CachedEntry;
use crate::image::{image_path, ImageReference, ImageView};
use crate::manifest::{ContentDigest, ManifestResponse, RegistryManifest};
use crate::ordered::{is_ascending, Keyed};
use crate::signature::{
    claim_before,
    claims_ascending,
    claims_of,
    is_derivation,
    manifest_layers,
    signature_from_manifest,
    Signature,
    SignatureError,
};
use crate::text::chars_of;

verus! {

/// `digest` with every `:` turned into `-`.
pub open spec fn dashed(digest: Seq<char>) -> Seq<char> {
    digest.map_values(
        |c: char|
            if c == ':' {
                '-'
            } else {
                c
            },
    )
}

/// The place of the detached signature manifest of an image: a tag on the
/// image's own path, made of the dashed digest and the suffix `.sig`.
pub open spec fn triangulated(image: ImageView, digest: Seq<char>) -> Seq<char> {
    image_path(image) + seq![':'] + dashed(digest) + seq!['.', 's', 'i', 'g']
}

/// Computes where the detached signature manifest of `image` lies, given the
/// content digest of the image's own manifest.
pub fn triangulate(image: &ImageReference, digest: &ContentDigest) -> (location: String)
    ensures
        location@ == triangulated(image@, digest@),
{
    let mut location = image.path();
    location.push(':');
    let ghost head = location@;
    let chars = chars_of(digest.0.as_str());
    let mut i: usize = 0;
    proof {
        assert(dashed(chars@.take(0)) =~= Seq::<char>::empty());
        assert(head + Seq::<char>::empty() =~= head);
    }
    while i < chars.len()
        invariant
            i <= chars.len(),
            location@ == head + dashed(chars@.take(i as int)),
        decreases chars.len() - i,
    {
        let c = chars[i];
        proof {
            assert(dashed(chars@.take(i + 1)) =~= dashed(chars@.take(i as int)).push(
                if c == ':' {
                    '-'
                } else {
                    c
                },
            ));
            assert(head + dashed(chars@.take(i as int)).push(
                if c == ':' {
                    '-'
                } else {
                    c
                },
            ) =~= (head + dashed(chars@.take(i as int))).push(
                if c == ':' {
                    '-'
                } else {
                    c
                },
            ));
        }
        if c == ':' {
            location.push('-');
        } else {
            location.push(c);
        }
        i += 1;
    }
    proof {
        assert(chars@.take(i as int) =~= chars@);
    }
    location.push('.');
    location.push('s');
    location.push('i');
    location.push('g');
    proof {
        assert(location@ =~= triangulated(image@, digest@));
    }
    location
}

/// Triangulation depends on nothing but the reference and the digest: two
/// calls on equal inputs give the same location.
pub proof fn lemma_triangulate_deterministic(
    first: ImageReference,
    first_digest: ContentDigest,
    second: ImageReference,
    second_digest: ContentDigest,
)
    requires
        first@ == second@,
        first_digest@ == second_digest@,
    ensures
        triangulated(first@, first_digest@) == triangulated(second@, second_digest@),
{
}

/// The location tells digests apart: two digests of one image that differ
/// otherwise than by a `:` in place of a `-` have different locations. So do
/// any two different digests that hold no `-`, as two different sha256 digests.
pub proof fn lemma_digests_told_apart(image: ImageView, first: Seq<char>, second: Seq<char>)
    ensures
        triangulated(image, first) == triangulated(image, second) ==> dashed(first) == dashed(
            second,
        ),
        !first.contains('-') && !second.contains('-') && first != second ==> triangulated(
            image,
            first,
        ) != triangulated(image, second),
{
    let head = image_path(image) + seq![':'];
    let tail = seq!['.', 's', 'i', 'g'];
    let one = triangulated(image, first);
    let other = triangulated(image, second);
    if one == other {
        assert(one.len() == head.len() + dashed(first).len() + tail.len());
        assert(other.len() == head.len() + dashed(second).len() + tail.len());
        assert forall|i: int| 0 <= i < dashed(first).len() implies dashed(first)[i] == dashed(
            second,
        )[i] by {
            assert(one[head.len() + i] == dashed(first)[i]);
            assert(other[head.len() + i] == dashed(second)[i]);
        }
        assert(dashed(first) =~= dashed(second));
        if !first.contains('-') && !second.contains('-') {
            assert forall|i: int| 0 <= i < first.len() implies first[i] == second[i] by {
                assert(dashed(first)[i] == dashed(second)[i]);
                assert(first.contains(first[i]));
                assert(second.contains(second[i]));
            }
            assert(first =~= second);
        }
    }
}

/// The signature provenance of an image: where its signature manifest lies,
/// and the claims found there. An unsigned image has an empty list.
#[derive(Debug, Clone, PartialEq, Eq)]
pub struct Cosign {
    pub manifest_location: String,
    pub signatures: Vec<Signature>,
}

impl Cosign {
    /// Whether the provenance is in order: its signatures stand in strictly
    /// ascending order of issuer and identity, so that no claim comes twice.
    pub open spec fn well_formed(&self) -> bool {
        claims_ascending(claims_of(self.signatures@))
    }

    /// Checks that the provenance is in order. A provenance that was not made
    /// by `provenance_of_response`, such as one read back from a cache, is to
    /// pass this check before it is used.
    pub fn is_well_formed(&self) -> (r: bool)
        ensures
            r == self.well_formed(),
    {
        let r = is_ascending(&self.signatures);
        proof {
            let claims = claims_of(self.signatures@);
            if r {
                assert forall|i: int, j: int| 0 <= i < j < claims.len() implies claim_before(
                    #[trigger] claims[i],
                    #[trigger] claims[j],
                ) by {
                    assert(self.signatures@[i].before(&self.signatures@[j]));
                }
            }
            if claims_ascending(claims) {
                assert forall|i: int, j: int|
                    0 <= i < j < self.signatures@.len() implies #[trigger] self.signatures@[i].before(
                    &#[trigger] self.signatures@[j],
                ) by {
                    assert(claim_before(claims[i], claims[j]));
                }
            }
        }
        r
    }
}

/// Why a manifest source gave no manifest.
#[derive(Debug, Clone, PartialEq, Eq)]
pub enum ManifestFailure<E> {
    /// The source answered that there is no manifest at this place.
    NotFound,
    /// The source failed for any other reason.
    Other(E),
}

/// Why the provenance of an image could not be determined.
#[derive(Debug, Clone, PartialEq, Eq)]
pub enum ProvenanceError<E> {
    /// The manifest source failed, for a reason other than absence.
    Source(E),
    /// A signature manifest was served, but no signatures could be derived
    /// from it.
    Derivation(SignatureError),
}

/// Whether `outcome` is what is owed for the answer `response` of the manifest
/// source for the place `location`: an empty signature list where nothing is
/// there, the source's failure where it failed otherwise, and else what
/// signature derivation makes of the manifest that was served.
pub open spec fn is_provenance<E>(
    location: Seq<char>,
    response: Result<RegistryManifest, ManifestFailure<E>>,
    trim: bool,
    outcome: Result<Cosign, ProvenanceError<E>>,
) -> bool {
    match response {
        Err(ManifestFailure::NotFound) => outcome is Ok && outcome->Ok_0.manifest_location@
            == location && outcome->Ok_0.signatures@.len() == 0,
        Err(ManifestFailure::Other(cause)) => outcome == Err::<Cosign, ProvenanceError<E>>(
            ProvenanceError::Source(cause),
        ),
        Ok(manifest) => match outcome {
            Ok(cosign) => cosign.manifest_location@ == location && is_derivation(
                manifest_layers(manifest),
                trim,
                Ok(claims_of(cosign.signatures@)),
            ),
            Err(ProvenanceError::Derivation(error)) => is_derivation(
                manifest_layers(manifest),
                trim,
                Err(error),
            ),
            Err(ProvenanceError::Source(_)) => false,
        },
    }
}

/// Turns the manifest source's answer for the place `location` into the
/// provenance of the image. That nothing is there means that the image is
/// unsigned, which is a result and no failure.
pub fn provenance_of_response<E>(
    location: String,
    response: Result<RegistryManifest, ManifestFailure<E>>,
    trim: bool,
) -> (outcome: Result<Cosign, ProvenanceError<E>>)
    ensures
        is_provenance(location@, response, trim, outcome),
        outcome matches Ok(cosign) ==> cosign.well_formed(),
{
    match response {
        Err(ManifestFailure::NotFound) => {
            let signatures: Vec<Signature> = Vec::new();
            proof {
                assert(claims_of(signatures@) =~= Seq::empty());
            }
            Ok(Cosign { manifest_location: location, signatures })
        },
        Err(ManifestFailure::Other(cause)) => Err(ProvenanceError::Source(cause)),
        Ok(manifest) => {
            let derived = signature_from_manifest(&manifest, trim);
            match derived {
                Ok(signatures) => Ok(Cosign { manifest_location: location, signatures }),
                Err(error) => Err(ProvenanceError::Derivation(error)),
            }
        },
    }
}

/// Why the provenance of an image was not looked up at all.
#[derive(Debug, Clone, Copy, PartialEq, Eq, Structural)]
pub enum Blocked {
    /// The manifest of the image itself could not be fetched.
    ManifestUnavailable,
    /// The manifest of the image was fetched, but the registry stated no
    /// digest for it.
    MissingDigest,
}

/// Decides whether provenance can be looked up, given how fetching the image's
/// own manifest ended: only with the digest of a manifest that was fetched.
pub fn digest_for_provenance<E>(manifest: &Result<CachedEntry<ManifestResponse>, E>) -> (r: Result<
    &ContentDigest,
    Blocked,
>)
    ensures
        match r {
            Ok(digest) => required_digest(*manifest) == Ok::<ContentDigest, Blocked>(*digest),
            Err(blocked) => required_digest(*manifest) == Err::<ContentDigest, Blocked>(blocked),
        },
{
    match manifest {
        Err(_) => Err(Blocked::ManifestUnavailable),
        Ok(entry) => match &entry.value.digest {
            None => Err(Blocked::MissingDigest),
            Some(digest) => Ok(digest),
        },
    }
}

/// The digest that a provenance lookup needs, or why there is none.
pub open spec fn required_digest<E>(manifest: Result<CachedEntry<ManifestResponse>, E>) -> Result<
    ContentDigest,
    Blocked,
> {
    match manifest {
        Err(_) => Err(Blocked::ManifestUnavailable),
        Ok(entry) => match entry.value.digest {
            None => Err(Blocked::MissingDigest),
            Some(digest) => Ok(digest),
        },
    }
}

} // verus!
