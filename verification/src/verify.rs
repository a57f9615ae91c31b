//! Verification of an image's signature against a key that the caller
//! supplies: how the verifier is run, and what its answer means.

use vstd::prelude::*;
use vstd::string::StringExecFns;
use crate::command::{CommandError, CommandReport};
use crate::image::{canonical, ImageReference, ImageView};

verus! {

/// The image that a verified signature names.
#[derive(Debug, Clone, PartialEq, Eq, PartialOrd, Ord)]
pub struct Identity {
    pub docker_reference: String,
}

/// The manifest that a verified signature covers.
#[derive(Debug, Clone, PartialEq, Eq, PartialOrd, Ord)]
pub struct CosignImage {
    pub digest: String,
}

/// The signed part of a signature payload.
#[derive(Debug, Clone, PartialEq, Eq, PartialOrd, Ord)]
pub struct Critical {
    pub identity: Identity,
    pub image: CosignImage,
    pub cosign_type: String,
}

/// The unsigned part of a signature payload.
#[derive(Debug, Clone, PartialEq, Eq, PartialOrd, Ord)]
pub struct Optional {
    pub sig: String,
}

/// One signature that the verifier accepted.
#[derive(Debug, Clone, PartialEq, Eq, PartialOrd, Ord)]
pub struct VerifySignature {
    pub critical: Critical,
    pub optional: Option<Optional>,
}

/// What the verifier found: its message and the signatures it accepted.
#[derive(Debug, Clone, PartialEq, Eq, PartialOrd, Ord)]
pub struct CosignVerify {
    pub message: String,
    pub signatures: Vec<VerifySignature>,
}

/// The arguments of the verifier: verification on private infrastructure with
/// JSON output, the key, then the image.
pub open spec fn verifier_arguments(key: Seq<char>, image: ImageView) -> Seq<Seq<char>> {
    seq![
        "verify"@,
        "--private-infrastructure=true"@,
        "--output=json"@,
        "--key"@,
        key,
        canonical(image),
    ]
}

/// The arguments to run the verifier with.
pub fn verify_arguments(key: &str, image: &ImageReference) -> (arguments: Vec<String>)
    ensures
        arguments@.map_values(|a: String| a@) == verifier_arguments(key@, image@),
{
    let mut arguments: Vec<String> = Vec::new();
    arguments.push(String::from_str("verify"));
    arguments.push(String::from_str("--private-infrastructure=true"));
    arguments.push(String::from_str("--output=json"));
    arguments.push(String::from_str("--key"));
    arguments.push(String::from_str(key));
    arguments.push(image.canonical());
    proof {
        assert(arguments@.map_values(|a: String| a@) =~= verifier_arguments(key@, image@));
    }
    arguments
}

/// The key to verify with: the one supplied, unless it is empty. Without a key
/// there is no verification.
pub fn verification_key(key: String) -> (r: Option<String>)
    ensures
        r == if key@.len() == 0 {
            None
        } else {
            Some(key)
        },
{
    if key.as_str().is_empty() {
        None
    } else {
        Some(key)
    }
}

/// What a verifier run means, as a mathematical value.
pub open spec fn verdict<E>(report: CommandReport<Vec<VerifySignature>, E>) -> Result<
    CosignVerify,
    CommandError<E>,
> {
    match report.stderr {
        Err(cause) => Err(CommandError::Unreadable(cause)),
        Ok(message) => if !report.success {
            Err(CommandError::Rejected(message))
        } else {
            match report.parsed {
                Ok(signatures) => Ok(CosignVerify { message, signatures }),
                Err(cause) => Err(CommandError::Malformed(cause)),
            }
        },
    }
}

/// Judges how a verifier run ended: a run that the verifier reports as failed
/// fails with what it wrote to its error stream, and a run that succeeded gives
/// that text as the message, with the signatures that its output parses to.
pub fn verify_outcome<E>(report: CommandReport<Vec<VerifySignature>, E>) -> (r: Result<
    CosignVerify,
    CommandError<E>,
>)
    ensures
        r == verdict(report),
{
    let message = match report.stderr {
        Ok(message) => message,
        Err(cause) => {
            return Err(CommandError::Unreadable(cause));
        },
    };
    if !report.success {
        return Err(CommandError::Rejected(message));
    }
    match report.parsed {
        Ok(signatures) => Ok(CosignVerify { message, signatures }),
        Err(cause) => Err(CommandError::Malformed(cause)),
    }
}

} // verus!
