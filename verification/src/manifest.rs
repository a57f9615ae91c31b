//! Registry manifests, as far as this library reads them.

use vstd::prelude::*;
use vstd::string::StringExecFns;
use crate::command::CommandReport;
use crate::strmap::StringMap;
use crate::text::str_eq;

verus! {

/// An algorithm-prefixed content hash, such as `sha256:` followed by hex digits.
#[derive(Debug, Clone, PartialEq, Eq, PartialOrd, Ord, Hash)]
pub struct ContentDigest(pub String);

impl View for ContentDigest {
    type V = Seq<char>;

    open spec fn view(&self) -> Seq<char> {
        self.0@
    }
}

/// The platform that a sub-manifest is built for.
#[derive(Debug, Clone, PartialEq, Eq)]
pub struct Platform {
    pub architecture: String,
    pub os: String,
}

/// One entry of a manifest list: the manifest of the image for one platform.
#[derive(Debug, Clone, PartialEq, Eq)]
pub struct PlatformManifest {
    pub media_type: String,
    pub size: u64,
    pub digest: String,
    pub platform: Platform,
}

/// One layer of an image manifest. The layers of a signature manifest carry
/// the signing certificates among their annotations.
#[derive(Debug, Clone, PartialEq, Eq)]
pub struct Layer {
    pub media_type: String,
    pub size: u64,
    pub digest: String,
    pub annotations: StringMap,
}

/// A manifest as a registry serves it: a list of per-platform manifests, the
/// layers of a single image, or both absent.
#[derive(Debug, Clone, PartialEq, Eq)]
pub struct RegistryManifest {
    pub schema_version: u64,
    pub media_type: String,
    pub manifests: Option<Vec<PlatformManifest>>,
    pub layers: Option<Vec<Layer>>,
}

/// What a manifest source hands back for one image: the manifest and, where the
/// registry stated it, its content digest.
#[derive(Debug, Clone, PartialEq, Eq)]
pub struct ManifestResponse {
    pub digest: Option<ContentDigest>,
    pub manifest: RegistryManifest,
}

/// The annotations of each layer, in layer order.
pub open spec fn layer_annotations(layers: Seq<Layer>) -> Seq<Map<Seq<char>, Seq<char>>> {
    layers.map_values(|layer: Layer| layer.annotations@)
}

/// What the `docker` command writes when the registry knows no such manifest.
pub const MANIFEST_UNKNOWN: &'static str = "manifest unknown\n";

/// Why inspecting a manifest with the `docker` command gave none.
#[derive(Debug, PartialEq, Eq)]
pub enum Error<E> {
    /// The registry knows no such manifest.
    ManifestUnknown,
    /// The command failed otherwise, with this on its error stream.
    Unknown(String),
    /// The error stream of the command is not text.
    Unreadable(E),
    /// The output of the command is no manifest.
    Malformed(E),
}

impl<E> Error<E> {
    /// What to show for the failure, where it is one that the command itself
    /// reported.
    pub fn message(&self) -> (r: Option<String>)
        ensures
            match self {
                Error::ManifestUnknown => r is Some && r->Some_0@ == "manifest unknown"@,
                Error::Unknown(text) => r is Some && r->Some_0@ == "unknown error: "@ + text@,
                _ => r is None,
            },
    {
        match self {
            Error::ManifestUnknown => Some(String::from_str("manifest unknown")),
            Error::Unknown(text) => {
                let mut message = String::from_str("unknown error: ");
                message.append(text.as_str());
                Some(message)
            },
            _ => None,
        }
    }
}

/// The arguments with which the `docker` command inspects the manifest of
/// `image`.
pub fn inspect_arguments(image: &str) -> (arguments: Vec<String>)
    ensures
        arguments@.map_values(|a: String| a@) == seq!["manifest"@, "inspect"@, image@],
{
    let mut arguments: Vec<String> = Vec::new();
    arguments.push(String::from_str("manifest"));
    arguments.push(String::from_str("inspect"));
    arguments.push(String::from_str(image));
    proof {
        assert(arguments@.map_values(|a: String| a@) =~= seq!["manifest"@, "inspect"@, image@]);
    }
    arguments
}

/// What a run of the `docker` command to inspect a manifest means, as a
/// mathematical value.
pub open spec fn inspected<E>(report: CommandReport<RegistryManifest, E>) -> Result<
    RegistryManifest,
    Error<E>,
> {
    if !report.success {
        match report.stderr {
            Err(cause) => Err(Error::Unreadable(cause)),
            Ok(text) => if text@ == MANIFEST_UNKNOWN@ {
                Err(Error::ManifestUnknown)
            } else {
                Err(Error::Unknown(text))
            },
        }
    } else {
        match report.parsed {
            Ok(manifest) => Ok(manifest),
            Err(cause) => Err(Error::Malformed(cause)),
        }
    }
}

/// Judges how a run of the `docker` command to inspect a manifest ended. A
/// failed run whose error stream says exactly that the manifest is unknown
/// means that there is none; any other failed run is a failure of its own.
pub fn docker_manifest<E>(report: CommandReport<RegistryManifest, E>) -> (r: Result<
    RegistryManifest,
    Error<E>,
>)
    ensures
        r == inspected(report),
{
    if !report.success {
        match report.stderr {
            Err(cause) => Err(Error::Unreadable(cause)),
            Ok(text) => if str_eq(text.as_str(), MANIFEST_UNKNOWN) {
                Err(Error::ManifestUnknown)
            } else {
                Err(Error::Unknown(text))
            },
        }
    } else {
        match report.parsed {
            Ok(manifest) => Ok(manifest),
            Err(cause) => Err(Error::Malformed(cause)),
        }
    }
}

} // verus!
