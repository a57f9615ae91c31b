//! Signature derivation: from the layers of a signature manifest to the list of
//! issuer and identity claims that their certificates make.

use vstd::prelude::*;
use vstd::utf8::encode_utf8;
use crate::certificate::{certificate_of_pem, Certificate, CertificateError, CertificateView};
use crate::manifest::{layer_annotations, Layer, RegistryManifest};
use crate::ordered::{
    into_ordered,
    lemma_ordered_members,
    same_key,
    Keyed,
};
use crate::text::{
    chars_of,
    compare_str,
    find,
    first_occurrence,
    lemma_str_order,
    str_lt,
    Order,
};

verus! {

/// The annotation under which a layer carries a signing certificate.
pub const CERTIFICATE_ANNOTATION: &'static str = "dev.sigstore.cosign/certificate";

/// The extension that names the OIDC issuer.
pub const ISSUER_EXTENSION: &'static str = "1.3.6.1.4.1.57264.1.1";

/// The extension that names the signing identity.
pub const IDENTITY_EXTENSION: &'static str = "1.3.6.1.4.1.57264.1.9";

/// The subject alternative name extension, read where the identity extension
/// is absent.
pub const ALTERNATIVE_NAME_EXTENSION: &'static str = "2.5.29.17";

/// The marker from which a trimmed identity starts.
pub const IDENTITY_SCHEME: &'static str = "https://";

/// A claim, as mathematical values.
pub struct SignatureView {
    pub issuer: Seq<char>,
    pub identity: Seq<char>,
}

/// The two claims of a signing certificate: who issued it, and for whom.
#[derive(Debug, Clone, PartialEq, Eq, PartialOrd, Ord, Hash)]
pub struct Signature {
    pub issuer: String,
    pub identity: String,
}

impl View for Signature {
    type V = SignatureView;

    open spec fn view(&self) -> SignatureView {
        SignatureView { issuer: self.issuer@, identity: self.identity@ }
    }
}

/// Why no signatures could be derived: the certificate of one layer could not
/// be extracted.
#[derive(Debug, Clone, Copy, PartialEq, Eq, Structural)]
pub struct SignatureError {
    /// The position of the layer among the layers of the manifest.
    pub layer: usize,
    /// Why its certificate could not be extracted.
    pub error: CertificateError,
}

/// The order of claims: by issuer, then by identity.
pub open spec fn claim_before(a: SignatureView, b: SignatureView) -> bool {
    str_lt(a.issuer, b.issuer) || (a.issuer == b.issuer && str_lt(a.identity, b.identity))
}

/// Whether the claims stand in strictly ascending order.
pub open spec fn claims_ascending(claims: Seq<SignatureView>) -> bool {
    forall|i: int, j: int|
        0 <= i < j < claims.len() ==> claim_before(#[trigger] claims[i], #[trigger] claims[j])
}

/// The claims of a list of signatures.
pub open spec fn claims_of(signatures: Seq<Signature>) -> Seq<SignatureView> {
    signatures.map_values(|s: Signature| s@)
}

impl Keyed for Signature {
    open spec fn before(&self, other: &Self) -> bool {
        claim_before(self@, other@)
    }

    proof fn lemma_strict_order(a: &Self, b: &Self, c: &Self) {
        lemma_str_order(a.issuer@, b.issuer@, c.issuer@);
        lemma_str_order(a.identity@, b.identity@, c.identity@);
        lemma_str_order(b.issuer@, c.issuer@, a.issuer@);
        lemma_str_order(b.identity@, c.identity@, a.identity@);
        lemma_str_order(c.issuer@, a.issuer@, b.issuer@);
        lemma_str_order(c.identity@, a.identity@, b.identity@);
        lemma_str_order(a.issuer@, c.issuer@, b.issuer@);
        lemma_str_order(b.issuer@, a.issuer@, c.issuer@);
        lemma_str_order(c.issuer@, b.issuer@, a.issuer@);
        lemma_str_order(a.identity@, c.identity@, b.identity@);
        lemma_str_order(b.identity@, a.identity@, c.identity@);
        lemma_str_order(c.identity@, b.identity@, a.identity@);
    }

    fn compare(&self, other: &Self) -> (o: Order) {
        proof {
            lemma_str_order(self.issuer@, other.issuer@, self.issuer@);
            lemma_str_order(self.identity@, other.identity@, self.identity@);
            lemma_str_order(other.issuer@, self.issuer@, other.issuer@);
            lemma_str_order(other.identity@, self.identity@, other.identity@);
        }
        match compare_str(self.issuer.as_str(), other.issuer.as_str()) {
            Order::Less => Order::Less,
            Order::Greater => Order::Greater,
            Order::Equal => compare_str(self.identity.as_str(), other.identity.as_str()),
        }
    }
}

/// Two signatures have the same key exactly when they make the same claim.
pub proof fn lemma_same_key_same_claim(a: Signature, b: Signature)
    ensures
        same_key(a, b) <==> a@ == b@,
{
    lemma_str_order(a.issuer@, b.issuer@, a.issuer@);
    lemma_str_order(a.identity@, b.identity@, a.identity@);
    lemma_str_order(b.issuer@, a.issuer@, b.issuer@);
    lemma_str_order(b.identity@, a.identity@, b.identity@);
}

/// Claims in strictly ascending order hold no claim twice.
pub proof fn lemma_ascending_claims_distinct(claims: Seq<SignatureView>)
    requires
        claims_ascending(claims),
    ensures
        forall|i: int, j: int| 0 <= i < j < claims.len() ==> claims[i] != claims[j],
{
    assert forall|i: int, j: int| 0 <= i < j < claims.len() implies claims[i] != claims[j] by {
        assert(claim_before(claims[i], claims[j]));
        lemma_str_order(claims[i].issuer, claims[i].issuer, claims[i].issuer);
        lemma_str_order(claims[i].identity, claims[i].identity, claims[i].identity);
    }
}

/// What `key` is bound to, or the empty text.
pub open spec fn value_or_empty(map: Map<Seq<char>, Seq<char>>, key: Seq<char>) -> Seq<char> {
    if map.contains_key(key) {
        map[key]
    } else {
        Seq::empty()
    }
}

/// `identity` from its first `https://` on; all of it where there is none.
pub open spec fn from_scheme(identity: Seq<char>) -> Seq<char> {
    match first_occurrence(identity, IDENTITY_SCHEME@) {
        Some(at) => identity.skip(at),
        None => identity,
    }
}

/// The identity that the extensions of a certificate state: that of the
/// identity extension, else that of the subject alternative name, else none.
pub open spec fn stated_identity(extensions: Map<Seq<char>, Seq<char>>) -> Seq<char> {
    if extensions.contains_key(IDENTITY_EXTENSION@) {
        extensions[IDENTITY_EXTENSION@]
    } else {
        value_or_empty(extensions, ALTERNATIVE_NAME_EXTENSION@)
    }
}

/// The claim that a certificate makes.
pub open spec fn claim_of(certificate: CertificateView, trim: bool) -> SignatureView {
    SignatureView {
        issuer: value_or_empty(certificate.extensions, ISSUER_EXTENSION@),
        identity: if trim {
            from_scheme(stated_identity(certificate.extensions))
        } else {
            stated_identity(certificate.extensions)
        },
    }
}

/// The certificates that the layers carry, in layer order; or, where one of
/// them cannot be extracted, the failure of the first such layer.
pub open spec fn layer_certificates(annotations: Seq<Map<Seq<char>, Seq<char>>>) -> Result<
    Seq<CertificateView>,
    SignatureError,
>
    decreases annotations.len(),
{
    if annotations.len() == 0 {
        Ok(Seq::empty())
    } else {
        match layer_certificates(annotations.drop_last()) {
            Err(error) => Err(error),
            Ok(certificates) => {
                let last = annotations.last();
                if last.contains_key(CERTIFICATE_ANNOTATION@) {
                    match certificate_of_pem(encode_utf8(last[CERTIFICATE_ANNOTATION@])) {
                        Ok(certificate) => Ok(certificates.push(certificate)),
                        Err(error) => Err(
                            SignatureError { layer: (annotations.len() - 1) as usize, error },
                        ),
                    }
                } else {
                    Ok(certificates)
                }
            },
        }
    }
}

/// The claims that the certificates make, one per certificate.
pub open spec fn claims_made(certificates: Seq<CertificateView>, trim: bool) -> Seq<SignatureView> {
    certificates.map_values(|c: CertificateView| claim_of(c, trim))
}

/// Whether `signatures` is the list to return for `certificates`: in strictly
/// ascending order, and holding exactly the claims that the certificates make.
pub open spec fn is_signature_list(
    signatures: Seq<SignatureView>,
    certificates: Seq<CertificateView>,
    trim: bool,
) -> bool {
    &&& claims_ascending(signatures)
    &&& forall|claim: SignatureView| #[trigger]
        signatures.contains(claim) <==> claims_made(certificates, trim).contains(claim)
}

/// The order of claims is irreflexive and transitive.
pub proof fn lemma_claim_order(a: SignatureView, b: SignatureView, c: SignatureView)
    ensures
        !claim_before(a, a),
        claim_before(a, b) && claim_before(b, c) ==> claim_before(a, c),
{
    lemma_str_order(a.issuer, b.issuer, c.issuer);
    lemma_str_order(a.identity, b.identity, c.identity);
    lemma_str_order(a.issuer, a.issuer, a.issuer);
    lemma_str_order(a.identity, a.identity, a.identity);
}

/// Two ascending lists that hold the same claims agree at every position of
/// the first.
proof fn lemma_same_position(first: Seq<SignatureView>, second: Seq<SignatureView>, at: int)
    requires
        claims_ascending(first),
        claims_ascending(second),
        forall|claim: SignatureView| #[trigger] first.contains(claim) <==> second.contains(claim),
        0 <= at < first.len(),
    ensures
        at < second.len(),
        first[at] == second[at],
    decreases at,
{
    assert(first.contains(first[at]));
    let k = choose|k: int| 0 <= k < second.len() && second[k] == first[at];
    lemma_claim_order(first[at], first[at], first[at]);
    if k < at {
        lemma_same_position(first, second, k);
        assert(claim_before(first[k], first[at]));
        assert(false);
    }
    assert(at < second.len());
    assert(second.contains(second[at]));
    assert(first.contains(second[at]));
    let m = choose|m: int| 0 <= m < first.len() && first[m] == second[at];
    lemma_claim_order(second[at], second[at], second[at]);
    if m < at {
        lemma_same_position(first, second, m);
        assert(claim_before(second[m], second[at]));
        assert(false);
    }
    if k > at {
        assert(claim_before(second[at], second[k]));
        if m > at {
            assert(claim_before(first[at], first[m]));
            lemma_claim_order(first[at], second[at], first[at]);
        }
    }
}

/// Certificates have one signature list: two lists that are both in strictly
/// ascending order and hold exactly the claims of the certificates are the
/// same list.
pub proof fn lemma_signature_list_unique(
    first: Seq<SignatureView>,
    second: Seq<SignatureView>,
    certificates: Seq<CertificateView>,
    trim: bool,
)
    requires
        is_signature_list(first, certificates, trim),
        is_signature_list(second, certificates, trim),
    ensures
        first == second,
{
    assert forall|claim: SignatureView| #[trigger] first.contains(claim) <==> second.contains(
        claim,
    ) by {
        assert(first.contains(claim) <==> claims_made(certificates, trim).contains(claim));
        assert(second.contains(claim) <==> claims_made(certificates, trim).contains(claim));
    }
    assert forall|claim: SignatureView| #[trigger] second.contains(claim) <==> first.contains(
        claim,
    ) by {
        assert(first.contains(claim) <==> second.contains(claim));
    }
    if first.len() > 0 {
        lemma_same_position(first, second, first.len() - 1);
    }
    if second.len() > 0 {
        lemma_same_position(second, first, second.len() - 1);
    }
    assert forall|i: int| 0 <= i < first.len() implies first[i] == second[i] by {
        lemma_same_position(first, second, i);
    }
    assert(first =~= second);
}

/// The layers of a manifest. A manifest without a layer list, such as a list
/// of per-platform manifests, has none.
pub open spec fn manifest_layers(manifest: RegistryManifest) -> Seq<Layer> {
    match manifest.layers {
        Some(layers) => layers@,
        None => Seq::empty(),
    }
}

/// The mathematical value of a derivation's result.
pub open spec fn derivation_view(r: Result<Vec<Signature>, SignatureError>) -> Result<
    Seq<SignatureView>,
    SignatureError,
> {
    match r {
        Ok(signatures) => Ok(claims_of(signatures@)),
        Err(error) => Err(error),
    }
}

/// Whether `outcome` is what signature derivation owes for layers: the failure
/// of the first layer whose certificate cannot be extracted, and else the
/// signature list of the certificates that the layers carry.
pub open spec fn is_derivation(
    layers: Seq<Layer>,
    trim: bool,
    outcome: Result<Seq<SignatureView>, SignatureError>,
) -> bool {
    match layer_certificates(layer_annotations(layers)) {
        Err(error) => outcome == Err::<Seq<SignatureView>, SignatureError>(error),
        Ok(certificates) => outcome is Ok && is_signature_list(outcome->Ok_0, certificates, trim),
    }
}

/// The text from its first `https://` on; all of it where there is none.
pub fn trim_to_scheme(identity: String) -> (trimmed: String)
    ensures
        trimmed@ == from_scheme(identity@),
{
    let chars = chars_of(identity.as_str());
    let marker = chars_of(IDENTITY_SCHEME);
    match find(&chars, &marker) {
        None => identity,
        Some(at) => {
            let mut trimmed = String::new();
            let mut i: usize = at;
            proof {
                assert(chars@.subrange(at as int, at as int) =~= Seq::<char>::empty());
            }
            while i < chars.len()
                invariant
                    at <= i <= chars.len(),
                    trimmed@ == chars@.subrange(at as int, i as int),
                decreases chars.len() - i,
            {
                trimmed.push(chars[i]);
                proof {
                    assert(chars@.subrange(at as int, i + 1) =~= chars@.subrange(
                        at as int,
                        i as int,
                    ).push(chars@[i as int]));
                }
                i += 1;
            }
            proof {
                assert(chars@.subrange(at as int, i as int) =~= chars@.skip(at as int));
            }
            trimmed
        },
    }
}

impl Signature {
    /// Reads the claim of a certificate from its extensions. With `trim`, the
    /// identity starts at its first `https://`.
    pub fn from_certificate(certificate: &Certificate, trim: bool) -> (signature: Signature)
        ensures
            signature@ == claim_of(certificate@, trim),
    {
        let issuer = match certificate.extensions.get(ISSUER_EXTENSION) {
            Some(value) => value.clone(),
            None => String::new(),
        };
        let stated = match certificate.extensions.get(IDENTITY_EXTENSION) {
            Some(value) => value.clone(),
            None => match certificate.extensions.get(ALTERNATIVE_NAME_EXTENSION) {
                Some(value) => value.clone(),
                None => String::new(),
            },
        };
        let identity = if trim {
            trim_to_scheme(stated)
        } else {
            stated
        };
        Signature { issuer, identity }
    }
}

/// Extracts the certificate of every layer that carries one. The first layer
/// whose certificate cannot be extracted fails the whole operation.
pub fn certificates_of_layers(layers: &Vec<Layer>) -> (r: Result<Vec<Certificate>, SignatureError>)
    ensures
        match r {
            Ok(certificates) => layer_certificates(layer_annotations(layers@)) == Ok::<
                Seq<CertificateView>,
                SignatureError,
            >(certificates@.map_values(|c: Certificate| c@)),
            Err(error) => layer_certificates(layer_annotations(layers@)) == Err::<
                Seq<CertificateView>,
                SignatureError,
            >(error),
        },
{
    let ghost all = layer_annotations(layers@);
    let mut certificates: Vec<Certificate> = Vec::new();
    let mut i: usize = 0;
    proof {
        assert(all.take(0) =~= Seq::<Map<Seq<char>, Seq<char>>>::empty());
        assert(certificates@.map_values(|c: Certificate| c@) =~= Seq::<CertificateView>::empty());
    }
    while i < layers.len()
        invariant
            i <= layers.len(),
            all == layer_annotations(layers@),
            layer_certificates(all.take(i as int)) == Ok::<Seq<CertificateView>, SignatureError>(
                certificates@.map_values(|c: Certificate| c@),
            ),
        decreases layers.len() - i,
    {
        proof {
            assert(all.take(i + 1).drop_last() =~= all.take(i as int));
            assert(all.take(i + 1).last() == layers@[i as int].annotations@);
        }
        match layers[i].annotations.get(CERTIFICATE_ANNOTATION) {
            None => {},
            Some(pem) => {
                match Certificate::from_pem(pem.as_str().as_bytes()) {
                    Ok(certificate) => {
                        let ghost before = certificates@;
                        certificates.push(certificate);
                        proof {
                            assert(certificates@.map_values(|c: Certificate| c@)
                                =~= before.map_values(|c: Certificate| c@).push(certificate@));
                        }
                    },
                    Err(error) => {
                        proof {
                            lemma_failure_stays(all, i + 1);
                        }
                        return Err(SignatureError { layer: i, error });
                    },
                }
            },
        }
        i += 1;
    }
    proof {
        assert(all.take(i as int) =~= all);
    }
    Ok(certificates)
}

/// Once the layers up to some position fail, the whole list fails the same way.
proof fn lemma_failure_stays(annotations: Seq<Map<Seq<char>, Seq<char>>>, upto: int)
    requires
        0 <= upto <= annotations.len(),
        layer_certificates(annotations.take(upto)) is Err,
    ensures
        layer_certificates(annotations) == layer_certificates(annotations.take(upto)),
    decreases annotations.len() - upto,
{
    if upto < annotations.len() {
        assert(annotations.take(upto + 1).drop_last() =~= annotations.take(upto));
        lemma_failure_stays(annotations, upto + 1);
    } else {
        assert(annotations.take(upto) =~= annotations);
    }
}

/// Builds the signature list of extracted certificates: one claim per
/// certificate, in ascending order of issuer and identity, each claim once.
pub fn signatures_of_certificates(certificates: &Vec<Certificate>, trim: bool) -> (signatures: Vec<
    Signature,
>)
    ensures
        is_signature_list(
            claims_of(signatures@),
            certificates@.map_values(|c: Certificate| c@),
            trim,
        ),
{
    let ghost sources = certificates@.map_values(|c: Certificate| c@);
    let mut claims: Vec<Signature> = Vec::new();
    let mut i: usize = 0;
    while i < certificates.len()
        invariant
            i <= certificates.len(),
            sources == certificates@.map_values(|c: Certificate| c@),
            claims.len() == i,
            forall|k: int| 0 <= k < i ==> (#[trigger] claims@[k])@ == claim_of(sources[k], trim),
        decreases certificates.len() - i,
    {
        let claim = Signature::from_certificate(&certificates[i], trim);
        claims.push(claim);
        i += 1;
    }
    let ghost unordered = claims@;
    let signatures = into_ordered(claims);
    proof {
        lemma_ordered_members(unordered);
        let out = claims_of(signatures@);
        let made = claims_made(sources, trim);
        assert forall|a: int, b: int| 0 <= a < b < out.len() implies claim_before(
            #[trigger] out[a],
            #[trigger] out[b],
        ) by {
            assert(signatures@[a].before(&signatures@[b]));
        }
        assert forall|claim: SignatureView| #[trigger] out.contains(claim) <==> made.contains(
            claim,
        ) by {
            if out.contains(claim) {
                let a = choose|a: int| 0 <= a < out.len() && out[a] == claim;
                let k = choose|k: int| 0 <= k < unordered.len() && unordered[k] == signatures@[a];
                assert(made[k] == claim);
            }
            if made.contains(claim) {
                let k = choose|k: int| 0 <= k < made.len() && made[k] == claim;
                let a = choose|a: int|
                    0 <= a < signatures@.len() && same_key(#[trigger] signatures@[a], unordered[k]);
                lemma_same_key_same_claim(signatures@[a], unordered[k]);
                assert(out[a] == claim);
            }
        }
    }
    signatures
}

/// Derives the signature list of the layers of a signature manifest.
pub fn signatures_of_layers(layers: &Vec<Layer>, trim: bool) -> (r: Result<
    Vec<Signature>,
    SignatureError,
>)
    ensures
        is_derivation(layers@, trim, derivation_view(r)),
{
    match certificates_of_layers(layers) {
        Ok(certificates) => Ok(signatures_of_certificates(&certificates, trim)),
        Err(error) => Err(error),
    }
}

/// Derives the signature list of a signature manifest. A manifest without a
/// layer list has no layers, and layers that carry no certificate give the
/// empty list.
pub fn signature_from_manifest(manifest: &RegistryManifest, trim: bool) -> (r: Result<
    Vec<Signature>,
    SignatureError,
>)
    ensures
        is_derivation(manifest_layers(*manifest), trim, derivation_view(r)),
{
    match &manifest.layers {
        None => {
            let signatures: Vec<Signature> = Vec::new();
            proof {
                lemma_unsigned_layers(Seq::empty(), trim);
                assert(claims_of(signatures@) =~= Seq::<SignatureView>::empty());
                assert(is_signature_list(
                    Seq::<SignatureView>::empty(),
                    Seq::<CertificateView>::empty(),
                    trim,
                ));
            }
            Ok(signatures)
        },
        Some(layers) => signatures_of_layers(layers, trim),
    }
}

/// Layers that carry no certificate give the empty signature list.
pub proof fn lemma_unsigned_layers(layers: Seq<Layer>, trim: bool)
    requires
        forall|i: int|
            0 <= i < layers.len() ==> !(#[trigger] layers[i]).annotations@.contains_key(
                CERTIFICATE_ANNOTATION@,
            ),
    ensures
        layer_certificates(layer_annotations(layers)) == Ok::<Seq<CertificateView>, SignatureError>(
            Seq::empty(),
        ),
        forall|outcome: Result<Seq<SignatureView>, SignatureError>|
            is_derivation(layers, trim, outcome) ==> outcome == Ok::<
                Seq<SignatureView>,
                SignatureError,
            >(Seq::empty()),
    decreases layers.len(),
{
    let annotations = layer_annotations(layers);
    if layers.len() > 0 {
        lemma_unsigned_layers(layers.drop_last(), trim);
        assert(annotations.drop_last() =~= layer_annotations(layers.drop_last()));
        assert(annotations.last() == layers[layers.len() - 1].annotations@);
    }
    assert forall|outcome: Result<Seq<SignatureView>, SignatureError>|
        is_derivation(layers, trim, outcome) implies outcome == Ok::<
        Seq<SignatureView>,
        SignatureError,
    >(Seq::empty()) by {
        let list = outcome->Ok_0;
        if list.len() > 0 {
            assert(list.contains(list[0]));
            assert(claims_made(Seq::<CertificateView>::empty(), trim).contains(list[0]));
        }
        assert(list =~= Seq::<SignatureView>::empty());
    }
}

/// A manifest in which no layer carries a certificate, be it for want of such
/// layers or for want of a layer list, gives the empty signature list and no
/// failure.
pub proof fn lemma_unsigned_manifest(manifest: RegistryManifest, trim: bool)
    requires
        forall|i: int|
            0 <= i < manifest_layers(manifest).len() ==> !(#[trigger] manifest_layers(
                manifest,
            )[i]).annotations@.contains_key(CERTIFICATE_ANNOTATION@),
    ensures
        forall|outcome: Result<Seq<SignatureView>, SignatureError>|
            is_derivation(manifest_layers(manifest), trim, outcome) ==> outcome == Ok::<
                Seq<SignatureView>,
                SignatureError,
            >(Seq::empty()),
        manifest.layers is None ==> manifest_layers(manifest).len() == 0,
{
    lemma_unsigned_layers(manifest_layers(manifest), trim);
}

} // verus!
