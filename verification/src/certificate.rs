//! Certificate extraction: from a PEM block to the subject, issuer, validity
//! window and extensions of the X.509 certificate inside it.
//!
//! Decoding the PEM envelope and the DER payload is left to `x509-parser`. What
//! this module decides is what becomes of the decoded fields: which common names
//! are kept, how extension values are cleaned, and when the validity window is
//! rejected.

use vstd::prelude::*;
use vstd::utf8::{decode_utf8, valid_utf8};
use x509_parser::parse_x509_certificate;
use x509_parser::pem::parse_x509_pem;
use crate::strmap::{entries_to_map, StringMap};
use crate::text::{chars_of};
use crate::time::{representable, Instant};

verus! {

/// Why a certificate could not be extracted.
#[derive(Debug, Clone, Copy, PartialEq, Eq, Structural)]
pub enum CertificateError {
    /// The PEM envelope is malformed.
    MalformedPem,
    /// The envelope is sound, but what it holds is not a DER-encoded X.509
    /// certificate.
    MalformedCertificate,
    /// The start of the validity window cannot be represented.
    InvalidNotBefore,
    /// The end of the validity window cannot be represented.
    InvalidNotAfter,
    /// The validity window is empty: it does not start before it ends.
    InvalidValidity,
}

impl CertificateError {
    /// What to show for the error.
    pub fn message(&self) -> (text: &'static str)
        ensures
            text@ == match self {
                CertificateError::MalformedPem => "Failed to parse x509 pem"@,
                CertificateError::MalformedCertificate => "Failed to parse x509"@,
                CertificateError::InvalidNotBefore => "Invalid not before"@,
                CertificateError::InvalidNotAfter => "Invalid not after"@,
                CertificateError::InvalidValidity => "Invalid validity window"@,
            },
    {
        match self {
            CertificateError::MalformedPem => "Failed to parse x509 pem",
            CertificateError::MalformedCertificate => "Failed to parse x509",
            CertificateError::InvalidNotBefore => "Invalid not before",
            CertificateError::InvalidNotAfter => "Invalid not after",
            CertificateError::InvalidValidity => "Invalid validity window",
        }
    }
}

/// The fields of a decoded certificate, as mathematical values.
pub struct CertificateFields {
    pub subject: Seq<char>,
    pub issuer: Seq<char>,
    /// One entry per common-name attribute of the subject; `None` where the
    /// attribute holds no text: a value that is not a NumericString,
    /// PrintableString, UTF8String or IA5String, or that is no UTF-8.
    pub common_names: Seq<Option<Seq<char>>>,
    pub not_before: int,
    pub not_after: int,
    /// Object identifier and raw value of each extension, in certificate order.
    pub extensions: Seq<(Seq<char>, Seq<u8>)>,
}

/// The fields of a decoded certificate, before this library has judged them.
#[derive(Debug, Clone, PartialEq, Eq)]
pub struct RawCertificate {
    pub subject: String,
    pub issuer: String,
    pub common_names: Vec<Option<String>>,
    pub not_before: i64,
    pub not_after: i64,
    pub extensions: Vec<(String, Vec<u8>)>,
}

impl View for RawCertificate {
    type V = CertificateFields;

    open spec fn view(&self) -> CertificateFields {
        CertificateFields {
            subject: self.subject@,
            issuer: self.issuer@,
            common_names: self.common_names@.map_values(
                |name: Option<String>|
                    match name {
                        Some(text) => Some(text@),
                        None => None,
                    },
            ),
            not_before: self.not_before as int,
            not_after: self.not_after as int,
            extensions: self.extensions@.map_values(|e: (String, Vec<u8>)| (e.0@, e.1@)),
        }
    }
}

/// An extracted certificate, as mathematical values.
pub struct CertificateView {
    pub subject: Seq<char>,
    pub issuer: Seq<char>,
    pub common_names: Seq<Seq<char>>,
    pub not_before: int,
    pub not_after: int,
    pub extensions: Map<Seq<char>, Seq<char>>,
}

/// An X.509 certificate, reduced to what signature derivation reads.
#[derive(Debug, Clone, PartialEq, Eq)]
pub struct Certificate {
    pub subject: String,
    pub issuer: String,
    pub common_names: Vec<String>,
    pub not_before: Instant,
    pub not_after: Instant,
    /// Extension values by object identifier, decoded as text.
    pub extensions: StringMap,
}

impl View for Certificate {
    type V = CertificateView;

    open spec fn view(&self) -> CertificateView {
        CertificateView {
            subject: self.subject@,
            issuer: self.issuer@,
            common_names: self.common_names@.map_values(|name: String| name@),
            not_before: self.not_before@,
            not_after: self.not_after@,
            extensions: self.extensions@,
        }
    }
}

/// What `x509_parser::pem::parse_x509_pem` decodes from `pem`: the payload of
/// the first PEM block, or `None` where it reports an error.
pub uninterp spec fn pem_payload(pem: Seq<u8>) -> Option<Seq<u8>>;

/// What `x509_parser::parse_x509_certificate` decodes from `der`: the fields of
/// the certificate, or `None` where it reports an error.
pub uninterp spec fn x509_fields(der: Seq<u8>) -> Option<CertificateFields>;

/// What `String::from_utf8_lossy` makes of `bytes`.
pub uninterp spec fn utf8_lossy(bytes: Seq<u8>) -> Seq<char>;

/// Decodes the PEM envelope with `x509_parser::pem::parse_x509_pem` and hands
/// out the payload of the block it found.
#[verifier::external_body]
fn decode_pem(pem: &[u8]) -> (r: Option<Vec<u8>>)
    ensures
        r matches Some(der) ==> pem_payload(pem@) == Some(der@),
        r is None ==> pem_payload(pem@) is None,
{
    parse_x509_pem(pem).ok().map(|(_, block)| block.contents)
}

/// Decodes a DER-encoded certificate with
/// `x509_parser::parse_x509_certificate` and copies out its subject and issuer
/// as the parser prints them, the subject's common names, the validity bounds
/// in seconds since the epoch, and each extension's dotted identifier and raw
/// value.
///
/// A common name is read with `AttributeTypeAndValue::as_str`, which gives the
/// text of the four plain string kinds (NumericString, PrintableString,
/// UTF8String, IA5String). Reading the attribute's value as a UTF8String alone
/// would lose the common names of the many certificates that write them as
/// PrintableString.
#[verifier::external_body]
fn decode_x509(der: &[u8]) -> (r: Option<RawCertificate>)
    ensures
        r matches Some(raw) ==> x509_fields(der@) == Some(raw@),
        r is None ==> x509_fields(der@) is None,
{
    let (_, x509) = parse_x509_certificate(der).ok()?;
    Some(RawCertificate {
        subject: x509.subject().to_string(),
        issuer: x509.issuer().to_string(),
        common_names: x509.subject().iter_common_name().map(|e| e.as_str().ok().map(str::to_string)).collect(),
        not_before: x509.validity().not_before.timestamp(),
        not_after: x509.validity().not_after.timestamp(),
        extensions: x509.extensions().iter().map(|e| (e.oid.to_id_string(), e.value.to_vec())).collect(),
    })
}

/// Decodes bytes as text with `String::from_utf8_lossy`, which keeps valid
/// UTF-8 as it is and replaces what is not with U+FFFD.
#[verifier::external_body]
fn lossy_text(bytes: &[u8]) -> (text: String)
    ensures
        text@ == utf8_lossy(bytes@),
        valid_utf8(bytes@) ==> text@ == decode_utf8(bytes@),
{
    String::from_utf8_lossy(bytes).into_owned()
}

/// Whether `c` is a control code: U+0000 to U+001F, or U+007F to U+009F.
pub open spec fn is_control_code(c: char) -> bool {
    c as u32 <= 0x1f || (0x7f <= c as u32 && c as u32 <= 0x9f)
}

/// `char::is_control` tells whether a character has the general category Cc,
/// which holds exactly the code points of `is_control_code`.
pub assume_specification[ char::is_control ](c: char) -> (r: bool)
    ensures
        r == is_control_code(c),
;

/// `text` without its control codes.
pub open spec fn strip_controls(text: Seq<char>) -> Seq<char> {
    text.filter(|c: char| !is_control_code(c))
}

/// The common names that hold a string, in order.
pub open spec fn present_names(names: Seq<Option<Seq<char>>>) -> Seq<Seq<char>>
    decreases names.len(),
{
    if names.len() == 0 {
        Seq::empty()
    } else {
        match names.last() {
            Some(name) => present_names(names.drop_last()).push(name),
            None => present_names(names.drop_last()),
        }
    }
}

/// Each extension's identifier with its value as cleaned text.
pub open spec fn cleaned_extensions(extensions: Seq<(Seq<char>, Seq<u8>)>) -> Seq<
    (Seq<char>, Seq<char>),
> {
    extensions.map_values(|e: (Seq<char>, Seq<u8>)| (e.0, strip_controls(utf8_lossy(e.1))))
}

/// The certificate that decoded fields give, or the reason they give none.
pub open spec fn certificate_of_fields(fields: CertificateFields) -> Result<
    CertificateView,
    CertificateError,
> {
    if !representable(fields.not_before) {
        Err(CertificateError::InvalidNotBefore)
    } else if !representable(fields.not_after) {
        Err(CertificateError::InvalidNotAfter)
    } else if fields.not_before >= fields.not_after {
        Err(CertificateError::InvalidValidity)
    } else {
        Ok(
            CertificateView {
                subject: fields.subject,
                issuer: fields.issuer,
                common_names: present_names(fields.common_names),
                not_before: fields.not_before,
                not_after: fields.not_after,
                extensions: entries_to_map(cleaned_extensions(fields.extensions)),
            },
        )
    }
}

/// The certificate that a PEM block gives, or the reason it gives none.
pub open spec fn certificate_of_pem(pem: Seq<u8>) -> Result<CertificateView, CertificateError> {
    match pem_payload(pem) {
        None => Err(CertificateError::MalformedPem),
        Some(der) => match x509_fields(der) {
            None => Err(CertificateError::MalformedCertificate),
            Some(fields) => certificate_of_fields(fields),
        },
    }
}

/// Removes the control codes from `text`.
pub fn without_controls(text: &str) -> (cleaned: String)
    ensures
        cleaned@ == strip_controls(text@),
{
    let chars = chars_of(text);
    let mut cleaned = String::new();
    let mut i: usize = 0;
    proof {
        reveal(Seq::filter);
        assert(text@.take(0) =~= Seq::<char>::empty());
    }
    while i < chars.len()
        invariant
            i <= chars.len(),
            chars@ == text@,
            cleaned@ == strip_controls(text@.take(i as int)),
        decreases chars.len() - i,
    {
        let c = chars[i];
        proof {
            reveal(Seq::filter);
            assert(text@.take(i + 1).drop_last() =~= text@.take(i as int));
            assert(text@.take(i + 1).last() == c);
        }
        if !c.is_control() {
            cleaned.push(c);
        }
        i += 1;
    }
    proof {
        assert(text@.take(i as int) =~= text@);
    }
    cleaned
}

fn kept_names(names: &Vec<Option<String>>) -> (kept: Vec<String>)
    ensures
        kept@.map_values(|name: String| name@) == present_names(
            names@.map_values(
                |name: Option<String>|
                    match name {
                        Some(text) => Some(text@),
                        None => None,
                    },
            ),
        ),
{
    let ghost all = names@.map_values(
        |name: Option<String>|
            match name {
                Some(text) => Some(text@),
                None => None,
            },
    );
    let mut kept: Vec<String> = Vec::new();
    let mut i: usize = 0;
    proof {
        assert(all.take(0) =~= Seq::<Option<Seq<char>>>::empty());
        assert(kept@.map_values(|name: String| name@) =~= Seq::<Seq<char>>::empty());
    }
    while i < names.len()
        invariant
            i <= names.len(),
            all == names@.map_values(
                |name: Option<String>|
                    match name {
                        Some(text) => Some(text@),
                        None => None,
                    },
            ),
            kept@.map_values(|name: String| name@) == present_names(all.take(i as int)),
        decreases names.len() - i,
    {
        proof {
            assert(all.take(i + 1).drop_last() =~= all.take(i as int));
        }
        match &names[i] {
            Some(name) => {
                let ghost before = kept@;
                let copy = name.clone();
                kept.push(copy);
                proof {
                    assert(all.take(i + 1).last() == Some(copy@));
                    assert(kept@.map_values(|name: String| name@) =~= before.map_values(
                        |name: String| name@,
                    ).push(copy@));
                }
            },
            None => {
                proof {
                    assert(all.take(i + 1).last() is None);
                }
            },
        }
        i += 1;
    }
    proof {
        assert(all.take(i as int) =~= all);
    }
    kept
}

fn extension_map(extensions: &Vec<(String, Vec<u8>)>) -> (map: StringMap)
    ensures
        map@ == entries_to_map(
            cleaned_extensions(extensions@.map_values(|e: (String, Vec<u8>)| (e.0@, e.1@))),
        ),
{
    let ghost all = extensions@.map_values(|e: (String, Vec<u8>)| (e.0@, e.1@));
    let mut map = StringMap::new();
    let mut i: usize = 0;
    proof {
        assert(cleaned_extensions(all.take(0)) =~= Seq::<(Seq<char>, Seq<char>)>::empty());
    }
    while i < extensions.len()
        invariant
            i <= extensions.len(),
            all == extensions@.map_values(|e: (String, Vec<u8>)| (e.0@, e.1@)),
            map@ == entries_to_map(cleaned_extensions(all.take(i as int))),
        decreases extensions.len() - i,
    {
        let text = lossy_text(extensions[i].1.as_slice());
        let cleaned = without_controls(text.as_str());
        let name = extensions[i].0.clone();
        proof {
            let next = cleaned_extensions(all.take(i + 1));
            assert(next.drop_last() =~= cleaned_extensions(all.take(i as int)));
            assert(next.last() == (name@, cleaned@));
        }
        map.insert(name, cleaned);
        i += 1;
    }
    proof {
        assert(all.take(i as int) =~= all);
    }
    map
}

impl Certificate {
    /// Whether the certificate is in order: its validity window starts before
    /// it ends.
    pub open spec fn well_formed(&self) -> bool {
        self.not_before@ < self.not_after@
    }

    /// Checks that the certificate is in order. A certificate that was not made
    /// by `from_raw` or `from_pem` is to pass this check before it is used.
    pub fn is_well_formed(&self) -> (r: bool)
        ensures
            r == self.well_formed(),
    {
        self.not_before.is_before(&self.not_after)
    }

    /// Judges decoded fields: keeps the common names that hold a string, cleans
    /// the extension values of control codes, and rejects a validity bound that
    /// cannot be represented and a window that does not start before it ends.
    /// The bounds are never exchanged or adjusted.
    pub fn from_raw(raw: RawCertificate) -> (r: Result<Certificate, CertificateError>)
        ensures
            match r {
                Ok(certificate) => certificate_of_fields(raw@) == Ok::<
                    CertificateView,
                    CertificateError,
                >(certificate@),
                Err(error) => certificate_of_fields(raw@) == Err::<
                    CertificateView,
                    CertificateError,
                >(error),
            },
            r matches Ok(certificate) ==> certificate.well_formed(),
    {
        let common_names = kept_names(&raw.common_names);
        let extensions = extension_map(&raw.extensions);
        let not_before = match Instant::from_timestamp(raw.not_before) {
            Some(instant) => instant,
            None => {
                return Err(CertificateError::InvalidNotBefore);
            },
        };
        let not_after = match Instant::from_timestamp(raw.not_after) {
            Some(instant) => instant,
            None => {
                return Err(CertificateError::InvalidNotAfter);
            },
        };
        if !not_before.is_before(&not_after) {
            return Err(CertificateError::InvalidValidity);
        }
        Ok(
            Certificate {
                subject: raw.subject,
                issuer: raw.issuer,
                common_names,
                not_before,
                not_after,
                extensions,
            },
        )
    }

    /// Extracts the certificate that a PEM block holds.
    pub fn from_pem(pem: &[u8]) -> (r: Result<Certificate, CertificateError>)
        ensures
            match r {
                Ok(certificate) => certificate_of_pem(pem@) == Ok::<
                    CertificateView,
                    CertificateError,
                >(certificate@),
                Err(error) => certificate_of_pem(pem@) == Err::<CertificateView, CertificateError>(
                    error,
                ),
            },
            r matches Ok(certificate) ==> certificate.well_formed(),
    {
        let der = match decode_pem(pem) {
            Some(der) => der,
            None => {
                return Err(CertificateError::MalformedPem);
            },
        };
        match decode_x509(der.as_slice()) {
            Some(raw) => Certificate::from_raw(raw),
            None => Err(CertificateError::MalformedCertificate),
        }
    }
}

/// Whether the error is one about the validity window.
pub open spec fn is_time_error(error: CertificateError) -> bool {
    error is InvalidNotBefore || error is InvalidNotAfter || error is InvalidValidity
}

/// The validity window of an extracted certificate starts before it ends, and
/// it is the window that the certificate states, bound for bound: the bounds
/// are never exchanged. Fields that give no certificate fail with an error
/// about the window.
pub proof fn lemma_validity_window_kept(fields: CertificateFields)
    ensures
        match certificate_of_fields(fields) {
            Ok(certificate) => {
                &&& certificate.not_before < certificate.not_after
                &&& certificate.not_before == fields.not_before
                &&& certificate.not_after == fields.not_after
            },
            Err(error) => is_time_error(error),
        },
{
}

/// The same for a PEM block: what is extracted from it has a window that starts
/// before it ends, and a block that holds a certificate fails with an error
/// about the window or not at all.
pub proof fn lemma_validity_window_of_pem(pem: Seq<u8>)
    ensures
        certificate_of_pem(pem) matches Ok(certificate) ==> certificate.not_before
            < certificate.not_after,
        pem_payload(pem) matches Some(der) && x509_fields(der) is Some ==> match certificate_of_pem(
            pem,
        ) {
            Ok(certificate) => certificate.not_before < certificate.not_after,
            Err(error) => is_time_error(error),
        },
{
    if pem_payload(pem) is Some && x509_fields(pem_payload(pem)->Some_0) is Some {
        lemma_validity_window_kept(x509_fields(pem_payload(pem)->Some_0)->Some_0);
    }
}

} // verus!
