use trivy_web::certificate::{Certificate, CertificateError, RawCertificate};
use trivy_web::manifest::{Layer, RegistryManifest};
use trivy_web::signature::{
    certificates_of_layers, signature_from_manifest, signatures_of_certificates,
    signatures_of_layers, trim_to_scheme, Signature, SignatureError, CERTIFICATE_ANNOTATION,
};
use trivy_web::strmap::StringMap;

const WORKFLOW: &str = "-----BEGIN CERTIFICATE-----\n\
MIICSDCCAe6gAwIBAgICA/AwCgYIKoZIzj0EAwIwNzEVMBMGA1UECgwMc2lnc3Rv\n\
cmUuZGV2MR4wHAYDVQQDDBVzaWdzdG9yZS1pbnRlcm1lZGlhdGUwHhcNMjQwNjAz\n\
MTIwMDAwWhcNMjQwNjAzMTIxMDAwWjAAMFkwEwYHKoZIzj0CAQYIKoZIzj0DAQcD\n\
QgAEbM9XgDZBA03/B+x5KHWfIR4LhkLa7WA6XutPwNM6yNmV4GPGvqIxKB0DeuNQ\n\
AxXtkPhpehVxTtgWRNXMNsFga6OCAR8wggEbMDkGCisGAQQBg78wAQEEK2h0dHBz\n\
Oi8vdG9rZW4uYWN0aW9ucy5naXRodWJ1c2VyY29udGVudC5jb20wbwYKKwYBBAGD\n\
vzABCQRhDF9odHRwczovL2dpdGh1Yi5jb20vYXF1YXNlY3VyaXR5L3RyaXZ5Ly5n\n\
aXRodWIvd29ya2Zsb3dzL3JldXNhYmxlLXJlbGVhc2UueWFtbEByZWZzL3RhZ3Mv\n\
djAuNTIuMDBtBgNVHREBAf8EYzBhhl9odHRwczovL2dpdGh1Yi5jb20vYXF1YXNl\n\
Y3VyaXR5L3RyaXZ5Ly5naXRodWIvd29ya2Zsb3dzL3JldXNhYmxlLXJlbGVhc2Uu\n\
eWFtbEByZWZzL3RhZ3MvdjAuNTIuMDAKBggqhkjOPQQDAgNIADBFAiAqBz8Aj2lx\n\
hio6Y8lA4a39HoKjD/Im3/xf6QdndtS2ywIhALq4IjvbNcNkVjGNEYK4+5u9MVrR\n\
PSBYoX9Qo7qTVUl5\n\
-----END CERTIFICATE-----\n\
";

const WORKFLOW_AGAIN: &str = "-----BEGIN CERTIFICATE-----\n\
MIIB1zCCAX2gAwIBAgICA/YwCgYIKoZIzj0EAwIwNzEVMBMGA1UECgwMc2lnc3Rv\n\
cmUuZGV2MR4wHAYDVQQDDBVzaWdzdG9yZS1pbnRlcm1lZGlhdGUwHhcNMjQwNjAz\n\
MTIwMDA1WhcNMjQwNjAzMTIxMDA1WjAAMFkwEwYHKoZIzj0CAQYIKoZIzj0DAQcD\n\
QgAEbM9XgDZBA03/B+x5KHWfIR4LhkLa7WA6XutPwNM6yNmV4GPGvqIxKB0DeuNQ\n\
AxXtkPhpehVxTtgWRNXMNsFga6OBrzCBrDA5BgorBgEEAYO/MAEBBCtodHRwczov\n\
L3Rva2VuLmFjdGlvbnMuZ2l0aHVidXNlcmNvbnRlbnQuY29tMG8GCisGAQQBg78w\n\
AQkEYQxfaHR0cHM6Ly9naXRodWIuY29tL2FxdWFzZWN1cml0eS90cml2eS8uZ2l0\n\
aHViL3dvcmtmbG93cy9yZXVzYWJsZS1yZWxlYXNlLnlhbWxAcmVmcy90YWdzL3Yw\n\
LjUyLjAwCgYIKoZIzj0EAwIDSAAwRQIgQt0uC7JA/v845L7rVzM7jvfYE/gFLz4R\n\
N7bOs5kjJZ8CIQCQhaU6yXxIEILlwQa62YLeZ5t7Nr4ZssoMWtw8vr68Rg==\n\
-----END CERTIFICATE-----\n\
";

const MAIL: &str = "-----BEGIN CERTIFICATE-----\n\
MIIBczCCARmgAwIBAgICA+wwCgYIKoZIzj0EAwIwNzEVMBMGA1UECgwMc2lnc3Rv\n\
cmUuZGV2MR4wHAYDVQQDDBVzaWdzdG9yZS1pbnRlcm1lZGlhdGUwHhcNMjQwNjAz\n\
MTIwMDAwWhcNMjQwNjAzMTIxMDAwWjAAMFkwEwYHKoZIzj0CAQYIKoZIzj0DAQcD\n\
QgAEbM9XgDZBA03/B+x5KHWfIR4LhkLa7WA6XutPwNM6yNmV4GPGvqIxKB0DeuNQ\n\
AxXtkPhpehVxTtgWRNXMNsFga6NMMEowKQYKKwYBBAGDvzABAQQbaHR0cHM6Ly9h\n\
Y2NvdW50cy5nb29nbGUuY29tMB0GA1UdEQEB/wQTMBGBD2RldkBleGFtcGxlLmNv\n\
bTAKBggqhkjOPQQDAgNIADBFAiEAkG7T4ViK9WH6YnbmrJP8Yua3cP46++j94cUl\n\
+maTNLQCIB7CLlYEGOyUVZU7XyZ9Y3ZNRrSbWX2zP9BOS94iw7o0\n\
-----END CERTIFICATE-----\n\
";

const PLAIN: &str = "-----BEGIN CERTIFICATE-----\n\
MIIBezCCASKgAwIBAgICA+0wCgYIKoZIzj0EAwIwNzEVMBMGA1UECgwMc2lnc3Rv\n\
cmUuZGV2MR4wHAYDVQQDDBVzaWdzdG9yZS1pbnRlcm1lZGlhdGUwHhcNMjQwNjAz\n\
MTIwMDAwWhcNMjQwNjAzMTIxMDAwWjBXMRYwFAYDVQQDDA1maXJzdC5leGFtcGxl\n\
MSUwIwYDVQQDHhwAcwBlAGMAbwBuAGQALgBlAHgAYQBtAHAAbABlMRYwFAYDVQQD\n\
DA10aGlyZC5leGFtcGxlMFkwEwYHKoZIzj0CAQYIKoZIzj0DAQcDQgAEbM9XgDZB\n\
A03/B+x5KHWfIR4LhkLa7WA6XutPwNM6yNmV4GPGvqIxKB0DeuNQAxXtkPhpehVx\n\
TtgWRNXMNsFgazAKBggqhkjOPQQDAgNHADBEAiBj2sNESlgZFffWNJNP0yd6ZGnb\n\
PQrHZAYIBTmbdbgXEgIgHrTQAwsWSuTInQCbEgUvb3r6U0yEaQ3YXTJ/zfOZqFY=\n\
-----END CERTIFICATE-----\n\
";

const EARLY: &str = "-----BEGIN CERTIFICATE-----\n\
MIIBfzCCASagAwIBAgICA+0wCgYIKoZIzj0EAwIwNzEVMBMGA1UECgwMc2lnc3Rv\n\
cmUuZGV2MR4wHAYDVQQDDBVzaWdzdG9yZS1pbnRlcm1lZGlhdGUwHhcNMjQwNjAz\n\
MTIwMDAwWhcNMjQwNjAzMTIxMDAwWjAAMFkwEwYHKoZIzj0CAQYIKoZIzj0DAQcD\n\
QgAEbM9XgDZBA03/B+x5KHWfIR4LhkLa7WA6XutPwNM6yNmV4GPGvqIxKB0DeuNQ\n\
AxXtkPhpehVxTtgWRNXMNsFga6NZMFcwKgYKKwYBBAGDvzABAQQcaHR0cHM6Ly9h\n\
Y2NvdW50cy5leGFtcGxlLmNvbTApBgorBgEEAYO/MAEJBBsMGWh0dHBzOi8vZXhh\n\
bXBsZS5jb20vYnVpbGQwCgYIKoZIzj0EAwIDRwAwRAIgZqr8hxoQFhlD4A7QDa0X\n\
YxqjkT54RaVoq7gWmtlxue0CIDsgWnO5An/s9pvcmpgfcq2Pa+Gej0zFlGfG6nqA\n\
0t2U\n\
-----END CERTIFICATE-----\n\
";

const JUNK: &str = "-----BEGIN CERTIFICATE-----\n\
dGhpcyBpcyBub3QgYSBjZXJ0aWZpY2F0ZSBhdCBhbGw=\n\
-----END CERTIFICATE-----\n\
";

const IDENTITY: &str = "https://github.com/aquasecurity/trivy/.github/workflows/reusable-release.yaml@refs/tags/v0.52.0";

fn layer(annotations: &[(&str, &str)]) -> Layer {
    let mut map = StringMap::new();
    for (key, value) in annotations {
        map.insert(key.to_string(), value.to_string());
    }
    Layer {
        media_type: "application/vnd.dev.cosign.simplesigning.v1+json".to_string(),
        size: 246,
        digest: "sha256:0000000000000000000000000000000000000000000000000000000000000000".to_string(),
        annotations: map,
    }
}

fn signed(pem: &str) -> Layer {
    layer(&[("dev.cosignproject.cosign/signature", "MEUC"), (CERTIFICATE_ANNOTATION, pem)])
}

fn manifest(layers: Option<Vec<Layer>>) -> RegistryManifest {
    RegistryManifest {
        schema_version: 2,
        media_type: "application/vnd.oci.image.manifest.v1+json".to_string(),
        manifests: None,
        layers,
    }
}

fn signature(issuer: &str, identity: &str) -> Signature {
    Signature { issuer: issuer.to_string(), identity: identity.to_string() }
}

fn certificate(extensions: &[(&str, &str)]) -> Certificate {
    Certificate::from_raw(RawCertificate {
        subject: String::new(),
        issuer: String::new(),
        common_names: vec![],
        not_before: 0,
        not_after: 1,
        extensions: extensions
            .iter()
            .map(|(oid, value)| (oid.to_string(), value.as_bytes().to_vec()))
            .collect(),
    })
    .unwrap()
}

#[test]
fn parse_manifest() {
    let docker_manifest = manifest(Some(vec![signed(WORKFLOW)]));

    let got = signature_from_manifest(&docker_manifest, false).unwrap();

    let expected = vec![Signature {
        issuer: "https://token.actions.githubusercontent.com".to_string(),
        identity: "_https://github.com/aquasecurity/trivy/.github/workflows/reusable-release.yaml@refs/tags/v0.52.0".to_string(),
    }];

    assert_eq!(expected, got);
}

#[test]
fn the_annotation_has_its_well_known_name() {
    assert_eq!(CERTIFICATE_ANNOTATION, "dev.sigstore.cosign/certificate");
}

#[test]
fn trimmed_identity_starts_at_the_scheme() {
    let got = signature_from_manifest(&manifest(Some(vec![signed(WORKFLOW)])), true).unwrap();
    assert_eq!(got, vec![signature("https://token.actions.githubusercontent.com", IDENTITY)]);
}

#[test]
fn trim_to_scheme_cases() {
    assert_eq!(trim_to_scheme("_https://a".to_string()), "https://a");
    assert_eq!(trim_to_scheme("https://a".to_string()), "https://a");
    assert_eq!(trim_to_scheme("xhttps://a https://b".to_string()), "https://a https://b");
    assert_eq!(trim_to_scheme("http://a".to_string()), "http://a");
    assert_eq!(trim_to_scheme("".to_string()), "");
    assert_eq!(trim_to_scheme("日本https://".to_string()), "https://");
    assert_eq!(trim_to_scheme("dev@example.com".to_string()), "dev@example.com");
}

#[test]
fn identity_falls_back_to_the_alternative_name() {
    let got = signature_from_manifest(&manifest(Some(vec![signed(MAIL)])), false).unwrap();
    assert_eq!(got, vec![signature("https://accounts.google.com", "0\u{fffd}dev@example.com")]);
}

#[test]
fn claims_of_a_certificate() {
    let full = certificate(&[
        ("1.3.6.1.4.1.57264.1.1", "issuer"),
        ("1.3.6.1.4.1.57264.1.9", "identity"),
        ("2.5.29.17", "alternative"),
    ]);
    assert_eq!(Signature::from_certificate(&full, false), signature("issuer", "identity"));

    let fallback = certificate(&[("2.5.29.17", "alternative")]);
    assert_eq!(Signature::from_certificate(&fallback, false), signature("", "alternative"));

    let none = certificate(&[("1.2.3", "unrelated")]);
    assert_eq!(Signature::from_certificate(&none, false), signature("", ""));
    assert_eq!(Signature::from_certificate(&none, true), signature("", ""));

    let padded = certificate(&[("1.3.6.1.4.1.57264.1.9", "..https://x")]);
    assert_eq!(Signature::from_certificate(&padded, true), signature("", "https://x"));
    assert_eq!(Signature::from_certificate(&padded, false), signature("", "..https://x"));

    let empty_identity = certificate(&[("1.3.6.1.4.1.57264.1.9", ""), ("2.5.29.17", "alternative")]);
    assert_eq!(Signature::from_certificate(&empty_identity, false), signature("", ""));
}

#[test]
fn certificates_without_claims_give_the_empty_claim() {
    let got = signature_from_manifest(&manifest(Some(vec![signed(PLAIN)])), false).unwrap();
    assert_eq!(got, vec![signature("", "")]);
}

#[test]
fn signatures_are_sorted_and_unique() {
    let layers = vec![
        signed(WORKFLOW),
        signed(MAIL),
        signed(WORKFLOW_AGAIN),
        signed(PLAIN),
        signed(EARLY),
        signed(WORKFLOW),
        signed(MAIL),
    ];
    let got = signatures_of_layers(&layers, true).unwrap();
    let expected = vec![
        signature("", ""),
        signature("https://accounts.example.com", "https://example.com/build"),
        signature("https://accounts.google.com", "0\u{fffd}dev@example.com"),
        signature("https://token.actions.githubusercontent.com", IDENTITY),
    ];
    assert_eq!(got, expected);
    let mut resorted = got.clone();
    resorted.sort();
    resorted.dedup();
    assert_eq!(resorted, got);
}

#[test]
fn signature_order_is_by_issuer_then_identity() {
    let certificates = vec![
        certificate(&[("1.3.6.1.4.1.57264.1.1", "b"), ("1.3.6.1.4.1.57264.1.9", "a")]),
        certificate(&[("1.3.6.1.4.1.57264.1.1", "a"), ("1.3.6.1.4.1.57264.1.9", "z")]),
        certificate(&[("1.3.6.1.4.1.57264.1.1", "a"), ("1.3.6.1.4.1.57264.1.9", "b")]),
        certificate(&[("1.3.6.1.4.1.57264.1.1", "ab"), ("1.3.6.1.4.1.57264.1.9", "")]),
        certificate(&[("1.3.6.1.4.1.57264.1.1", "a"), ("1.3.6.1.4.1.57264.1.9", "z")]),
        certificate(&[("1.3.6.1.4.1.57264.1.1", "B"), ("1.3.6.1.4.1.57264.1.9", "é")]),
        certificate(&[("1.3.6.1.4.1.57264.1.1", "B"), ("1.3.6.1.4.1.57264.1.9", "z")]),
    ];
    let got = signatures_of_certificates(&certificates, false);
    let expected = vec![
        signature("B", "z"),
        signature("B", "é"),
        signature("a", "b"),
        signature("a", "z"),
        signature("ab", ""),
        signature("b", "a"),
    ];
    assert_eq!(got, expected);
    let mut by_derive: Vec<Signature> =
        certificates.iter().map(|c| Signature::from_certificate(c, false)).collect();
    by_derive.sort();
    by_derive.dedup();
    assert_eq!(got, by_derive);
    assert_eq!(signatures_of_certificates(&vec![], true), vec![]);
}

#[test]
fn derivation_is_idempotent() {
    let layers = vec![signed(MAIL), signed(WORKFLOW), signed(EARLY)];
    let first = signatures_of_layers(&layers, false).unwrap();
    let second = signatures_of_layers(&layers, false).unwrap();
    assert_eq!(first, second);
}

#[test]
fn layers_without_certificates_give_no_signatures() {
    let unsigned = vec![layer(&[]), layer(&[("org.opencontainers.image.title", "x")])];
    assert_eq!(signature_from_manifest(&manifest(Some(unsigned)), false), Ok(vec![]));
    assert_eq!(signature_from_manifest(&manifest(Some(vec![])), false), Ok(vec![]));
    assert_eq!(signatures_of_layers(&vec![], true), Ok(vec![]));
}

#[test]
fn a_manifest_without_layer_list_has_no_signatures() {
    assert_eq!(signature_from_manifest(&manifest(None), false), Ok(vec![]));
    let mut list = manifest(None);
    list.media_type = "application/vnd.docker.distribution.manifest.list.v2+json".to_string();
    list.manifests = Some(vec![]);
    assert_eq!(signature_from_manifest(&list, true), Ok(vec![]));
}

#[test]
fn the_first_failing_layer_fails_the_derivation() {
    let layers = vec![
        signed(WORKFLOW),
        layer(&[]),
        signed(JUNK),
        signed("not a pem block"),
        signed(MAIL),
    ];
    assert_eq!(
        signatures_of_layers(&layers, false),
        Err(SignatureError { layer: 2, error: CertificateError::MalformedCertificate })
    );
    let layers = vec![signed("not a pem block"), signed(JUNK)];
    assert_eq!(
        signature_from_manifest(&manifest(Some(layers)), true),
        Err(SignatureError { layer: 0, error: CertificateError::MalformedPem })
    );
    let layers = vec![signed(WORKFLOW), signed("")];
    assert_eq!(
        certificates_of_layers(&layers).unwrap_err(),
        SignatureError { layer: 1, error: CertificateError::MalformedPem }
    );
}

#[test]
fn certificates_come_in_layer_order() {
    let layers = vec![signed(MAIL), layer(&[]), signed(PLAIN)];
    let certificates = certificates_of_layers(&layers).unwrap();
    assert_eq!(certificates.len(), 2);
    assert!(certificates[0].extensions.contains_key("1.3.6.1.4.1.57264.1.1"));
    assert_eq!(certificates[1].common_names.len(), 2);
}
