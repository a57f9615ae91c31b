use trivy_web::image::{trim, Identifier, ImageParts, ImageReference};

fn reference(registry: &str, repository: Option<&str>, name: &str, identifier: Identifier) -> ImageReference {
    ImageReference {
        registry: registry.to_string(),
        repository: repository.map(str::to_string),
        image_name: name.to_string(),
        identifier,
    }
}

fn tag(text: &str) -> Identifier {
    Identifier::Tag(text.to_string())
}

#[test]
fn parses_registry_repository_name_and_tag() {
    let image = ImageReference::parse("ghcr.io/aquasecurity/trivy:0.52.0").unwrap();
    assert_eq!(image, reference("ghcr.io", Some("aquasecurity"), "trivy", tag("0.52.0")));
    assert_eq!(image.canonical(), "ghcr.io/aquasecurity/trivy:0.52.0");
    assert_eq!(image.path(), "ghcr.io/aquasecurity/trivy");
}

#[test]
fn parses_a_digest_reference() {
    let text = "quay.io/jetstack/cert-manager-controller@sha256:9c0527cab629b61bd60c20f0c25615a8593314d3504add968b42bc5b891b253a";
    let image = ImageReference::parse(text).unwrap();
    assert_eq!(
        image.identifier,
        Identifier::Digest(
            "sha256:9c0527cab629b61bd60c20f0c25615a8593314d3504add968b42bc5b891b253a".to_string()
        )
    );
    assert_eq!(image.registry, "quay.io");
    assert_eq!(image.repository, Some("jetstack".to_string()));
    assert_eq!(image.image_name, "cert-manager-controller");
    assert_eq!(image.canonical(), text);
}

#[test]
fn fills_in_the_defaults() {
    let image = ImageReference::parse("alpine").unwrap();
    assert_eq!(image, reference("index.docker.io", Some("library"), "alpine", tag("latest")));
    assert_eq!(image.canonical(), "index.docker.io/library/alpine:latest");

    let image = ImageReference::parse("prom/prometheus:v2.53.2").unwrap();
    assert_eq!(image, reference("index.docker.io", Some("prom"), "prometheus", tag("v2.53.2")));

    let image = ImageReference::parse("registry.access.redhat.com/ubi8:8.9").unwrap();
    assert_eq!(image, reference("registry.access.redhat.com", None, "ubi8", tag("8.9")));
    assert_eq!(image.canonical(), "registry.access.redhat.com/ubi8:8.9");
    assert_eq!(image.path(), "registry.access.redhat.com/ubi8");
}

#[test]
fn joins_namespace_and_repository() {
    let image = ImageReference::parse("ghcr.io/sigstore/cosign/cosign:v2.2.4").unwrap();
    assert_eq!(image, reference("ghcr.io", Some("sigstore/cosign"), "cosign", tag("v2.2.4")));
    assert_eq!(image.canonical(), "ghcr.io/sigstore/cosign/cosign:v2.2.4");
}

#[test]
fn canonical_text_parses_back() {
    for text in [
        "ghcr.io/aquasecurity/trivy:0.52.0",
        "index.docker.io/library/alpine:latest",
        "registry.access.redhat.com/ubi8:8.9",
        "ghcr.io/sigstore/cosign/cosign:v2.2.4",
        "localhost:5000/team/app@sha256:aa",
    ] {
        let image = ImageReference::parse(text).unwrap();
        assert_eq!(image.canonical(), text);
        assert_eq!(ImageReference::parse(&image.canonical()).unwrap(), image);
    }
}

#[test]
fn drops_white_space_around_the_reference() {
    let image = ImageReference::parse("  ghcr.io/aquasecurity/trivy:0.52.0\n").unwrap();
    assert_eq!(image.canonical(), "ghcr.io/aquasecurity/trivy:0.52.0");
    let image = ImageReference::parse("\t alpine \r\n").unwrap();
    assert_eq!(image.image_name, "alpine");
}

#[test]
fn rejects_what_is_no_reference() {
    assert!(ImageReference::parse("a/b/c/d/e").is_none());
    assert!(ImageReference::parse("nodomain/repo/name:1").is_none());
}

#[test]
fn builds_from_parts() {
    let parts = ImageParts {
        registry: "r.example".to_string(),
        namespace: Some("ns".to_string()),
        repository: Some("repo".to_string()),
        name: "app".to_string(),
        tag: Some("1".to_string()),
        digest: Some("sha256:bb".to_string()),
    };
    let image = ImageReference::from_parts(parts.clone());
    assert_eq!(
        image,
        reference("r.example", Some("ns/repo"), "app", Identifier::Digest("sha256:bb".to_string()))
    );
    assert_eq!(image.canonical(), "r.example/ns/repo/app@sha256:bb");

    let mut bare = parts.clone();
    bare.namespace = None;
    bare.repository = None;
    bare.tag = None;
    bare.digest = None;
    let image = ImageReference::from_parts(bare);
    assert_eq!(image, reference("r.example", None, "app", tag("latest")));

    let mut only_namespace = parts;
    only_namespace.repository = None;
    only_namespace.digest = None;
    let image = ImageReference::from_parts(only_namespace);
    assert_eq!(image, reference("r.example", Some("ns"), "app", tag("1")));
}

#[test]
fn trim_drops_white_space_at_both_ends() {
    assert_eq!(trim(""), "");
    assert_eq!(trim("   "), "");
    assert_eq!(trim("a"), "a");
    assert_eq!(trim(" a b "), "a b");
    assert_eq!(trim("\u{3000}a\u{a0}"), "a");
    assert_eq!(trim("\u{200b}a"), "\u{200b}a");
    assert_eq!(trim("\n\t x \r\n"), "x");
}

#[test]
fn trim_agrees_with_the_standard_library() {
    for code in 0..=0x10ffff_u32 {
        if let Some(c) = char::from_u32(code) {
            let text = format!("{c}x{c}");
            assert_eq!(trim(&text), text.trim(), "U+{code:04X}");
        }
    }
}

#[test]
fn canonical_text_is_what_the_registry_client_prints() {
    for text in [
        "alpine",
        "alpine:3.20",
        "prom/prometheus:v2.53.2",
        "ghcr.io/aquasecurity/trivy:0.52.0",
        "quay.io/openshift-community-operators/external-secrets-operator:v0.9.9",
        "registry.access.redhat.com/ubi8:8.9",
        "ghcr.io/sigstore/cosign/cosign:v2.2.4",
        "docker.io/library/alpine",
        "localhost:5000/app@sha256:aa",
        "public.ecr.aws/lambda/python:3.12",
    ] {
        let printed = text.parse::<docker_registry_client::Image>().unwrap().to_string();
        assert_eq!(ImageReference::parse(text).unwrap().canonical(), printed, "{text}");
    }
}
