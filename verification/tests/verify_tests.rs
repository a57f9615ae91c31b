use trivy_web::command::{CommandError, CommandReport};
use trivy_web::image::ImageReference;
use trivy_web::verify::{
    verification_key, verify_arguments, verify_outcome, CosignImage, CosignVerify, Critical,
    Identity, Optional, VerifySignature,
};

fn accepted() -> Vec<VerifySignature> {
    vec![VerifySignature {
        critical: Critical {
            identity: Identity { docker_reference: "ghcr.io/aquasecurity/trivy".to_string() },
            image: CosignImage { digest: "sha256:aa".to_string() },
            cosign_type: "cosign container image signature".to_string(),
        },
        optional: Some(Optional { sig: "MEUC".to_string() }),
    }]
}

#[test]
fn the_verifier_is_run_with_the_key_on_the_image() {
    let image = ImageReference::parse("ghcr.io/aquasecurity/trivy:0.52.0").unwrap();
    assert_eq!(
        verify_arguments("cosign.pub", &image),
        vec![
            "verify",
            "--private-infrastructure=true",
            "--output=json",
            "--key",
            "cosign.pub",
            "ghcr.io/aquasecurity/trivy:0.52.0"
        ]
    );
}

#[test]
fn an_empty_key_means_no_verification() {
    assert_eq!(verification_key(String::new()), None);
    assert_eq!(verification_key("k".to_string()), Some("k".to_string()));
    assert_eq!(verification_key(" ".to_string()), Some(" ".to_string()));
}

#[test]
fn a_successful_run_gives_message_and_signatures() {
    let report = CommandReport::<Vec<VerifySignature>, String> {
        success: true,
        stderr: Ok("Verification for ghcr.io/aquasecurity/trivy:0.52.0 --\n".to_string()),
        parsed: Ok(accepted()),
    };
    assert_eq!(
        verify_outcome(report),
        Ok(CosignVerify {
            message: "Verification for ghcr.io/aquasecurity/trivy:0.52.0 --\n".to_string(),
            signatures: accepted(),
        })
    );
}

#[test]
fn a_failed_run_gives_its_error_stream() {
    let report = CommandReport::<Vec<VerifySignature>, String> {
        success: false,
        stderr: Ok("Error: no matching signatures\n".to_string()),
        parsed: Ok(accepted()),
    };
    assert_eq!(
        verify_outcome(report),
        Err(CommandError::Rejected("Error: no matching signatures\n".to_string()))
    );
}

#[test]
fn an_unreadable_error_stream_fails_either_way() {
    for success in [true, false] {
        let report = CommandReport::<Vec<VerifySignature>, String> {
            success,
            stderr: Err("invalid utf-8".to_string()),
            parsed: Ok(accepted()),
        };
        assert_eq!(verify_outcome(report), Err(CommandError::Unreadable("invalid utf-8".to_string())));
    }
}

#[test]
fn unparsable_output_is_malformed() {
    let report = CommandReport::<Vec<VerifySignature>, String> {
        success: true,
        stderr: Ok(String::new()),
        parsed: Err("EOF while parsing".to_string()),
    };
    assert_eq!(verify_outcome(report), Err(CommandError::Malformed("EOF while parsing".to_string())));
}
