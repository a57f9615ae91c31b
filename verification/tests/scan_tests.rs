use trivy_web::command::{CommandError, CommandReport};
use trivy_web::image::ImageReference;
use trivy_web::scan::{
    collect_findings, get_vulnerabilities_count, scan_outcome, summarize, Cvss, ScanOutput,
    ScanRequest, ScanResult, Score, Severity, SeverityCount, Vulnerability,
};

fn finding(severity: Severity, id: &str, package: &str) -> Vulnerability {
    Vulnerability {
        severity,
        id: id.to_string(),
        references: None,
        pkg_name: package.to_string(),
        installed_version: "1.0".to_string(),
        primary_url: None,
        fixed_version: None,
        title: None,
        cvss: None,
    }
}

fn output(targets: Vec<Option<Vec<Vulnerability>>>) -> ScanOutput {
    ScanOutput {
        results: targets.into_iter().map(|vulnerabilities| ScanResult { vulnerabilities }).collect(),
    }
}

fn score(text: &str) -> Option<Score> {
    Some(Score(text.to_string()))
}

#[test]
fn counts_two_critical_and_one_medium() {
    let findings = vec![
        finding(Severity::Critical, "CVE-2024-0001", "openssl"),
        finding(Severity::Medium, "CVE-2024-0002", "zlib"),
        finding(Severity::Critical, "CVE-2024-0003", "glibc"),
    ];
    assert_eq!(
        get_vulnerabilities_count(&findings),
        SeverityCount { critical: 2, high: 0, medium: 1, low: 0, unknown: 0 }
    );
}

#[test]
fn counts_every_severity() {
    let findings = vec![
        finding(Severity::Low, "a", "p"),
        finding(Severity::Unknown, "b", "p"),
        finding(Severity::High, "c", "p"),
        finding(Severity::Low, "d", "p"),
        finding(Severity::High, "e", "p"),
        finding(Severity::High, "f", "p"),
        finding(Severity::Medium, "g", "p"),
        finding(Severity::Critical, "h", "p"),
    ];
    assert_eq!(
        get_vulnerabilities_count(&findings),
        SeverityCount { critical: 1, high: 3, medium: 1, low: 2, unknown: 1 }
    );
    assert_eq!(
        get_vulnerabilities_count(&vec![]),
        SeverityCount { critical: 0, high: 0, medium: 0, low: 0, unknown: 0 }
    );
}

#[test]
fn severities_are_ordered_gravest_first() {
    let all = [Severity::Critical, Severity::High, Severity::Medium, Severity::Low, Severity::Unknown];
    for (place, severity) in all.iter().enumerate() {
        assert_eq!(severity.position() as usize, place);
    }
    assert!(Severity::Critical < Severity::High);
    assert!(Severity::Low < Severity::Unknown);
}

#[test]
fn severities_have_their_labels() {
    assert_eq!(Severity::Critical.label(), "CRITICAL");
    assert_eq!(Severity::High.label(), "HIGH");
    assert_eq!(Severity::Medium.label(), "MEDIUM");
    assert_eq!(Severity::Low.label(), "LOW");
    assert_eq!(Severity::Unknown.label(), "UNKNOWN");
}

#[test]
fn the_version_two_score_comes_first() {
    let both = Cvss { v2vector: None, v3vector: None, v2score: score("5"), v3score: score("7.5") };
    assert_eq!(both.score(), Some(&Score("5".to_string())));
    let newer = Cvss { v2vector: None, v3vector: None, v2score: None, v3score: score("7.5") };
    assert_eq!(newer.score(), Some(&Score("7.5".to_string())));
    let older = Cvss { v2vector: None, v3vector: None, v2score: score("5"), v3score: None };
    assert_eq!(older.score(), Some(&Score("5".to_string())));
    let none = Cvss { v2vector: Some("AV:N".to_string()), v3vector: None, v2score: None, v3score: None };
    assert_eq!(none.score(), None);
}

#[test]
fn the_primary_url_comes_before_the_references() {
    let mut with_both = finding(Severity::High, "CVE-1", "p");
    with_both.primary_url = Some("https://avd.aquasec.com/nvd/cve-1".to_string());
    with_both.references = Some(vec!["https://a.example".to_string()]);
    assert_eq!(with_both.primary_url(), Some("https://avd.aquasec.com/nvd/cve-1"));
}

#[test]
fn the_least_reference_stands_in_for_the_primary_url() {
    let mut only_references = finding(Severity::High, "CVE-1", "p");
    only_references.references = Some(vec![
        "https://c.example".to_string(),
        "https://a.example/z".to_string(),
        "https://b.example".to_string(),
        "https://a.example".to_string(),
        "https://a.example".to_string(),
    ]);
    assert_eq!(only_references.primary_url(), Some("https://a.example"));

    let mut single = finding(Severity::High, "CVE-1", "p");
    single.references = Some(vec!["x".to_string()]);
    assert_eq!(single.primary_url(), Some("x"));

    let mut empty = finding(Severity::High, "CVE-1", "p");
    empty.references = Some(vec![]);
    assert_eq!(empty.primary_url(), None);
    assert_eq!(finding(Severity::High, "CVE-1", "p").primary_url(), None);
}

#[test]
fn findings_of_all_targets_are_gathered_in_order() {
    let report = output(vec![
        Some(vec![finding(Severity::Low, "b", "p"), finding(Severity::High, "a", "p")]),
        None,
        Some(vec![]),
        Some(vec![finding(Severity::Low, "b", "p")]),
    ]);
    let all = collect_findings(report);
    let ids: Vec<(Severity, &str)> = all.iter().map(|v| (v.severity, v.id.as_str())).collect();
    assert_eq!(ids, vec![(Severity::Low, "b"), (Severity::High, "a"), (Severity::Low, "b")]);
    assert_eq!(collect_findings(output(vec![])), vec![]);
}

#[test]
fn the_summary_is_ordered_and_holds_each_finding_once() {
    let mut repeated = finding(Severity::Critical, "CVE-2024-0001", "openssl");
    repeated.installed_version = "2.0".to_string();
    let report = output(vec![
        Some(vec![
            finding(Severity::Medium, "CVE-2024-0002", "zlib"),
            finding(Severity::Critical, "CVE-2024-0003", "glibc"),
            finding(Severity::Critical, "CVE-2024-0001", "openssl"),
        ]),
        None,
        Some(vec![
            repeated,
            finding(Severity::Critical, "CVE-2024-0001", "libssl"),
            finding(Severity::Unknown, "A", "a"),
            finding(Severity::Medium, "CVE-2024-0002", "zlib"),
        ]),
    ]);
    let summary = summarize(report);
    let keys: Vec<(Severity, &str, &str)> = summary
        .vulnerabilities
        .iter()
        .map(|v| (v.severity, v.id.as_str(), v.pkg_name.as_str()))
        .collect();
    assert_eq!(
        keys,
        vec![
            (Severity::Critical, "CVE-2024-0001", "libssl"),
            (Severity::Critical, "CVE-2024-0001", "openssl"),
            (Severity::Critical, "CVE-2024-0003", "glibc"),
            (Severity::Medium, "CVE-2024-0002", "zlib"),
            (Severity::Unknown, "A", "a"),
        ]
    );
    // Of two findings with one key the first is kept.
    assert_eq!(summary.vulnerabilities[1].installed_version, "1.0");
    assert_eq!(
        summary.severity_count,
        SeverityCount { critical: 3, high: 0, medium: 1, low: 0, unknown: 1 }
    );
}

#[test]
fn the_summary_of_two_critical_and_one_medium() {
    let report = output(vec![Some(vec![
        finding(Severity::Critical, "CVE-2024-0001", "openssl"),
        finding(Severity::Critical, "CVE-2024-0003", "glibc"),
        finding(Severity::Medium, "CVE-2024-0002", "zlib"),
    ])]);
    assert_eq!(
        summarize(report).severity_count,
        SeverityCount { critical: 2, high: 0, medium: 1, low: 0, unknown: 0 }
    );
    let nothing = summarize(output(vec![None]));
    assert_eq!(nothing.vulnerabilities, vec![]);
    assert_eq!(nothing.severity_count, SeverityCount { critical: 0, high: 0, medium: 0, low: 0, unknown: 0 });
}

#[test]
fn empty_credentials_count_as_none() {
    let image = ImageReference::parse("ghcr.io/aquasecurity/trivy:0.52.0").unwrap();
    let request = ScanRequest::from_form(image.clone(), None, String::new(), String::new());
    assert_eq!(request.username, None);
    assert_eq!(request.password, None);
    assert_eq!(request.server, None);
    assert_eq!(request.image, image);
    let request = ScanRequest::from_form(image, Some("trivy:4954".to_string()), "me".to_string(), String::new());
    assert_eq!(request.username, Some("me".to_string()));
    assert_eq!(request.password, None);
    assert_eq!(request.server, Some("trivy:4954".to_string()));
}

#[test]
fn the_scanner_is_run_on_the_image() {
    let image = ImageReference::parse("ghcr.io/aquasecurity/trivy:0.52.0").unwrap();
    let local = ScanRequest::from_form(image.clone(), None, String::new(), String::new());
    assert_eq!(local.arguments(), vec!["image", "--format", "json", "ghcr.io/aquasecurity/trivy:0.52.0"]);
    assert_eq!(local.environment(), vec![]);

    let remote =
        ScanRequest::from_form(image, Some("trivy:4954".to_string()), "me".to_string(), "secret".to_string());
    assert_eq!(
        remote.arguments(),
        vec!["image", "--format", "json", "--server", "trivy:4954", "ghcr.io/aquasecurity/trivy:0.52.0"]
    );
    assert_eq!(
        remote.environment(),
        vec![
            ("TRIVY_USERNAME".to_string(), "me".to_string()),
            ("TRIVY_PASSWORD".to_string(), "secret".to_string())
        ]
    );
}

#[test]
fn credentials_are_passed_only_in_full() {
    let image = ImageReference::parse("alpine").unwrap();
    let no_password = ScanRequest::from_form(image.clone(), None, "me".to_string(), String::new());
    assert_eq!(no_password.environment(), vec![]);
    let no_username = ScanRequest::from_form(image, None, String::new(), "secret".to_string());
    assert_eq!(no_username.environment(), vec![]);
}

#[test]
fn a_scanner_run_is_judged_by_its_status() {
    let report = output(vec![None]);
    let good = CommandReport::<ScanOutput, String> {
        success: true,
        stderr: Err("not text".to_string()),
        parsed: Ok(report.clone()),
    };
    assert_eq!(scan_outcome(good), Ok(report.clone()));

    let unparsed = CommandReport::<ScanOutput, String> {
        success: true,
        stderr: Ok(String::new()),
        parsed: Err("expected value at line 1".to_string()),
    };
    assert_eq!(scan_outcome(unparsed), Err(CommandError::Malformed("expected value at line 1".to_string())));

    let rejected = CommandReport::<ScanOutput, String> {
        success: false,
        stderr: Ok("FATAL image not found\n".to_string()),
        parsed: Ok(report),
    };
    assert_eq!(scan_outcome(rejected), Err(CommandError::Rejected("FATAL image not found\n".to_string())));

    let unreadable = CommandReport::<ScanOutput, String> {
        success: false,
        stderr: Err("invalid utf-8".to_string()),
        parsed: Err("unused".to_string()),
    };
    assert_eq!(scan_outcome(unreadable), Err(CommandError::Unreadable("invalid utf-8".to_string())));
}

#[test]
fn a_summary_is_in_order_when_ordered_and_tallied() {
    let made = summarize(output(vec![Some(vec![
        finding(Severity::Medium, "CVE-2", "zlib"),
        finding(Severity::Critical, "CVE-3", "glibc"),
        finding(Severity::Critical, "CVE-1", "openssl"),
    ])]));
    assert!(made.is_well_formed());

    let mut miscounted = made.clone();
    miscounted.severity_count.high = 1;
    assert!(!miscounted.is_well_formed());

    let mut unordered = made.clone();
    unordered.vulnerabilities.swap(0, 2);
    assert!(!unordered.is_well_formed());

    let mut repeated = made.clone();
    repeated.vulnerabilities.push(finding(Severity::Medium, "CVE-2", "zlib"));
    repeated.severity_count.medium = 2;
    assert!(!repeated.is_well_formed());

    let empty = summarize(output(vec![]));
    assert!(empty.is_well_formed());
}
