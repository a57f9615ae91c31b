//! Vulnerability findings: their severities, their tally, and the ordered,
//! duplicate-free set in which a scan's findings are kept.

use vstd::prelude::*;
use vstd::string::StringExecFns;
use crate::command::{CommandError, CommandReport};
use crate::image::{canonical, ImageReference};
use crate::ordered::{into_ordered, is_ascending, ordered, strictly_ascending, Keyed};
use crate::text::{compare_str, lemma_str_order, str_lt, Order};

verus! {

/// How grave a finding is, gravest first.
#[derive(Debug, Clone, Copy, PartialEq, Eq, PartialOrd, Ord, Hash, Structural)]
pub enum Severity {
    Critical,
    High,
    Medium,
    Low,
    Unknown,
}

impl Severity {
    /// The position of the severity, 0 for the gravest.
    pub open spec fn rank(self) -> int {
        match self {
            Severity::Critical => 0,
            Severity::High => 1,
            Severity::Medium => 2,
            Severity::Low => 3,
            Severity::Unknown => 4,
        }
    }

    /// The position of the severity, 0 for the gravest.
    pub fn position(&self) -> (r: u8)
        ensures
            r == self.rank(),
    {
        match self {
            Severity::Critical => 0,
            Severity::High => 1,
            Severity::Medium => 2,
            Severity::Low => 3,
            Severity::Unknown => 4,
        }
    }

    /// The name under which scanners report the severity.
    pub fn label(&self) -> (name: &'static str)
        ensures
            name@ == match self {
                Severity::Critical => "CRITICAL"@,
                Severity::High => "HIGH"@,
                Severity::Medium => "MEDIUM"@,
                Severity::Low => "LOW"@,
                Severity::Unknown => "UNKNOWN"@,
            },
    {
        match self {
            Severity::Critical => "CRITICAL",
            Severity::High => "HIGH",
            Severity::Medium => "MEDIUM",
            Severity::Low => "LOW",
            Severity::Unknown => "UNKNOWN",
        }
    }
}

/// A CVSS score, kept as the text it is shown as.
#[derive(Debug, Clone, PartialEq, Eq, PartialOrd, Ord)]
pub struct Score(pub String);

/// The CVSS vectors and scores that one source assigns to a finding.
#[derive(Debug, Clone, PartialEq, Eq, PartialOrd, Ord)]
pub struct Cvss {
    pub v2vector: Option<String>,
    pub v3vector: Option<String>,
    pub v2score: Option<Score>,
    pub v3score: Option<Score>,
}

impl Cvss {
    /// The score to show: the version 2 score where there is one, else the
    /// version 3 score.
    pub fn score(&self) -> (r: Option<&Score>)
        ensures
            match r {
                Some(score) => Some(*score) == if self.v2score is Some {
                    self.v2score
                } else {
                    self.v3score
                },
                None => self.v2score is None && self.v3score is None,
            },
    {
        match &self.v2score {
            Some(score) => Some(score),
            None => match &self.v3score {
                Some(score) => Some(score),
                None => None,
            },
        }
    }
}

/// One finding of a vulnerability scan.
#[derive(Debug, Clone, PartialEq, Eq)]
pub struct Vulnerability {
    pub severity: Severity,
    pub id: String,
    pub references: Option<Vec<String>>,
    pub pkg_name: String,
    pub installed_version: String,
    pub primary_url: Option<String>,
    pub fixed_version: Option<String>,
    pub title: Option<String>,
    /// The CVSS data of each source that rated the finding, by source name.
    pub cvss: Option<Vec<(String, Cvss)>>,
}

/// The order of findings: by severity, gravest first, then by identifier, then
/// by package.
pub open spec fn finding_before(a: Vulnerability, b: Vulnerability) -> bool {
    ||| a.severity.rank() < b.severity.rank()
    ||| a.severity == b.severity && str_lt(a.id@, b.id@)
    ||| a.severity == b.severity && a.id@ == b.id@ && str_lt(a.pkg_name@, b.pkg_name@)
}

impl Keyed for Vulnerability {
    open spec fn before(&self, other: &Self) -> bool {
        finding_before(*self, *other)
    }

    proof fn lemma_strict_order(a: &Self, b: &Self, c: &Self) {
        lemma_str_order(a.id@, b.id@, c.id@);
        lemma_str_order(b.id@, c.id@, a.id@);
        lemma_str_order(c.id@, a.id@, b.id@);
        lemma_str_order(a.id@, c.id@, b.id@);
        lemma_str_order(b.id@, a.id@, c.id@);
        lemma_str_order(c.id@, b.id@, a.id@);
        lemma_str_order(a.pkg_name@, b.pkg_name@, c.pkg_name@);
        lemma_str_order(b.pkg_name@, c.pkg_name@, a.pkg_name@);
        lemma_str_order(c.pkg_name@, a.pkg_name@, b.pkg_name@);
        lemma_str_order(a.pkg_name@, c.pkg_name@, b.pkg_name@);
        lemma_str_order(b.pkg_name@, a.pkg_name@, c.pkg_name@);
        lemma_str_order(c.pkg_name@, b.pkg_name@, a.pkg_name@);
    }

    fn compare(&self, other: &Self) -> (o: Order) {
        proof {
            lemma_str_order(self.id@, other.id@, self.id@);
            lemma_str_order(other.id@, self.id@, other.id@);
            lemma_str_order(self.pkg_name@, other.pkg_name@, self.pkg_name@);
            lemma_str_order(other.pkg_name@, self.pkg_name@, other.pkg_name@);
        }
        let mine = self.severity.position();
        let theirs = other.severity.position();
        if mine < theirs {
            Order::Less
        } else if mine > theirs {
            Order::Greater
        } else {
            match compare_str(self.id.as_str(), other.id.as_str()) {
                Order::Less => Order::Less,
                Order::Greater => Order::Greater,
                Order::Equal => compare_str(self.pkg_name.as_str(), other.pkg_name.as_str()),
            }
        }
    }
}

/// Whether `least` is among `references` and none of them sorts before it.
pub open spec fn is_least_reference(references: Seq<String>, least: Seq<char>) -> bool {
    &&& exists|i: int| 0 <= i < references.len() && (#[trigger] references[i])@ == least
    &&& forall|i: int| 0 <= i < references.len() ==> !str_lt((#[trigger] references[i])@, least)
}

impl Vulnerability {
    /// The address to read about the finding: its primary address where it has
    /// one, else the first of its references in string order.
    pub fn primary_url(&self) -> (r: Option<&str>)
        ensures
            match self.primary_url {
                Some(url) => r is Some && r->Some_0@ == url@,
                None => match self.references {
                    Some(references) => if references@.len() == 0 {
                        r is None
                    } else {
                        r is Some && is_least_reference(references@, r->Some_0@)
                    },
                    None => r is None,
                },
            },
    {
        match &self.primary_url {
            Some(url) => Some(url.as_str()),
            None => match &self.references {
                None => None,
                Some(references) => {
                    if references.len() == 0 {
                        return None;
                    }
                    let mut least: usize = 0;
                    let mut i: usize = 1;
                    proof {
                        lemma_str_order(references@[0]@, references@[0]@, references@[0]@);
                    }
                    while i < references.len()
                        invariant
                            least < i <= references.len(),
                            forall|k: int|
                                0 <= k < i ==> !str_lt(
                                    (#[trigger] references@[k])@,
                                    references@[least as int]@,
                                ),
                        decreases references.len() - i,
                    {
                        match compare_str(references[i].as_str(), references[least].as_str()) {
                            Order::Less => {
                                proof {
                                    let smaller = references@[i as int]@;
                                    let old_least = references@[least as int]@;
                                    assert forall|k: int| 0 <= k < i + 1 implies !str_lt(
                                        (#[trigger] references@[k])@,
                                        smaller,
                                    ) by {
                                        lemma_str_order(references@[k]@, smaller, old_least);
                                        lemma_str_order(smaller, smaller, smaller);
                                    }
                                }
                                least = i;
                            },
                            _ => {},
                        }
                        i += 1;
                    }
                    Some(references[least].as_str())
                },
            },
        }
    }
}

/// How many findings there are of each severity.
#[derive(Debug, Clone, Copy, PartialEq, Eq, Structural)]
pub struct SeverityCount {
    pub critical: usize,
    pub high: usize,
    pub medium: usize,
    pub low: usize,
    pub unknown: usize,
}

/// How many of the findings have the given severity.
pub open spec fn count_of(findings: Seq<Vulnerability>, severity: Severity) -> nat
    decreases findings.len(),
{
    if findings.len() == 0 {
        0
    } else {
        count_of(findings.drop_last(), severity) + if findings.last().severity == severity {
            1nat
        } else {
            0nat
        }
    }
}

/// The counts of all severities together are the number of findings.
pub proof fn lemma_counts_add_up(findings: Seq<Vulnerability>)
    ensures
        count_of(findings, Severity::Critical) + count_of(findings, Severity::High) + count_of(
            findings,
            Severity::Medium,
        ) + count_of(findings, Severity::Low) + count_of(findings, Severity::Unknown)
            == findings.len(),
    decreases findings.len(),
{
    if findings.len() > 0 {
        lemma_counts_add_up(findings.drop_last());
    }
}

/// Whether `count` is the tally of the findings.
pub open spec fn is_tally(count: SeverityCount, findings: Seq<Vulnerability>) -> bool {
    &&& count.critical == count_of(findings, Severity::Critical)
    &&& count.high == count_of(findings, Severity::High)
    &&& count.medium == count_of(findings, Severity::Medium)
    &&& count.low == count_of(findings, Severity::Low)
    &&& count.unknown == count_of(findings, Severity::Unknown)
}

/// Tallies the findings by severity.
pub fn get_vulnerabilities_count(vulnerabilities: &Vec<Vulnerability>) -> (count: SeverityCount)
    ensures
        is_tally(count, vulnerabilities@),
{
    let mut count = SeverityCount { critical: 0, high: 0, medium: 0, low: 0, unknown: 0 };
    let mut i: usize = 0;
    proof {
        assert(vulnerabilities@.take(0) =~= Seq::<Vulnerability>::empty());
    }
    while i < vulnerabilities.len()
        invariant
            i <= vulnerabilities.len(),
            count.critical == count_of(vulnerabilities@.take(i as int), Severity::Critical),
            count.high == count_of(vulnerabilities@.take(i as int), Severity::High),
            count.medium == count_of(vulnerabilities@.take(i as int), Severity::Medium),
            count.low == count_of(vulnerabilities@.take(i as int), Severity::Low),
            count.unknown == count_of(vulnerabilities@.take(i as int), Severity::Unknown),
        decreases vulnerabilities.len() - i,
    {
        proof {
            lemma_counts_add_up(vulnerabilities@.take(i as int));
            assert(vulnerabilities@.take(i + 1).drop_last() =~= vulnerabilities@.take(i as int));
            assert(vulnerabilities@.take(i + 1).last() == vulnerabilities@[i as int]);
        }
        match vulnerabilities[i].severity {
            Severity::Critical => {
                count.critical += 1;
            },
            Severity::High => {
                count.high += 1;
            },
            Severity::Medium => {
                count.medium += 1;
            },
            Severity::Low => {
                count.low += 1;
            },
            Severity::Unknown => {
                count.unknown += 1;
            },
        }
        i += 1;
    }
    proof {
        assert(vulnerabilities@.take(i as int) =~= vulnerabilities@);
    }
    count
}

/// What a scan found for one target of the image.
#[derive(Debug, Clone, PartialEq, Eq)]
pub struct ScanResult {
    pub vulnerabilities: Option<Vec<Vulnerability>>,
}

/// What a scanner reports for an image.
#[derive(Debug, Clone, PartialEq, Eq)]
pub struct ScanOutput {
    pub results: Vec<ScanResult>,
}

/// What is kept of a scan: its findings, ordered and each once, and their
/// tally.
#[derive(Debug, Clone, PartialEq, Eq)]
pub struct ScanSummary {
    pub vulnerabilities: Vec<Vulnerability>,
    pub severity_count: SeverityCount,
}

impl ScanSummary {
    /// Whether the summary is in order: its findings stand in strictly
    /// ascending order of severity, identifier and package, so that none comes
    /// twice, and its tally is that of its findings.
    pub open spec fn well_formed(&self) -> bool {
        strictly_ascending(self.vulnerabilities@) && is_tally(
            self.severity_count,
            self.vulnerabilities@,
        )
    }

    /// Checks that the summary is in order. A summary that was not made by
    /// `summarize`, such as one read back from a cache, is to pass this check
    /// before it is used.
    pub fn is_well_formed(&self) -> (r: bool)
        ensures
            r == self.well_formed(),
    {
        if !is_ascending(&self.vulnerabilities) {
            return false;
        }
        let count = get_vulnerabilities_count(&self.vulnerabilities);
        count.critical == self.severity_count.critical && count.high == self.severity_count.high
            && count.medium == self.severity_count.medium && count.low == self.severity_count.low
            && count.unknown == self.severity_count.unknown
    }
}

/// The findings of all targets, one target after the other.
pub open spec fn findings_of(results: Seq<ScanResult>) -> Seq<Vulnerability>
    decreases results.len(),
{
    if results.len() == 0 {
        Seq::empty()
    } else {
        findings_of(results.drop_last()) + match results.last().vulnerabilities {
            Some(findings) => findings@,
            None => Seq::empty(),
        }
    }
}

/// Gathers the findings of all targets.
pub fn collect_findings(output: ScanOutput) -> (all: Vec<Vulnerability>)
    ensures
        all@ == findings_of(output.results@),
{
    let ghost results = output.results@;
    let mut all: Vec<Vulnerability> = Vec::new();
    proof {
        assert(results.take(0) =~= Seq::<ScanResult>::empty());
    }
    for result in it: output.results
        invariant
            it.seq() == results,
            all@ == findings_of(results.take(it.index())),
    {
        proof {
            assert(results.take(it.index() + 1).drop_last() =~= results.take(it.index()));
            assert(results.take(it.index() + 1).last() == result);
        }
        match result.vulnerabilities {
            Some(findings) => {
                let mut findings = findings;
                all.append(&mut findings);
            },
            None => {
                proof {
                    assert(all@ + Seq::<Vulnerability>::empty() =~= all@);
                }
            },
        }
    }
    proof {
        assert(results.take(results.len() as int) =~= results);
    }
    all
}

/// Summarises a scanner's report: the findings of all targets as an ordered
/// collection, in which of several findings with the same severity, identifier
/// and package the first is kept, and the tally of that collection.
pub fn summarize(output: ScanOutput) -> (summary: ScanSummary)
    ensures
        summary.vulnerabilities@ == ordered(findings_of(output.results@)),
        summary.well_formed(),
{
    let vulnerabilities = into_ordered(collect_findings(output));
    let severity_count = get_vulnerabilities_count(&vulnerabilities);
    ScanSummary { vulnerabilities, severity_count }
}

/// What to scan, and how.
#[derive(Debug, Clone, PartialEq, Eq)]
pub struct ScanRequest {
    pub image: ImageReference,
    /// The scanner server to delegate to, if any.
    pub server: Option<String>,
    pub username: Option<String>,
    pub password: Option<String>,
}

/// `text`, unless it is empty.
pub open spec fn unless_empty(text: String) -> Option<String> {
    if text@.len() == 0 {
        None
    } else {
        Some(text)
    }
}

/// The arguments of the scanner for a request: the image subcommand with JSON
/// output, the server where one is given, then the image.
pub open spec fn scan_arguments(request: ScanRequest) -> Seq<Seq<char>> {
    seq!["image"@, "--format"@, "json"@] + match request.server {
        Some(server) => seq!["--server"@, server@],
        None => Seq::empty(),
    } + seq![canonical(request.image@)]
}

/// The environment of the scanner for a request: the credentials, where both
/// a user name and a password are given.
pub open spec fn scan_environment(request: ScanRequest) -> Seq<(Seq<char>, Seq<char>)> {
    match (request.username, request.password) {
        (Some(username), Some(password)) => seq![
            ("TRIVY_USERNAME"@, username@),
            ("TRIVY_PASSWORD"@, password@),
        ],
        _ => Seq::empty(),
    }
}

fn non_empty(text: String) -> (r: Option<String>)
    ensures
        r == unless_empty(text),
{
    if text.as_str().is_empty() {
        None
    } else {
        Some(text)
    }
}

impl ScanRequest {
    /// Builds the request for what a user submitted. An empty user name or
    /// password counts as none.
    pub fn from_form(
        image: ImageReference,
        server: Option<String>,
        username: String,
        password: String,
    ) -> (request: ScanRequest)
        ensures
            request.image == image,
            request.server == server,
            request.username == unless_empty(username),
            request.password == unless_empty(password),
    {
        ScanRequest {
            image,
            server,
            username: non_empty(username),
            password: non_empty(password),
        }
    }

    /// The arguments to run the scanner with.
    pub fn arguments(&self) -> (arguments: Vec<String>)
        ensures
            arguments@.map_values(|a: String| a@) == scan_arguments(*self),
    {
        let mut arguments: Vec<String> = Vec::new();
        arguments.push(String::from_str("image"));
        arguments.push(String::from_str("--format"));
        arguments.push(String::from_str("json"));
        match &self.server {
            Some(server) => {
                arguments.push(String::from_str("--server"));
                arguments.push(server.clone());
            },
            None => {},
        }
        arguments.push(self.image.canonical());
        proof {
            assert(arguments@.map_values(|a: String| a@) =~= scan_arguments(*self));
        }
        arguments
    }

    /// The environment variables to run the scanner with.
    pub fn environment(&self) -> (environment: Vec<(String, String)>)
        ensures
            environment@.map_values(|e: (String, String)| (e.0@, e.1@)) == scan_environment(*self),
    {
        let mut environment: Vec<(String, String)> = Vec::new();
        match (&self.username, &self.password) {
            (Some(username), Some(password)) => {
                environment.push((String::from_str("TRIVY_USERNAME"), username.clone()));
                environment.push((String::from_str("TRIVY_PASSWORD"), password.clone()));
            },
            _ => {},
        }
        proof {
            assert(environment@.map_values(|e: (String, String)| (e.0@, e.1@)) =~= scan_environment(
                *self,
            ));
        }
        environment
    }
}

/// Judges how a scanner run ended: a run that the scanner reports as failed
/// fails with what it wrote to its error stream, and a run that succeeded gives
/// the report that its output parses to.
pub fn scan_outcome<E>(report: CommandReport<ScanOutput, E>) -> (r: Result<
    ScanOutput,
    CommandError<E>,
>)
    ensures
        r == match report.success {
            false => match report.stderr {
                Ok(message) => Err::<ScanOutput, CommandError<E>>(CommandError::Rejected(message)),
                Err(cause) => Err(CommandError::Unreadable(cause)),
            },
            true => match report.parsed {
                Ok(output) => Ok(output),
                Err(cause) => Err(CommandError::Malformed(cause)),
            },
        },
{
    if !report.success {
        match report.stderr {
            Ok(message) => Err(CommandError::Rejected(message)),
            Err(cause) => Err(CommandError::Unreadable(cause)),
        }
    } else {
        match report.parsed {
            Ok(output) => Ok(output),
            Err(cause) => Err(CommandError::Malformed(cause)),
        }
    }
}

} // verus!
