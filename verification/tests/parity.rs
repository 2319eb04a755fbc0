use pystamps::parity::{ParityComparison, ParityRunSummary};
use serde::ser::{Serialize, SerializeStruct, Serializer};

/// The record as the parity reports write it.
struct Record<'a>(&'a ParityComparison);

impl Serialize for Record<'_> {
    fn serialize<S: Serializer>(&self, serializer: S) -> Result<S::Ok, S::Error> {
        let c = self.0;
        let mut record = serializer.serialize_struct("ParityComparison", 9)?;
        record.serialize_field("stage", &c.stage)?;
        record.serialize_field("scope", &c.scope)?;
        record.serialize_field("fixture", &c.fixture)?;
        record.serialize_field("artifact", &c.artifact)?;
        record.serialize_field("variable", &c.variable)?;
        record.serialize_field("ok", &c.ok)?;
        record.serialize_field("rtol", &f64::from_bits(c.rtol))?;
        record.serialize_field("atol", &f64::from_bits(c.atol))?;
        record.serialize_field("message", &c.message)?;
        record.end()
    }
}

#[test]
fn summary_reports_failures() {
    let summary = ParityRunSummary {
        comparisons: vec![
            ParityComparison::pass(1, "patch", "synthetic", "ps1.mat", "ij", 0.0f64.to_bits(), 0.0f64.to_bits()),
            ParityComparison::fail(
                1,
                "patch",
                "synthetic",
                "ph1.mat",
                "ph",
                1e-6f64.to_bits(),
                1e-9f64.to_bits(),
                "shape mismatch",
            ),
        ],
    };

    assert!(!summary.all_ok());
    assert_eq!(summary.failures().len(), 1);
}

#[test]
fn pass_and_fail_record_their_fields() {
    let passed = ParityComparison::pass(3, "patch", "fixture", "ps1.mat", "ij", 1e-6f64.to_bits(), 0.5f64.to_bits());
    assert_eq!(passed.stage, 3);
    assert_eq!(passed.scope, "patch");
    assert_eq!(passed.fixture, "fixture");
    assert_eq!(passed.artifact, "ps1.mat");
    assert_eq!(passed.variable, "ij");
    assert!(passed.ok);
    assert_eq!(f64::from_bits(passed.rtol), 1e-6);
    assert_eq!(f64::from_bits(passed.atol), 0.5);
    assert_eq!(passed.message, "ok");
    let failed = ParityComparison::fail(5, "merged", "f", "ps2.mat", "n_ps", 0, 0, "count differs");
    assert!(!failed.ok);
    assert_eq!(failed.message, "count differs");
    assert_eq!(failed.variable, "n_ps");
}

#[test]
fn failures_come_out_in_order() {
    let summary = ParityRunSummary {
        comparisons: vec![
            ParityComparison::fail(1, "patch", "a", "x.mat", "first", 0, 0, "one"),
            ParityComparison::pass(1, "patch", "a", "x.mat", "second", 0, 0),
            ParityComparison::fail(1, "patch", "a", "x.mat", "third", 0, 0, "three"),
        ],
    };
    let failures = summary.failures();
    assert_eq!(failures.len(), 2);
    assert_eq!(failures[0].variable, "first");
    assert_eq!(failures[1].variable, "third");
    assert!(!summary.all_ok());
}

#[test]
fn empty_or_passing_summary_is_all_ok() {
    assert!(ParityRunSummary { comparisons: vec![] }.all_ok());
    let summary = ParityRunSummary {
        comparisons: vec![ParityComparison::pass(2, "patch", "a", "pm1.mat", "K_ps", 0, 0)],
    };
    assert!(summary.all_ok());
    assert!(summary.failures().is_empty());
}

#[test]
fn comparison_serializes_prd_fields() {
    let comparison = ParityComparison::pass(1, "patch", "fixture", "ps1.mat", "ij", 0.0f64.to_bits(), 0.0f64.to_bits());
    let json = serde_json::to_string(&Record(&comparison)).unwrap();

    assert!(json.contains("\"stage\":1"));
    assert!(json.contains("\"scope\":\"patch\""));
    assert!(json.contains("\"ok\":true"));
}
