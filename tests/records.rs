use feos_params::{
    BinaryRecord, CountType, FromSegments, Identifier, IdentifierOption, ParameterError, PureRecord,
    SegmentRecord,
};

fn id_cas(cas: &str) -> Identifier {
    Identifier::new(Some(cas.to_string()), None, None, None, None, None)
}

fn id_cas_name(cas: &str, name: &str) -> Identifier {
    Identifier::new(Some(cas.to_string()), Some(name.to_string()), None, None, None, None)
}

fn rec(cas: &str, payload: u32) -> PureRecord<u32> {
    PureRecord::new(id_cas(cas), 1_000_000, payload)
}

fn req(keys: &[&str]) -> Vec<String> {
    keys.iter().map(|k| k.to_string()).collect()
}

fn payloads(v: &[PureRecord<u32>]) -> Vec<u32> {
    v.iter().map(|r| r.model_record).collect()
}

#[test]
fn resolve_keeps_request_order() {
    let records = vec![rec("B", 2), rec("A", 1), rec("C", 3)];
    let out = PureRecord::resolve(&req(&["C", "A", "B"]), records, IdentifierOption::Cas).unwrap();
    assert_eq!(payloads(&out), vec![3, 1, 2]);
    let keys: Vec<String> = out.iter().map(|r| r.identifier.cas.clone().unwrap()).collect();
    assert_eq!(keys, req(&["C", "A", "B"]));
}

#[test]
fn resolve_subset_of_library() {
    let records = vec![rec("A", 1), rec("B", 2), rec("C", 3), rec("D", 4)];
    let out = PureRecord::resolve(&req(&["D", "B"]), records, IdentifierOption::Cas).unwrap();
    assert_eq!(payloads(&out), vec![4, 2]);
}

#[test]
fn resolve_duplicate_request() {
    let records = vec![rec("A", 1)];
    let r = PureRecord::resolve(&req(&["A", "A"]), records, IdentifierOption::Cas);
    assert_eq!(r.unwrap_err(), ParameterError::DuplicateRequest);
}

#[test]
fn resolve_duplicate_request_without_records() {
    let r = PureRecord::<u32>::resolve(&req(&["A", "B", "A"]), vec![], IdentifierOption::Cas);
    assert_eq!(r.unwrap_err(), ParameterError::DuplicateRequest);
}

#[test]
fn resolve_reports_missing_substance() {
    let records = vec![rec("A", 1), rec("B", 2)];
    let r = PureRecord::resolve(&req(&["A", "B", "C"]), records, IdentifierOption::Cas);
    assert_eq!(r.unwrap_err(), ParameterError::UnresolvedSubstances(req(&["C"])));
}

#[test]
fn resolve_reports_all_missing_in_request_order() {
    let records = vec![rec("B", 2)];
    let r = PureRecord::resolve(&req(&["Z", "B", "X"]), records, IdentifierOption::Cas);
    assert_eq!(r.unwrap_err(), ParameterError::UnresolvedSubstances(req(&["Z", "X"])));
}

#[test]
fn resolve_first_match_wins() {
    let records = vec![rec("A", 1), rec("A", 2)];
    let out = PureRecord::resolve(&req(&["A"]), records, IdentifierOption::Cas).unwrap();
    assert_eq!(payloads(&out), vec![1]);
}

#[test]
fn resolve_ignores_records_after_exhaustion() {
    let long = PureRecord::resolve(
        &req(&["A"]),
        vec![rec("A", 1), rec("B", 2), rec("C", 3)],
        IdentifierOption::Cas,
    )
    .unwrap();
    let short = PureRecord::resolve(&req(&["A"]), vec![rec("A", 1)], IdentifierOption::Cas).unwrap();
    assert_eq!(payloads(&long), payloads(&short));
    assert_eq!(payloads(&long), vec![1]);
}

#[test]
fn resolve_by_name_skips_records_without_name() {
    let records = vec![
        PureRecord::new(id_cas("74-82-8"), 16_042_600, 1u32),
        PureRecord::new(id_cas_name("74-84-0", "ethane"), 30_069_000, 2u32),
        PureRecord::new(id_cas_name("74-82-8", "methane"), 16_042_600, 3u32),
    ];
    let out =
        PureRecord::resolve(&req(&["methane", "ethane"]), records, IdentifierOption::Name).unwrap();
    assert_eq!(payloads(&out), vec![3, 2]);
    assert_eq!(out[1].molarweight, 30_069_000);
}

#[test]
fn resolve_empty_request() {
    let out = PureRecord::resolve(&[], vec![rec("A", 1)], IdentifierOption::Cas).unwrap();
    assert!(out.is_empty());
}

#[test]
fn identifier_as_str_selects_field() {
    let id = Identifier::new(
        Some("74-82-8".to_string()),
        Some("methane".to_string()),
        None,
        Some("C".to_string()),
        None,
        Some("CH4".to_string()),
    );
    assert_eq!(id.as_str(IdentifierOption::Cas).map(|s| s.as_str()), Some("74-82-8"));
    assert_eq!(id.as_str(IdentifierOption::Name).map(|s| s.as_str()), Some("methane"));
    assert_eq!(id.as_str(IdentifierOption::IupacName), None);
    assert_eq!(id.as_str(IdentifierOption::Smiles).map(|s| s.as_str()), Some("C"));
    assert_eq!(id.as_str(IdentifierOption::Inchi), None);
    assert_eq!(id.as_str(IdentifierOption::Formula).map(|s| s.as_str()), Some("CH4"));
}

#[test]
fn binary_record_keeps_identifier_order() {
    let b = BinaryRecord::new(id_cas("1"), id_cas("2"), 7i32);
    assert_eq!(b.id1.cas, Some("1".to_string()));
    assert_eq!(b.id2.cas, Some("2".to_string()));
    assert_eq!(b.model_record, 7);
}

/// A model whose parameter is the count-weighted sum of its segments' parameters;
/// it rejects an empty list of segments.
#[derive(Debug, Clone, PartialEq)]
struct SumModel {
    a: u64,
}

impl FromSegments<CountType> for SumModel {
    fn from_segments(segments: &[(Self, CountType)]) -> Result<Self, ParameterError> {
        if segments.is_empty() {
            return Err(ParameterError::Aggregation("no segments".to_string()));
        }
        let mut a = 0;
        for (s, n) in segments {
            a += n.apply_count(s.a);
        }
        Ok(SumModel { a })
    }
}

fn seg(name: &str, mw: u64, a: u64) -> SegmentRecord<SumModel> {
    SegmentRecord::new(name.to_string(), mw, SumModel { a })
}

#[test]
fn from_segments_accumulates_molarweight() {
    // 2 x 10.0 g/mol + 3 x 5.0 g/mol = 35.0 g/mol
    let segments = vec![
        (seg("CH2", 10_000_000, 1), CountType::Integral(2)),
        (seg("CH3", 5_000_000, 10), CountType::Integral(3)),
    ];
    let r = PureRecord::from_segments(id_cas("x"), segments).unwrap();
    assert_eq!(r.molarweight, 35_000_000);
    assert_eq!(r.model_record, SumModel { a: 32 });
    assert_eq!(r.identifier.cas, Some("x".to_string()));
}

#[test]
fn from_segments_fractional_counts() {
    // 0.5 x 16.0426 g/mol + 1.25 x 4.0 g/mol
    let segments = vec![
        (seg("a", 16_042_600, 4), CountType::Fractional(500_000)),
        (seg("b", 4_000_000, 8), CountType::Fractional(1_250_000)),
    ];
    let r = PureRecord::from_segments(id_cas("y"), segments).unwrap();
    assert_eq!(r.molarweight, 8_021_300 + 5_000_000);
    assert_eq!(r.model_record, SumModel { a: 2 + 10 });
}

#[test]
fn from_segments_passes_model_error_on() {
    let r = PureRecord::<SumModel>::from_segments(id_cas("z"), vec![]);
    assert_eq!(r.unwrap_err(), ParameterError::Aggregation("no segments".to_string()));
}

#[test]
fn apply_count_scales() {
    assert_eq!(CountType::Integral(3).apply_count(7), 21);
    assert_eq!(CountType::Fractional(250_000).apply_count(10), 2);
    assert_eq!(CountType::Fractional(1_000_000).apply_count(10), 10);
    assert_eq!(CountType::Integral(0).apply_count(10), 0);
}
