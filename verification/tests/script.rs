use bitcoin_block_hash::codec::{Input, Output};
use bitcoin_block_hash::error::{AggregationError, DecodeError, RegistryMisuseError, ScriptError};
use bitcoin_block_hash::registry::{ExternalRequest, Phase, RequestRegistry, Transition};
use bitcoin_block_hash::reports::ReportStore;
use bitcoin_block_hash::script::{
    decimal_bytes, execute, execute_impl, prepare, prepare_impl, BLOCK_HASH_SLOT,
    BLOCK_HASH_SOURCE, MIN_REPORT_COUNT,
};

const HASH: &str = "00000000000000000abc";

fn answered(values: &[&str]) -> Vec<Option<Vec<u8>>> {
    values.iter().map(|s| Some(s.as_bytes().to_vec())).collect()
}

fn preparing() -> RequestRegistry {
    let mut registry = RequestRegistry::new();
    assert_eq!(registry.advance(Transition::BeginPrepare), Ok(()));
    registry
}

#[test]
fn three_requests_get_slots_one_two_three() {
    let mut registry = preparing();
    assert_eq!(registry.request(7, 1, b"a".to_vec()), Ok(1));
    assert_eq!(registry.request(7, 1, b"a".to_vec()), Ok(2));
    assert_eq!(registry.request(9, 4, b"b".to_vec()), Ok(3));
    assert_eq!(registry.len(), 3);
    let expected = vec![
        ExternalRequest { data_source_id: 7, min_report_count: 1, payload: b"a".to_vec() },
        ExternalRequest { data_source_id: 7, min_report_count: 1, payload: b"a".to_vec() },
        ExternalRequest { data_source_id: 9, min_report_count: 4, payload: b"b".to_vec() },
    ];
    assert_eq!(registry.requests(), &expected);
}

#[test]
fn slots_start_fresh_for_each_registry() {
    let mut first = preparing();
    assert_eq!(first.request(7, 1, Vec::new()), Ok(1));
    assert_eq!(first.request(7, 1, Vec::new()), Ok(2));
    let mut second = preparing();
    assert_eq!(second.request(7, 1, Vec::new()), Ok(1));
}

#[test]
fn request_outside_prepare_is_misuse() {
    let mut registry = RequestRegistry::new();
    assert_eq!(registry.request(7, 1, Vec::new()), Err(RegistryMisuseError::Misuse));
    assert_eq!(registry.len(), 0);

    let mut done = preparing();
    assert_eq!(done.request(7, 1, Vec::new()), Ok(1));
    assert_eq!(done.advance(Transition::Finish), Ok(()));
    assert_eq!(done.request(7, 1, Vec::new()), Err(RegistryMisuseError::Misuse));
    assert_eq!(done.len(), 1);

    let mut executing = RequestRegistry::new();
    assert_eq!(executing.advance(Transition::BeginExecute), Ok(()));
    assert_eq!(executing.request(7, 1, Vec::new()), Err(RegistryMisuseError::Misuse));
    assert_eq!(executing.advance(Transition::Finish), Ok(()));
    assert_eq!(executing.request(7, 1, Vec::new()), Err(RegistryMisuseError::Misuse));
}

#[test]
fn phases_follow_the_state_machine() {
    let mut registry = RequestRegistry::new();
    assert_eq!(registry.phase(), Phase::Uninvoked);
    assert_eq!(registry.advance(Transition::Finish), Err(RegistryMisuseError::Misuse));
    assert_eq!(registry.phase(), Phase::Uninvoked);
    assert_eq!(registry.advance(Transition::BeginPrepare), Ok(()));
    assert_eq!(registry.phase(), Phase::Preparing);
    assert_eq!(registry.advance(Transition::BeginPrepare), Err(RegistryMisuseError::Misuse));
    assert_eq!(registry.advance(Transition::BeginExecute), Err(RegistryMisuseError::Misuse));
    assert_eq!(registry.phase(), Phase::Preparing);
    assert_eq!(registry.advance(Transition::Finish), Ok(()));
    assert_eq!(registry.phase(), Phase::PrepareDone);
    assert_eq!(registry.advance(Transition::Finish), Err(RegistryMisuseError::Misuse));
    assert_eq!(registry.advance(Transition::BeginExecute), Err(RegistryMisuseError::Misuse));
    assert_eq!(registry.phase(), Phase::PrepareDone);

    let mut other = RequestRegistry::new();
    assert_eq!(other.advance(Transition::BeginExecute), Ok(()));
    assert_eq!(other.phase(), Phase::Executing);
    assert_eq!(other.advance(Transition::BeginPrepare), Err(RegistryMisuseError::Misuse));
    assert_eq!(other.advance(Transition::Finish), Ok(()));
    assert_eq!(other.phase(), Phase::ExecuteDone);
    assert_eq!(other.advance(Transition::BeginExecute), Err(RegistryMisuseError::Misuse));
}

#[test]
fn decimal_bytes_are_ascii_digits() {
    assert_eq!(decimal_bytes(0), b"0".to_vec());
    assert_eq!(decimal_bytes(7), b"7".to_vec());
    assert_eq!(decimal_bytes(10), b"10".to_vec());
    assert_eq!(decimal_bytes(800000), b"800000".to_vec());
    assert_eq!(decimal_bytes(u64::MAX), b"18446744073709551615".to_vec());
    for n in [0u64, 9, 99, 100, 101, 1234567890, u64::MAX - 1] {
        assert_eq!(decimal_bytes(n), n.to_string().into_bytes());
    }
}

#[test]
fn script_constants() {
    assert_eq!(BLOCK_HASH_SOURCE, 7);
    assert_eq!(MIN_REPORT_COUNT, 1);
    assert_eq!(BLOCK_HASH_SLOT, 1);
}

#[test]
fn prepare_impl_issues_one_request() {
    let mut registry = preparing();
    assert_eq!(prepare_impl(Input { block_height: 800000 }, &mut registry), Ok(()));
    assert_eq!(registry.phase(), Phase::Preparing);
    let expected = vec![ExternalRequest {
        data_source_id: 7,
        min_report_count: 1,
        payload: b"800000".to_vec(),
    }];
    assert_eq!(registry.requests(), &expected);
}

#[test]
fn prepare_impl_outside_prepare_is_misuse() {
    let mut registry = RequestRegistry::new();
    assert_eq!(
        prepare_impl(Input { block_height: 1 }, &mut registry),
        Err(RegistryMisuseError::Misuse)
    );
    assert_eq!(registry.len(), 0);
    assert_eq!(registry.phase(), Phase::Uninvoked);
}

#[test]
fn prepare_rejects_malformed_input() {
    assert_eq!(
        prepare(&[1, 2, 3]).unwrap_err(),
        ScriptError::Decode(DecodeError::Malformed)
    );
    assert_eq!(prepare(&[]).unwrap_err(), ScriptError::Decode(DecodeError::Malformed));
    assert_eq!(prepare(&[0; 16]).unwrap_err(), ScriptError::Decode(DecodeError::Malformed));
}

#[test]
fn prepare_is_repeatable() {
    let raw = Input { block_height: 123456 }.encode();
    let first = prepare(&raw).unwrap();
    let second = prepare(&raw).unwrap();
    assert_eq!(first.requests(), second.requests());
    assert_eq!(first.len(), 1);
    assert_eq!(first.requests()[0].payload, b"123456".to_vec());
}

#[test]
fn end_to_end_block_hash() {
    let raw_input = Input { block_height: 800000 }.encode();

    let registry = prepare(&raw_input).unwrap();
    assert_eq!(registry.phase(), Phase::PrepareDone);
    assert_eq!(registry.len(), 1);
    let request = &registry.requests()[0];
    assert_eq!(request.data_source_id, 7);
    assert_eq!(request.min_report_count, 1);
    assert_eq!(request.payload, b"800000".to_vec());

    let store = ReportStore::new(vec![answered(&[HASH, HASH, "ff"])]);
    assert_eq!(store.majority(1), Ok(HASH.to_string()));

    let raw_output = execute(&raw_input, &store).unwrap();
    assert_eq!(Output::decode(&raw_output), Ok(Output { block_hash: HASH.to_string() }));
    let mut expected = vec![20, 0, 0, 0];
    expected.extend_from_slice(HASH.as_bytes());
    assert_eq!(raw_output, expected);
    assert_eq!(raw_output, borsh::to_vec(HASH).unwrap());
}

#[test]
fn execute_without_majority_produces_no_output() {
    let raw_input = Input { block_height: 800000 }.encode();
    let store = ReportStore::new(vec![answered(&["aaa", "bbb"])]);
    assert_eq!(
        store.majority(1),
        Err(ScriptError::Aggregation(AggregationError::NoMajority))
    );
    assert_eq!(
        execute(&raw_input, &store),
        Err(ScriptError::Aggregation(AggregationError::NoMajority))
    );
}

#[test]
fn execute_rejects_malformed_input() {
    let store = ReportStore::new(vec![answered(&[HASH])]);
    assert_eq!(execute(&[0; 7], &store), Err(ScriptError::Decode(DecodeError::Malformed)));
    assert_eq!(execute(&[], &store), Err(ScriptError::Decode(DecodeError::Malformed)));
}

#[test]
fn execute_decodes_the_input_before_it_aggregates() {
    let store = ReportStore::new(Vec::new());
    assert_eq!(execute(&[0; 3], &store), Err(ScriptError::Decode(DecodeError::Malformed)));
}

#[test]
fn execute_without_the_slot_is_misuse() {
    let raw_input = Input { block_height: 800000 }.encode();
    let store = ReportStore::new(Vec::new());
    assert_eq!(
        execute(&raw_input, &store),
        Err(ScriptError::RegistryMisuse(RegistryMisuseError::Misuse))
    );
}

#[test]
fn execute_is_deterministic() {
    let raw_input = Input { block_height: 800000 }.encode();
    let first = ReportStore::new(vec![answered(&[HASH, "ff", HASH])]);
    let second = ReportStore::new(vec![answered(&[HASH, "ff", HASH])]);
    let a = execute(&raw_input, &first);
    let b = execute(&raw_input, &second);
    assert_eq!(a, b);
    assert_eq!(a, execute(&raw_input, &first));
    assert!(a.is_ok());
}

#[test]
fn execute_reads_only_its_own_slot() {
    let raw_input = Input { block_height: 1 }.encode();
    let store = ReportStore::new(vec![answered(&["x"]), answered(&["y", "z"])]);
    assert_eq!(execute(&raw_input, &store), Ok(vec![1, 0, 0, 0, b'x']));
}

#[test]
fn execute_impl_wraps_the_majority_value() {
    let store = ReportStore::new(vec![answered(&["h", "g", "h"])]);
    assert_eq!(
        execute_impl(Input { block_height: 5 }, &store),
        Ok(Output { block_hash: "h".to_string() })
    );
}
