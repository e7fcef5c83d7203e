//! The two entry points of the script, and the logic behind each.
use vstd::prelude::*;
use crate::codec::{input_parse, string_fits, string_wire, Input, Output};
use crate::error::{DecodeError, EncodeError, RegistryMisuseError, ScriptError};
use crate::registry::{Phase, RegistryView, RequestRegistry, RequestView, Transition};
use crate::reports::{majority_outcome, ReportStore};

verus! {

/// The data source that serves Bitcoin block hashes.
pub const BLOCK_HASH_SOURCE: i64 = 7;

/// The number of reporters that must answer the request.
pub const MIN_REPORT_COUNT: i64 = 1;

/// The slot of the script's only request.
pub const BLOCK_HASH_SLOT: u64 = 1;

/// The decimal digits of `n` in ASCII, without leading zeros.
pub open spec fn decimal(n: nat) -> Seq<u8>
    decreases n,
{
    if n < 10 {
        seq![(48 + n) as u8]
    } else {
        decimal(n / 10).push((48 + n % 10) as u8)
    }
}

/// The request that the script makes for an input.
pub open spec fn block_hash_request(input: Input) -> RequestView {
    RequestView {
        data_source_id: BLOCK_HASH_SOURCE,
        min_report_count: MIN_REPORT_COUNT,
        payload: decimal(input.block_height as nat),
    }
}

/// What the execute phase returns for the raw input and the reports.
pub open spec fn execute_outcome(raw_input: Seq<u8>, store: Seq<Seq<Option<Seq<u8>>>>) -> Result<
    Seq<u8>,
    ScriptError,
> {
    match input_parse(raw_input) {
        None => Err(ScriptError::Decode(DecodeError::Malformed)),
        Some(_) => match majority_outcome(store, BLOCK_HASH_SLOT) {
            Err(e) => Err(e),
            Ok(hash) => if string_fits(hash) {
                Ok(string_wire(hash))
            } else {
                Err(ScriptError::Encode(EncodeError::TooLong))
            },
        },
    }
}

/// Appends the decimal digits of `n` to `out`.
pub fn push_decimal(n: u64, out: &mut Vec<u8>)
    ensures
        final(out)@ == old(out)@ + decimal(n as nat),
    decreases n,
{
    if n >= 10 {
        push_decimal(n / 10, out);
    }
    let digit: u8 = 48u8 + (n % 10) as u8;
    out.push(digit);
    proof {
        assert(final(out)@ =~= old(out)@ + decimal(n as nat));
    }
}

/// The decimal digits of `n` in ASCII.
pub fn decimal_bytes(n: u64) -> (r: Vec<u8>)
    ensures
        r@ == decimal(n as nat),
{
    let mut out: Vec<u8> = Vec::new();
    push_decimal(n, &mut out);
    assert(out@ =~= decimal(n as nat));
    out
}

/// The script's prepare logic: one request to the block hash source, with
/// the height in decimal as payload. Fails, and changes nothing, exactly
/// when the registry is not preparing.
pub fn prepare_impl(input: Input, registry: &mut RequestRegistry) -> (r: Result<
    (),
    RegistryMisuseError,
>)
    ensures
        old(registry)@.phase == Phase::Preparing ==> r is Ok
            && final(registry)@ == old(registry)@.with_request(block_hash_request(input)),
        old(registry)@.phase != Phase::Preparing ==> r == Err::<(), RegistryMisuseError>(
            RegistryMisuseError::Misuse,
        ) && final(registry)@ == old(registry)@,
{
    let payload = decimal_bytes(input.block_height);
    match registry.request(BLOCK_HASH_SOURCE, MIN_REPORT_COUNT, payload) {
        Ok(_) => Ok(()),
        Err(e) => Err(e),
    }
}

/// The script's execute logic: the block hash is the majority value of
/// the script's slot.
pub fn execute_impl(_input: Input, store: &ReportStore) -> (r: Result<Output, ScriptError>)
    ensures
        match majority_outcome(store@, BLOCK_HASH_SLOT) {
            Ok(hash) => r is Ok && r.unwrap().block_hash@ == hash,
            Err(e) => r is Err && r.unwrap_err() == e,
        },
{
    match store.majority(BLOCK_HASH_SLOT) {
        Ok(hash) => Ok(Output { block_hash: hash }),
        Err(e) => Err(e),
    }
}

/// The prepare entry point. Decodes the input and runs the prepare logic
/// on a fresh registry, which it returns in its final phase. Fails exactly
/// when the input does not decode.
pub fn prepare(raw_input: &[u8]) -> (r: Result<RequestRegistry, ScriptError>)
    ensures
        match input_parse(raw_input@) {
            Some(input) => r is Ok && r.unwrap()@ == (RegistryView {
                phase: Phase::PrepareDone,
                requests: seq![block_hash_request(input)],
            }),
            None => r is Err && r.unwrap_err() == ScriptError::Decode(DecodeError::Malformed),
        },
{
    let input = match Input::decode(raw_input) {
        Ok(input) => input,
        Err(e) => {
            return Err(ScriptError::Decode(e));
        },
    };
    let mut registry = RequestRegistry::new();
    if let Err(e) = registry.advance(Transition::BeginPrepare) {
        return Err(ScriptError::RegistryMisuse(e));
    }
    if let Err(e) = prepare_impl(input, &mut registry) {
        return Err(ScriptError::RegistryMisuse(e));
    }
    if let Err(e) = registry.advance(Transition::Finish) {
        return Err(ScriptError::RegistryMisuse(e));
    }
    proof {
        assert(registry@.requests =~= seq![block_hash_request(input)]);
    }
    Ok(registry)
}

/// The execute entry point. Decodes the input, runs the execute logic on
/// the collected reports and encodes its output. There is no partial
/// result: any failure is the whole outcome.
pub fn execute(raw_input: &[u8], store: &ReportStore) -> (r: Result<Vec<u8>, ScriptError>)
    ensures
        match execute_outcome(raw_input@, store@) {
            Ok(bytes) => r is Ok && r.unwrap()@ == bytes,
            Err(e) => r is Err && r.unwrap_err() == e,
        },
{
    let input = match Input::decode(raw_input) {
        Ok(input) => input,
        Err(e) => {
            return Err(ScriptError::Decode(e));
        },
    };
    let output = match execute_impl(input, store) {
        Ok(output) => output,
        Err(e) => {
            return Err(e);
        },
    };
    match output.encode() {
        Ok(bytes) => Ok(bytes),
        Err(e) => Err(ScriptError::Encode(e)),
    }
}

/// The outcome of the execute phase depends on nothing but the decoded
/// input and the reports: two invocations that agree on both agree on
/// the output bytes, or on the failure.
pub proof fn lemma_execute_deterministic(
    raw_a: Seq<u8>,
    store_a: Seq<Seq<Option<Seq<u8>>>>,
    raw_b: Seq<u8>,
    store_b: Seq<Seq<Option<Seq<u8>>>>,
)
    requires
        input_parse(raw_a) == input_parse(raw_b),
        store_a == store_b,
    ensures
        execute_outcome(raw_a, store_a) == execute_outcome(raw_b, store_b),
{
}

/// The request that the prepare phase makes is the first of its
/// invocation, so it gets the slot that the execute phase reads.
pub proof fn lemma_prepare_matches_execute(input: Input)
    ensures
        ({
            let fresh = RegistryView { phase: Phase::Preparing, requests: Seq::empty() };
            &&& fresh.next_slot() == BLOCK_HASH_SLOT
            &&& fresh.with_request(block_hash_request(input)).requests[BLOCK_HASH_SLOT - 1]
                == block_hash_request(input)
            &&& fresh.with_request(block_hash_request(input)).requests.len() == 1
        }),
{
}

} // verus!
