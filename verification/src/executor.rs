use vstd::prelude::*;
use vstd::string::StrSliceExecFns;
use vstd::utf8::encode_utf8;
use crate::execution_plan::{plan_wf, ExecutionPlan};
use crate::hashing::{be_u64_first8, be_u64_of, sha256, sha256_of};
use crate::text::{dec_bytes, push_dec_bytes};
use crate::vu_runner::RequestSpec;

verus! {

/// How a failed request failed.
#[derive(Debug, Clone, Copy, PartialEq, Eq, Structural)]
pub enum ErrorType {
    Timeout,
    ConnectionError,
    Other,
}

/// The outcome of one executed request, as the metrics aggregator folds it.
#[derive(Debug)]
pub struct ResponseResult {
    pub ok: bool,
    pub latency_ms: u64,
    pub latency_us: u64,
    pub error_kind: Option<ErrorType>,
    pub endpoint_key: String,
    pub journey_name: String,
    pub journey_id: u64,
    pub stage_index: u64,
    pub stage_start_ms: u64,
}

/// The capability the run engine needs of a transport: execute one request
/// against the plan's target and report its outcome.
pub trait ExecutorAbstract {
    fn execute(&self, plan: &ExecutionPlan, request: &RequestSpec, tick_idx: u64) -> (r: Result<
        ResponseResult,
        String,
    >)
        requires
            plan_wf(*plan),
            request.journey_id < plan.journeys@.len(),
    ;
}

/// The bytes the mock executor hashes: path, scenario name and tick index,
/// joined by dashes.
pub open spec fn mock_key_bytes(path: Seq<char>, scenario_name: Seq<char>, tick_idx: u64) -> Seq<
    u8,
> {
    encode_utf8(path) + seq![45u8] + encode_utf8(scenario_name) + seq![45u8] + dec_bytes(
        tick_idx as nat,
    )
}

/// The deterministic latency the mock executor reports: the first eight
/// bytes of the key's SHA-256 digest, read big-endian, modulo 100.
pub open spec fn mock_latency_ms(path: Seq<char>, scenario_name: Seq<char>, tick_idx: u64) -> nat {
    be_u64_of(sha256_of(mock_key_bytes(path, scenario_name, tick_idx))) % 100
}

/// The deterministic executor: every request succeeds with a latency hashed
/// from its path, the scenario's name and the tick index. No time passes.
#[derive(Debug)]
pub struct ExecutorMock {}

impl ExecutorMock {
    /// A mock executor.
    pub fn new() -> (r: ExecutorMock) {
        ExecutorMock {}
    }

    /// The mock outcome of a request: success, with the deterministic
    /// latency, under the request's own endpoint key and journey.
    pub fn execute(&self, plan: &ExecutionPlan, request: &RequestSpec, tick_idx: u64) -> (r:
        Result<ResponseResult, String>)
        requires
            plan_wf(*plan),
            request.journey_id < plan.journeys@.len(),
        ensures
            r matches Ok(res) && {
                &&& res.ok == true
                &&& res.latency_ms == mock_latency_ms(
                    request.path@,
                    plan.scenario_name@,
                    tick_idx,
                )
                &&& res.latency_us == res.latency_ms * 1000
                &&& res.error_kind.is_none()
                &&& res.endpoint_key@ == request.endpoint_key@
                &&& res.journey_name@ == plan.journeys@.index(request.journey_id as int)@.name
                &&& res.journey_id == request.journey_id
                &&& res.stage_index == request.stage_index
                &&& res.stage_start_ms == 0
            },
    {
        let mut key: Vec<u8> = request.path.as_str().as_bytes_vec();
        key.push(45);  // '-'
        let name_bytes = plan.scenario_name.as_str().as_bytes_vec();
        let ghost mid = key@;
        let mut i: usize = 0;
        while i < name_bytes.len()
            invariant
                i <= name_bytes@.len(),
                key@ == mid + name_bytes@.take(i as int),
            decreases name_bytes@.len() - i,
        {
            let b = name_bytes[i];
            key.push(b);
            proof {
                assert(mid + name_bytes@.take(i + 1) =~= (mid + name_bytes@.take(i as int)).push(
                    name_bytes@.index(i as int),
                ));
            }
            i = i + 1;
        }
        proof {
            assert(name_bytes@.take(name_bytes@.len() as int) == name_bytes@);
        }
        key.push(45);  // '-'
        push_dec_bytes(&mut key, tick_idx);
        proof {
            assert(key@ =~= mock_key_bytes(request.path@, plan.scenario_name@, tick_idx));
        }
        let digest = sha256(key.as_slice());
        let n = be_u64_first8(&digest);
        let latency_ms = n % 100;
        let journey = match plan.get_journey(request.journey_id as i32) {
            Ok(j) => j,
            Err(_) => {
                proof {
                    assert(false);
                }
                return Err("invalid journey".to_owned());
            },
        };
        Ok(
            ResponseResult {
                ok: true,
                latency_ms,
                latency_us: latency_ms * 1000,
                error_kind: None,
                endpoint_key: request.endpoint_key.clone(),
                journey_name: journey.name.clone(),
                journey_id: request.journey_id,
                stage_index: request.stage_index,
                stage_start_ms: 0,
            },
        )
    }
}

impl ExecutorAbstract for ExecutorMock {
    fn execute(&self, plan: &ExecutionPlan, request: &RequestSpec, tick_idx: u64) -> (r: Result<
        ResponseResult,
        String,
    >) {
        ExecutorMock::execute(self, plan, request, tick_idx)
    }
}

} // verus!
