//! Laws of the configuration, and of what is made of an answer.

use crate::rpc::action::{
    Failure, RpcRequestBlockWorkRequest, RpcRequestTransactionWorkRequest,
};
use crate::rpc::jsonrpc::{
    self, Id, InvalidParams, Reply, RpcCustomError, UnexpectedParams,
};
use crate::rpc::keys::{self, Pubkey, Signature};
use crate::rpc::params;
use crate::rpc::state::{
    self, ConfigError, ConfigRpc, ConfigRpcCallJson, RequestProcessor, State,
};
use crate::rpc::work::{self, Encoded, SubmitOutcome, SubmitStep};
use crate::text;
use vstd::prelude::*;

verus! {

// ------------------------------------------------------- the configuration

/// Whether a configuration names a method to serve.
pub open spec fn named(config: ConfigRpc, call: ConfigRpcCallJson) -> bool {
    exists|i: int| 0 <= i < config.calls_jsonrpc@.len() && config.calls_jsonrpc@[i] == call
}

/// Whether no node of a configuration may be asked a method.
pub open spec fn nowhere(config: ConfigRpc, call: ConfigRpcCallJson) -> bool {
    forall|j: int|
        0 <= j < config.upstreams@.len() ==> !(#[trigger] config.upstreams@[j]).calls@.contains(
            call,
        )
}

/// Whether every method that has no local source can be served.
pub open spec fn servable(config: ConfigRpc) -> bool {
    named(config, ConfigRpcCallJson::GetClusterNodes) || named(
        config,
        ConfigRpcCallJson::GetLeaderSchedule,
    ) ==> !nowhere(config, ConfigRpcCallJson::GetClusterNodes) && !nowhere(
        config,
        ConfigRpcCallJson::GetLeaderSchedule,
    )
}

/// Whether a state holds what a configuration says.
pub open spec fn holds(state: State, config: ConfigRpc) -> bool {
    &&& state.gsfa_limit == config.gsfa_limit
    &&& state.gtfa_limit_signatures == config.gtfa_limit_signatures
    &&& state.gtfa_limit_full == config.gtfa_limit_full
    &&& state.gss_transaction_history == config.gss_transaction_history
    &&& state.grpf_percentile == config.grpf_percentile
    &&& state.upstreams == config.upstreams
    &&& state.health_check_slot_distance == config.health_check_slot_distance
}

/// Whether a configuration is accepted.
proof fn lemma_servable(config: ConfigRpc)
    ensures
        config.accepted() <==> servable(config),
{
    assert(config.upstreams.len() <= usize::MAX);
    assert forall|call: ConfigRpcCallJson| #[trigger]
        config.has_upstream(call) <==> !nowhere(config, call) by {
        state::law_first_supporting(config.upstreams@, call, 0);
        if let Some(k) = state::first_supporting(config.upstreams@, call, 0) {
            assert(config.upstreams@[k as int].supports(call));
        } else {
            assert forall|j: int| 0 <= j < config.upstreams@.len() implies !(
            #[trigger] config.upstreams@[j]).calls@.contains(call) by {
                assert(!config.upstreams@[j].supports(call));
            }
        }
    }
    assert(config.has_upstream(ConfigRpcCallJson::GetClusterNodes) <==> !nowhere(
        config,
        ConfigRpcCallJson::GetClusterNodes,
    ));
}

/// A configuration is accepted exactly where every method without a local
/// source can be served, and the state then holds what it says.
pub proof fn law_state_holds_what_is_configured(config: ConfigRpc, r: Result<State, ConfigError>)
    requires
        call_ensures(State::new, (config,), r),
    ensures
        r is Ok <==> servable(config),
        r matches Ok(state) ==> holds(state, config),
{
    lemma_servable(config);
}

/// Every method that the configuration names is registered, once, and no
/// other. The newest slot of the cluster is polled exactly where the health is
/// served and there is a node to ask.
#[verifier::spinoff_prover]
pub proof fn law_named_methods_are_registered(
    config: ConfigRpc,
    r: Result<RequestProcessor, ConfigError>,
    call: ConfigRpcCallJson,
)
    requires
        call_ensures(state::create_request_processor, (config,), r),
    ensures
        r is Ok <==> servable(config),
        r matches Ok(processor) ==> {
            &&& processor.handlers@.contains(call) <==> named(config, call)
            &&& processor.handlers@.no_duplicates()
            &&& holds(processor.state, config)
            &&& processor.polls_cluster_slot <==> named(config, ConfigRpcCallJson::GetHealth)
                && config.health_check_rpc
        },
{
    lemma_servable(config);
    state::law_registered_exactly_the_served(state::all_calls(), config, call);
    state::law_all_calls_complete(call);
    state::lemma_served_once(state::all_calls(), config);
}

/// A slot of the cluster that was polled is taken as it is, and one that was
/// not is unknown.
pub proof fn law_polled_slot_is_taken(polled: Option<u64>, r: u64)
    requires
        call_ensures(state::polled_slot, (polled,), r),
    ensures
        polled is Some ==> r == polled->0,
        polled is None ==> r == 0,
{
}

// ------------------------------------------------------- encoding

/// A request that was handed to the workers is waited for, one that finds the
/// queue full is handed over again, and one that finds no workers fails.
pub proof fn law_full_queue_is_tried_again(outcome: SubmitOutcome, step: SubmitStep)
    requires
        call_ensures(work::on_submit, (outcome,), step),
    ensures
        outcome is Sent <==> step is Await,
        outcome is Full <==> step is Retry,
        step matches SubmitStep::Retry { micros } ==> micros == 250,
        step matches SubmitStep::Fail(failure) ==> failure is WorkersDisconnected,
{
}

/// What the workers answer is taken as it is.
pub proof fn law_encoded_answer_is_taken<T>(answer: Option<T>, r: Result<T, Failure>)
    requires
        call_ensures(work::on_encoded::<T>, (answer,), r),
    ensures
        answer is Some ==> r == Ok::<T, Failure>(answer->0),
        answer is None ==> r is Err && r->Err_0 is EncodedReplyLost,
{
}

/// An encoding is given as it is, a version that the client does not support
/// is told, and what cannot be decoded is a failure.
pub proof fn law_encoding_is_given<T>(
    encoded: Encoded<T>,
    block: Result<Result<T, Reply>, Failure>,
    transaction: Result<Result<T, Reply>, Failure>,
)
    requires
        call_ensures(RpcRequestBlockWorkRequest::process::<T>, (encoded,), block),
        call_ensures(RpcRequestTransactionWorkRequest::process::<T>, (encoded,), transaction),
    ensures
        encoded matches Encoded::Value(value) ==> block == Ok::<Result<T, Reply>, Failure>(
            Ok(value),
        ) && transaction == block,
        encoded matches Encoded::UnsupportedVersion(version) ==> block == Ok::<
            Result<T, Reply>,
            Failure,
        >(Err(Reply::Custom(RpcCustomError::UnsupportedTransactionVersion(version))))
            && transaction == block,
        encoded is MalformedBytes ==> block->Err_0 is BlockDecodeProtobuf
            && transaction->Err_0 is TransactionDecodeProtobuf && block is Err && transaction is Err,
        encoded is Malformed ==> block->Err_0 is BlockDecode
            && transaction->Err_0 is TransactionDecode && block is Err && transaction is Err,
{
}

// ------------------------------------------------------- answers

/// An answer carries the identifier of its request and what the request is
/// answered. What another node answered is handed on byte for byte.
pub proof fn law_answer_is_that_of_the_request(id: Id, reply: Reply, r: Vec<u8>)
    requires
        call_ensures(jsonrpc::respond, (&id, reply), r),
    ensures
        reply matches Reply::Forward(bytes) ==> r@ == bytes@,
        reply matches Reply::Success(payload) ==> r@ == jsonrpc::success_response(id@, payload@),
        reply matches Reply::Custom(error) ==> r@ == jsonrpc::custom_error_response(id@, error),
        reply matches Reply::UnexpectedParams(UnexpectedParams::Present(given)) ==> r@
            == jsonrpc::invalid_params_response(
            id@,
            "No parameters were expected"@,
            Some(given@),
        ),
        reply matches Reply::UnexpectedParams(UnexpectedParams::Malformed(given)) ==> r@
            == jsonrpc::invalid_params_response(id@, "Invalid params"@, Some(given@)),
{
}

/// A refusal tells the client the bound that it does not keep.
pub proof fn law_refusal_tells_the_bound(id: Id, error: InvalidParams, r: Vec<u8>)
    requires
        call_ensures(jsonrpc::respond, (&id, Reply::InvalidParams(error)), r),
    ensures
        error matches InvalidParams::InvalidLimit { max } ==> r@
            == jsonrpc::invalid_params_response(
            id@,
            "Invalid limit; max "@ + text::decimal(max as nat),
            None,
        ),
        error matches InvalidParams::SlotRangeTooLarge { max } ==> r@
            == jsonrpc::invalid_params_response(
            id@,
            "Slot range too large; max "@ + text::decimal(max as nat),
            None,
        ),
        error matches InvalidParams::LimitTooLarge { max } ==> r@
            == jsonrpc::invalid_params_response(
            id@,
            "Limit too large; max "@ + text::decimal(max as nat),
            None,
        ),
        error matches InvalidParams::TooManyInputs { max } ==> r@
            == jsonrpc::invalid_params_response(
            id@,
            "Too many inputs provided; max "@ + text::decimal(max as nat),
            None,
        ),
        error is CommitmentBelowConfirmed ==> r@ == jsonrpc::invalid_params_response(
            id@,
            "Method does not support commitment below `confirmed`"@,
            None,
        ),
        error is PercentileTooBig ==> r@ == jsonrpc::invalid_params_response(
            id@,
            "Percentile is too big; max value is 10000"@,
            None,
        ),
        error is InvalidPaginationToken ==> r@ == jsonrpc::invalid_params_response(
            id@,
            "Invalid paginationToken"@,
            None,
        ),
{
}

// ------------------------------------------------------- addresses and signatures

/// An address or a signature that can be read is taken as it is, and what is
/// wrong with one that cannot is told.
pub proof fn law_texts_are_read(
    input: &str,
    address: Result<Pubkey, InvalidParams>,
    signature: Result<Signature, InvalidParams>,
)
    requires
        call_ensures(params::verify_pubkey, (input,), address),
        call_ensures(params::verify_signature, (input,), signature),
    ensures
        keys::pubkey_of(input@) matches Ok(key) ==> address == Ok::<Pubkey, InvalidParams>(key),
        keys::pubkey_of(input@) matches Err(error) ==> address == Err::<Pubkey, InvalidParams>(
            InvalidParams::InvalidParam(error),
        ),
        keys::signature_of(input@) matches Ok(found) ==> signature == Ok::<
            Signature,
            InvalidParams,
        >(found),
        keys::signature_of(input@) matches Err(error) ==> signature == Err::<
            Signature,
            InvalidParams,
        >(InvalidParams::InvalidParam(error)),
{
}

} // verus!
