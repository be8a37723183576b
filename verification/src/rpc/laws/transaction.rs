//! Laws of `getTransaction`.

use crate::rpc::action::{
    Action, Read, ReadRequest, ReadResultTransaction, Reason, UiTransactionEncoding, UpstreamCall,
    WorkRequest,
};
use crate::rpc::jsonrpc::{InvalidParams, Payload, Reply, RpcCustomError};
use crate::rpc::keys::{self, Signature};
use crate::rpc::laws::{first_node, given, lemma_node, no_node};
use crate::rpc::params::{RpcEncodingConfigWrapper, RpcTransactionConfig};
use crate::rpc::state::{Commitment, ConfigRpcCallJson, State, StoredSlots};
use crate::rpc::transaction::RpcRequestTransaction;
use vstd::prelude::*;

verus! {

/// A request for a transaction is refused where the signature is malformed,
/// and where it asks for less than confirmed transactions. One that is
/// accepted keeps everything that the client gives, and asks the storage for
/// the transaction of the signature.
pub proof fn law_transaction_request_keeps_what_is_given(
    upstream_disabled: bool,
    signature_str: &str,
    config: RpcTransactionConfig,
    r: Result<RpcRequestTransaction, Reply>,
    request: RpcRequestTransaction,
    action: Action,
)
    requires
        call_ensures(
            RpcRequestTransaction::parse,
            (upstream_disabled, signature_str, Some(RpcEncodingConfigWrapper::Current(Some(config)))),
            r,
        ),
        r matches Ok(accepted) ==> accepted == request,
        call_ensures(RpcRequestTransaction::start, (&request,), action),
    ensures
        r is Ok <==> keys::signature_of(signature_str@) is Ok && config.commitment != Some(
            Commitment::Processed,
        ),
        keys::signature_of(signature_str@) matches Err(error) ==> r == Err::<
            RpcRequestTransaction,
            Reply,
        >(Reply::InvalidParams(InvalidParams::InvalidParam(error))),
        keys::signature_of(signature_str@) is Ok && config.commitment == Some(Commitment::Processed)
            ==> r == Err::<RpcRequestTransaction, Reply>(
            Reply::InvalidParams(InvalidParams::CommitmentBelowConfirmed),
        ),
        r is Ok ==> {
            &&& request.upstream_disabled == upstream_disabled
            &&& keys::signature_of(signature_str@)->Ok_0 == request.signature
            &&& request.commitment == given(config.commitment, Commitment::Finalized)
            &&& request.encoding == given(config.encoding, UiTransactionEncoding::Json)
            &&& request.max_supported_transaction_version
                == config.max_supported_transaction_version
            &&& action == Action::Read(
                ReadRequest::Transaction {
                    signature: keys::signature_of(signature_str@)->Ok_0,
                },
            )
        },
{
}

/// An encoding alone, or nothing, means the same as options that say only
/// that.
pub proof fn law_transaction_request_in_older_forms(
    upstream_disabled: bool,
    signature_str: &str,
    encoding: Option<UiTransactionEncoding>,
    config: RpcTransactionConfig,
    older: Result<RpcRequestTransaction, Reply>,
    bare: Result<RpcRequestTransaction, Reply>,
    empty: Result<RpcRequestTransaction, Reply>,
    r: Result<RpcRequestTransaction, Reply>,
)
    requires
        config.encoding == encoding,
        config.commitment is None,
        config.max_supported_transaction_version is None,
        call_ensures(
            RpcRequestTransaction::parse,
            (upstream_disabled, signature_str, Some(RpcEncodingConfigWrapper::Deprecated(encoding))),
            older,
        ),
        call_ensures(RpcRequestTransaction::parse, (upstream_disabled, signature_str, None), bare),
        call_ensures(
            RpcRequestTransaction::parse,
            (upstream_disabled, signature_str, Some(RpcEncodingConfigWrapper::Current(None))),
            empty,
        ),
        call_ensures(
            RpcRequestTransaction::parse,
            (upstream_disabled, signature_str, Some(RpcEncodingConfigWrapper::Current(Some(config)))),
            r,
        ),
    ensures
        older == r,
        encoding is None ==> bare == r && empty == r,
{
}

/// Whether a transaction is got from elsewhere as a client asks for it: from
/// the first node that may be asked, with all that the client gives. Where the
/// client forbids it the reply is null, and where there is no node the history
/// is told not to be available.
pub open spec fn transaction_from_elsewhere(
    upstream_disabled: bool,
    signature: Signature,
    config: RpcTransactionConfig,
    state: State,
    why: Reason,
    action: Action,
) -> bool {
    if upstream_disabled {
        action == Action::Reply(Reply::Success(Payload::Null))
    } else if no_node(state, ConfigRpcCallJson::GetTransaction) {
        action == Action::Reply(Reply::Custom(RpcCustomError::TransactionHistoryNotAvailable))
    } else {
        &&& action matches Action::Upstream { index, call, reason }
        &&& first_node(state, ConfigRpcCallJson::GetTransaction, index)
        &&& reason == why
        &&& call matches UpstreamCall::Transaction {
            signature: asked,
            commitment,
            encoding,
            max_supported_transaction_version,
        }
        &&& asked == signature
        &&& commitment == given(config.commitment, Commitment::Finalized)
        &&& encoding == given(config.encoding, UiTransactionEncoding::Json)
        &&& max_supported_transaction_version == config.max_supported_transaction_version
    }
}

/// What comes of what the storage has of a signature. A transaction that is in
/// the window is encoded as the client asks for it, with its slot, time, bytes
/// and index. One that is not finalized is null to a client that asks for
/// finalized ones. One below the window, or not found, is got from elsewhere.
pub proof fn law_transaction_is_given_as_asked(
    upstream_disabled: bool,
    signature_str: &str,
    config: RpcTransactionConfig,
    state: State,
    slots: StoredSlots,
    read: Read<ReadResultTransaction>,
    request: RpcRequestTransaction,
    action: Action,
)
    requires
        call_ensures(
            RpcRequestTransaction::parse,
            (upstream_disabled, signature_str, Some(RpcEncodingConfigWrapper::Current(Some(config)))),
            Ok(request),
        ),
        call_ensures(RpcRequestTransaction::on_read, (&request, &state, &slots, read), action),
    ensures
        !(read is Value) ==> action is Fail,
        read is Value && read->Value_0 is NotFound ==> transaction_from_elsewhere(
            upstream_disabled,
            keys::signature_of(signature_str@)->Ok_0,
            config,
            state,
            Reason::NotFoundLocally,
            action,
        ),
        read matches Read::Value(
            ReadResultTransaction::Transaction { slot, block_time, bytes, index },
        ) ==> {
            let finalized_only = given(config.commitment, Commitment::Finalized) is Finalized;
            &&& finalized_only && slots.finalized < slot ==> action == Action::Reply(
                Reply::Success(Payload::Null),
            )
            &&& !(finalized_only && slots.finalized < slot) && slot <= slots.first_available
                ==> transaction_from_elsewhere(
                upstream_disabled,
                keys::signature_of(signature_str@)->Ok_0,
                config,
                state,
                Reason::BelowRetention,
                action,
            )
            &&& !(finalized_only && slots.finalized < slot) && slots.first_available < slot ==> {
                &&& action matches Action::Encode(WorkRequest::Transaction(work))
                &&& work.encoding == given(config.encoding, UiTransactionEncoding::Json)
                &&& work.max_supported_transaction_version
                    == config.max_supported_transaction_version
                &&& work.slot == slot
                &&& work.block_time == block_time
                &&& work.bytes == bytes
                &&& work.index == index
            }
        },
{
    lemma_node(state, ConfigRpcCallJson::GetTransaction);
}

} // verus!
