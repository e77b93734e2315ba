//! The transaction that settles a transaction request: it follows the
//! latest transactions of the request's spender and recipient, and carries
//! the request's action hash, serialized, as its application data.
use vstd::prelude::*;
use hdk::prelude::{ActionHash, SerializedBytes, UnsafeBytes};
use crate::hashes::{ActionId, AgentKey, opt_view};
use crate::links::{Settlement, SettlementView};
use crate::error::MutualCreditError;
use crate::transaction::{Transaction, TransactionView, following_transaction_spec, previous_view};
use crate::request::{TransactionRequest, RequestView};
use crate::countersigning::hash_of_type;

verus! {

/// The three bytes that begin the hash of an action.
pub open spec fn action_prefix() -> Seq<u8> {
    seq![0x84u8, 0x29u8, 0x24u8]
}

/// The serialized form of a 39-byte hash: a MessagePack binary (marker
/// `0xc4`, one length byte) holding its bytes.
pub open spec fn serialized_hash(h: Seq<u8>) -> Seq<u8> {
    seq![0xc4u8, 39u8] + h
}

/// `SerializedBytes::try_from(&ActionHash)` of Holochain's hashes, on an
/// action hash given by its 39 bytes: the bytes are read as an action hash
/// when they begin with the action prefix (`None` comes back otherwise),
/// and the hash is serialized as a MessagePack binary of its 39 bytes.
#[verifier::external_body]
fn serialize_action_hash(hash: &ActionId) -> (r: Option<Vec<u8>>)
    requires
        hash@.len() == 39,
    ensures
        r is Some <==> hash_of_type(hash@, action_prefix()),
        r matches Some(b) ==> b@ == serialized_hash(hash@),
{
    let h = ActionHash::from_raw_39(hash.bytes.clone()).ok()?;
    SerializedBytes::try_from(&h).ok().map(|b| b.bytes().to_vec())
}

/// Where the 39 bytes of a hash begin in `info`, when `info` begins with a
/// MessagePack binary of 39 bytes: after a one-byte length (marker `0xc4`),
/// a two-byte length (`0xc5`) or a four-byte length (`0xc6`), the lengths
/// big-endian. Bytes after the binary are not read.
pub open spec fn hash_offset(info: Seq<u8>) -> Option<int> {
    if info.len() >= 41 && info[0] == 0xc4u8 && info[1] == 39u8 {
        Some(2)
    } else if info.len() >= 42 && info[0] == 0xc5u8 && info[1] == 0u8 && info[2] == 39u8 {
        Some(3)
    } else if info.len() >= 44 && info[0] == 0xc6u8 && info[1] == 0u8 && info[2] == 0u8
        && info[3] == 0u8 && info[4] == 39u8 {
        Some(5)
    } else {
        None
    }
}

/// The 39 bytes of the binary that `info` begins with.
pub open spec fn binary_hash(info: Seq<u8>) -> Seq<u8> {
    info.subrange(hash_offset(info)->Some_0, hash_offset(info)->Some_0 + 39)
}

/// `ActionHash::try_from(SerializedBytes)` of Holochain's hashes, on bytes
/// that begin with a MessagePack binary of 39 bytes: the binary's bytes are
/// read as an action hash when they begin with the action prefix, and
/// `None` comes back otherwise.
#[verifier::external_body]
fn deserialize_action_hash(info: &Vec<u8>) -> (r: Option<ActionId>)
    requires
        hash_offset(info@) is Some,
    ensures
        r is Some <==> hash_of_type(binary_hash(info@), action_prefix()),
        r matches Some(h) ==> h@ == binary_hash(info@),
{
    let bytes = SerializedBytes::from(UnsafeBytes::from(info.clone()));
    ActionHash::try_from(bytes).ok().map(|h| ActionId::new(h.get_raw_39().to_vec()))
}

/// The request that application data names as settled: the action hash
/// held by the binary of 39 bytes that the data begins with, if it begins
/// with one.
pub open spec fn settled_request_spec(info: Seq<u8>) -> Option<Seq<u8>> {
    if hash_offset(info) is Some && hash_of_type(binary_hash(info), action_prefix()) {
        Some(binary_hash(info))
    } else {
        None
    }
}

/// The request that `info` names as settled. Data that does not begin with
/// a MessagePack binary of 39 bytes names no request.
pub fn settled_request(info: &Vec<u8>) -> (r: Option<ActionId>)
    ensures
        opt_view(r) == settled_request_spec(info@),
{
    let n = info.len();
    let binary = (n >= 41 && info[0] == 0xc4u8 && info[1] == 39u8)
        || (n >= 42 && info[0] == 0xc5u8 && info[1] == 0u8 && info[2] == 39u8)
        || (n >= 44 && info[0] == 0xc6u8 && info[1] == 0u8 && info[2] == 0u8 && info[3] == 0u8 && info[4] == 39u8);
    if binary {
        deserialize_action_hash(info)
    } else {
        None
    }
}

/// The transaction of this agent written by the action `transaction_hash`,
/// with the request its application data names as settled.
pub fn settlement_of(transaction: &Transaction, transaction_hash: &ActionId) -> (r: Settlement)
    ensures
        opt_view(r.transaction_request_hash) == settled_request_spec(transaction.info@),
        r.transaction_hash@ == transaction_hash@,
{
    Settlement {
        transaction_request_hash: settled_request(&transaction.info),
        transaction_hash: transaction_hash.copy(),
    }
}

/// Whether `h` is the hash of an action: 39 bytes that begin with the
/// action prefix.
pub open spec fn is_action_hash(h: Seq<u8>) -> bool {
    h.len() == 39 && hash_of_type(h, action_prefix())
}

/// The transaction that settles the request `request`, whose action hash is
/// `transaction_request_hash`: between the request's spender and recipient,
/// for the request's amount, following their previous transactions and
/// leaving them the given balances, with the serialized request hash as its
/// application data. It is refused when the hash is not an action hash, and
/// then when a previous transaction does not name its party.
pub open spec fn settling_spec(
    request: RequestView,
    transaction_request_hash: Seq<u8>,
    spender_previous: Option<(Seq<u8>, TransactionView)>,
    recipient_previous: Option<(Seq<u8>, TransactionView)>,
    resulting_spender_balance: u64,
    resulting_recipient_balance: u64,
) -> Result<TransactionView, MutualCreditError> {
    if is_action_hash(transaction_request_hash) {
        following_transaction_spec(
            request.spender,
            request.recipient,
            spender_previous,
            recipient_previous,
            request.amount,
            serialized_hash(transaction_request_hash),
            resulting_spender_balance,
            resulting_recipient_balance,
        )
    } else {
        Err(MutualCreditError::NotAnActionHash)
    }
}

/// Whether `t` settles `request`, whose action hash is
/// `transaction_request_hash`: it is between the request's spender and
/// recipient, for the request's amount, and carries the serialized request
/// hash.
pub open spec fn settles(t: TransactionView, request: RequestView, transaction_request_hash: Seq<u8>) -> bool {
    &&& t.spender.agent == request.spender
    &&& t.recipient.agent == request.recipient
    &&& t.amount == request.amount
    &&& t.info == serialized_hash(transaction_request_hash)
}

/// The application data of the transaction that settles the request whose
/// action hash is `transaction_request_hash`: that hash, serialized.
pub fn settlement_info(transaction_request_hash: &ActionId) -> (r: Result<Vec<u8>, MutualCreditError>)
    ensures
        match r {
            Ok(info) => is_action_hash(transaction_request_hash@)
                && info@ == serialized_hash(transaction_request_hash@),
            Err(e) => !is_action_hash(transaction_request_hash@)
                && e == MutualCreditError::NotAnActionHash,
        },
{
    if transaction_request_hash.bytes.len() != 39 {
        return Err(MutualCreditError::NotAnActionHash);
    }
    match serialize_action_hash(transaction_request_hash) {
        Some(info) => Ok(info),
        None => Err(MutualCreditError::NotAnActionHash),
    }
}

/// The transaction that settles `request`, whose action hash is
/// `transaction_request_hash`, following the given previous transactions of
/// its spender and recipient and leaving them the given balances.
pub fn settling_transaction(
    request: &TransactionRequest,
    transaction_request_hash: &ActionId,
    previous_spender_transaction: &Option<(ActionId, Transaction)>,
    previous_recipient_transaction: &Option<(ActionId, Transaction)>,
    resulting_spender_balance: u64,
    resulting_recipient_balance: u64,
) -> (r: Result<Transaction, MutualCreditError>)
    ensures
        match r {
            Ok(t) => settling_spec(
                request@,
                transaction_request_hash@,
                previous_view(*previous_spender_transaction),
                previous_view(*previous_recipient_transaction),
                resulting_spender_balance,
                resulting_recipient_balance,
            ) == Ok::<TransactionView, MutualCreditError>(t@),
            Err(e) => settling_spec(
                request@,
                transaction_request_hash@,
                previous_view(*previous_spender_transaction),
                previous_view(*previous_recipient_transaction),
                resulting_spender_balance,
                resulting_recipient_balance,
            ) == Err::<TransactionView, MutualCreditError>(e),
        },
{
    let info = settlement_info(transaction_request_hash)?;
    let spender: AgentKey = request.spender_pub_key.copy();
    let recipient: AgentKey = request.recipient_pub_key.copy();
    Transaction::from_previous_transactions(
        spender,
        recipient,
        previous_spender_transaction,
        previous_recipient_transaction,
        request.amount,
        info,
        resulting_spender_balance,
        resulting_recipient_balance,
    )
}

/// The transaction built to settle a request settles it.
pub proof fn lemma_settling_transaction_settles(
    request: RequestView,
    transaction_request_hash: Seq<u8>,
    spender_previous: Option<(Seq<u8>, TransactionView)>,
    recipient_previous: Option<(Seq<u8>, TransactionView)>,
    resulting_spender_balance: u64,
    resulting_recipient_balance: u64,
)
    requires
        settling_spec(request, transaction_request_hash, spender_previous, recipient_previous,
            resulting_spender_balance, resulting_recipient_balance) is Ok,
    ensures
        settles(
            settling_spec(request, transaction_request_hash, spender_previous, recipient_previous,
                resulting_spender_balance, resulting_recipient_balance)->Ok_0,
            request,
            transaction_request_hash,
        ),
{
}

/// The application data of a transaction that settles a request names
/// that request: the serialized request hash reads back as the hash.
pub proof fn lemma_settlement_info_reads_back(h: Seq<u8>)
    requires
        is_action_hash(h),
    ensures
        settled_request_spec(serialized_hash(h)) == Some(h),
{
    assert(hash_offset(serialized_hash(h)) == Some(2int));
    assert(serialized_hash(h).subrange(2, 41) =~= h);
}

/// A transaction that settles a request, whose hash is an action hash,
/// names that request as settled.
pub proof fn lemma_settling_transaction_names_request(t: TransactionView, request: RequestView, h: Seq<u8>)
    requires
        is_action_hash(h),
        settles(t, request, h),
    ensures
        settled_request_spec(t.info) == Some(h),
{
    lemma_settlement_info_reads_back(h);
}

/// The serialized form of a hash is the binary marker `0xc4`, the length
/// 39, and the hash's bytes.
pub proof fn lemma_serialized_hash_bytes(h: Seq<u8>)
    requires
        h.len() == 39,
    ensures
        serialized_hash(h).len() == 41,
        serialized_hash(h)[0] == 0xc4u8,
        serialized_hash(h)[1] == 39u8,
        serialized_hash(h).subrange(2, 41) == h,
{
    assert(serialized_hash(h).subrange(2, 41) =~= h);
}

/// An action hash is read back from a binary of its 39 bytes whatever the
/// width of the binary's length, and whatever follows the binary; data too
/// short to hold such a binary names no request.
pub proof fn lemma_settled_request_forms(h: Seq<u8>, rest: Seq<u8>)
    requires
        is_action_hash(h),
    ensures
        settled_request_spec(seq![0xc4u8, 39u8] + h + rest) == Some(h),
        settled_request_spec(seq![0xc5u8, 0u8, 39u8] + h + rest) == Some(h),
        settled_request_spec(seq![0xc6u8, 0u8, 0u8, 0u8, 39u8] + h + rest) == Some(h),
        forall|info: Seq<u8>| info.len() < 41 ==> #[trigger] settled_request_spec(info) is None,
{
    let a = seq![0xc4u8, 39u8] + h + rest;
    assert(a.subrange(2, 41) =~= h);
    let b = seq![0xc5u8, 0u8, 39u8] + h + rest;
    assert(b.subrange(3, 42) =~= h);
    let c = seq![0xc6u8, 0u8, 0u8, 0u8, 39u8] + h + rest;
    assert(c.subrange(5, 44) =~= h);
}

} // verus!
