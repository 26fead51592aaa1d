use vstd::prelude::*;

use stellar_xdr::curr::{
    AccountId, ContractId, HostFunction, InvokeContractArgs, InvokeHostFunctionOp, Limits, Memo,
    MuxedAccount, Operation, OperationBody, Preconditions, PublicKey, ReadXdr, ScAddress, ScSymbol,
    ScVal, SequenceNumber, SorobanAuthorizationEntry, SorobanTransactionData, Transaction,
    TransactionExt, Uint256, VecM, WriteXdr,
};
use vstd::string::StringSliceAdditionalSpecFns;

use crate::escrow::types::Winner;
use super::decimal::parse_i64_spec;
use super::errors::{join_message, OracleServiceError};
use super::soroban::{
    ed25519_public_key, ed25519_signature, oracle_public_key, resource_fee, sign_transaction,
    total_fee, transaction_hash_spec, winner_symbol, winner_symbol_spec, BASE_FEE,
};

verus! {

/// Fee of the preliminary transaction that is only simulated.
pub const SIMULATION_FEE: u32 = 100;

/// XDR of the `InvokeContractArgs` calling `function` on contract
/// `contract_id` with the arguments `match_id` (as `U64`), the winner symbol
/// and the caller's account address; or the error's message.
pub uninterp spec fn invoke_args_xdr(
    contract_id: Seq<u8>,
    caller: Seq<u8>,
    function: Seq<char>,
    match_id: u64,
    winner_symbol: Seq<char>,
) -> Result<Seq<u8>, Seq<char>>;

/// XDR of the `InvokeHostFunction` operation with the given invoke
/// arguments and authorization entries (all as XDR); or the error's message.
pub uninterp spec fn invoke_op_xdr(args: Seq<u8>, auth: Seq<Seq<u8>>) -> Result<Seq<u8>, Seq<char>>;

/// XDR of the authorization entry that a base64 XDR text encodes; or the
/// decoding error's message.
pub uninterp spec fn auth_entry_xdr(b64: Seq<char>) -> Result<Seq<u8>, Seq<char>>;

/// XDR of the soroban transaction data that a base64 XDR text encodes; or
/// the decoding error's message.
pub uninterp spec fn soroban_data_xdr(b64: Seq<char>) -> Result<Seq<u8>, Seq<char>>;

/// XDR of the transaction from `source` with sequence number `seq_num`, fee
/// `fee` and the one operation `op`, without soroban data.
pub uninterp spec fn transaction_xdr_v0(source: Seq<u8>, seq_num: i64, fee: u32, op: Seq<u8>) -> Result<
    Seq<u8>,
    Seq<char>,
>;

/// As [`transaction_xdr_v0`], with the soroban data whose XDR is `data`.
pub uninterp spec fn transaction_xdr_v1(
    source: Seq<u8>,
    seq_num: i64,
    fee: u32,
    op: Seq<u8>,
    data: Seq<u8>,
) -> Result<Seq<u8>, Seq<char>>;

/// As [`transaction_xdr_v0`], with the default (all zero) soroban data.
pub uninterp spec fn transaction_xdr_default_data(source: Seq<u8>, seq_num: i64, fee: u32, op: Seq<u8>) -> Result<
    Seq<u8>,
    Seq<char>,
>;

pub open spec fn bytes_list_view(v: Seq<Vec<u8>>) -> Seq<Seq<u8>> {
    v.map_values(|b: Vec<u8>| b@)
}

pub open spec fn strings_view(v: Seq<String>) -> Seq<Seq<char>> {
    v.map_values(|s: String| s@)
}

pub open spec fn bytes_result(r: Result<Vec<u8>, String>) -> Result<Seq<u8>, Seq<char>> {
    match r {
        Ok(b) => Ok(b@),
        Err(m) => Err(m@),
    }
}

/// Builds `stellar_xdr::curr::InvokeContractArgs` (contract address, the
/// function symbol, the arguments `U64(match_id)`, `Symbol(winner)`,
/// `Address(Account(caller))`) and encodes it with `to_xdr`. Claimed: the
/// result is what `invoke_args_xdr` names for the arguments.
#[verifier::external_body]
fn encode_invoke_args(contract_id: &[u8; 32], caller: &[u8; 32], function: &str, match_id: u64, winner_symbol: &str) -> (r: Result<Vec<u8>, String>)
    ensures
        bytes_result(r) == invoke_args_xdr(contract_id@, caller@, function@, match_id, winner_symbol@),
{
    let err = |e: stellar_xdr::curr::Error| e.to_string();
    let account = AccountId(PublicKey::PublicKeyTypeEd25519(Uint256(*caller)));
    let symbol = ScSymbol(winner_symbol.try_into().map_err(err)?);
    let args: VecM<ScVal> = vec![ScVal::U64(match_id), ScVal::Symbol(symbol), ScVal::Address(ScAddress::Account(account))]
        .try_into().map_err(err)?;
    let function_name = ScSymbol(function.try_into().map_err(err)?);
    let contract_address = ScAddress::Contract(ContractId(stellar_xdr::curr::Hash(*contract_id)));
    InvokeContractArgs { contract_address, function_name, args }.to_xdr(Limits::none()).map_err(err)
}

/// Decodes the arguments and entries with `from_xdr`, builds the
/// `InvokeHostFunction` operation and encodes it with `to_xdr`. Claimed:
/// the result is what `invoke_op_xdr` names for the arguments.
#[verifier::external_body]
fn encode_invoke_op(args_xdr: &[u8], auth_xdr: &Vec<Vec<u8>>) -> (r: Result<Vec<u8>, String>)
    ensures
        bytes_result(r) == invoke_op_xdr(args_xdr@, bytes_list_view(auth_xdr@)),
{
    let err = |e: stellar_xdr::curr::Error| e.to_string();
    let args = InvokeContractArgs::from_xdr(args_xdr, Limits::none()).map_err(err)?;
    let entries: Vec<SorobanAuthorizationEntry> = auth_xdr.iter().map(|a| SorobanAuthorizationEntry::from_xdr(a, Limits::none()))
        .collect::<Result<_, _>>().map_err(err)?;
    let auth: VecM<SorobanAuthorizationEntry> = entries.try_into().map_err(err)?;
    let body = OperationBody::InvokeHostFunction(InvokeHostFunctionOp { host_function: HostFunction::InvokeContract(args), auth });
    Operation { source_account: None, body }.to_xdr(Limits::none()).map_err(err)
}

/// Calls `SorobanAuthorizationEntry::from_xdr_base64` and re-encodes the
/// entry with `to_xdr`. Claimed: the result is `auth_entry_xdr` of the text.
#[verifier::external_body]
fn decode_auth_entry(b64: &str) -> (r: Result<Vec<u8>, String>)
    ensures
        bytes_result(r) == auth_entry_xdr(b64@),
{
    let err = |e: stellar_xdr::curr::Error| e.to_string();
    let entry = SorobanAuthorizationEntry::from_xdr_base64(b64, Limits::none()).map_err(err)?;
    entry.to_xdr(Limits::none()).map_err(err)
}

/// Calls `SorobanTransactionData::from_xdr_base64` and re-encodes the data
/// with `to_xdr`. Claimed: the result is `soroban_data_xdr` of the text.
#[verifier::external_body]
fn decode_soroban_data_b64(b64: &str) -> (r: Result<Vec<u8>, String>)
    ensures
        bytes_result(r) == soroban_data_xdr(b64@),
{
    let err = |e: stellar_xdr::curr::Error| e.to_string();
    let data = SorobanTransactionData::from_xdr_base64(b64, Limits::none()).map_err(err)?;
    data.to_xdr(Limits::none()).map_err(err)
}

/// Builds a `Transaction` (ed25519 source account, no preconditions, no
/// memo, one operation, extension `V0`) and encodes it with `to_xdr`.
/// Claimed: the result is what `transaction_xdr_v0` names.
#[verifier::external_body]
fn encode_transaction_v0(source: &[u8; 32], seq_num: i64, fee: u32, op_xdr: &[u8]) -> (r: Result<Vec<u8>, String>)
    ensures
        bytes_result(r) == transaction_xdr_v0(source@, seq_num, fee, op_xdr@),
{
    let err = |e: stellar_xdr::curr::Error| e.to_string();
    let op = Operation::from_xdr(op_xdr, Limits::none()).map_err(err)?;
    let operations: VecM<Operation, 100> = vec![op].try_into().map_err(err)?;
    let source_account = MuxedAccount::Ed25519(Uint256(*source));
    let tx = Transaction { source_account, fee, seq_num: SequenceNumber(seq_num), cond: Preconditions::None, memo: Memo::None, operations, ext: TransactionExt::V0 };
    tx.to_xdr(Limits::none()).map_err(err)
}

/// As [`encode_transaction_v0`], with extension `V1` holding the soroban
/// data decoded from `data_xdr`. Claimed: the result is what
/// `transaction_xdr_v1` names.
#[verifier::external_body]
fn encode_transaction_v1(source: &[u8; 32], seq_num: i64, fee: u32, op_xdr: &[u8], data_xdr: &[u8]) -> (r: Result<Vec<u8>, String>)
    ensures
        bytes_result(r) == transaction_xdr_v1(source@, seq_num, fee, op_xdr@, data_xdr@),
{
    let err = |e: stellar_xdr::curr::Error| e.to_string();
    let op = Operation::from_xdr(op_xdr, Limits::none()).map_err(err)?;
    let data = SorobanTransactionData::from_xdr(data_xdr, Limits::none()).map_err(err)?;
    let operations: VecM<Operation, 100> = vec![op].try_into().map_err(err)?;
    let source_account = MuxedAccount::Ed25519(Uint256(*source));
    let tx = Transaction { source_account, fee, seq_num: SequenceNumber(seq_num), cond: Preconditions::None, memo: Memo::None, operations, ext: TransactionExt::V1(data) };
    tx.to_xdr(Limits::none()).map_err(err)
}

/// As [`encode_transaction_v1`], with `SorobanTransactionData::default()`.
/// Claimed: the result is what `transaction_xdr_default_data` names.
#[verifier::external_body]
fn encode_transaction_default_data(source: &[u8; 32], seq_num: i64, fee: u32, op_xdr: &[u8]) -> (r: Result<Vec<u8>, String>)
    ensures
        bytes_result(r) == transaction_xdr_default_data(source@, seq_num, fee, op_xdr@),
{
    let err = |e: stellar_xdr::curr::Error| e.to_string();
    let op = Operation::from_xdr(op_xdr, Limits::none()).map_err(err)?;
    let operations: VecM<Operation, 100> = vec![op].try_into().map_err(err)?;
    let ext = TransactionExt::V1(SorobanTransactionData::default());
    let source_account = MuxedAccount::Ed25519(Uint256(*source));
    let tx = Transaction { source_account, fee, seq_num: SequenceNumber(seq_num), cond: Preconditions::None, memo: Memo::None, operations, ext };
    tx.to_xdr(Limits::none()).map_err(err)
}

// ── Verified assembly ─────────────────────────────────────────────────────

/// The authorization entries of a simulation, decoded in order; the first
/// entry that does not decode fails with its message.
pub open spec fn auth_entries_spec(auth: Seq<Seq<char>>) -> Result<Seq<Seq<u8>>, Seq<char>>
    decreases auth.len(),
{
    if auth.len() == 0 {
        Ok(Seq::empty())
    } else {
        match auth_entries_spec(auth.drop_last()) {
            Err(e) => Err(e),
            Ok(v) => match auth_entry_xdr(auth.last()) {
                Ok(x) => Ok(v.push(x)),
                Err(e) => Err("auth entry: "@ + e),
            },
        }
    }
}

/// The soroban data of a simulation: none when the text is empty (the
/// default data is used), else its decoding.
pub open spec fn soroban_data_spec(b64: Seq<char>) -> Result<Option<Seq<u8>>, Seq<char>> {
    if b64.len() == 0 {
        Ok(None)
    } else {
        match soroban_data_xdr(b64) {
            Ok(x) => Ok(Some(x)),
            Err(e) => Err("soroban data decode: "@ + e),
        }
    }
}

/// The operation calling `submit_result(match_id, winner, caller)` on the
/// escrow contract, with the given authorization entries.
pub open spec fn submit_op_spec(
    contract_id: Seq<u8>,
    caller: Seq<u8>,
    match_id: u64,
    winner: Winner,
    auth: Seq<Seq<u8>>,
) -> Result<Seq<u8>, Seq<char>> {
    match invoke_args_xdr(contract_id, caller, "submit_result"@, match_id, winner_symbol_spec(winner)) {
        Err(e) => Err(e),
        Ok(args) => invoke_op_xdr(args, auth),
    }
}

/// The final `submit_result` transaction from `caller`: the data and the
/// authorization entries of the simulation are decoded (in that order),
/// then the operation and the transaction are built.
pub open spec fn submit_tx_spec(
    contract_id: Seq<u8>,
    caller: Seq<u8>,
    match_id: u64,
    winner: Winner,
    seq_num: i64,
    fee: u32,
    data_b64: Seq<char>,
    auth_b64: Seq<Seq<char>>,
) -> Result<Seq<u8>, Seq<char>> {
    match soroban_data_spec(data_b64) {
        Err(e) => Err(e),
        Ok(data) => match auth_entries_spec(auth_b64) {
            Err(e) => Err(e),
            Ok(auth) => match submit_op_spec(contract_id, caller, match_id, winner, auth) {
                Err(e) => Err(e),
                Ok(op) => match data {
                    None => transaction_xdr_default_data(caller, seq_num, fee, op),
                    Some(d) => transaction_xdr_v1(caller, seq_num, fee, op, d),
                },
            },
        },
    }
}

/// The preliminary transaction that is simulated: no authorization
/// entries, no soroban data, the simulation fee.
pub open spec fn preliminary_tx_spec(
    contract_id: Seq<u8>,
    caller: Seq<u8>,
    match_id: u64,
    winner: Winner,
    seq_num: i64,
) -> Result<Seq<u8>, Seq<char>> {
    match submit_op_spec(contract_id, caller, match_id, winner, Seq::empty()) {
        Err(e) => Err(e),
        Ok(op) => transaction_xdr_v0(caller, seq_num, SIMULATION_FEE, op),
    }
}

/// `r` is the bytes or XDR error that `spec` gives.
pub open spec fn xdr_outcome(r: Result<Vec<u8>, OracleServiceError>, spec: Result<Seq<u8>, Seq<char>>) -> bool {
    match spec {
        Ok(x) => r matches Ok(b) && b@ == x,
        Err(m) => r matches Err(OracleServiceError::XdrError(e)) && e@ == m,
    }
}

fn xdr_error(r: Result<Vec<u8>, String>) -> (out: Result<Vec<u8>, OracleServiceError>)
    ensures
        xdr_outcome(out, bytes_result(r)),
{
    match r {
        Ok(b) => Ok(b),
        Err(m) => Err(OracleServiceError::XdrError(m)),
    }
}

/// Decode the authorization entries a simulation returned, in order.
pub fn decode_auth_entries(auth_b64: &Vec<String>) -> (r: Result<Vec<Vec<u8>>, OracleServiceError>)
    ensures
        match auth_entries_spec(strings_view(auth_b64@)) {
            Ok(v) => r matches Ok(x) && bytes_list_view(x@) == v,
            Err(m) => r matches Err(OracleServiceError::XdrError(e)) && e@ == m,
        },
{
    let ghost sv = strings_view(auth_b64@);
    let mut out: Vec<Vec<u8>> = Vec::new();
    let mut i: usize = 0;
    assert(sv.take(0) =~= Seq::<Seq<char>>::empty());
    assert(bytes_list_view(out@) =~= Seq::<Seq<u8>>::empty());
    while i < auth_b64.len()
        invariant
            i <= auth_b64.len(),
            sv == strings_view(auth_b64@),
            auth_entries_spec(sv.take(i as int)) == Ok::<Seq<Seq<u8>>, Seq<char>>(bytes_list_view(out@)),
        decreases auth_b64.len() - i,
    {
        assert(sv.take(i + 1).drop_last() =~= sv.take(i as int));
        assert(sv.take(i + 1).last() == auth_b64@[i as int]@);
        match decode_auth_entry(auth_b64[i].as_str()) {
            Ok(x) => {
                let ghost before = out@;
                let ghost xv = x@;
                out.push(x);
                assert(bytes_list_view(out@) =~= bytes_list_view(before).push(xv));
            },
            Err(e) => {
                proof {
                    lemma_auth_prefix_err(sv, i + 1);
                }
                return Err(OracleServiceError::XdrError(join_message("auth entry: ", e.as_str())));
            },
        }
        i = i + 1;
    }
    assert(sv.take(i as int) =~= sv);
    Ok(out)
}

/// Once a prefix of the entries fails to decode, all of them fail the same
/// way.
proof fn lemma_auth_prefix_err(auth: Seq<Seq<char>>, k: int)
    requires
        0 <= k <= auth.len(),
        auth_entries_spec(auth.take(k)) is Err,
    ensures
        auth_entries_spec(auth) == auth_entries_spec(auth.take(k)),
    decreases auth.len() - k,
{
    if k < auth.len() {
        assert(auth.take(k + 1).drop_last() =~= auth.take(k));
        lemma_auth_prefix_err(auth, k + 1);
    } else {
        assert(auth.take(k) =~= auth);
    }
}

/// Decode the soroban data a simulation returned; `None` for an empty text
/// (the default data is used).
pub fn decode_soroban_data(b64: &str) -> (r: Result<Option<Vec<u8>>, OracleServiceError>)
    ensures
        match soroban_data_spec(b64@) {
            Ok(None) => r matches Ok(None),
            Ok(Some(x)) => r matches Ok(Some(b)) && b@ == x,
            Err(m) => r matches Err(OracleServiceError::XdrError(e)) && e@ == m,
        },
{
    if b64.unicode_len() == 0 {
        return Ok(None);
    }
    match decode_soroban_data_b64(b64) {
        Ok(x) => Ok(Some(x)),
        Err(e) => Err(OracleServiceError::XdrError(join_message("soroban data decode: ", e.as_str()))),
    }
}

/// The operation calling `submit_result(match_id, winner, caller)` on the
/// escrow contract, with the authorization entries `auth`.
pub fn build_invoke_op(
    contract_id: &[u8; 32],
    caller: &[u8; 32],
    match_id: u64,
    winner: Winner,
    auth: &Vec<Vec<u8>>,
) -> (r: Result<Vec<u8>, OracleServiceError>)
    ensures
        xdr_outcome(r, submit_op_spec(contract_id@, caller@, match_id, winner, bytes_list_view(auth@))),
{
    let args = match encode_invoke_args(contract_id, caller, "submit_result", match_id, winner_symbol(winner)) {
        Ok(a) => a,
        Err(e) => return Err(OracleServiceError::XdrError(e)),
    };
    xdr_error(encode_invoke_op(args.as_slice(), auth))
}

/// The preliminary `submit_result` transaction that is simulated, from the
/// oracle's account `caller` with the sequence number after
/// `account_sequence`.
pub fn preliminary_transaction(
    contract_id: &[u8; 32],
    caller: &[u8; 32],
    match_id: u64,
    winner: Winner,
    account_sequence: i64,
) -> (r: Result<Vec<u8>, OracleServiceError>)
    requires
        account_sequence < i64::MAX,
    ensures
        xdr_outcome(r, preliminary_tx_spec(contract_id@, caller@, match_id, winner, (account_sequence + 1) as i64)),
{
    let no_auth: Vec<Vec<u8>> = Vec::new();
    assert(bytes_list_view(no_auth@) =~= Seq::<Seq<u8>>::empty());
    let op = build_invoke_op(contract_id, caller, match_id, winner, &no_auth)?;
    xdr_error(encode_transaction_v0(caller, account_sequence + 1, SIMULATION_FEE, op.as_slice()))
}

/// What the final transaction is signed and sent as.
pub struct SignedSubmission {
    /// XDR of the transaction.
    pub tx_xdr: Vec<u8>,
    /// Hint of the oracle's signature.
    pub hint: [u8; 4],
    /// The oracle's signature of the transaction hash.
    pub signature: [u8; 64],
}

/// Build and sign the final `submit_result` transaction from the oracle
/// key `secret`: the sequence number after `account_sequence`, the base fee
/// plus the simulated resource fee, the simulated soroban data and
/// authorization entries.
pub fn signed_submit_transaction(
    contract_id: &[u8; 32],
    secret: &[u8; 32],
    match_id: u64,
    winner: Winner,
    account_sequence: i64,
    min_resource_fee: &str,
    soroban_data_b64: &str,
    auth_b64: &Vec<String>,
    network_passphrase: &str,
) -> (r: Result<SignedSubmission, OracleServiceError>)
    requires
        account_sequence < i64::MAX,
        parse_i64_spec(min_resource_fee@) matches Ok(f) ==> f <= i64::MAX - BASE_FEE,
    ensures
        ({
            let caller = ed25519_public_key(secret@);
            let fee = (BASE_FEE + match parse_i64_spec(min_resource_fee@) {
                Ok(f) => f,
                Err(_) => 0,
            }) as u32;
            let spec = submit_tx_spec(
                contract_id@,
                caller,
                match_id,
                winner,
                (account_sequence + 1) as i64,
                fee,
                soroban_data_b64@,
                strings_view(auth_b64@),
            );
            match spec {
                Ok(x) => r matches Ok(s) && s.tx_xdr@ == x && s.hint@ == caller.subrange(28, 32)
                    && s.signature@ == ed25519_signature(
                    secret@,
                    transaction_hash_spec(network_passphrase.spec_bytes(), x),
                ),
                Err(m) => r matches Err(OracleServiceError::XdrError(e)) && e@ == m,
            }
        }),
{
    let caller = oracle_public_key(secret);
    let fee = total_fee(resource_fee(min_resource_fee));
    let seq_num = account_sequence + 1;
    let data = decode_soroban_data(soroban_data_b64)?;
    let auth = decode_auth_entries(auth_b64)?;
    let op = build_invoke_op(contract_id, &caller, match_id, winner, &auth)?;
    let tx = match data {
        None => encode_transaction_default_data(&caller, seq_num, fee, op.as_slice()),
        Some(d) => encode_transaction_v1(&caller, seq_num, fee, op.as_slice(), d.as_slice()),
    };
    let tx_xdr = xdr_error(tx)?;
    let (hint, signature) = sign_transaction(tx_xdr.as_slice(), network_passphrase, secret);
    Ok(SignedSubmission { tx_xdr, hint, signature })
}

} // verus!
