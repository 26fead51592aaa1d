use vstd::prelude::*;

use ed25519_dalek::Signer;
use sha2::Digest;
use vstd::string::StringSliceAdditionalSpecFns;

use crate::escrow::types::Winner;
use super::decimal::{int_parse_message, parse_i64, parse_i64_spec};
use super::errors::{join_message, OracleServiceError};

verus! {

/// Base fee of a `submit_result` transaction, in stroops.
pub const BASE_FEE: i64 = 100_000;

/// How many times `getTransaction` is polled before giving up.
pub const MAX_CONFIRMATION_POLLS: u32 = 30;

/// Seconds between two `getTransaction` polls.
pub const CONFIRMATION_POLL_DELAY_SECS: u64 = 2;

/// The payload that a contract strkey (`C...`) encodes, or the message of
/// the decoding error.
pub uninterp spec fn contract_strkey_payload(strkey: Seq<char>) -> Result<Seq<u8>, Seq<char>>;

/// The account strkey (`G...`) of an ed25519 public key.
pub uninterp spec fn account_strkey(public_key: Seq<u8>) -> Seq<char>;

/// The SHA-256 digest of `data`.
pub uninterp spec fn sha256(data: Seq<u8>) -> Seq<u8>;

/// The ed25519 public key of a 32-byte secret key.
pub uninterp spec fn ed25519_public_key(secret: Seq<u8>) -> Seq<u8>;

/// The ed25519 signature of `message` under a 32-byte secret key.
pub uninterp spec fn ed25519_signature(secret: Seq<u8>, message: Seq<u8>) -> Seq<u8>;

/// Calls `stellar_strkey::Contract::from_string`. Claimed: on success the
/// result is the decoded 32-byte contract id, on failure the message of the
/// `DecodeError`, and either is what `contract_strkey_payload` names for the
/// string. Nothing is stated about which strings decode.
#[verifier::external_body]
fn decode_contract_strkey(strkey: &str) -> (r: Result<[u8; 32], String>)
    ensures
        match r {
            Ok(id) => contract_strkey_payload(strkey@) == Ok::<Seq<u8>, Seq<char>>(id@),
            Err(m) => contract_strkey_payload(strkey@) == Err::<Seq<u8>, Seq<char>>(m@),
        },
{
    match stellar_strkey::Contract::from_string(strkey) {
        Ok(c) => Ok(c.0),
        Err(e) => Err(e.to_string()),
    }
}

/// Formats `stellar_strkey::ed25519::PublicKey` with `Display`. Claimed: the
/// text is `account_strkey` of the key; its contents are not stated.
#[verifier::external_body]
fn encode_account_strkey(public_key: &[u8; 32]) -> (r: String)
    ensures
        r@ == account_strkey(public_key@),
{
    format!("{}", stellar_strkey::ed25519::PublicKey(*public_key))
}

/// Calls `sha2::Sha256::digest`. Claimed: the 32-byte result is `sha256`
/// of the input; the hash function itself is not stated.
#[verifier::external_body]
fn sha256_digest(data: &[u8]) -> (r: [u8; 32])
    ensures
        r@ == sha256(data@),
{
    sha2::Sha256::digest(data).into()
}

/// Calls `ed25519_dalek::SigningKey::from_bytes` and `verifying_key`.
/// Claimed: the 32 bytes of the verifying key are `ed25519_public_key` of
/// the secret; the curve arithmetic is not stated.
#[verifier::external_body]
fn ed25519_verifying_key(secret: &[u8; 32]) -> (r: [u8; 32])
    ensures
        r@ == ed25519_public_key(secret@),
{
    ed25519_dalek::SigningKey::from_bytes(secret).verifying_key().to_bytes()
}

/// Calls `ed25519_dalek::SigningKey::sign`, which signs deterministically.
/// Claimed: the 64 signature bytes are `ed25519_signature` of the secret
/// and the message; the signing algorithm is not stated.
#[verifier::external_body]
fn ed25519_sign(secret: &[u8; 32], message: &[u8]) -> (r: [u8; 64])
    ensures
        r@ == ed25519_signature(secret@, message@),
{
    ed25519_dalek::SigningKey::from_bytes(secret).sign(message).to_bytes()
}

/// Whether two texts are equal.
fn same_text(a: &str, b: &str) -> (r: bool)
    ensures
        r == (a@ == b@),
{
    let n = a.unicode_len();
    if n != b.unicode_len() {
        return false;
    }
    let mut i: usize = 0;
    while i < n
        invariant
            n == a@.len() == b@.len(),
            i <= n,
            forall|j: int| 0 <= j < i ==> a@[j] == b@[j],
        decreases n - i,
    {
        if a.get_char(i) != b.get_char(i) {
            return false;
        }
        i = i + 1;
    }
    assert(a@ =~= b@);
    true
}

/// The contract symbol of a winner.
pub open spec fn winner_symbol_spec(w: Winner) -> Seq<char> {
    match w {
        Winner::Player1 => "Player1"@,
        Winner::Player2 => "Player2"@,
        Winner::Draw => "Draw"@,
    }
}

/// The symbol by which the escrow contract names a winner.
pub fn winner_symbol(w: Winner) -> (r: &'static str)
    ensures
        r@ == winner_symbol_spec(w),
{
    match w {
        Winner::Player1 => "Player1",
        Winner::Player2 => "Player2",
        Winner::Draw => "Draw",
    }
}

pub open spec fn invalid_strkey_message(strkey: Seq<char>, err: Seq<char>) -> Seq<char> {
    "invalid contract strkey '"@ + strkey + "': "@ + err
}

/// The 32-byte escrow contract id of a contract strkey; a strkey that does
/// not decode is a configuration error.
pub fn decode_contract_id(strkey: &str) -> (r: Result<[u8; 32], OracleServiceError>)
    ensures
        match contract_strkey_payload(strkey@) {
            Ok(id) => r matches Ok(a) && a@ == id,
            Err(m) => r matches Err(OracleServiceError::Config(msg)) && msg@
                == invalid_strkey_message(strkey@, m),
        },
{
    match decode_contract_strkey(strkey) {
        Ok(id) => Ok(id),
        Err(e) => {
            let mut msg = join_message("invalid contract strkey '", strkey);
            msg.append("': ");
            msg.append(e.as_str());
            proof {
                reveal_strlit("': ");
            }
            assert(msg@ =~= invalid_strkey_message(strkey@, e@));
            Err(OracleServiceError::Config(msg))
        },
    }
}

/// The account address (`G...`) of an ed25519 public key.
pub fn pubkey_to_g_address(public_key: &[u8; 32]) -> (r: Result<String, OracleServiceError>)
    ensures
        r matches Ok(s) && s@ == account_strkey(public_key@),
{
    Ok(encode_account_strkey(public_key))
}

/// The escrow contract and network an oracle submits results to.
pub struct SorobanClient {
    /// Soroban RPC endpoint.
    pub rpc_url: String,
    /// Network passphrase, which names the network in signatures.
    pub network_passphrase: String,
    /// Id of the escrow contract.
    pub contract_escrow: [u8; 32],
}

impl SorobanClient {
    /// A client for the contract whose strkey is `contract_escrow_strkey`;
    /// a strkey that does not decode is a configuration error.
    pub fn new(rpc_url: String, network_passphrase: String, contract_escrow_strkey: &str) -> (r: Result<
        SorobanClient,
        OracleServiceError,
    >)
        ensures
            match contract_strkey_payload(contract_escrow_strkey@) {
                Ok(id) => r matches Ok(c) && c.contract_escrow@ == id && c.rpc_url@ == rpc_url@
                    && c.network_passphrase@ == network_passphrase@,
                Err(m) => r matches Err(OracleServiceError::Config(msg)) && msg@
                    == invalid_strkey_message(contract_escrow_strkey@, m),
            },
    {
        match decode_contract_id(contract_escrow_strkey) {
            Ok(contract_escrow) => Ok(SorobanClient { rpc_url, network_passphrase, contract_escrow }),
            Err(e) => Err(e),
        }
    }
}

/// The network id: the SHA-256 digest of the passphrase's bytes.
pub fn network_id(network_passphrase: &str) -> (r: [u8; 32])
    ensures
        r@ == sha256(network_passphrase.spec_bytes()),
{
    sha256_digest(network_passphrase.as_bytes())
}

/// The bytes whose digest a transaction's signature covers: the network
/// id, the envelope type `ENVELOPE_TYPE_TX` (2, a big-endian `u32`), then
/// the transaction's XDR.
pub open spec fn signature_payload_spec(network_id: Seq<u8>, tx_xdr: Seq<u8>) -> Seq<u8> {
    network_id + seq![0u8, 0u8, 0u8, 2u8] + tx_xdr
}

/// `v` followed by `bytes`.
fn append_bytes(v: &mut Vec<u8>, bytes: &[u8])
    ensures
        final(v)@ == old(v)@ + bytes@,
{
    let mut i: usize = 0;
    while i < bytes.len()
        invariant
            i <= bytes.len(),
            v@ == old(v)@ + bytes@.take(i as int),
        decreases bytes.len() - i,
    {
        v.push(bytes[i]);
        assert(bytes@.take(i + 1) =~= bytes@.take(i as int).push(bytes@[i as int]));
        i = i + 1;
    }
    assert(bytes@.take(i as int) =~= bytes@);
}

/// The bytes a transaction's signature covers, for network id `network_id`.
pub fn signature_payload(network_id: &[u8; 32], tx_xdr: &[u8]) -> (r: Vec<u8>)
    ensures
        r@ == signature_payload_spec(network_id@, tx_xdr@),
{
    let mut p: Vec<u8> = Vec::new();
    append_bytes(&mut p, network_id.as_slice());
    p.push(0u8);
    p.push(0u8);
    p.push(0u8);
    p.push(2u8);
    append_bytes(&mut p, tx_xdr);
    assert(p@ =~= signature_payload_spec(network_id@, tx_xdr@));
    p
}

/// The hash that is signed: SHA-256 of the signature payload.
pub open spec fn transaction_hash_spec(network_passphrase: Seq<u8>, tx_xdr: Seq<u8>) -> Seq<u8> {
    sha256(signature_payload_spec(sha256(network_passphrase), tx_xdr))
}

/// The hash of transaction `tx_xdr` on the network named by
/// `network_passphrase`.
pub fn transaction_hash(network_passphrase: &str, tx_xdr: &[u8]) -> (r: [u8; 32])
    ensures
        r@ == transaction_hash_spec(network_passphrase.spec_bytes(), tx_xdr@),
{
    let id = network_id(network_passphrase);
    let payload = signature_payload(&id, tx_xdr);
    sha256_digest(payload.as_slice())
}

/// The hint of a signature: the last four bytes of the public key.
pub fn signature_hint(public_key: &[u8; 32]) -> (r: [u8; 4])
    ensures
        r@ == public_key@.subrange(28, 32),
{
    let r = [public_key[28], public_key[29], public_key[30], public_key[31]];
    assert(r@ =~= public_key@.subrange(28, 32));
    r
}

/// The decorated signature of transaction `tx_xdr` by the oracle key
/// `secret`: the hint of the oracle's public key and the signature of the
/// transaction hash.
pub fn sign_transaction(tx_xdr: &[u8], network_passphrase: &str, secret: &[u8; 32]) -> (r: (
    [u8; 4],
    [u8; 64],
))
    ensures
        r.0@ == ed25519_public_key(secret@).subrange(28, 32),
        r.1@ == ed25519_signature(secret@, transaction_hash_spec(network_passphrase.spec_bytes(), tx_xdr@)),
{
    let hash = transaction_hash(network_passphrase, tx_xdr);
    let sig = ed25519_sign(secret, hash.as_slice());
    let public_key = ed25519_verifying_key(secret);
    (signature_hint(&public_key), sig)
}

/// The oracle's public key, for a 32-byte secret key.
pub fn oracle_public_key(secret: &[u8; 32]) -> (r: [u8; 32])
    ensures
        r@ == ed25519_public_key(secret@),
{
    ed25519_verifying_key(secret)
}

/// Result of a `getAccount` call: the sequence number, read from the
/// `sequence` field or else from `sequenceNumber`.
pub fn account_sequence(sequence: Option<&str>, sequence_number: Option<&str>) -> (r: Result<i64, OracleServiceError>)
    ensures
        match (if sequence is Some { sequence } else { sequence_number }) {
            None => r matches Err(OracleServiceError::RpcError(m)) && m@ == "missing sequence in getAccount"@,
            Some(s) => match parse_i64_spec(s@) {
                Ok(v) => r == Ok::<i64, OracleServiceError>(v),
                Err(e) => r matches Err(OracleServiceError::RpcError(m)) && m@ == "bad sequence: "@
                    + int_parse_message(e),
            },
        },
{
    let field = match sequence {
        Some(s) => Some(s),
        None => sequence_number,
    };
    match field {
        None => Err(OracleServiceError::RpcError(String::from_str("missing sequence in getAccount"))),
        Some(s) => match parse_i64(s) {
            Ok(v) => Ok(v),
            Err(e) => {
                let m = e.message();
                Err(OracleServiceError::RpcError(join_message("bad sequence: ", m.as_str())))
            },
        },
    }
}

/// The resource fee a simulation asked for; a value that is not a decimal
/// `i64` counts as 0.
pub fn resource_fee(min_resource_fee: &str) -> (r: i64)
    ensures
        r == match parse_i64_spec(min_resource_fee@) {
            Ok(v) => v,
            Err(_) => 0,
        },
{
    match parse_i64(min_resource_fee) {
        Ok(v) => v,
        Err(_) => 0,
    }
}

/// The fee of the final transaction: base fee plus resource fee, as the
/// low 32 bits of the sum.
pub fn total_fee(min_resource_fee: i64) -> (r: u32)
    requires
        min_resource_fee <= i64::MAX - BASE_FEE,
    ensures
        r == (BASE_FEE + min_resource_fee) as u32,
{
    (BASE_FEE + min_resource_fee) as u32
}

/// What `simulateTransaction` returned that the submission needs.
#[derive(Debug)]
pub struct SimulateResult {
    /// The resource fee, as the decimal text the RPC sends.
    pub min_resource_fee: String,
    /// The soroban transaction data, as base64 XDR (empty when absent).
    pub transaction_data: String,
}

/// `o`'s text, or `default` when absent.
pub open spec fn string_or(o: Option<String>, default: Seq<char>) -> Seq<char> {
    match o {
        Some(t) => t@,
        None => default,
    }
}

/// Read a `simulateTransaction` reply: an `error` field fails the
/// submission; otherwise the fee (default `"0"`) and transaction data
/// (default empty).
pub fn simulate_outcome(
    error: Option<String>,
    min_resource_fee: Option<String>,
    transaction_data: Option<String>,
) -> (r: Result<SimulateResult, OracleServiceError>)
    ensures
        match error {
            Some(e) => (r matches Err(OracleServiceError::SimulateError(m)) && m@ == e@),
            None => (r matches Ok(s) && s.min_resource_fee@ == string_or(min_resource_fee, "0"@)
                && s.transaction_data@ == string_or(transaction_data, Seq::empty())),
        },
{
    match error {
        Some(e) => Err(OracleServiceError::SimulateError(e)),
        None => {
            let min_resource_fee = match min_resource_fee {
                Some(f) => f,
                None => String::from_str("0"),
            };
            proof {
                reveal_strlit("0");
            }
            let transaction_data = match transaction_data {
                Some(d) => d,
                None => String::new(),
            };
            Ok(SimulateResult { min_resource_fee, transaction_data })
        },
    }
}

/// `o`'s text, or `default` when absent.
pub open spec fn text_or(o: Option<&str>, default: Seq<char>) -> Seq<char> {
    match o {
        Some(t) => t@,
        None => default,
    }
}

/// Whether `status` is present and reads `text`.
pub open spec fn status_is(status: Option<&str>, text: Seq<char>) -> bool {
    status matches Some(s) && s@ == text
}

/// Read a `sendTransaction` reply: status `ERROR` fails the submission with
/// the result XDR; otherwise the transaction hash, which must be present.
pub fn send_outcome(status: Option<&str>, error_result_xdr: Option<&str>, hash: Option<&str>) -> (r: Result<
    String,
    OracleServiceError,
>)
    ensures
        status_is(status, "ERROR"@) ==> (r matches Err(OracleServiceError::SendError(m)) && m@
            == "sendTransaction ERROR: "@ + text_or(error_result_xdr, ""@)),
        !status_is(status, "ERROR"@) ==> match hash {
            Some(h) => r matches Ok(x) && x@ == h@,
            None => r matches Err(OracleServiceError::RpcError(m)) && m@
                == "missing hash in sendTransaction"@,
        },
{
    let st = match status {
        Some(s) => s,
        None => "UNKNOWN",
    };
    proof {
        reveal_strlit("UNKNOWN");
        reveal_strlit("ERROR");
        assert("UNKNOWN"@.len() == 7 && "ERROR"@.len() == 5);
    }
    if same_text(st, "ERROR") {
        let detail = match error_result_xdr {
            Some(d) => d,
            None => "",
        };
        proof {
            reveal_strlit("");
        }
        return Err(OracleServiceError::SendError(join_message("sendTransaction ERROR: ", detail)));
    }
    match hash {
        Some(h) => Ok(String::from_str(h)),
        None => Err(OracleServiceError::RpcError(String::from_str("missing hash in sendTransaction"))),
    }
}

/// What to do after one `getTransaction` poll.
#[derive(Debug)]
pub enum ConfirmationStep {
    /// The transaction succeeded.
    Confirmed,
    /// The transaction failed, or did not confirm in time.
    Failed(OracleServiceError),
    /// Not final yet: wait and poll again.
    Pending,
}

/// Decide after poll number `polls_done + 1` of transaction `tx_hash`,
/// whose reply had `status` and `result_xdr`: `SUCCESS` confirms, `FAILED`
/// fails with the result XDR, anything else waits for the next poll, except
/// after the last allowed poll, which fails with a timeout.
pub fn confirmation_step(tx_hash: &str, polls_done: u32, status: Option<&str>, result_xdr: Option<&str>) -> (r:
    ConfirmationStep)
    requires
        polls_done < MAX_CONFIRMATION_POLLS,
    ensures
        status_is(status, "SUCCESS"@) ==> r is Confirmed,
        status_is(status, "FAILED"@) ==> (r matches ConfirmationStep::Failed(
            OracleServiceError::TxFailed(m),
        ) && m@ == "transaction "@ + tx_hash@ + " failed: "@ + text_or(result_xdr, "(no detail)"@)),
        !status_is(status, "SUCCESS"@) && !status_is(status, "FAILED"@) ==> if polls_done + 1
            < MAX_CONFIRMATION_POLLS {
            r is Pending
        } else {
            r matches ConfirmationStep::Failed(OracleServiceError::TxFailed(m)) && m@
                == "transaction "@ + tx_hash@ + " did not confirm within 60s"@
        },
{
    let st = match status {
        Some(s) => s,
        None => "NOT_FOUND",
    };
    proof {
        reveal_strlit("NOT_FOUND");
        reveal_strlit("SUCCESS");
        reveal_strlit("FAILED");
        assert("SUCCESS"@.len() == 7 && "FAILED"@.len() == 6 && "NOT_FOUND"@.len() == 9);
    }
    if same_text(st, "SUCCESS") {
        return ConfirmationStep::Confirmed;
    }
    if same_text(st, "FAILED") {
        let detail = match result_xdr {
            Some(d) => d,
            None => "(no detail)",
        };
        let mut m = join_message("transaction ", tx_hash);
        m.append(" failed: ");
        m.append(detail);
        return ConfirmationStep::Failed(OracleServiceError::TxFailed(m));
    }
    if polls_done + 1 < MAX_CONFIRMATION_POLLS {
        ConfirmationStep::Pending
    } else {
        let mut m = join_message("transaction ", tx_hash);
        m.append(" did not confirm within 60s");
        ConfirmationStep::Failed(OracleServiceError::TxFailed(m))
    }
}

/// Read the HTTP layer of an RPC reply: a non-success status, then an
/// `error` member of the JSON reply, fail the call.
pub fn rpc_reply(http_success: bool, http_status: &str, error: Option<String>) -> (r: Result<(), OracleServiceError>)
    ensures
        !http_success ==> (r matches Err(OracleServiceError::RpcError(m)) && m@ == "HTTP "@
            + http_status@ + " from RPC"@),
        http_success ==> match error {
            Some(e) => r matches Err(OracleServiceError::RpcError(m)) && m@ == e@,
            None => r is Ok,
        },
{
    if !http_success {
        let mut m = join_message("HTTP ", http_status);
        m.append(" from RPC");
        return Err(OracleServiceError::RpcError(m));
    }
    match error {
        Some(e) => Err(OracleServiceError::RpcError(e)),
        None => Ok(()),
    }
}

} // verus!
