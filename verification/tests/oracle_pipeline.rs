use checkmate_escrow::escrow::types::{Platform, Winner};
use checkmate_escrow::oracle_service::decimal::{parse_i64, IntParseError};
use checkmate_escrow::oracle_service::errors::{ChessComError, LichessError, OracleServiceError};
use checkmate_escrow::oracle_service::poller::{
    classify_chess_com_error, classify_lichess_error, FetchError, PollAction, Poller,
};
use checkmate_escrow::oracle_service::queue::PendingEntry;
use checkmate_escrow::oracle_service::soroban::{
    account_sequence, confirmation_step, decode_contract_id, network_id, oracle_public_key,
    pubkey_to_g_address, resource_fee, rpc_reply, send_outcome, sign_transaction, signature_hint,
    signature_payload, simulate_outcome, total_fee, transaction_hash, winner_symbol,
    ConfirmationStep, SorobanClient,
};

use checkmate_escrow::oracle_service::submit_tx::{
    decode_auth_entries, decode_soroban_data, preliminary_transaction, signed_submit_transaction,
};
use sha2::{Digest, Sha256};
use stellar_xdr::curr::{
    HostFunction, Limits, OperationBody, ReadXdr, ScVal, Transaction, TransactionExt,
};

const NOW: i64 = 1_700_000_000_000;

fn poller() -> Poller {
    Poller { max_retries: 3, retry_base_delay_secs: 10 }
}

fn entry() -> PendingEntry {
    PendingEntry::new(7, "abcd1234".into(), Platform::Lichess, NOW)
}

fn hex(bytes: &[u8]) -> String {
    bytes.iter().map(|b| format!("{:02x}", b)).collect()
}

fn unhex(s: &str) -> Vec<u8> {
    (0..s.len()).step_by(2).map(|i| u8::from_str_radix(&s[i..i + 2], 16).unwrap()).collect()
}

#[test]
fn error_messages() {
    assert_eq!(LichessError::InvalidGameId.message(), "invalid lichess game id");
    assert_eq!(
        ChessComError::HttpStatus { status: "404 Not Found".into() }.message(),
        "chess.com returned non-success status: 404 Not Found"
    );
    assert_eq!(
        OracleServiceError::QueueIo("disk full".into()).message(),
        "queue I/O error: disk full"
    );
    assert_eq!(OracleServiceError::Config("x".into()).message(), "configuration error: x");
    assert_eq!(OracleServiceError::Transport("x".into()).message(), "transport error: x");
    assert_eq!(OracleServiceError::RpcError("x".into()).message(), "RPC error: x");
    assert_eq!(
        OracleServiceError::SimulateError("x".into()).message(),
        "simulate transaction error: x"
    );
    assert_eq!(OracleServiceError::SendError("x".into()).message(), "send transaction error: x");
    assert_eq!(OracleServiceError::TxFailed("x".into()).message(), "transaction failed on-chain: x");
    assert_eq!(OracleServiceError::XdrError("x".into()).message(), "XDR encoding/decoding error: x");
}

#[test]
fn classify_fetch_errors() {
    assert!(matches!(classify_lichess_error(LichessError::GameNotFound), FetchError::Permanent(m) if m == "game not found"));
    assert!(matches!(classify_lichess_error(LichessError::InvalidGameId), FetchError::Permanent(_)));
    assert!(matches!(classify_lichess_error(LichessError::GameNotFinished), FetchError::Transient(_)));
    assert!(matches!(classify_lichess_error(LichessError::Timeout), FetchError::Transient(m) if m == "request timed out"));
    assert!(matches!(classify_chess_com_error(ChessComError::InvalidGameId), FetchError::Permanent(m) if m == "invalid chess.com game id"));
    assert!(matches!(classify_chess_com_error(ChessComError::Http("reset".into())), FetchError::Transient(m) if m == "http request failed: reset"));
    assert!(matches!(classify_chess_com_error(ChessComError::InvalidResponse), FetchError::Transient(_)));
}

#[test]
fn fetched_winner_is_submitted() {
    let action = poller().process_entry(entry(), Ok(Winner::Player2), NOW);
    assert!(matches!(action, PollAction::Submit { entry, winner: Winner::Player2 } if entry.match_id == 7));
}

#[test]
fn permanent_error_dead_letters_at_once() {
    let action = poller().process_entry(entry(), Err(FetchError::Permanent("game not found".into())), NOW);
    match action {
        PollAction::DeadLetter(e) => {
            assert_eq!(e.attempts, 3);
            assert_eq!(e.last_error.as_deref(), Some("game not found"));
        }
        other => panic!("unexpected {:?}", other),
    }
}

#[test]
fn transient_errors_retry_then_dead_letter() {
    let p = poller();
    let mut e = entry();
    for expected_attempts in 1..3u32 {
        match p.process_entry(e, Err(FetchError::Transient("busy".into())), NOW) {
            PollAction::Retry(x) => {
                assert_eq!(x.attempts, expected_attempts);
                e = x;
            }
            other => panic!("unexpected {:?}", other),
        }
    }
    assert!(matches!(p.process_entry(e, Err(FetchError::Transient("busy".into())), NOW), PollAction::DeadLetter(x) if x.attempts == 3));
}

#[test]
fn submission_outcome() {
    let p = poller();
    assert!(matches!(p.submit_and_complete(entry(), Ok("abc".into()), NOW), PollAction::Complete { match_id: 7 }));
    match p.submit_and_complete(entry(), Err(OracleServiceError::TxFailed("boom".into())), NOW) {
        PollAction::Retry(x) => {
            assert_eq!(x.last_error.as_deref(), Some("transaction failed on-chain: boom"));
            assert_eq!(x.next_attempt_at, NOW + 10_000);
        }
        other => panic!("unexpected {:?}", other),
    }
}

#[test]
fn parse_i64_follows_std() {
    for s in ["0", "42", "-42", "+7", "9223372036854775807", "-9223372036854775808", "007"] {
        assert_eq!(parse_i64(s), Ok(s.parse::<i64>().unwrap()), "{}", s);
    }
    assert_eq!(parse_i64(""), Err(IntParseError::Empty));
    assert_eq!(parse_i64("-"), Err(IntParseError::InvalidDigit));
    assert_eq!(parse_i64("+"), Err(IntParseError::InvalidDigit));
    assert_eq!(parse_i64("12a"), Err(IntParseError::InvalidDigit));
    assert_eq!(parse_i64(" 1"), Err(IntParseError::InvalidDigit));
    assert_eq!(parse_i64("9223372036854775808"), Err(IntParseError::PosOverflow));
    assert_eq!(parse_i64("-9223372036854775809"), Err(IntParseError::NegOverflow));
    assert_eq!(parse_i64("99999999999999999999x"), Err(IntParseError::PosOverflow));
    assert_eq!(IntParseError::InvalidDigit.message(), "invalid digit found in string");
    for s in ["", "-", "x", "9223372036854775808", "-9223372036854775809"] {
        let std_msg = s.parse::<i64>().unwrap_err().to_string();
        assert_eq!(parse_i64(s).unwrap_err().message(), std_msg);
    }
}

#[test]
fn account_sequence_fields() {
    assert_eq!(account_sequence(Some("12"), Some("99")).unwrap(), 12);
    assert_eq!(account_sequence(None, Some("99")).unwrap(), 99);
    match account_sequence(None, None) {
        Err(OracleServiceError::RpcError(m)) => assert_eq!(m, "missing sequence in getAccount"),
        other => panic!("unexpected {:?}", other),
    }
    match account_sequence(Some("x1"), None) {
        Err(OracleServiceError::RpcError(m)) => assert_eq!(m, "bad sequence: invalid digit found in string"),
        other => panic!("unexpected {:?}", other),
    }
}

#[test]
fn fees() {
    assert_eq!(resource_fee("12345"), 12345);
    assert_eq!(resource_fee("abc"), 0);
    assert_eq!(total_fee(12345), 112_345);
    assert_eq!(total_fee(0), 100_000);
    assert_eq!(total_fee(-200_000), (-100_000i64) as u32);
    assert_eq!(total_fee(5_000_000_000), (5_000_100_000i64) as u32);
}

#[test]
fn rpc_replies() {
    let sim = simulate_outcome(None, Some("321".into()), None).unwrap();
    assert_eq!(sim.min_resource_fee, "321");
    assert_eq!(sim.transaction_data, "");
    let sim = simulate_outcome(None, None, Some("AAAA".into())).unwrap();
    assert_eq!(sim.min_resource_fee, "0");
    assert_eq!(sim.transaction_data, "AAAA");
    assert!(matches!(simulate_outcome(Some("bad".into()), None, None), Err(OracleServiceError::SimulateError(m)) if m == "bad"));
    assert_eq!(send_outcome(Some("PENDING"), None, Some("h1")).unwrap(), "h1");
    assert_eq!(send_outcome(None, None, Some("h2")).unwrap(), "h2");
    assert!(matches!(send_outcome(Some("ERROR"), Some("AAAB"), Some("h")), Err(OracleServiceError::SendError(m)) if m == "sendTransaction ERROR: AAAB"));
    assert!(matches!(send_outcome(Some("ERROR"), None, None), Err(OracleServiceError::SendError(m)) if m == "sendTransaction ERROR: "));
    assert!(matches!(send_outcome(Some("PENDING"), None, None), Err(OracleServiceError::RpcError(m)) if m == "missing hash in sendTransaction"));
    assert!(matches!(rpc_reply(false, "500 Internal Server Error", None), Err(OracleServiceError::RpcError(m)) if m == "HTTP 500 Internal Server Error from RPC"));
    assert!(matches!(rpc_reply(true, "200 OK", Some("{\"code\":1}".into())), Err(OracleServiceError::RpcError(m)) if m == "{\"code\":1}"));
    assert!(rpc_reply(true, "200 OK", None).is_ok());
}

#[test]
fn confirmation_polling() {
    assert!(matches!(confirmation_step("ab", 0, Some("SUCCESS"), None), ConfirmationStep::Confirmed));
    assert!(matches!(confirmation_step("ab", 3, Some("FAILED"), Some("XDR")), ConfirmationStep::Failed(OracleServiceError::TxFailed(m)) if m == "transaction ab failed: XDR"));
    assert!(matches!(confirmation_step("ab", 3, Some("FAILED"), None), ConfirmationStep::Failed(OracleServiceError::TxFailed(m)) if m == "transaction ab failed: (no detail)"));
    assert!(matches!(confirmation_step("ab", 0, None, None), ConfirmationStep::Pending));
    assert!(matches!(confirmation_step("ab", 28, Some("NOT_FOUND"), None), ConfirmationStep::Pending));
    assert!(matches!(confirmation_step("ab", 29, Some("PENDING"), None), ConfirmationStep::Failed(OracleServiceError::TxFailed(m)) if m == "transaction ab did not confirm within 60s"));
}

#[test]
fn winner_symbols() {
    assert_eq!(winner_symbol(Winner::Player1), "Player1");
    assert_eq!(winner_symbol(Winner::Player2), "Player2");
    assert_eq!(winner_symbol(Winner::Draw), "Draw");
}

#[test]
fn contract_strkey_round_trip() {
    let id = [7u8; 32];
    let strkey = stellar_strkey::Contract(id).to_string();
    assert_eq!(decode_contract_id(strkey.as_str()).unwrap(), id);
    let client = SorobanClient::new("https://rpc".into(), "pass".into(), strkey.as_str()).unwrap();
    assert_eq!(client.contract_escrow, id);
    assert_eq!(client.rpc_url, "https://rpc");
    match SorobanClient::new("u".into(), "p".into(), "not-a-strkey") {
        Err(OracleServiceError::Config(m)) => {
            assert!(m.starts_with("invalid contract strkey 'not-a-strkey': "), "{}", m);
            let detail = stellar_strkey::Contract::from_string("not-a-strkey").unwrap_err().to_string();
            assert!(m.ends_with(&detail));
        }
        Ok(_) => panic!("decoded an invalid strkey"),
        Err(e) => panic!("unexpected {:?}", e),
    }
}

#[test]
fn account_address_of_public_key() {
    let addr = pubkey_to_g_address(&[0u8; 32]).unwrap();
    assert_eq!(addr, "GAAAAAAAAAAAAAAAAAAAAAAAAAAAAAAAAAAAAAAAAAAAAAAAAAAAAWHF");
    let other = pubkey_to_g_address(&[1u8; 32]).unwrap();
    assert_eq!(other.len(), 56);
    assert!(other.starts_with('G'));
    assert_ne!(addr, other);
}

#[test]
fn network_id_is_sha256_of_passphrase() {
    assert_eq!(
        hex(&network_id("abc")),
        "ba7816bf8f01cfea414140de5dae2223b00361a396177a9cb410ff61f20015ad"
    );
    assert_eq!(
        hex(&network_id("Test SDF Network ; September 2015")),
        "cee0302d59844d32bdca915c8203dd44b33fbb7edc19051ea37abedf28ecd472"
    );
}

#[test]
fn payload_and_hash() {
    let id = [9u8; 32];
    let p = signature_payload(&id, &[1, 2, 3]);
    assert_eq!(p.len(), 39);
    assert_eq!(&p[0..32], &id[..]);
    assert_eq!(&p[32..36], &[0, 0, 0, 2]);
    assert_eq!(&p[36..], &[1, 2, 3]);
    let h = transaction_hash("abc", &[1, 2, 3]);
    let expected = network_id_payload_digest("abc", &[1, 2, 3]);
    assert_eq!(h.to_vec(), expected);
}

fn network_id_payload_digest(pass: &str, tx: &[u8]) -> Vec<u8> {
    let id: [u8; 32] = Sha256::digest(pass.as_bytes()).into();
    let mut payload = id.to_vec();
    payload.extend_from_slice(&[0u8, 0, 0, 2]);
    payload.extend_from_slice(tx);
    Sha256::digest(&payload).to_vec()
}

#[test]
fn ed25519_keys_and_signatures() {
    let secret: [u8; 32] =
        unhex("9d61b19deffd5a60ba844af492ec2cc44449c5697b326919703bac031cae7f60").try_into().unwrap();
    let public = oracle_public_key(&secret);
    assert_eq!(hex(&public), "d75a980182b10ab7d54bfed3c964073a0ee172f3daa62325af021a68f707511a");
    assert_eq!(signature_hint(&public), [0xf7, 0x07, 0x51, 0x1a]);
    let tx = [5u8, 6, 7];
    let (hint, sig) = sign_transaction(&tx, "abc", &secret);
    assert_eq!(hint, [0xf7, 0x07, 0x51, 0x1a]);
    let hash = transaction_hash("abc", &tx);
    let vk = ed25519_dalek::VerifyingKey::from_bytes(&public).unwrap();
    let signature = ed25519_dalek::Signature::from_bytes(&sig);
    assert!(vk.verify_strict(&hash, &signature).is_ok());
    assert!(vk.verify_strict(&tx, &signature).is_err());
}

#[test]
fn preliminary_transaction_calls_submit_result() {
    let contract = [3u8; 32];
    let caller = [4u8; 32];
    let bytes = preliminary_transaction(
        &contract, &caller, 9, Winner::Draw, 41,
    )
    .unwrap();
    let tx = Transaction::from_xdr(&bytes, Limits::none()).unwrap();
    assert_eq!(tx.seq_num.0, 42);
    assert_eq!(tx.fee, 100);
    assert!(matches!(tx.ext, TransactionExt::V0));
    assert_eq!(tx.operations.len(), 1);
    match &tx.operations[0].body {
        OperationBody::InvokeHostFunction(op) => {
            assert!(op.auth.is_empty());
            match &op.host_function {
                HostFunction::InvokeContract(args) => {
                    assert_eq!(args.function_name.0.to_string(), "submit_result");
                    assert_eq!(args.args.len(), 3);
                    assert_eq!(args.args[0], ScVal::U64(9));
                    match &args.args[1] {
                        ScVal::Symbol(s) => assert_eq!(s.0.to_string(), "Draw"),
                        other => panic!("unexpected {:?}", other),
                    }
                }
                other => panic!("unexpected {:?}", other),
            }
        }
        other => panic!("unexpected {:?}", other),
    }
}

#[test]
fn signed_submission_uses_fee_data_and_signature() {
    let secret: [u8; 32] =
        unhex("9d61b19deffd5a60ba844af492ec2cc44449c5697b326919703bac031cae7f60").try_into().unwrap();
    let public = oracle_public_key(&secret);
    let contract = [3u8; 32];
    let signed = signed_submit_transaction(
        &contract, &secret, 9, Winner::Player1, 41, "250", "", &Vec::new(), "abc",
    )
    .unwrap();
    let tx = Transaction::from_xdr(&signed.tx_xdr, Limits::none()).unwrap();
    assert_eq!(tx.seq_num.0, 42);
    assert_eq!(tx.fee, 100_250);
    match &tx.ext {
        TransactionExt::V1(data) => assert_eq!(data.resource_fee, 0),
        other => panic!("unexpected {:?}", other),
    }
    assert_eq!(signed.hint, [0xf7, 0x07, 0x51, 0x1a]);
    let hash = transaction_hash("abc", &signed.tx_xdr);
    assert_eq!(hash.to_vec(), network_id_payload_digest("abc", &signed.tx_xdr));
    let vk = ed25519_dalek::VerifyingKey::from_bytes(&public).unwrap();
    let sig = ed25519_dalek::Signature::from_bytes(&signed.signature);
    assert!(vk.verify_strict(&hash, &sig).is_ok());
}

#[test]
fn simulation_payload_errors() {
    assert!(matches!(decode_soroban_data(""), Ok(None)));
    match decode_soroban_data("!!!") {
        Err(OracleServiceError::XdrError(m)) => assert!(m.starts_with("soroban data decode: "), "{}", m),
        other => panic!("unexpected {:?}", other),
    }
    assert_eq!(decode_auth_entries(&Vec::new()).unwrap().len(), 0);
    match decode_auth_entries(&vec!["AAAA".to_string(), "!!".to_string()]) {
        Err(OracleServiceError::XdrError(m)) => assert!(m.starts_with("auth entry: "), "{}", m),
        other => panic!("unexpected {:?}", other),
    }
}
