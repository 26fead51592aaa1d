use vstd::prelude::*;

verus! {

/// `prefix` followed by `rest`.
pub fn join_message(prefix: &str, rest: &str) -> (r: String)
    ensures
        r@ == prefix@ + rest@,
{
    let mut r = String::from_str(prefix);
    r.append(rest);
    r
}

/// Errors of the Chess.com client.
#[derive(Debug)]
pub enum ChessComError {
    InvalidGameId,
    /// The HTTP request failed; the transport's description.
    Http(String),
    Timeout,
    /// Non-success HTTP status, as its status line (e.g. `404 Not Found`).
    HttpStatus { status: String },
    GameNotFound,
    InvalidResponse,
    GameNotFinished,
}

pub open spec fn chess_com_message(e: ChessComError) -> Seq<char> {
    match e {
        ChessComError::InvalidGameId => "invalid chess.com game id"@,
        ChessComError::Http(m) => "http request failed: "@ + m@,
        ChessComError::Timeout => "request timed out"@,
        ChessComError::HttpStatus { status } => "chess.com returned non-success status: "@ + status@,
        ChessComError::GameNotFound => "game not found"@,
        ChessComError::InvalidResponse => "game is missing result fields or is in an unknown state"@,
        ChessComError::GameNotFinished => "game result is not available yet"@,
    }
}

impl ChessComError {
    /// The error's message.
    pub fn message(&self) -> (r: String)
        ensures
            r@ == chess_com_message(*self),
    {
        match self {
            ChessComError::InvalidGameId => String::from_str("invalid chess.com game id"),
            ChessComError::Http(m) => join_message("http request failed: ", m.as_str()),
            ChessComError::Timeout => String::from_str("request timed out"),
            ChessComError::HttpStatus { status } => join_message(
                "chess.com returned non-success status: ",
                status.as_str(),
            ),
            ChessComError::GameNotFound => String::from_str("game not found"),
            ChessComError::InvalidResponse => String::from_str(
                "game is missing result fields or is in an unknown state",
            ),
            ChessComError::GameNotFinished => String::from_str("game result is not available yet"),
        }
    }
}

/// Errors of the Lichess client.
#[derive(Debug)]
pub enum LichessError {
    InvalidGameId,
    /// The HTTP request failed; the transport's description.
    Http(String),
    Timeout,
    /// Non-success HTTP status, as its status line (e.g. `404 Not Found`).
    HttpStatus { status: String },
    GameNotFound,
    GameNotFinished,
    InvalidResponse,
}

pub open spec fn lichess_message(e: LichessError) -> Seq<char> {
    match e {
        LichessError::InvalidGameId => "invalid lichess game id"@,
        LichessError::Http(m) => "http request failed: "@ + m@,
        LichessError::Timeout => "request timed out"@,
        LichessError::HttpStatus { status } => "lichess returned non-success status: "@ + status@,
        LichessError::GameNotFound => "game not found"@,
        LichessError::GameNotFinished => "game result is not available yet"@,
        LichessError::InvalidResponse => "game is missing result fields or is in an unknown state"@,
    }
}

impl LichessError {
    /// The error's message.
    pub fn message(&self) -> (r: String)
        ensures
            r@ == lichess_message(*self),
    {
        match self {
            LichessError::InvalidGameId => String::from_str("invalid lichess game id"),
            LichessError::Http(m) => join_message("http request failed: ", m.as_str()),
            LichessError::Timeout => String::from_str("request timed out"),
            LichessError::HttpStatus { status } => join_message(
                "lichess returned non-success status: ",
                status.as_str(),
            ),
            LichessError::GameNotFound => String::from_str("game not found"),
            LichessError::GameNotFinished => String::from_str("game result is not available yet"),
            LichessError::InvalidResponse => String::from_str(
                "game is missing result fields or is in an unknown state",
            ),
        }
    }
}

/// Top-level oracle service error: configuration, transport, XDR
/// construction, simulation, submission and queue failures.
#[derive(Debug)]
pub enum OracleServiceError {
    Config(String),
    Transport(String),
    RpcError(String),
    SimulateError(String),
    SendError(String),
    TxFailed(String),
    XdrError(String),
    QueueIo(String),
}

pub open spec fn service_message(e: OracleServiceError) -> Seq<char> {
    match e {
        OracleServiceError::Config(m) => "configuration error: "@ + m@,
        OracleServiceError::Transport(m) => "transport error: "@ + m@,
        OracleServiceError::RpcError(m) => "RPC error: "@ + m@,
        OracleServiceError::SimulateError(m) => "simulate transaction error: "@ + m@,
        OracleServiceError::SendError(m) => "send transaction error: "@ + m@,
        OracleServiceError::TxFailed(m) => "transaction failed on-chain: "@ + m@,
        OracleServiceError::XdrError(m) => "XDR encoding/decoding error: "@ + m@,
        OracleServiceError::QueueIo(m) => "queue I/O error: "@ + m@,
    }
}

impl OracleServiceError {
    /// The error's message.
    pub fn message(&self) -> (r: String)
        ensures
            r@ == service_message(*self),
    {
        match self {
            OracleServiceError::Config(m) => join_message("configuration error: ", m.as_str()),
            OracleServiceError::Transport(m) => join_message("transport error: ", m.as_str()),
            OracleServiceError::RpcError(m) => join_message("RPC error: ", m.as_str()),
            OracleServiceError::SimulateError(m) => join_message(
                "simulate transaction error: ",
                m.as_str(),
            ),
            OracleServiceError::SendError(m) => join_message("send transaction error: ", m.as_str()),
            OracleServiceError::TxFailed(m) => join_message(
                "transaction failed on-chain: ",
                m.as_str(),
            ),
            OracleServiceError::XdrError(m) => join_message(
                "XDR encoding/decoding error: ",
                m.as_str(),
            ),
            OracleServiceError::QueueIo(m) => join_message("queue I/O error: ", m.as_str()),
        }
    }
}

} // verus!
