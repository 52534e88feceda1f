//! The error type shared by the client and the server, the HTTP status
//! each error is answered with, and the text each error displays.

use vstd::prelude::*;
use vstd::string::*;

verus! {

/// A database failure, held as the kind and the text the database layer reported.
pub enum DbError {
    /// The requested row does not exist; the text says which.
    RecordNotFound(String),
    /// A statement failed while executing; the text is the database's message.
    Exec(String),
}

/// The spec-level value of a `DbError`.
pub enum DbErrorView {
    RecordNotFound(Seq<char>),
    Exec(Seq<char>),
}

impl View for DbError {
    type V = DbErrorView;

    open spec fn view(&self) -> DbErrorView {
        match self {
            DbError::RecordNotFound(s) => DbErrorView::RecordNotFound(s@),
            DbError::Exec(s) => DbErrorView::Exec(s@),
        }
    }
}

/// Main error type of the application.
pub enum ClaiError {
    /// Database-related errors.
    Database(DbError),
    /// Network/HTTP client errors; the text is the transport's message.
    Network(String),
    /// Server/API errors.
    Server { message: String },
    /// Session management errors.
    Session { message: String },
    /// Terminal/IO errors; the text is the system's message.
    Terminal(String),
    /// Configuration errors.
    Config { message: String },
    /// Serialization errors; the text is the parser's message.
    Serialization(String),
    /// Model Context Protocol errors; the text is the protocol layer's message.
    McpProtocol(String),
}

/// The spec-level value of a `ClaiError`.
pub enum ClaiErrorView {
    Database(DbErrorView),
    Network(Seq<char>),
    Server(Seq<char>),
    Session(Seq<char>),
    Terminal(Seq<char>),
    Config(Seq<char>),
    Serialization(Seq<char>),
    McpProtocol(Seq<char>),
}

impl View for ClaiError {
    type V = ClaiErrorView;

    open spec fn view(&self) -> ClaiErrorView {
        match self {
            ClaiError::Database(e) => ClaiErrorView::Database(e@),
            ClaiError::Network(s) => ClaiErrorView::Network(s@),
            ClaiError::Server { message } => ClaiErrorView::Server(message@),
            ClaiError::Session { message } => ClaiErrorView::Session(message@),
            ClaiError::Terminal(s) => ClaiErrorView::Terminal(s@),
            ClaiError::Config { message } => ClaiErrorView::Config(message@),
            ClaiError::Serialization(s) => ClaiErrorView::Serialization(s@),
            ClaiError::McpProtocol(s) => ClaiErrorView::McpProtocol(s@),
        }
    }
}

/// HTTP status codes the server answers with.
pub const STATUS_OK: u16 = 200;
pub const STATUS_BAD_REQUEST: u16 = 400;
pub const STATUS_NOT_FOUND: u16 = 404;
pub const STATUS_INTERNAL_SERVER_ERROR: u16 = 500;
pub const STATUS_BAD_GATEWAY: u16 = 502;

/// The status a failed request is answered with: a missing record is 404,
/// a failed upstream call 502, a bad session request or unparsable payload
/// 400, anything else 500.
pub open spec fn status_for(e: ClaiErrorView) -> u16 {
    match e {
        ClaiErrorView::Database(DbErrorView::RecordNotFound(_)) => STATUS_NOT_FOUND,
        ClaiErrorView::Network(_) => STATUS_BAD_GATEWAY,
        ClaiErrorView::Session(_) => STATUS_BAD_REQUEST,
        ClaiErrorView::Serialization(_) => STATUS_BAD_REQUEST,
        _ => STATUS_INTERNAL_SERVER_ERROR,
    }
}

/// The text a database error displays.
pub open spec fn db_error_text(e: DbErrorView) -> Seq<char> {
    match e {
        DbErrorView::RecordNotFound(s) => "RecordNotFound Error: "@ + s,
        DbErrorView::Exec(s) => "Execution Error: "@ + s,
    }
}

/// The text an error displays.
pub open spec fn error_text(e: ClaiErrorView) -> Seq<char> {
    match e {
        ClaiErrorView::Database(d) => "Database error: "@ + db_error_text(d),
        ClaiErrorView::Network(s) => "Network error: "@ + s,
        ClaiErrorView::Server(s) => "Server error: "@ + s,
        ClaiErrorView::Session(s) => "Session error: "@ + s,
        ClaiErrorView::Terminal(s) => "Terminal I/O error: "@ + s,
        ClaiErrorView::Config(s) => "Configuration error: "@ + s,
        ClaiErrorView::Serialization(s) => "Serialization error: "@ + s,
        ClaiErrorView::McpProtocol(s) => "MCP protocol error: "@ + s,
    }
}

fn prefixed(prefix: &str, s: &String) -> (r: String)
    ensures
        r@ == prefix@ + s@,
{
    let r = String::from_str(prefix);
    r.concat(s.as_str())
}

impl DbError {
    /// The text this database error displays.
    pub fn to_text(&self) -> (r: String)
        ensures
            r@ == db_error_text(self@),
    {
        match self {
            DbError::RecordNotFound(s) => prefixed("RecordNotFound Error: ", s),
            DbError::Exec(s) => prefixed("Execution Error: ", s),
        }
    }
}

impl ClaiError {
    /// A server error with the given message.
    pub fn server(message: String) -> (e: ClaiError)
        ensures
            e@ == ClaiErrorView::Server(message@),
    {
        ClaiError::Server { message }
    }

    /// A session error with the given message.
    pub fn session(message: String) -> (e: ClaiError)
        ensures
            e@ == ClaiErrorView::Session(message@),
    {
        ClaiError::Session { message }
    }

    /// A configuration error with the given message.
    pub fn config(message: String) -> (e: ClaiError)
        ensures
            e@ == ClaiErrorView::Config(message@),
    {
        ClaiError::Config { message }
    }

    /// The HTTP status this error is answered with.
    pub fn status_code(&self) -> (code: u16)
        ensures
            code == status_for(self@),
    {
        match self {
            ClaiError::Database(DbError::RecordNotFound(_)) => STATUS_NOT_FOUND,
            ClaiError::Network(_) => STATUS_BAD_GATEWAY,
            ClaiError::Session { .. } => STATUS_BAD_REQUEST,
            ClaiError::Serialization(_) => STATUS_BAD_REQUEST,
            _ => STATUS_INTERNAL_SERVER_ERROR,
        }
    }

    /// The text this error displays.
    pub fn to_text(&self) -> (r: String)
        ensures
            r@ == error_text(self@),
    {
        match self {
            ClaiError::Database(d) => {
                let inner = d.to_text();
                prefixed("Database error: ", &inner)
            },
            ClaiError::Network(s) => prefixed("Network error: ", s),
            ClaiError::Server { message } => prefixed("Server error: ", message),
            ClaiError::Session { message } => prefixed("Session error: ", message),
            ClaiError::Terminal(s) => prefixed("Terminal I/O error: ", s),
            ClaiError::Config { message } => prefixed("Configuration error: ", message),
            ClaiError::Serialization(s) => prefixed("Serialization error: ", s),
            ClaiError::McpProtocol(s) => prefixed("MCP protocol error: ", s),
        }
    }

    /// A copy of this error.
    pub fn duplicate(&self) -> (e: ClaiError)
        ensures
            e@ == self@,
    {
        match self {
            ClaiError::Database(DbError::RecordNotFound(s)) => ClaiError::Database(
                DbError::RecordNotFound(s.clone()),
            ),
            ClaiError::Database(DbError::Exec(s)) => ClaiError::Database(DbError::Exec(s.clone())),
            ClaiError::Network(s) => ClaiError::Network(s.clone()),
            ClaiError::Server { message } => ClaiError::Server { message: message.clone() },
            ClaiError::Session { message } => ClaiError::Session { message: message.clone() },
            ClaiError::Terminal(s) => ClaiError::Terminal(s.clone()),
            ClaiError::Config { message } => ClaiError::Config { message: message.clone() },
            ClaiError::Serialization(s) => ClaiError::Serialization(s.clone()),
            ClaiError::McpProtocol(s) => ClaiError::McpProtocol(s.clone()),
        }
    }
}

} // verus!
