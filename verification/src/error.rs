//! The error type shared by every part of the service.

use vstd::prelude::*;

verus! {

/// Errors that can occur during package processing.
///
/// Variants that wrap an error of another library carry its rendered message.
#[derive(Debug)]
pub enum ProcessorError {
    /// I/O errors
    IO(String),
    /// HTTP request/response errors
    Http(String),
    /// JSON parsing/serialization errors
    Json(String),
    /// ZIP file processing errors
    Zip(String),
    /// Directory traversal errors
    Walkdir(String),
    /// URL parsing errors
    UrlParse(String),
    /// File download errors
    Download(String),
    /// General message errors
    Message(String),
    /// Network connectivity errors
    Network(String),
    /// Input validation errors
    Validation(String),
    /// Package processing errors
    Processing(String),
    /// Configuration errors
    Config(String),
    /// API rate limit exceeded errors
    RateLimitExceeded(String),
    /// GitHub API specific errors
    GitHubApi(String),
    /// Language Model errors
    LLM(String),
    /// Parsing errors
    Parse(String),
    /// Database errors
    Database(String),
    /// OpenAI API errors
    OpenAI(String),
    /// PyPI API errors
    PyPiApi(String),
    /// NPM API errors
    NpmApi(String),
    /// Cache errors
    Cache(String),
}

/// Result type used throughout the library.
pub type Result<T> = core::result::Result<T, ProcessorError>;

/// Whether an error of this kind may go away when the operation is retried.
pub open spec fn transient(e: ProcessorError) -> bool {
    ||| e is Network
    ||| e is Http
    ||| e is RateLimitExceeded
    ||| e is IO
}

/// The prefix that the rendered message of each kind starts with.
pub open spec fn display_prefix(e: ProcessorError) -> Seq<char> {
    match e {
        ProcessorError::IO(_) => "IO error: "@,
        ProcessorError::Http(_) => "HTTP error: "@,
        ProcessorError::Json(_) => "JSON error: "@,
        ProcessorError::Zip(_) => "Zip error: "@,
        ProcessorError::Walkdir(_) => "Walkdir error: "@,
        ProcessorError::UrlParse(_) => "URL parse error: "@,
        ProcessorError::Download(_) => "Download error: "@,
        ProcessorError::Message(_) => ""@,
        ProcessorError::Network(_) => "Network error: "@,
        ProcessorError::Validation(_) => "Validation error: "@,
        ProcessorError::Processing(_) => "Processing error: "@,
        ProcessorError::Config(_) => "Config error: "@,
        ProcessorError::RateLimitExceeded(_) => "Rate limit exceeded: "@,
        ProcessorError::GitHubApi(_) => "GitHub API error: "@,
        ProcessorError::LLM(_) => "LLM error: "@,
        ProcessorError::Parse(_) => "Parsing error: "@,
        ProcessorError::Database(_) => "Database error: "@,
        ProcessorError::OpenAI(_) => "OpenAI error: "@,
        ProcessorError::PyPiApi(_) => "PyPI API error: "@,
        ProcessorError::NpmApi(_) => "NPM API error: "@,
        ProcessorError::Cache(_) => "Cache error: "@,
    }
}

/// The detail text that every variant carries.
pub open spec fn detail(e: ProcessorError) -> Seq<char> {
    match e {
        ProcessorError::IO(m) => m@,
        ProcessorError::Http(m) => m@,
        ProcessorError::Json(m) => m@,
        ProcessorError::Zip(m) => m@,
        ProcessorError::Walkdir(m) => m@,
        ProcessorError::UrlParse(m) => m@,
        ProcessorError::Download(m) => m@,
        ProcessorError::Message(m) => m@,
        ProcessorError::Network(m) => m@,
        ProcessorError::Validation(m) => m@,
        ProcessorError::Processing(m) => m@,
        ProcessorError::Config(m) => m@,
        ProcessorError::RateLimitExceeded(m) => m@,
        ProcessorError::GitHubApi(m) => m@,
        ProcessorError::LLM(m) => m@,
        ProcessorError::Parse(m) => m@,
        ProcessorError::Database(m) => m@,
        ProcessorError::OpenAI(m) => m@,
        ProcessorError::PyPiApi(m) => m@,
        ProcessorError::NpmApi(m) => m@,
        ProcessorError::Cache(m) => m@,
    }
}

impl ProcessorError {
    /// Creates a new error with the specified message.
    pub fn new(message: &str) -> (e: Self)
        ensures
            e is Message,
            detail(e) == message@,
    {
        ProcessorError::Message(String::from_str(message))
    }

    /// Checks if this error is transient and retryable.
    pub fn is_transient(&self) -> (b: bool)
        ensures
            b == transient(*self),
    {
        match self {
            ProcessorError::Network(_) => true,
            ProcessorError::Http(_) => true,
            ProcessorError::RateLimitExceeded(_) => true,
            ProcessorError::IO(_) => true,
            _ => false,
        }
    }

    /// Checks if this error is fatal and should terminate processing.
    pub fn is_fatal(&self) -> (b: bool)
        ensures
            b == !transient(*self),
    {
        !self.is_transient()
    }

    /// The detail text carried by the error.
    pub fn detail_text(&self) -> (s: &String)
        ensures
            s@ == detail(*self),
    {
        match self {
            ProcessorError::IO(m) => m,
            ProcessorError::Http(m) => m,
            ProcessorError::Json(m) => m,
            ProcessorError::Zip(m) => m,
            ProcessorError::Walkdir(m) => m,
            ProcessorError::UrlParse(m) => m,
            ProcessorError::Download(m) => m,
            ProcessorError::Message(m) => m,
            ProcessorError::Network(m) => m,
            ProcessorError::Validation(m) => m,
            ProcessorError::Processing(m) => m,
            ProcessorError::Config(m) => m,
            ProcessorError::RateLimitExceeded(m) => m,
            ProcessorError::GitHubApi(m) => m,
            ProcessorError::LLM(m) => m,
            ProcessorError::Parse(m) => m,
            ProcessorError::Database(m) => m,
            ProcessorError::OpenAI(m) => m,
            ProcessorError::PyPiApi(m) => m,
            ProcessorError::NpmApi(m) => m,
            ProcessorError::Cache(m) => m,
        }
    }

    /// The human-readable message, as the error's display form reads.
    pub fn to_string(&self) -> (s: String)
        ensures
            s@ == display_prefix(*self) + detail(*self),
    {
        let prefix = match self {
            ProcessorError::IO(_) => "IO error: ",
            ProcessorError::Http(_) => "HTTP error: ",
            ProcessorError::Json(_) => "JSON error: ",
            ProcessorError::Zip(_) => "Zip error: ",
            ProcessorError::Walkdir(_) => "Walkdir error: ",
            ProcessorError::UrlParse(_) => "URL parse error: ",
            ProcessorError::Download(_) => "Download error: ",
            ProcessorError::Message(_) => "",
            ProcessorError::Network(_) => "Network error: ",
            ProcessorError::Validation(_) => "Validation error: ",
            ProcessorError::Processing(_) => "Processing error: ",
            ProcessorError::Config(_) => "Config error: ",
            ProcessorError::RateLimitExceeded(_) => "Rate limit exceeded: ",
            ProcessorError::GitHubApi(_) => "GitHub API error: ",
            ProcessorError::LLM(_) => "LLM error: ",
            ProcessorError::Parse(_) => "Parsing error: ",
            ProcessorError::Database(_) => "Database error: ",
            ProcessorError::OpenAI(_) => "OpenAI error: ",
            ProcessorError::PyPiApi(_) => "PyPI API error: ",
            ProcessorError::NpmApi(_) => "NPM API error: ",
            ProcessorError::Cache(_) => "Cache error: ",
        };
        let mut s = String::from_str(prefix);
        s.append(self.detail_text().as_str());
        s
    }
}

} // verus!
