//! Structured errors of the client, and their classification from free text.

use vstd::prelude::*;
use crate::text::{owned, push_str, to_lower, lowercase, seq_contains, str_contains, all_ascii, ascii_lower};

verus! {

/// An error of the client, with its message.
#[derive(Debug, Clone)]
pub enum NotebookLmError {
    /// The Google session expired; the cookies must be renewed.
    SessionExpired(String),
    /// The CSRF token expired or is invalid; it can be refreshed.
    CsrfExpired(String),
    /// The source is not indexed yet; poll before asking.
    SourceNotReady(String),
    /// Google is rate limiting; lower the concurrency.
    RateLimited(String),
    /// A response could not be parsed.
    ParseError(String),
    /// A network or HTTP failure.
    NetworkError(String),
    /// An error of no known kind.
    Unknown(String),
    /// A file to upload does not exist.
    FileNotFound(String),
    /// An upload session or stream failed.
    UploadFailed(String),
    /// The input is invalid (a directory, a bad format).
    ValidationError(String),
    /// The artifact is not complete and cannot be downloaded yet.
    ArtifactNotReady(String),
    /// The artifact is not in the notebook.
    ArtifactNotFound(String),
    /// Downloading an artifact failed.
    DownloadFailed(String),
    /// Generating an artifact failed for a reason other than a rate limit.
    GenerationFailed(String),
    /// Too many consecutive authentication errors opened the circuit breaker.
    CircuitOpen(String),
}

/// The kind of an error, without its message.
#[derive(Debug, Clone, Copy, PartialEq, Eq, Structural)]
pub enum ErrorKind {
    SessionExpired,
    CsrfExpired,
    SourceNotReady,
    RateLimited,
    ParseError,
    NetworkError,
    Unknown,
    FileNotFound,
    UploadFailed,
    ValidationError,
    ArtifactNotReady,
    ArtifactNotFound,
    DownloadFailed,
    GenerationFailed,
    CircuitOpen,
}

/// Result of an operation that fails with a structured error.
pub type NotebookResult<T> = Result<T, NotebookLmError>;

/// `l` contains `p`.
pub open spec fn has(l: Seq<char>, p: &str) -> bool {
    seq_contains(l, p@)
}

/// The kind that `from_string` gives for a lower-cased message: the first rule
/// that matches, in order.
pub open spec fn classify(l: Seq<char>) -> ErrorKind {
    if has(l, "401") || has(l, "unauthorized") {
        ErrorKind::SessionExpired
    } else if has(l, "400") || has(l, "csrf") || has(l, "forbidden") {
        ErrorKind::CsrfExpired
    } else if has(l, "429") || has(l, "rate") || has(l, "too many") {
        ErrorKind::RateLimited
    } else if has(l, "not found") || has(l, "no such file") || has(l, "file_not_found") || has(l, "artifact_not_found") {
        if has(l, "artifact") {
            ErrorKind::ArtifactNotFound
        } else {
            ErrorKind::FileNotFound
        }
    } else if has(l, "upload") || has(l, "upload_url") || has(l, "resumable") {
        ErrorKind::UploadFailed
    } else if has(l, "download") || has(l, "stream") || has(l, "write failed") {
        ErrorKind::DownloadFailed
    } else if has(l, "generation failed") || has(l, "artifact failed") || has(l, "generation_error") {
        ErrorKind::GenerationFailed
    } else if has(l, "not ready") || has(l, "still processing") || has(l, "artifact_not_ready") {
        ErrorKind::ArtifactNotReady
    } else if has(l, "validation") || has(l, "not a file") || has(l, "is a directory") {
        ErrorKind::ValidationError
    } else if has(l, "parse") || has(l, "json") {
        ErrorKind::ParseError
    } else if has(l, "network") || has(l, "connection") || has(l, "timeout") {
        ErrorKind::NetworkError
    } else if has(l, "session") {
        ErrorKind::SessionExpired
    } else if has(l, "circuit") || has(l, "breaker") {
        ErrorKind::CircuitOpen
    } else {
        ErrorKind::Unknown
    }
}

impl NotebookLmError {
    pub open spec fn kind(&self) -> ErrorKind {
        match self {
            NotebookLmError::SessionExpired(_) => ErrorKind::SessionExpired,
            NotebookLmError::CsrfExpired(_) => ErrorKind::CsrfExpired,
            NotebookLmError::SourceNotReady(_) => ErrorKind::SourceNotReady,
            NotebookLmError::RateLimited(_) => ErrorKind::RateLimited,
            NotebookLmError::ParseError(_) => ErrorKind::ParseError,
            NotebookLmError::NetworkError(_) => ErrorKind::NetworkError,
            NotebookLmError::Unknown(_) => ErrorKind::Unknown,
            NotebookLmError::FileNotFound(_) => ErrorKind::FileNotFound,
            NotebookLmError::UploadFailed(_) => ErrorKind::UploadFailed,
            NotebookLmError::ValidationError(_) => ErrorKind::ValidationError,
            NotebookLmError::ArtifactNotReady(_) => ErrorKind::ArtifactNotReady,
            NotebookLmError::ArtifactNotFound(_) => ErrorKind::ArtifactNotFound,
            NotebookLmError::DownloadFailed(_) => ErrorKind::DownloadFailed,
            NotebookLmError::GenerationFailed(_) => ErrorKind::GenerationFailed,
            NotebookLmError::CircuitOpen(_) => ErrorKind::CircuitOpen,
        }
    }

    pub open spec fn message(&self) -> Seq<char> {
        match self {
            NotebookLmError::SessionExpired(m) => m@,
            NotebookLmError::CsrfExpired(m) => m@,
            NotebookLmError::SourceNotReady(m) => m@,
            NotebookLmError::RateLimited(m) => m@,
            NotebookLmError::ParseError(m) => m@,
            NotebookLmError::NetworkError(m) => m@,
            NotebookLmError::Unknown(m) => m@,
            NotebookLmError::FileNotFound(m) => m@,
            NotebookLmError::UploadFailed(m) => m@,
            NotebookLmError::ValidationError(m) => m@,
            NotebookLmError::ArtifactNotReady(m) => m@,
            NotebookLmError::ArtifactNotFound(m) => m@,
            NotebookLmError::DownloadFailed(m) => m@,
            NotebookLmError::GenerationFailed(m) => m@,
            NotebookLmError::CircuitOpen(m) => m@,
        }
    }

    /// The text printed for the error: a heading, the message, and for some
    /// kinds advice on what to do.
    pub open spec fn display(&self) -> Seq<char> {
        match self {
            NotebookLmError::SessionExpired(m) => "SESIÓN EXPIRADA: "@ + m@ + ". El usuario debe actualizar las cookies."@,
            NotebookLmError::CsrfExpired(m) => "CSRF EXPIRADO: "@ + m@ + ". Intentando refresh automático..."@,
            NotebookLmError::SourceNotReady(m) => "FUENTE NO LISTA: "@ + m@ + ". Faça polling antes de consultar."@,
            NotebookLmError::RateLimited(m) => "RATE LIMITED: "@ + m@ + ". Reducir concurrencia."@,
            NotebookLmError::ParseError(m) => "ERROR DE PARSEO: "@ + m@,
            NotebookLmError::NetworkError(m) => "ERROR DE RED: "@ + m@,
            NotebookLmError::Unknown(m) => "ERROR DESCONOCIDO: "@ + m@,
            NotebookLmError::FileNotFound(m) => "ARCHIVO NO ENCONTRADO: "@ + m@,
            NotebookLmError::UploadFailed(m) => "ERROR DE SUBIDA: "@ + m@,
            NotebookLmError::ValidationError(m) => "VALIDACIÓN FALLIDA: "@ + m@,
            NotebookLmError::ArtifactNotReady(m) => "ARTEFACTO NO LISTO: "@ + m@ + ". Esperar a que la generación complete."@,
            NotebookLmError::ArtifactNotFound(m) => "ARTEFACTO NO ENCONTRADO: "@ + m@,
            NotebookLmError::DownloadFailed(m) => "ERROR DE DESCARGA: "@ + m@,
            NotebookLmError::GenerationFailed(m) => "GENERACIÓN FALLIDA: "@ + m@,
            NotebookLmError::CircuitOpen(m) => "CIRCUIT BREAKER ABIERTO: "@ + m@ + ". Ejecuta `notebooklm-mcp auth-browser` para re-autenticar."@,
        }
    }

    /// Classifies a message by the words it holds, ignoring case, and keeps
    /// the message as it is.
    pub fn from_string(s: String) -> (r: NotebookLmError)
        ensures
            r.kind() == classify(lowercase(s@)),
            all_ascii(s@) ==> r.kind() == classify(ascii_lower(s@)),
            r.message() == s@,
    {
        let lower = to_lower(s.as_str());
        let l = lower.as_str();
        if str_contains(l, "401") || str_contains(l, "unauthorized") {
            NotebookLmError::SessionExpired(s)
        } else if str_contains(l, "400") || str_contains(l, "csrf") || str_contains(l, "forbidden") {
            NotebookLmError::CsrfExpired(s)
        } else if str_contains(l, "429") || str_contains(l, "rate") || str_contains(l, "too many") {
            NotebookLmError::RateLimited(s)
        } else if str_contains(l, "not found") || str_contains(l, "no such file") || str_contains(l, "file_not_found") || str_contains(l, "artifact_not_found") {
            if str_contains(l, "artifact") {
                NotebookLmError::ArtifactNotFound(s)
            } else {
                NotebookLmError::FileNotFound(s)
            }
        } else if str_contains(l, "upload") || str_contains(l, "upload_url") || str_contains(l, "resumable") {
            NotebookLmError::UploadFailed(s)
        } else if str_contains(l, "download") || str_contains(l, "stream") || str_contains(l, "write failed") {
            NotebookLmError::DownloadFailed(s)
        } else if str_contains(l, "generation failed") || str_contains(l, "artifact failed") || str_contains(l, "generation_error") {
            NotebookLmError::GenerationFailed(s)
        } else if str_contains(l, "not ready") || str_contains(l, "still processing") || str_contains(l, "artifact_not_ready") {
            NotebookLmError::ArtifactNotReady(s)
        } else if str_contains(l, "validation") || str_contains(l, "not a file") || str_contains(l, "is a directory") {
            NotebookLmError::ValidationError(s)
        } else if str_contains(l, "parse") || str_contains(l, "json") {
            NotebookLmError::ParseError(s)
        } else if str_contains(l, "network") || str_contains(l, "connection") || str_contains(l, "timeout") {
            NotebookLmError::NetworkError(s)
        } else if str_contains(l, "session") {
            NotebookLmError::SessionExpired(s)
        } else if str_contains(l, "circuit") || str_contains(l, "breaker") {
            NotebookLmError::CircuitOpen(s)
        } else {
            NotebookLmError::Unknown(s)
        }
    }

    /// Whether the CSRF token should be refreshed.
    pub fn requires_csrf_refresh(&self) -> (r: bool)
        ensures
            r == (self.kind() == ErrorKind::CsrfExpired),
    {
        match self {
            NotebookLmError::CsrfExpired(_) => true,
            _ => false,
        }
    }

    /// Whether the user must provide new credentials.
    pub fn requires_new_credentials(&self) -> (r: bool)
        ensures
            r == (self.kind() == ErrorKind::SessionExpired || self.kind() == ErrorKind::CircuitOpen),
    {
        match self {
            NotebookLmError::SessionExpired(_) | NotebookLmError::CircuitOpen(_) => true,
            _ => false,
        }
    }

    /// The printed form of the error.
    pub fn to_string(&self) -> (r: String)
        ensures
            r@ == self.display(),
    {
        match self {
            NotebookLmError::SessionExpired(m) => {
                let mut out = owned("SESIÓN EXPIRADA: ");
                push_str(&mut out, m.as_str());
                push_str(&mut out, ". El usuario debe actualizar las cookies.");
                out
            },
            NotebookLmError::CsrfExpired(m) => {
                let mut out = owned("CSRF EXPIRADO: ");
                push_str(&mut out, m.as_str());
                push_str(&mut out, ". Intentando refresh automático...");
                out
            },
            NotebookLmError::SourceNotReady(m) => {
                let mut out = owned("FUENTE NO LISTA: ");
                push_str(&mut out, m.as_str());
                push_str(&mut out, ". Faça polling antes de consultar.");
                out
            },
            NotebookLmError::RateLimited(m) => {
                let mut out = owned("RATE LIMITED: ");
                push_str(&mut out, m.as_str());
                push_str(&mut out, ". Reducir concurrencia.");
                out
            },
            NotebookLmError::ParseError(m) => {
                let mut out = owned("ERROR DE PARSEO: ");
                push_str(&mut out, m.as_str());
                out
            },
            NotebookLmError::NetworkError(m) => {
                let mut out = owned("ERROR DE RED: ");
                push_str(&mut out, m.as_str());
                out
            },
            NotebookLmError::Unknown(m) => {
                let mut out = owned("ERROR DESCONOCIDO: ");
                push_str(&mut out, m.as_str());
                out
            },
            NotebookLmError::FileNotFound(m) => {
                let mut out = owned("ARCHIVO NO ENCONTRADO: ");
                push_str(&mut out, m.as_str());
                out
            },
            NotebookLmError::UploadFailed(m) => {
                let mut out = owned("ERROR DE SUBIDA: ");
                push_str(&mut out, m.as_str());
                out
            },
            NotebookLmError::ValidationError(m) => {
                let mut out = owned("VALIDACIÓN FALLIDA: ");
                push_str(&mut out, m.as_str());
                out
            },
            NotebookLmError::ArtifactNotReady(m) => {
                let mut out = owned("ARTEFACTO NO LISTO: ");
                push_str(&mut out, m.as_str());
                push_str(&mut out, ". Esperar a que la generación complete.");
                out
            },
            NotebookLmError::ArtifactNotFound(m) => {
                let mut out = owned("ARTEFACTO NO ENCONTRADO: ");
                push_str(&mut out, m.as_str());
                out
            },
            NotebookLmError::DownloadFailed(m) => {
                let mut out = owned("ERROR DE DESCARGA: ");
                push_str(&mut out, m.as_str());
                out
            },
            NotebookLmError::GenerationFailed(m) => {
                let mut out = owned("GENERACIÓN FALLIDA: ");
                push_str(&mut out, m.as_str());
                out
            },
            NotebookLmError::CircuitOpen(m) => {
                let mut out = owned("CIRCUIT BREAKER ABIERTO: ");
                push_str(&mut out, m.as_str());
                push_str(&mut out, ". Ejecuta `notebooklm-mcp auth-browser` para re-autenticar.");
                out
            },
        }
    }
}

/// Text that names an HTTP 401, or says "unauthorized" in any case, always
/// classifies as an expired session; text whose first matching rule is the
/// CSRF one never asks for new credentials.
pub proof fn law_classify_session(l: Seq<char>)
    ensures
        (has(l, "401") || has(l, "unauthorized")) ==> classify(l) == ErrorKind::SessionExpired,
        !(has(l, "401") || has(l, "unauthorized")) && (has(l, "400") || has(l, "csrf") || has(
            l,
            "forbidden",
        )) ==> classify(l) == ErrorKind::CsrfExpired,
{
}

} // verus!
