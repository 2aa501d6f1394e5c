use vstd::prelude::*;

verus! {

/// Failure kinds of the service, each mapped to one HTTP status by the server.
#[derive(Debug, Clone, Copy, PartialEq, Eq, Structural)]
pub enum AppErrorKind {
    InvalidInput,
    InvalidCredentials,
    NotAuthorized,
    UpstreamExchangeFailed,
    InternalError,
}

/// Numeric HTTP status of an error kind.
pub open spec fn status_of(k: AppErrorKind) -> u16 {
    match k {
        AppErrorKind::InvalidInput => 400,
        AppErrorKind::InvalidCredentials => 401,
        AppErrorKind::NotAuthorized => 401,
        AppErrorKind::UpstreamExchangeFailed => 502,
        AppErrorKind::InternalError => 500,
    }
}

impl AppErrorKind {
    pub fn status(&self) -> (r: u16)
        ensures
            r == status_of(*self),
    {
        match self {
            AppErrorKind::InvalidInput => 400,
            AppErrorKind::InvalidCredentials => 401,
            AppErrorKind::NotAuthorized => 401,
            AppErrorKind::UpstreamExchangeFailed => 502,
            AppErrorKind::InternalError => 500,
        }
    }
}

} // verus!
