use vstd::prelude::*;

verus! {

/// The kinds of failure a request can end with.
#[derive(Clone, Copy, Debug, PartialEq, Eq, Structural)]
pub enum Code {
    InvalidArgument,
    NotFound,
    AlreadyExists,
    FailedPrecondition,
    ResourceExhausted,
    Aborted,
    Unimplemented,
    Internal,
}

/// A failed request: its kind and a message for the caller.
#[derive(Clone, Debug)]
pub struct Status {
    pub code: Code,
    pub message: String,
}

impl Status {
    pub fn new(code: Code, message: &str) -> (r: Status)
        ensures
            r.code == code,
            r.message@ == message@,
    {
        Status { code, message: message.to_string() }
    }

    pub fn invalid_argument(message: &str) -> (r: Status)
        ensures
            r.code == Code::InvalidArgument,
    {
        Status::new(Code::InvalidArgument, message)
    }

    pub fn not_found(message: &str) -> (r: Status)
        ensures
            r.code == Code::NotFound,
    {
        Status::new(Code::NotFound, message)
    }

    pub fn already_exists(message: &str) -> (r: Status)
        ensures
            r.code == Code::AlreadyExists,
    {
        Status::new(Code::AlreadyExists, message)
    }

    pub fn failed_precondition(message: &str) -> (r: Status)
        ensures
            r.code == Code::FailedPrecondition,
    {
        Status::new(Code::FailedPrecondition, message)
    }

    pub fn resource_exhausted(message: &str) -> (r: Status)
        ensures
            r.code == Code::ResourceExhausted,
    {
        Status::new(Code::ResourceExhausted, message)
    }

    pub fn aborted(message: &str) -> (r: Status)
        ensures
            r.code == Code::Aborted,
    {
        Status::new(Code::Aborted, message)
    }

    pub fn unimplemented(message: &str) -> (r: Status)
        ensures
            r.code == Code::Unimplemented,
    {
        Status::new(Code::Unimplemented, message)
    }

    pub fn internal(message: &str) -> (r: Status)
        ensures
            r.code == Code::Internal,
    {
        Status::new(Code::Internal, message)
    }
}

/// `r` is a failure of kind `c`.
pub open spec fn fails_with<T>(r: Result<T, Status>, c: Code) -> bool {
    r is Err && r->Err_0.code == c
}

} // verus!
