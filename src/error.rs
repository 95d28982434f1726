//! Accelerometer errors, generic over an inner cause type (intended to be
//! an underlying bus error type, where one applies).

use vstd::prelude::*;

verus! {

/// Accelerometer errors, generic around another error type `E` representing
/// an (optional) cause of this error.
#[derive(Clone, Debug)]
pub struct Error<E> {
    /// Kind of error which occurred
    kind: ErrorKind,
    /// Cause of the error (if applicable)
    cause: Option<E>,
}

impl<E> Error<E> {
    /// The kind of this error.
    pub closed spec fn spec_kind(&self) -> ErrorKind {
        self.kind
    }

    /// The underlying cause of this error, if it has one.
    pub closed spec fn spec_cause(&self) -> Option<E> {
        self.cause
    }

    /// The error of the given kind with the given cause.
    pub closed spec fn spec_with_cause(kind: ErrorKind, cause: E) -> Self {
        Error { kind, cause: Some(cause) }
    }

    /// Create a new error
    pub fn new(kind: ErrorKind) -> (r: Self)
        ensures
            r.spec_kind() == kind,
            r.spec_cause() is None,
    {
        Error { kind, cause: None }
    }

    /// Create a new error with a cause
    pub fn new_with_cause(kind: ErrorKind, cause: E) -> (r: Self)
        ensures
            r.spec_kind() == kind,
            r.spec_cause() == Some(cause),
            r == Self::spec_with_cause(kind, cause),
    {
        Error { kind, cause: Some(cause) }
    }

    /// Get the kind of error which occurred
    pub fn kind(&self) -> (r: ErrorKind)
        ensures
            r == self.spec_kind(),
    {
        self.kind
    }

    /// Get the cause of the underlying error (if applicable)
    pub fn cause(&self) -> (r: Option<&E>)
        ensures
            match r {
                Some(c) => self.spec_cause() == Some(*c),
                None => self.spec_cause() is None,
            },
    {
        self.cause.as_ref()
    }

    /// Convert this error into its underlying cause.
    ///
    /// The error must have a cause.
    pub fn into_cause(self) -> (r: E)
        requires
            self.spec_cause() is Some,
        ensures
            Some(r) == self.spec_cause(),
    {
        self.cause.unwrap()
    }
}

/// Kinds of accelerometer errors
#[derive(Copy, Clone, Debug, PartialEq, Eq, Structural)]
pub enum ErrorKind {
    /// Error in the underlying communications bus (e.g. I2C, SPI)
    Bus,
    /// Device invalid or other hardware error
    Device,
    /// Device is in an invalid mode to complete the requested operation
    Mode,
    /// Invalid parameter
    Param,
}

/// The text that describes each kind of error.
pub open spec fn description_of(kind: ErrorKind) -> Seq<char> {
    match kind {
        ErrorKind::Device => "device error"@,
        ErrorKind::Bus => "bus error"@,
        ErrorKind::Mode => "invalid mode"@,
        ErrorKind::Param => "invalid parameter"@,
    }
}

impl ErrorKind {
    /// Create an `Err(Error)` out of this `ErrorKind`
    pub fn err<E>(self) -> (r: Result<(), Error<E>>)
        ensures
            r matches Err(e) && e.spec_kind() == self && e.spec_cause() is None,
    {
        Err(Error::new(self))
    }

    /// Get a string describing the error
    pub fn description(self) -> (r: &'static str)
        ensures
            r@ == description_of(self),
    {
        match self {
            ErrorKind::Device => "device error",
            ErrorKind::Bus => "bus error",
            ErrorKind::Mode => "invalid mode",
            ErrorKind::Param => "invalid parameter",
        }
    }
}

impl<E> From<E> for Error<E> {
    /// Create a new error from a cause, e.g. an I2C or SPI error: the kind
    /// is `Bus`.
    fn from(cause: E) -> (r: Error<E>) {
        Self::new_with_cause(ErrorKind::Bus, cause)
    }
}

impl<E> vstd::std_specs::convert::FromSpecImpl<E> for Error<E> {
    open spec fn obeys_from_spec() -> bool {
        true
    }

    open spec fn from_spec(cause: E) -> Error<E> {
        Error::spec_with_cause(ErrorKind::Bus, cause)
    }
}

} // verus!
