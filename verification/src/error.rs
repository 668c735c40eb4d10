//! The error that a command of the GRUB environment ends with.

use vstd::prelude::*;

verus! {

/// Why a command did not succeed.
///
/// `False` and `NotImplemented` are no faults: the first is the answer of a
/// test that does not hold, the second marks a command that is passed over.
#[derive(Debug, PartialEq, Eq)]
pub enum GrubEnvironmentError {
    /// The environment block could not be built.
    EnvironmentBlock,
    /// The tested condition does not hold.
    False,
    /// The arguments are malformed.
    InvalidArgs,
    /// The file system reported a failure.
    Io(String),
    /// A variable that the command needs is not set.
    MissingEnvironmentVariable,
    /// A system call reported a failure.
    Nix(String),
    /// The command is not known.
    NotImplemented,
    /// An operand is no integer.
    ParseInt,
}

/// The error numbers of the operating system, as the crate `nix` names
/// them.
#[verifier::external_type_specification]
#[verifier::external_body]
pub struct ExErrno(nix::errno::Errno);

/// The error of an input or output operation of the standard library.
#[verifier::external_type_specification]
#[verifier::external_body]
pub struct ExIoError(std::io::Error);

/// The text of an error number.
///
/// Trusted: calls `to_string` on `nix::errno::Errno`, which writes the name
/// of the error number and its description. Nothing is claimed of the text.
#[verifier::external_body]
fn errno_message(value: nix::errno::Errno) -> (message: String) {
    value.to_string()
}

/// The text of an input or output error.
///
/// Trusted: calls `to_string` on `std::io::Error`. The text depends on the
/// system, so nothing is claimed of it.
#[verifier::external_body]
fn io_message(value: &std::io::Error) -> (message: String) {
    value.to_string()
}

impl From<nix::errno::Errno> for GrubEnvironmentError {
    /// A failed system call: `Nix`, with the text of the error number.
    fn from(value: nix::errno::Errno) -> (r: Self)
        ensures
            r is Nix,
    {
        GrubEnvironmentError::Nix(errno_message(value))
    }
}

impl vstd::std_specs::convert::FromSpecImpl<nix::errno::Errno> for GrubEnvironmentError {
    open spec fn obeys_from_spec() -> bool {
        false
    }

    open spec fn from_spec(v: nix::errno::Errno) -> Self {
        GrubEnvironmentError::Nix(arbitrary())
    }
}

impl From<std::io::Error> for GrubEnvironmentError {
    /// A failed input or output operation: `Io`, with the text of the
    /// error.
    fn from(value: std::io::Error) -> (r: Self)
        ensures
            r is Io,
    {
        GrubEnvironmentError::Io(io_message(&value))
    }
}

impl vstd::std_specs::convert::FromSpecImpl<std::io::Error> for GrubEnvironmentError {
    open spec fn obeys_from_spec() -> bool {
        false
    }

    open spec fn from_spec(v: std::io::Error) -> Self {
        GrubEnvironmentError::Io(arbitrary())
    }
}

/// The exit code that stands for the end of a command: 0 for success and
/// for a command that is not known, 1 for a test that does not hold, 2 for
/// every fault.
pub open spec fn exit_code_of(result: Result<(), GrubEnvironmentError>) -> u8 {
    match result {
        Ok(_) => 0,
        Err(GrubEnvironmentError::NotImplemented) => 0,
        Err(GrubEnvironmentError::False) => 1,
        Err(_) => 2,
    }
}

/// Executable form of [`exit_code_of`].
pub fn exit_code(result: &Result<(), GrubEnvironmentError>) -> (code: u8)
    ensures
        code == exit_code_of(*result),
        code <= 2,
{
    match result {
        Ok(_) => 0,
        Err(GrubEnvironmentError::NotImplemented) => 0,
        Err(GrubEnvironmentError::False) => 1,
        Err(_) => 2,
    }
}

} // verus!
