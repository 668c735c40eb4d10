//! What follows the selection: what is loaded into the kernel, what the
//! clients are told of it, and what the supervisor does with the outcome.

use crate::coordinator::SelectEntryError;
use crate::message::{text_view, EntryModel, LinuxBootEntry, Response, ServerError};
use vstd::prelude::*;

verus! {

/// Why a boot attempt came to nothing.
#[derive(Debug, PartialEq, Eq)]
pub enum PrepareBootError {
    /// The selection ended without an entry.
    SelectEntry(SelectEntryError),
    /// The kernel could not be loaded.
    Io(String),
}

/// What is loaded into the kernel's kexec slot.
#[derive(Debug, PartialEq, Eq)]
pub struct KexecRequest {
    pub linux: String,
    pub initrd: Option<String>,
    pub cmdline: String,
}

/// The command line with which an entry is booted: its own, or an empty one
/// if it has none.
pub open spec fn cmdline_of(entry: EntryModel) -> Seq<char> {
    match entry.cmdline {
        Some(text) => text,
        None => Seq::empty(),
    }
}

/// Why the kernel could not be loaded.
#[derive(Debug, PartialEq, Eq)]
pub struct LoadFailure {
    /// Whether the kernel denied the permission, as it does to an image
    /// that it cannot validate.
    pub permission_denied: bool,
    /// The message of the failure.
    pub message: String,
}

/// What the supervisor does at the end of a boot attempt.
#[derive(Clone, Copy, Debug, PartialEq, Eq)]
pub enum SupervisorAction {
    /// Restart the machine.
    Reboot,
    /// Power the machine off.
    Poweroff,
    /// Execute the kernel that was loaded.
    Kexec,
    /// Hand the machine over to a shell.
    Shell,
}

/// What the supervisor does with the outcome of a boot attempt: it executes
/// the kernel if one was loaded, restarts or powers off if the user asked
/// for it, and falls back to a shell on every failure.
pub open spec fn action_for(result: Result<(), PrepareBootError>) -> SupervisorAction {
    match result {
        Ok(_) => SupervisorAction::Kexec,
        Err(PrepareBootError::SelectEntry(SelectEntryError::Reboot)) => SupervisorAction::Reboot,
        Err(PrepareBootError::SelectEntry(SelectEntryError::Poweroff)) => SupervisorAction::Poweroff,
        Err(_) => SupervisorAction::Shell,
    }
}

/// What is loaded for the entry that the selection ended with; the error of
/// a selection that ended without one is handed on.
pub fn after_selection(selection: Result<LinuxBootEntry, SelectEntryError>) -> (r: Result<
    KexecRequest,
    PrepareBootError,
>)
    ensures
        match selection {
            Ok(entry) => r matches Ok(request) && request.linux@ == entry@.linux && text_view(
                request.initrd,
            ) == entry@.initrd && request.cmdline@ == cmdline_of(entry@),
            Err(e) => r == Err::<KexecRequest, PrepareBootError>(PrepareBootError::SelectEntry(e)),
        },
{
    match selection {
        Err(e) => Err(PrepareBootError::SelectEntry(e)),
        Ok(entry) => {
            let cmdline = match entry.cmdline {
                Some(text) => text,
                None => String::new(),
            };
            Ok(KexecRequest { linux: entry.linux, initrd: entry.initrd, cmdline })
        },
    }
}

/// What the clients are told once the kernel was asked to load, and how the
/// boot attempt ends: done if it loaded; else the kind of the failure,
/// `ValidationFailed` where the kernel denied the permission.
pub fn after_load(loaded: Result<(), LoadFailure>) -> (r: (Response, Result<(), PrepareBootError>))
    ensures
        match loaded {
            Ok(_) => r.0 == Response::ServerDone && r.1 is Ok,
            Err(failure) => r.0 == Response::ServerError(
                if failure.permission_denied {
                    ServerError::ValidationFailed
                } else {
                    ServerError::Unknown
                },
            ) && r.1 == Err::<(), PrepareBootError>(PrepareBootError::Io(failure.message)),
        },
{
    match loaded {
        Ok(_) => (Response::ServerDone, Ok(())),
        Err(failure) => {
            let kind = if failure.permission_denied {
                ServerError::ValidationFailed
            } else {
                ServerError::Unknown
            };
            (Response::ServerError(kind), Err(PrepareBootError::Io(failure.message)))
        },
    }
}

/// Executable form of [`action_for`].
pub fn next_action(result: &Result<(), PrepareBootError>) -> (r: SupervisorAction)
    ensures
        r == action_for(*result),
{
    match result {
        Ok(_) => SupervisorAction::Kexec,
        Err(PrepareBootError::SelectEntry(SelectEntryError::Reboot)) => SupervisorAction::Reboot,
        Err(PrepareBootError::SelectEntry(SelectEntryError::Poweroff)) => SupervisorAction::Poweroff,
        Err(_) => SupervisorAction::Shell,
    }
}

} // verus!
