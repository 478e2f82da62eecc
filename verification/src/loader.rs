//! The loader's decisions, as a state machine.
//!
//! The loader reads its own image, walks the manifest, and for every
//! resource decodes the guest, creates an anonymous memory file, writes the
//! guest into it and executes it. With more than one resource it forks
//! before each of them, and the child runs the guest.
//!
//! Reading, forking and the system calls are the caller's business. This
//! module decides what to do next: [`Loader::step`] takes what the last
//! action reported and answers with the next action. Any failure is
//! terminal and ends in an exit with a nonzero status.

use crate::aead::{chacha20_poly1305_opened, KEY_LEN, TAG_LEN};
use crate::codec::{decode, decoded};
use crate::container::{loaded, views, walk_manifest};
use crate::crypto::single_nonce;
use crate::error::{CodecError, TardisError};
use crate::serialization::{ResourceView, TardisResource};
use vstd::prelude::*;
use vstd::slice::slice_subrange;

verus! {

/// Flag of `memfd_create`: the descriptor is closed when the process executes.
pub const MFD_CLOEXEC: u32 = 0x1;

/// Flag of `execveat`: execute the file that the descriptor itself refers to.
pub const AT_EMPTY_PATH: u32 = 0x1000;

/// What the loader asks its caller to do.
#[derive(Debug, Clone, Copy, PartialEq, Eq, Structural)]
pub enum Action {
    /// Read `/proc/self/exe` in full.
    ReadSelf,
    /// Fork the process.
    Fork,
    /// Create an anonymous memory file with these flags.
    CreateMemfd { flags: u32 },
    /// Write the guest's bytes from `offset` on to the descriptor `fd`.
    Write { fd: i32, offset: usize },
    /// Execute the file behind `fd`, with an empty path and these flags,
    /// and with the process's own arguments and environment.
    Exec { fd: i32, flags: u32 },
    /// Leave the process with this status.
    Exit { status: i32 },
}

/// What the caller reports back.
#[derive(Debug)]
pub enum Event {
    /// The loader's own image, read in full.
    ImageRead(Vec<u8>),
    /// The loader's own image could not be read.
    ImageUnreadable,
    /// `fork` returned in the parent.
    ForkedParent,
    /// `fork` returned in the child.
    ForkedChild,
    /// `fork` failed.
    ForkFailed,
    /// `memfd_create` returned this value.
    MemfdReturned(i64),
    /// `write` returned this value.
    WriteReturned(i64),
    /// `execveat` returned, which it does only when it failed.
    ExecReturned,
}

enum Phase {
    ReadingSelf,
    Forking { resources: Vec<TardisResource>, next: usize },
    CreatingMemfd { guest: Vec<u8> },
    Writing { fd: i32, guest: Vec<u8>, written: usize },
    Executing,
    Finished,
    Failed(TardisError),
}

/// The loader between two actions.
pub struct Loader {
    phase: Phase,
}

/// The loader's state as contracts see it.
pub enum LoaderView {
    /// Waiting for the own image.
    ReadingSelf,
    /// The parent of a container with several guests, waiting for the fork
    /// that is to run `resources[next]`.
    Forking { resources: Seq<ResourceView>, next: nat },
    /// Holding a decoded guest, waiting for its memory file.
    CreatingMemfd { guest: Seq<u8> },
    /// Waiting for a write; the first `written` bytes of `guest` are in the
    /// memory file behind `fd`.
    Writing { fd: i32, guest: Seq<u8>, written: nat },
    /// `execveat` was asked for. On success nothing follows.
    Executing,
    /// The parent has forked for every guest, or there was none.
    Finished,
    /// The loader failed.
    Failed(TardisError),
}

impl LoaderView {
    /// What holds of every state that the loader reaches.
    pub open spec fn wf(self) -> bool {
        match self {
            LoaderView::Forking { resources, next } => next < resources.len(),
            LoaderView::Writing { fd, guest, written } => fd >= 0 && written < guest.len(),
            _ => true,
        }
    }
}

/// Failing with `e`: the loader stops and the process exits with the
/// error's status.
pub open spec fn fail(e: TardisError) -> (LoaderView, Action) {
    (LoaderView::Failed(e), Action::Exit { status: e.spec_exit_code() })
}

/// Starting on a resource: it is decoded, and the guest waits for its
/// memory file. A resource that does not decode fails the loader.
pub open spec fn run(resource: ResourceView) -> (LoaderView, Action) {
    match decoded(resource.key, resource.data) {
        Err(e) => fail(TardisError::of_codec(e)),
        Ok(guest) => (
            LoaderView::CreatingMemfd { guest },
            Action::CreateMemfd { flags: MFD_CLOEXEC },
        ),
    }
}

/// Going on after the first `written` bytes of `guest` are in the memory
/// file: execute once all are written, else write the rest.
pub open spec fn proceed(fd: i32, guest: Seq<u8>, written: nat) -> (LoaderView, Action) {
    if written >= guest.len() {
        (LoaderView::Executing, Action::Exec { fd, flags: AT_EMPTY_PATH })
    } else {
        (LoaderView::Writing { fd, guest, written }, Action::Write { fd, offset: written as usize })
    }
}

/// The loader's transition function: the state and the action that follow
/// from `state` on `event`.
///
/// An event that cannot follow the last action fails the loader like a
/// failed system call.
pub open spec fn transition(state: LoaderView, event: Event) -> (LoaderView, Action) {
    match state {
        LoaderView::ReadingSelf => match event {
            Event::ImageRead(image) => match loaded(image@) {
                None => fail(TardisError::ContainerMalformed),
                Some((_, resources)) => if resources.len() == 0 {
                    (LoaderView::Finished, Action::Exit { status: 0 })
                } else if resources.len() == 1 {
                    run(resources[0])
                } else {
                    (LoaderView::Forking { resources, next: 0 }, Action::Fork)
                },
            },
            Event::ImageUnreadable => fail(TardisError::IoFailure),
            _ => fail(TardisError::SyscallFailure),
        },
        LoaderView::Forking { resources, next } => match event {
            Event::ForkedChild => if next < resources.len() {
                run(resources[next as int])
            } else {
                fail(TardisError::ContainerMalformed)
            },
            Event::ForkedParent => if next + 1 < resources.len() {
                (LoaderView::Forking { resources, next: next + 1 }, Action::Fork)
            } else {
                (LoaderView::Finished, Action::Exit { status: 0 })
            },
            _ => fail(TardisError::SyscallFailure),
        },
        LoaderView::CreatingMemfd { guest } => match event {
            Event::MemfdReturned(ret) => if 0 <= ret <= i32::MAX {
                proceed(ret as i32, guest, 0)
            } else {
                fail(TardisError::SyscallFailure)
            },
            _ => fail(TardisError::SyscallFailure),
        },
        LoaderView::Writing { fd, guest, written } => match event {
            Event::WriteReturned(ret) => if 0 < ret && written + ret <= guest.len() {
                proceed(fd, guest, (written + ret) as nat)
            } else {
                fail(TardisError::IoFailure)
            },
            _ => fail(TardisError::SyscallFailure),
        },
        LoaderView::Executing => fail(TardisError::SyscallFailure),
        LoaderView::Finished => (LoaderView::Finished, Action::Exit { status: 0 }),
        LoaderView::Failed(e) => fail(e),
    }
}

/// The loader only reaches well-formed states.
pub proof fn lemma_transition_keeps_wf(state: LoaderView, event: Event)
    requires
        state.wf(),
    ensures
        transition(state, event).0.wf(),
{
}

/// Failure is terminal: a failed loader stays failed with the same error,
/// whatever is reported to it, and asks again for the same nonzero exit.
pub proof fn lemma_failure_is_terminal(e: TardisError, event: Event)
    ensures
        transition(LoaderView::Failed(e), event) == fail(e),
        fail(e).1 == (Action::Exit { status: e.spec_exit_code() }),
        e.spec_exit_code() != 0,
{
}

/// The exit status tells success from failure: the loader asks for an exit
/// with status 0 exactly when it has finished, and with a nonzero status
/// exactly when it has failed. It asks for an exit in no other state.
pub proof fn lemma_exit_status(state: LoaderView, event: Event)
    ensures
        ({
            let (next, action) = transition(state, event);
            &&& action is Exit <==> (next is Finished || next is Failed)
            &&& next is Finished ==> action == (Action::Exit { status: 0 })
            &&& next matches LoaderView::Failed(e) ==> action == (Action::Exit {
                status: e.spec_exit_code(),
            }) && e.spec_exit_code() != 0
        }),
{
}

/// Only an authenticated guest is installed: the loader takes up a guest
/// only as the result of decoding a resource of the manifest, namely the
/// only one of a single-guest container, or in a child the one that the
/// parent forked for.
pub proof fn lemma_guest_is_decoded(state: LoaderView, event: Event)
    requires
        !(state is CreatingMemfd),
        transition(state, event).0 is CreatingMemfd,
    ensures
        ({
            let guest = transition(state, event).0->CreatingMemfd_guest;
            ||| {
                &&& state is ReadingSelf
                &&& event matches Event::ImageRead(image)
                &&& loaded(image@) matches Some((_, resources))
                &&& resources.len() == 1
                &&& decoded(resources[0].key, resources[0].data) == Ok::<Seq<u8>, CodecError>(
                    guest,
                )
            }
            ||| {
                &&& event is ForkedChild
                &&& state matches LoaderView::Forking { resources, next }
                &&& next < resources.len()
                &&& decoded(resources[next as int].key, resources[next as int].data) == Ok::<
                    Seq<u8>,
                    CodecError,
                >(guest)
            }
        }),
{
}

/// A resource that fails authentication is never run: where its data is
/// shorter than the tag, or the cipher rejects it under its key, the loader
/// fails with `AuthFailure` and asks for the exit with status 3, and for no
/// memory file.
pub proof fn lemma_rejected_resource_is_not_run(resource: ResourceView)
    ensures
        resource.key.len() == KEY_LEN && (resource.data.len() < TAG_LEN
            || chacha20_poly1305_opened(resource.key, single_nonce(), resource.data) is None)
            ==> run(resource) == (
            LoaderView::Failed(TardisError::AuthFailure),
            Action::Exit { status: 3 },
        ),
{
}

/// The guest is executed only once it is written in full: the loader asks
/// for `execveat` only right after the write that completed the guest, or
/// right after the memory file of an empty guest was created; and it names
/// the descriptor of that memory file and the flag for an empty path.
pub proof fn lemma_exec_after_full_write(state: LoaderView, event: Event)
    requires
        transition(state, event).1 is Exec,
    ensures
        ({
            let (next, action) = transition(state, event);
            &&& next is Executing
            &&& action->Exec_flags == AT_EMPTY_PATH
            &&& {
                ||| {
                    &&& state matches LoaderView::Writing { fd, guest, written }
                    &&& event matches Event::WriteReturned(ret)
                    &&& ret > 0
                    &&& written + ret == guest.len()
                    &&& action->Exec_fd == fd
                }
                ||| {
                    &&& state matches LoaderView::CreatingMemfd { guest }
                    &&& event matches Event::MemfdReturned(ret)
                    &&& guest.len() == 0
                    &&& action->Exec_fd == ret
                }
            }
        }),
{
}

/// Short writes are retried and every retry makes progress: while the
/// loader goes on writing, it keeps the descriptor and the guest, has
/// strictly more bytes written than before, and asks for the write to go on
/// at the first byte that is not yet written.
pub proof fn lemma_write_progress(fd: i32, guest: Seq<u8>, written: nat, event: Event)
    requires
        transition(LoaderView::Writing { fd, guest, written }, event).0 is Writing,
    ensures
        ({
            let (next, action) = transition(LoaderView::Writing { fd, guest, written }, event);
            &&& next->Writing_fd == fd
            &&& next->Writing_guest == guest
            &&& written < next->Writing_written < guest.len()
            &&& action == (Action::Write { fd, offset: next->Writing_written as usize })
        }),
{
}

/// The parent forks once for every resource, in the order of the manifest:
/// after the fork for `resources[next]` it asks for the fork for the one
/// that follows, and after the fork for the last one it exits with status 0.
pub proof fn lemma_parent_forks_in_order(resources: Seq<ResourceView>, next: nat)
    requires
        next < resources.len(),
    ensures
        transition(LoaderView::Forking { resources, next }, Event::ForkedParent) == if next + 1
            < resources.len() {
            (LoaderView::Forking { resources, next: next + 1 }, Action::Fork)
        } else {
            (LoaderView::Finished, Action::Exit { status: 0 })
        },
{
}

impl View for Loader {
    type V = LoaderView;

    closed spec fn view(&self) -> LoaderView {
        match self.phase {
            Phase::ReadingSelf => LoaderView::ReadingSelf,
            Phase::Forking { resources, next } => LoaderView::Forking {
                resources: views(resources@),
                next: next as nat,
            },
            Phase::CreatingMemfd { guest } => LoaderView::CreatingMemfd { guest: guest@ },
            Phase::Writing { fd, guest, written } => LoaderView::Writing {
                fd,
                guest: guest@,
                written: written as nat,
            },
            Phase::Executing => LoaderView::Executing,
            Phase::Finished => LoaderView::Finished,
            Phase::Failed(e) => LoaderView::Failed(e),
        }
    }
}

impl Loader {
    /// A loader that has done nothing yet, and its first action: to read
    /// the own image.
    pub fn start() -> (r: (Loader, Action))
        ensures
            r.0@ == LoaderView::ReadingSelf,
            r.1 == Action::ReadSelf,
    {
        (Loader { phase: Phase::ReadingSelf }, Action::ReadSelf)
    }

    fn fail(e: TardisError) -> (r: (Loader, Action))
        ensures
            (r.0@, r.1) == fail(e),
    {
        let status = e.exit_code();
        (Loader { phase: Phase::Failed(e) }, Action::Exit { status })
    }

    fn run(resource: &TardisResource) -> (r: (Loader, Action))
        ensures
            (r.0@, r.1) == run(resource@),
    {
        match decode(resource.key.as_slice(), resource.data.as_slice()) {
            Ok(guest) => (
                Loader { phase: Phase::CreatingMemfd { guest } },
                Action::CreateMemfd { flags: MFD_CLOEXEC },
            ),
            Err(e) => Loader::fail(TardisError::from_codec(e)),
        }
    }

    fn proceed(fd: i32, guest: Vec<u8>, written: usize) -> (r: (Loader, Action))
        ensures
            (r.0@, r.1) == proceed(fd, guest@, written as nat),
    {
        if written >= guest.len() {
            (Loader { phase: Phase::Executing }, Action::Exec { fd, flags: AT_EMPTY_PATH })
        } else {
            (Loader { phase: Phase::Writing { fd, guest, written } }, Action::Write { fd, offset: written })
        }
    }

    /// Takes what the last action reported and decides what to do next.
    pub fn step(self, event: Event) -> (r: (Loader, Action))
        ensures
            (r.0@, r.1) == transition(self@, event),
    {
        match self.phase {
            Phase::ReadingSelf => match event {
                Event::ImageRead(image) => match walk_manifest(image.as_slice()) {
                    Err(e) => Loader::fail(e),
                    Ok((_, resources)) => {
                        if resources.len() == 0 {
                            (Loader { phase: Phase::Finished }, Action::Exit { status: 0 })
                        } else if resources.len() == 1 {
                            Loader::run(&resources[0])
                        } else {
                            (Loader { phase: Phase::Forking { resources, next: 0 } }, Action::Fork)
                        }
                    },
                },
                Event::ImageUnreadable => Loader::fail(TardisError::IoFailure),
                _ => Loader::fail(TardisError::SyscallFailure),
            },
            Phase::Forking { resources, next } => match event {
                Event::ForkedChild => if next < resources.len() {
                    Loader::run(&resources[next])
                } else {
                    Loader::fail(TardisError::ContainerMalformed)
                },
                Event::ForkedParent => if next < resources.len() && next + 1 < resources.len() {
                    (Loader { phase: Phase::Forking { resources, next: next + 1 } }, Action::Fork)
                } else {
                    (Loader { phase: Phase::Finished }, Action::Exit { status: 0 })
                },
                _ => Loader::fail(TardisError::SyscallFailure),
            },
            Phase::CreatingMemfd { guest } => match event {
                Event::MemfdReturned(ret) => if 0 <= ret && ret <= 0x7fff_ffff {
                    Loader::proceed(ret as i32, guest, 0)
                } else {
                    Loader::fail(TardisError::SyscallFailure)
                },
                _ => Loader::fail(TardisError::SyscallFailure),
            },
            Phase::Writing { fd, guest, written } => match event {
                Event::WriteReturned(ret) => {
                    let total: usize = guest.len();
                    if 0 < ret && written <= total && ret as u64 <= (total - written) as u64 {
                        Loader::proceed(fd, guest, written + ret as usize)
                    } else {
                        Loader::fail(TardisError::IoFailure)
                    }
                },
                _ => Loader::fail(TardisError::SyscallFailure),
            },
            Phase::Executing => Loader::fail(TardisError::SyscallFailure),
            Phase::Finished => (Loader { phase: Phase::Finished }, Action::Exit { status: 0 }),
            Phase::Failed(e) => Loader::fail(e),
        }
    }

    /// The bytes that the pending write is to hand over: the part of the
    /// guest that is not yet in the memory file. `None` while no write is
    /// pending.
    pub fn pending(&self) -> (bytes: Option<&[u8]>)
        ensures
            match self@ {
                LoaderView::Writing { guest, written, .. } => match bytes {
                    Some(b) => written <= guest.len() && b@ == guest.subrange(
                        written as int,
                        guest.len() as int,
                    ),
                    None => written > guest.len(),
                },
                _ => bytes is None,
            },
    {
        match &self.phase {
            Phase::Writing { guest, written, .. } => {
                if *written <= guest.len() {
                    Some(slice_subrange(guest.as_slice(), *written, guest.len()))
                } else {
                    None
                }
            },
            _ => None,
        }
    }

    /// The error that stopped the loader, if it has failed.
    pub fn failure(&self) -> (e: Option<&TardisError>)
        ensures
            match self@ {
                LoaderView::Failed(err) => e == Some(&err),
                _ => e is None,
            },
    {
        match &self.phase {
            Phase::Failed(e) => Some(e),
            _ => None,
        }
    }
}

} // verus!
