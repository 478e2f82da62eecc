use libtardis::container::pack;
use libtardis::error::TardisError;
use libtardis::loader::{Action, Event, Loader, AT_EMPTY_PATH, MFD_CLOEXEC};

const LOADER: &[u8] = b"\x7fELF loader image";

fn image_of(guests: &[&[u8]]) -> Vec<u8> {
    let guests: Vec<Vec<u8>> = guests.iter().map(|g| g.to_vec()).collect();
    pack(LOADER, &guests).unwrap()
}

fn started_on(image: Vec<u8>) -> (Loader, Action) {
    let (loader, action) = Loader::start();
    assert_eq!(action, Action::ReadSelf);
    loader.step(Event::ImageRead(image))
}

#[test]
fn flags_have_the_kernel_values() {
    assert_eq!(MFD_CLOEXEC, 0x1);
    assert_eq!(AT_EMPTY_PATH, 0x1000);
}

#[test]
fn loader_starts_by_reading_itself() {
    let (loader, action) = Loader::start();
    assert_eq!(action, Action::ReadSelf);
    assert!(loader.pending().is_none());
    assert!(loader.failure().is_none());
}

#[test]
fn single_guest_runs_in_place() {
    let guest = b"0123456789";
    let (loader, action) = started_on(image_of(&[guest]));
    assert_eq!(action, Action::CreateMemfd { flags: 0x1 });
    assert!(loader.pending().is_none());

    let (loader, action) = loader.step(Event::MemfdReturned(5));
    assert_eq!(action, Action::Write { fd: 5, offset: 0 });
    assert_eq!(loader.pending(), Some(&guest[..]));

    let (loader, action) = loader.step(Event::WriteReturned(10));
    assert_eq!(action, Action::Exec { fd: 5, flags: 0x1000 });
    assert!(loader.pending().is_none());
    assert!(loader.failure().is_none());

    let (loader, action) = loader.step(Event::ExecReturned);
    assert_eq!(action, Action::Exit { status: 6 });
    assert!(matches!(loader.failure(), Some(TardisError::SyscallFailure)));
}

#[test]
fn short_writes_are_retried() {
    let guest = b"0123456789";
    let (loader, _) = started_on(image_of(&[guest]));
    let (loader, _) = loader.step(Event::MemfdReturned(3));
    let (loader, action) = loader.step(Event::WriteReturned(4));
    assert_eq!(action, Action::Write { fd: 3, offset: 4 });
    assert_eq!(loader.pending(), Some(&guest[4..]));
    let (loader, action) = loader.step(Event::WriteReturned(1));
    assert_eq!(action, Action::Write { fd: 3, offset: 5 });
    assert_eq!(loader.pending(), Some(&guest[5..]));
    let (_, action) = loader.step(Event::WriteReturned(5));
    assert_eq!(action, Action::Exec { fd: 3, flags: 0x1000 });
}

#[test]
fn failed_write_is_an_io_failure() {
    for ret in [-1i64, 0, -4, 11, i64::MAX, i64::MIN] {
        let (loader, _) = started_on(image_of(&[b"0123456789"]));
        let (loader, _) = loader.step(Event::MemfdReturned(3));
        let (loader, action) = loader.step(Event::WriteReturned(ret));
        assert_eq!(action, Action::Exit { status: 5 });
        assert!(matches!(loader.failure(), Some(TardisError::IoFailure)));
    }
    let (loader, _) = started_on(image_of(&[b"0123456789"]));
    let (loader, _) = loader.step(Event::MemfdReturned(3));
    let (loader, _) = loader.step(Event::WriteReturned(6));
    let (_, action) = loader.step(Event::WriteReturned(5));
    assert_eq!(action, Action::Exit { status: 5 });
}

#[test]
fn failed_memfd_is_a_syscall_failure() {
    for ret in [-1i64, -22, 0x8000_0000, i64::MIN] {
        let (loader, _) = started_on(image_of(&[b"guest"]));
        let (loader, action) = loader.step(Event::MemfdReturned(ret));
        assert_eq!(action, Action::Exit { status: 6 });
        assert!(matches!(loader.failure(), Some(TardisError::SyscallFailure)));
    }
    let (loader, _) = started_on(image_of(&[b"guest"]));
    let (_, action) = loader.step(Event::MemfdReturned(0));
    assert_eq!(action, Action::Write { fd: 0, offset: 0 });
    let (loader, _) = started_on(image_of(&[b"guest"]));
    let (_, action) = loader.step(Event::MemfdReturned(0x7fff_ffff));
    assert_eq!(action, Action::Write { fd: 0x7fff_ffff, offset: 0 });
}

#[test]
fn empty_guest_is_executed_without_a_write() {
    let (loader, action) = started_on(image_of(&[b""]));
    assert_eq!(action, Action::CreateMemfd { flags: 0x1 });
    let (loader, action) = loader.step(Event::MemfdReturned(7));
    assert_eq!(action, Action::Exec { fd: 7, flags: 0x1000 });
    assert!(loader.pending().is_none());
}

#[test]
fn several_guests_are_forked_in_order() {
    let guests: [&[u8]; 3] = [b"first", b"second guest", b"third"];
    for (i, guest) in guests.iter().enumerate() {
        let (mut loader, mut action) = started_on(image_of(&guests));
        assert_eq!(action, Action::Fork);
        for _ in 0..i {
            (loader, action) = loader.step(Event::ForkedParent);
            assert_eq!(action, Action::Fork);
        }
        let (loader, action) = loader.step(Event::ForkedChild);
        assert_eq!(action, Action::CreateMemfd { flags: 0x1 });
        let (loader, action) = loader.step(Event::MemfdReturned(4));
        assert_eq!(action, Action::Write { fd: 4, offset: 0 });
        assert_eq!(loader.pending(), Some(*guest));
    }
}

#[test]
fn parent_exits_after_the_last_fork() {
    let (loader, action) = started_on(image_of(&[b"a", b"b"]));
    assert_eq!(action, Action::Fork);
    let (loader, action) = loader.step(Event::ForkedParent);
    assert_eq!(action, Action::Fork);
    let (loader, action) = loader.step(Event::ForkedParent);
    assert_eq!(action, Action::Exit { status: 0 });
    assert!(loader.failure().is_none());
    let (_, action) = loader.step(Event::ForkedParent);
    assert_eq!(action, Action::Exit { status: 0 });
}

#[test]
fn failed_fork_is_a_syscall_failure() {
    let (loader, _) = started_on(image_of(&[b"a", b"b"]));
    let (loader, action) = loader.step(Event::ForkFailed);
    assert_eq!(action, Action::Exit { status: 6 });
    assert!(matches!(loader.failure(), Some(TardisError::SyscallFailure)));
}

#[test]
fn empty_manifest_exits_with_success() {
    let (loader, action) = started_on(image_of(&[]));
    assert_eq!(action, Action::Exit { status: 0 });
    assert!(loader.failure().is_none());
}

#[test]
fn unreadable_image_is_an_io_failure() {
    let (loader, _) = Loader::start();
    let (loader, action) = loader.step(Event::ImageUnreadable);
    assert_eq!(action, Action::Exit { status: 5 });
    assert!(matches!(loader.failure(), Some(TardisError::IoFailure)));
}

#[test]
fn malformed_image_is_rejected() {
    let (loader, action) = started_on(b"not a container at all, just some bytes".to_vec());
    assert_eq!(action, Action::Exit { status: 2 });
    assert!(matches!(loader.failure(), Some(TardisError::ContainerMalformed)));
    let (_, action) = started_on(Vec::new());
    assert_eq!(action, Action::Exit { status: 2 });
}

#[test]
fn tampered_guest_is_never_executed() {
    let mut image = image_of(&[b"a guest that will be tampered with"]);
    image[LOADER.len() + 40 + 5] ^= 0x01;
    let (mut loader, mut action) = started_on(image);
    assert_eq!(action, Action::Exit { status: 3 });
    assert!(matches!(loader.failure(), Some(TardisError::AuthFailure)));
    for event in [
        Event::MemfdReturned(3),
        Event::WriteReturned(10),
        Event::ForkedChild,
        Event::ExecReturned,
    ] {
        (loader, action) = loader.step(event);
        assert_eq!(action, Action::Exit { status: 3 });
        assert!(matches!(loader.failure(), Some(TardisError::AuthFailure)));
    }
}

#[test]
fn tampered_guest_fails_in_the_child_only() {
    let mut image = image_of(&[b"first guest", b"second guest"]);
    image[LOADER.len() + 40] ^= 0x80;
    let (loader, action) = started_on(image.clone());
    assert_eq!(action, Action::Fork);
    let (loader, action) = loader.step(Event::ForkedChild);
    assert_eq!(action, Action::Exit { status: 3 });
    assert!(matches!(loader.failure(), Some(TardisError::AuthFailure)));

    let (loader, _) = started_on(image);
    let (loader, _) = loader.step(Event::ForkedParent);
    let (_, action) = loader.step(Event::ForkedChild);
    assert_eq!(action, Action::CreateMemfd { flags: 0x1 });
}

#[test]
fn event_out_of_turn_fails_the_loader() {
    let (loader, _) = Loader::start();
    let (_, action) = loader.step(Event::WriteReturned(1));
    assert_eq!(action, Action::Exit { status: 6 });
    let (loader, _) = started_on(image_of(&[b"guest"]));
    let (_, action) = loader.step(Event::ForkedChild);
    assert_eq!(action, Action::Exit { status: 6 });
    let (loader, _) = started_on(image_of(&[b"guest"]));
    let (loader, _) = loader.step(Event::MemfdReturned(3));
    let (_, action) = loader.step(Event::MemfdReturned(3));
    assert_eq!(action, Action::Exit { status: 6 });
}
