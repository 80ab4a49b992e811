use cortex::handle::{removal_of, try_clear_mem, Removal};
use cortex::semaphore::get_name;
use cortex::{Semaphore, SemaphorePermission, SemaphoreSettings};

#[test]
fn name_is_prefix_and_decimal_key() {
    assert_eq!(get_name(42), "cortex_semaphore_42");
    assert_eq!(get_name(0), "cortex_semaphore_0");
    assert_eq!(get_name(-7), "cortex_semaphore_-7");
    assert_eq!(get_name(i32::MAX), "cortex_semaphore_2147483647");
}

#[test]
fn name_holds_no_nul() {
    for key in [0, 1, -1, 1804289383, i32::MIN, i32::MAX] {
        assert!(!get_name(key).contains('\0'));
    }
}

#[test]
fn names_of_different_keys_differ() {
    assert_ne!(get_name(1), get_name(11));
    assert_ne!(get_name(1), get_name(-1));
    assert_ne!(get_name(10), get_name(100));
}

#[test]
fn permission_modes() {
    assert_eq!(SemaphorePermission::OwnerOnly.as_mode(), 0o700);
    assert_eq!(SemaphorePermission::OwnerAndGroup.as_mode(), 0o770);
    assert_eq!(SemaphorePermission::ReadWriteForOthers.as_mode(), 0o776);
    assert_eq!(SemaphorePermission::ReadOnlyForOthers.as_mode(), 0o774);
    assert_eq!(SemaphorePermission::FullAccessForEveryone.as_mode(), 0o777);
    assert_eq!(SemaphorePermission::Custom(0o640).as_mode(), 0o640);
    assert_eq!(SemaphorePermission::Custom(0).as_mode(), 0);
}

#[test]
fn permission_modes_are_made_of_the_kernel_bits() {
    assert_eq!(SemaphorePermission::OwnerOnly.as_mode(), libc::S_IRWXU);
    assert_eq!(SemaphorePermission::OwnerAndGroup.as_mode(), libc::S_IRWXU | libc::S_IRWXG);
    assert_eq!(
        SemaphorePermission::ReadWriteForOthers.as_mode(),
        libc::S_IRWXU | libc::S_IRWXG | libc::S_IROTH | libc::S_IWOTH
    );
    assert_eq!(
        SemaphorePermission::ReadOnlyForOthers.as_mode(),
        libc::S_IRWXU | libc::S_IRWXG | libc::S_IROTH
    );
    assert_eq!(
        SemaphorePermission::FullAccessForEveryone.as_mode(),
        libc::S_IRWXU | libc::S_IRWXG | libc::S_IROTH | libc::S_IWOTH | libc::S_IXOTH
    );
}

#[test]
fn creation_opens_exclusively_with_count_one() {
    let call = Semaphore::open_exclusive(42, None);
    assert_eq!(call.name, "cortex_semaphore_42");
    assert_eq!(call.oflag, libc::O_EXCL | libc::O_CREAT);
    assert_eq!(call.oflag, 192);
    assert_eq!(call.mode, 0o700);
    assert_eq!(call.value, 1);
}

#[test]
fn creation_takes_the_mode_of_the_settings() {
    let settings = SemaphoreSettings { mode: SemaphorePermission::ReadOnlyForOthers };
    let call = Semaphore::open_exclusive(9, Some(&settings));
    assert_eq!(call.name, "cortex_semaphore_9");
    assert_eq!(call.mode, 0o774);
    assert_eq!(call.value, 1);
    let settings = SemaphoreSettings { mode: SemaphorePermission::Custom(0o604) };
    assert_eq!(Semaphore::open_exclusive(9, Some(&settings)).mode, 0o604);
}

#[test]
fn attachment_opens_without_flags_mode_or_count() {
    let call = Semaphore::open_existing(-3);
    assert_eq!(call.name, "cortex_semaphore_-3");
    assert_eq!(call.oflag, 0);
    assert_eq!(call.mode, 0);
    assert_eq!(call.value, 0);
}

#[test]
fn created_semaphore_owns_its_name() {
    let lock = Semaphore::new(42, 0x7f00_1000, 0).unwrap();
    assert!(lock.is_owner());
    assert_eq!(lock.semaphore(), 0x7f00_1000);
    assert_eq!(lock.name(), "cortex_semaphore_42");
}

#[test]
fn attached_semaphore_does_not_own_its_name() {
    let lock = Semaphore::attach(42, 0x7f00_2000, 0).unwrap();
    assert!(!lock.is_owner());
    assert_eq!(lock.semaphore(), 0x7f00_2000);
    assert_eq!(lock.name(), "cortex_semaphore_42");
}

#[test]
fn failed_open_is_a_clean_error() {
    let e = Semaphore::new(42, libc::SEM_FAILED as usize, 17).unwrap_err();
    assert!(e.is_clean());
    assert_eq!(e.inner().message(), "Error during sem_open");
    assert_eq!(e.inner().os_error(), 17);
    let e = Semaphore::attach(42, 0, 2).unwrap_err();
    assert!(e.is_clean());
    assert_eq!(e.inner().message(), "Error during sem_open");
    assert_eq!(e.inner().os_error(), 2);
}

#[test]
fn wait_and_post_fail_on_minus_one_only() {
    let lock = Semaphore::new(1, 64, 0).unwrap();
    assert!(lock.read_lock(0, 11).is_ok());
    assert!(lock.write_lock(0, 11).is_ok());
    assert!(lock.release(0, 11).is_ok());
    assert!(lock.read_lock(1, 11).is_ok());
    let e = lock.read_lock(-1, 4).unwrap_err();
    assert!(e.is_clean());
    assert_eq!(e.to_string(), "Error during sem_wait. OS Error: 4");
    let e = lock.write_lock(-1, 22).unwrap_err();
    assert!(e.is_clean());
    assert_eq!(e.to_string(), "Error during sem_wait. OS Error: 22");
    let e = lock.release(-1, 75).unwrap_err();
    assert!(e.is_clean());
    assert_eq!(e.to_string(), "Error during sem_release. OS Error: 75");
}

#[test]
fn owner_closes_and_unlinks() {
    let lock = Semaphore::new(5, 4096, 0).unwrap();
    let disposal = lock.dispose();
    assert_eq!(disposal.close, 4096);
    assert_eq!(disposal.unlink.as_deref(), Some("cortex_semaphore_5"));
}

#[test]
fn attached_instance_closes_only() {
    let lock = Semaphore::attach(5, 8192, 0).unwrap();
    let disposal = lock.dispose();
    assert_eq!(disposal.close, 8192);
    assert_eq!(disposal.unlink, None);
    let again = lock.dispose();
    assert_eq!(again.close, 8192);
    assert_eq!(again.unlink, None);
}

#[test]
fn forced_instance_unlinks() {
    let mut lock = Semaphore::attach(5, 8192, 0).unwrap();
    lock.force_ownership();
    assert!(lock.is_owner());
    assert_eq!(lock.semaphore(), 8192);
    assert_eq!(lock.name(), "cortex_semaphore_5");
    assert_eq!(lock.dispose().unlink.as_deref(), Some("cortex_semaphore_5"));
}

#[test]
fn removal_marks_the_segment() {
    assert_eq!(removal_of(7), Removal { id: 7, command: libc::IPC_RMID });
    assert_eq!(removal_of(7).command, 0);
}

#[test]
fn failed_removal_is_a_dirty_error() {
    assert!(try_clear_mem(7, 0, 22).is_ok());
    let e = try_clear_mem(7, -1, 22).unwrap_err();
    assert!(e.is_dirty());
    assert_eq!(e.inner().message(), "Error cleaning up shared memory with id: 7");
    assert_eq!(e.inner().os_error(), 22);
}
