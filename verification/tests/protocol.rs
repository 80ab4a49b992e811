use cortex::access::{AccessProgress, AccessReply, AccessRequest};
use cortex::create::{Creation, KeyChoice, Progress, Reply, Request};
use cortex::{Cortex, CortexBuilder, CortexError, CortexResult, CortexSync};
use std::collections::HashMap;

const EEXIST: i32 = 17;
const ENOENT: i32 = 2;
const ENOMEM: i32 = 12;
const EACCES: i32 = 13;
const EINVAL: i32 = 22;
const BASE: usize = 0x7000_0000;

#[derive(Debug, PartialEq)]
struct FakeLock {
    key: i32,
    owner: bool,
    mode: u32,
}

impl CortexSync for FakeLock {
    type Settings = u32;

    fn new(cortex_key: i32, settings: Option<&u32>) -> CortexResult<Self> {
        Ok(FakeLock { key: cortex_key, owner: true, mode: settings.copied().unwrap_or(0o700) })
    }

    fn attach(cortex_key: i32) -> CortexResult<Self> {
        Ok(FakeLock { key: cortex_key, owner: false, mode: 0 })
    }

    fn read_lock(&self) -> CortexResult<()> {
        Ok(())
    }

    fn write_lock(&self) -> CortexResult<()> {
        Ok(())
    }

    fn release(&self) -> CortexResult<()> {
        Ok(())
    }

    fn force_ownership(&mut self) {
        self.owner = true;
    }

    fn is_owner(&self) -> bool {
        self.owner
    }
}

/// A kernel in memory: segments by key, their slots, the mappings handed out,
/// and the named locks.
struct Kernel<T> {
    ids: HashMap<i32, i32>,
    slots: HashMap<i32, Option<T>>,
    mappings: Vec<i32>,
    locks: HashMap<i32, u32>,
    draws: Vec<i32>,
    next_id: i32,
    refuse_creation: Option<i32>,
    refuse_mapping: bool,
    refuse_removal: bool,
    held: bool,
    log: Vec<String>,
}

impl<T: Copy> Kernel<T> {
    fn new() -> Self {
        Kernel {
            ids: HashMap::new(),
            slots: HashMap::new(),
            mappings: Vec::new(),
            locks: HashMap::new(),
            draws: Vec::new(),
            next_id: 100,
            refuse_creation: None,
            refuse_mapping: false,
            refuse_removal: false,
            held: false,
            log: Vec::new(),
        }
    }

    fn occupy(&mut self, key: i32) {
        let id = self.next_id;
        self.next_id += 1;
        self.ids.insert(key, id);
        self.slots.insert(id, None);
    }

    fn perform(&mut self, request: Request<T, FakeLock>) -> Reply<FakeLock> {
        match request {
            Request::DrawKey => {
                self.log.push(format!("draw"));
                Reply::Key { key: self.draws.remove(0) }
            }
            Request::Segment { key, size, flags } => {
                self.log.push(format!("shmget {} {} {:o}", key, size, flags));
                if flags & libc::IPC_CREAT != 0 {
                    if let Some(os_error) = self.refuse_creation {
                        return Reply::Segment { id: -1, os_error };
                    }
                    if self.ids.contains_key(&key) && flags & libc::IPC_EXCL != 0 {
                        return Reply::Segment { id: -1, os_error: EEXIST };
                    }
                    self.occupy(key);
                    Reply::Segment { id: self.ids[&key], os_error: 0 }
                } else {
                    match self.ids.get(&key) {
                        Some(id) => Reply::Segment { id: *id, os_error: 0 },
                        None => Reply::Segment { id: -1, os_error: ENOENT },
                    }
                }
            }
            Request::MapSegment { id } => {
                self.log.push(format!("shmat {}", id));
                if self.refuse_mapping {
                    return Reply::Mapped { addr: usize::MAX, os_error: ENOMEM };
                }
                self.mappings.push(id);
                Reply::Mapped { addr: BASE + self.mappings.len() - 1, os_error: 0 }
            }
            Request::RemoveSegment { id, command } => {
                self.log.push(format!("shmctl {} {}", id, command));
                if self.refuse_removal {
                    return Reply::Removed { status: -1, os_error: EINVAL };
                }
                self.remove(id);
                Reply::Removed { status: 0, os_error: 0 }
            }
            Request::Store { addr, data } => {
                self.log.push(format!("store"));
                let id = self.mappings[addr - BASE];
                self.slots.insert(id, Some(data));
                Reply::Stored
            }
            Request::CreateLock { key, settings } => {
                self.log.push(format!("create lock {}", key));
                if self.locks.contains_key(&key) {
                    let e = CortexError::new_clean("Error during sem_open", EEXIST);
                    return Reply::Lock { lock: Err(e) };
                }
                let mode = settings.copied().unwrap_or(0o700);
                self.locks.insert(key, mode);
                Reply::Lock { lock: Ok(FakeLock { key, owner: true, mode }) }
            }
            Request::AttachLock { key } => {
                self.log.push(format!("attach lock {}", key));
                match self.locks.get(&key) {
                    Some(mode) => {
                        Reply::Lock { lock: Ok(FakeLock { key, owner: false, mode: *mode }) }
                    }
                    None => {
                        let e = CortexError::new_clean("Error during sem_open", ENOENT);
                        Reply::Lock { lock: Err(e) }
                    }
                }
            }
            Request::OwnLock { mut lock } => {
                self.log.push(format!("own lock {}", lock.key));
                lock.force_ownership();
                Reply::Owned { lock }
            }
        }
    }

    fn remove(&mut self, id: i32) {
        self.ids.retain(|_, held| *held != id);
        self.slots.remove(&id);
    }

    fn drive(&mut self, first: Progress<T, FakeLock>) -> CortexResult<Cortex<T, FakeLock>> {
        let mut at = first;
        loop {
            match at {
                Progress::Pending { state, request } => {
                    let reply = self.perform(request);
                    at = state.step(reply);
                }
                Progress::Done { result } => return result,
            }
        }
    }

    fn create(&mut self, key: Option<i32>, data: T, force: bool) -> CortexResult<Cortex<T, FakeLock>> {
        self.drive(Cortex::new(key, data, force, None))
    }

    fn attach(&mut self, key: i32) -> CortexResult<Cortex<T, FakeLock>> {
        self.drive(Cortex::attach(key))
    }

    fn answer(&mut self, request: AccessRequest<T>) -> AccessReply<T> {
        match request {
            AccessRequest::ReadLock | AccessRequest::WriteLock => {
                assert!(!self.held);
                self.held = true;
                AccessReply::Locked { outcome: Ok(()) }
            }
            AccessRequest::Load { addr } => {
                assert!(self.held);
                let id = self.mappings[addr - BASE];
                AccessReply::Loaded { data: self.slots[&id].unwrap() }
            }
            AccessRequest::Store { addr, data } => {
                assert!(self.held);
                let id = self.mappings[addr - BASE];
                self.slots.insert(id, Some(data));
                AccessReply::Stored
            }
            AccessRequest::Release => {
                assert!(self.held);
                self.held = false;
                AccessReply::Released { outcome: Ok(()) }
            }
        }
    }

    fn finish(&mut self, first: AccessProgress<T>) -> AccessProgress<T> {
        let mut at = first;
        loop {
            match at {
                AccessProgress::Pending { state, request } => {
                    let reply = self.answer(request);
                    at = state.step(reply);
                }
                done => return done,
            }
        }
    }

    fn read(&mut self, handle: &Cortex<T, FakeLock>) -> CortexResult<T> {
        match self.finish(handle.read()) {
            AccessProgress::Read { result } => result,
            _ => panic!("a read ends as a read"),
        }
    }

    fn write(&mut self, handle: &Cortex<T, FakeLock>, data: T) -> CortexResult<()> {
        match self.finish(handle.write(data)) {
            AccessProgress::Written { result } => result,
            _ => panic!("a write ends as a write"),
        }
    }

    fn dispose(&mut self, handle: Cortex<T, FakeLock>) {
        if handle.lock().owner {
            self.locks.remove(&handle.key());
        }
        if let Some(removal) = handle.dispose() {
            assert_eq!(removal.command, libc::IPC_RMID);
            self.remove(removal.id);
        }
    }
}

#[test]
fn create_shared_mem() {
    let key = rand::random::<i32>().abs();
    let data: f64 = 42.0;
    let mut kernel = Kernel::new();
    let cortex = kernel.create(Some(key), data, false).unwrap();
    assert_eq!(kernel.read(&cortex).unwrap(), 42.0);
}

#[test]
fn attach_to_shared_mem() {
    let key = rand::random::<i32>().abs();
    let data: f64 = 42.0;
    let mut kernel = Kernel::new();
    let cortex1 = kernel.create(Some(key), data, false).unwrap();
    assert_eq!(kernel.read(&cortex1).unwrap(), 42.0);

    let cortex2 = kernel.attach(key).unwrap();
    assert_eq!(kernel.read(&cortex1).unwrap(), kernel.read(&cortex2).unwrap());
}

#[test]
fn create_with_random_key_and_read() {
    let mut kernel = Kernel::new();
    kernel.draws = vec![1804289383];
    let first: Progress<f64, FakeLock> = CortexBuilder::new(42.0).random_key().with_default_lock();
    let cortex = kernel.drive(first).unwrap();
    assert_eq!(cortex.key(), 1804289383);
    assert!(cortex.is_owner());
    assert_eq!(cortex.size(), 8);
    assert_eq!(kernel.read(&cortex).unwrap(), 42.0);
}

#[test]
fn creation_asks_in_order() {
    let mut kernel = Kernel::new();
    let cortex = kernel.create(Some(5), 42.0f64, false).unwrap();
    assert_eq!(
        kernel.log,
        vec!["shmget 5 8 3666", "shmat 100", "store", "create lock 5"]
    );
    assert_eq!(cortex.key(), 5);
    assert_eq!(cortex.id(), 100);
    assert_eq!(cortex.addr(), BASE);
    assert_eq!(cortex.size(), 8);
    assert!(cortex.is_owner());
    assert_eq!(*cortex.lock(), FakeLock { key: 5, owner: true, mode: 0o700 });
}

#[test]
fn creation_flags_are_the_kernel_flags() {
    let first: Progress<i32, FakeLock> = Cortex::new(Some(1), 0, false, None);
    match first {
        Progress::Pending { request: Request::Segment { key, size, flags }, .. } => {
            assert_eq!(key, 1);
            assert_eq!(size, 4);
            assert_eq!(flags, libc::IPC_CREAT | libc::IPC_EXCL | 0o666);
        }
        _ => panic!("a creation with a key begins with the segment"),
    }
}

#[test]
fn attachment_asks_in_order() {
    let mut kernel = Kernel::new();
    let owner = kernel.create(Some(5), 42i32, false).unwrap();
    kernel.log.clear();
    let cortex = kernel.attach(5).unwrap();
    assert_eq!(kernel.log, vec!["attach lock 5", "shmget 5 0 666", "shmat 100"]);
    assert_eq!(cortex.key(), 5);
    assert_eq!(cortex.id(), owner.id());
    assert_eq!(cortex.size(), 4);
    assert!(!cortex.is_owner());
    assert!(!cortex.lock().owner);
    assert_ne!(cortex.addr(), owner.addr());
}

#[test]
fn attachment_stores_nothing() {
    let mut kernel = Kernel::new();
    let owner = kernel.create(Some(5), 42i32, false).unwrap();
    kernel.write(&owner, 7).unwrap();
    let cortex = kernel.attach(5).unwrap();
    assert_eq!(kernel.read(&cortex).unwrap(), 7);
}

#[test]
fn twenty_attachments_read_the_payload() {
    let key = 4242;
    let initial_data: i32 = 42;
    let mut kernel = Kernel::new();
    let _cortex = kernel.create(Some(key), initial_data, false).unwrap();
    let n_handles = 20;
    for _ in 0..n_handles {
        let attached = kernel.attach(key).unwrap();
        assert_eq!(kernel.read(&attached).unwrap(), initial_data);
    }
}

#[test]
fn explicit_collision_without_force_fails_clean() {
    let mut kernel = Kernel::new();
    let first = kernel.create(Some(9), 1.5f64, false).unwrap();
    kernel.log.clear();
    let e = kernel.create(Some(9), 2.5f64, false).unwrap_err();
    assert!(e.is_clean());
    assert_eq!(e.inner().message(), "Error during shmget");
    assert_eq!(e.inner().os_error(), EEXIST);
    assert_eq!(kernel.log, vec!["shmget 9 8 3666"]);
    assert_eq!(kernel.read(&first).unwrap(), 1.5);
}

#[test]
fn explicit_collision_with_force_takes_over() {
    let mut kernel = Kernel::new();
    let first = kernel.create(Some(9), 1.5f64, false).unwrap();
    kernel.log.clear();
    let builder = CortexBuilder::new(2.5f64).key(9).force_ownership();
    let second = kernel.drive(builder.with_default_lock()).unwrap();
    assert_eq!(
        kernel.log,
        vec!["shmget 9 8 3666", "attach lock 9", "shmget 9 0 666", "shmat 100", "own lock 9"]
    );
    assert!(second.is_owner());
    assert!(second.lock().owner);
    assert_eq!(second.key(), 9);
    assert_eq!(second.id(), first.id());
    assert_eq!(kernel.read(&second).unwrap(), 1.5);
    kernel.write(&second, 2.5).unwrap();
    assert_eq!(kernel.read(&second).unwrap(), 2.5);
    assert_eq!(kernel.read(&first).unwrap(), 2.5);
    kernel.dispose(second);
    assert!(kernel.ids.is_empty());
    assert!(kernel.locks.is_empty());
}

#[test]
fn force_without_collision_creates() {
    let mut kernel = Kernel::new();
    let cortex = kernel.create(Some(9), 2.5f64, true).unwrap();
    assert_eq!(kernel.log, vec!["shmget 9 8 3666", "shmat 100", "store", "create lock 9"]);
    assert!(cortex.is_owner());
    assert_eq!(kernel.read(&cortex).unwrap(), 2.5);
}

#[test]
fn write_wins() {
    let mut kernel = Kernel::new();
    let creator = kernel.create(Some(3), 1i32, false).unwrap();
    let other = kernel.attach(3).unwrap();
    kernel.write(&other, 2).unwrap();
    assert_eq!(kernel.read(&creator).unwrap(), 2);
}

#[test]
fn what_is_written_is_read_back() {
    let mut kernel = Kernel::new();
    let writer = kernel.create(Some(3), 0i32, false).unwrap();
    let reader = kernel.attach(3).unwrap();
    for v in [0, 1, -1, 42, i32::MIN, i32::MAX] {
        kernel.write(&writer, v).unwrap();
        assert_eq!(kernel.read(&reader).unwrap(), v);
        assert_eq!(kernel.read(&writer).unwrap(), v);
    }
    kernel.write(&reader, 11).unwrap();
    assert_eq!(kernel.read(&writer).unwrap(), 11);
}

#[test]
fn owner_removes_segment_and_later_attach_fails_clean() {
    let mut kernel = Kernel::new();
    let owner = kernel.create(Some(8), 42i32, false).unwrap();
    assert!(owner.is_owner());
    let other = kernel.attach(8).unwrap();
    assert!(!other.is_owner());
    assert_eq!(owner.dispose().map(|r| (r.id, r.command)), Some((owner.id(), 0)));
    kernel.dispose(owner);
    let e = kernel.attach(8).unwrap_err();
    assert!(e.is_clean());
}

#[test]
fn disposal_of_an_attached_handle_removes_nothing() {
    let mut kernel = Kernel::new();
    let owner = kernel.create(Some(8), 42.0f64, false).unwrap();
    let other = kernel.attach(8).unwrap();
    assert_eq!(other.dispose(), None);
    assert_eq!(other.dispose(), None);
    kernel.dispose(other);
    assert!(kernel.ids.contains_key(&8));
    assert!(kernel.locks.contains_key(&8));
    assert_eq!(kernel.read(&owner).unwrap(), 42.0);
    let again = kernel.attach(8).unwrap();
    assert_eq!(kernel.read(&again).unwrap(), 42.0);
}

#[test]
fn random_key_is_drawn_again_after_a_collision() {
    let mut kernel = Kernel::new();
    kernel.occupy(11);
    kernel.occupy(12);
    kernel.occupy(13);
    kernel.draws = vec![11, 12, 13, 14, 15];
    let cortex = kernel.create(None, 42i32, false).unwrap();
    assert_eq!(cortex.key(), 14);
    assert!(cortex.is_owner());
    assert_eq!(kernel.draws, vec![15]);
    assert_eq!(kernel.read(&cortex).unwrap(), 42);
}

#[test]
fn random_key_gives_up_after_twenty_retries() {
    let mut kernel = Kernel::new();
    for key in 0..30 {
        kernel.occupy(key);
    }
    kernel.draws = (0..30).collect();
    let e = kernel.create(None, 42i32, false).unwrap_err();
    assert!(e.is_clean());
    assert_eq!(e.inner().message(), "Error during shmget");
    assert_eq!(e.inner().os_error(), EEXIST);
    assert_eq!(kernel.draws.len(), 9);
    assert_eq!(kernel.log.iter().filter(|l| l.starts_with("shmget")).count(), 21);
    assert_eq!(kernel.log.iter().filter(|l| l.as_str() == "draw").count(), 21);
    assert_eq!(kernel.log.len(), 42);
}

#[test]
fn random_key_succeeds_at_the_last_retry() {
    let mut kernel = Kernel::new();
    for key in 0..20 {
        kernel.occupy(key);
    }
    kernel.draws = (0..30).collect();
    let cortex = kernel.create(None, 42i32, false).unwrap();
    assert_eq!(cortex.key(), 20);
    assert_eq!(kernel.draws.len(), 9);
}

#[test]
fn random_key_ignores_the_force_flag() {
    let mut kernel = Kernel::new();
    for key in 0..30 {
        kernel.occupy(key);
    }
    kernel.draws = (0..30).collect();
    let e = kernel.create(None, 42i32, true).unwrap_err();
    assert!(e.is_clean());
    assert!(!kernel.log.iter().any(|l| l.starts_with("attach lock")));
}

#[test]
fn other_refusal_is_not_retried() {
    let mut kernel: Kernel<i32> = Kernel::new();
    kernel.refuse_creation = Some(EACCES);
    kernel.draws = vec![1, 2, 3];
    let e = kernel.create(None, 42, false).unwrap_err();
    assert!(e.is_clean());
    assert_eq!(e.to_string(), "Error during shmget. OS Error: 13");
    assert_eq!(kernel.log, vec!["draw", "shmget 1 4 3666"]);
    kernel.log.clear();
    let e = kernel.create(Some(6), 42, true).unwrap_err();
    assert!(e.is_clean());
    assert_eq!(e.inner().os_error(), EACCES);
    assert_eq!(kernel.log, vec!["shmget 6 4 3666"]);
}

#[test]
fn failed_mapping_removes_the_segment_and_fails_clean() {
    let mut kernel: Kernel<i32> = Kernel::new();
    kernel.refuse_mapping = true;
    let e = kernel.create(Some(6), 42, false).unwrap_err();
    assert!(e.is_clean());
    assert_eq!(e.inner().message(), "Error during shmat for id: 100");
    assert_eq!(e.inner().os_error(), ENOMEM);
    assert_eq!(kernel.log, vec!["shmget 6 4 3666", "shmat 100", "shmctl 100 0"]);
    assert!(kernel.ids.is_empty());
}

#[test]
fn failed_mapping_fails_clean_whatever_the_removal_did() {
    let mut kernel: Kernel<i32> = Kernel::new();
    kernel.refuse_mapping = true;
    kernel.refuse_removal = true;
    let e = kernel.create(Some(6), 42, false).unwrap_err();
    assert!(e.is_clean());
    assert_eq!(e.inner().message(), "Error during shmat for id: 100");
    assert_eq!(e.inner().os_error(), ENOMEM);
}

#[test]
fn failed_lock_creation_fails_dirty() {
    let mut kernel: Kernel<i32> = Kernel::new();
    kernel.locks.insert(6, 0o700);
    let e = kernel.create(Some(6), 42, false).unwrap_err();
    assert!(e.is_dirty());
    assert_eq!(e.inner().message(), "Error during sem_open");
    assert_eq!(e.inner().os_error(), EEXIST);
    assert!(kernel.ids.contains_key(&6));
    assert!(!kernel.log.iter().any(|l| l.starts_with("shmctl")));
}

#[test]
fn attachment_without_lock_fails_as_the_lock_did() {
    let mut kernel: Kernel<i32> = Kernel::new();
    let e = kernel.attach(6).unwrap_err();
    assert!(e.is_clean());
    assert_eq!(e.inner().message(), "Error during sem_open");
    assert_eq!(e.inner().os_error(), ENOENT);
    assert_eq!(kernel.log, vec!["attach lock 6"]);
    let first: Progress<i32, FakeLock> = Cortex::attach(6);
    match first {
        Progress::Pending { state, .. } => {
            let lock = Err(CortexError::new_dirty("lock is broken", 5));
            match state.step(Reply::Lock { lock }) {
                Progress::Done { result: Err(e) } => {
                    assert!(e.is_dirty());
                    assert_eq!(e.to_string(), "lock is broken. OS Error: 5");
                }
                _ => panic!("an attachment without lock ends"),
            }
        }
        _ => panic!("an attachment begins with the lock"),
    }
}

#[test]
fn attachment_without_segment_fails_clean() {
    let mut kernel: Kernel<i32> = Kernel::new();
    kernel.locks.insert(6, 0o700);
    let e = kernel.attach(6).unwrap_err();
    assert!(e.is_clean());
    assert_eq!(e.inner().message(), "Error during shmget for key: 6");
    assert_eq!(e.inner().os_error(), ENOENT);
}

#[test]
fn attachment_that_cannot_map_fails_clean_and_removes_nothing() {
    let mut kernel: Kernel<i32> = Kernel::new();
    let _owner = kernel.create(Some(6), 42, false).unwrap();
    kernel.log.clear();
    kernel.refuse_mapping = true;
    let e = kernel.attach(6).unwrap_err();
    assert!(e.is_clean());
    assert_eq!(e.inner().message(), "Error during shmat");
    assert_eq!(e.inner().os_error(), ENOMEM);
    assert_eq!(kernel.log, vec!["attach lock 6", "shmget 6 0 666", "shmat 100"]);
    assert!(kernel.ids.contains_key(&6));
}

#[test]
fn reply_out_of_order_ends_the_creation_dirty() {
    let first: Progress<i32, FakeLock> = Cortex::new(Some(6), 42, false, None);
    match first {
        Progress::Pending { state, .. } => match state.step(Reply::Stored) {
            Progress::Done { result: Err(e) } => {
                assert!(e.is_dirty());
                assert_eq!(e.to_string(), "Reply does not answer the request. OS Error: 0");
            }
            _ => panic!("a reply out of order ends the run"),
        },
        _ => panic!("a creation begins pending"),
    }
    let state: Creation<i32, FakeLock> = Creation::Clearing { id: 4, os_error: ENOMEM };
    match state.step(Reply::Key { key: 1 }) {
        Progress::Done { result: Err(e) } => assert!(e.is_dirty()),
        _ => panic!("a reply out of order ends the run"),
    }
}

#[test]
fn retries_are_counted_in_the_state() {
    let state: Creation<i32, FakeLock> = Creation::Allocating {
        data: 42,
        size: 4,
        settings: None,
        key: 77,
        choice: KeyChoice::Random { retries: 19 },
    };
    match state.step(Reply::Segment { id: -1, os_error: EEXIST }) {
        Progress::Pending { state: Creation::Drawing { retries, data, .. }, request } => {
            assert_eq!(retries, 20);
            assert_eq!(data, 42);
            assert!(matches!(request, Request::DrawKey));
        }
        _ => panic!("the twentieth retry is granted"),
    }
    let state: Creation<i32, FakeLock> = Creation::Allocating {
        data: 42,
        size: 4,
        settings: None,
        key: 77,
        choice: KeyChoice::Random { retries: 20 },
    };
    match state.step(Reply::Segment { id: -1, os_error: EEXIST }) {
        Progress::Done { result: Err(e) } => assert!(e.is_clean()),
        _ => panic!("no retry is granted after the twentieth"),
    }
}

#[test]
fn segment_id_zero_is_a_segment() {
    let first: Progress<i32, FakeLock> = Cortex::new(Some(6), 42, false, None);
    match first {
        Progress::Pending { state, .. } => {
            match state.step(Reply::Segment { id: 0, os_error: EEXIST }) {
                Progress::Pending { request: Request::MapSegment { id }, .. } => assert_eq!(id, 0),
                _ => panic!("the segment is mapped"),
            }
        }
        _ => panic!("a creation begins pending"),
    }
}

#[test]
fn lock_settings_reach_the_lock() {
    let mut kernel = Kernel::new();
    let settings: u32 = 0o640;
    let builder = CortexBuilder::new(42.0f64).key(21);
    let cortex = kernel.drive(builder.with_lock::<FakeLock>(&settings)).unwrap();
    assert_eq!(cortex.lock().mode, 0o640);
    assert_eq!(kernel.locks[&21], 0o640);
    let builder = CortexBuilder::new(42.0f64).key(22);
    let cortex = kernel.drive(builder.with_default_lock::<FakeLock>()).unwrap();
    assert_eq!(cortex.lock().mode, 0o700);
}

#[test]
fn read_takes_loads_and_releases() {
    let mut kernel = Kernel::new();
    let cortex = kernel.create(Some(2), 42i32, false).unwrap();
    let (state, request) = match cortex.read() {
        AccessProgress::Pending { state, request } => (state, request),
        _ => panic!("a read begins pending"),
    };
    assert!(matches!(request, AccessRequest::ReadLock));
    let (state, request) = match state.step(AccessReply::Locked { outcome: Ok(()) }) {
        AccessProgress::Pending { state, request } => (state, request),
        _ => panic!("a granted lock is followed by the load"),
    };
    match request {
        AccessRequest::Load { addr } => assert_eq!(addr, cortex.addr()),
        _ => panic!("a granted lock is followed by the load"),
    }
    let (state, request) = match state.step(AccessReply::Loaded { data: 42 }) {
        AccessProgress::Pending { state, request } => (state, request),
        _ => panic!("the load is followed by the release"),
    };
    assert!(matches!(request, AccessRequest::Release));
    match state.step(AccessReply::Released { outcome: Ok(()) }) {
        AccessProgress::Read { result } => assert_eq!(result.unwrap(), 42),
        _ => panic!("the release ends the read"),
    }
}

#[test]
fn write_takes_stores_and_releases() {
    let mut kernel = Kernel::new();
    let cortex = kernel.create(Some(2), 42i32, false).unwrap();
    let (state, request) = match cortex.write(7) {
        AccessProgress::Pending { state, request } => (state, request),
        _ => panic!("a write begins pending"),
    };
    assert!(matches!(request, AccessRequest::WriteLock));
    let (state, request) = match state.step(AccessReply::Locked { outcome: Ok(()) }) {
        AccessProgress::Pending { state, request } => (state, request),
        _ => panic!("a granted lock is followed by the store"),
    };
    match request {
        AccessRequest::Store { addr, data } => {
            assert_eq!(addr, cortex.addr());
            assert_eq!(data, 7);
        }
        _ => panic!("a granted lock is followed by the store"),
    }
    let (state, request) = match state.step(AccessReply::Stored) {
        AccessProgress::Pending { state, request } => (state, request),
        _ => panic!("the store is followed by the release"),
    };
    assert!(matches!(request, AccessRequest::Release));
    match state.step(AccessReply::Released { outcome: Ok(()) }) {
        AccessProgress::Written { result } => assert!(result.is_ok()),
        _ => panic!("the release ends the write"),
    }
}

#[test]
fn refused_lock_ends_the_access_clean_without_touching_the_slot() {
    let mut kernel = Kernel::new();
    let cortex = kernel.create(Some(2), 42i32, false).unwrap();
    let state = match cortex.read() {
        AccessProgress::Pending { state, .. } => state,
        _ => panic!("a read begins pending"),
    };
    let outcome = Err(CortexError::new_clean("Error during sem_wait", 4));
    match state.step(AccessReply::Locked { outcome }) {
        AccessProgress::Read { result: Err(e) } => {
            assert!(e.is_clean());
            assert_eq!(e.to_string(), "Error during sem_wait. OS Error: 4");
        }
        _ => panic!("a refused lock ends the read"),
    }
    let state = match cortex.write(7) {
        AccessProgress::Pending { state, .. } => state,
        _ => panic!("a write begins pending"),
    };
    let outcome = Err(CortexError::new_dirty("Error during sem_wait", 4));
    match state.step(AccessReply::Locked { outcome }) {
        AccessProgress::Written { result: Err(e) } => {
            assert!(e.is_clean());
            assert_eq!(e.to_string(), "Error during sem_wait. OS Error: 4");
        }
        _ => panic!("a refused lock ends the write"),
    }
    assert_eq!(kernel.read(&cortex).unwrap(), 42);
}

#[test]
fn failed_release_fails_the_access() {
    let state: cortex::access::Access<i32> = cortex::access::Access::ReadReleasing { data: 42 };
    let outcome = Err(CortexError::new_clean("Error during sem_release", 75));
    match state.step(AccessReply::Released { outcome }) {
        AccessProgress::Read { result: Err(e) } => {
            assert!(e.is_clean());
            assert_eq!(e.inner().message(), "Error during sem_release");
            assert_eq!(e.inner().os_error(), 75);
        }
        _ => panic!("a failed release fails the read"),
    }
    let state: cortex::access::Access<i32> = cortex::access::Access::WriteReleasing;
    let outcome = Err(CortexError::new_clean("Error during sem_release", 75));
    match state.step(AccessReply::Released { outcome }) {
        AccessProgress::Written { result: Err(e) } => assert!(e.is_clean()),
        _ => panic!("a failed release fails the write"),
    }
}

#[test]
fn reply_out_of_order_ends_the_access_clean() {
    let state: cortex::access::Access<i32> = cortex::access::Access::Loading;
    match state.step(AccessReply::Stored) {
        AccessProgress::Read { result: Err(e) } => {
            assert!(e.is_clean());
            assert_eq!(e.to_string(), "Reply does not answer the request. OS Error: 0");
        }
        _ => panic!("a reply out of order ends the read"),
    }
    let state: cortex::access::Access<i32> = cortex::access::Access::Storing;
    match state.step(AccessReply::Loaded { data: 1 }) {
        AccessProgress::Written { result: Err(e) } => assert!(e.is_clean()),
        _ => panic!("a reply out of order ends the write"),
    }
}

#[test]
fn lock_requests_are_answered_by_the_lock() {
    let settings: u32 = 0o660;
    let request: Request<i32, FakeLock> = Request::CreateLock { key: 4, settings: Some(&settings) };
    match request.answer_lock() {
        Ok(Reply::Lock { lock: Ok(lock) }) => {
            assert_eq!(lock, FakeLock { key: 4, owner: true, mode: 0o660 })
        }
        _ => panic!("the lock is created"),
    }
    let request: Request<i32, FakeLock> = Request::CreateLock { key: 4, settings: None };
    match request.answer_lock() {
        Ok(Reply::Lock { lock: Ok(lock) }) => {
            assert_eq!(lock, FakeLock { key: 4, owner: true, mode: 0o700 })
        }
        _ => panic!("the lock is created"),
    }
    let request: Request<i32, FakeLock> = Request::AttachLock { key: 5 };
    match request.answer_lock() {
        Ok(Reply::Lock { lock: Ok(lock) }) => {
            assert_eq!(lock, FakeLock { key: 5, owner: false, mode: 0 })
        }
        _ => panic!("the lock is attached to"),
    }
    let lock = FakeLock { key: 6, owner: false, mode: 0 };
    let request: Request<i32, FakeLock> = Request::OwnLock { lock };
    match request.answer_lock() {
        Ok(Reply::Owned { lock }) => assert_eq!(lock, FakeLock { key: 6, owner: true, mode: 0 }),
        _ => panic!("the lock takes its primitive over"),
    }
}

#[test]
fn kernel_requests_are_handed_back() {
    let request: Request<i32, FakeLock> = Request::DrawKey;
    assert!(matches!(request.answer_lock(), Err(Request::DrawKey)));
    let request: Request<i32, FakeLock> = Request::Segment { key: 1, size: 4, flags: 0o666 };
    assert!(matches!(
        request.answer_lock(),
        Err(Request::Segment { key: 1, size: 4, flags: 0o666 })
    ));
    let request: Request<i32, FakeLock> = Request::MapSegment { id: 3 };
    assert!(matches!(request.answer_lock(), Err(Request::MapSegment { id: 3 })));
    let request: Request<i32, FakeLock> = Request::RemoveSegment { id: 3, command: 0 };
    assert!(matches!(request.answer_lock(), Err(Request::RemoveSegment { id: 3, command: 0 })));
    let request: Request<i32, FakeLock> = Request::Store { addr: 16, data: 42 };
    assert!(matches!(request.answer_lock(), Err(Request::Store { addr: 16, data: 42 })));
}

#[derive(Debug)]
struct Stubborn;

impl CortexSync for Stubborn {
    type Settings = ();

    fn new(_cortex_key: i32, _settings: Option<&()>) -> CortexResult<Self> {
        Err(CortexError::new_clean("Error during sem_open", EEXIST))
    }

    fn attach(_cortex_key: i32) -> CortexResult<Self> {
        Ok(Stubborn)
    }

    fn read_lock(&self) -> CortexResult<()> {
        Err(CortexError::new_clean("Error during sem_wait", 4))
    }

    fn write_lock(&self) -> CortexResult<()> {
        Ok(())
    }

    fn release(&self) -> CortexResult<()> {
        Err(CortexError::new_clean("Error during sem_release", 75))
    }

    fn force_ownership(&mut self) {}

    fn is_owner(&self) -> bool {
        false
    }
}

fn attached_to_stubborn() -> Cortex<i32, Stubborn> {
    let mut at: Progress<i32, Stubborn> = Cortex::attach(3);
    let mut replies = vec![
        Reply::Mapped { addr: BASE, os_error: 0 },
        Reply::Segment { id: 9, os_error: 0 },
        Reply::Lock { lock: Ok(Stubborn) },
    ];
    loop {
        match at {
            Progress::Pending { state, .. } => at = state.step(replies.pop().unwrap()),
            Progress::Done { result } => return result.unwrap(),
        }
    }
}

#[test]
fn access_requests_of_the_lock_are_answered_by_the_lock() {
    let handle = attached_to_stubborn();
    match handle.answer_lock(AccessRequest::ReadLock) {
        Ok(AccessReply::Locked { outcome: Err(e) }) => {
            assert_eq!(e.to_string(), "Error during sem_wait. OS Error: 4")
        }
        _ => panic!("the lock answers for the read lock"),
    }
    assert!(matches!(
        handle.answer_lock(AccessRequest::WriteLock),
        Ok(AccessReply::Locked { outcome: Ok(()) })
    ));
    match handle.answer_lock(AccessRequest::Release) {
        Ok(AccessReply::Released { outcome: Err(e) }) => {
            assert_eq!(e.to_string(), "Error during sem_release. OS Error: 75")
        }
        _ => panic!("the lock answers for the release"),
    }
    assert!(matches!(
        handle.answer_lock(AccessRequest::Load { addr: 8 }),
        Err(AccessRequest::Load { addr: 8 })
    ));
    assert!(matches!(
        handle.answer_lock(AccessRequest::Store { addr: 8, data: 1 }),
        Err(AccessRequest::Store { addr: 8, data: 1 })
    ));
}

#[test]
fn creation_whose_lock_refuses_is_dirty_through_the_lock_itself() {
    let mut at: Progress<i32, Stubborn> = Cortex::new(Some(3), 42, false, None);
    let mut replies = vec![
        Reply::Stored,
        Reply::Mapped { addr: BASE, os_error: 0 },
        Reply::Segment { id: 9, os_error: 0 },
    ];
    loop {
        match at {
            Progress::Pending { state, request } => {
                let reply = match request.answer_lock() {
                    Ok(reply) => reply,
                    Err(_) => replies.pop().unwrap(),
                };
                at = state.step(reply);
            }
            Progress::Done { result } => {
                let e = result.unwrap_err();
                assert!(e.is_dirty());
                assert_eq!(e.to_string(), "Error during sem_open. OS Error: 17");
                return;
            }
        }
    }
}

fn shareable<X: Send + Sync>() {}

#[test]
fn handle_can_go_to_another_thread() {
    shareable::<Cortex<i32, FakeLock>>();
    shareable::<Cortex<f64, FakeLock>>();
    shareable::<CortexError>();
}
