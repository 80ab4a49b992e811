use cortex::builder::{Initialized, WithKey, WithRandomKey};
use cortex::create::{Creation, KeyChoice, Progress, Request};
use cortex::{CortexBuilder, CortexResult, CortexSync};

struct Plain {
    owner: bool,
}

impl CortexSync for Plain {
    type Settings = u8;

    fn new(_cortex_key: i32, _settings: Option<&u8>) -> CortexResult<Self> {
        Ok(Plain { owner: true })
    }

    fn attach(_cortex_key: i32) -> CortexResult<Self> {
        Ok(Plain { owner: false })
    }

    fn read_lock(&self) -> CortexResult<()> {
        Ok(())
    }

    fn write_lock(&self) -> CortexResult<()> {
        Ok(())
    }

    fn release(&self) -> CortexResult<()> {
        Ok(())
    }

    fn force_ownership(&mut self) {
        self.owner = true;
    }

    fn is_owner(&self) -> bool {
        self.owner
    }
}

#[test]
fn builder_with_key_begins_with_the_segment() {
    let builder: CortexBuilder<f64, Initialized> = CortexBuilder::new(42.0);
    let builder: CortexBuilder<f64, WithKey> = builder.key(77);
    match builder.with_default_lock::<Plain>() {
        Progress::Pending {
            state: Creation::Allocating { data, size, settings, key, choice },
            request: Request::Segment { key: asked, size: bytes, flags },
        } => {
            assert_eq!(data, 42.0);
            assert_eq!(size, 8);
            assert_eq!(settings, None);
            assert_eq!(key, 77);
            assert!(matches!(choice, KeyChoice::Explicit { force_ownership: false }));
            assert_eq!((asked, bytes, flags), (77, 8, 0o3666));
        }
        _ => panic!("a creation with a key begins with the segment"),
    }
}

#[test]
fn builder_with_force_carries_the_flag() {
    let builder = CortexBuilder::new(7u16).key(-5).force_ownership();
    match builder.with_default_lock::<Plain>() {
        Progress::Pending { state: Creation::Allocating { data, size, key, choice, .. }, .. } => {
            assert_eq!(data, 7);
            assert_eq!(size, 2);
            assert_eq!(key, -5);
            assert!(matches!(choice, KeyChoice::Explicit { force_ownership: true }));
        }
        _ => panic!("a creation with a key begins with the segment"),
    }
}

#[test]
fn forcing_twice_is_forcing_once() {
    let builder = CortexBuilder::new(7u16).key(-5).force_ownership().force_ownership();
    match builder.with_default_lock::<Plain>() {
        Progress::Pending { state: Creation::Allocating { choice, .. }, .. } => {
            assert!(matches!(choice, KeyChoice::Explicit { force_ownership: true }));
        }
        _ => panic!("a creation with a key begins with the segment"),
    }
}

#[test]
fn builder_with_random_key_begins_with_a_draw() {
    let builder: CortexBuilder<[u8; 3], WithRandomKey> = CortexBuilder::new([1, 2, 3]).random_key();
    match builder.with_default_lock::<Plain>() {
        Progress::Pending {
            state: Creation::Drawing { data, size, settings, retries },
            request: Request::DrawKey,
        } => {
            assert_eq!(data, [1, 2, 3]);
            assert_eq!(size, 3);
            assert_eq!(settings, None);
            assert_eq!(retries, 0);
        }
        _ => panic!("a creation with a random key begins with a draw"),
    }
}

#[test]
fn builder_hands_the_lock_settings_on() {
    let settings: u8 = 9;
    match CortexBuilder::new(1i64).random_key().with_lock::<Plain>(&settings) {
        Progress::Pending { state: Creation::Drawing { settings, size, .. }, .. } => {
            assert_eq!(settings, Some(&9));
            assert_eq!(size, 8);
        }
        _ => panic!("a creation with a random key begins with a draw"),
    }
    match CortexBuilder::new(1i64).key(3).with_lock::<Plain>(&settings) {
        Progress::Pending { state: Creation::Allocating { settings, .. }, .. } => {
            assert_eq!(settings, Some(&9));
        }
        _ => panic!("a creation with a key begins with the segment"),
    }
}

#[test]
fn builder_adds_nothing_to_its_fields() {
    assert_eq!(
        std::mem::size_of::<CortexBuilder<u64, Initialized>>(),
        std::mem::size_of::<(u64, bool, Option<i32>)>()
    );
    assert_eq!(
        std::mem::size_of::<CortexBuilder<u64, WithKey>>(),
        std::mem::size_of::<CortexBuilder<u64, WithRandomKey>>()
    );
}
