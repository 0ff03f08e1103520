use piecanvas::canvas::NULL_TEXTURE;
use piecanvas::registry::{TextureRegistry, UnknownTextureHandle};

#[test]
fn handles_are_issued_from_one_upwards() {
    let mut registry: TextureRegistry<String> = TextureRegistry::new();
    assert_eq!(registry.len(), 0);
    assert!(registry.has_room());
    assert_eq!(registry.register("home".to_string()), 1);
    assert_eq!(registry.register("phone".to_string()), 2);
    assert_eq!(registry.register("plane".to_string()), 3);
    assert_eq!(registry.len(), 3);
}

#[test]
fn registered_handle_resolves_to_its_resource() {
    let mut registry: TextureRegistry<String> = TextureRegistry::new();
    let home = registry.register("home".to_string());
    let phone = registry.register("phone".to_string());
    assert_eq!(registry.resolve(home), Ok(&"home".to_string()));
    assert_eq!(registry.resolve(phone), Ok(&"phone".to_string()));
    assert!(registry.contains(home));
    assert!(registry.contains(phone));
}

#[test]
fn earlier_handles_survive_later_registrations() {
    let mut registry: TextureRegistry<u64> = TextureRegistry::new();
    let first = registry.register(11);
    for i in 0..100u64 {
        registry.register(1000 + i);
        assert_eq!(registry.resolve(first), Ok(&11));
    }
    assert_eq!(registry.resolve(51), Ok(&1049));
}

#[test]
fn unknown_handle_is_an_error_that_names_it() {
    let mut registry: TextureRegistry<u8> = TextureRegistry::new();
    assert_eq!(registry.resolve(1), Err(UnknownTextureHandle { handle: 1 }));
    registry.register(9);
    assert_eq!(registry.resolve(2), Err(UnknownTextureHandle { handle: 2 }));
    assert_eq!(registry.resolve(u32::MAX), Err(UnknownTextureHandle { handle: u32::MAX }));
    assert!(!registry.contains(2));
}

#[test]
fn null_handle_is_never_issued() {
    let mut registry: TextureRegistry<u8> = TextureRegistry::new();
    assert_eq!(registry.resolve(NULL_TEXTURE), Err(UnknownTextureHandle { handle: 0 }));
    let handle = registry.register(1);
    assert_ne!(handle, NULL_TEXTURE);
    assert!(!registry.contains(NULL_TEXTURE));
    assert_eq!(registry.resolve(NULL_TEXTURE), Err(UnknownTextureHandle { handle: 0 }));
}
