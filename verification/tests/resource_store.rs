use engine::resource::{ResourceError, ResourceID, ResourceManager};
use engine::shader::Shader;
use engine::texture::Texture;

#[test]
fn same_name_same_id() {
    assert_eq!(
        ResourceID::from_name("awesome_face"),
        ResourceID::from_name("awesome_face")
    );
    assert_eq!(
        ResourceID::from_name("sprite_shader"),
        ResourceID::from_name("sprite_shader")
    );
}

#[test]
fn distinct_names_distinct_ids() {
    let sprite = ResourceID::from_name("sprite_shader");
    let text = ResourceID::from_name("text_shader");
    let face = ResourceID::from_name("awesome_face");
    assert_ne!(sprite, text);
    assert_ne!(sprite, face);
    assert_ne!(text, face);
}

#[test]
fn register_then_get_returns_registered() {
    let mut store = ResourceManager::new();
    let id = ResourceID::from_name("sprite_shader");
    let program = Shader { id: 7 };
    assert_eq!(store.register_shader(id, program), Ok(()));
    assert_eq!(store.get_shader(id), Some(program));
    assert_eq!(store.get_shader(ResourceID::from_name("text_shader")), None);
}

#[test]
fn get_unregistered_reports_not_found() {
    let store = ResourceManager::new();
    assert_eq!(store.get_shader(ResourceID::from_name("sprite_shader")), None);
    assert_eq!(store.get_texture(ResourceID::from_name("awesome_face")), None);
}

#[test]
fn duplicate_registration_refused() {
    let mut store = ResourceManager::new();
    let id = ResourceID::from_name("sprite_shader");
    assert_eq!(store.register_shader(id, Shader { id: 7 }), Ok(()));
    assert_eq!(
        store.register_shader(id, Shader { id: 8 }),
        Err(ResourceError::DuplicateResource)
    );
    assert_eq!(store.get_shader(id), Some(Shader { id: 7 }));
}

#[test]
fn initialize_registers_fixed_assets() {
    let mut store = ResourceManager::new();
    let sprite = Shader { id: 1 };
    let text = Shader { id: 2 };
    let face = Texture { id: 3, width: 512, height: 512 };
    assert_eq!(store.initialize(sprite, text, face), Ok(()));
    assert_eq!(
        store.get_shader(ResourceID::from_name("sprite_shader")),
        Some(sprite)
    );
    assert_eq!(
        store.get_shader(ResourceID::from_name("text_shader")),
        Some(text)
    );
    assert_eq!(
        store.get_texture(ResourceID::from_name("awesome_face")),
        Some(face)
    );
}

#[test]
fn initialize_twice_refused() {
    let mut store = ResourceManager::new();
    let sprite = Shader { id: 1 };
    let text = Shader { id: 2 };
    let face = Texture { id: 3, width: 512, height: 512 };
    assert_eq!(store.initialize(sprite, text, face), Ok(()));
    assert_eq!(
        store.initialize(sprite, text, face),
        Err(ResourceError::DuplicateResource)
    );
    assert_eq!(
        store.get_shader(ResourceID::from_name("sprite_shader")),
        Some(sprite)
    );
}

#[test]
fn shutdown_empties_store_and_returns_every_handle() {
    let mut store = ResourceManager::new();
    let sprite = Shader { id: 1 };
    let text = Shader { id: 2 };
    let face = Texture { id: 3, width: 512, height: 512 };
    assert_eq!(store.initialize(sprite, text, face), Ok(()));
    let (shaders, textures) = store.shutdown();
    assert_eq!(shaders, vec![sprite, text]);
    assert_eq!(textures, vec![face]);
    assert_eq!(store.get_shader(ResourceID::from_name("sprite_shader")), None);
    assert_eq!(store.get_shader(ResourceID::from_name("text_shader")), None);
    assert_eq!(store.get_texture(ResourceID::from_name("awesome_face")), None);
}
