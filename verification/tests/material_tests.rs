use wasserxr_core::material::{plan_material, MaterialEntry, MaterialRejection};
use wasserxr_core::physics::debug_names::{debug_model_path, is_primitive};

#[test]
fn a_text_that_is_not_json_gives_no_material() {
    assert!(matches!(plan_material("shader: basic"), Err(MaterialRejection::NotJson)));
}

#[test]
fn json_that_is_not_an_object_gives_no_material() {
    assert!(matches!(plan_material("[1, 2]"), Err(MaterialRejection::NotObject)));
}

#[test]
fn a_material_without_a_shader_text_gives_no_material() {
    assert!(matches!(plan_material("{\"color\": [1, 2, 3]}"), Err(MaterialRejection::NoShader)));
    assert!(matches!(plan_material("{\"shader\": 5}"), Err(MaterialRejection::NoShader)));
}

#[test]
fn each_member_becomes_its_uniform() {
    let text = "{\"shader\": \"basic\", \"a\": 1, \"b\": 2.5, \"c\": [1, 2], \"d\": [1, 2, 3, 4], \
                \"e\": [1, \"x\"], \"f\": \"t\", \"g\": 3000000000, \"h\": -7, \"i\": [1, 2, 3, 4, 5]}";
    let plan = match plan_material(text) {
        Ok(plan) => plan,
        Err(_) => panic!("expected a material"),
    };
    assert_eq!(plan.shader, "basic");
    let mut entries = plan.entries;
    entries.sort_by(|x, y| x.0.cmp(&y.0));
    assert_eq!(
        entries,
        vec![
            ("a".to_owned(), MaterialEntry::Int(1)),
            ("b".to_owned(), MaterialEntry::Float),
            ("c".to_owned(), MaterialEntry::Vector(2)),
            ("d".to_owned(), MaterialEntry::Vector(4)),
            ("e".to_owned(), MaterialEntry::Invalid),
            ("f".to_owned(), MaterialEntry::Invalid),
            ("g".to_owned(), MaterialEntry::Float),
            ("h".to_owned(), MaterialEntry::Int(-7)),
            ("i".to_owned(), MaterialEntry::Invalid),
        ]
    );
}

#[test]
fn an_entity_without_a_model_is_not_drawn() {
    let mut scene = wasserxr::scene::Scene::new();
    let id = scene.add_entity();
    let entities = scene.get_entities();
    assert!(wasserxr_core::render_select::drawable_assets(&mut scene, id.as_u128()).is_none());
    assert_eq!(scene.get_entities(), entities);
}

#[test]
fn primitive_models_map_to_bundled_files() {
    assert!(is_primitive("cube"));
    assert!(!is_primitive(""));
    assert!(!is_primitive("models/cube"));
    assert!(!is_primitive("cube.obj"));
    assert_eq!(debug_model_path("cube"), "./assets/models/cube.obj");
    assert_eq!(debug_model_path("./assets/models/ship.obj"), "./assets/models/ship.obj");
}
