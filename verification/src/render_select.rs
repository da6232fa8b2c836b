//! Which Model entities can be drawn: those whose model, material and shader
//! assets are named and load. The transforms are computed where they are
//! drawn.
use vstd::prelude::*;
use wasserxr::error::SceneError;
use wasserxr::scene::Scene;
use wasserxr::Uuid;

verus! {

/// The `model` and `material` fields of an entity's `Model` component, as
/// `Scene::query` reads them, or why they cannot be read.
pub uninterp spec fn scene_model_paths(scene: Scene, id: u128) -> Result<(Seq<char>, Seq<char>), SceneError>;

/// The `shader` field of a loaded material asset, as
/// `Scene::asset_query_loaded` reads it, or why it cannot be read.
pub uninterp spec fn scene_material_shader(scene: Scene, material: Seq<char>) -> Result<Seq<char>, SceneError>;

/// `after` and `reply` are what one call of `Scene::ensure_asset_loaded`
/// with this asset type and data text on `before` left and answered; loading
/// runs the asset type's creator, which reads files, so nothing more is
/// stated of them.
pub uninterp spec fn asset_load_outcome(
    before: Scene,
    asset_type: Seq<char>,
    data: Seq<char>,
    after: Scene,
    reply: Result<(), SceneError>,
) -> bool;

/// Calls `Scene::query` for the `model` and `material` text fields of an
/// entity's `Model` component and copies them.
#[verifier::external_body]
fn model_paths(scene: &Scene, id: u128) -> (r: Result<(String, String), SceneError>)
    ensures
        match r {
            Ok(p) => scene_model_paths(*scene, id) == Ok::<(Seq<char>, Seq<char>), SceneError>((p.0@, p.1@)),
            Err(e) => scene_model_paths(*scene, id) == Err::<(Seq<char>, Seq<char>), SceneError>(e),
        },
{
    scene.query::<(&String, &String)>(Uuid::from_u128(id), "Model", &["model", "material"]).map(
        |(model, material)| (model.clone(), material.clone()),
    )
}

/// Calls `Scene::asset_query_loaded` for the `shader` text field of a loaded
/// material asset and copies it.
#[verifier::external_body]
fn material_shader(scene: &Scene, material: &str) -> (r: Result<String, SceneError>)
    ensures
        match r {
            Ok(s) => scene_material_shader(*scene, material@) == Ok::<Seq<char>, SceneError>(s@),
            Err(e) => scene_material_shader(*scene, material@) == Err::<Seq<char>, SceneError>(e),
        },
{
    scene.asset_query_loaded::<(&String,)>("MaterialAsset", material, &["shader"]).map(
        |(shader,)| shader.clone(),
    )
}

/// Calls `Scene::ensure_asset_loaded`.
#[verifier::external_body]
fn load_asset(scene: &mut Scene, asset_type: &str, data: &str) -> (r: Result<(), SceneError>)
    ensures
        asset_load_outcome(*old(scene), asset_type@, data@, *final(scene), r),
{
    scene.ensure_asset_loaded(asset_type, data)
}

/// The assets of one Model entity, from scene `before` to scene `after`,
/// through the loads' states `s1`, `s2` and replies `o1`, `o2`, `o3`: its
/// model and material paths are read; when both are named, the material is
/// loaded, then the model; the shader the material names is read and
/// loaded. The first step that fails ends the run with nothing to draw;
/// when all succeed, `r` holds the model, material and shader paths.
pub open spec fn drawable_chain(
    before: Scene,
    id: u128,
    after: Scene,
    r: Option<(String, String, String)>,
    s1: Scene,
    o1: Result<(), SceneError>,
    s2: Scene,
    o2: Result<(), SceneError>,
    o3: Result<(), SceneError>,
) -> bool {
    match scene_model_paths(before, id) {
        Err(_) => r is None && after == before,
        Ok((model, material)) => if model.len() == 0 || material.len() == 0 {
            r is None && after == before
        } else {
            &&& asset_load_outcome(before, "MaterialAsset"@, material, s1, o1)
            &&& match o1 {
                Err(_) => r is None && after == s1,
                Ok(_) => {
                    &&& asset_load_outcome(s1, "ModelAsset"@, model, s2, o2)
                    &&& match o2 {
                        Err(_) => r is None && after == s2,
                        Ok(_) => match scene_material_shader(s2, material) {
                            Err(_) => r is None && after == s2,
                            Ok(shader) => {
                                &&& asset_load_outcome(s2, "ShaderAsset"@, shader, after, o3)
                                &&& match o3 {
                                    Err(_) => r is None,
                                    Ok(_) => r matches Some(t) && t.0@ == model && t.1@ == material
                                        && t.2@ == shader,
                                }
                            },
                        },
                    }
                },
            }
        },
    }
}

/// The model, material and shader paths of a Model entity that can be
/// drawn, loading its assets on the way; `None` when a path is missing or
/// an asset does not load.
pub fn drawable_assets(scene: &mut Scene, id: u128) -> (r: Option<(String, String, String)>)
    ensures
        exists|
            s1: Scene,
            o1: Result<(), SceneError>,
            s2: Scene,
            o2: Result<(), SceneError>,
            o3: Result<(), SceneError>,
        | #[trigger] drawable_chain(*old(scene), id, *final(scene), r, s1, o1, s2, o2, o3),
{
    let ghost before = *scene;
    let ghost ok: Result<(), SceneError> = Ok(());
    let (model, material) = match model_paths(scene, id) {
        Ok(p) => p,
        Err(_) => {
            assert(drawable_chain(before, id, *scene, None, before, ok, before, ok, ok));
            return None;
        },
    };
    if model.unicode_len() == 0 || material.unicode_len() == 0 {
        assert(drawable_chain(before, id, *scene, None, before, ok, before, ok, ok));
        return None;
    }
    let material_type = "MaterialAsset";
    let model_type = "ModelAsset";
    let shader_type = "ShaderAsset";
    proof {
        reveal_strlit("MaterialAsset");
        reveal_strlit("ModelAsset");
        reveal_strlit("ShaderAsset");
    }
    let o1 = load_asset(scene, material_type, material.as_str());
    let ghost s1 = *scene;
    if let Err(_) = o1 {
        assert(drawable_chain(before, id, *scene, None, s1, o1, s1, ok, ok));
        return None;
    }
    let o2 = load_asset(scene, model_type, model.as_str());
    let ghost s2 = *scene;
    if let Err(_) = o2 {
        assert(drawable_chain(before, id, *scene, None, s1, o1, s2, o2, ok));
        return None;
    }
    let shader = match material_shader(scene, material.as_str()) {
        Ok(s) => s,
        Err(_) => {
            assert(drawable_chain(before, id, *scene, None, s1, o1, s2, o2, ok));
            return None;
        },
    };
    let o3 = load_asset(scene, shader_type, shader.as_str());
    let r = match o3 {
        Err(_) => None,
        Ok(_) => Some((model, material, shader)),
    };
    assert(drawable_chain(before, id, *scene, r, s1, o1, s2, o2, o3));
    r
}

} // verus!
