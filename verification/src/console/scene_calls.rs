//! Calls into the scene runtime and the few other outside functions the
//! console needs. Every function marked `external_body` here is trusted: its
//! body is the call, and its contract says what the called code's source or
//! documentation shows.
use vstd::prelude::*;
use std::path::PathBuf;
use wasserxr::error::{AssetError, ComponentError, PluginError, SceneError};
use wasserxr::scene::logging::LogLevel;
use wasserxr::scene::Scene;
use wasserxr::Uuid;

verus! {

#[verifier::external_type_specification]
pub struct ExPluginError(PluginError);

#[verifier::external_type_specification]
pub struct ExComponentError(ComponentError);

#[verifier::external_type_specification]
pub struct ExAssetError(AssetError);

#[verifier::external_type_specification]
pub struct ExSceneError(SceneError);

#[verifier::external_type_specification]
pub struct ExLogLevel(LogLevel);

#[verifier::external_type_specification]
#[verifier::external_body]
pub struct ExScene(Scene);

#[verifier::external_type_specification]
#[verifier::external_body]
pub struct ExPathBuf(PathBuf);

/// The texts of a sequence of strings.
pub open spec fn text_views(v: Seq<String>) -> Seq<Seq<char>> {
    v.map_values(|s: String| s@)
}

/// The ids of the scene's entities, in the order `Scene::get_entities`
/// returns them.
pub uninterp spec fn scene_entity_ids(scene: Scene) -> Seq<u128>;

/// For every entity that carries components, the ids of its components in
/// the order `Scene::get_entity_components` returns them.
pub uninterp spec fn scene_component_ids(scene: Scene) -> Map<u128, Seq<Seq<char>>>;

/// For every component of every entity, its field ids in the order
/// `Scene::get_component_fields` returns them.
pub uninterp spec fn scene_field_ids(scene: Scene) -> Map<(u128, Seq<char>), Seq<Seq<char>>>;

/// The ids of the dynamically loaded plugins, in the order
/// `Scene::get_plugins` returns them.
pub uninterp spec fn scene_plugin_ids(scene: Scene) -> Seq<Seq<char>>;

/// The ids of the scene's systems, in the order `Scene::get_systems` returns
/// them.
pub uninterp spec fn scene_system_ids(scene: Scene) -> Seq<Seq<char>>;

/// The name of every entity, as `Scene::get_entity_name` returns it.
pub uninterp spec fn scene_entity_names(scene: Scene) -> Map<u128, Seq<char>>;

/// Whether the scene was asked to stop, so that its next `Scene::tick`
/// returns `false`.
pub uninterp spec fn scene_exit_requested(scene: Scene) -> bool;

/// The lowercase hex digit of a value below 16.
pub open spec fn hex_digit(d: int) -> char {
    if d < 10 {
        (('0' as int) + d) as char
    } else {
        (('a' as int) + d - 10) as char
    }
}

/// The `k`-th of the 32 hex digits of `id`, most significant first.
pub open spec fn id_nibble(id: u128, k: int) -> int {
    ((id >> ((4 * (31 - k)) as u128)) & 0xf) as int
}

/// The text `Uuid`'s `Display` gives for the id with this 128-bit value:
/// its 32 lowercase hex digits, most significant first, in groups of 8, 4,
/// 4, 4 and 12 joined by hyphens.
pub open spec fn uuid_text(id: u128) -> Seq<char> {
    Seq::new(
        36,
        |i: int|
            if i == 8 || i == 13 || i == 18 || i == 23 {
                '-'
            } else {
                let hyphens: int = if i < 8 {
                    0
                } else if i < 13 {
                    1
                } else if i < 18 {
                    2
                } else if i < 23 {
                    3
                } else {
                    4
                };
                hex_digit(id_nibble(id, i - hyphens))
            },
    )
}

/// What `Scene::get_entity_components` answers for an entity.
pub open spec fn components_reply(scene: Scene, id: u128) -> Result<Seq<Seq<char>>, SceneError> {
    if scene_component_ids(scene).dom().contains(id) {
        Ok(scene_component_ids(scene)[id])
    } else {
        Err(SceneError::EntityNotFound)
    }
}

/// What `Scene::get_component_fields` answers for a component of an entity.
pub open spec fn fields_reply(scene: Scene, id: u128, component_id: Seq<char>) -> Result<
    Seq<Seq<char>>,
    SceneError,
> {
    if !scene_component_ids(scene).dom().contains(id) {
        Err(SceneError::EntityNotFound)
    } else if !scene_field_ids(scene).dom().contains((id, component_id)) {
        Err(SceneError::ComponentNotFound)
    } else {
        Ok(scene_field_ids(scene)[(id, component_id)])
    }
}

/// Calls `Scene::get_entities`: the ids of the entities (the sorted keys of
/// the scene's entity table, so none twice), each as its 128-bit value.
#[verifier::external_body]
pub(crate) fn entity_ids(scene: &Scene) -> (r: Vec<u128>)
    ensures
        r@ == scene_entity_ids(*scene),
        r@.no_duplicates(),
{
    scene.get_entities().into_iter().map(|id| id.as_u128()).collect()
}

/// Calls `Scene::get_entity_components`: the component ids of an entity that
/// carries components, and `EntityNotFound` otherwise.
#[verifier::external_body]
pub(crate) fn entity_components(scene: &Scene, id: u128) -> (r: Result<Vec<String>, SceneError>)
    ensures
        match r {
            Ok(v) => scene_component_ids(*scene).dom().contains(id) && text_views(v@)
                == scene_component_ids(*scene)[id],
            Err(e) => !scene_component_ids(*scene).dom().contains(id) && e
                == SceneError::EntityNotFound,
        },
{
    scene.get_entity_components(Uuid::from_u128(id))
}

/// Calls `Scene::get_component_fields`: the field ids of a component,
/// `EntityNotFound` for an entity without components and `ComponentNotFound`
/// for a component the entity does not have.
#[verifier::external_body]
pub(crate) fn component_fields(scene: &Scene, id: u128, component_id: &str) -> (r: Result<
    Vec<String>,
    SceneError,
>)
    ensures
        match r {
            Ok(v) => scene_component_ids(*scene).dom().contains(id) && scene_field_ids(
                *scene,
            ).dom().contains((id, component_id@)) && text_views(v@) == scene_field_ids(*scene)[(
            id,
            component_id@,
            )],
            Err(e) => (!scene_component_ids(*scene).dom().contains(id) && e
                == SceneError::EntityNotFound) || (scene_component_ids(*scene).dom().contains(id)
                && !scene_field_ids(*scene).dom().contains((id, component_id@)) && e
                == SceneError::ComponentNotFound),
        },
{
    scene.get_component_fields(Uuid::from_u128(id), component_id)
}

/// What `Scene::is_component_field_mutable` answers for a field of a
/// component of an entity: a lookup in the component's schema.
pub uninterp spec fn scene_field_mutable(
    scene: Scene,
    id: u128,
    component_id: Seq<char>,
    field_id: Seq<char>,
) -> Result<bool, SceneError>;

/// What `Scene::is_component_field_string_parsable` answers for a field of a
/// component of an entity: a lookup in the component's schema.
pub uninterp spec fn scene_field_parsable(
    scene: Scene,
    id: u128,
    component_id: Seq<char>,
    field_id: Seq<char>,
) -> Result<bool, SceneError>;

/// Calls `Scene::is_component_field_mutable`, whose answer is read from the
/// scene alone.
#[verifier::external_body]
pub(crate) fn field_is_mutable(scene: &Scene, id: u128, component_id: &str, field_id: &str) -> (r: Result<
    bool,
    SceneError,
>)
    ensures
        r == scene_field_mutable(*scene, id, component_id@, field_id@),
{
    scene.is_component_field_mutable(Uuid::from_u128(id), component_id, field_id)
}

/// Calls `Scene::is_component_field_string_parsable`, whose answer is read
/// from the scene alone.
#[verifier::external_body]
pub(crate) fn field_is_string_parsable(
    scene: &Scene,
    id: u128,
    component_id: &str,
    field_id: &str,
) -> (r: Result<bool, SceneError>)
    ensures
        r == scene_field_parsable(*scene, id, component_id@, field_id@),
{
    scene.is_component_field_string_parsable(Uuid::from_u128(id), component_id, field_id)
}

/// What `Scene::render_field` answers for a field of a component of an
/// entity: the field's current value formatted as text, or why not.
pub uninterp spec fn scene_rendered_field(
    scene: Scene,
    id: u128,
    component_id: Seq<char>,
    field_id: Seq<char>,
) -> Result<Seq<char>, SceneError>;

/// Calls `Scene::render_field`, which formats the field's current value. For
/// a field that can be parsed from text (so not a `Blob`, the one kind whose
/// rendering shows an address) the answer is read from the scene alone.
#[verifier::external_body]
pub(crate) fn render_field(scene: &Scene, id: u128, component_id: &str, field_id: &str) -> (r: Result<
    String,
    SceneError,
>)
    ensures
        match r {
            Ok(s) => scene_field_parsable(*scene, id, component_id@, field_id@) == Ok::<bool, SceneError>(
                true,
            ) ==> scene_rendered_field(*scene, id, component_id@, field_id@) == Ok::<
                Seq<char>,
                SceneError,
            >(s@),
            Err(e) => scene_field_parsable(*scene, id, component_id@, field_id@) == Ok::<bool, SceneError>(
                true,
            ) ==> scene_rendered_field(*scene, id, component_id@, field_id@) == Err::<
                Seq<char>,
                SceneError,
            >(e),
        },
{
    scene.render_field(Uuid::from_u128(id), component_id, field_id)
}

/// Calls `Scene::get_plugins`: the ids of the dynamically loaded plugins.
#[verifier::external_body]
pub(crate) fn plugin_ids(scene: &Scene) -> (r: Vec<String>)
    ensures
        text_views(r@) == scene_plugin_ids(*scene),
{
    scene.get_plugins()
}

/// Calls `Scene::get_systems`: the ids of the scene's systems.
#[verifier::external_body]
pub(crate) fn system_ids(scene: &Scene) -> (r: Vec<String>)
    ensures
        text_views(r@) == scene_system_ids(*scene),
{
    scene.get_systems()
}

/// `after` and `reply` are what one call of `Scene::reload` on `before` left
/// and answered. The reload re-reads the plugins from disk, so nothing more
/// is stated of them: this records which call was made.
pub uninterp spec fn reload_outcome(before: Scene, after: Scene, reply: Result<(), SceneError>) -> bool;

/// `after` and `reply` are what one call of `Scene::unload_plugin` with this
/// plugin id on `before` left and answered; inside a running system the
/// unload is deferred, so nothing more is stated of them.
pub uninterp spec fn unload_outcome(
    before: Scene,
    plugin_id: Seq<char>,
    after: Scene,
    reply: Result<(), SceneError>,
) -> bool;

/// `after` and `reply` are what one call of `Scene::remove_system` with this
/// system id on `before` left and answered; inside a running system the
/// removal is deferred, so nothing more is stated of them.
pub uninterp spec fn system_removal_outcome(
    before: Scene,
    system_id: Seq<char>,
    after: Scene,
    reply: Result<(), SceneError>,
) -> bool;

/// `after` and `reply` are what one call of `Scene::load_plugin` with this
/// path on `before` left and answered; the library is read from disk, so
/// nothing more is stated of them.
pub uninterp spec fn plugin_load_outcome(
    before: Scene,
    path: Seq<char>,
    after: Scene,
    reply: Result<(), SceneError>,
) -> bool;

/// `reply` is what one call of `Scene::save` with this path on `scene`
/// answered; it writes to disk, so nothing more is stated of it.
pub uninterp spec fn save_outcome(scene: Scene, path: Seq<char>, reply: Result<(), SceneError>) -> bool;

/// `after` and `reply` are what one call of `Scene::load` with this path on
/// `before` left and answered; the file is read from disk, so nothing more
/// is stated of them.
pub uninterp spec fn scene_load_outcome(
    before: Scene,
    path: PathBuf,
    after: Scene,
    reply: Result<(), SceneError>,
) -> bool;

/// `found` is what one call of `get_asset_path` with this text answered; it
/// depends on which files exist, so nothing more is stated of it: this
/// records which text was looked up.
pub uninterp spec fn asset_lookup(text: Seq<char>, found: Option<PathBuf>) -> bool;

/// The text `Path::to_string_lossy` gives for a path: a function of the
/// path's bytes.
pub uninterp spec fn path_lossy_text(path: PathBuf) -> Seq<char>;

/// `after` and `reply` are what one call of `Scene::add_system` with this id
/// and priority on `before` left and answered; the system is looked up in
/// the loaded plugins, so nothing more is stated of them.
pub uninterp spec fn system_add_outcome(
    before: Scene,
    system_id: Seq<char>,
    priority: usize,
    after: Scene,
    reply: Result<(), SceneError>,
) -> bool;

/// `after` and `reply` are what one call of `Scene::add_component` with this
/// entity and component id on `before` left and answered; the component is
/// made by plugin code, so nothing more is stated of them than
/// `add_component` states.
pub uninterp spec fn component_add_outcome(
    before: Scene,
    id: u128,
    component_id: Seq<char>,
    after: Scene,
    reply: Result<(), SceneError>,
) -> bool;

/// `after` and `reply` are what one call of `Scene::parse_field` with these
/// arguments on `before` left and answered; the component's own parser runs,
/// so nothing more is stated of them.
pub uninterp spec fn field_parse_outcome(
    before: Scene,
    id: u128,
    component_id: Seq<char>,
    field_id: Seq<char>,
    input: Seq<char>,
    after: Scene,
    reply: Result<(), SceneError>,
) -> bool;

/// Removing entity `id` from `before` gave `after` and `reply`: the entity
/// leaves the entity list and takes its components along, or, when it was
/// not there, the reply is `EntityNotFound` and the lists stay.
pub open spec fn entity_removed(before: Scene, id: u128, after: Scene, reply: Result<(), SceneError>) -> bool {
    &&& scene_entity_ids(after) == scene_entity_ids(before).filter(|x: u128| x != id)
    &&& match reply {
        Ok(_) => scene_entity_ids(before).contains(id) && scene_component_ids(after)
            == scene_component_ids(before).remove(id),
        Err(e) => !scene_entity_ids(before).contains(id) && e == SceneError::EntityNotFound
            && scene_component_ids(after) == scene_component_ids(before),
    }
}

/// Adding entity `id` to `before` gave `after`: the id joins the entity
/// list, with no components yet.
pub open spec fn entity_added(before: Scene, after: Scene, id: u128) -> bool {
    &&& scene_entity_ids(after).contains(id)
    &&& scene_entity_ids(after).to_set() == scene_entity_ids(before).to_set().insert(id)
    &&& scene_component_ids(after) == scene_component_ids(before).insert(id, Seq::empty())
}

/// Naming entity `id` of `before` gave `after` and `reply`: an entity in the
/// list gets the name, any other id is answered `EntityNotFound`; the lists
/// stay as they were.
pub open spec fn entity_renamed(
    before: Scene,
    id: u128,
    name: Seq<char>,
    after: Scene,
    reply: Result<(), SceneError>,
) -> bool {
    &&& scene_entity_ids(after) == scene_entity_ids(before)
    &&& scene_component_ids(after) == scene_component_ids(before)
    &&& match reply {
        Ok(_) => scene_entity_ids(before).contains(id) && scene_entity_names(after)
            == scene_entity_names(before).insert(id, name),
        Err(e) => !scene_entity_ids(before).contains(id) && e == SceneError::EntityNotFound
            && scene_entity_names(after) == scene_entity_names(before),
    }
}

/// Removing component `component_id` from entity `id` of `before` gave
/// `after` and `reply`: the component leaves the entity's list, or the reply
/// names why not and the lists stay.
pub open spec fn component_removed(
    before: Scene,
    id: u128,
    component_id: Seq<char>,
    after: Scene,
    reply: Result<(), SceneError>,
) -> bool {
    &&& scene_entity_ids(after) == scene_entity_ids(before)
    &&& match reply {
        Ok(_) => components_reply(before, id) matches Ok(c) && c.contains(component_id)
            && scene_component_ids(after) == scene_component_ids(before).insert(
            id,
            c.filter(|x: Seq<char>| x != component_id),
        ),
        Err(e) => scene_component_ids(after) == scene_component_ids(before) && ((
        components_reply(before, id) is Err && e == SceneError::EntityNotFound) || (components_reply(
            before,
            id,
        ) matches Ok(c) && !c.contains(component_id) && e == SceneError::ComponentAlreadyExists)),
    }
}

/// `after` has the same entities, components, names, component fields,
/// plugins and systems as `before`.
pub open spec fn lists_kept(before: Scene, after: Scene) -> bool {
    &&& scene_entity_ids(after) == scene_entity_ids(before)
    &&& scene_component_ids(after) == scene_component_ids(before)
    &&& scene_entity_names(after) == scene_entity_names(before)
    &&& scene_field_ids(after) == scene_field_ids(before)
    &&& scene_plugin_ids(after) == scene_plugin_ids(before)
    &&& scene_system_ids(after) == scene_system_ids(before)
    &&& forall|id: u128, c: Seq<char>, f: Seq<char>|
        #[trigger] scene_field_mutable(after, id, c, f) == scene_field_mutable(before, id, c, f)
            && scene_field_parsable(after, id, c, f) == scene_field_parsable(before, id, c, f)
}

/// Asking `before` to stop gave `after`: the stop flag is set and every list
/// the scene answers with stays as it was.
pub open spec fn exit_requested(before: Scene, after: Scene) -> bool {
    &&& scene_exit_requested(after)
    &&& lists_kept(before, after)
}

/// Calls `Scene::reload`, which re-reads the plugins from disk.
#[verifier::external_body]
pub(crate) fn reload(scene: &mut Scene) -> (r: Result<(), SceneError>)
    ensures
        reload_outcome(*old(scene), *final(scene), r),
{
    scene.reload()
}

/// Calls `Scene::should_exit`, which sets the flag that makes the next tick
/// the last and touches nothing else.
#[verifier::external_body]
pub(crate) fn request_exit(scene: &mut Scene)
    ensures
        exit_requested(*old(scene), *final(scene)),
        scene_exit_requested(*final(scene)),
{
    scene.should_exit()
}

/// Calls `Scene::remove_entity`, which takes the entity out of the entity
/// table and its components with it, and fails with `EntityNotFound`,
/// changing neither, when the entity is not there.
#[verifier::external_body]
pub(crate) fn remove_entity(scene: &mut Scene, id: u128) -> (r: Result<(), SceneError>)
    ensures
        entity_removed(*old(scene), id, *final(scene), r),
{
    scene.remove_entity(Uuid::from_u128(id))
}

/// Calls `Scene::remove_component`, which fails with `EntityNotFound` for an
/// entity without components and with `ComponentAlreadyExists` (sic) for a
/// component the entity does not have, and otherwise takes the component
/// out of the entity's component table.
#[verifier::external_body]
pub(crate) fn remove_component(scene: &mut Scene, id: u128, component_id: &str) -> (r: Result<
    (),
    SceneError,
>)
    ensures
        component_removed(*old(scene), id, component_id@, *final(scene), r),
{
    scene.remove_component(Uuid::from_u128(id), component_id)
}

/// Calls `Scene::unload_plugin`. Inside a running system the unload is
/// deferred and the answer is `Ok`; else the empty id (the static plugin) is
/// refused with `StaticPluginUnload` and an id that is not loaded with
/// `PluginNotFound`, both leaving the scene's lists as they were.
#[verifier::external_body]
pub(crate) fn unload_plugin(scene: &mut Scene, plugin_id: &str) -> (r: Result<(), SceneError>)
    ensures
        unload_outcome(*old(scene), plugin_id@, *final(scene), r),
        plugin_id@.len() == 0 ==> (r is Ok || r matches Err(SceneError::StaticPluginUnload)),
        match r {
            Ok(_) => true,
            Err(e) => (e == SceneError::StaticPluginUnload ==> plugin_id@.len() == 0 && lists_kept(
                *old(scene),
                *final(scene),
            )) && (e == SceneError::PluginNotFound ==> !scene_plugin_ids(*old(scene)).contains(plugin_id@)
                && lists_kept(*old(scene), *final(scene))),
        },
{
    scene.unload_plugin(plugin_id)
}

/// Calls `Scene::remove_system`. Inside a running system the removal is
/// deferred and the answer is `Ok`; else the one failure is `SystemNotFound`,
/// for an id that is not listed, leaving the scene's lists as they were.
#[verifier::external_body]
pub(crate) fn remove_system(scene: &mut Scene, system_id: &str) -> (r: Result<(), SceneError>)
    ensures
        system_removal_outcome(*old(scene), system_id@, *final(scene), r),
        match r {
            Ok(_) => true,
            Err(e) => e == SceneError::SystemNotFound && !scene_system_ids(*old(scene)).contains(system_id@)
                && lists_kept(*old(scene), *final(scene)),
        },
{
    scene.remove_system(system_id)
}

/// Calls `Scene::set_entity_name`, which fails with `EntityNotFound` exactly
/// when the entity is not in the scene and otherwise replaces its name.
#[verifier::external_body]
pub(crate) fn set_entity_name(scene: &mut Scene, id: u128, name: String) -> (r: Result<(), SceneError>)
    ensures
        entity_renamed(*old(scene), id, name@, *final(scene), r),
        r is Ok ==> scene_entity_names(*final(scene)) == scene_entity_names(*old(scene)).insert(
            id,
            name@,
        ),
{
    scene.set_entity_name(Uuid::from_u128(id), name)
}

/// Calls `Scene::add_entity`, which puts a new entity with a random id and
/// an empty component table into the scene: the id is not stated, only that
/// the scene then holds it.
#[verifier::external_body]
pub(crate) fn add_entity(scene: &mut Scene) -> (r: u128)
    ensures
        entity_added(*old(scene), *final(scene), r),
{
    scene.add_entity().as_u128()
}

/// Calls `Scene::load_plugin`, which loads a library from disk.
#[verifier::external_body]
pub(crate) fn load_plugin(scene: &mut Scene, path: String) -> (r: Result<(), SceneError>)
    ensures
        plugin_load_outcome(*old(scene), path@, *final(scene), r),
{
    scene.load_plugin(path)
}

/// Calls `Scene::save`, which writes to disk.
#[verifier::external_body]
pub(crate) fn save_scene(scene: &Scene, path: &str) -> (r: Result<(), SceneError>)
    ensures
        save_outcome(*scene, path@, r),
{
    scene.save(path)
}

/// Calls `Scene::load`, which reads from disk.
#[verifier::external_body]
pub(crate) fn load_scene(scene: &mut Scene, path: &PathBuf) -> (r: Result<(), SceneError>)
    ensures
        scene_load_outcome(*old(scene), *path, *final(scene), r),
{
    scene.load(path)
}

/// Calls `Scene::add_system`, which looks the system up in the loaded
/// plugins.
#[verifier::external_body]
pub(crate) fn add_system(scene: &mut Scene, system_id: String, priority: usize) -> (r: Result<
    (),
    SceneError,
>)
    ensures
        system_add_outcome(*old(scene), system_id@, priority, *final(scene), r),
{
    scene.add_system(system_id, priority)
}

/// Calls `Scene::add_component`, which looks the component up in the loaded
/// plugins and, when it is made, puts it into the entity's component table.
#[verifier::external_body]
pub(crate) fn add_component(scene: &mut Scene, id: u128, component_id: String) -> (r: Result<
    (),
    SceneError,
>)
    ensures
        component_add_outcome(*old(scene), id, component_id@, *final(scene), r),
        r is Ok ==> (components_reply(*final(scene), id) matches Ok(c) && c.contains(component_id@)),
{
    scene.add_component(Uuid::from_u128(id), component_id)
}

/// Calls `Scene::parse_field`, which runs the component's own field parser
/// on that component's data alone: the scene's lists stay as they were.
#[verifier::external_body]
pub(crate) fn parse_field(
    scene: &mut Scene,
    id: u128,
    component_id: &str,
    field_id: &str,
    input: &str,
) -> (r: Result<(), SceneError>)
    ensures
        field_parse_outcome(*old(scene), id, component_id@, field_id@, input@, *final(scene), r),
        lists_kept(*old(scene), *final(scene)),
{
    scene.parse_field(Uuid::from_u128(id), component_id, field_id, input)
}

/// Calls `wasserxr::utils::paths::get_asset_path`, which looks for an existing
/// file next to the executable or in the working directory; what it finds
/// depends on the disk, so only the text it was asked about is stated.
#[verifier::external_body]
pub(crate) fn asset_path(text: &str) -> (r: Option<PathBuf>)
    ensures
        asset_lookup(text@, r),
{
    wasserxr::utils::paths::get_asset_path(text)
}

/// Calls `Path::to_string_lossy` on a path and takes the text.
#[verifier::external_body]
pub(crate) fn path_text(path: &PathBuf) -> (r: String)
    ensures
        r@ == path_lossy_text(*path),
{
    path.to_string_lossy().into_owned()
}

/// Calls `Uuid::from_u128` and `Uuid`'s `Display`: the id's bytes in
/// big-endian order, written as hyphenated lowercase hex.
#[verifier::external_body]
pub(crate) fn entity_id_text(id: u128) -> (r: String)
    ensures
        r@ == uuid_text(id),
{
    Uuid::from_u128(id).to_string()
}

/// Calls `Scene::iter_logs` and `LogEntry`'s `Display`: each stored log entry
/// with its level and its text. The text holds the local time of the entry,
/// so nothing is stated of it.
#[verifier::external_body]
pub(crate) fn log_entries(scene: &Scene) -> (r: Vec<(LogLevel, String)>) {
    scene.iter_logs().map(|entry| (entry.get_level(), entry.to_string())).collect()
}

/// Calls `FromIterator<char>` for `String`: the string of these characters.
#[verifier::external_body]
pub(crate) fn string_of(chars: &[char]) -> (r: String)
    ensures
        r@ == chars@,
{
    chars.iter().collect()
}

/// The characters of a string.
pub fn chars_of(s: &str) -> (r: Vec<char>)
    ensures
        r@ == s@,
{
    let n = s.unicode_len();
    let mut r: Vec<char> = Vec::new();
    let mut i: usize = 0;
    while i < n
        invariant
            n == s@.len(),
            i <= n,
            r@ == s@.subrange(0, i as int),
        decreases n - i,
    {
        r.push(s.get_char(i));
        i = i + 1;
    }
    assert(s@.subrange(0, n as int) =~= s@);
    r
}

} // verus!
