//! The scene console's state machine: which screen a key press leads to.
//!
//! `next_screen` states the rule as mathematics, over the answers the scene
//! gave (`SceneReplies`). `transition` asks the scene exactly what the rule
//! needs and is proved to follow it.
use vstd::prelude::*;
use wasserxr::error::SceneError;
use wasserxr::scene::logging::LogLevel;
use wasserxr::scene::Scene;
use std::path::PathBuf;
use crate::console::failure::{scene_error_message, scene_failure_text};
use crate::console::keys::Key;
use crate::console::layout::{can_draw_console, log_area_rect, Rect};
use crate::console::navigation::{
    add_no_loop,
    add_with_loop,
    clamp_log_scroll,
    index_add_no_loop,
    index_add_with_loop,
    index_sub_no_loop,
    index_sub_with_loop,
    level_down,
    level_up,
    log_level_add,
    log_level_sub,
    log_scroll_limit,
    max_log_scroll,
    sub_no_loop,
    sub_with_loop,
};
use crate::console::scene_calls::{
    add_component,
    add_entity,
    add_system,
    asset_path,
    chars_of,
    component_fields,
    entity_components,
    entity_id_text,
    entity_ids,
    field_is_mutable,
    field_is_string_parsable,
    load_plugin,
    load_scene,
    parse_field,
    path_text,
    plugin_ids,
    reload,
    remove_component,
    remove_entity,
    remove_system,
    render_field,
    request_exit,
    save_scene,
    set_entity_name,
    string_of,
    system_ids,
    unload_plugin,
    components_reply,
    fields_reply,
    scene_entity_ids,
    scene_component_ids,
    scene_field_ids,
    scene_plugin_ids,
    scene_system_ids,
    scene_field_mutable,
    scene_field_parsable,
    scene_rendered_field,
    text_views,
    uuid_text,
    component_add_outcome,
    component_removed,
    entity_added,
    entity_removed,
    entity_renamed,
    exit_requested,
    field_parse_outcome,
    plugin_load_outcome,
    asset_lookup,
    path_lossy_text,
    reload_outcome,
    save_outcome,
    scene_load_outcome,
    system_add_outcome,
    system_removal_outcome,
    unload_outcome,
};
use crate::console::screen::{
    ErrorScreen,
    PromptSubmit,
    PromptView,
    Screen,
    ScreenView,
    SubmitView,
    TextPrompt,
    prompt_wf,
    screen_view,
    screen_wf,
    submit_wf,
};
use crate::console::state::{
    is_down,
    is_tab_left,
    is_tab_right,
    is_up,
    key_is_down,
    key_is_tab_left,
    key_is_tab_right,
    key_is_up,
};
use crate::console::logs::{display_lines, log_display_line_count};
use crate::utils::decimal::{lemma_parse_decimal_bound, parse_decimal, parse_decimal_chars};
use crate::utils::text::{concat, concat3};

verus! {

/// Layout facts the key handling needs: the height of the log view and the
/// width the log wraps at.
#[derive(Clone, Copy, Debug, PartialEq, Eq, Structural)]
pub struct InputContext {
    pub visible_log_lines: u16,
    pub log_area_width: u16,
}

impl InputContext {
    /// The log view's size when the console fills `area`; a terminal too
    /// small to draw in gives an empty view.
    pub fn new(area: Rect) -> (r: InputContext)
        ensures
            !(area.width >= 2 && area.height >= 2) ==> r.visible_log_lines == 0
                && r.log_area_width == 0,
            (area.width >= 2 && area.height >= 2) ==> r.visible_log_lines == log_area_rect_spec_height(area)
                && r.log_area_width == log_area_rect_spec_width(area),
    {
        if can_draw_console(area) {
            let log_area = log_area_rect(area);
            InputContext { visible_log_lines: log_area.height, log_area_width: log_area.width }
        } else {
            InputContext { visible_log_lines: 0, log_area_width: 0 }
        }
    }
}

/// Height of the log view inside a console that fills `area`.
pub open spec fn log_area_rect_spec_height(area: Rect) -> int {
    let main = crate::console::layout::inside_border(area);
    let body = crate::console::layout::sat_sub(main.height as int, crate::console::layout::min_of(main.height as int, 1));
    let content = crate::console::layout::sat_sub(body, crate::console::layout::min_of(body, 1));
    crate::console::layout::sat_sub(content, crate::console::layout::min_of(content, 1))
}

/// Width of the log view inside a console that fills `area`.
pub open spec fn log_area_rect_spec_width(area: Rect) -> int {
    crate::console::layout::inside_border(area).width as int
}

/// Everything the scene answered while one key was handled: the lists it
/// was asked for, the result of the one operation that changed it, the id of
/// a new entity, and whether a typed path named an existing file.
pub struct SceneReplies {
    pub entities: Seq<u128>,
    pub components: Result<Seq<Seq<char>>, SceneError>,
    pub fields: Result<Seq<Seq<char>>, SceneError>,
    pub field_mutable: Result<bool, SceneError>,
    pub field_parsable: Result<bool, SceneError>,
    pub rendered: Result<Seq<char>, SceneError>,
    pub plugins: Seq<Seq<char>>,
    pub systems: Seq<Seq<char>>,
    pub log_lines: usize,
    pub outcome: Result<(), SceneError>,
    pub new_entity: u128,
    pub found: Option<PathBuf>,
}

/// The replies agree with what the scene holds for what a screen reads: the
/// entity list, entity screens and prompts read the entities, an entity
/// screen its
/// components, a component screen its fields and the schema of the field
/// under the cursor, the plugin and system lists their lists, and the log
/// view counts the display lines of some log at the view's width.
pub open spec fn replies_agree(rep: SceneReplies, scene: Scene, state: ScreenView, ctx: InputContext) -> bool {
    match state {
        ScreenView::EntityList(_) => rep.entities == scene_entity_ids(scene),
        ScreenView::EntityDetails(id, _) => rep.entities == scene_entity_ids(scene)
            && rep.components == components_reply(scene, id),
        ScreenView::ComponentDetails { entity_id, component_id, field_index, .. } => {
            &&& rep.fields == fields_reply(scene, entity_id, component_id)
            &&& match rep.fields {
                Ok(fs) => field_index < fs.len() ==> rep.field_mutable == scene_field_mutable(
                    scene,
                    entity_id,
                    component_id,
                    fs[field_index as int],
                ) && rep.field_parsable == scene_field_parsable(
                    scene,
                    entity_id,
                    component_id,
                    fs[field_index as int],
                ) && (rep.field_mutable == Ok::<bool, SceneError>(true) && rep.field_parsable == Ok::<
                    bool,
                    SceneError,
                >(true) ==> rep.rendered == scene_rendered_field(
                    scene,
                    entity_id,
                    component_id,
                    fs[field_index as int],
                )),
                Err(_) => true,
            }
        },
        ScreenView::PluginList(_) => rep.plugins == scene_plugin_ids(scene),
        ScreenView::SystemList { .. } => rep.systems == scene_system_ids(scene),
        ScreenView::LogList { level, .. } => exists|entries: Seq<(LogLevel, Seq<char>)>|
            rep.log_lines == #[trigger] display_lines(entries, level, ctx.log_area_width as int).len(),
        ScreenView::Prompt(p) => rep.entities == scene_entity_ids(scene),
        _ => true,
    }
}

/// The error screen for a failure, returning to `back`.
pub open spec fn error_view(e: SceneError, back: ScreenView) -> ScreenView {
    ScreenView::Error { message: scene_failure_text(e), on_close: Box::new(back) }
}

/// `ok` after a successful operation, the error screen returning to `back`
/// after a failed one.
pub open spec fn outcome_view(outcome: Result<(), SceneError>, ok: ScreenView, back: ScreenView) -> ScreenView {
    match outcome {
        Ok(_) => ok,
        Err(e) => error_view(e, back),
    }
}

/// An empty prompt.
pub open spec fn blank_prompt(title: Seq<char>, submit: SubmitView, cancel: ScreenView) -> ScreenView {
    ScreenView::Prompt(
        PromptView {
            title,
            text: Seq::empty(),
            offset: 0,
            on_submit: submit,
            on_cancel: Box::new(cancel),
        },
    )
}

/// The prompt asking where to save the scene; both finishing and cancelling
/// return to `on_done`.
pub open spec fn save_prompt(on_done: ScreenView) -> ScreenView {
    blank_prompt("Save Scene Path"@, SubmitView::SaveScene(Box::new(on_done)), on_done)
}

/// The prompt asking which scene file to import; both finishing and
/// cancelling return to `on_done`.
pub open spec fn import_prompt(on_done: ScreenView) -> ScreenView {
    blank_prompt("Import Scene Path"@, SubmitView::ImportScene(Box::new(on_done)), on_done)
}

/// The cursor after the entry under it was deleted from a list of `len`
/// entries: it stays, unless it would fall past the new last entry.
pub open spec fn after_delete(index: int, len: int) -> int {
    let last = if len >= 2 { len - 2 } else { 0 };
    if index <= last { index } else { last }
}

/// Where `x` first occurs in `s`.
pub open spec fn position_of(s: Seq<u128>, x: u128) -> Option<int>
    decreases s.len(),
{
    if s.len() == 0 {
        None
    } else if s[0] == x {
        Some(0)
    } else {
        match position_of(s.drop_first(), x) {
            Some(i) => Some(i + 1),
            None => None,
        }
    }
}

/// Keys on the entity list.
pub open spec fn entity_list_next(index: usize, input: Key, r: SceneReplies) -> ScreenView {
    let here = ScreenView::EntityList(index);
    let n = r.entities.len() as int;
    if input == Key::Char('r') {
        outcome_view(r.outcome, here, here)
    } else if input == Key::Char('q') {
        here
    } else if is_tab_left(input) {
        ScreenView::LogList { level: LogLevel::DEBUG, scroll: 0, follow: true }
    } else if is_tab_right(input) {
        ScreenView::PluginList(0)
    } else if is_down(input) {
        ScreenView::EntityList(add_with_loop(index as int, n) as usize)
    } else if is_up(input) {
        ScreenView::EntityList(sub_with_loop(index as int, n) as usize)
    } else if input == Key::Enter {
        if index < n {
            ScreenView::EntityDetails(r.entities[index as int], 0)
        } else {
            here
        }
    } else if input == Key::Char('a') {
        blank_prompt("New Entity Name"@, SubmitView::CreateEntity, here)
    } else if input == Key::Char('s') {
        save_prompt(here)
    } else if input == Key::Char('i') {
        import_prompt(here)
    } else if input == Key::Char('D') {
        if n > 0 && index < n {
            ScreenView::EntityList(after_delete(index as int, n) as usize)
        } else {
            here
        }
    } else {
        here
    }
}

/// Keys on an entity's detail screen.
pub open spec fn entity_details_next(id: u128, ci: usize, input: Key, r: SceneReplies) -> ScreenView {
    let here = ScreenView::EntityDetails(id, ci);
    if input == Key::Esc {
        match position_of(r.entities, id) {
            Some(p) => ScreenView::EntityList(p as usize),
            None => ScreenView::EntityList(0),
        }
    } else if is_down(input) {
        match r.components {
            Ok(cs) => ScreenView::EntityDetails(id, add_with_loop(ci as int, cs.len() as int) as usize),
            Err(_) => here,
        }
    } else if is_up(input) {
        match r.components {
            Ok(cs) => ScreenView::EntityDetails(id, sub_with_loop(ci as int, cs.len() as int) as usize),
            Err(_) => here,
        }
    } else if input == Key::Char('r') {
        blank_prompt("Rename Entity: "@ + uuid_text(id), SubmitView::RenameEntity(id), ScreenView::EntityDetails(id, 0))
    } else if input == Key::Char('a') {
        blank_prompt("New Component Name"@, SubmitView::CreateComponent(id), here)
    } else if input == Key::Char('D') {
        match r.components {
            Ok(cs) => if cs.len() > 0 && ci < cs.len() {
                ScreenView::EntityDetails(id, after_delete(ci as int, cs.len() as int) as usize)
            } else {
                here
            },
            Err(e) => error_view(e, here),
        }
    } else if input == Key::Enter {
        match r.components {
            Ok(cs) => if ci < cs.len() {
                ScreenView::ComponentDetails {
                    entity_id: id,
                    component_id: cs[ci as int],
                    component_index: ci,
                    field_index: 0,
                }
            } else {
                here
            },
            Err(_) => here,
        }
    } else {
        here
    }
}

/// Keys on a component's detail screen.
pub open spec fn component_details_next(
    eid: u128,
    cid: Seq<char>,
    ci: usize,
    fi: usize,
    input: Key,
    r: SceneReplies,
) -> ScreenView {
    let here = ScreenView::ComponentDetails {
        entity_id: eid,
        component_id: cid,
        component_index: ci,
        field_index: fi,
    };
    if input == Key::Esc {
        ScreenView::EntityDetails(eid, ci)
    } else if is_down(input) {
        match r.fields {
            Ok(fs) => ScreenView::ComponentDetails {
                entity_id: eid,
                component_id: cid,
                component_index: ci,
                field_index: add_with_loop(fi as int, fs.len() as int) as usize,
            },
            Err(_) => here,
        }
    } else if is_up(input) {
        match r.fields {
            Ok(fs) => ScreenView::ComponentDetails {
                entity_id: eid,
                component_id: cid,
                component_index: ci,
                field_index: sub_with_loop(fi as int, fs.len() as int) as usize,
            },
            Err(_) => here,
        }
    } else if input == Key::Enter {
        match r.fields {
            Ok(fs) => if fi < fs.len() {
                let editable = (r.field_mutable == Ok::<bool, SceneError>(true))
                    && (r.field_parsable == Ok::<bool, SceneError>(true));
                if !editable {
                    here
                } else {
                    match r.rendered {
                        Ok(v) => ScreenView::Prompt(
                            PromptView {
                                title: "Set "@ + cid + "."@ + fs[fi as int],
                                text: v,
                                offset: v.len() as usize,
                                on_submit: SubmitView::SetComponentField {
                                    entity_id: eid,
                                    component_id: cid,
                                    field_id: fs[fi as int],
                                    component_index: ci,
                                    field_index: fi,
                                },
                                on_cancel: Box::new(here),
                            },
                        ),
                        Err(e) => error_view(e, here),
                    }
                }
            } else {
                here
            },
            Err(_) => here,
        }
    } else {
        here
    }
}

/// Keys on the plugin list; its first entry is the built-in static plugin.
pub open spec fn plugin_list_next(index: usize, input: Key, r: SceneReplies) -> ScreenView {
    let here = ScreenView::PluginList(index);
    let n = r.plugins.len() + 1int;
    if input == Key::Char('r') {
        outcome_view(r.outcome, here, here)
    } else if input == Key::Char('q') {
        here
    } else if is_tab_left(input) {
        ScreenView::EntityList(0)
    } else if is_tab_right(input) {
        ScreenView::SystemList { index: 0, error: None }
    } else if is_down(input) {
        ScreenView::PluginList(add_with_loop(index as int, n) as usize)
    } else if is_up(input) {
        ScreenView::PluginList(sub_with_loop(index as int, n) as usize)
    } else if input == Key::Char('a') {
        blank_prompt("Plugin Path"@, SubmitView::CreatePlugin, here)
    } else if input == Key::Char('s') {
        save_prompt(here)
    } else if input == Key::Char('i') {
        import_prompt(here)
    } else if input == Key::Char('D') {
        if index < n {
            outcome_view(r.outcome, ScreenView::PluginList(after_delete(index as int, n) as usize), here)
        } else {
            here
        }
    } else {
        here
    }
}

/// Keys on the system list.
pub open spec fn system_list_next(index: usize, error: Option<Seq<char>>, input: Key, r: SceneReplies) -> ScreenView {
    let here = ScreenView::SystemList { index, error };
    let clean = ScreenView::SystemList { index, error: None };
    let n = r.systems.len() as int;
    if input == Key::Char('r') {
        outcome_view(r.outcome, here, clean)
    } else if input == Key::Char('q') {
        here
    } else if is_tab_left(input) {
        ScreenView::PluginList(0)
    } else if is_tab_right(input) {
        ScreenView::LogList { level: LogLevel::DEBUG, scroll: 0, follow: true }
    } else if is_down(input) {
        ScreenView::SystemList { index: add_with_loop(index as int, n) as usize, error: None }
    } else if is_up(input) {
        ScreenView::SystemList { index: sub_with_loop(index as int, n) as usize, error: None }
    } else if input == Key::Char('a') {
        blank_prompt("System ID"@, SubmitView::CreateSystemId, clean)
    } else if input == Key::Char('s') {
        save_prompt(clean)
    } else if input == Key::Char('i') {
        import_prompt(clean)
    } else if input == Key::Char('D') {
        if index < n {
            outcome_view(
                r.outcome,
                ScreenView::SystemList { index: after_delete(index as int, n) as usize, error: None },
                clean,
            )
        } else {
            here
        }
    } else {
        here
    }
}

/// The scroll offset the log view starts a scroll step from: the bottom when
/// following new entries, else the offset pulled into range.
pub open spec fn scroll_base(scroll: usize, follow: bool, log_lines: int, visible: int) -> int {
    let limit = log_scroll_limit(log_lines, visible);
    if follow {
        limit
    } else if scroll <= limit {
        scroll as int
    } else {
        limit
    }
}

/// Keys on the log view.
pub open spec fn log_list_next(
    level: LogLevel,
    scroll: usize,
    follow: bool,
    input: Key,
    ctx: InputContext,
    r: SceneReplies,
) -> ScreenView {
    let here = ScreenView::LogList { level, scroll, follow };
    let limit = log_scroll_limit(r.log_lines as int, ctx.visible_log_lines as int);
    let base = scroll_base(scroll, follow, r.log_lines as int, ctx.visible_log_lines as int);
    if input == Key::Char('q') {
        here
    } else if input == Key::Char('h') {
        ScreenView::SystemList { index: 0, error: None }
    } else if input == Key::Char('l') {
        ScreenView::EntityList(0)
    } else if input == Key::Left {
        ScreenView::LogList { level: level_down(level), scroll: 0, follow }
    } else if input == Key::Right {
        ScreenView::LogList { level: level_up(level), scroll: 0, follow }
    } else if input == Key::Char('f') {
        ScreenView::LogList { level, scroll, follow: true }
    } else if is_down(input) {
        ScreenView::LogList { level, scroll: add_no_loop(base, limit) as usize, follow: false }
    } else if is_up(input) {
        ScreenView::LogList { level, scroll: sub_no_loop(base) as usize, follow: false }
    } else {
        here
    }
}

/// What submitting a prompt's text leads to.
pub open spec fn submit_next(submit: SubmitView, text: Seq<char>, r: SceneReplies) -> ScreenView {
    match submit {
        SubmitView::RenameEntity(id) => if r.entities.contains(id) {
            ScreenView::EntityDetails(id, 0)
        } else {
            error_view(SceneError::EntityNotFound, ScreenView::EntityDetails(id, 0))
        },
        SubmitView::CreateEntity => ScreenView::EntityDetails(r.new_entity, 0),
        SubmitView::CreatePlugin => if r.found is None {
            ScreenView::Error {
                message: "plugin path `"@ + text + "` was not found"@,
                on_close: Box::new(ScreenView::PluginList(0)),
            }
        } else {
            outcome_view(r.outcome, ScreenView::PluginList(0), ScreenView::PluginList(0))
        },
        SubmitView::SaveScene(on_done) => outcome_view(r.outcome, *on_done, *on_done),
        SubmitView::ImportScene(on_done) => if r.found is None {
            ScreenView::Error {
                message: "scene path `"@ + text + "` was not found"@,
                on_close: on_done,
            }
        } else {
            outcome_view(r.outcome, *on_done, *on_done)
        },
        SubmitView::CreateSystemId => blank_prompt(
            "System Priority"@,
            SubmitView::CreateSystemPriority { system_id: text },
            ScreenView::SystemList { index: 0, error: None },
        ),
        SubmitView::CreateSystemPriority { .. } => match parse_decimal(text, usize::MAX as nat) {
            Ok(_) => outcome_view(
                r.outcome,
                ScreenView::SystemList { index: 0, error: None },
                ScreenView::SystemList { index: 0, error: None },
            ),
            Err(_) => ScreenView::SystemList {
                index: 0,
                error: Some("System priority must be a usize"@),
            },
        },
        SubmitView::CreateComponent(eid) => outcome_view(
            r.outcome,
            ScreenView::ComponentDetails {
                entity_id: eid,
                component_id: text,
                component_index: 0,
                field_index: 0,
            },
            ScreenView::EntityDetails(eid, 0),
        ),
        SubmitView::SetComponentField { entity_id, component_id, component_index, field_index, .. } => {
            let c = ScreenView::ComponentDetails { entity_id, component_id, component_index, field_index };
            outcome_view(r.outcome, c, c)
        },
    }
}

/// Keys in a text prompt: Esc cancels, Backspace deletes the character
/// before the cursor, a character is inserted at the cursor, Left and Right
/// move the cursor within the text, and Enter submits.
pub open spec fn prompt_next(p: PromptView, input: Key, r: SceneReplies) -> ScreenView {
    match input {
        Key::Esc => *p.on_cancel,
        Key::Backspace => if p.offset > 0 {
            ScreenView::Prompt(
                PromptView {
                    text: p.text.remove(p.offset - 1),
                    offset: (p.offset - 1) as usize,
                    ..p
                },
            )
        } else {
            ScreenView::Prompt(p)
        },
        Key::Char(c) => ScreenView::Prompt(
            PromptView { text: p.text.insert(p.offset as int, c), offset: (p.offset + 1) as usize, ..p },
        ),
        Key::Left => ScreenView::Prompt(PromptView { offset: sub_no_loop(p.offset as int) as usize, ..p }),
        Key::Right => ScreenView::Prompt(
            PromptView { offset: add_no_loop(p.offset as int, p.text.len() as int) as usize, ..p },
        ),
        Key::Enter => submit_next(p.on_submit, p.text, r),
        _ => ScreenView::Prompt(p),
    }
}

/// The screen a key press leads to, given what the scene answered.
pub open spec fn next_screen(state: ScreenView, input: Key, ctx: InputContext, r: SceneReplies) -> ScreenView {
    match state {
        ScreenView::EntityList(i) => entity_list_next(i, input, r),
        ScreenView::EntityDetails(id, ci) => entity_details_next(id, ci, input, r),
        ScreenView::ComponentDetails { entity_id, component_id, component_index, field_index } =>
            component_details_next(entity_id, component_id, component_index, field_index, input, r),
        ScreenView::PluginList(i) => plugin_list_next(i, input, r),
        ScreenView::SystemList { index, error } => system_list_next(index, error, input, r),
        ScreenView::LogList { level, scroll, follow } => log_list_next(level, scroll, follow, input, ctx, r),
        ScreenView::Prompt(p) => prompt_next(p, input, r),
        ScreenView::Error { on_close, .. } => if closes_error(input) {
            *on_close
        } else {
            state
        },
    }
}

/// The one operation a key press asks of the scene, with its arguments:
/// keys that only read the scene ask for `Nothing`.
pub enum SceneCall {
    Nothing,
    Exit,
    Reload,
    RemoveEntity(u128),
    RemoveComponent(u128, Seq<char>),
    UnloadPlugin(Seq<char>),
    RemoveSystem(Seq<char>),
    RenameEntity(u128, Seq<char>),
    CreateEntity(Seq<char>),
    LoadPlugin(Seq<char>, Option<PathBuf>),
    SaveScene(Seq<char>),
    ImportScene(Seq<char>, Option<PathBuf>),
    AddSystem(Seq<char>, usize),
    AddComponent(u128, Seq<char>),
    SetField(u128, Seq<char>, Seq<char>, Seq<char>),
}

/// The operation that submitting a prompt's text asks of the scene: the
/// typed text is the new name, the save path, the component id or the
/// field's input. For a plugin or a scene the typed text is looked up as an
/// asset path (`r.found` is the answer), and the file is loaded only when one
/// was found; a system is added only when its priority parsed.
pub open spec fn submit_call(submit: SubmitView, text: Seq<char>, r: SceneReplies) -> SceneCall {
    match submit {
        SubmitView::RenameEntity(id) => SceneCall::RenameEntity(id, text),
        SubmitView::CreateEntity => SceneCall::CreateEntity(text),
        SubmitView::CreatePlugin => SceneCall::LoadPlugin(text, r.found),
        SubmitView::SaveScene(_) => SceneCall::SaveScene(text),
        SubmitView::ImportScene(_) => SceneCall::ImportScene(text, r.found),
        SubmitView::CreateSystemId => SceneCall::Nothing,
        SubmitView::CreateSystemPriority { system_id } => match parse_decimal(text, usize::MAX as nat) {
            Ok(p) => SceneCall::AddSystem(system_id, p as usize),
            Err(_) => SceneCall::Nothing,
        },
        SubmitView::CreateComponent(eid) => SceneCall::AddComponent(eid, text),
        SubmitView::SetComponentField { entity_id, component_id, field_id, .. } => SceneCall::SetField(
            entity_id,
            component_id,
            field_id,
            text,
        ),
    }
}

/// The operation a key press asks of the scene. `r` and `q` on the entity,
/// plugin and system lists reload and ask the scene to stop (`q` on the log
/// view too); `D` deletes the entry under the cursor (the entity, the
/// component of the open entity, the plugin, the system); Enter in a prompt
/// submits its text. Every other key only reads.
pub open spec fn key_call(state: ScreenView, input: Key, r: SceneReplies) -> SceneCall {
    match state {
        ScreenView::EntityList(i) => if input == Key::Char('r') {
            SceneCall::Reload
        } else if input == Key::Char('q') {
            SceneCall::Exit
        } else if input == Key::Char('D') && r.entities.len() > 0 && i < r.entities.len() {
            SceneCall::RemoveEntity(r.entities[i as int])
        } else {
            SceneCall::Nothing
        },
        ScreenView::EntityDetails(id, ci) => if input == Key::Char('D') {
            match r.components {
                Ok(cs) => if cs.len() > 0 && ci < cs.len() {
                    SceneCall::RemoveComponent(id, cs[ci as int])
                } else {
                    SceneCall::Nothing
                },
                Err(_) => SceneCall::Nothing,
            }
        } else {
            SceneCall::Nothing
        },
        ScreenView::PluginList(i) => if input == Key::Char('r') {
            SceneCall::Reload
        } else if input == Key::Char('q') {
            SceneCall::Exit
        } else if input == Key::Char('D') && i < r.plugins.len() + 1 {
            SceneCall::UnloadPlugin(
                if i == 0 {
                    Seq::empty()
                } else {
                    r.plugins[i - 1]
                },
            )
        } else {
            SceneCall::Nothing
        },
        ScreenView::SystemList { index, .. } => if input == Key::Char('r') {
            SceneCall::Reload
        } else if input == Key::Char('q') {
            SceneCall::Exit
        } else if input == Key::Char('D') && index < r.systems.len() {
            SceneCall::RemoveSystem(r.systems[index as int])
        } else {
            SceneCall::Nothing
        },
        ScreenView::LogList { .. } => if input == Key::Char('q') {
            SceneCall::Exit
        } else {
            SceneCall::Nothing
        },
        ScreenView::Prompt(p) => if input == Key::Enter {
            submit_call(p.on_submit, p.text, r)
        } else {
            SceneCall::Nothing
        },
        _ => SceneCall::Nothing,
    }
}

/// The scene went from `before` to `after` by the operation `call`, which
/// answered `r.outcome` (and, for a new entity, gave `r.new_entity`). A
/// request for nothing leaves the scene exactly as it was; so does saving,
/// and so does a plugin or scene path that named no file. A found plugin is
/// loaded from the path's lossy text, a found scene from the path itself.
pub open spec fn call_effect(call: SceneCall, before: Scene, after: Scene, r: SceneReplies) -> bool {
    match call {
        SceneCall::Nothing => after == before,
        SceneCall::Exit => exit_requested(before, after),
        SceneCall::Reload => reload_outcome(before, after, r.outcome),
        SceneCall::RemoveEntity(id) => entity_removed(before, id, after, r.outcome),
        SceneCall::RemoveComponent(id, c) => component_removed(before, id, c, after, r.outcome),
        SceneCall::UnloadPlugin(p) => unload_outcome(before, p, after, r.outcome),
        SceneCall::RemoveSystem(sys) => system_removal_outcome(before, sys, after, r.outcome),
        SceneCall::RenameEntity(id, name) => entity_renamed(before, id, name, after, r.outcome),
        SceneCall::CreateEntity(name) => exists|mid: Scene|
            #![trigger entity_added(before, mid, r.new_entity)]
            entity_added(before, mid, r.new_entity) && entity_renamed(
                mid,
                r.new_entity,
                name,
                after,
                r.outcome,
            ),
        SceneCall::LoadPlugin(text, found) => asset_lookup(text, found) && match found {
            Some(p) => plugin_load_outcome(before, path_lossy_text(p), after, r.outcome),
            None => after == before,
        },
        SceneCall::SaveScene(path) => after == before && save_outcome(before, path, r.outcome),
        SceneCall::ImportScene(text, found) => asset_lookup(text, found) && match found {
            Some(p) => scene_load_outcome(before, p, after, r.outcome),
            None => after == before,
        },
        SceneCall::AddSystem(id, p) => system_add_outcome(before, id, p, after, r.outcome),
        SceneCall::AddComponent(id, c) => component_add_outcome(before, id, c, after, r.outcome),
        SceneCall::SetField(id, c, f, input) => field_parse_outcome(before, id, c, f, input, after, r.outcome),
    }
}

/// Replies that agree with the scene for the lists `state` reads, with
/// neutral values for everything else.
pub open spec fn agreeing_replies(scene: Scene, state: ScreenView) -> SceneReplies {
    SceneReplies {
        entities: scene_entity_ids(scene),
        components: match state {
            ScreenView::EntityDetails(id, _) => components_reply(scene, id),
            _ => Ok(Seq::empty()),
        },
        fields: match state {
            ScreenView::ComponentDetails { entity_id, component_id, .. } => fields_reply(
                scene,
                entity_id,
                component_id,
            ),
            _ => Ok(Seq::empty()),
        },
        field_mutable: match state {
            ScreenView::ComponentDetails { entity_id, component_id, field_index, .. } => match fields_reply(
                scene,
                entity_id,
                component_id,
            ) {
                Ok(fs) => scene_field_mutable(scene, entity_id, component_id, fs[field_index as int]),
                Err(_) => Ok(false),
            },
            _ => Ok(false),
        },
        field_parsable: match state {
            ScreenView::ComponentDetails { entity_id, component_id, field_index, .. } => match fields_reply(
                scene,
                entity_id,
                component_id,
            ) {
                Ok(fs) => scene_field_parsable(scene, entity_id, component_id, fs[field_index as int]),
                Err(_) => Ok(false),
            },
            _ => Ok(false),
        },
        rendered: match state {
            ScreenView::ComponentDetails { entity_id, component_id, field_index, .. } => match fields_reply(
                scene,
                entity_id,
                component_id,
            ) {
                Ok(fs) => scene_rendered_field(scene, entity_id, component_id, fs[field_index as int]),
                Err(_) => Ok(Seq::empty()),
            },
            _ => Ok(Seq::empty()),
        },
        plugins: scene_plugin_ids(scene),
        systems: scene_system_ids(scene),
        log_lines: 0,
        outcome: Ok(()),
        new_entity: 0,
        found: None,
    }
}

/// The model of a rendered field value.
pub open spec fn rendered_view(r: Result<String, SceneError>) -> Result<Seq<char>, SceneError> {
    match r {
        Ok(s) => Ok(s@),
        Err(e) => Err(e),
    }
}

/// The error screen for a failure, returning to `back`.
pub fn error_screen(e: &SceneError, back: Screen) -> (r: Screen)
    ensures
        r@ == error_view(*e, back@),
        screen_wf(back@) ==> screen_wf(r@),
{
    Screen::Error(ErrorScreen::new(scene_error_message(e), back))
}

/// `ok` after a successful operation, the error screen returning to `back`
/// after a failed one.
pub fn outcome_screen(outcome: Result<(), SceneError>, ok: Screen, back: Screen) -> (r: Screen)
    ensures
        r@ == outcome_view(outcome, ok@, back@),
        screen_wf(ok@) && screen_wf(back@) ==> screen_wf(r@),
{
    match outcome {
        Ok(()) => ok,
        Err(e) => error_screen(&e, back),
    }
}

/// An empty prompt.
pub fn blank_prompt_screen(title: String, submit: PromptSubmit, cancel: Screen) -> (r: Screen)
    ensures
        r@ == blank_prompt(title@, submit@, cancel@),
        submit_wf(submit@) && screen_wf(cancel@) ==> screen_wf(r@),
{
    let p = TextPrompt::new(title, submit, cancel);
    assert(submit_wf(submit@) && screen_wf(cancel@) ==> prompt_wf(p@));
    Screen::Prompt(p)
}

/// The prompt asking where to save the scene.
pub fn scene_save_prompt(on_done: Screen) -> (r: Screen)
    ensures
        r@ == save_prompt(on_done@),
        screen_wf(on_done@) ==> screen_wf(r@),
{
    let again = on_done.duplicate();
    blank_prompt_screen(
        String::from_str("Save Scene Path"),
        PromptSubmit::SaveScene(Box::new(again)),
        on_done,
    )
}

/// The prompt asking which scene file to import.
pub fn scene_import_prompt(on_done: Screen) -> (r: Screen)
    ensures
        r@ == import_prompt(on_done@),
        screen_wf(on_done@) ==> screen_wf(r@),
{
    let again = on_done.duplicate();
    blank_prompt_screen(
        String::from_str("Import Scene Path"),
        PromptSubmit::ImportScene(Box::new(again)),
        on_done,
    )
}

/// The cursor after the entry under it was deleted.
pub fn after_delete_index(index: usize, len: usize) -> (r: usize)
    ensures
        r == after_delete(index as int, len as int),
        r <= index,
{
    let last = if len >= 2 {
        len - 2
    } else {
        0
    };
    if index <= last {
        index
    } else {
        last
    }
}

/// The first position of `x` in `s` is the first index holding it.
pub proof fn lemma_position_of(s: Seq<u128>, x: u128, i: int)
    requires
        0 <= i <= s.len(),
        forall|j: int| 0 <= j < i ==> s[j] != x,
    ensures
        i < s.len() && s[i] == x ==> position_of(s, x) == Some(i),
        i == s.len() ==> position_of(s, x) == None::<int>,
    decreases s.len(),
{
    if s.len() > 0 && i > 0 {
        let t = s.drop_first();
        assert forall|j: int| 0 <= j < i - 1 implies t[j] != x by {
            assert(t[j] == s[j + 1]);
        }
        lemma_position_of(t, x, i - 1);
        if i < s.len() && s[i] == x {
            assert(t[i - 1] == s[i]);
        }
    }
}

/// Where an id first occurs in a list.
pub fn position_in(ids: &Vec<u128>, id: u128) -> (r: Option<usize>)
    ensures
        match r {
            Some(i) => position_of(ids@, id) == Some(i as int) && i < ids@.len() && i < usize::MAX,
            None => position_of(ids@, id) == None::<int>,
        },
{
    let mut i: usize = 0;
    while i < ids.len()
        invariant
            i <= ids@.len(),
            forall|j: int| 0 <= j < i ==> ids@[j] != id,
        decreases ids@.len() - i,
    {
        if ids[i] == id {
            proof {
                lemma_position_of(ids@, id, i as int);
            }
            return Some(i);
        }
        i = i + 1;
    }
    proof {
        lemma_position_of(ids@, id, i as int);
    }
    None
}

/// The plugin list as drawn and deleted from: the built-in static plugin
/// first (shown as "Statically Linked", id empty), then every loaded plugin
/// with its id as its label.
pub fn plugin_items_of(plugins: Vec<String>) -> (r: Vec<(String, String)>)
    ensures
        r@.len() == plugins@.len() + 1,
        r@[0].0@ == "Statically Linked"@,
        r@[0].1@ == Seq::<char>::empty(),
        forall|i: int|
            0 <= i < plugins@.len() ==> (#[trigger] r@[i + 1]).0@ == plugins@[i]@ && r@[i
                + 1].1@ == plugins@[i]@,
{
    let mut items: Vec<(String, String)> = Vec::new();
    items.push((String::from_str("Statically Linked"), String::new()));
    let mut i: usize = 0;
    while i < plugins.len()
        invariant
            i <= plugins@.len(),
            items@.len() == i + 1,
            items@[0].0@ == "Statically Linked"@,
            items@[0].1@ == Seq::<char>::empty(),
            forall|j: int|
                0 <= j < i ==> (#[trigger] items@[j + 1]).0@ == plugins@[j]@ && items@[j
                    + 1].1@ == plugins@[j]@,
        decreases plugins@.len() - i,
    {
        let label = plugins[i].clone();
        let id = plugins[i].clone();
        items.push((label, id));
        i = i + 1;
    }
    items
}

/// The scene's plugin list as drawn and deleted from.
pub fn plugin_items(scene: &Scene) -> (r: Vec<(String, String)>)
    ensures
        r@.len() == scene_plugin_ids(*scene).len() + 1,
        r@[0].0@ == "Statically Linked"@,
        r@[0].1@ == Seq::<char>::empty(),
        forall|i: int|
            0 <= i < scene_plugin_ids(*scene).len() ==> (#[trigger] r@[i + 1]).1@
                == scene_plugin_ids(*scene)[i] && r@[i + 1].0@ == scene_plugin_ids(*scene)[i],
{
    let plugins = plugin_ids(scene);
    let r = plugin_items_of(plugins);
    proof {
        assert forall|i: int| 0 <= i < scene_plugin_ids(*scene).len() implies (#[trigger] r@[i
            + 1]).1@ == scene_plugin_ids(*scene)[i] && r@[i + 1].0@ == scene_plugin_ids(*scene)[i] by {
            assert(text_views(plugins@)[i] == plugins@[i]@);
        }
    }
    r
}

/// What a key needs of a prompt to be handled: typing and erasing need the
/// cursor inside the text.
pub open spec fn prompt_key_fits(p: PromptView, input: Key) -> bool {
    (input is Char || input == Key::Backspace) ==> p.offset <= p.text.len()
}

/// What a key needs of a screen to be handled: stepping a list cursor down
/// needs room above it, and typing or erasing in a prompt needs the cursor
/// inside the text. A well-formed screen meets it for every key.
pub open spec fn key_fits(state: ScreenView, input: Key) -> bool {
    match state {
        ScreenView::EntityList(i) => is_down(input) ==> i < usize::MAX,
        ScreenView::EntityDetails(_, ci) => is_down(input) ==> ci < usize::MAX,
        ScreenView::ComponentDetails { field_index, .. } => is_down(input) ==> field_index < usize::MAX,
        ScreenView::PluginList(i) => is_down(input) ==> i < usize::MAX,
        ScreenView::SystemList { index, .. } => is_down(input) ==> index < usize::MAX,
        ScreenView::Prompt(p) => prompt_key_fits(p, input),
        _ => true,
    }
}

/// A well-formed screen can take every key.
pub proof fn lemma_wf_screen_takes_any_key(state: ScreenView, input: Key)
    requires
        screen_wf(state),
    ensures
        key_fits(state, input),
{
    if let ScreenView::Prompt(p) = state {
        assert(prompt_wf(p));
    }
}

/// Keys on the entity list.
pub fn entity_list_step(scene: &mut Scene, index: usize, input: Key, ctx: InputContext) -> (r: Screen)
    requires
        is_down(input) ==> index < usize::MAX,
    ensures
        index < usize::MAX ==> screen_wf(r@),
        exists|rep: SceneReplies|
            replies_agree(rep, *old(scene), ScreenView::EntityList(index), ctx) && r@
                == #[trigger] entity_list_next(index, input, rep) && call_effect(
                key_call(ScreenView::EntityList(index), input, rep),
                *old(scene),
                *final(scene),
                rep,
            ),
{
    let ghost base = agreeing_replies(*scene, ScreenView::EntityList(index));
    assert(replies_agree(base, *old(scene), ScreenView::EntityList(index), ctx));
    if input == Key::Char('r') {
        let outcome = reload(scene);
        let ghost w = SceneReplies { outcome, ..base };
        let r = outcome_screen(outcome, Screen::EntityList(index), Screen::EntityList(index));
        assert(r@ == entity_list_next(index, input, w));
        r
    } else if input == Key::Char('q') {
        request_exit(scene);
        let r = Screen::EntityList(index);
        assert(r@ == entity_list_next(index, input, base));
        r
    } else if key_is_tab_left(input) {
        let r = Screen::LogList { level: LogLevel::DEBUG, scroll: 0, follow: true };
        assert(r@ == entity_list_next(index, input, base));
        r
    } else if key_is_tab_right(input) {
        let r = Screen::PluginList(0);
        assert(r@ == entity_list_next(index, input, base));
        r
    } else if key_is_down(input) {
        let ids = entity_ids(scene);
        let r = Screen::EntityList(index_add_with_loop(index, ids.len()));
        assert(r@ == entity_list_next(index, input, base));
        r
    } else if key_is_up(input) {
        let ids = entity_ids(scene);
        let r = Screen::EntityList(index_sub_with_loop(index, ids.len()));
        assert(r@ == entity_list_next(index, input, base));
        r
    } else if input == Key::Enter {
        let ids = entity_ids(scene);
        if index < ids.len() {
            let r = Screen::EntityDetails(ids[index], 0);
            assert(r@ == entity_list_next(index, input, base));
            r
        } else {
            let r = Screen::EntityList(index);
            assert(r@ == entity_list_next(index, input, base));
            r
        }
    } else if input == Key::Char('a') {
        let r = blank_prompt_screen(
            String::from_str("New Entity Name"),
            PromptSubmit::CreateEntity,
            Screen::EntityList(index),
        );
        assert(r@ == entity_list_next(index, input, base));
        r
    } else if input == Key::Char('s') {
        let r = scene_save_prompt(Screen::EntityList(index));
        assert(r@ == entity_list_next(index, input, base));
        r
    } else if input == Key::Char('i') {
        let r = scene_import_prompt(Screen::EntityList(index));
        assert(r@ == entity_list_next(index, input, base));
        r
    } else if input == Key::Char('D') {
        let ids = entity_ids(scene);
        if ids.len() > 0 && index < ids.len() {
            let outcome = remove_entity(scene, ids[index]);
            let ghost w = SceneReplies { outcome, ..base };
            let r = outcome_screen(
                outcome,
                Screen::EntityList(after_delete_index(index, ids.len())),
                Screen::EntityList(index),
            );
            assert(r@ == entity_list_next(index, input, w));
            r
        } else {
            let r = Screen::EntityList(index);
            assert(r@ == entity_list_next(index, input, base));
            r
        }
    } else {
        let r = Screen::EntityList(index);
        assert(r@ == entity_list_next(index, input, base));
        r
    }
}

/// The reply `Scene::get_entity_components` gave, as a model.
proof fn lemma_components_reply(scene: Scene, id: u128, got: Result<Vec<String>, SceneError>)
    requires
        match got {
            Ok(v) => scene_component_ids(scene).dom().contains(id) && text_views(v@)
                == scene_component_ids(scene)[id],
            Err(e) => !scene_component_ids(scene).dom().contains(id) && e
                == SceneError::EntityNotFound,
        },
    ensures
        match got {
            Ok(v) => components_reply(scene, id) == Ok::<Seq<Seq<char>>, SceneError>(text_views(v@))
                && text_views(v@).len() == v@.len(),
            Err(e) => components_reply(scene, id) == Err::<Seq<Seq<char>>, SceneError>(e),
        },
{
}

/// Keys on an entity's detail screen.
pub fn entity_details_step(scene: &mut Scene, id: u128, ci: usize, input: Key, ctx: InputContext) -> (r: Screen)
    requires
        is_down(input) ==> ci < usize::MAX,
    ensures
        ci < usize::MAX ==> screen_wf(r@),
        exists|rep: SceneReplies|
            replies_agree(rep, *old(scene), ScreenView::EntityDetails(id, ci), ctx) && r@
                == #[trigger] entity_details_next(id, ci, input, rep) && call_effect(
                key_call(ScreenView::EntityDetails(id, ci), input, rep),
                *old(scene),
                *final(scene),
                rep,
            ),
{
    let ghost state = ScreenView::EntityDetails(id, ci);
    let ghost base = agreeing_replies(*scene, state);
    assert(replies_agree(base, *old(scene), state, ctx));
    if input == Key::Esc {
        let ids = entity_ids(scene);
        let r = match position_in(&ids, id) {
            Some(p) => Screen::EntityList(p),
            None => Screen::EntityList(0),
        };
        assert(r@ == entity_details_next(id, ci, input, base));
        assert(ci < usize::MAX ==> screen_wf(r@));
        r
    } else if key_is_down(input) || key_is_up(input) {
        let got = entity_components(scene, id);
        proof {
            lemma_components_reply(*scene, id, got);
        }
        let r = match got {
            Ok(cs) => if key_is_down(input) {
                Screen::EntityDetails(id, index_add_with_loop(ci, cs.len()))
            } else {
                Screen::EntityDetails(id, index_sub_with_loop(ci, cs.len()))
            },
            Err(_) => Screen::EntityDetails(id, ci),
        };
        assert(r@ == entity_details_next(id, ci, input, base));
        assert(ci < usize::MAX ==> screen_wf(r@));
        r
    } else if input == Key::Char('r') {
        let idt = entity_id_text(id);
        let r = blank_prompt_screen(
            concat("Rename Entity: ", idt.as_str()),
            PromptSubmit::RenameEntity(id),
            Screen::EntityDetails(id, 0),
        );
        assert(r@ == entity_details_next(id, ci, input, base));
        assert(ci < usize::MAX ==> screen_wf(r@));
        r
    } else if input == Key::Char('a') {
        let r = blank_prompt_screen(
            String::from_str("New Component Name"),
            PromptSubmit::CreateComponent(id),
            Screen::EntityDetails(id, ci),
        );
        assert(r@ == entity_details_next(id, ci, input, base));
        assert(ci < usize::MAX ==> screen_wf(r@));
        r
    } else if input == Key::Char('D') {
        let got = entity_components(scene, id);
        proof {
            lemma_components_reply(*scene, id, got);
        }
        match got {
            Ok(cs) => {
                if cs.len() > 0 && ci < cs.len() {
                    let outcome = remove_component(scene, id, cs[ci].as_str());
                    let ghost w = SceneReplies { outcome, ..base };
                    let r = outcome_screen(
                        outcome,
                        Screen::EntityDetails(id, after_delete_index(ci, cs.len())),
                        Screen::EntityDetails(id, ci),
                    );
                    assert(r@ == entity_details_next(id, ci, input, w));
                    r
                } else {
                    let r = Screen::EntityDetails(id, ci);
                    assert(r@ == entity_details_next(id, ci, input, base));
                    r
                }
            },
            Err(e) => {
                let r = error_screen(&e, Screen::EntityDetails(id, ci));
                assert(r@ == entity_details_next(id, ci, input, base));
                r
            },
        }
    } else if input == Key::Enter {
        let got = entity_components(scene, id);
        proof {
            lemma_components_reply(*scene, id, got);
        }
        let r = match got {
            Ok(cs) => if ci < cs.len() {
                proof {
                    assert(text_views(cs@)[ci as int] == cs@[ci as int]@);
                }
                Screen::ComponentDetails {
                    entity_id: id,
                    component_id: cs[ci].clone(),
                    component_index: ci,
                    field_index: 0,
                }
            } else {
                Screen::EntityDetails(id, ci)
            },
            Err(_) => Screen::EntityDetails(id, ci),
        };
        assert(r@ == entity_details_next(id, ci, input, base));
        assert(ci < usize::MAX ==> screen_wf(r@));
        r
    } else {
        let r = Screen::EntityDetails(id, ci);
        assert(r@ == entity_details_next(id, ci, input, base));
        assert(ci < usize::MAX ==> screen_wf(r@));
        r
    }
}

/// The reply `Scene::get_component_fields` gave, as a model.
proof fn lemma_fields_reply(scene: Scene, id: u128, cid: Seq<char>, got: Result<Vec<String>, SceneError>)
    requires
        match got {
            Ok(v) => scene_component_ids(scene).dom().contains(id) && scene_field_ids(
                scene,
            ).dom().contains((id, cid)) && text_views(v@) == scene_field_ids(scene)[(id, cid)],
            Err(e) => (!scene_component_ids(scene).dom().contains(id) && e
                == SceneError::EntityNotFound) || (scene_component_ids(scene).dom().contains(id)
                && !scene_field_ids(scene).dom().contains((id, cid)) && e
                == SceneError::ComponentNotFound),
        },
    ensures
        match got {
            Ok(v) => fields_reply(scene, id, cid) == Ok::<Seq<Seq<char>>, SceneError>(text_views(v@))
                && text_views(v@).len() == v@.len(),
            Err(e) => fields_reply(scene, id, cid) == Err::<Seq<Seq<char>>, SceneError>(e),
        },
{
}

/// The title of the prompt that edits a field.
fn field_prompt_title(component_id: &str, field_id: &str) -> (r: String)
    ensures
        r@ == "Set "@ + component_id@ + "."@ + field_id@,
{
    let head = concat("Set ", component_id);
    let dotted = concat(head.as_str(), ".");
    concat(dotted.as_str(), field_id)
}

/// Whether a schema answer says yes; a failed lookup counts as no.
fn answered_yes(a: &Result<bool, SceneError>) -> (r: bool)
    ensures
        r == (*a == Ok::<bool, SceneError>(true)),
{
    match a {
        Ok(b) => *b,
        Err(_) => false,
    }
}

/// Keys on a component's detail screen.
pub fn component_details_step(
    scene: &mut Scene,
    eid: u128,
    cid: String,
    ci: usize,
    fi: usize,
    input: Key,
    ctx: InputContext,
) -> (r: Screen)
    requires
        is_down(input) ==> fi < usize::MAX,
    ensures
        ci < usize::MAX && fi < usize::MAX ==> screen_wf(r@),
        exists|rep: SceneReplies|
            replies_agree(
                rep,
                *old(scene),
                ScreenView::ComponentDetails {
                    entity_id: eid,
                    component_id: cid@,
                    component_index: ci,
                    field_index: fi,
                },
                ctx,
            ) && r@ == #[trigger] component_details_next(eid, cid@, ci, fi, input, rep),
        *final(scene) == *old(scene),
{
    let ghost state = ScreenView::ComponentDetails {
        entity_id: eid,
        component_id: cid@,
        component_index: ci,
        field_index: fi,
    };
    let ghost base = agreeing_replies(*scene, state);
    if input == Key::Esc {
        let r = Screen::EntityDetails(eid, ci);
        assert(replies_agree(base, *old(scene), state, ctx));
        assert(r@ == component_details_next(eid, cid@, ci, fi, input, base));
        r
    } else if key_is_down(input) || key_is_up(input) || input == Key::Enter {
        let got = component_fields(scene, eid, cid.as_str());
        proof {
            lemma_fields_reply(*scene, eid, cid@, got);
        }
        match got {
            Ok(fs) => {
                if key_is_down(input) {
                    let r = Screen::ComponentDetails {
                        entity_id: eid,
                        component_id: cid,
                        component_index: ci,
                        field_index: index_add_with_loop(fi, fs.len()),
                    };
                    assert(replies_agree(base, *old(scene), state, ctx));
                    assert(r@ == component_details_next(eid, cid@, ci, fi, input, base));
                    r
                } else if key_is_up(input) {
                    let r = Screen::ComponentDetails {
                        entity_id: eid,
                        component_id: cid,
                        component_index: ci,
                        field_index: index_sub_with_loop(fi, fs.len()),
                    };
                    assert(replies_agree(base, *old(scene), state, ctx));
                    assert(r@ == component_details_next(eid, cid@, ci, fi, input, base));
                    r
                } else if fi < fs.len() {
                    let fid = &fs[fi];
                    proof {
                        assert(text_views(fs@)[fi as int] == fs@[fi as int]@);
                    }
                    let mutable = field_is_mutable(scene, eid, cid.as_str(), fid.as_str());
                    let parsable = field_is_string_parsable(scene, eid, cid.as_str(), fid.as_str());
                    let ghost w0 = SceneReplies {
                        field_mutable: mutable,
                        field_parsable: parsable,
                        ..base
                    };
                    assert(replies_agree(w0, *old(scene), state, ctx));
                    let here = Screen::ComponentDetails {
                        entity_id: eid,
                        component_id: cid.clone(),
                        component_index: ci,
                        field_index: fi,
                    };
                    if !(answered_yes(&mutable) && answered_yes(&parsable)) {
                        assert(here@ == component_details_next(eid, cid@, ci, fi, input, w0));
                        return here;
                    }
                    let rendered = render_field(scene, eid, cid.as_str(), fid.as_str());
                    let ghost w = SceneReplies { rendered: rendered_view(rendered), ..w0 };
                    assert(replies_agree(w, *old(scene), state, ctx));
                    match rendered {
                        Ok(v) => {
                            let title = field_prompt_title(cid.as_str(), fid.as_str());
                            let submit = PromptSubmit::SetComponentField {
                                entity_id: eid,
                                component_id: cid,
                                field_id: fid.clone(),
                                component_index: ci,
                                field_index: fi,
                            };
                            let p = TextPrompt::new_with_text(title, chars_of(v.as_str()), submit, here);
                            assert(ci < usize::MAX && fi < usize::MAX ==> prompt_wf(p@));
                            let r = Screen::Prompt(p);
                            assert(r@ == component_details_next(eid, cid@, ci, fi, input, w));
                            r
                        },
                        Err(e) => {
                            let r = error_screen(&e, here);
                            assert(r@ == component_details_next(eid, cid@, ci, fi, input, w));
                            r
                        },
                    }
                } else {
                    let r = Screen::ComponentDetails {
                        entity_id: eid,
                        component_id: cid,
                        component_index: ci,
                        field_index: fi,
                    };
                    assert(replies_agree(base, *old(scene), state, ctx));
                    assert(r@ == component_details_next(eid, cid@, ci, fi, input, base));
                    r
                }
            },
            Err(_) => {
                let r = Screen::ComponentDetails {
                    entity_id: eid,
                    component_id: cid,
                    component_index: ci,
                    field_index: fi,
                };
                assert(replies_agree(base, *old(scene), state, ctx));
                assert(r@ == component_details_next(eid, cid@, ci, fi, input, base));
                r
            },
        }
    } else {
        let r = Screen::ComponentDetails {
            entity_id: eid,
            component_id: cid,
            component_index: ci,
            field_index: fi,
        };
        assert(replies_agree(base, *old(scene), state, ctx));
        assert(r@ == component_details_next(eid, cid@, ci, fi, input, base));
        r
    }
}

/// Keys on the plugin list.
pub fn plugin_list_step(scene: &mut Scene, index: usize, input: Key, ctx: InputContext) -> (r: Screen)
    requires
        is_down(input) ==> index < usize::MAX,
    ensures
        index < usize::MAX ==> screen_wf(r@),
        exists|rep: SceneReplies|
            replies_agree(rep, *old(scene), ScreenView::PluginList(index), ctx) && r@
                == #[trigger] plugin_list_next(index, input, rep) && call_effect(
                key_call(ScreenView::PluginList(index), input, rep),
                *old(scene),
                *final(scene),
                rep,
            ),
{
    let ghost state = ScreenView::PluginList(index);
    let ghost base = agreeing_replies(*scene, state);
    assert(replies_agree(base, *old(scene), state, ctx));
    if input == Key::Char('r') {
        let outcome = reload(scene);
        let ghost w = SceneReplies { outcome, ..base };
        let r = outcome_screen(outcome, Screen::PluginList(index), Screen::PluginList(index));
        assert(r@ == plugin_list_next(index, input, w));
        r
    } else if input == Key::Char('q') {
        request_exit(scene);
        let r = Screen::PluginList(index);
        assert(r@ == plugin_list_next(index, input, base));
        r
    } else if key_is_tab_left(input) {
        let r = Screen::EntityList(0);
        assert(r@ == plugin_list_next(index, input, base));
        r
    } else if key_is_tab_right(input) {
        let r = Screen::SystemList { index: 0, error: None };
        assert(r@ == plugin_list_next(index, input, base));
        r
    } else if key_is_down(input) {
        let items = plugin_items(scene);
        let r = Screen::PluginList(index_add_with_loop(index, items.len()));
        assert(r@ == plugin_list_next(index, input, base));
        r
    } else if key_is_up(input) {
        let items = plugin_items(scene);
        let r = Screen::PluginList(index_sub_with_loop(index, items.len()));
        assert(r@ == plugin_list_next(index, input, base));
        r
    } else if input == Key::Char('a') {
        let r = blank_prompt_screen(
            String::from_str("Plugin Path"),
            PromptSubmit::CreatePlugin,
            Screen::PluginList(index),
        );
        assert(r@ == plugin_list_next(index, input, base));
        r
    } else if input == Key::Char('s') {
        let r = scene_save_prompt(Screen::PluginList(index));
        assert(r@ == plugin_list_next(index, input, base));
        r
    } else if input == Key::Char('i') {
        let r = scene_import_prompt(Screen::PluginList(index));
        assert(r@ == plugin_list_next(index, input, base));
        r
    } else if input == Key::Char('D') {
        let items = plugin_items(scene);
        if index < items.len() {
            proof {
                if index > 0 {
                    assert(items@[(index - 1) + 1].1@ == scene_plugin_ids(*scene)[index - 1]);
                }
            }
            let outcome = unload_plugin(scene, items[index].1.as_str());
            let ghost w = SceneReplies { outcome, ..base };
            let r = outcome_screen(
                outcome,
                Screen::PluginList(after_delete_index(index, items.len())),
                Screen::PluginList(index),
            );
            assert(r@ == plugin_list_next(index, input, w));
            r
        } else {
            let r = Screen::PluginList(index);
            assert(r@ == plugin_list_next(index, input, base));
            r
        }
    } else {
        let r = Screen::PluginList(index);
        assert(r@ == plugin_list_next(index, input, base));
        r
    }
}

/// The model of an optional notice.
pub open spec fn notice_view(error: Option<String>) -> Option<Seq<char>> {
    match error {
        Some(e) => Some(e@),
        None => None,
    }
}

/// Keys on the system list.
pub fn system_list_step(
    scene: &mut Scene,
    index: usize,
    error: Option<String>,
    input: Key,
    ctx: InputContext,
) -> (r: Screen)
    requires
        is_down(input) ==> index < usize::MAX,
    ensures
        index < usize::MAX ==> screen_wf(r@),
        exists|rep: SceneReplies|
            replies_agree(rep, *old(scene), ScreenView::SystemList { index, error: notice_view(error) }, ctx)
                && r@ == #[trigger] system_list_next(index, notice_view(error), input, rep)
                && call_effect(
                key_call(ScreenView::SystemList { index, error: notice_view(error) }, input, rep),
                *old(scene),
                *final(scene),
                rep,
            ),
{
    let ghost notice = notice_view(error);
    let ghost state = ScreenView::SystemList { index, error: notice };
    let ghost base = agreeing_replies(*scene, state);
    assert(replies_agree(base, *old(scene), state, ctx));
    if input == Key::Char('r') {
        let outcome = reload(scene);
        let ghost w = SceneReplies { outcome, ..base };
        let r = outcome_screen(
            outcome,
            Screen::SystemList { index, error },
            Screen::SystemList { index, error: None },
        );
        assert(r@ == system_list_next(index, notice, input, w));
        r
    } else if input == Key::Char('q') {
        request_exit(scene);
        let r = Screen::SystemList { index, error };
        assert(r@ == system_list_next(index, notice, input, base));
        r
    } else if key_is_tab_left(input) {
        let r = Screen::PluginList(0);
        assert(r@ == system_list_next(index, notice, input, base));
        r
    } else if key_is_tab_right(input) {
        let r = Screen::LogList { level: LogLevel::DEBUG, scroll: 0, follow: true };
        assert(r@ == system_list_next(index, notice, input, base));
        r
    } else if key_is_down(input) {
        let systems = system_ids(scene);
        let r = Screen::SystemList { index: index_add_with_loop(index, systems.len()), error: None };
        assert(r@ == system_list_next(index, notice, input, base));
        r
    } else if key_is_up(input) {
        let systems = system_ids(scene);
        let r = Screen::SystemList { index: index_sub_with_loop(index, systems.len()), error: None };
        assert(r@ == system_list_next(index, notice, input, base));
        r
    } else if input == Key::Char('a') {
        let r = blank_prompt_screen(
            String::from_str("System ID"),
            PromptSubmit::CreateSystemId,
            Screen::SystemList { index, error: None },
        );
        assert(r@ == system_list_next(index, notice, input, base));
        r
    } else if input == Key::Char('s') {
        let r = scene_save_prompt(Screen::SystemList { index, error: None });
        assert(r@ == system_list_next(index, notice, input, base));
        r
    } else if input == Key::Char('i') {
        let r = scene_import_prompt(Screen::SystemList { index, error: None });
        assert(r@ == system_list_next(index, notice, input, base));
        r
    } else if input == Key::Char('D') {
        let systems = system_ids(scene);
        if index < systems.len() {
            let outcome = remove_system(scene, systems[index].as_str());
            let ghost w = SceneReplies { outcome, ..base };
            let r = outcome_screen(
                outcome,
                Screen::SystemList { index: after_delete_index(index, systems.len()), error: None },
                Screen::SystemList { index, error: None },
            );
            assert(r@ == system_list_next(index, notice, input, w));
            r
        } else {
            let r = Screen::SystemList { index, error };
            assert(r@ == system_list_next(index, notice, input, base));
            r
        }
    } else {
        let r = Screen::SystemList { index, error };
        assert(r@ == system_list_next(index, notice, input, base));
        r
    }
}

/// Keys on the log view.
pub fn log_list_step(
    scene: &mut Scene,
    level: LogLevel,
    scroll: usize,
    follow: bool,
    input: Key,
    ctx: InputContext,
) -> (r: Screen)
    ensures
        screen_wf(r@),
        exists|rep: SceneReplies|
            replies_agree(rep, *old(scene), ScreenView::LogList { level, scroll, follow }, ctx) && r@
                == #[trigger] log_list_next(level, scroll, follow, input, ctx, rep) && call_effect(
                key_call(ScreenView::LogList { level, scroll, follow }, input, rep),
                *old(scene),
                *final(scene),
                rep,
            ),
{
    let ghost state = ScreenView::LogList { level, scroll, follow };
    let ghost base = agreeing_replies(*scene, state);
    assert(display_lines(Seq::<(LogLevel, Seq<char>)>::empty(), level, ctx.log_area_width as int).len() == 0);
    assert(replies_agree(base, *old(scene), state, ctx));
    if input == Key::Char('q') {
        request_exit(scene);
        let r = Screen::LogList { level, scroll, follow };
        assert(r@ == log_list_next(level, scroll, follow, input, ctx, base));
        r
    } else if input == Key::Char('h') {
        let r = Screen::SystemList { index: 0, error: None };
        assert(r@ == log_list_next(level, scroll, follow, input, ctx, base));
        r
    } else if input == Key::Char('l') {
        let r = Screen::EntityList(0);
        assert(r@ == log_list_next(level, scroll, follow, input, ctx, base));
        r
    } else if input == Key::Left {
        let r = Screen::LogList { level: log_level_sub(level), scroll: 0, follow };
        assert(r@ == log_list_next(level, scroll, follow, input, ctx, base));
        r
    } else if input == Key::Right {
        let r = Screen::LogList { level: log_level_add(level), scroll: 0, follow };
        assert(r@ == log_list_next(level, scroll, follow, input, ctx, base));
        r
    } else if input == Key::Char('f') {
        let r = Screen::LogList { level, scroll, follow: true };
        assert(r@ == log_list_next(level, scroll, follow, input, ctx, base));
        r
    } else if key_is_down(input) || key_is_up(input) {
        let count = log_display_line_count(scene, level, ctx.log_area_width);
        let ghost w = SceneReplies { log_lines: count, ..base };
        assert(replies_agree(w, *old(scene), state, ctx));
        let limit = max_log_scroll(count, ctx.visible_log_lines);
        let start = if follow {
            limit
        } else {
            clamp_log_scroll(scroll, count, ctx.visible_log_lines)
        };
        let r = if key_is_down(input) {
            Screen::LogList { level, scroll: index_add_no_loop(start, limit), follow: false }
        } else {
            Screen::LogList { level, scroll: index_sub_no_loop(start), follow: false }
        };
        assert(r@ == log_list_next(level, scroll, follow, input, ctx, w));
        r
    } else {
        let r = Screen::LogList { level, scroll, follow };
        assert(r@ == log_list_next(level, scroll, follow, input, ctx, base));
        r
    }
}

/// The keys that close an error message: `q`, Enter and Esc.
pub open spec fn closes_error(input: Key) -> bool {
    input == Key::Char('q') || input == Key::Enter || input == Key::Esc
}

/// Keys on an error message.
pub fn error_step(e: ErrorScreen, input: Key) -> (r: Screen)
    ensures
        closes_error(input) ==> r@ == screen_view(*e.on_close),
        !closes_error(input) ==> r@ == (ScreenView::Error {
            message: e.message@,
            on_close: Box::new(screen_view(*e.on_close)),
        }),
{
    if input == Key::Char('q') || input == Key::Enter || input == Key::Esc {
        *e.on_close
    } else {
        Screen::Error(e)
    }
}

/// The error screen for a typed path that names no file.
fn missing_path_screen(kind: &str, text: &str, back: Screen) -> (r: Screen)
    ensures
        r@ == (ScreenView::Error {
            message: kind@ + " path `"@ + text@ + "` was not found"@,
            on_close: Box::new(back@),
        }),
        screen_wf(back@) ==> screen_wf(r@),
{
    let head = concat(kind, " path `");
    let message = concat3(head.as_str(), text, "` was not found");
    Screen::Error(ErrorScreen::new(message, back))
}

/// Loads the plugin a typed path was found at, or reports that it was not
/// found: `found` is what the asset lookup of `text` answered. Without a
/// file the scene is left as it was; with one, the plugin is loaded from
/// the path's lossy text, and the plugin list follows, or the failure.
pub fn load_found_plugin(scene: &mut Scene, text: &str, found: Option<PathBuf>) -> (r: Screen)
    ensures
        screen_wf(r@),
        match found {
            None => *final(scene) == *old(scene) && r@ == (ScreenView::Error {
                message: "plugin path `"@ + text@ + "` was not found"@,
                on_close: Box::new(ScreenView::PluginList(0)),
            }),
            Some(p) => exists|outcome: Result<(), SceneError>|
                #![trigger plugin_load_outcome(*old(scene), path_lossy_text(p), *final(scene), outcome)]
                plugin_load_outcome(*old(scene), path_lossy_text(p), *final(scene), outcome) && r@
                    == outcome_view(outcome, ScreenView::PluginList(0), ScreenView::PluginList(0)),
        },
{
    match found {
        None => {
            let r = missing_path_screen("plugin", text, Screen::PluginList(0));
            assert("plugin"@ + " path `"@ == "plugin path `"@) by {
                reveal_strlit("plugin");
                reveal_strlit(" path `");
                reveal_strlit("plugin path `");
            }
            r
        },
        Some(path) => {
            let outcome = load_plugin(scene, path_text(&path));
            outcome_screen(outcome, Screen::PluginList(0), Screen::PluginList(0))
        },
    }
}

/// Imports the scene file a typed path was found at, or reports that it was
/// not found: `found` is what the asset lookup of `text` answered. Without a
/// file the scene is left as it was; with one, the scene is loaded from that
/// path, and `on_done` follows, or the failure, which closes onto it.
pub fn import_found_scene(scene: &mut Scene, text: &str, found: Option<PathBuf>, on_done: Screen) -> (r: Screen)
    ensures
        screen_wf(on_done@) ==> screen_wf(r@),
        match found {
            None => *final(scene) == *old(scene) && r@ == (ScreenView::Error {
                message: "scene path `"@ + text@ + "` was not found"@,
                on_close: Box::new(on_done@),
            }),
            Some(p) => exists|outcome: Result<(), SceneError>|
                #![trigger scene_load_outcome(*old(scene), p, *final(scene), outcome)]
                scene_load_outcome(*old(scene), p, *final(scene), outcome) && r@ == outcome_view(
                    outcome,
                    on_done@,
                    on_done@,
                ),
        },
{
    match found {
        None => {
            let r = missing_path_screen("scene", text, on_done);
            assert("scene"@ + " path `"@ == "scene path `"@) by {
                reveal_strlit("scene");
                reveal_strlit(" path `");
                reveal_strlit("scene path `");
            }
            r
        },
        Some(path) => {
            let outcome = load_scene(scene, &path);
            let again = on_done.duplicate();
            outcome_screen(outcome, again, on_done)
        },
    }
}

/// Submits a prompt's text.
pub fn submit_run(submit: PromptSubmit, scene: &mut Scene, text: Vec<char>) -> (r: Screen)
    ensures
        submit_wf(submit@) ==> screen_wf(r@),
        exists|rep: SceneReplies|
            rep.entities == scene_entity_ids(*old(scene)) && r@ == #[trigger] submit_next(
                submit@,
                text@,
                rep,
            ) && call_effect(submit_call(submit@, text@, rep), *old(scene), *final(scene), rep),
{
    let ghost base = agreeing_replies(*scene, ScreenView::EntityList(0));
    let ghost sv = submit@;
    let typed = string_of(text.as_slice());
    match submit {
        PromptSubmit::RenameEntity(id) => {
            let outcome = set_entity_name(scene, id, typed);
            let ghost w = SceneReplies { outcome, ..base };
            let r = outcome_screen(outcome, Screen::EntityDetails(id, 0), Screen::EntityDetails(id, 0));
            assert(r@ == submit_next(sv, text@, w));
            r
        },
        PromptSubmit::CreateEntity => {
            let entity = add_entity(scene);
            let ghost mid = *scene;
            let outcome = set_entity_name(scene, entity, typed);
            let ghost w = SceneReplies { outcome, new_entity: entity, ..base };
            let r = outcome_screen(
                outcome,
                Screen::EntityDetails(entity, 0),
                Screen::EntityDetails(entity, 0),
            );
            assert(r@ == submit_next(sv, text@, w));
            r
        },
        PromptSubmit::CreatePlugin => {
            let found = asset_path(typed.as_str());
            let ghost before = *scene;
            let r = load_found_plugin(scene, typed.as_str(), found);
            let ghost outcome = choose|o: Result<(), SceneError>|
                plugin_load_outcome(before, path_lossy_text(found->0), *scene, o) && r@ == outcome_view(
                    o,
                    ScreenView::PluginList(0),
                    ScreenView::PluginList(0),
                );
            let ghost w = SceneReplies { found, outcome, ..base };
            assert(r@ == submit_next(sv, text@, w));
            r
        },
        PromptSubmit::SaveScene(on_done) => {
            let outcome = save_scene(scene, typed.as_str());
            let ghost w = SceneReplies { outcome, ..base };
            let again = on_done.duplicate();
            let r = outcome_screen(outcome, again, *on_done);
            assert(r@ == submit_next(sv, text@, w));
            r
        },
        PromptSubmit::ImportScene(on_done) => {
            let found = asset_path(typed.as_str());
            let ghost before = *scene;
            let r = import_found_scene(scene, typed.as_str(), found, *on_done);
            let ghost outcome = choose|o: Result<(), SceneError>|
                scene_load_outcome(before, found->0, *scene, o) && r@ == outcome_view(o, on_done@, on_done@);
            let ghost w = SceneReplies { found, outcome, ..base };
            assert(r@ == submit_next(sv, text@, w));
            r
        },
        PromptSubmit::CreateSystemId => {
            let r = blank_prompt_screen(
                String::from_str("System Priority"),
                PromptSubmit::CreateSystemPriority { system_id: typed },
                Screen::SystemList { index: 0, error: None },
            );
            assert(r@ == submit_next(sv, text@, base));
            r
        },
        PromptSubmit::CreateSystemPriority { system_id } => {
            let limit: u64 = usize::MAX as u64;
            assert(limit as nat == usize::MAX as nat);
            match parse_decimal_chars(text.as_slice(), limit) {
                Ok(priority) => {
                    proof {
                        lemma_parse_decimal_bound(text@, usize::MAX as nat);
                    }
                    let outcome = add_system(scene, system_id, priority as usize);
                    let ghost w = SceneReplies { outcome, ..base };
                    let r = outcome_screen(
                        outcome,
                        Screen::SystemList { index: 0, error: None },
                        Screen::SystemList { index: 0, error: None },
                    );
                    assert(r@ == submit_next(sv, text@, w));
                    r
                },
                Err(_) => {
                    let r = Screen::SystemList {
                        index: 0,
                        error: Some(String::from_str("System priority must be a usize")),
                    };
                    assert(r@ == submit_next(sv, text@, base));
                    r
                },
            }
        },
        PromptSubmit::CreateComponent(entity_id) => {
            let outcome = add_component(scene, entity_id, typed.clone());
            let ghost w = SceneReplies { outcome, ..base };
            let r = match outcome {
                Ok(()) => Screen::ComponentDetails {
                    entity_id,
                    component_id: typed,
                    component_index: 0,
                    field_index: 0,
                },
                Err(e) => error_screen(&e, Screen::EntityDetails(entity_id, 0)),
            };
            assert(r@ == submit_next(sv, text@, w));
            r
        },
        PromptSubmit::SetComponentField {
            entity_id,
            component_id,
            field_id,
            component_index,
            field_index,
        } => {
            let outcome = parse_field(
                scene,
                entity_id,
                component_id.as_str(),
                field_id.as_str(),
                typed.as_str(),
            );
            let ghost w = SceneReplies { outcome, ..base };
            let back = Screen::ComponentDetails {
                entity_id,
                component_id: component_id.clone(),
                component_index,
                field_index,
            };
            let r = outcome_screen(
                outcome,
                Screen::ComponentDetails { entity_id, component_id, component_index, field_index },
                back,
            );
            assert(r@ == submit_next(sv, text@, w));
            r
        },
    }
}

/// Keys in a text prompt.
pub fn prompt_step(scene: &mut Scene, prompt: TextPrompt, input: Key) -> (r: Screen)
    requires
        prompt_key_fits(prompt@, input),
    ensures
        prompt_wf(prompt@) ==> screen_wf(r@),
        exists|rep: SceneReplies|
            rep.entities == scene_entity_ids(*old(scene)) && r@ == #[trigger] prompt_next(
                prompt@,
                input,
                rep,
            ) && call_effect(
                key_call(ScreenView::Prompt(prompt@), input, rep),
                *old(scene),
                *final(scene),
                rep,
            ),
{
    let ghost pv = prompt@;
    let ghost base = agreeing_replies(*scene, ScreenView::EntityList(0));
    let mut p = prompt;
    match input {
        Key::Esc => {
            let r = *p.on_cancel;
            assert(r@ == prompt_next(pv, input, base));
            r
        },
        Key::Backspace => {
            if p.offset > 0 {
                p.offset = index_sub_no_loop(p.offset);
                p.text.remove(p.offset);
            }
            assert(prompt_wf(pv) ==> prompt_wf(p@));
            let r = Screen::Prompt(p);
            assert(r@ == prompt_next(pv, input, base));
            r
        },
        Key::Char(c) => {
            p.text.insert(p.offset, c);
            p.offset = index_add_no_loop(p.offset, p.text.len());
            assert(prompt_wf(pv) ==> prompt_wf(p@));
            let r = Screen::Prompt(p);
            assert(r@ == prompt_next(pv, input, base));
            r
        },
        Key::Left => {
            p.offset = index_sub_no_loop(p.offset);
            assert(prompt_wf(pv) ==> prompt_wf(p@));
            let r = Screen::Prompt(p);
            assert(r@ == prompt_next(pv, input, base));
            r
        },
        Key::Right => {
            p.offset = index_add_no_loop(p.offset, p.text.len());
            assert(prompt_wf(pv) ==> prompt_wf(p@));
            let r = Screen::Prompt(p);
            assert(r@ == prompt_next(pv, input, base));
            r
        },
        Key::Enter => {
            let ghost before = *scene;
            let r = submit_run(p.on_submit, scene, p.text);
            let ghost w = choose|w: SceneReplies|
                w.entities == scene_entity_ids(before) && r@ == #[trigger] submit_next(
                    pv.on_submit,
                    pv.text,
                    w,
                ) && call_effect(submit_call(pv.on_submit, pv.text, w), before, *scene, w);
            assert(r@ == prompt_next(pv, input, w));
            r
        },
        _ => {
            let r = Screen::Prompt(p);
            assert(r@ == prompt_next(pv, input, base));
            r
        },
    }
}

/// The screen a key press leads to. The scene is asked exactly what the
/// current screen needs, and the result is the one `next_screen` gives for
/// the scene's answers.
pub fn transition(scene: &mut Scene, input: Key, context: InputContext, state: Screen) -> (r: Screen)
    requires
        key_fits(state@, input),
    ensures
        screen_wf(state@) ==> screen_wf(r@),
        exists|rep: SceneReplies|
            replies_agree(rep, *old(scene), state@, context) && r@ == #[trigger] next_screen(
                state@,
                input,
                context,
                rep,
            ) && call_effect(key_call(state@, input, rep), *old(scene), *final(scene), rep),
{
    let ghost sv = state@;
    let ghost before = *scene;
    match state {
        Screen::EntityList(index) => {
            let r = entity_list_step(scene, index, input, context);
            let ghost w = choose|w: SceneReplies|
                replies_agree(w, before, sv, context) && r@ == #[trigger] entity_list_next(index, input, w)
                    && call_effect(key_call(sv, input, w), before, *scene, w);
            assert(r@ == next_screen(sv, input, context, w));
            r
        },
        Screen::EntityDetails(id, ci) => {
            let r = entity_details_step(scene, id, ci, input, context);
            let ghost w = choose|w: SceneReplies|
                replies_agree(w, before, sv, context) && r@ == #[trigger] entity_details_next(id, ci, input, w)
                    && call_effect(key_call(sv, input, w), before, *scene, w);
            assert(r@ == next_screen(sv, input, context, w));
            r
        },
        Screen::ComponentDetails { entity_id, component_id, component_index, field_index } => {
            let ghost cid = component_id@;
            let r = component_details_step(
                scene,
                entity_id,
                component_id,
                component_index,
                field_index,
                input,
                context,
            );
            let ghost w = choose|w: SceneReplies|
                replies_agree(w, before, sv, context) && r@ == #[trigger] component_details_next(
                    entity_id,
                    cid,
                    component_index,
                    field_index,
                    input,
                    w,
                ) && call_effect(key_call(sv, input, w), before, *scene, w);
            assert(r@ == next_screen(sv, input, context, w));
            r
        },
        Screen::PluginList(index) => {
            let r = plugin_list_step(scene, index, input, context);
            let ghost w = choose|w: SceneReplies|
                replies_agree(w, before, sv, context) && r@ == #[trigger] plugin_list_next(index, input, w)
                    && call_effect(key_call(sv, input, w), before, *scene, w);
            assert(r@ == next_screen(sv, input, context, w));
            r
        },
        Screen::SystemList { index, error } => {
            let ghost notice = notice_view(error);
            let r = system_list_step(scene, index, error, input, context);
            let ghost w = choose|w: SceneReplies|
                replies_agree(w, before, sv, context) && r@ == #[trigger] system_list_next(
                    index,
                    notice,
                    input,
                    w,
                ) && call_effect(key_call(sv, input, w), before, *scene, w);
            assert(r@ == next_screen(sv, input, context, w));
            r
        },
        Screen::LogList { level, scroll, follow } => {
            let r = log_list_step(scene, level, scroll, follow, input, context);
            let ghost w = choose|w: SceneReplies|
                replies_agree(w, before, sv, context) && r@ == #[trigger] log_list_next(
                    level,
                    scroll,
                    follow,
                    input,
                    context,
                    w,
                ) && call_effect(key_call(sv, input, w), before, *scene, w);
            assert(r@ == next_screen(sv, input, context, w));
            r
        },
        Screen::Prompt(p) => {
            let r = prompt_step(scene, p, input);
            let ghost w = choose|w: SceneReplies|
                w.entities == scene_entity_ids(before) && r@ == #[trigger] prompt_next(
                    sv->Prompt_0,
                    input,
                    w,
                ) && call_effect(key_call(sv, input, w), before, *scene, w);
            assert(replies_agree(w, before, sv, context));
            assert(r@ == next_screen(sv, input, context, w));
            r
        },
        Screen::Error(e) => {
            let r = error_step(e, input);
            let ghost w = agreeing_replies(before, sv);
            assert(replies_agree(w, before, sv, context));
            assert(r@ == next_screen(sv, input, context, w));
            r
        },
    }
}

} // verus!
