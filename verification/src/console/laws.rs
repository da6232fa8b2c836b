//! Laws of the scene console's state machine, over `next_screen`.
use vstd::prelude::*;
use wasserxr::error::SceneError;
use wasserxr::scene::logging::LogLevel;
use crate::console::keys::Key;
use crate::console::navigation::{
    add_with_loop,
    lemma_loop_steps_undo,
    level_down,
    level_rank,
    level_up,
    log_scroll_limit,
    sub_with_loop,
};
use crate::console::screen::{PromptView, ScreenView, SubmitView, prompt_wf, screen_wf, submit_wf};
use crate::console::scene_calls::{entity_removed, scene_entity_ids};
use crate::console::transition::{
    InputContext,
    SceneCall,
    SceneReplies,
    call_effect,
    closes_error,
    key_call,
    lemma_position_of,
    next_screen,
    save_prompt,
    submit_call,
    submit_next,
};
use crate::utils::decimal::parse_decimal;
use crate::console::failure::scene_failure_text;
use wasserxr::scene::Scene;

verus! {

/// `q`, Enter and Esc close an error message and show the screen it was
/// opened over; every other key leaves it up.
pub proof fn law_error_closes(
    message: Seq<char>,
    on_close: ScreenView,
    input: Key,
    ctx: InputContext,
    rep: SceneReplies,
)
    ensures
        closes_error(input) ==> next_screen(
            ScreenView::Error { message, on_close: Box::new(on_close) },
            input,
            ctx,
            rep,
        ) == on_close,
        !closes_error(input) ==> next_screen(
            ScreenView::Error { message, on_close: Box::new(on_close) },
            input,
            ctx,
            rep,
        ) == (ScreenView::Error { message, on_close: Box::new(on_close) }),
        key_call(ScreenView::Error { message, on_close: Box::new(on_close) }, input, rep)
            == SceneCall::Nothing,
{
}

/// Esc in a prompt abandons it and shows the screen it was opened from,
/// whatever was typed; nothing is submitted.
pub proof fn law_prompt_cancel(p: PromptView, ctx: InputContext, rep: SceneReplies)
    ensures
        next_screen(ScreenView::Prompt(p), Key::Esc, ctx, rep) == *p.on_cancel,
        key_call(ScreenView::Prompt(p), Key::Esc, rep) == SceneCall::Nothing,
{
}

/// Every key but Enter only edits a prompt: the scene is asked for nothing.
/// Enter submits the whole typed text, wherever the cursor is: the screen
/// and the scene operation are those of the prompt's submit action on that
/// text.
pub proof fn law_prompt_submits_only_on_enter(p: PromptView, input: Key, ctx: InputContext, rep: SceneReplies)
    ensures
        input != Key::Enter ==> key_call(ScreenView::Prompt(p), input, rep) == SceneCall::Nothing,
        next_screen(ScreenView::Prompt(p), Key::Enter, ctx, rep) == submit_next(p.on_submit, p.text, rep),
        key_call(ScreenView::Prompt(p), Key::Enter, rep) == submit_call(p.on_submit, p.text, rep),
{
}

/// Renaming an entity hands the typed text to the scene as the new name.
pub proof fn law_rename_uses_typed_text(id: u128, text: Seq<char>, rep: SceneReplies)
    ensures
        submit_call(SubmitView::RenameEntity(id), text, rep) == SceneCall::RenameEntity(id, text),
{
}

/// A system priority that is not a `usize` adds no system: the scene is
/// left as it was.
pub proof fn law_bad_priority_adds_no_system(
    system_id: Seq<char>,
    text: Seq<char>,
    before: Scene,
    after: Scene,
    rep: SceneReplies,
)
    requires
        parse_decimal(text, usize::MAX as nat) is Err,
        call_effect(
            submit_call(SubmitView::CreateSystemPriority { system_id }, text, rep),
            before,
            after,
            rep,
        ),
    ensures
        after == before,
{
}

/// A plugin or scene path that names no file loads nothing: the scene is
/// left as it was.
pub proof fn law_missing_path_loads_nothing(
    submit: SubmitView,
    text: Seq<char>,
    before: Scene,
    after: Scene,
    rep: SceneReplies,
)
    requires
        submit == SubmitView::CreatePlugin || submit is ImportScene,
        rep.found is None,
        call_effect(submit_call(submit, text, rep), before, after, rep),
    ensures
        after == before,
{
}

/// Typing a character and then Backspace gives back the prompt as it was.
pub proof fn law_prompt_type_then_erase(
    p: PromptView,
    c: char,
    ctx: InputContext,
    rep1: SceneReplies,
    rep2: SceneReplies,
)
    requires
        prompt_wf(p),
        p.offset < usize::MAX,
    ensures
        next_screen(
            next_screen(ScreenView::Prompt(p), Key::Char(c), ctx, rep1),
            Key::Backspace,
            ctx,
            rep2,
        ) == ScreenView::Prompt(p),
        key_call(ScreenView::Prompt(p), Key::Char(c), rep1) == SceneCall::Nothing,
        key_call(next_screen(ScreenView::Prompt(p), Key::Char(c), ctx, rep1), Key::Backspace, rep2)
            == SceneCall::Nothing,
{
    let typed = p.text.insert(p.offset as int, c);
    assert(typed.remove(p.offset as int) =~= p.text);
}

/// Left then Right, away from the start of the text, and Right then Left,
/// away from its end, leave the cursor where it was.
pub proof fn law_prompt_cursor_round_trip(p: PromptView, ctx: InputContext, rep: SceneReplies)
    requires
        prompt_wf(p),
        p.text.len() <= usize::MAX,
    ensures
        p.offset > 0 ==> next_screen(
            next_screen(ScreenView::Prompt(p), Key::Left, ctx, rep),
            Key::Right,
            ctx,
            rep,
        ) == ScreenView::Prompt(p),
        p.offset < p.text.len() ==> next_screen(
            next_screen(ScreenView::Prompt(p), Key::Right, ctx, rep),
            Key::Left,
            ctx,
            rep,
        ) == ScreenView::Prompt(p),
{
}

/// Every key keeps a prompt's cursor inside its text.
pub proof fn law_prompt_cursor_in_text(p: PromptView, input: Key, ctx: InputContext, rep: SceneReplies)
    requires
        prompt_wf(p),
        p.text.len() < usize::MAX,
    ensures
        (next_screen(ScreenView::Prompt(p), input, ctx, rep) matches ScreenView::Prompt(q) ==> q.offset
            <= q.text.len()),
{
    if input == Key::Esc {
        assert(screen_wf(*p.on_cancel));
        match *p.on_cancel {
            ScreenView::Prompt(q) => assert(prompt_wf(q)),
            _ => {},
        }
    }
    if input == Key::Enter {
        assert(submit_wf(p.on_submit));
        match p.on_submit {
            SubmitView::SaveScene(b) => {
                assert(screen_wf(*b));
                match *b {
                    ScreenView::Prompt(q) => assert(prompt_wf(q)),
                    _ => {},
                }
            },
            SubmitView::ImportScene(b) => {
                assert(screen_wf(*b));
                match *b {
                    ScreenView::Prompt(q) => assert(prompt_wf(q)),
                    _ => {},
                }
            },
            _ => {},
        }
    }
}

/// `l` (or Right) walks the tabs Entities, Plugins, Systems, Log and back to
/// the first entity; each tab opens with its cursor on the first row and the
/// log following new entries.
pub proof fn law_tabs_cycle_right(
    index: usize,
    ctx: InputContext,
    r1: SceneReplies,
    r2: SceneReplies,
    r3: SceneReplies,
    r4: SceneReplies,
)
    ensures
        next_screen(ScreenView::EntityList(index), Key::Char('l'), ctx, r1) == ScreenView::PluginList(0),
        next_screen(ScreenView::PluginList(0), Key::Char('l'), ctx, r2) == (ScreenView::SystemList {
            index: 0,
            error: None,
        }),
        next_screen(ScreenView::SystemList { index: 0, error: None }, Key::Char('l'), ctx, r3)
            == (ScreenView::LogList { level: LogLevel::DEBUG, scroll: 0, follow: true }),
        next_screen(
            ScreenView::LogList { level: LogLevel::DEBUG, scroll: 0, follow: true },
            Key::Char('l'),
            ctx,
            r4,
        ) == ScreenView::EntityList(0),
        key_call(ScreenView::EntityList(index), Key::Char('l'), r1) == SceneCall::Nothing,
        key_call(ScreenView::PluginList(0), Key::Char('l'), r2) == SceneCall::Nothing,
        key_call(ScreenView::SystemList { index: 0, error: None }, Key::Char('l'), r3)
            == SceneCall::Nothing,
        key_call(
            ScreenView::LogList { level: LogLevel::DEBUG, scroll: 0, follow: true },
            Key::Char('l'),
            r4,
        ) == SceneCall::Nothing,
{
}

/// `h` walks the tabs the other way round: Entities, Log, Systems, Plugins
/// and back to the first entity.
pub proof fn law_tabs_cycle_left(
    index: usize,
    ctx: InputContext,
    r1: SceneReplies,
    r2: SceneReplies,
    r3: SceneReplies,
    r4: SceneReplies,
)
    ensures
        next_screen(ScreenView::EntityList(index), Key::Char('h'), ctx, r1) == (ScreenView::LogList {
            level: LogLevel::DEBUG,
            scroll: 0,
            follow: true,
        }),
        next_screen(
            ScreenView::LogList { level: LogLevel::DEBUG, scroll: 0, follow: true },
            Key::Char('h'),
            ctx,
            r2,
        ) == (ScreenView::SystemList { index: 0, error: None }),
        next_screen(ScreenView::SystemList { index: 0, error: None }, Key::Char('h'), ctx, r3)
            == ScreenView::PluginList(0),
        next_screen(ScreenView::PluginList(0), Key::Char('h'), ctx, r4) == ScreenView::EntityList(0),
        key_call(ScreenView::EntityList(index), Key::Char('h'), r1) == SceneCall::Nothing,
        key_call(
            ScreenView::LogList { level: LogLevel::DEBUG, scroll: 0, follow: true },
            Key::Char('h'),
            r2,
        ) == SceneCall::Nothing,
        key_call(ScreenView::SystemList { index: 0, error: None }, Key::Char('h'), r3)
            == SceneCall::Nothing,
        key_call(ScreenView::PluginList(0), Key::Char('h'), r4) == SceneCall::Nothing,
{
}

/// `q` on the entity, plugin, system and log screens asks the scene to stop
/// and stays on the screen.
pub proof fn law_quit_asks_exit(state: ScreenView, ctx: InputContext, rep: SceneReplies)
    requires
        state is EntityList || state is PluginList || state is SystemList || state is LogList,
    ensures
        key_call(state, Key::Char('q'), rep) == SceneCall::Exit,
        next_screen(state, Key::Char('q'), ctx, rep) == state,
{
}

/// On the entity list, Down then Up (and Up then Down) bring the cursor back
/// to the entity it was on, as long as the list did not change in between;
/// each step keeps it on an entity.
pub proof fn law_entity_cursor_round_trip(index: usize, ctx: InputContext, rep: SceneReplies)
    requires
        index < rep.entities.len(),
        rep.entities.len() <= usize::MAX,
    ensures
        next_screen(
            next_screen(ScreenView::EntityList(index), Key::Down, ctx, rep),
            Key::Up,
            ctx,
            rep,
        ) == ScreenView::EntityList(index),
        next_screen(
            next_screen(ScreenView::EntityList(index), Key::Up, ctx, rep),
            Key::Down,
            ctx,
            rep,
        ) == ScreenView::EntityList(index),
        (next_screen(ScreenView::EntityList(index), Key::Down, ctx, rep) matches ScreenView::EntityList(
            j,
        ) && j < rep.entities.len()),
        (next_screen(ScreenView::EntityList(index), Key::Up, ctx, rep) matches ScreenView::EntityList(j)
            && j < rep.entities.len()),
{
    let n = rep.entities.len() as int;
    lemma_loop_steps_undo(index as int, n);
}

/// Deleting the entity under the cursor leaves the cursor on an entity of
/// the shortened list (or at the top when none is left).
pub proof fn law_entity_delete_keeps_cursor(index: usize, ctx: InputContext, rep: SceneReplies)
    requires
        index < rep.entities.len(),
    ensures
        (next_screen(ScreenView::EntityList(index), Key::Char('D'), ctx, rep) matches ScreenView::EntityList(
            j,
        ) && (j < rep.entities.len() - 1 || j == 0) && j <= index),
        key_call(ScreenView::EntityList(index), Key::Char('D'), rep) == SceneCall::RemoveEntity(
            rep.entities[index as int],
        ),
{
}

/// `D` on the entity list removes exactly the entity under the cursor: when
/// the list read was the scene's, the scene's list afterwards is the old one
/// without that entity.
pub proof fn law_entity_delete_removes_that_entity(
    index: usize,
    before: Scene,
    after: Scene,
    rep: SceneReplies,
)
    requires
        index < rep.entities.len(),
        rep.entities == scene_entity_ids(before),
        call_effect(key_call(ScreenView::EntityList(index), Key::Char('D'), rep), before, after, rep),
    ensures
        scene_entity_ids(after) == scene_entity_ids(before).filter(
            |x: u128| x != scene_entity_ids(before)[index as int],
        ),
        !scene_entity_ids(after).contains(scene_entity_ids(before)[index as int]),
{
    let id = scene_entity_ids(before)[index as int];
    assert(entity_removed(before, id, after, rep.outcome));
    if scene_entity_ids(after).contains(id) {
        let k = choose|k: int| 0 <= k < scene_entity_ids(after).len() && scene_entity_ids(after)[k] == id;
        scene_entity_ids(before).lemma_filter_pred(|x: u128| x != id, k);
    }
}

/// Scrolling the log stops following new entries and never scrolls past the
/// last page of the log.
pub proof fn law_log_scroll_bounded(
    level: LogLevel,
    scroll: usize,
    follow: bool,
    input: Key,
    ctx: InputContext,
    rep: SceneReplies,
)
    requires
        input == Key::Down || input == Key::Up || input == Key::Char('j') || input == Key::Char('k'),
    ensures
        (next_screen(ScreenView::LogList { level, scroll, follow }, input, ctx, rep) matches ScreenView::LogList {
            level: l,
            scroll: s,
            follow: f,
        } && l == level && !f && s <= log_scroll_limit(
            rep.log_lines as int,
            ctx.visible_log_lines as int,
        )),
        key_call(ScreenView::LogList { level, scroll, follow }, input, rep) == SceneCall::Nothing,
{
}

/// The save prompt leads back to the screen it was opened from, whether it
/// is cancelled, the save succeeds, or the save fails (then through an error
/// message that closes onto that screen).
pub proof fn law_save_prompt_returns(on_done: ScreenView, text: Seq<char>, ctx: InputContext, rep: SceneReplies)
    ensures
        next_screen(save_prompt(on_done), Key::Esc, ctx, rep) == on_done,
        rep.outcome is Ok ==> next_screen(save_prompt(on_done), Key::Enter, ctx, rep) == on_done,
        rep.outcome is Err ==> (next_screen(save_prompt(on_done), Key::Enter, ctx, rep) matches ScreenView::Error {
            on_close,
            ..
        } && *on_close == on_done),
{
}

/// Enter on an entity and then Esc come back to that entity's row, as long
/// as the entity list (in which no entity occurs twice) did not change in
/// between.
pub proof fn law_open_then_close_entity(
    index: usize,
    ctx: InputContext,
    rep1: SceneReplies,
    rep2: SceneReplies,
)
    requires
        index < rep1.entities.len(),
        rep1.entities.no_duplicates(),
        rep2.entities == rep1.entities,
    ensures
        next_screen(ScreenView::EntityList(index), Key::Enter, ctx, rep1) == ScreenView::EntityDetails(
            rep1.entities[index as int],
            0,
        ),
        next_screen(
            next_screen(ScreenView::EntityList(index), Key::Enter, ctx, rep1),
            Key::Esc,
            ctx,
            rep2,
        ) == ScreenView::EntityList(index),
{
    let s = rep1.entities;
    assert forall|j: int| 0 <= j < index implies s[j] != s[index as int] by {}
    lemma_position_of(s, s[index as int], index as int);
}

/// Esc on a component's screen goes back to its entity, with the cursor on
/// that component.
pub proof fn law_component_back(
    entity_id: u128,
    component_id: Seq<char>,
    component_index: usize,
    field_index: usize,
    ctx: InputContext,
    rep: SceneReplies,
)
    ensures
        next_screen(
            ScreenView::ComponentDetails { entity_id, component_id, component_index, field_index },
            Key::Esc,
            ctx,
            rep,
        ) == ScreenView::EntityDetails(entity_id, component_index),
{
}

/// Deleting the component under the cursor leaves the cursor on a component
/// of the shortened list (or at the top when none is left).
pub proof fn law_component_delete_keeps_cursor(
    id: u128,
    index: usize,
    components: Seq<Seq<char>>,
    ctx: InputContext,
    rep: SceneReplies,
)
    requires
        rep.components == Ok::<Seq<Seq<char>>, SceneError>(components),
        index < components.len(),
    ensures
        (next_screen(ScreenView::EntityDetails(id, index), Key::Char('D'), ctx, rep) matches ScreenView::EntityDetails(
            i,
            j,
        ) && i == id && (j < components.len() - 1 || j == 0) && j <= index),
{
}

/// Enter on an entity's screen opens the component under the cursor: the
/// component at the cursor's position in the entity's component list, with
/// the cursor kept and the field cursor on the first field. The scene is
/// asked for nothing.
pub proof fn law_enter_opens_component_under_cursor(
    id: u128,
    ci: usize,
    components: Seq<Seq<char>>,
    ctx: InputContext,
    rep: SceneReplies,
)
    requires
        rep.components == Ok::<Seq<Seq<char>>, SceneError>(components),
        ci < components.len(),
    ensures
        next_screen(ScreenView::EntityDetails(id, ci), Key::Enter, ctx, rep) == (ScreenView::ComponentDetails {
            entity_id: id,
            component_id: components[ci as int],
            component_index: ci,
            field_index: 0,
        }),
        key_call(ScreenView::EntityDetails(id, ci), Key::Enter, rep) == SceneCall::Nothing,
        forall|j: int|
            0 <= j < components.len() && components[j] != components[ci as int] ==> next_screen(
                ScreenView::EntityDetails(id, ci),
                Key::Enter,
                ctx,
                rep,
            ) != (ScreenView::ComponentDetails {
                entity_id: id,
                component_id: components[j],
                component_index: ci,
                field_index: 0,
            }),
{
}

/// One row down or up a wrapping list of `len` rows, as plain arithmetic.
proof fn lemma_loop_step_values(index: int, len: int)
    requires
        0 <= index < len,
    ensures
        add_with_loop(index, len) == (if index + 1 < len {
            index + 1
        } else {
            0
        }),
        sub_with_loop(index, len) == (if index > 0 {
            index - 1
        } else {
            len - 1
        }),
{
    if index + 1 == len {
        assert((index + 1) % len == 0) by (nonlinear_arith)
            requires
                index + 1 == len,
                len > 0,
        ;
    } else {
        assert((index + 1) % len == index + 1) by (nonlinear_arith)
            requires
                0 <= index + 1 < len,
        ;
    }
}

/// On the entity, plugin and system lists Down/`j` moves the cursor to the
/// next row, from the last row round to the first, and Up/`k` to the
/// previous row, from the first round to the last. The plugin list's rows
/// are the built-in static plugin followed by the loaded plugins. Moving
/// asks nothing of the scene.
pub proof fn law_list_cursor_moves_one_row(index: usize, input: Key, ctx: InputContext, rep: SceneReplies)
    requires
        input == Key::Down || input == Key::Char('j') || input == Key::Up || input == Key::Char('k'),
    ensures
        index < rep.entities.len() ==> next_screen(ScreenView::EntityList(index), input, ctx, rep)
            == ScreenView::EntityList(
            (if input == Key::Down || input == Key::Char('j') {
                if index + 1 < rep.entities.len() {
                    index + 1
                } else {
                    0
                }
            } else if index > 0 {
                index - 1
            } else {
                rep.entities.len() - 1
            }) as usize,
        ),
        index < rep.plugins.len() + 1 ==> next_screen(ScreenView::PluginList(index), input, ctx, rep)
            == ScreenView::PluginList(
            (if input == Key::Down || input == Key::Char('j') {
                if index < rep.plugins.len() {
                    index + 1
                } else {
                    0
                }
            } else if index > 0 {
                index - 1
            } else {
                rep.plugins.len() as int
            }) as usize,
        ),
        index < rep.systems.len() ==> next_screen(
            ScreenView::SystemList { index, error: None },
            input,
            ctx,
            rep,
        ) == (ScreenView::SystemList {
            index: (if input == Key::Down || input == Key::Char('j') {
                if index + 1 < rep.systems.len() {
                    index + 1
                } else {
                    0
                }
            } else if index > 0 {
                index - 1
            } else {
                rep.systems.len() - 1
            }) as usize,
            error: None,
        }),
        key_call(ScreenView::EntityList(index), input, rep) == SceneCall::Nothing,
        key_call(ScreenView::PluginList(index), input, rep) == SceneCall::Nothing,
        key_call(ScreenView::SystemList { index, error: None }, input, rep) == SceneCall::Nothing,
{
    if index < rep.entities.len() {
        lemma_loop_step_values(index as int, rep.entities.len() as int);
    }
    if index < rep.plugins.len() + 1 {
        lemma_loop_step_values(index as int, rep.plugins.len() + 1int);
    }
    if index < rep.systems.len() {
        lemma_loop_step_values(index as int, rep.systems.len() as int);
    }
}

/// On an entity's screen Down/`j` and Up/`k` move the cursor to the next or
/// previous component, wrapping at both ends; on a component's screen they
/// move the field cursor the same way over the component's fields.
pub proof fn law_detail_cursor_moves_one_row(
    id: u128,
    component_id: Seq<char>,
    ci: usize,
    fi: usize,
    input: Key,
    components: Seq<Seq<char>>,
    fields: Seq<Seq<char>>,
    ctx: InputContext,
    rep: SceneReplies,
)
    requires
        input == Key::Down || input == Key::Char('j') || input == Key::Up || input == Key::Char('k'),
        rep.components == Ok::<Seq<Seq<char>>, SceneError>(components),
        rep.fields == Ok::<Seq<Seq<char>>, SceneError>(fields),
    ensures
        ci < components.len() ==> next_screen(ScreenView::EntityDetails(id, ci), input, ctx, rep)
            == ScreenView::EntityDetails(
            id,
            (if input == Key::Down || input == Key::Char('j') {
                if ci + 1 < components.len() {
                    ci + 1
                } else {
                    0
                }
            } else if ci > 0 {
                ci - 1
            } else {
                components.len() - 1
            }) as usize,
        ),
        fi < fields.len() ==> next_screen(
            ScreenView::ComponentDetails {
                entity_id: id,
                component_id,
                component_index: ci,
                field_index: fi,
            },
            input,
            ctx,
            rep,
        ) == (ScreenView::ComponentDetails {
            entity_id: id,
            component_id,
            component_index: ci,
            field_index: (if input == Key::Down || input == Key::Char('j') {
                if fi + 1 < fields.len() {
                    fi + 1
                } else {
                    0
                }
            } else if fi > 0 {
                fi - 1
            } else {
                fields.len() - 1
            }) as usize,
        }),
        key_call(ScreenView::EntityDetails(id, ci), input, rep) == SceneCall::Nothing,
{
    if ci < components.len() {
        lemma_loop_step_values(ci as int, components.len() as int);
    }
    if fi < fields.len() {
        lemma_loop_step_values(fi as int, fields.len() as int);
    }
}

/// `D` asks the scene to delete the row under the cursor: on an entity's
/// screen the component at the cursor, on the plugin list the plugin of that
/// row (the first row being the built-in static plugin, named by the empty
/// text), on the system list the system at the cursor. With the cursor past
/// the list, nothing is asked.
pub proof fn law_delete_asks_for_row_under_cursor(
    id: u128,
    index: usize,
    error: Option<Seq<char>>,
    components: Seq<Seq<char>>,
    rep: SceneReplies,
)
    requires
        rep.components == Ok::<Seq<Seq<char>>, SceneError>(components),
    ensures
        index < components.len() ==> key_call(ScreenView::EntityDetails(id, index), Key::Char('D'), rep)
            == SceneCall::RemoveComponent(id, components[index as int]),
        index >= components.len() ==> key_call(ScreenView::EntityDetails(id, index), Key::Char('D'), rep)
            == SceneCall::Nothing,
        key_call(ScreenView::PluginList(0), Key::Char('D'), rep) == SceneCall::UnloadPlugin(Seq::empty()),
        0 < index <= rep.plugins.len() ==> key_call(ScreenView::PluginList(index), Key::Char('D'), rep)
            == SceneCall::UnloadPlugin(rep.plugins[index - 1]),
        index > rep.plugins.len() ==> key_call(ScreenView::PluginList(index), Key::Char('D'), rep)
            == SceneCall::Nothing,
        index < rep.systems.len() ==> key_call(ScreenView::SystemList { index, error }, Key::Char('D'), rep)
            == SceneCall::RemoveSystem(rep.systems[index as int]),
        index >= rep.systems.len() ==> key_call(ScreenView::SystemList { index, error }, Key::Char('D'), rep)
            == SceneCall::Nothing,
{
}

/// Enter on an editable field opens a prompt on the field under the cursor:
/// titled with the component and field names, holding the field's current
/// text with the cursor at its end, going back to the component's screen
/// when cancelled. Submitting it asks the scene to set that field of that
/// component to the typed text. A field that is not editable opens nothing.
pub proof fn law_field_edit_targets_field_under_cursor(
    id: u128,
    component_id: Seq<char>,
    ci: usize,
    fi: usize,
    fields: Seq<Seq<char>>,
    current: Seq<char>,
    typed: Seq<char>,
    ctx: InputContext,
    rep: SceneReplies,
)
    requires
        rep.fields == Ok::<Seq<Seq<char>>, SceneError>(fields),
        fi < fields.len(),
        rep.rendered == Ok::<Seq<char>, SceneError>(current),
        current.len() <= usize::MAX,
    ensures
        ({
            let here = ScreenView::ComponentDetails {
                entity_id: id,
                component_id,
                component_index: ci,
                field_index: fi,
            };
            &&& (rep.field_mutable == Ok::<bool, SceneError>(true) && rep.field_parsable == Ok::<
                bool,
                SceneError,
            >(true)) ==> (next_screen(here, Key::Enter, ctx, rep) matches ScreenView::Prompt(p) && p.title
                == "Set "@ + component_id + "."@ + fields[fi as int] && p.text == current && p.offset
                == current.len() && *p.on_cancel == here && key_call(
                ScreenView::Prompt(PromptView { text: typed, ..p }),
                Key::Enter,
                rep,
            ) == SceneCall::SetField(id, component_id, fields[fi as int], typed))
            &&& !(rep.field_mutable == Ok::<bool, SceneError>(true) && rep.field_parsable == Ok::<
                bool,
                SceneError,
            >(true)) ==> next_screen(here, Key::Enter, ctx, rep) == here
            &&& key_call(here, Key::Enter, rep) == SceneCall::Nothing
        }),
{
}

/// On the log view Down/`j` scrolls one line further and Up/`k` one line
/// back, from where the view stands: the last page when it follows new
/// entries, else its offset pulled into range. Down stops at the last page
/// and Up at the first line; either stops following.
pub proof fn law_log_scroll_steps(
    level: LogLevel,
    scroll: usize,
    follow: bool,
    input: Key,
    ctx: InputContext,
    rep: SceneReplies,
)
    requires
        input == Key::Down || input == Key::Up || input == Key::Char('j') || input == Key::Char('k'),
    ensures
        ({
            let limit = log_scroll_limit(rep.log_lines as int, ctx.visible_log_lines as int);
            let from = if follow || scroll > limit {
                limit
            } else {
                scroll as int
            };
            let to = if input == Key::Down || input == Key::Char('j') {
                if from < limit {
                    from + 1
                } else {
                    limit
                }
            } else if from > 0 {
                from - 1
            } else {
                0
            };
            next_screen(ScreenView::LogList { level, scroll, follow }, input, ctx, rep) == (ScreenView::LogList {
                level,
                scroll: to as usize,
                follow: false,
            })
        }),
{
}

/// Left and Right on the log view move the level filter one level towards
/// Debug or towards Error, starting again from the top of the log, and keep
/// following as before.
pub proof fn law_log_level_keys(level: LogLevel, scroll: usize, follow: bool, ctx: InputContext, rep: SceneReplies)
    ensures
        next_screen(ScreenView::LogList { level, scroll, follow }, Key::Right, ctx, rep) == (ScreenView::LogList {
            level: level_up(level),
            scroll: 0,
            follow,
        }),
        next_screen(ScreenView::LogList { level, scroll, follow }, Key::Left, ctx, rep) == (ScreenView::LogList {
            level: level_down(level),
            scroll: 0,
            follow,
        }),
        level != LogLevel::ERROR ==> level_rank(level_up(level)) == level_rank(level) + 1,
        level != LogLevel::DEBUG ==> level_rank(level_down(level)) + 1 == level_rank(level),
        next_screen(ScreenView::LogList { level, scroll, follow }, Key::Char('f'), ctx, rep) == (ScreenView::LogList {
            level,
            scroll,
            follow: true,
        }),
{
}

/// Adding goes through an empty prompt that cancels back to where it was
/// opened (the rename prompt back to the entity's first row), and the text
/// typed into it is what is added: `a` on the entity list creates an entity
/// of that name and opens it; `a` on an entity's screen adds a component of
/// that id to that entity and, once added, opens it; `r` there renames the
/// entity to the text; `a` on the plugin list loads the plugin found at that
/// path; `a` on the system list asks for the system id and then for its
/// priority, and adds that system with the priority when it parses.
pub proof fn law_add_prompts_use_typed_text(
    index: usize,
    id: u128,
    error: Option<Seq<char>>,
    text: Seq<char>,
    priority: Seq<char>,
    ctx: InputContext,
    rep: SceneReplies,
)
    ensures
        next_screen(ScreenView::EntityList(index), Key::Char('a'), ctx, rep) matches ScreenView::Prompt(p)
            && p.text.len() == 0 && p.offset == 0 && *p.on_cancel == ScreenView::EntityList(index)
            && submit_call(p.on_submit, text, rep) == SceneCall::CreateEntity(text) && submit_next(
            p.on_submit,
            text,
            rep,
        ) == ScreenView::EntityDetails(rep.new_entity, 0),
        next_screen(ScreenView::EntityDetails(id, index), Key::Char('a'), ctx, rep) matches ScreenView::Prompt(
            p,
        ) && p.text.len() == 0 && p.offset == 0 && *p.on_cancel == ScreenView::EntityDetails(id, index)
            && submit_call(p.on_submit, text, rep) == SceneCall::AddComponent(id, text) && (rep.outcome is Ok
            ==> submit_next(p.on_submit, text, rep) == (ScreenView::ComponentDetails {
            entity_id: id,
            component_id: text,
            component_index: 0,
            field_index: 0,
        })),
        next_screen(ScreenView::EntityDetails(id, index), Key::Char('r'), ctx, rep) matches ScreenView::Prompt(
            p,
        ) && p.text.len() == 0 && *p.on_cancel == ScreenView::EntityDetails(id, 0) && submit_call(
            p.on_submit,
            text,
            rep,
        ) == SceneCall::RenameEntity(id, text),
        next_screen(ScreenView::PluginList(index), Key::Char('a'), ctx, rep) matches ScreenView::Prompt(p)
            && p.text.len() == 0 && *p.on_cancel == ScreenView::PluginList(index) && submit_call(
            p.on_submit,
            text,
            rep,
        ) == SceneCall::LoadPlugin(text, rep.found),
        next_screen(ScreenView::SystemList { index, error }, Key::Char('a'), ctx, rep) matches ScreenView::Prompt(
            p,
        ) && p.text.len() == 0 && *p.on_cancel == (ScreenView::SystemList { index, error: None })
            && submit_call(p.on_submit, text, rep) == SceneCall::Nothing && (submit_next(
            p.on_submit,
            text,
            rep,
        ) matches ScreenView::Prompt(q) && q.text.len() == 0 && submit_call(q.on_submit, priority, rep)
            == (match parse_decimal(priority, usize::MAX as nat) {
            Ok(v) => SceneCall::AddSystem(text, v as usize),
            Err(_) => SceneCall::Nothing,
        })),
{
}

/// `r` on the entity and plugin lists asks the scene to reload and stays on
/// the list when that succeeds; when it fails, the failure is shown over the
/// list. The system list behaves the same, except that the failure shown
/// closes onto the list without the message it had.
pub proof fn law_reload_reports_failure(index: usize, error: Option<Seq<char>>, ctx: InputContext, rep: SceneReplies)
    ensures
        key_call(ScreenView::EntityList(index), Key::Char('r'), rep) == SceneCall::Reload,
        key_call(ScreenView::PluginList(index), Key::Char('r'), rep) == SceneCall::Reload,
        key_call(ScreenView::SystemList { index, error }, Key::Char('r'), rep) == SceneCall::Reload,
        rep.outcome is Ok ==> next_screen(ScreenView::EntityList(index), Key::Char('r'), ctx, rep)
            == ScreenView::EntityList(index),
        rep.outcome is Ok ==> next_screen(ScreenView::PluginList(index), Key::Char('r'), ctx, rep)
            == ScreenView::PluginList(index),
        rep.outcome is Ok ==> next_screen(ScreenView::SystemList { index, error }, Key::Char('r'), ctx, rep)
            == (ScreenView::SystemList { index, error }),
        rep.outcome matches Err(e) ==> next_screen(ScreenView::EntityList(index), Key::Char('r'), ctx, rep)
            == (ScreenView::Error {
            message: scene_failure_text(e),
            on_close: Box::new(ScreenView::EntityList(index)),
        }),
        rep.outcome matches Err(e) ==> next_screen(ScreenView::PluginList(index), Key::Char('r'), ctx, rep)
            == (ScreenView::Error {
            message: scene_failure_text(e),
            on_close: Box::new(ScreenView::PluginList(index)),
        }),
        rep.outcome matches Err(e) ==> next_screen(
            ScreenView::SystemList { index, error },
            Key::Char('r'),
            ctx,
            rep,
        ) == (ScreenView::Error {
            message: scene_failure_text(e),
            on_close: Box::new(ScreenView::SystemList { index, error: None }),
        }),
{
}

} // verus!
