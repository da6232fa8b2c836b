//! Tab and selection state of the component-driven console: a plain value
//! that every key press maps to a new value.
use vstd::prelude::*;
use crate::console::keys::Key;

verus! {

/// Number of tabs: Entities, Plugins, Systems and Log.
pub const TAB_COUNT: usize = 4;

/// The next index in a ring of `len` slots.
pub open spec fn ring_next(index: int, len: int) -> int {
    if len == 0 {
        0
    } else if index % len + 1 == len {
        0
    } else {
        index % len + 1
    }
}

/// The previous index in a ring of `len` slots.
pub open spec fn ring_prev(index: int, len: int) -> int {
    if len == 0 {
        0
    } else if index % len == 0 {
        len - 1
    } else {
        index % len - 1
    }
}

/// A selection pulled into a list of `len` items; the wrapped-around value
/// `usize::MAX` (one step above the first item) selects the last item.
pub open spec fn normalized(index: int, len: int) -> int {
    if len == 0 {
        0
    } else if index == usize::MAX {
        len - 1
    } else {
        index % len
    }
}

/// The next slot of a ring of `len` slots.
pub fn wrap_next(index: usize, len: usize) -> (r: usize)
    ensures
        r == ring_next(index as int, len as int),
        len > 0 ==> r < len,
{
    if len == 0 {
        0
    } else {
        let index = index % len;
        if index + 1 == len {
            0
        } else {
            index + 1
        }
    }
}

/// The previous slot of a ring of `len` slots.
pub fn wrap_prev(index: usize, len: usize) -> (r: usize)
    ensures
        r == ring_prev(index as int, len as int),
        len > 0 ==> r < len,
{
    if len == 0 {
        0
    } else {
        let index = index % len;
        if index == 0 {
            len - 1
        } else {
            index - 1
        }
    }
}

/// A selection pulled into a list of `len` items.
pub fn normalize_index(index: usize, len: usize) -> (r: usize)
    ensures
        r == normalized(index as int, len as int),
        len > 0 ==> r < len,
{
    if len == 0 {
        0
    } else if index == usize::MAX {
        len - 1
    } else {
        index % len
    }
}

/// In a ring, the previous slot of the next slot, and the next slot of the
/// previous slot, is the slot itself.
pub proof fn lemma_ring_steps_undo(index: int, len: int)
    requires
        0 <= index < len,
    ensures
        ring_prev(ring_next(index, len), len) == index,
        ring_next(ring_prev(index, len), len) == index,
        0 <= ring_next(index, len) < len,
        0 <= ring_prev(index, len) < len,
{
    assert(index % len == index) by (nonlinear_arith)
        requires
            0 <= index < len,
    ;
    assert(0int % len == 0) by (nonlinear_arith)
        requires
            len > 0,
    ;
    assert((len - 1) % len == len - 1) by (nonlinear_arith)
        requires
            len > 0,
    ;
    if index + 1 < len {
        assert((index + 1) % len == index + 1) by (nonlinear_arith)
            requires
                0 <= index + 1 < len,
        ;
    }
    if index > 0 {
        assert((index - 1) % len == index - 1) by (nonlinear_arith)
            requires
                0 <= index - 1 < len,
        ;
    }
}

/// Normalizing an already normalized selection changes nothing.
pub proof fn lemma_normalized_idempotent(index: int, len: int)
    requires
        0 <= index <= usize::MAX,
        0 < len <= usize::MAX,
    ensures
        normalized(normalized(index, len), len) == normalized(index, len),
        0 <= normalized(index, len) < len,
{
    let n = normalized(index, len);
    assert(0 <= index % len < len) by (nonlinear_arith)
        requires
            len > 0,
    ;
    assert(0 <= n < len);
    assert(n % len == n) by (nonlinear_arith)
        requires
            0 <= n < len,
    ;
}

/// Selection in the entity list. The cursor moves freely (wrapping around
/// `usize`) and is pulled into the list by `normalize`.
#[derive(Clone, Copy, Debug, PartialEq, Eq, Structural)]
pub struct EntityListState {
    pub selected: usize,
}

/// Whether the entity detail view is open, and for which list entry.
#[derive(Clone, Copy, Debug, PartialEq, Eq, Structural)]
pub struct EntityDetailState {
    pub active: bool,
    pub selected: usize,
}

/// Selection in the plugin list.
#[derive(Clone, Copy, Debug, PartialEq, Eq, Structural)]
pub struct PluginListState {
    pub selected: usize,
}

/// Selection in the system list.
#[derive(Clone, Copy, Debug, PartialEq, Eq, Structural)]
pub struct SystemListState {
    pub selected: usize,
}

/// The whole console state: the open tab and each tab's own state.
#[derive(Clone, Copy, Debug, PartialEq, Eq, Structural)]
pub struct AppState {
    pub tab: usize,
    pub entity_list: EntityListState,
    pub entity_detail: EntityDetailState,
    pub plugin_list: PluginListState,
    pub system_list: SystemListState,
}

/// True for the keys that move a list cursor down.
pub open spec fn is_down(key: Key) -> bool {
    key == Key::Down || key == Key::Char('j')
}

/// True for the keys that move a list cursor up.
pub open spec fn is_up(key: Key) -> bool {
    key == Key::Up || key == Key::Char('k')
}

/// True for the keys that switch to the next tab.
pub open spec fn is_tab_right(key: Key) -> bool {
    key == Key::Right || key == Key::Char('l')
}

/// True for the keys that switch to the previous tab.
pub open spec fn is_tab_left(key: Key) -> bool {
    key == Key::Left || key == Key::Char('h')
}

/// Whether a key moves a list cursor down.
pub fn key_is_down(key: Key) -> (r: bool)
    ensures
        r == is_down(key),
{
    match key {
        Key::Down | Key::Char('j') => true,
        _ => false,
    }
}

/// Whether a key moves a list cursor up.
pub fn key_is_up(key: Key) -> (r: bool)
    ensures
        r == is_up(key),
{
    match key {
        Key::Up | Key::Char('k') => true,
        _ => false,
    }
}

/// Whether a key switches to the next tab.
pub fn key_is_tab_right(key: Key) -> (r: bool)
    ensures
        r == is_tab_right(key),
{
    match key {
        Key::Right | Key::Char('l') => true,
        _ => false,
    }
}

/// Whether a key switches to the previous tab.
pub fn key_is_tab_left(key: Key) -> (r: bool)
    ensures
        r == is_tab_left(key),
{
    match key {
        Key::Left | Key::Char('h') => true,
        _ => false,
    }
}

impl EntityListState {
    /// The entity list after a key: down and up move the cursor by one,
    /// wrapping around `usize`.
    pub open spec fn after_key(self, key: Key) -> EntityListState {
        if is_down(key) {
            EntityListState { selected: if self.selected == usize::MAX { 0 } else { (self.selected + 1) as usize } }
        } else if is_up(key) {
            EntityListState { selected: if self.selected == 0 { usize::MAX } else { (self.selected - 1) as usize } }
        } else {
            self
        }
    }

    /// Applies a key to the entity list.
    pub fn handle_input(self, key: Key) -> (r: EntityListState)
        ensures
            r == self.after_key(key),
    {
        let mut s = self;
        if key_is_down(key) {
            s.selected = self.selected.wrapping_add(1);
        } else if key_is_up(key) {
            s.selected = self.selected.wrapping_sub(1);
        }
        s
    }

    /// Pulls the cursor into a list of `len` entities.
    pub fn normalize(self, len: usize) -> (r: EntityListState)
        ensures
            r.selected == normalized(self.selected as int, len as int),
    {
        EntityListState { selected: normalize_index(self.selected, len) }
    }
}

impl EntityDetailState {
    /// The detail view after a key: Esc closes it.
    pub open spec fn after_key(self, key: Key) -> EntityDetailState {
        if key == Key::Esc {
            EntityDetailState { active: false, ..self }
        } else {
            self
        }
    }

    /// Applies a key to the detail view.
    pub fn handle_input(self, key: Key) -> (r: EntityDetailState)
        ensures
            r == self.after_key(key),
    {
        let mut s = self;
        if let Key::Esc = key {
            s.active = false;
        }
        s
    }
}

impl PluginListState {
    /// The plugin list after a key: down and up move the cursor by one,
    /// stopping at 0 and at `usize::MAX`.
    pub open spec fn after_key(self, key: Key) -> PluginListState {
        if is_down(key) {
            PluginListState { selected: if self.selected == usize::MAX { usize::MAX } else { (self.selected + 1) as usize } }
        } else if is_up(key) {
            PluginListState { selected: if self.selected == 0 { 0 } else { (self.selected - 1) as usize } }
        } else {
            self
        }
    }

    /// Applies a key to the plugin list.
    pub fn handle_input(self, key: Key) -> (r: PluginListState)
        ensures
            r == self.after_key(key),
    {
        let mut s = self;
        if key_is_down(key) {
            s.selected = self.selected.saturating_add(1);
        } else if key_is_up(key) {
            s.selected = self.selected.saturating_sub(1);
        }
        s
    }
}

impl SystemListState {
    /// The system list after a key: down and up move the cursor by one,
    /// stopping at 0 and at `usize::MAX`.
    pub open spec fn after_key(self, key: Key) -> SystemListState {
        if is_down(key) {
            SystemListState { selected: if self.selected == usize::MAX { usize::MAX } else { (self.selected + 1) as usize } }
        } else if is_up(key) {
            SystemListState { selected: if self.selected == 0 { 0 } else { (self.selected - 1) as usize } }
        } else {
            self
        }
    }

    /// Applies a key to the system list.
    pub fn handle_input(self, key: Key) -> (r: SystemListState)
        ensures
            r == self.after_key(key),
    {
        let mut s = self;
        if key_is_down(key) {
            s.selected = self.selected.saturating_add(1);
        } else if key_is_up(key) {
            s.selected = self.selected.saturating_sub(1);
        }
        s
    }
}

impl AppState {
    /// The console state after a key. Right/`l` and Left/`h` switch tabs
    /// (wrapping); on the entity tab an open detail view takes the key, Enter
    /// opens the detail view on the selected entity, and other keys go to the
    /// list; the plugin and system tabs hand keys to their lists.
    pub open spec fn after_key(self, key: Key) -> AppState {
        if is_tab_right(key) {
            AppState { tab: ring_next(self.tab as int, TAB_COUNT as int) as usize, ..self }
        } else if is_tab_left(key) {
            AppState { tab: ring_prev(self.tab as int, TAB_COUNT as int) as usize, ..self }
        } else if self.tab == 0 && self.entity_detail.active {
            AppState { entity_detail: self.entity_detail.after_key(key), ..self }
        } else if self.tab == 0 {
            if key == Key::Enter {
                AppState {
                    entity_detail: EntityDetailState {
                        active: true,
                        selected: self.entity_list.selected,
                    },
                    ..self
                }
            } else {
                AppState { entity_list: self.entity_list.after_key(key), ..self }
            }
        } else if self.tab == 1 {
            AppState { plugin_list: self.plugin_list.after_key(key), ..self }
        } else if self.tab == 2 {
            AppState { system_list: self.system_list.after_key(key), ..self }
        } else {
            self
        }
    }

    /// Applies a key press to the console state.
    pub fn handle_input(self, key: Key) -> (r: AppState)
        ensures
            r == self.after_key(key),
    {
        match key {
            Key::Right | Key::Char('l') => self.tab_next(),
            Key::Left | Key::Char('h') => self.tab_prev(),
            _ => {
                let mut s = self;
                if self.tab == 0 && self.entity_detail.active {
                    s.entity_detail = self.entity_detail.handle_input(key);
                } else if self.tab == 0 {
                    if let Key::Enter = key {
                        s.entity_detail = EntityDetailState {
                            active: true,
                            selected: self.entity_list.selected,
                        };
                    } else {
                        s.entity_list = self.entity_list.handle_input(key);
                    }
                } else if self.tab == 1 {
                    s.plugin_list = self.plugin_list.handle_input(key);
                } else if self.tab == 2 {
                    s.system_list = self.system_list.handle_input(key);
                }
                s
            },
        }
    }

    /// The state with the entity selection pulled into a list of
    /// `entity_len` entities; a closed detail view follows the selection.
    pub open spec fn normalized_for(self, entity_len: int) -> AppState {
        let list = EntityListState {
            selected: normalized(self.entity_list.selected as int, entity_len) as usize,
        };
        AppState {
            entity_list: list,
            entity_detail: if self.entity_detail.active {
                self.entity_detail
            } else {
                EntityDetailState { selected: list.selected, ..self.entity_detail }
            },
            ..self
        }
    }

    /// Pulls the entity selection into a list of `entity_len` entities.
    pub fn normalize_entity_selection(self, entity_len: usize) -> (r: AppState)
        ensures
            r == self.normalized_for(entity_len as int),
    {
        let mut s = self;
        s.entity_list = self.entity_list.normalize(entity_len);
        if !s.entity_detail.active {
            s.entity_detail.selected = s.entity_list.selected;
        }
        s
    }

    /// Switches to the next tab, wrapping from the last to the first.
    pub fn tab_next(self) -> (r: AppState)
        ensures
            r == (AppState { tab: ring_next(self.tab as int, TAB_COUNT as int) as usize, ..self }),
    {
        let mut s = self;
        s.tab = wrap_next(self.tab, TAB_COUNT);
        s
    }

    /// Switches to the previous tab, wrapping from the first to the last.
    pub fn tab_prev(self) -> (r: AppState)
        ensures
            r == (AppState { tab: ring_prev(self.tab as int, TAB_COUNT as int) as usize, ..self }),
    {
        let mut s = self;
        s.tab = wrap_prev(self.tab, TAB_COUNT);
        s
    }
}

impl Default for AppState {
    /// The entity tab with every cursor at 0 and the detail view closed.
    fn default() -> (r: AppState)
        ensures
            r == (AppState {
                tab: 0,
                entity_list: EntityListState { selected: 0 },
                entity_detail: EntityDetailState { active: false, selected: 0 },
                plugin_list: PluginListState { selected: 0 },
                system_list: SystemListState { selected: 0 },
            }),
    {
        AppState {
            tab: 0,
            entity_list: EntityListState { selected: 0 },
            entity_detail: EntityDetailState { active: false, selected: 0 },
            plugin_list: PluginListState { selected: 0 },
            system_list: SystemListState { selected: 0 },
        }
    }
}

impl Default for EntityListState {
    /// The cursor on the first entity.
    fn default() -> (r: EntityListState)
        ensures
            r.selected == 0,
    {
        EntityListState { selected: 0 }
    }
}

impl Default for EntityDetailState {
    /// A closed detail view.
    fn default() -> (r: EntityDetailState)
        ensures
            r == (EntityDetailState { active: false, selected: 0 }),
    {
        EntityDetailState { active: false, selected: 0 }
    }
}

impl Default for PluginListState {
    /// The cursor on the first plugin.
    fn default() -> (r: PluginListState)
        ensures
            r.selected == 0,
    {
        PluginListState { selected: 0 }
    }
}

impl Default for SystemListState {
    /// The cursor on the first system.
    fn default() -> (r: SystemListState)
        ensures
            r.selected == 0,
    {
        SystemListState { selected: 0 }
    }
}

/// Switching to the next tab and back again (or back and then forward)
/// returns to the tab one started on, and the tab always stays in range.
pub proof fn lemma_tab_switch_undo(state: AppState)
    requires
        state.tab < TAB_COUNT,
    ensures
        state.after_key(Key::Right).after_key(Key::Left) == state,
        state.after_key(Key::Left).after_key(Key::Right) == state,
        state.after_key(Key::Right).tab < TAB_COUNT,
        state.after_key(Key::Left).tab < TAB_COUNT,
{
    lemma_ring_steps_undo(state.tab as int, TAB_COUNT as int);
}

/// After normalizing for a nonempty list, the selection lies inside the list
/// and a second normalization changes nothing.
pub proof fn lemma_selection_in_range(state: AppState, entity_len: usize)
    requires
        entity_len > 0,
    ensures
        state.normalized_for(entity_len as int).entity_list.selected < entity_len,
        state.normalized_for(entity_len as int).normalized_for(entity_len as int)
            == state.normalized_for(entity_len as int),
{
    lemma_normalized_idempotent(state.entity_list.selected as int, entity_len as int);
}

/// Enter on the closed entity tab opens the detail view on the selected
/// entity, and Esc closes it again, leaving everything else as it was.
pub proof fn lemma_enter_then_escape(state: AppState)
    requires
        state.tab == 0,
        !state.entity_detail.active,
    ensures
        state.after_key(Key::Enter).entity_detail == (EntityDetailState {
            active: true,
            selected: state.entity_list.selected,
        }),
        state.after_key(Key::Enter).after_key(Key::Esc) == (AppState {
            entity_detail: EntityDetailState {
                active: false,
                selected: state.entity_list.selected,
            },
            ..state
        }),
{
}

/// On the entity tab with the detail view closed, Down/`j` moves the entity
/// selection one entry further (from the largest index round to 0) and
/// Up/`k` one entry back; Down then Up, or Up then Down, returns to where it
/// was. Nothing else changes.
pub proof fn law_entity_cursor_steps(state: AppState, key: Key)
    requires
        state.tab == 0,
        !state.entity_detail.active,
    ensures
        is_down(key) ==> state.after_key(key).entity_list.selected as int == (state.entity_list.selected as int
            + 1) % (usize::MAX as int + 1),
        is_up(key) ==> (state.after_key(key).entity_list.selected as int + 1) % (usize::MAX as int + 1)
            == state.entity_list.selected as int,
        is_down(key) || is_up(key) ==> state.after_key(key) == (AppState {
            entity_list: state.after_key(key).entity_list,
            ..state
        }),
        state.after_key(Key::Down).after_key(Key::Up) == state,
        state.after_key(Key::Up).after_key(Key::Down) == state,
        state.after_key(Key::Char('j')) == state.after_key(Key::Down),
        state.after_key(Key::Char('k')) == state.after_key(Key::Up),
{
    let s = state.entity_list.selected as int;
    let m = usize::MAX as int + 1;
    if s < usize::MAX {
        assert((s + 1) % m == s + 1) by (nonlinear_arith)
            requires
                0 <= s < m - 1,
        ;
    } else {
        assert((s + 1) % m == 0) by (nonlinear_arith)
            requires
                s + 1 == m,
                m > 0,
        ;
    }
    if s > 0 {
        assert(s % m == s) by (nonlinear_arith)
            requires
                0 < s < m,
        ;
    } else {
        assert((usize::MAX as int + 1) % m == 0) by (nonlinear_arith)
            requires
                m == usize::MAX as int + 1,
                m > 0,
        ;
    }
}

/// Right/`l` moves to the next tab (Entities, Plugins, Systems, Log, and
/// from the last back to the first) and Left/`h` to the previous one, with
/// nothing else changed. On the plugin and system tabs Down/`j` moves that
/// list's selection one row further and Up/`k` one row back, stopping at
/// both ends of `usize`, with nothing else changed.
pub proof fn law_tab_and_list_keys(state: AppState, key: Key)
    requires
        state.tab < TAB_COUNT,
    ensures
        (key == Key::Right || key == Key::Char('l')) ==> state.after_key(key) == (AppState {
            tab: if state.tab == 3 {
                0
            } else {
                (state.tab + 1) as usize
            },
            ..state
        }),
        (key == Key::Left || key == Key::Char('h')) ==> state.after_key(key) == (AppState {
            tab: if state.tab == 0 {
                3
            } else {
                (state.tab - 1) as usize
            },
            ..state
        }),
        state.tab == 1 && is_down(key) ==> state.after_key(key) == (AppState {
            plugin_list: PluginListState {
                selected: if state.plugin_list.selected < usize::MAX {
                    (state.plugin_list.selected + 1) as usize
                } else {
                    usize::MAX
                },
            },
            ..state
        }),
        state.tab == 1 && is_up(key) ==> state.after_key(key) == (AppState {
            plugin_list: PluginListState {
                selected: if state.plugin_list.selected > 0 {
                    (state.plugin_list.selected - 1) as usize
                } else {
                    0
                },
            },
            ..state
        }),
        state.tab == 2 && is_down(key) ==> state.after_key(key) == (AppState {
            system_list: SystemListState {
                selected: if state.system_list.selected < usize::MAX {
                    (state.system_list.selected + 1) as usize
                } else {
                    usize::MAX
                },
            },
            ..state
        }),
        state.tab == 2 && is_up(key) ==> state.after_key(key) == (AppState {
            system_list: SystemListState {
                selected: if state.system_list.selected > 0 {
                    (state.system_list.selected - 1) as usize
                } else {
                    0
                },
            },
            ..state
        }),
{
    let t = state.tab as int;
    assert(t % 4 == t) by (nonlinear_arith)
        requires
            0 <= t < 4,
    ;
}

/// Pulling a selection into a non-empty list keeps a selection that is
/// already inside it, sends the wrapped-around `usize::MAX` (one step above
/// the first item) to the last item, and brings any other selection back
/// round into the list.
pub proof fn law_normalized_selection(index: usize, len: usize)
    requires
        len > 0,
    ensures
        index < len ==> normalized(index as int, len as int) == index,
        normalized(usize::MAX as int, len as int) == len - 1,
        index != usize::MAX ==> normalized(index as int, len as int) == index as int - (index as int / len as int)
            * len,
        0 <= normalized(index as int, len as int) < len,
{
    let i = index as int;
    let n = len as int;
    assert(i % n == i - (i / n) * n) by (nonlinear_arith)
        requires
            n > 0,
            i >= 0,
    ;
    assert(0 <= i % n < n) by (nonlinear_arith)
        requires
            n > 0,
    ;
    if i < n {
        assert(i % n == i) by (nonlinear_arith)
            requires
                0 <= i < n,
        ;
    }
}

} // verus!
