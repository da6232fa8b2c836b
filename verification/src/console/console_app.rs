//! The tabbed console application: which tab is open and which action the
//! user asked for.
use vstd::prelude::*;
use crate::console::keys::Key;

verus! {

/// The console's tabs, left to right.
#[derive(Clone, Copy, Debug, PartialEq, Eq, Structural)]
pub enum Tab {
    Entities,
    Plugins,
    Systems,
    Logs,
}

/// Position of a tab, counted from 0 on the left.
pub open spec fn tab_position(tab: Tab) -> int {
    match tab {
        Tab::Entities => 0,
        Tab::Plugins => 1,
        Tab::Systems => 2,
        Tab::Logs => 3,
    }
}

/// The tab at a position; positions past the last tab give the first tab.
pub open spec fn tab_at(position: int) -> Tab {
    if position == 0 {
        Tab::Entities
    } else if position == 1 {
        Tab::Plugins
    } else if position == 2 {
        Tab::Systems
    } else if position == 3 {
        Tab::Logs
    } else {
        Tab::Entities
    }
}

impl Tab {
    /// Moves to the tab on the right; the last tab stays where it is.
    pub fn next(&mut self)
        ensures
            *final(self) == tab_at(if tab_position(*old(self)) < 3 { tab_position(*old(self)) + 1 } else { 3 }),
    {
        match self {
            Tab::Entities => {
                *self = Tab::Plugins;
            },
            Tab::Plugins => {
                *self = Tab::Systems;
            },
            Tab::Systems => {
                *self = Tab::Logs;
            },
            Tab::Logs => {
                *self = Tab::Logs;
            },
        }
    }

    /// Moves to the tab on the left; the first tab stays where it is.
    pub fn prev(&mut self)
        ensures
            *final(self) == tab_at(if tab_position(*old(self)) > 0 { tab_position(*old(self)) - 1 } else { 0 }),
    {
        match self {
            Tab::Entities => {
                *self = Tab::Entities;
            },
            Tab::Plugins => {
                *self = Tab::Entities;
            },
            Tab::Systems => {
                *self = Tab::Plugins;
            },
            Tab::Logs => {
                *self = Tab::Systems;
            },
        }
    }

    /// The tab titles, left to right.
    pub fn get_tabs() -> (r: Vec<String>)
        ensures
            r@.len() == 4,
            r@[0]@ == "Entities"@,
            r@[1]@ == "Plugins"@,
            r@[2]@ == "Systems"@,
            r@[3]@ == "Logs"@,
    {
        let mut tabs: Vec<String> = Vec::new();
        tabs.push("Entities".to_owned());
        tabs.push("Plugins".to_owned());
        tabs.push("Systems".to_owned());
        tabs.push("Logs".to_owned());
        tabs
    }

    /// The tab at a position; positions past the last tab give the first tab.
    pub fn from_position(value: usize) -> (r: Tab)
        ensures
            r == tab_at(value as int),
    {
        match value {
            0 => Tab::Entities,
            1 => Tab::Plugins,
            2 => Tab::Systems,
            3 => Tab::Logs,
            _ => Tab::default(),
        }
    }

    /// Position of the tab, counted from 0 on the left.
    pub fn position(self) -> (r: usize)
        ensures
            r == tab_position(self),
    {
        match self {
            Tab::Entities => 0,
            Tab::Plugins => 1,
            Tab::Systems => 2,
            Tab::Logs => 3,
        }
    }
}

impl Default for Tab {
    /// The entity tab.
    fn default() -> (r: Tab)
        ensures
            r == Tab::Entities,
    {
        Tab::Entities
    }
}

impl From<usize> for Tab {
    fn from(value: usize) -> (r: Tab) {
        Tab::from_position(value)
    }
}

impl vstd::std_specs::convert::FromSpecImpl<usize> for Tab {
    open spec fn obeys_from_spec() -> bool {
        true
    }

    open spec fn from_spec(v: usize) -> Tab {
        tab_at(v as int)
    }
}

impl From<Tab> for usize {
    fn from(value: Tab) -> (r: usize) {
        value.position()
    }
}

impl vstd::std_specs::convert::FromSpecImpl<Tab> for usize {
    open spec fn obeys_from_spec() -> bool {
        true
    }

    open spec fn from_spec(v: Tab) -> usize {
        tab_position(v) as usize
    }
}

/// A tab's position leads back to the tab, and every position of a tab leads
/// back to that position.
pub proof fn lemma_tab_position_round_trip(tab: Tab, position: int)
    requires
        0 <= position < 4,
    ensures
        tab_at(tab_position(tab) as int) == tab,
        tab_position(tab_at(position)) == position,
        tab_position(tab) < 4,
{
}

/// What the user asked the application to do.
#[derive(Clone, Copy, Debug, PartialEq, Eq, Structural)]
pub enum Action {
    Nothing,
    Quit,
    Reload,
}

impl Default for Action {
    /// No request.
    fn default() -> (r: Action)
        ensures
            r == Action::Nothing,
    {
        Action::Nothing
    }
}

/// What the console lists: each entity with its name.
pub struct ConsoleData {
    pub entities: Vec<(u128, String)>,
}

impl ConsoleData {
    /// Console data listing the given entities.
    pub fn new(entities: Vec<(u128, String)>) -> (r: ConsoleData)
        ensures
            r.entities@ == entities@,
    {
        ConsoleData { entities }
    }

    /// Console data that lists nothing.
    pub fn empty() -> (r: ConsoleData)
        ensures
            r.entities@.len() == 0,
    {
        ConsoleData { entities: Vec::new() }
    }
}

/// The console application: the data it shows, the open tab and the pending
/// action.
pub struct ConsoleApp {
    pub console_data: ConsoleData,
    pub tab_state: Tab,
    pub action: Action,
}

/// The open tab and the pending action after a key press: `q` asks to quit,
/// `r` to reload, `l`/Right and `h`/Left move between tabs.
pub open spec fn console_after_key(tab: Tab, action: Action, key: Key) -> (Tab, Action) {
    if key == Key::Char('q') {
        (tab, Action::Quit)
    } else if key == Key::Char('r') {
        (tab, Action::Reload)
    } else if key == Key::Char('l') || key == Key::Right {
        (tab_at(if tab_position(tab) < 3 { tab_position(tab) + 1 } else { 3 }), action)
    } else if key == Key::Char('h') || key == Key::Left {
        (tab_at(if tab_position(tab) > 0 { tab_position(tab) - 1 } else { 0 }), action)
    } else {
        (tab, action)
    }
}

impl ConsoleApp {
    /// A console on the entity tab with nothing to show and nothing pending.
    pub fn new() -> (r: ConsoleApp)
        ensures
            r.tab_state == Tab::Entities,
            r.action == Action::Nothing,
            r.console_data.entities@.len() == 0,
    {
        ConsoleApp { console_data: ConsoleData::empty(), tab_state: Tab::Entities, action: Action::Nothing }
    }

    /// The open tab.
    pub fn tab(&self) -> (r: Tab)
        ensures
            r == self.tab_state,
    {
        self.tab_state
    }

    /// Replaces what the console shows.
    pub fn set_data(&mut self, data: ConsoleData)
        ensures
            final(self).console_data.entities@ == data.entities@,
            final(self).tab_state == old(self).tab_state,
            final(self).action == old(self).action,
    {
        self.console_data = data;
    }

    /// Hands out the pending action and clears it.
    pub fn get_action(&mut self) -> (r: Action)
        ensures
            r == old(self).action,
            final(self).action == Action::Nothing,
            final(self).tab_state == old(self).tab_state,
            final(self).console_data.entities@ == old(self).console_data.entities@,
    {
        let res = self.action;
        self.action = Action::Nothing;
        res
    }

    /// Applies a key press to the open tab and the pending action.
    pub fn handle_key(&mut self, key: Key)
        ensures
            (final(self).tab_state, final(self).action) == console_after_key(
                old(self).tab_state,
                old(self).action,
                key,
            ),
            final(self).console_data.entities@ == old(self).console_data.entities@,
    {
        match key {
            Key::Char('q') => {
                self.action = Action::Quit;
            },
            Key::Char('r') => {
                self.action = Action::Reload;
            },
            Key::Char('l') | Key::Right => {
                self.tab_state.next();
            },
            Key::Char('h') | Key::Left => {
                self.tab_state.prev();
            },
            _ => {},
        }
    }
}

/// `q` and `r` always leave a quit or reload request, and moving one tab
/// right and then left (or left and then right) returns to the starting tab
/// away from the ends.
pub proof fn lemma_console_keys(tab: Tab, action: Action, key: Key)
    ensures
        console_after_key(tab, action, Key::Char('q')).1 == Action::Quit,
        console_after_key(tab, action, Key::Char('r')).1 == Action::Reload,
        tab != Tab::Logs ==> console_after_key(
            console_after_key(tab, action, Key::Right).0,
            action,
            Key::Left,
        ).0 == tab,
        tab != Tab::Entities ==> console_after_key(
            console_after_key(tab, action, Key::Left).0,
            action,
            Key::Right,
        ).0 == tab,
{
}

/// `l` does to the tab what Right does and `h` what Left does. Right moves
/// one tab to the right (Entities, Plugins, Systems, Logs) and stays on the
/// last; Left moves one tab to the left and stays on the first. Switching
/// tabs leaves the pending action alone.
pub proof fn law_console_tab_keys(tab: Tab, action: Action)
    ensures
        console_after_key(tab, action, Key::Char('l')) == console_after_key(tab, action, Key::Right),
        console_after_key(tab, action, Key::Char('h')) == console_after_key(tab, action, Key::Left),
        tab_position(console_after_key(tab, action, Key::Right).0) == (if tab_position(tab) < 3 {
            tab_position(tab) + 1
        } else {
            3
        }),
        tab_position(console_after_key(tab, action, Key::Left).0) == (if tab_position(tab) > 0 {
            tab_position(tab) - 1
        } else {
            0
        }),
        tab != Tab::Logs ==> tab_position(console_after_key(tab, action, Key::Char('l')).0) > tab_position(tab),
        tab != Tab::Entities ==> tab_position(console_after_key(tab, action, Key::Char('h')).0) < tab_position(
            tab,
        ),
        console_after_key(Tab::Entities, action, Key::Char('l')).0 == Tab::Plugins,
        console_after_key(Tab::Logs, action, Key::Char('h')).0 == Tab::Systems,
        console_after_key(tab, action, Key::Right).1 == action,
        console_after_key(tab, action, Key::Left).1 == action,
{
}

/// The tabs stand in the order Entities, Plugins, Systems, Logs: Right
/// walks them in that order and stays on Logs, Left walks back and stays on
/// Entities. A key other than `q`, `r`, `l`, `h`, Right and Left changes
/// neither the tab nor the pending action.
pub proof fn law_tab_order(action: Action, key: Key, tab: Tab)
    ensures
        console_after_key(Tab::Entities, action, Key::Right).0 == Tab::Plugins,
        console_after_key(Tab::Plugins, action, Key::Right).0 == Tab::Systems,
        console_after_key(Tab::Systems, action, Key::Right).0 == Tab::Logs,
        console_after_key(Tab::Logs, action, Key::Right).0 == Tab::Logs,
        console_after_key(Tab::Logs, action, Key::Left).0 == Tab::Systems,
        console_after_key(Tab::Systems, action, Key::Left).0 == Tab::Plugins,
        console_after_key(Tab::Plugins, action, Key::Left).0 == Tab::Entities,
        console_after_key(Tab::Entities, action, Key::Left).0 == Tab::Entities,
        (key != Key::Char('q') && key != Key::Char('r') && key != Key::Char('l') && key != Key::Char('h')
            && key != Key::Right && key != Key::Left) ==> console_after_key(tab, action, key) == (tab, action),
{
}

} // verus!
