//! The screens of the scene console and their mathematical model.
use vstd::prelude::*;
use wasserxr::scene::logging::LogLevel;

verus! {

/// What the console shows and where its cursor is.
pub enum Screen {
    /// The entity list with the cursor on an entity.
    EntityList(usize),
    /// One entity with the cursor on one of its components.
    EntityDetails(u128, usize),
    /// One component of an entity with the cursor on one of its fields.
    ComponentDetails {
        entity_id: u128,
        component_id: String,
        component_index: usize,
        field_index: usize,
    },
    /// A text prompt.
    Prompt(TextPrompt),
    /// An error message.
    Error(ErrorScreen),
    /// The plugin list with the cursor on a plugin.
    PluginList(usize),
    /// The system list with the cursor on a system and an optional notice.
    SystemList { index: usize, error: Option<String> },
    /// The log with its level filter, scroll offset and whether it follows
    /// new entries.
    LogList { level: LogLevel, scroll: usize, follow: bool },
}

/// A one-line text input with a cursor; `offset` counts characters.
pub struct TextPrompt {
    pub title: String,
    pub text: Vec<char>,
    pub offset: usize,
    pub on_submit: PromptSubmit,
    pub on_cancel: Box<Screen>,
}

/// An error message and the screen that closing it returns to.
pub struct ErrorScreen {
    pub message: String,
    pub on_close: Box<Screen>,
}

/// What submitting a prompt does with the entered text.
pub enum PromptSubmit {
    RenameEntity(u128),
    CreateEntity,
    CreatePlugin,
    SaveScene(Box<Screen>),
    ImportScene(Box<Screen>),
    CreateSystemId,
    CreateSystemPriority { system_id: String },
    CreateComponent(u128),
    SetComponentField {
        entity_id: u128,
        component_id: String,
        field_id: String,
        component_index: usize,
        field_index: usize,
    },
}

/// Mathematical model of a screen: every text is a character sequence.
pub enum ScreenView {
    EntityList(usize),
    EntityDetails(u128, usize),
    ComponentDetails {
        entity_id: u128,
        component_id: Seq<char>,
        component_index: usize,
        field_index: usize,
    },
    Prompt(PromptView),
    Error { message: Seq<char>, on_close: Box<ScreenView> },
    PluginList(usize),
    SystemList { index: usize, error: Option<Seq<char>> },
    LogList { level: LogLevel, scroll: usize, follow: bool },
}

/// Mathematical model of a text prompt.
pub struct PromptView {
    pub title: Seq<char>,
    pub text: Seq<char>,
    pub offset: usize,
    pub on_submit: SubmitView,
    pub on_cancel: Box<ScreenView>,
}

/// Mathematical model of a prompt's submit action.
pub enum SubmitView {
    RenameEntity(u128),
    CreateEntity,
    CreatePlugin,
    SaveScene(Box<ScreenView>),
    ImportScene(Box<ScreenView>),
    CreateSystemId,
    CreateSystemPriority { system_id: Seq<char> },
    CreateComponent(u128),
    SetComponentField {
        entity_id: u128,
        component_id: Seq<char>,
        field_id: Seq<char>,
        component_index: usize,
        field_index: usize,
    },
}

/// The model of a screen.
pub open spec fn screen_view(s: Screen) -> ScreenView
    decreases s,
{
    match s {
        Screen::EntityList(i) => ScreenView::EntityList(i),
        Screen::EntityDetails(id, i) => ScreenView::EntityDetails(id, i),
        Screen::ComponentDetails { entity_id, component_id, component_index, field_index } =>
            ScreenView::ComponentDetails {
            entity_id,
            component_id: component_id@,
            component_index,
            field_index,
        },
        Screen::Prompt(p) => ScreenView::Prompt(prompt_view(p)),
        Screen::Error(e) => ScreenView::Error {
            message: e.message@,
            on_close: Box::new(screen_view(*e.on_close)),
        },
        Screen::PluginList(i) => ScreenView::PluginList(i),
        Screen::SystemList { index, error } => ScreenView::SystemList {
            index,
            error: match error {
                Some(e) => Some(e@),
                None => None,
            },
        },
        Screen::LogList { level, scroll, follow } => ScreenView::LogList { level, scroll, follow },
    }
}

/// The model of a prompt.
pub open spec fn prompt_view(p: TextPrompt) -> PromptView
    decreases p,
{
    PromptView {
        title: p.title@,
        text: p.text@,
        offset: p.offset,
        on_submit: submit_view(p.on_submit),
        on_cancel: Box::new(screen_view(*p.on_cancel)),
    }
}

/// The model of a submit action.
pub open spec fn submit_view(s: PromptSubmit) -> SubmitView
    decreases s,
{
    match s {
        PromptSubmit::RenameEntity(id) => SubmitView::RenameEntity(id),
        PromptSubmit::CreateEntity => SubmitView::CreateEntity,
        PromptSubmit::CreatePlugin => SubmitView::CreatePlugin,
        PromptSubmit::SaveScene(b) => SubmitView::SaveScene(Box::new(screen_view(*b))),
        PromptSubmit::ImportScene(b) => SubmitView::ImportScene(Box::new(screen_view(*b))),
        PromptSubmit::CreateSystemId => SubmitView::CreateSystemId,
        PromptSubmit::CreateSystemPriority { system_id } => SubmitView::CreateSystemPriority {
            system_id: system_id@,
        },
        PromptSubmit::CreateComponent(id) => SubmitView::CreateComponent(id),
        PromptSubmit::SetComponentField {
            entity_id,
            component_id,
            field_id,
            component_index,
            field_index,
        } => SubmitView::SetComponentField {
            entity_id,
            component_id: component_id@,
            field_id: field_id@,
            component_index,
            field_index,
        },
    }
}

impl View for Screen {
    type V = ScreenView;

    open spec fn view(&self) -> ScreenView {
        screen_view(*self)
    }
}

impl View for TextPrompt {
    type V = PromptView;

    open spec fn view(&self) -> PromptView {
        prompt_view(*self)
    }
}

impl View for PromptSubmit {
    type V = SubmitView;

    open spec fn view(&self) -> SubmitView {
        submit_view(*self)
    }
}

/// A screen the console can act on without panicking: every list cursor can
/// still be stepped forward, and every prompt cursor lies inside its text.
/// The screens a screen returns to are held to the same.
pub open spec fn screen_wf(s: ScreenView) -> bool
    decreases s,
{
    match s {
        ScreenView::EntityList(i) => i < usize::MAX,
        ScreenView::EntityDetails(_, i) => i < usize::MAX,
        ScreenView::ComponentDetails { component_index, field_index, .. } => component_index
            < usize::MAX && field_index < usize::MAX,
        ScreenView::Prompt(p) => prompt_wf(p),
        ScreenView::Error { on_close, .. } => screen_wf(*on_close),
        ScreenView::PluginList(i) => i < usize::MAX,
        ScreenView::SystemList { index, .. } => index < usize::MAX,
        ScreenView::LogList { .. } => true,
    }
}

/// A prompt the console can act on without panicking.
pub open spec fn prompt_wf(p: PromptView) -> bool
    decreases p,
{
    &&& p.offset <= p.text.len()
    &&& screen_wf(*p.on_cancel)
    &&& submit_wf(p.on_submit)
}

/// A submit action whose follow-up screens the console can act on.
pub open spec fn submit_wf(s: SubmitView) -> bool
    decreases s,
{
    match s {
        SubmitView::SaveScene(b) => screen_wf(*b),
        SubmitView::ImportScene(b) => screen_wf(*b),
        SubmitView::SetComponentField { component_index, field_index, .. } => component_index
            < usize::MAX && field_index < usize::MAX,
        _ => true,
    }
}

impl TextPrompt {
    /// An empty prompt.
    pub fn new(title: String, on_submit: PromptSubmit, on_cancel: Screen) -> (r: TextPrompt)
        ensures
            r@ == (PromptView {
                title: title@,
                text: Seq::<char>::empty(),
                offset: 0,
                on_submit: on_submit@,
                on_cancel: Box::new(on_cancel@),
            }),
    {
        TextPrompt::new_with_text(title, Vec::new(), on_submit, on_cancel)
    }

    /// A prompt holding `text`, with the cursor after its last character.
    pub fn new_with_text(
        title: String,
        text: Vec<char>,
        on_submit: PromptSubmit,
        on_cancel: Screen,
    ) -> (r: TextPrompt)
        ensures
            r@ == (PromptView {
                title: title@,
                text: text@,
                offset: text@.len() as usize,
                on_submit: on_submit@,
                on_cancel: Box::new(on_cancel@),
            }),
    {
        let offset = text.len();
        TextPrompt { title, text, offset, on_submit, on_cancel: Box::new(on_cancel) }
    }
}

impl ErrorScreen {
    /// An error message that returns to `on_close`.
    pub fn new(message: String, on_close: Screen) -> (r: ErrorScreen)
        ensures
            r.message@ == message@,
            screen_view(*r.on_close) == on_close@,
    {
        ErrorScreen { message, on_close: Box::new(on_close) }
    }
}

impl Default for Screen {
    /// The entity list with the cursor on the first entity.
    fn default() -> (r: Screen)
        ensures
            r@ == ScreenView::EntityList(0),
    {
        Screen::EntityList(0)
    }
}

/// A copy of a character vector.
fn copy_chars(v: &Vec<char>) -> (r: Vec<char>)
    ensures
        r@ == v@,
{
    let mut r: Vec<char> = Vec::new();
    let mut i: usize = 0;
    while i < v.len()
        invariant
            i <= v@.len(),
            r@ == v@.subrange(0, i as int),
        decreases v@.len() - i,
    {
        r.push(v[i]);
        i = i + 1;
    }
    assert(v@.subrange(0, v@.len() as int) =~= v@);
    r
}

impl Screen {
    /// A copy of the screen, including the screens it returns to.
    pub fn duplicate(&self) -> (r: Screen)
        ensures
            r@ == self@,
        decreases self,
    {
        match self {
            Screen::EntityList(i) => Screen::EntityList(*i),
            Screen::EntityDetails(id, i) => Screen::EntityDetails(*id, *i),
            Screen::ComponentDetails { entity_id, component_id, component_index, field_index } =>
                Screen::ComponentDetails {
                entity_id: *entity_id,
                component_id: component_id.clone(),
                component_index: *component_index,
                field_index: *field_index,
            },
            Screen::Prompt(p) => Screen::Prompt(p.duplicate()),
            Screen::Error(e) => Screen::Error(
                ErrorScreen { message: e.message.clone(), on_close: Box::new(e.on_close.duplicate()) },
            ),
            Screen::PluginList(i) => Screen::PluginList(*i),
            Screen::SystemList { index, error } => Screen::SystemList {
                index: *index,
                error: match error {
                    Some(e) => Some(e.clone()),
                    None => None,
                },
            },
            Screen::LogList { level, scroll, follow } => Screen::LogList {
                level: *level,
                scroll: *scroll,
                follow: *follow,
            },
        }
    }
}

impl TextPrompt {
    /// A copy of the prompt.
    pub fn duplicate(&self) -> (r: TextPrompt)
        ensures
            r@ == self@,
        decreases self,
    {
        TextPrompt {
            title: self.title.clone(),
            text: copy_chars(&self.text),
            offset: self.offset,
            on_submit: self.on_submit.duplicate(),
            on_cancel: Box::new(self.on_cancel.duplicate()),
        }
    }
}

impl PromptSubmit {
    /// A copy of the submit action.
    pub fn duplicate(&self) -> (r: PromptSubmit)
        ensures
            r@ == self@,
        decreases self,
    {
        match self {
            PromptSubmit::RenameEntity(id) => PromptSubmit::RenameEntity(*id),
            PromptSubmit::CreateEntity => PromptSubmit::CreateEntity,
            PromptSubmit::CreatePlugin => PromptSubmit::CreatePlugin,
            PromptSubmit::SaveScene(b) => PromptSubmit::SaveScene(Box::new(b.duplicate())),
            PromptSubmit::ImportScene(b) => PromptSubmit::ImportScene(Box::new(b.duplicate())),
            PromptSubmit::CreateSystemId => PromptSubmit::CreateSystemId,
            PromptSubmit::CreateSystemPriority { system_id } => PromptSubmit::CreateSystemPriority {
                system_id: system_id.clone(),
            },
            PromptSubmit::CreateComponent(id) => PromptSubmit::CreateComponent(*id),
            PromptSubmit::SetComponentField {
                entity_id,
                component_id,
                field_id,
                component_index,
                field_index,
            } => PromptSubmit::SetComponentField {
                entity_id: *entity_id,
                component_id: component_id.clone(),
                field_id: field_id.clone(),
                component_index: *component_index,
                field_index: *field_index,
            },
        }
    }
}

impl Screen {
    /// Whether the console can act on this screen without panicking.
    pub fn is_well_formed(&self) -> (r: bool)
        ensures
            r == screen_wf(self@),
        decreases self,
    {
        match self {
            Screen::EntityList(i) => *i < usize::MAX,
            Screen::EntityDetails(_, i) => *i < usize::MAX,
            Screen::ComponentDetails { component_index, field_index, .. } => *component_index
                < usize::MAX && *field_index < usize::MAX,
            Screen::Prompt(p) => p.is_well_formed(),
            Screen::Error(e) => e.on_close.is_well_formed(),
            Screen::PluginList(i) => *i < usize::MAX,
            Screen::SystemList { index, .. } => *index < usize::MAX,
            Screen::LogList { .. } => true,
        }
    }
}

impl TextPrompt {
    /// Whether the console can act on this prompt without panicking.
    pub fn is_well_formed(&self) -> (r: bool)
        ensures
            r == prompt_wf(self@),
        decreases self,
    {
        self.offset <= self.text.len() && self.on_cancel.is_well_formed()
            && self.on_submit.is_well_formed()
    }
}

impl PromptSubmit {
    /// Whether the screens this action leads to are well formed.
    pub fn is_well_formed(&self) -> (r: bool)
        ensures
            r == submit_wf(self@),
        decreases self,
    {
        match self {
            PromptSubmit::SaveScene(b) => b.is_well_formed(),
            PromptSubmit::ImportScene(b) => b.is_well_formed(),
            PromptSubmit::SetComponentField { component_index, field_index, .. } => *component_index
                < usize::MAX && *field_index < usize::MAX,
            _ => true,
        }
    }
}

} // verus!
