//! Key remapping rules: triggers (a key or a shortcut, possibly a chord),
//! actions, and the key manager's list of mappings.
use vstd::prelude::*;
use crate::text::views;

verus! {

/// A key or key combination: modifiers held, an action key, and an optional
/// chord key pressed after the combination.
#[derive(Debug, Clone)]
pub struct KeyCombo {
    pub modifiers: Vec<String>,
    pub key: String,
    pub chord: Option<String>,
}

/// What triggers a mapping.
#[derive(Debug, Clone)]
pub enum KeyTrigger {
    Key(String),
    Combo(KeyCombo),
}

/// What a mapping does.
#[derive(Debug, Clone)]
pub enum KeyAction {
    RemapKey { to: KeyCombo },
    SendText { text: String },
    RunCommand { command: String },
    LaunchApp { path: String, args: Vec<String>, working_dir: Option<String>, elevated: bool },
    OpenUri { uri: String },
    Disable,
}

/// A key-remapping rule.
#[derive(Debug, Clone)]
pub struct KeyMapping {
    pub trigger: KeyTrigger,
    pub action: KeyAction,
    pub app_filter: Option<String>,
    pub enabled: bool,
    pub exact_match: bool,
}

/// The value of a [`KeyCombo`].
pub struct ComboView {
    pub modifiers: Seq<Seq<char>>,
    pub key: Seq<char>,
    pub chord: Option<Seq<char>>,
}

/// The value of a [`KeyTrigger`].
pub enum TriggerView {
    Key(Seq<char>),
    Combo(ComboView),
}

/// The value of a [`KeyAction`].
pub enum ActionView {
    RemapKey { to: ComboView },
    SendText { text: Seq<char> },
    RunCommand { command: Seq<char> },
    LaunchApp {
        path: Seq<char>,
        args: Seq<Seq<char>>,
        working_dir: Option<Seq<char>>,
        elevated: bool,
    },
    OpenUri { uri: Seq<char> },
    Disable,
}

/// The value of a [`KeyMapping`].
pub struct MappingView {
    pub trigger: TriggerView,
    pub action: ActionView,
    pub app_filter: Option<Seq<char>>,
    pub enabled: bool,
    pub exact_match: bool,
}

pub open spec fn opt_view(o: Option<String>) -> Option<Seq<char>> {
    match o {
        Some(s) => Some(s@),
        None => None,
    }
}

impl View for KeyCombo {
    type V = ComboView;

    open spec fn view(&self) -> ComboView {
        ComboView { modifiers: views(self.modifiers@), key: self.key@, chord: opt_view(self.chord) }
    }
}

impl View for KeyTrigger {
    type V = TriggerView;

    open spec fn view(&self) -> TriggerView {
        match self {
            KeyTrigger::Key(k) => TriggerView::Key(k@),
            KeyTrigger::Combo(c) => TriggerView::Combo(c@),
        }
    }
}

impl View for KeyAction {
    type V = ActionView;

    open spec fn view(&self) -> ActionView {
        match self {
            KeyAction::RemapKey { to } => ActionView::RemapKey { to: to@ },
            KeyAction::SendText { text } => ActionView::SendText { text: text@ },
            KeyAction::RunCommand { command } => ActionView::RunCommand { command: command@ },
            KeyAction::LaunchApp { path, args, working_dir, elevated } => ActionView::LaunchApp {
                path: path@,
                args: views(args@),
                working_dir: opt_view(*working_dir),
                elevated: *elevated,
            },
            KeyAction::OpenUri { uri } => ActionView::OpenUri { uri: uri@ },
            KeyAction::Disable => ActionView::Disable,
        }
    }
}

impl View for KeyMapping {
    type V = MappingView;

    open spec fn view(&self) -> MappingView {
        MappingView {
            trigger: self.trigger@,
            action: self.action@,
            app_filter: opt_view(self.app_filter),
            enabled: self.enabled,
            exact_match: self.exact_match,
        }
    }
}

/// A fresh, enabled mapping with no application filter and no exact match.
pub open spec fn plain_mapping(trigger: TriggerView, action: ActionView) -> MappingView {
    MappingView { trigger, action, app_filter: None, enabled: true, exact_match: false }
}

/// An owned copy of `s`.
fn owned(s: &str) -> (r: String)
    ensures
        r@ == s@,
{
    s.to_owned()
}

impl KeyCombo {
    /// A single key with no modifiers.
    pub fn key(key: &str) -> (r: KeyCombo)
        ensures
            r@ == (ComboView { modifiers: seq![], key: key@, chord: None }),
    {
        let r = KeyCombo { modifiers: Vec::new(), key: owned(key), chord: None };
        assert(views(r.modifiers@) =~= seq![]);
        r
    }

    /// Modifiers and an action key.
    pub fn shortcut(modifiers: Vec<String>, key: &str) -> (r: KeyCombo)
        ensures
            r@ == (ComboView { modifiers: views(modifiers@), key: key@, chord: None }),
    {
        KeyCombo { modifiers, key: owned(key), chord: None }
    }

    /// Modifiers and a first key, then a second key.
    pub fn chord(modifiers: Vec<String>, key: &str, second: &str) -> (r: KeyCombo)
        ensures
            r@ == (ComboView { modifiers: views(modifiers@), key: key@, chord: Some(second@) }),
    {
        KeyCombo { modifiers, key: owned(key), chord: Some(owned(second)) }
    }

    /// Whether this is a single key: no modifiers and no chord.
    pub fn is_single_key(&self) -> (b: bool)
        ensures
            b == (self@.modifiers.len() == 0 && self@.chord is None),
    {
        self.modifiers.len() == 0 && self.chord.is_none()
    }
}

impl KeyTrigger {
    /// A single-key trigger.
    pub fn key(key: &str) -> (r: KeyTrigger)
        ensures
            r@ == TriggerView::Key(key@),
    {
        KeyTrigger::Key(owned(key))
    }

    /// A shortcut trigger.
    pub fn combo(modifiers: Vec<String>, key: &str) -> (r: KeyTrigger)
        ensures
            r@ == TriggerView::Combo(ComboView { modifiers: views(modifiers@), key: key@, chord: None }),
    {
        KeyTrigger::Combo(KeyCombo::shortcut(modifiers, key))
    }

    /// A chord trigger.
    pub fn chord(modifiers: Vec<String>, key: &str, second: &str) -> (r: KeyTrigger)
        ensures
            r@ == TriggerView::Combo(
                ComboView { modifiers: views(modifiers@), key: key@, chord: Some(second@) },
            ),
    {
        KeyTrigger::Combo(KeyCombo::chord(modifiers, key, second))
    }
}

/// The default of a mapping's `enabled` flag.
pub fn default_true() -> (b: bool)
    ensures
        b,
{
    true
}

/// Whether `v` is false; an `exact_match` that is false is not written out.
pub fn is_false(v: &bool) -> (b: bool)
    ensures
        b == !*v,
{
    !*v
}

impl KeyMapping {
    /// Remaps one key to another.
    pub fn remap(from: &str, to: &str) -> (r: KeyMapping)
        ensures
            r@ == plain_mapping(
                TriggerView::Key(from@),
                ActionView::RemapKey { to: ComboView { modifiers: seq![], key: to@, chord: None } },
            ),
    {
        KeyMapping {
            trigger: KeyTrigger::Key(owned(from)),
            action: KeyAction::RemapKey { to: KeyCombo::key(to) },
            app_filter: None,
            enabled: true,
            exact_match: false,
        }
    }

    /// Remaps a key to a shortcut.
    pub fn remap_to_combo(from: &str, modifiers: Vec<String>, to_key: &str) -> (r: KeyMapping)
        ensures
            r@ == plain_mapping(
                TriggerView::Key(from@),
                ActionView::RemapKey {
                    to: ComboView { modifiers: views(modifiers@), key: to_key@, chord: None },
                },
            ),
    {
        KeyMapping {
            trigger: KeyTrigger::Key(owned(from)),
            action: KeyAction::RemapKey { to: KeyCombo::shortcut(modifiers, to_key) },
            app_filter: None,
            enabled: true,
            exact_match: false,
        }
    }

    /// Runs a shell command when a key is pressed.
    pub fn command(from: &str, command: &str) -> (r: KeyMapping)
        ensures
            r@ == plain_mapping(
                TriggerView::Key(from@),
                ActionView::RunCommand { command: command@ },
            ),
    {
        KeyMapping {
            trigger: KeyTrigger::Key(owned(from)),
            action: KeyAction::RunCommand { command: owned(command) },
            app_filter: None,
            enabled: true,
            exact_match: false,
        }
    }

    /// Disables a key entirely.
    pub fn disable(from: &str) -> (r: KeyMapping)
        ensures
            r@ == plain_mapping(TriggerView::Key(from@), ActionView::Disable),
    {
        KeyMapping {
            trigger: KeyTrigger::Key(owned(from)),
            action: KeyAction::Disable,
            app_filter: None,
            enabled: true,
            exact_match: false,
        }
    }

    /// Sends text when a key is pressed.
    pub fn send_text(from: &str, text: &str) -> (r: KeyMapping)
        ensures
            r@ == plain_mapping(TriggerView::Key(from@), ActionView::SendText { text: text@ }),
    {
        KeyMapping {
            trigger: KeyTrigger::Key(owned(from)),
            action: KeyAction::SendText { text: owned(text) },
            app_filter: None,
            enabled: true,
            exact_match: false,
        }
    }

    /// Remaps one shortcut to another.
    pub fn shortcut_remap(from: KeyCombo, to: KeyCombo) -> (r: KeyMapping)
        ensures
            r@ == plain_mapping(TriggerView::Combo(from@), ActionView::RemapKey { to: to@ }),
    {
        KeyMapping {
            trigger: KeyTrigger::Combo(from),
            action: KeyAction::RemapKey { to },
            app_filter: None,
            enabled: true,
            exact_match: false,
        }
    }

    /// Launches an application (no arguments, no working directory, not
    /// elevated).
    pub fn launch_app(trigger: KeyTrigger, path: &str) -> (r: KeyMapping)
        ensures
            r@ == plain_mapping(
                trigger@,
                ActionView::LaunchApp { path: path@, args: seq![], working_dir: None, elevated: false },
            ),
    {
        let args: Vec<String> = Vec::new();
        assert(views(args@) =~= seq![]);
        let r = KeyMapping {
            trigger,
            action: KeyAction::LaunchApp {
                path: owned(path),
                args,
                working_dir: None,
                elevated: false,
            },
            app_filter: None,
            enabled: true,
            exact_match: false,
        };
        r
    }

    /// Opens a URI.
    pub fn open_uri(trigger: KeyTrigger, uri: &str) -> (r: KeyMapping)
        ensures
            r@ == plain_mapping(trigger@, ActionView::OpenUri { uri: uri@ }),
    {
        KeyMapping {
            trigger,
            action: KeyAction::OpenUri { uri: owned(uri) },
            app_filter: None,
            enabled: true,
            exact_match: false,
        }
    }

    /// Restricts this mapping to one application.
    pub fn for_app(self, app: &str) -> (r: KeyMapping)
        ensures
            r@ == (MappingView { app_filter: Some(app@), ..self@ }),
    {
        let mut m = self;
        m.app_filter = Some(owned(app));
        m
    }

    /// Requires the trigger to match exactly (no extra keys held).
    pub fn exact(self) -> (r: KeyMapping)
        ensures
            r@ == (MappingView { exact_match: true, ..self@ }),
    {
        let mut m = self;
        m.exact_match = true;
        m
    }
}

/// The key manager's saved settings.
#[derive(Debug, Clone)]
pub struct KeyManagerConfig {
    pub mappings: Vec<KeyMapping>,
}

/// The mappings' values.
pub open spec fn mapping_views(v: Seq<KeyMapping>) -> Seq<MappingView> {
    v.map_values(|m: KeyMapping| m@)
}

impl KeyManagerConfig {
    /// No mappings.
    pub fn new() -> (c: KeyManagerConfig)
        ensures
            c.mappings@.len() == 0,
    {
        KeyManagerConfig { mappings: Vec::new() }
    }
}

/// Why a mapping could not be removed.
#[derive(Debug, Clone, Copy, PartialEq, Eq, Structural)]
pub enum KeyManagerError {
    /// No mapping has this index.
    MappingOutOfRange { index: usize },
}

/// The key manager module: its mappings and whether it runs.
pub struct KeyManager {
    running: bool,
    config: KeyManagerConfig,
}

impl KeyManager {
    /// A stopped key manager with the given settings.
    pub fn new(config: KeyManagerConfig) -> (m: KeyManager)
        ensures
            !m.is_running_spec(),
            mapping_views(m.config_spec().mappings@) == mapping_views(config.mappings@),
    {
        KeyManager { running: false, config }
    }

    pub closed spec fn is_running_spec(&self) -> bool {
        self.running
    }

    pub closed spec fn config_spec(&self) -> KeyManagerConfig {
        self.config
    }

    /// The settings.
    pub fn config(&self) -> (c: &KeyManagerConfig)
        ensures
            c == self.config_spec(),
    {
        &self.config
    }

    /// Appends a mapping.
    pub fn add_mapping(&mut self, mapping: KeyMapping)
        ensures
            mapping_views(final(self).config_spec().mappings@) == mapping_views(
                old(self).config_spec().mappings@,
            ).push(mapping@),
            final(self).is_running_spec() == old(self).is_running_spec(),
    {
        let ghost before = self.config.mappings@;
        self.config.mappings.push(mapping);
        assert(mapping_views(self.config.mappings@) =~= mapping_views(before).push(mapping@));
    }

    /// Removes the mapping at `index`.
    pub fn remove_mapping(&mut self, index: usize) -> (r: Result<(), KeyManagerError>)
        ensures
            r is Ok <==> index < old(self).config_spec().mappings@.len(),
            r is Ok ==> mapping_views(final(self).config_spec().mappings@) == mapping_views(
                old(self).config_spec().mappings@,
            ).remove(index as int),
            r is Err ==> r == Err::<(), KeyManagerError>(
                KeyManagerError::MappingOutOfRange { index },
            ) && mapping_views(final(self).config_spec().mappings@) == mapping_views(
                old(self).config_spec().mappings@,
            ),
            final(self).is_running_spec() == old(self).is_running_spec(),
    {
        if index >= self.config.mappings.len() {
            return Err(KeyManagerError::MappingOutOfRange { index });
        }
        let ghost before = self.config.mappings@;
        self.config.mappings.remove(index);
        assert(mapping_views(self.config.mappings@) =~= mapping_views(before).remove(index as int));
        Ok(())
    }

    /// Starts the module.
    pub fn start(&mut self)
        ensures
            final(self).is_running_spec(),
            final(self).config_spec() == old(self).config_spec(),
    {
        self.running = true;
    }

    /// Stops the module.
    pub fn stop(&mut self)
        ensures
            !final(self).is_running_spec(),
            final(self).config_spec() == old(self).config_spec(),
    {
        self.running = false;
    }

    /// Whether the module runs.
    pub fn is_running(&self) -> (b: bool)
        ensures
            b == self.is_running_spec(),
    {
        self.running
    }
}

} // verus!
