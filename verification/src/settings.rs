//! The Settings window's state between messages, and how each message
//! changes it; what has to happen outside (asking the daemon, the
//! clipboard, saving, waiting) comes back as an effect to perform.

use vstd::prelude::*;

use crate::module_confs::{
    AppLauncherConf, ColorPickerConf, CommandPaletteConf, FancyZonesConf, ImageResizerConf,
    LightSwitchConf, MouseUtilsConf, PeekConf, TextExtractorConf,
};
use crate::numbers::{parse_i32, signed_of};
use crate::settings_types::{FontSize, Language, Page, ThemeMode, ToastKind, VisualTheme};
use crate::text::{owned, push_all, same_text, views};

verus! {

// ---------------------------------------------------------------------------
// Toasts
// ---------------------------------------------------------------------------

/// A notification shown for a while: its kind, title and message, and when
/// it was made and ends (milliseconds).
#[derive(Debug)]
pub struct ToastNotification {
    pub kind: ToastKind,
    pub title: String,
    pub message: String,
    pub created_ms: u64,
    pub expires_ms: u64,
}

/// A toast as values.
pub type ToastView = (ToastKind, Seq<char>, Seq<char>, u64, u64);

/// The view of a toast.
pub open spec fn toast_view(t: ToastNotification) -> ToastView {
    (t.kind, t.title@, t.message@, t.created_ms, t.expires_ms)
}

/// The view of a queue of toasts.
pub open spec fn queue_view(q: Seq<ToastNotification>) -> Seq<ToastView> {
    q.map_values(|t: ToastNotification| toast_view(t))
}

/// The view of the toast on show.
pub open spec fn shown_view(t: Option<ToastNotification>) -> Option<ToastView> {
    match t {
        Some(x) => Some(toast_view(x)),
        None => None,
    }
}

impl ToastNotification {
    /// A toast made at `now_ms` for `duration_ms`.
    pub fn new(kind: ToastKind, title: &str, message: &str, duration_ms: u64, now_ms: u64) -> (t: ToastNotification)
        requires
            now_ms + duration_ms <= u64::MAX,
        ensures
            toast_view(t) == (kind, title@, message@, now_ms, (now_ms + duration_ms) as u64),
    {
        ToastNotification {
            kind,
            title: owned(title),
            message: owned(message),
            created_ms: now_ms,
            expires_ms: now_ms + duration_ms,
        }
    }
}

/// How long a toast shows: four seconds for a success, six for an error,
/// one more with reduced motion.
pub open spec fn toast_duration(kind: ToastKind, reduced_motion: bool) -> u64 {
    let base: int = match kind {
        ToastKind::Success => 4000,
        ToastKind::Error => 6000,
    };
    (base + if reduced_motion {
        1000int
    } else {
        0
    }) as u64
}

/// The toast on show and the waiting ones after queueing `t`: it shows at
/// once if nothing does, else it waits last, the oldest waiting one dropped
/// when four already wait.
pub open spec fn after_queueing(shown: Option<ToastView>, queue: Seq<ToastView>, t: ToastView) -> (Option<ToastView>, Seq<ToastView>) {
    if shown is None {
        (Some(t), queue)
    } else if queue.len() >= 4 {
        (shown, queue.drop_first().push(t))
    } else {
        (shown, queue.push(t))
    }
}

/// The next waiting toast shows when none does.
pub open spec fn after_show_next(shown: Option<ToastView>, queue: Seq<ToastView>) -> (Option<ToastView>, Seq<ToastView>) {
    if shown is None {
        if queue.len() > 0 {
            (Some(queue[0]), queue.drop_first())
        } else {
            (None, queue)
        }
    } else {
        (shown, queue)
    }
}

// ---------------------------------------------------------------------------
// Messages and effects
// ---------------------------------------------------------------------------

/// Where an update stands.
#[derive(Debug)]
pub enum UpdateState {
    Unknown,
    Checking,
    UpToDate,
    Available { latest_version: String },
    Updating { target_version: String },
    Restarting { new_version: String },
    Error(String),
}

/// The steps of the demonstration update dialog.
#[derive(Debug, Clone, Copy, PartialEq, Eq, Structural)]
pub enum DemoDialogPhase {
    Available,
    Updating,
    Restarting,
}

/// What the daemon reports: whether it answers, and each module's id, name
/// and whether it runs.
#[derive(Debug)]
pub struct DaemonStateResult {
    pub connected: bool,
    pub modules: Vec<(String, String, bool)>,
}

/// The outcome of looking for an update.
#[derive(Debug)]
pub enum UpdateCheckResult {
    UpToDate,
    Available(String),
    Error(String),
}

/// The outcome of installing an update.
#[derive(Debug)]
pub enum UpdateInstallResult {
    Updated(String),
    AlreadyUpToDate,
    Error(String),
}

/// A module as the window lists it: its id, and whether it runs.
#[derive(Debug)]
pub struct ModuleStatus {
    pub id: String,
    pub running: bool,
}

/// The translated texts the window's toasts use.
#[derive(Debug)]
pub struct ToastTexts {
    pub success_title: String,
    pub error_title: String,
    pub command_copied: String,
    pub copy_failed: String,
    pub update_already: String,
    pub update_failed: String,
    pub demo_success: String,
    pub demo_error: String,
}

/// The settings of the modules the window edits directly.
#[derive(Debug)]
pub struct ModuleConfigs {
    pub color_picker: ColorPickerConf,
    pub text_extractor: TextExtractorConf,
    pub image_resizer: ImageResizerConf,
    pub mouse_utils: MouseUtilsConf,
    pub app_launcher: AppLauncherConf,
    pub fancy_zones: FancyZonesConf,
    pub peek: PeekConf,
    pub command_palette: CommandPaletteConf,
    pub light_switch: LightSwitchConf,
}

/// What the window is told.
#[derive(Debug)]
pub enum Message {
    NavigateTo(Page),
    ToggleModule(String, bool),
    ToggleModuleResult(String, bool, String),
    TriggerHotkeyTest(String),
    TriggerHotkeyTestResult(String, String),
    StartHotkeyTest,
    StopHotkeyTest,
    KeyboardEvent(String, bool),
    ToggleDependencyHelp(String),
    CloseDependencyHelp,
    CopyInstallCommand(String),
    CopyInstallCommandResult(bool),
    DismissToast,
    ToastTick,
    SetThemeMode(ThemeMode),
    SetLanguage(Language),
    SetFontSize(FontSize),
    ToggleHighContrast(bool),
    ToggleBoldText(bool),
    ToggleCompactLayout(bool),
    ToggleReducedMotion(bool),
    SystemThemeCheck,
    SystemThemeDetected(bool),
    DaemonPoll,
    DaemonState(DaemonStateResult),
    SetVisualTheme(VisualTheme),
    PickCustomImage,
    CustomImagePicked(Option<String>),
    CheckForUpdates,
    UpdateCheckFinished(UpdateCheckResult),
    OpenUpdateDialog,
    CloseUpdateDialog,
    ConfirmUpdateInstall,
    UpdateInstallFinished(UpdateInstallResult),
    RestartApp,
    StartDaemon,
    StartDaemonResult(Result<(), String>),
    SetColorPickerFormat(String),
    SetColorPickerBehavior(String),
    ToggleColorPickerShowName(bool),
    ToggleColorFormat(String, bool),
    SetTextExtractorLang(String),
    SetImageResizerPreset(String),
    SetImageResizerFormat(String),
    SetImageResizerQuality(u8),
    ToggleMouseFindMyMouse(bool),
    ToggleMouseClickHighlighter(bool),
    ToggleMouseCrosshair(bool),
    SetAppLauncherMaxResults(usize),
    ToggleAppLauncherCalc(bool),
    SetFancyZonesGap(u32),
    SetPeekPreviewLines(usize),
    SetPeekDirEntries(usize),
    SetLightSwitchSchedule(String),
    /// The latitude typed, in millionths of a degree, where it reads as a number.
    SetLightSwitchLatitude(Option<i64>),
    /// The longitude typed, in millionths of a degree, where it reads as a number.
    SetLightSwitchLongitude(Option<i64>),
    SetLightSwitchSunriseOffset(String),
    SetLightSwitchSunsetOffset(String),
    SetLightSwitchDarkTime(String),
    SetLightSwitchLightTime(String),
    ToggleLightSwitchSystem(bool),
    ToggleLightSwitchApps(bool),
    DemoToast(ToastKind),
    OpenDemoDialog,
    CloseDemoDialog,
    DemoDialogConfirm,
}

/// A message the window sends itself after a pause.
#[derive(Debug, Clone, Copy, PartialEq, Eq, Structural)]
pub enum Delayed {
    RestartApp,
    DemoDialogConfirm,
    CloseDemoDialog,
}

/// What has to happen outside after a message.
#[derive(Debug)]
pub enum Effect {
    Nothing,
    CheckForUpdates,
    ToggleModule(String, bool),
    TriggerHotkey(String),
    StartKeyListener,
    CopyToClipboard(String),
    DetectSystemDark,
    PollDaemon,
    SaveUiPrefs,
    PickImage,
    PerformUpdate,
    Restart,
    SpawnDaemon,
    SaveModule(String),
    After(u64, Delayed),
}

// ---------------------------------------------------------------------------
// The window's state
// ---------------------------------------------------------------------------

/// The Settings window's state.
#[derive(Debug)]
pub struct Settings {
    pub modules: Vec<ModuleStatus>,
    pub page: Page,
    pub daemon_connected: bool,
    pub theme_mode: ThemeMode,
    pub system_is_dark: bool,
    pub language: Language,
    pub font_size: FontSize,
    pub high_contrast: bool,
    pub bold_text: bool,
    pub compact_layout: bool,
    pub reduced_motion: bool,
    pub visual_theme: VisualTheme,
    pub custom_image_history: Vec<String>,
    pub shortcut_test_results: Vec<(String, String)>,
    pub hotkey_test_active: bool,
    pub test_active_keys: Vec<String>,
    pub key_listener_started: bool,
    pub dependency_help_for: Option<String>,
    pub toast: Option<ToastNotification>,
    pub toast_queue: Vec<ToastNotification>,
    pub update_state: UpdateState,
    pub update_dialog_open: bool,
    pub module_configs: ModuleConfigs,
    pub demo_dialog_open: bool,
    pub demo_dialog_phase: DemoDialogPhase,
}

/// The modules as ids and whether they run.
pub open spec fn modules_view(m: Seq<ModuleStatus>) -> Seq<(Seq<char>, bool)> {
    m.map_values(|s: ModuleStatus| (s.id@, s.running))
}

/// No two modules share an id.
pub open spec fn distinct_ids(m: Seq<(Seq<char>, bool)>) -> bool {
    forall|i: int, j: int| 0 <= i < j < m.len() ==> m[i].0 != m[j].0
}

/// The modules with the one named `id` set to run or not.
pub open spec fn with_running(m: Seq<(Seq<char>, bool)>, id: Seq<char>, running: bool) -> Seq<(Seq<char>, bool)> {
    m.map_values(|p: (Seq<char>, bool)| if p.0 == id {
        (p.0, running)
    } else {
        p
    })
}

/// What the daemon last says of module `id`, if anything.
pub open spec fn reported(entries: Seq<(String, String, bool)>, id: Seq<char>) -> Option<bool>
    decreases entries.len(),
{
    if entries.len() == 0 {
        None
    } else if entries.last().0@ == id {
        Some(entries.last().2)
    } else {
        reported(entries.drop_last(), id)
    }
}

/// The modules after the daemon's report: each one it mentions takes the
/// state it last gives.
pub open spec fn after_report(m: Seq<(Seq<char>, bool)>, entries: Seq<(String, String, bool)>) -> Seq<(Seq<char>, bool)> {
    m.map_values(|p: (Seq<char>, bool)| match reported(entries, p.0) {
        Some(r) => (p.0, r),
        None => p,
    })
}

/// The test results as key and value texts.
pub open spec fn results_view(v: Seq<(String, String)>) -> Seq<(Seq<char>, Seq<char>)> {
    v.map_values(|p: (String, String)| (p.0@, p.1@))
}

/// The results with `key` set to `value`: in place if present, else last.
pub open spec fn result_set(s: Seq<(Seq<char>, Seq<char>)>, key: Seq<char>, value: Seq<char>) -> Seq<(Seq<char>, Seq<char>)> {
    if exists|i: int| 0 <= i < s.len() && (#[trigger] s[i]).0 == key {
        let i = choose|i: int| 0 <= i < s.len() && (#[trigger] s[i]).0 == key;
        s.update(i, (key, value))
    } else {
        s.push((key, value))
    }
}

/// No two results share a key.
pub open spec fn distinct_keys(s: Seq<(Seq<char>, Seq<char>)>) -> bool {
    forall|i: int, j: int| 0 <= i < j < s.len() ==> s[i].0 != s[j].0
}

/// The keys held after a key event: a pressed key added once, a released
/// one removed.
pub open spec fn keys_after(keys: Seq<Seq<char>>, name: Seq<char>, pressed: bool) -> Seq<Seq<char>> {
    if pressed {
        if keys.contains(name) {
            keys
        } else {
            keys.push(name)
        }
    } else {
        keys.filter(|k: Seq<char>| k != name)
    }
}

/// The recent pictures after picking `path`: it first, then the others
/// without it, ten at most.
pub open spec fn history_after(h: Seq<Seq<char>>, path: Seq<char>) -> Seq<Seq<char>> {
    let l = seq![path] + without(h, path);
    if l.len() > 10 {
        l.take(10)
    } else {
        l
    }
}

/// The state of an update as values: which state, and its version or error.
pub open spec fn update_view(u: UpdateState) -> (int, Seq<char>) {
    match u {
        UpdateState::Unknown => (0, seq![]),
        UpdateState::Checking => (1, seq![]),
        UpdateState::UpToDate => (2, seq![]),
        UpdateState::Available { latest_version } => (3, latest_version@),
        UpdateState::Updating { target_version } => (4, target_version@),
        UpdateState::Restarting { new_version } => (5, new_version@),
        UpdateState::Error(e) => (6, e@),
    }
}

/// The page as values: which page, and the module's id.
pub open spec fn page_view(p: Page) -> (int, Seq<char>) {
    match p {
        Page::Dashboard => (0, seq![]),
        Page::Module(id) => (1, id@),
        Page::Preferences => (2, seq![]),
        Page::Tests => (3, seq![]),
        Page::About => (4, seq![]),
    }
}

/// The optional text as values.
pub open spec fn opt_view(o: Option<String>) -> Option<Seq<char>> {
    match o {
        Some(s) => Some(s@),
        None => None,
    }
}

/// The effect as values: which effect, and its texts, flag and number.
pub open spec fn effect_view(e: Effect) -> (int, Seq<char>, bool, u64) {
    match e {
        Effect::Nothing => (0, seq![], false, 0),
        Effect::CheckForUpdates => (1, seq![], false, 0),
        Effect::ToggleModule(id, b) => (2, id@, b, 0),
        Effect::TriggerHotkey(id) => (3, id@, false, 0),
        Effect::StartKeyListener => (4, seq![], false, 0),
        Effect::CopyToClipboard(c) => (5, c@, false, 0),
        Effect::DetectSystemDark => (6, seq![], false, 0),
        Effect::PollDaemon => (7, seq![], false, 0),
        Effect::SaveUiPrefs => (8, seq![], false, 0),
        Effect::PickImage => (9, seq![], false, 0),
        Effect::PerformUpdate => (10, seq![], false, 0),
        Effect::Restart => (11, seq![], false, 0),
        Effect::SpawnDaemon => (12, seq![], false, 0),
        Effect::SaveModule(id) => (13, id@, false, 0),
        Effect::After(ms, Delayed::RestartApp) => (14, seq![], false, ms),
        Effect::After(ms, Delayed::DemoDialogConfirm) => (15, seq![], false, ms),
        Effect::After(ms, Delayed::CloseDemoDialog) => (16, seq![], false, ms),
    }
}

/// The window's invariant: module ids and result keys each once, at most
/// four toasts waiting, and none waiting while none shows. Every message
/// keeps it (`Settings::update`).
pub open spec fn settings_wf(s: Settings) -> bool {
    &&& distinct_ids(modules_view(s.modules@))
    &&& distinct_keys(results_view(s.shortcut_test_results@))
    &&& s.toast_queue@.len() <= 4
    &&& (s.toast is None ==> s.toast_queue@.len() == 0)
}

// ---------------------------------------------------------------------------
// What a message leaves alone
// ---------------------------------------------------------------------------

/// The parts of the state a message may change.
#[derive(Debug, Clone, Copy, PartialEq, Eq, Structural)]
pub struct Touch {
    pub modules: bool,
    pub nav: bool,
    pub prefs: bool,
    pub look: bool,
    pub tests: bool,
    pub toasts: bool,
    pub update: bool,
    pub configs: bool,
    pub demo: bool,
}

/// Only the parts named in `t` differ between `o` and `n`.
pub open spec fn keeps_but(o: Settings, n: Settings, t: Touch) -> bool {
    &&& !t.modules ==> n.modules == o.modules && n.daemon_connected == o.daemon_connected
    &&& !t.nav ==> n.page == o.page && n.dependency_help_for == o.dependency_help_for
    &&& !t.prefs ==> n.theme_mode == o.theme_mode && n.system_is_dark == o.system_is_dark
        && n.language == o.language && n.font_size == o.font_size && n.high_contrast
        == o.high_contrast && n.bold_text == o.bold_text && n.compact_layout == o.compact_layout
        && n.reduced_motion == o.reduced_motion
    &&& !t.look ==> n.visual_theme == o.visual_theme && n.custom_image_history
        == o.custom_image_history
    &&& !t.tests ==> n.shortcut_test_results == o.shortcut_test_results && n.hotkey_test_active
        == o.hotkey_test_active && n.test_active_keys == o.test_active_keys
        && n.key_listener_started == o.key_listener_started
    &&& !t.toasts ==> n.toast == o.toast && n.toast_queue == o.toast_queue
    &&& !t.update ==> n.update_state == o.update_state && n.update_dialog_open
        == o.update_dialog_open
    &&& !t.configs ==> n.module_configs == o.module_configs
    &&& !t.demo ==> n.demo_dialog_open == o.demo_dialog_open && n.demo_dialog_phase
        == o.demo_dialog_phase
}

/// Nothing may change.
pub open spec fn touch_nothing() -> Touch {
    Touch {
        modules: false,
        nav: false,
        prefs: false,
        look: false,
        tests: false,
        toasts: false,
        update: false,
        configs: false,
        demo: false,
    }
}

/// The toasts after queueing one of `kind` with `title` and `message` at
/// `now_ms`.
pub open spec fn toasts_queued(o: Settings, n: Settings, kind: ToastKind, title: Seq<char>, message: Seq<char>, now_ms: u64) -> bool {
    let t = (kind, title, message, now_ms, (now_ms + toast_duration(kind, o.reduced_motion)) as u64);
    (shown_view(n.toast), queue_view(n.toast_queue@)) == after_queueing(
        shown_view(o.toast),
        queue_view(o.toast_queue@),
        t,
    )
}


fn queued(shown: Option<ToastNotification>, queue: Vec<ToastNotification>, t: ToastNotification) -> (r: (Option<ToastNotification>, Vec<ToastNotification>))
    requires
        queue@.len() <= 4,
    ensures
        (shown_view(r.0), queue_view(r.1@)) == after_queueing(shown_view(shown), queue_view(queue@), toast_view(t)),
        r.1@.len() <= 4,
{
    match shown {
        None => (Some(t), queue),
        Some(s) => {
            let mut q = queue;
            let ghost qv = queue_view(q@);
            if q.len() >= 4 {
                q.remove(0);
                assert(queue_view(q@) =~= qv.drop_first());
            }
            let ghost q2 = queue_view(q@);
            let ghost tv = toast_view(t);
            q.push(t);
            assert(queue_view(q@) =~= q2.push(tv));
            (Some(s), q)
        },
    }
}

fn next_shown(shown: Option<ToastNotification>, queue: Vec<ToastNotification>) -> (r: (Option<ToastNotification>, Vec<ToastNotification>))
    ensures
        (shown_view(r.0), queue_view(r.1@)) == after_show_next(shown_view(shown), queue_view(queue@)),
        r.1@.len() <= queue@.len(),
{
    match shown {
        Some(s) => (Some(s), queue),
        None => {
            let mut q = queue;
            if q.len() > 0 {
                let ghost qv = queue_view(q@);
                let t = q.remove(0);
                assert(queue_view(q@) =~= qv.drop_first());
                (Some(t), q)
            } else {
                (None, q)
            }
        },
    }
}

impl Settings {
    fn queue_toast(&mut self, kind: ToastKind, title: &str, message: &str, now_ms: u64)
        requires
            now_ms <= u64::MAX - 10000,
            old(self).toast_queue@.len() <= 4,
        ensures
            keeps_but(*old(self), *final(self), Touch { toasts: true, ..touch_nothing() }),
            toasts_queued(*old(self), *final(self), kind, title@, message@, now_ms),
            final(self).toast_queue@.len() <= 4,
    {
        let mut duration: u64 = match kind {
            ToastKind::Success => 4000,
            ToastKind::Error => 6000,
        };
        if self.reduced_motion {
            duration = duration + 1000;
        }
        let toast = ToastNotification::new(kind, title, message, duration, now_ms);
        let mut shown: Option<ToastNotification> = None;
        let mut queue: Vec<ToastNotification> = Vec::new();
        std::mem::swap(&mut shown, &mut self.toast);
        std::mem::swap(&mut queue, &mut self.toast_queue);
        let (s, q) = queued(shown, queue, toast);
        self.toast = s;
        self.toast_queue = q;
    }

    fn show_next_toast(&mut self)
        ensures
            keeps_but(*old(self), *final(self), Touch { toasts: true, ..touch_nothing() }),
            (shown_view(final(self).toast), queue_view(final(self).toast_queue@)) == after_show_next(
                shown_view(old(self).toast),
                queue_view(old(self).toast_queue@),
            ),
            final(self).toast_queue@.len() <= old(self).toast_queue@.len(),
    {
        let mut shown: Option<ToastNotification> = None;
        let mut queue: Vec<ToastNotification> = Vec::new();
        std::mem::swap(&mut shown, &mut self.toast);
        std::mem::swap(&mut queue, &mut self.toast_queue);
        let (s, q) = next_shown(shown, queue);
        self.toast = s;
        self.toast_queue = q;
    }

    fn set_module_running(&mut self, id: &str, running: bool)
        requires
            distinct_ids(modules_view(old(self).modules@)),
        ensures
            keeps_but(*old(self), *final(self), Touch { modules: true, ..touch_nothing() }),
            final(self).daemon_connected == old(self).daemon_connected,
            modules_view(final(self).modules@) == with_running(modules_view(old(self).modules@), id@, running),
            distinct_ids(modules_view(final(self).modules@)),
    {
        let ghost mv = modules_view(self.modules@);
        let mut i: usize = 0;
        while i < self.modules.len()
            invariant
                i <= self.modules.len(),
                *self == *old(self),
                mv == modules_view(self.modules@),
                distinct_ids(mv),
                forall|k: int| 0 <= k < i ==> mv[k].0 != id@,
            decreases self.modules.len() - i,
        {
            if same_text(self.modules[i].id.as_str(), id) {
                let ghost before = self.modules@;
                let mut m = self.modules.remove(i);
                m.running = running;
                self.modules.insert(i, m);
                proof {
                    assert(self.modules@ =~= before.update(i as int, m));
                    assert(modules_view(self.modules@) =~= with_running(mv, id@, running)) by {
                        assert forall|k: int| 0 <= k < mv.len() implies modules_view(self.modules@)[k]
                            == with_running(mv, id@, running)[k] by {
                            if k != i {
                                assert(mv[k].0 != mv[i as int].0);
                            }
                        }
                    }
                    assert forall|a: int, b: int| 0 <= a < b < mv.len() implies modules_view(self.modules@)[a].0 != modules_view(self.modules@)[b].0 by {
                        assert(mv[a].0 != mv[b].0);
                    }
                }
                return;
            }
            i += 1;
        }
        assert(modules_view(self.modules@) =~= with_running(mv, id@, running));
    }

    fn set_result(&mut self, key: String, value: String)
        requires
            distinct_keys(results_view(old(self).shortcut_test_results@)),
        ensures
            keeps_but(*old(self), *final(self), Touch { tests: true, ..touch_nothing() }),
            final(self).hotkey_test_active == old(self).hotkey_test_active,
            final(self).test_active_keys == old(self).test_active_keys,
            final(self).key_listener_started == old(self).key_listener_started,
            results_view(final(self).shortcut_test_results@) == result_set(results_view(old(self).shortcut_test_results@), key@, value@),
            distinct_keys(results_view(final(self).shortcut_test_results@)),
    {
        let ghost rv = results_view(self.shortcut_test_results@);
        let mut i: usize = 0;
        while i < self.shortcut_test_results.len()
            invariant
                i <= self.shortcut_test_results.len(),
                *self == *old(self),
                rv == results_view(self.shortcut_test_results@),
                distinct_keys(rv),
                forall|k: int| 0 <= k < i ==> rv[k].0 != key@,
            decreases self.shortcut_test_results.len() - i,
        {
            if same_text(self.shortcut_test_results[i].0.as_str(), key.as_str()) {
                let ghost before = self.shortcut_test_results@;
                let ghost kv = key@;
                let ghost vv = value@;
                self.shortcut_test_results.remove(i);
                self.shortcut_test_results.insert(i, (key, value));
                proof {
                    assert(exists|j: int| 0 <= j < rv.len() && (#[trigger] rv[j]).0 == kv) by {
                        assert(rv[i as int].0 == kv);
                    }
                    let c = choose|j: int| 0 <= j < rv.len() && (#[trigger] rv[j]).0 == kv;
                    if c != i {
                        assert(rv[c].0 != rv[i as int].0);
                    }
                    assert(results_view(self.shortcut_test_results@) =~= rv.update(i as int, (kv, vv)));
                    assert forall|a: int, b: int| 0 <= a < b < rv.len() implies results_view(self.shortcut_test_results@)[a].0 != results_view(self.shortcut_test_results@)[b].0 by {
                        assert(rv[a].0 != rv[b].0);
                    }
                }
                return;
            }
            i += 1;
        }
        let ghost kv = key@;
        let ghost vv = value@;
        self.shortcut_test_results.push((key, value));
        proof {
            assert(results_view(self.shortcut_test_results@) =~= rv.push((kv, vv)));
            assert(!exists|j: int| 0 <= j < rv.len() && (#[trigger] rv[j]).0 == kv);
            assert forall|a: int, b: int| 0 <= a < b < rv.len() + 1 implies results_view(self.shortcut_test_results@)[a].0 != results_view(self.shortcut_test_results@)[b].0 by {
                if b < rv.len() {
                    assert(rv[a].0 != rv[b].0);
                }
            }
        }
    }
}

fn contains_text_in(v: &Vec<String>, s: &str) -> (b: bool)
    ensures
        b == views(v@).contains(s@),
{
    let mut i: usize = 0;
    while i < v.len()
        invariant
            i <= v.len(),
            forall|k: int| 0 <= k < i ==> v@[k]@ != s@,
        decreases v.len() - i,
    {
        if same_text(v[i].as_str(), s) {
            assert(views(v@)[i as int] == s@);
            return true;
        }
        i += 1;
    }
    assert(!views(v@).contains(s@)) by {
        if views(v@).contains(s@) {
            let w = choose|w: int| 0 <= w < views(v@).len() && views(v@)[w] == s@;
            assert(v@[w]@ == s@);
        }
    }
    false
}

/// The texts of `v` other than `s`, in order.
fn without_text(v: Vec<String>, s: &str) -> (r: Vec<String>)
    ensures
        views(r@) == views(v@).filter(|k: Seq<char>| k != s@),
{
    let ghost vv = views(v@);
    let ghost pred = |k: Seq<char>| k != s@;
    let mut r: Vec<String> = Vec::new();
    let mut i: usize = 0;
    let mut v = v;
    proof {
        reveal(Seq::filter);
        assert(vv.take(0) =~= Seq::<Seq<char>>::empty());
    }
    let n = v.len();
    while i < n
        invariant
            n == v.len(),
            i <= n,
            vv == views(v@),
            pred == (|k: Seq<char>| k != s@),
            views(r@) == vv.take(i as int).filter(pred),
        decreases n - i,
    {
        let item = v[i].clone();
        proof {
            reveal(Seq::filter);
            assert(vv.take(i + 1).drop_last() =~= vv.take(i as int));
            assert(vv.take(i + 1).last() == item@);
        }
        if !same_text(item.as_str(), s) {
            proof {
                crate::text::lemma_views_push(r@, item);
            }
            r.push(item);
        }
        i += 1;
    }
    assert(vv.take(n as int) =~= vv);
    r
}

impl Settings {
    fn apply_report(&mut self, entries: &Vec<(String, String, bool)>)
        requires
            distinct_ids(modules_view(old(self).modules@)),
        ensures
            keeps_but(*old(self), *final(self), Touch { modules: true, ..touch_nothing() }),
            final(self).daemon_connected == old(self).daemon_connected,
            modules_view(final(self).modules@) == after_report(modules_view(old(self).modules@), entries@),
            distinct_ids(modules_view(final(self).modules@)),
    {
        let ghost start = modules_view(self.modules@);
        let mut j: usize = 0;
        assert(after_report(start, entries@.take(0)) =~= start) by {
            assert forall|k: int| 0 <= k < start.len() implies after_report(start, entries@.take(0))[k] == start[k] by {
                assert(reported(entries@.take(0), start[k].0) is None);
            }
        }
        while j < entries.len()
            invariant
                j <= entries.len(),
                self.daemon_connected == old(self).daemon_connected,
                keeps_but(*old(self), *self, Touch { modules: true, ..touch_nothing() }),
                start == modules_view(old(self).modules@),
                distinct_ids(start),
                modules_view(self.modules@) == after_report(start, entries@.take(j as int)),
                distinct_ids(modules_view(self.modules@)),
            decreases entries.len() - j,
        {
            let ghost before = modules_view(self.modules@);
            let ghost id = entries@[j as int].0@;
            let ghost r = entries@[j as int].2;
            proof {
                assert(entries@.take(j + 1).drop_last() =~= entries@.take(j as int));
                assert(entries@.take(j + 1).last() == entries@[j as int]);
            }
            self.set_module_running(entries[j].0.as_str(), entries[j].2);
            proof {
                assert(modules_view(self.modules@) =~= after_report(start, entries@.take(j + 1))) by {
                    assert forall|k: int| 0 <= k < start.len() implies modules_view(self.modules@)[k]
                        == after_report(start, entries@.take(j + 1))[k] by {
                        assert(before[k].0 == start[k].0);
                    }
                }
                assert forall|a: int, b: int| 0 <= a < b < modules_view(self.modules@).len() implies modules_view(self.modules@)[a].0 != modules_view(self.modules@)[b].0 by {
                    assert(before[a].0 != before[b].0);
                }
            }
            j += 1;
        }
        assert(entries@.take(j as int) =~= entries@);
    }

    fn key_event(&mut self, name: String, pressed: bool)
        ensures
            keeps_but(*old(self), *final(self), Touch { tests: true, ..touch_nothing() }),
            final(self).shortcut_test_results == old(self).shortcut_test_results,
            final(self).hotkey_test_active == old(self).hotkey_test_active,
            final(self).key_listener_started == old(self).key_listener_started,
            views(final(self).test_active_keys@) == (if old(self).hotkey_test_active {
                keys_after(views(old(self).test_active_keys@), name@, pressed)
            } else {
                views(old(self).test_active_keys@)
            }),
    {
        if !self.hotkey_test_active {
            return;
        }
        if pressed {
            if !contains_text_in(&self.test_active_keys, name.as_str()) {
                proof {
                    crate::text::lemma_views_push(self.test_active_keys@, name);
                }
                self.test_active_keys.push(name);
            }
        } else {
            let mut keys: Vec<String> = Vec::new();
            std::mem::swap(&mut keys, &mut self.test_active_keys);
            self.test_active_keys = without_text(keys, name.as_str());
        }
    }

    fn picked_image(&mut self, path: String)
        ensures
            keeps_but(*old(self), *final(self), Touch { look: true, ..touch_nothing() }),
            views(final(self).custom_image_history@) == history_after(views(old(self).custom_image_history@), path@),
            theme_view_of(final(self).visual_theme) == (4int, 0int, path@),
    {
        let mut old_history: Vec<String> = Vec::new();
        std::mem::swap(&mut old_history, &mut self.custom_image_history);
        let ghost hv = views(old_history@);
        let rest = without_text(old_history, path.as_str());
        let mut history: Vec<String> = Vec::new();
        let p2 = path.clone();
        history.push(p2);
        let mut i: usize = 0;
        assert(views(history@) =~= seq![path@]);
        while i < rest.len() && history.len() < 10
            invariant
                i <= rest.len(),
                history.len() == i + 1,
                history.len() <= 10,
                views(history@) == seq![path@] + views(rest@).take(i as int),
            decreases rest.len() - i,
        {
            let item = rest[i].clone();
            proof {
                crate::text::lemma_views_push(history@, item);
                assert(views(rest@).take(i + 1) =~= views(rest@).take(i as int).push(item@));
            }
            history.push(item);
            i += 1;
        }
        proof {
            let l = seq![path@] + views(rest@);
            if l.len() > 10 {
                assert(views(history@) =~= l.take(10));
            } else {
                assert(views(rest@).take(i as int) =~= views(rest@));
            }
        }
        self.custom_image_history = history;
        self.visual_theme = VisualTheme::CustomImage(path);
    }
}

/// The view of a backdrop.
pub open spec fn theme_view_of(t: VisualTheme) -> (int, int, Seq<char>) {
    crate::settings_types::theme_view(t)
}

// ---------------------------------------------------------------------------
// The recent pictures
// ---------------------------------------------------------------------------

/// The texts of `h` other than `p`, in order.
pub open spec fn without(h: Seq<Seq<char>>, p: Seq<char>) -> Seq<Seq<char>> {
    h.filter(|x: Seq<char>| x != p)
}

proof fn lemma_filter_out(h: Seq<Seq<char>>, p: Seq<char>)
    ensures
        h.no_duplicates() ==> without(h, p).no_duplicates(),
        forall|i: int| 0 <= i < without(h, p).len() ==> #[trigger] without(h, p)[i] != p && h.contains(without(h, p)[i]),
        without(h, p).len() <= h.len(),
    decreases h.len(),
{
    reveal(Seq::filter);
    let f = without(h, p);
    if h.len() > 0 {
        let d = h.drop_last();
        lemma_filter_out(d, p);
        let g = without(d, p);
        assert(f == (if h.last() != p { g.push(h.last()) } else { g }));
        assert forall|i: int| 0 <= i < f.len() implies #[trigger] f[i] != p && h.contains(f[i]) by {
            if i < g.len() {
                assert(f[i] == g[i]);
                assert(d.contains(g[i]));
                let w = choose|w: int| 0 <= w < d.len() && d[w] == g[i];
                assert(h[w] == d[w]);
            } else {
                assert(h[h.len() - 1] == h.last());
            }
        }
        if h.no_duplicates() {
            assert(d.no_duplicates()) by {
                assert forall|a: int, b: int| 0 <= a < d.len() && 0 <= b < d.len() && a != b implies d[a] != d[b] by {
                    assert(h[a] == d[a] && h[b] == d[b]);
                }
            }
            if h.last() != p {
                assert(!g.contains(h.last())) by {
                    if g.contains(h.last()) {
                        let w = choose|w: int| 0 <= w < g.len() && g[w] == h.last();
                        assert(d.contains(g[w]));
                        let v = choose|v: int| 0 <= v < d.len() && d[v] == g[w];
                        assert(h[v] == h[h.len() - 1]);
                    }
                }
                assert forall|a: int, b: int| 0 <= a < f.len() && 0 <= b < f.len() && a != b implies f[a] != f[b] by {
                    if a < g.len() && b < g.len() {
                        assert(f[a] == g[a] && f[b] == g[b]);
                    } else if a < g.len() {
                        assert(f[a] == g[a]);
                        assert(g.contains(g[a]));
                    } else if b < g.len() {
                        assert(f[b] == g[b]);
                        assert(g.contains(g[b]));
                    }
                }
            }
        }
    } else {
        assert(f =~= h);
    }
}

/// The recent pictures hold each picture once and ten at most, the one
/// picked last first.
pub proof fn law_history_after(h: Seq<Seq<char>>, p: Seq<char>)
    requires
        h.no_duplicates(),
    ensures
        history_after(h, p).no_duplicates(),
        history_after(h, p).len() <= 10,
        history_after(h, p)[0] == p,
        history_after(h, p).contains(p),
{
    lemma_filter_out(h, p);
    let f = without(h, p);
    let l = seq![p] + f;
    assert(l[0] == p);
    assert(l.no_duplicates()) by {
        assert forall|a: int, b: int| 0 <= a < l.len() && 0 <= b < l.len() && a != b implies l[a] != l[b] by {
            if a > 0 && b > 0 {
                assert(l[a] == f[a - 1] && l[b] == f[b - 1]);
            } else if a == 0 {
                assert(l[b] == f[b - 1]);
            } else {
                assert(l[a] == f[a - 1]);
            }
        }
    }
    if l.len() > 10 {
        assert(l.take(10)[0] == p);
        assert forall|a: int, b: int| 0 <= a < 10 && 0 <= b < 10 && a != b implies l.take(10)[a] != l.take(10)[b] by {
            assert(l.take(10)[a] == l[a] && l.take(10)[b] == l[b]);
        }
    }
    assert(history_after(h, p)[0] == p);
}

// ---------------------------------------------------------------------------
// Messages
// ---------------------------------------------------------------------------

/// The preferences as values.
pub open spec fn prefs_view(s: Settings) -> (ThemeMode, bool, Language, FontSize, bool, bool, bool, bool) {
    (s.theme_mode, s.system_is_dark, s.language, s.font_size, s.high_contrast, s.bold_text, s.compact_layout, s.reduced_motion)
}

/// The colour formats of `n` are those of `o` with the first named `id`
/// offered or not.
pub open spec fn formats_toggled(o: Seq<crate::module_confs::ColorFormatEntry>, n: Seq<crate::module_confs::ColorFormatEntry>, id: Seq<char>, enabled: bool) -> bool {
    &&& n.len() == o.len()
    &&& forall|k: int|
        0 <= k < o.len() ==> {
            let first = (o[k].id@ == id && forall|j: int| 0 <= j < k ==> o[j].id@ != id);
            &&& (#[trigger] n[k]).id == o[k].id
            &&& n[k].label == o[k].label
            &&& n[k].enabled == (if first {
                enabled
            } else {
                o[k].enabled
            })
        }
}

/// Only a module setting changed, and the module is saved.
pub open spec fn config_set(o: Settings, n: Settings, c: ModuleConfigs, e: Effect, module: Seq<char>) -> bool {
    &&& keeps_but(o, n, Touch { configs: true, ..touch_nothing() })
    &&& n.module_configs == c
    &&& effect_view(e) == (13int, module, false, 0u64)
}

/// Nothing changed and nothing is to be done but `effect`.
pub open spec fn only_effect(o: Settings, n: Settings, e: Effect, effect: int) -> bool {
    &&& keeps_but(o, n, touch_nothing())
    &&& effect_view(e).0 == effect
}

/// What a message about pages, shortcut tests and install help does (see `update_post`).
#[verifier::opaque]
pub open spec fn post_nav(o: Settings, n: Settings, msg: Message, now: u64, tx: ToastTexts, e: Effect) -> bool {
    match msg {
        Message::NavigateTo(p) => {
            let to_tests = page_view(p).0 == 3;
            let to_about = page_view(p).0 == 4;
            &&& keeps_but(o, n, Touch { nav: true, tests: true, update: true, ..touch_nothing() })
            &&& page_view(n.page) == page_view(p)
            &&& n.dependency_help_for == o.dependency_help_for
            &&& n.shortcut_test_results == o.shortcut_test_results
            &&& n.key_listener_started == o.key_listener_started
            &&& if to_tests {
                n.hotkey_test_active == o.hotkey_test_active && n.test_active_keys == o.test_active_keys
            } else {
                !n.hotkey_test_active && n.test_active_keys@.len() == 0
            }
            &&& if !to_about {
                !n.update_dialog_open && n.update_state == o.update_state && effect_view(e).0 == 0
            } else if update_view(o.update_state).0 == 0 {
                update_view(n.update_state).0 == 1 && n.update_dialog_open == o.update_dialog_open
                    && effect_view(e).0 == 1
            } else {
                n.update_state == o.update_state && n.update_dialog_open == o.update_dialog_open
                    && effect_view(e).0 == 0
            }
        },
        Message::TriggerHotkeyTest(id) => {
            &&& keeps_but(o, n, Touch { tests: true, ..touch_nothing() })
            &&& n.hotkey_test_active == o.hotkey_test_active
            &&& n.test_active_keys == o.test_active_keys
            &&& n.key_listener_started == o.key_listener_started
            &&& results_view(n.shortcut_test_results@) == result_set(
                results_view(o.shortcut_test_results@),
                id@,
                if o.daemon_connected {
                    "pending"@
                } else {
                    "error: daemon disconnected"@
                },
            )
            &&& effect_view(e) == (if o.daemon_connected {
                (3int, id@, false, 0u64)
            } else {
                (0int, seq![], false, 0u64)
            })
        },
        Message::TriggerHotkeyTestResult(id, result) => {
            &&& keeps_but(o, n, Touch { tests: true, ..touch_nothing() })
            &&& n.hotkey_test_active == o.hotkey_test_active
            &&& n.test_active_keys == o.test_active_keys
            &&& n.key_listener_started == o.key_listener_started
            &&& results_view(n.shortcut_test_results@) == result_set(
                results_view(o.shortcut_test_results@),
                id@,
                result@,
            )
            &&& effect_view(e).0 == 0
        },
        Message::StartHotkeyTest => {
            &&& keeps_but(o, n, Touch { tests: true, ..touch_nothing() })
            &&& n.shortcut_test_results == o.shortcut_test_results
            &&& n.hotkey_test_active
            &&& n.test_active_keys@.len() == 0
            &&& n.key_listener_started
            &&& effect_view(e).0 == (if o.key_listener_started {
                0int
            } else {
                4int
            })
        },
        Message::StopHotkeyTest => {
            &&& keeps_but(o, n, Touch { tests: true, ..touch_nothing() })
            &&& n.shortcut_test_results == o.shortcut_test_results
            &&& n.key_listener_started == o.key_listener_started
            &&& !n.hotkey_test_active
            &&& n.test_active_keys@.len() == 0
            &&& effect_view(e).0 == 0
        },
        Message::KeyboardEvent(name, pressed) => {
            &&& keeps_but(o, n, Touch { tests: true, ..touch_nothing() })
            &&& n.shortcut_test_results == o.shortcut_test_results
            &&& n.hotkey_test_active == o.hotkey_test_active
            &&& n.key_listener_started == o.key_listener_started
            &&& views(n.test_active_keys@) == (if o.hotkey_test_active {
                keys_after(views(o.test_active_keys@), name@, pressed)
            } else {
                views(o.test_active_keys@)
            })
            &&& effect_view(e).0 == 0
        },
        Message::ToggleDependencyHelp(id) => {
            &&& keeps_but(o, n, Touch { nav: true, ..touch_nothing() })
            &&& n.page == o.page
            &&& opt_view(n.dependency_help_for) == (if opt_view(o.dependency_help_for) == Some(id@) {
                None
            } else {
                Some(id@)
            })
            &&& effect_view(e).0 == 0
        },
        Message::CloseDependencyHelp => {
            &&& keeps_but(o, n, Touch { nav: true, ..touch_nothing() })
            &&& n.page == o.page
            &&& n.dependency_help_for is None
            &&& effect_view(e).0 == 0
        },
        _ => false,
    }
}

/// What a message about modules and the daemon does (see `update_post`).
#[verifier::opaque]
pub open spec fn post_modules(o: Settings, n: Settings, msg: Message, now: u64, tx: ToastTexts, e: Effect) -> bool {
    match msg {
        Message::ToggleModule(id, enabled) => {
            &&& keeps_but(o, n, Touch { modules: true, ..touch_nothing() })
            &&& n.daemon_connected == o.daemon_connected
            &&& modules_view(n.modules@) == with_running(modules_view(o.modules@), id@, enabled)
            &&& effect_view(e) == (if o.daemon_connected {
                (2int, id@, enabled, 0u64)
            } else {
                (0int, seq![], false, 0u64)
            })
        },
        Message::ToggleModuleResult(id, desired, result) => {
            &&& effect_view(e).0 == 0
            &&& if result@ != "ok"@ {
                &&& keeps_but(o, n, Touch { modules: true, ..touch_nothing() })
                &&& n.daemon_connected == o.daemon_connected
                &&& modules_view(n.modules@) == with_running(modules_view(o.modules@), id@, !desired)
            } else {
                keeps_but(o, n, touch_nothing())
            }
        },
        Message::DaemonPoll => only_effect(o, n, e, 7),
        Message::DaemonState(st) => {
            &&& keeps_but(o, n, Touch { modules: true, ..touch_nothing() })
            &&& n.daemon_connected == st.connected
            &&& modules_view(n.modules@) == after_report(modules_view(o.modules@), st.modules@)
            &&& effect_view(e).0 == 0
        },
        _ => false,
    }
}

/// What a message about toasts, the clipboard and the daemon process does (see `update_post`).
#[verifier::opaque]
pub open spec fn post_toasts(o: Settings, n: Settings, msg: Message, now: u64, tx: ToastTexts, e: Effect) -> bool {
    match msg {
        Message::CopyInstallCommand(command) => {
            &&& keeps_but(o, n, touch_nothing())
            &&& effect_view(e) == (5int, command@, false, 0u64)
        },
        Message::CopyInstallCommandResult(ok) => {
            &&& keeps_but(o, n, Touch { toasts: true, ..touch_nothing() })
            &&& if ok {
                toasts_queued(o, n, ToastKind::Success, tx.success_title@, tx.command_copied@, now)
            } else {
                toasts_queued(o, n, ToastKind::Error, tx.error_title@, tx.copy_failed@, now)
            }
            &&& effect_view(e).0 == 0
        },
        Message::DismissToast => {
            &&& keeps_but(o, n, Touch { toasts: true, ..touch_nothing() })
            &&& (shown_view(n.toast), queue_view(n.toast_queue@)) == after_show_next(
                None,
                queue_view(o.toast_queue@),
            )
            &&& effect_view(e).0 == 0
        },
        Message::ToastTick => {
            let still = match o.toast {
                Some(t) => if now >= t.expires_ms {
                    None
                } else {
                    Some(toast_view(t))
                },
                None => None,
            };
            &&& keeps_but(o, n, Touch { toasts: true, ..touch_nothing() })
            &&& (shown_view(n.toast), queue_view(n.toast_queue@)) == after_show_next(
                still,
                queue_view(o.toast_queue@),
            )
            &&& effect_view(e).0 == 0
        },
        Message::DemoToast(kind) => {
            &&& keeps_but(o, n, Touch { toasts: true, ..touch_nothing() })
            &&& match kind {
                ToastKind::Success => toasts_queued(o, n, ToastKind::Success, tx.success_title@, tx.demo_success@, now),
                ToastKind::Error => toasts_queued(o, n, ToastKind::Error, tx.error_title@, tx.demo_error@, now),
            }
            &&& effect_view(e).0 == 0
        },
        Message::StartDaemon => only_effect(o, n, e, 12),
        Message::StartDaemonResult(r) => match r {
            Ok(_) => only_effect(o, n, e, 0),
            Err(err) => {
                &&& keeps_but(o, n, Touch { toasts: true, ..touch_nothing() })
                &&& toasts_queued(o, n, ToastKind::Error, tx.error_title@, "mpt-daemon: "@ + err@, now)
                &&& effect_view(e).0 == 0
            },
        },
        Message::RestartApp => only_effect(o, n, e, 11),
        _ => false,
    }
}

/// What a message about preferences and backdrops does (see `update_post`).
#[verifier::opaque]
pub open spec fn post_prefs(o: Settings, n: Settings, msg: Message, now: u64, tx: ToastTexts, e: Effect) -> bool {
    match msg {
        Message::SetThemeMode(m) => {
            &&& keeps_but(o, n, Touch { prefs: true, ..touch_nothing() })
            &&& prefs_view(n) == (m, o.system_is_dark, o.language, o.font_size, o.high_contrast, o.bold_text, o.compact_layout, o.reduced_motion)
            &&& effect_view(e).0 == 0
        },
        Message::SetLanguage(l) => {
            &&& keeps_but(o, n, Touch { prefs: true, ..touch_nothing() })
            &&& prefs_view(n) == (o.theme_mode, o.system_is_dark, l, o.font_size, o.high_contrast, o.bold_text, o.compact_layout, o.reduced_motion)
            &&& effect_view(e).0 == 0
        },
        Message::SetFontSize(f) => {
            &&& keeps_but(o, n, Touch { prefs: true, ..touch_nothing() })
            &&& prefs_view(n) == (o.theme_mode, o.system_is_dark, o.language, f, o.high_contrast, o.bold_text, o.compact_layout, o.reduced_motion)
            &&& effect_view(e).0 == 0
        },
        Message::ToggleHighContrast(v) => {
            &&& keeps_but(o, n, Touch { prefs: true, ..touch_nothing() })
            &&& prefs_view(n) == (o.theme_mode, o.system_is_dark, o.language, o.font_size, v, o.bold_text, o.compact_layout, o.reduced_motion)
            &&& effect_view(e).0 == 0
        },
        Message::ToggleBoldText(v) => {
            &&& keeps_but(o, n, Touch { prefs: true, ..touch_nothing() })
            &&& prefs_view(n) == (o.theme_mode, o.system_is_dark, o.language, o.font_size, o.high_contrast, v, o.compact_layout, o.reduced_motion)
            &&& effect_view(e).0 == 0
        },
        Message::ToggleCompactLayout(v) => {
            &&& keeps_but(o, n, Touch { prefs: true, ..touch_nothing() })
            &&& prefs_view(n) == (o.theme_mode, o.system_is_dark, o.language, o.font_size, o.high_contrast, o.bold_text, v, o.reduced_motion)
            &&& effect_view(e).0 == 0
        },
        Message::ToggleReducedMotion(v) => {
            &&& keeps_but(o, n, Touch { prefs: true, ..touch_nothing() })
            &&& prefs_view(n) == (o.theme_mode, o.system_is_dark, o.language, o.font_size, o.high_contrast, o.bold_text, o.compact_layout, v)
            &&& effect_view(e).0 == 0
        },
        Message::SystemThemeCheck => only_effect(o, n, e, 6),
        Message::SystemThemeDetected(d) => {
            &&& keeps_but(o, n, Touch { prefs: true, ..touch_nothing() })
            &&& prefs_view(n) == (o.theme_mode, d, o.language, o.font_size, o.high_contrast, o.bold_text, o.compact_layout, o.reduced_motion)
            &&& effect_view(e).0 == 0
        },
        Message::SetVisualTheme(vt) => {
            &&& keeps_but(o, n, Touch { look: true, ..touch_nothing() })
            &&& n.custom_image_history == o.custom_image_history
            &&& n.visual_theme == vt
            &&& effect_view(e).0 == 8
        },
        Message::PickCustomImage => only_effect(o, n, e, 9),
        Message::CustomImagePicked(picked) => match picked {
            Some(path) => {
                &&& keeps_but(o, n, Touch { look: true, ..touch_nothing() })
                &&& views(n.custom_image_history@) == history_after(views(o.custom_image_history@), path@)
                &&& theme_view_of(n.visual_theme) == (4int, 0int, path@)
                &&& effect_view(e).0 == 8
            },
            None => only_effect(o, n, e, 0),
        },
        _ => false,
    }
}

/// What a message about updates does (see `update_post`).
#[verifier::opaque]
pub open spec fn post_updates(o: Settings, n: Settings, msg: Message, now: u64, tx: ToastTexts, e: Effect) -> bool {
    match msg {
        Message::CheckForUpdates => {
            &&& keeps_but(o, n, Touch { update: true, ..touch_nothing() })
            &&& !n.update_dialog_open
            &&& update_view(n.update_state).0 == 1
            &&& effect_view(e).0 == 1
        },
        Message::UpdateCheckFinished(r) => {
            &&& keeps_but(o, n, Touch { update: true, ..touch_nothing() })
            &&& update_view(n.update_state) == (match r {
                UpdateCheckResult::UpToDate => (2int, Seq::<char>::empty()),
                UpdateCheckResult::Available(v) => (3int, v@),
                UpdateCheckResult::Error(err) => (6int, err@),
            })
            &&& n.update_dialog_open == (if r is Available {
                o.update_dialog_open
            } else {
                false
            })
            &&& effect_view(e).0 == 0
        },
        Message::OpenUpdateDialog => {
            &&& keeps_but(o, n, Touch { update: true, ..touch_nothing() })
            &&& n.update_state == o.update_state
            &&& n.update_dialog_open == (if update_view(o.update_state).0 == 3 {
                true
            } else {
                o.update_dialog_open
            })
            &&& effect_view(e).0 == 0
        },
        Message::CloseUpdateDialog => {
            &&& keeps_but(o, n, Touch { update: true, ..touch_nothing() })
            &&& n.update_state == o.update_state
            &&& !n.update_dialog_open
            &&& effect_view(e).0 == 0
        },
        Message::ConfirmUpdateInstall => if update_view(o.update_state).0 == 3 {
            &&& keeps_but(o, n, Touch { update: true, ..touch_nothing() })
            &&& update_view(n.update_state) == (4int, update_view(o.update_state).1)
            &&& n.update_dialog_open == o.update_dialog_open
            &&& effect_view(e).0 == 10
        } else {
            only_effect(o, n, e, 0)
        },
        Message::UpdateInstallFinished(r) => match r {
            UpdateInstallResult::Updated(v) => {
                &&& keeps_but(o, n, Touch { update: true, ..touch_nothing() })
                &&& update_view(n.update_state) == (5int, v@)
                &&& n.update_dialog_open == o.update_dialog_open
                &&& effect_view(e) == (14int, Seq::<char>::empty(), false, 1500u64)
            },
            UpdateInstallResult::AlreadyUpToDate => {
                &&& keeps_but(o, n, Touch { update: true, toasts: true, ..touch_nothing() })
                &&& update_view(n.update_state).0 == 2
                &&& !n.update_dialog_open
                &&& toasts_queued(o, n, ToastKind::Success, tx.success_title@, tx.update_already@, now)
                &&& effect_view(e).0 == 0
            },
            UpdateInstallResult::Error(err) => {
                &&& keeps_but(o, n, Touch { update: true, toasts: true, ..touch_nothing() })
                &&& update_view(n.update_state) == (6int, err@)
                &&& !n.update_dialog_open
                &&& toasts_queued(o, n, ToastKind::Error, tx.error_title@, tx.update_failed@ + ": "@ + err@, now)
                &&& effect_view(e).0 == 0
            },
        },
        _ => false,
    }
}

/// What a message about module settings does (see `update_post`).
#[verifier::opaque]
pub open spec fn post_configs(o: Settings, n: Settings, msg: Message, now: u64, tx: ToastTexts, e: Effect) -> bool {
    match msg {
        Message::SetColorPickerFormat(f) => config_set(o, n, ModuleConfigs {
            color_picker: ColorPickerConf { format: f, ..o.module_configs.color_picker },
            ..o.module_configs
        }, e, "color-picker"@),
        Message::SetColorPickerBehavior(b) => config_set(o, n, ModuleConfigs {
            color_picker: ColorPickerConf { behavior: b, ..o.module_configs.color_picker },
            ..o.module_configs
        }, e, "color-picker"@),
        Message::ToggleColorPickerShowName(v) => config_set(o, n, ModuleConfigs {
            color_picker: ColorPickerConf { show_color_name: v, ..o.module_configs.color_picker },
            ..o.module_configs
        }, e, "color-picker"@),
        Message::ToggleColorFormat(id, enabled) => {
            &&& keeps_but(o, n, Touch { configs: true, ..touch_nothing() })
            &&& n.module_configs.color_picker.format == o.module_configs.color_picker.format
            &&& n.module_configs.color_picker.behavior == o.module_configs.color_picker.behavior
            &&& n.module_configs.color_picker.show_color_name == o.module_configs.color_picker.show_color_name
            &&& formats_toggled(o.module_configs.color_picker.formats@, n.module_configs.color_picker.formats@, id@, enabled)
            &&& n.module_configs.text_extractor == o.module_configs.text_extractor
            &&& n.module_configs.image_resizer == o.module_configs.image_resizer
            &&& n.module_configs.mouse_utils == o.module_configs.mouse_utils
            &&& n.module_configs.app_launcher == o.module_configs.app_launcher
            &&& n.module_configs.fancy_zones == o.module_configs.fancy_zones
            &&& n.module_configs.peek == o.module_configs.peek
            &&& n.module_configs.command_palette == o.module_configs.command_palette
            &&& n.module_configs.light_switch == o.module_configs.light_switch
            &&& effect_view(e) == (13int, "color-picker"@, false, 0u64)
        },
        Message::SetTextExtractorLang(l) => config_set(o, n, ModuleConfigs {
            text_extractor: TextExtractorConf { language: l },
            ..o.module_configs
        }, e, "text-extractor"@),
        Message::SetImageResizerPreset(p) => config_set(o, n, ModuleConfigs {
            image_resizer: ImageResizerConf { preset: p, ..o.module_configs.image_resizer },
            ..o.module_configs
        }, e, "image-resizer"@),
        Message::SetImageResizerFormat(f) => config_set(o, n, ModuleConfigs {
            image_resizer: ImageResizerConf { output_format: f, ..o.module_configs.image_resizer },
            ..o.module_configs
        }, e, "image-resizer"@),
        Message::SetImageResizerQuality(q) => config_set(o, n, ModuleConfigs {
            image_resizer: ImageResizerConf { quality: q, ..o.module_configs.image_resizer },
            ..o.module_configs
        }, e, "image-resizer"@),
        Message::ToggleMouseFindMyMouse(v) => config_set(o, n, ModuleConfigs {
            mouse_utils: MouseUtilsConf { find_my_mouse: v, ..o.module_configs.mouse_utils },
            ..o.module_configs
        }, e, "mouse-utils"@),
        Message::ToggleMouseClickHighlighter(v) => config_set(o, n, ModuleConfigs {
            mouse_utils: MouseUtilsConf { click_highlighter: v, ..o.module_configs.mouse_utils },
            ..o.module_configs
        }, e, "mouse-utils"@),
        Message::ToggleMouseCrosshair(v) => config_set(o, n, ModuleConfigs {
            mouse_utils: MouseUtilsConf { crosshair: v, ..o.module_configs.mouse_utils },
            ..o.module_configs
        }, e, "mouse-utils"@),
        Message::SetAppLauncherMaxResults(m) => config_set(o, n, ModuleConfigs {
            app_launcher: AppLauncherConf { max_results: m, ..o.module_configs.app_launcher },
            ..o.module_configs
        }, e, "app-launcher"@),
        Message::ToggleAppLauncherCalc(v) => config_set(o, n, ModuleConfigs {
            app_launcher: AppLauncherConf { show_calculator: v, ..o.module_configs.app_launcher },
            ..o.module_configs
        }, e, "app-launcher"@),
        Message::SetFancyZonesGap(g) => config_set(o, n, ModuleConfigs {
            fancy_zones: FancyZonesConf { zone_gap: g, ..o.module_configs.fancy_zones },
            ..o.module_configs
        }, e, "fancy-zones"@),
        Message::SetPeekPreviewLines(l) => config_set(o, n, ModuleConfigs {
            peek: PeekConf { max_preview_lines: l, ..o.module_configs.peek },
            ..o.module_configs
        }, e, "peek"@),
        Message::SetPeekDirEntries(d) => config_set(o, n, ModuleConfigs {
            peek: PeekConf { max_dir_entries: d, ..o.module_configs.peek },
            ..o.module_configs
        }, e, "peek"@),
        Message::SetLightSwitchSchedule(m) => config_set(o, n, ModuleConfigs {
            light_switch: LightSwitchConf { schedule_mode: m, ..o.module_configs.light_switch },
            ..o.module_configs
        }, e, "light-switch"@),
        Message::SetLightSwitchLatitude(l) => match l {
            Some(v) => config_set(o, n, ModuleConfigs {
                light_switch: LightSwitchConf { latitude_micro: v, ..o.module_configs.light_switch },
                ..o.module_configs
            }, e, "light-switch"@),
            None => only_effect(o, n, e, 0),
        },
        Message::SetLightSwitchLongitude(l) => match l {
            Some(v) => config_set(o, n, ModuleConfigs {
                light_switch: LightSwitchConf { longitude_micro: v, ..o.module_configs.light_switch },
                ..o.module_configs
            }, e, "light-switch"@),
            None => only_effect(o, n, e, 0),
        },
        Message::SetLightSwitchSunriseOffset(t) => match signed_of(t@, 10, i32::MAX as nat) {
            Some(v) => config_set(o, n, ModuleConfigs {
                light_switch: LightSwitchConf { sunrise_offset_min: v as i32, ..o.module_configs.light_switch },
                ..o.module_configs
            }, e, "light-switch"@),
            None => only_effect(o, n, e, 0),
        },
        Message::SetLightSwitchSunsetOffset(t) => match signed_of(t@, 10, i32::MAX as nat) {
            Some(v) => config_set(o, n, ModuleConfigs {
                light_switch: LightSwitchConf { sunset_offset_min: v as i32, ..o.module_configs.light_switch },
                ..o.module_configs
            }, e, "light-switch"@),
            None => only_effect(o, n, e, 0),
        },
        Message::SetLightSwitchDarkTime(t) => config_set(o, n, ModuleConfigs {
            light_switch: LightSwitchConf { dark_mode_time: t, ..o.module_configs.light_switch },
            ..o.module_configs
        }, e, "light-switch"@),
        Message::SetLightSwitchLightTime(t) => config_set(o, n, ModuleConfigs {
            light_switch: LightSwitchConf { light_mode_time: t, ..o.module_configs.light_switch },
            ..o.module_configs
        }, e, "light-switch"@),
        Message::ToggleLightSwitchSystem(v) => config_set(o, n, ModuleConfigs {
            light_switch: LightSwitchConf { apply_system: v, ..o.module_configs.light_switch },
            ..o.module_configs
        }, e, "light-switch"@),
        Message::ToggleLightSwitchApps(v) => config_set(o, n, ModuleConfigs {
            light_switch: LightSwitchConf { apply_apps: v, ..o.module_configs.light_switch },
            ..o.module_configs
        }, e, "light-switch"@),
        _ => false,
    }
}

/// What a message about the demonstration dialog does (see `update_post`).
#[verifier::opaque]
pub open spec fn post_demo(o: Settings, n: Settings, msg: Message, now: u64, tx: ToastTexts, e: Effect) -> bool {
    match msg {
        Message::OpenDemoDialog => {
            &&& keeps_but(o, n, Touch { demo: true, ..touch_nothing() })
            &&& n.demo_dialog_open
            &&& n.demo_dialog_phase == DemoDialogPhase::Available
            &&& effect_view(e).0 == 0
        },
        Message::CloseDemoDialog => {
            &&& keeps_but(o, n, Touch { demo: true, ..touch_nothing() })
            &&& !n.demo_dialog_open
            &&& n.demo_dialog_phase == o.demo_dialog_phase
            &&& effect_view(e).0 == 0
        },
        Message::DemoDialogConfirm => {
            &&& keeps_but(o, n, Touch { demo: true, ..touch_nothing() })
            &&& match o.demo_dialog_phase {
                DemoDialogPhase::Available => n.demo_dialog_phase == DemoDialogPhase::Updating
                    && n.demo_dialog_open == o.demo_dialog_open && effect_view(e) == (15int, Seq::<char>::empty(), false, 3000u64),
                DemoDialogPhase::Updating => n.demo_dialog_phase == DemoDialogPhase::Restarting
                    && n.demo_dialog_open == o.demo_dialog_open && effect_view(e) == (16int, Seq::<char>::empty(), false, 2000u64),
                DemoDialogPhase::Restarting => !n.demo_dialog_open && n.demo_dialog_phase
                    == o.demo_dialog_phase && effect_view(e).0 == 0,
            }
        },

        _ => false,
    }
}

/// What each message does to the window (`o` before, `n` after), at time
/// `now`, with the toasts' texts `tx`, and what it leaves to do.
pub open spec fn update_post(o: Settings, n: Settings, msg: Message, now: u64, tx: ToastTexts, e: Effect) -> bool {
    if about_nav(msg) {
        post_nav(o, n, msg, now, tx, e)
    } else if about_modules(msg) {
        post_modules(o, n, msg, now, tx, e)
    } else if about_toasts(msg) {
        post_toasts(o, n, msg, now, tx, e)
    } else if about_prefs(msg) {
        post_prefs(o, n, msg, now, tx, e)
    } else if about_updates(msg) {
        post_updates(o, n, msg, now, tx, e)
    } else if about_configs(msg) {
        post_configs(o, n, msg, now, tx, e)
    } else {
        post_demo(o, n, msg, now, tx, e)
    }
}

impl Settings {
    #[verifier::rlimit(40)]
    fn navigate(&mut self, page: Page) -> (e: Effect)
        ensures
            ({
                let to_tests = page_view(page).0 == 3;
                let to_about = page_view(page).0 == 4;
                let o = *old(self);
                let n = *final(self);
                &&& keeps_but(o, n, Touch { nav: true, tests: true, update: true, ..touch_nothing() })
                &&& page_view(n.page) == page_view(page)
                &&& n.dependency_help_for == o.dependency_help_for
                &&& n.shortcut_test_results == o.shortcut_test_results
                &&& n.key_listener_started == o.key_listener_started
                &&& if to_tests {
                    n.hotkey_test_active == o.hotkey_test_active && n.test_active_keys == o.test_active_keys
                } else {
                    !n.hotkey_test_active && n.test_active_keys@.len() == 0
                }
                &&& if !to_about {
                    !n.update_dialog_open && n.update_state == o.update_state && effect_view(e).0 == 0
                } else if update_view(o.update_state).0 == 0 {
                    update_view(n.update_state).0 == 1 && n.update_dialog_open == o.update_dialog_open
                        && effect_view(e).0 == 1
                } else {
                    n.update_state == o.update_state && n.update_dialog_open == o.update_dialog_open
                        && effect_view(e).0 == 0
                }
            }),
    {
        let to_about = match &page {
            Page::About => true,
            _ => false,
        };
        let to_tests = match &page {
            Page::Tests => true,
            _ => false,
        };
        if !to_tests {
            self.hotkey_test_active = false;
            self.test_active_keys.clear();
        }
        self.page = page;
        if !to_about {
            self.update_dialog_open = false;
        } else if matches!(self.update_state, UpdateState::Unknown) {
            self.update_state = UpdateState::Checking;
            return Effect::CheckForUpdates;
        }
        Effect::Nothing
    }

    fn start_test(&mut self) -> (e: Effect)
        ensures
            keeps_but(*old(self), *final(self), Touch { tests: true, ..touch_nothing() }),
            final(self).shortcut_test_results == old(self).shortcut_test_results,
            final(self).hotkey_test_active,
            final(self).test_active_keys@.len() == 0,
            final(self).key_listener_started,
            effect_view(e).0 == (if old(self).key_listener_started {
                0int
            } else {
                4int
            }),
    {
        self.hotkey_test_active = true;
        self.test_active_keys.clear();
        if !self.key_listener_started {
            self.key_listener_started = true;
            return Effect::StartKeyListener;
        }
        Effect::Nothing
    }

    fn stop_test(&mut self)
        ensures
            keeps_but(*old(self), *final(self), Touch { tests: true, ..touch_nothing() }),
            final(self).shortcut_test_results == old(self).shortcut_test_results,
            final(self).key_listener_started == old(self).key_listener_started,
            !final(self).hotkey_test_active,
            final(self).test_active_keys@.len() == 0,
    {
        self.hotkey_test_active = false;
        self.test_active_keys.clear();
    }

    fn toggle_help(&mut self, id: String)
        ensures
            keeps_but(*old(self), *final(self), Touch { nav: true, ..touch_nothing() }),
            final(self).page == old(self).page,
            opt_view(final(self).dependency_help_for) == (if opt_view(old(self).dependency_help_for) == Some(id@) {
                None
            } else {
                Some(id@)
            }),
    {
        let same = match &self.dependency_help_for {
            Some(cur) => same_text(cur.as_str(), id.as_str()),
            None => false,
        };
        if same {
            self.dependency_help_for = None;
        } else {
            self.dependency_help_for = Some(id);
        }
    }

    fn close_help(&mut self)
        ensures
            keeps_but(*old(self), *final(self), Touch { nav: true, ..touch_nothing() }),
            final(self).page == old(self).page,
            final(self).dependency_help_for is None,
    {
        self.dependency_help_for = None;
    }

    fn trigger_test(&mut self, id: String) -> (e: Effect)
        requires
            distinct_keys(results_view(old(self).shortcut_test_results@)),
        ensures
            keeps_but(*old(self), *final(self), Touch { tests: true, ..touch_nothing() }),
            final(self).hotkey_test_active == old(self).hotkey_test_active,
            final(self).test_active_keys == old(self).test_active_keys,
            final(self).key_listener_started == old(self).key_listener_started,
            results_view(final(self).shortcut_test_results@) == result_set(
                results_view(old(self).shortcut_test_results@),
                id@,
                if old(self).daemon_connected {
                    "pending"@
                } else {
                    "error: daemon disconnected"@
                },
            ),
            distinct_keys(results_view(final(self).shortcut_test_results@)),
            effect_view(e) == (if old(self).daemon_connected {
                (3int, id@, false, 0u64)
            } else {
                (0int, Seq::<char>::empty(), false, 0u64)
            }),
    {
        if !self.daemon_connected {
            self.set_result(id, owned("error: daemon disconnected"));
            return Effect::Nothing;
        }
        let key = id.clone();
        self.set_result(key, owned("pending"));
        Effect::TriggerHotkey(id)
    }

    fn daemon_report(&mut self, state: DaemonStateResult)
        requires
            distinct_ids(modules_view(old(self).modules@)),
        ensures
            keeps_but(*old(self), *final(self), Touch { modules: true, ..touch_nothing() }),
            final(self).daemon_connected == state.connected,
            modules_view(final(self).modules@) == after_report(modules_view(old(self).modules@), state.modules@),
            distinct_ids(modules_view(final(self).modules@)),
    {
        self.apply_report(&state.modules);
        self.daemon_connected = state.connected;
    }

    fn dismiss_toast(&mut self)
        ensures
            keeps_but(*old(self), *final(self), Touch { toasts: true, ..touch_nothing() }),
            (shown_view(final(self).toast), queue_view(final(self).toast_queue@)) == after_show_next(
                None,
                queue_view(old(self).toast_queue@),
            ),
            final(self).toast_queue@.len() <= old(self).toast_queue@.len(),
    {
        self.toast = None;
        self.show_next_toast();
    }

    fn toast_tick(&mut self, now_ms: u64)
        ensures
            keeps_but(*old(self), *final(self), Touch { toasts: true, ..touch_nothing() }),
            (shown_view(final(self).toast), queue_view(final(self).toast_queue@)) == after_show_next(
                match old(self).toast {
                    Some(t) => if now_ms >= t.expires_ms {
                        None
                    } else {
                        Some(toast_view(t))
                    },
                    None => None,
                },
                queue_view(old(self).toast_queue@),
            ),
            final(self).toast_queue@.len() <= old(self).toast_queue@.len(),
    {
        let expired = match &self.toast {
            Some(t) => now_ms >= t.expires_ms,
            None => false,
        };
        if expired {
            self.toast = None;
        }
        self.show_next_toast();
    }

    fn set_prefs(&mut self, p: (ThemeMode, bool, Language, FontSize, bool, bool, bool, bool))
        ensures
            keeps_but(*old(self), *final(self), Touch { prefs: true, ..touch_nothing() }),
            prefs_view(*final(self)) == p,
    {
        self.theme_mode = p.0;
        self.system_is_dark = p.1;
        self.language = p.2;
        self.font_size = p.3;
        self.high_contrast = p.4;
        self.bold_text = p.5;
        self.compact_layout = p.6;
        self.reduced_motion = p.7;
    }

    fn set_visual_theme(&mut self, vt: VisualTheme)
        ensures
            keeps_but(*old(self), *final(self), Touch { look: true, ..touch_nothing() }),
            final(self).custom_image_history == old(self).custom_image_history,
            final(self).visual_theme == vt,
    {
        self.visual_theme = vt;
    }

    fn check_updates(&mut self)
        ensures
            keeps_but(*old(self), *final(self), Touch { update: true, ..touch_nothing() }),
            !final(self).update_dialog_open,
            update_view(final(self).update_state).0 == 1,
    {
        self.update_dialog_open = false;
        self.update_state = UpdateState::Checking;
    }

    fn check_finished(&mut self, result: UpdateCheckResult)
        ensures
            keeps_but(*old(self), *final(self), Touch { update: true, ..touch_nothing() }),
            update_view(final(self).update_state) == (match result {
                UpdateCheckResult::UpToDate => (2int, Seq::<char>::empty()),
                UpdateCheckResult::Available(v) => (3int, v@),
                UpdateCheckResult::Error(err) => (6int, err@),
            }),
            final(self).update_dialog_open == (if result is Available {
                old(self).update_dialog_open
            } else {
                false
            }),
    {
        let available = match &result {
            UpdateCheckResult::Available(_) => true,
            _ => false,
        };
        self.update_state = match result {
            UpdateCheckResult::UpToDate => UpdateState::UpToDate,
            UpdateCheckResult::Available(version) => UpdateState::Available { latest_version: version },
            UpdateCheckResult::Error(err) => UpdateState::Error(err),
        };
        if !available {
            self.update_dialog_open = false;
        }
    }

    fn set_update_dialog(&mut self, open: bool)
        ensures
            keeps_but(*old(self), *final(self), Touch { update: true, ..touch_nothing() }),
            final(self).update_state == old(self).update_state,
            final(self).update_dialog_open == (if open {
                update_view(old(self).update_state).0 == 3 || old(self).update_dialog_open
            } else {
                false
            }),
    {
        if open {
            if matches!(self.update_state, UpdateState::Available { .. }) {
                self.update_dialog_open = true;
            }
        } else {
            self.update_dialog_open = false;
        }
    }

    fn confirm_install(&mut self) -> (e: Effect)
        ensures
            update_view(old(self).update_state).0 == 3 ==> {
                &&& keeps_but(*old(self), *final(self), Touch { update: true, ..touch_nothing() })
                &&& update_view(final(self).update_state) == (4int, update_view(old(self).update_state).1)
                &&& final(self).update_dialog_open == old(self).update_dialog_open
                &&& effect_view(e).0 == 10
            },
            update_view(old(self).update_state).0 != 3 ==> keeps_but(*old(self), *final(self), touch_nothing()) && effect_view(e).0 == 0,
    {
        let target = match &self.update_state {
            UpdateState::Available { latest_version } => Some(latest_version.clone()),
            _ => None,
        };
        match target {
            Some(v) => {
                self.update_state = UpdateState::Updating { target_version: v };
                Effect::PerformUpdate
            },
            None => Effect::Nothing,
        }
    }

    fn install_updated(&mut self, version: String)
        ensures
            keeps_but(*old(self), *final(self), Touch { update: true, ..touch_nothing() }),
            update_view(final(self).update_state) == (5int, version@),
            final(self).update_dialog_open == old(self).update_dialog_open,
    {
        self.update_state = UpdateState::Restarting { new_version: version };
    }

    fn install_current(&mut self, now_ms: u64, tx: &ToastTexts)
        requires
            now_ms <= u64::MAX - 10000,
            old(self).toast_queue@.len() <= 4,
        ensures
            final(self).toast_queue@.len() <= 4,
            keeps_but(*old(self), *final(self), Touch { update: true, toasts: true, ..touch_nothing() }),
            update_view(final(self).update_state).0 == 2,
            !final(self).update_dialog_open,
            toasts_queued(*old(self), *final(self), ToastKind::Success, tx.success_title@, tx.update_already@, now_ms),
    {
        self.queue_toast(ToastKind::Success, tx.success_title.as_str(), tx.update_already.as_str(), now_ms);
        self.update_state = UpdateState::UpToDate;
        self.update_dialog_open = false;
    }

    fn install_failed(&mut self, err: String, now_ms: u64, tx: &ToastTexts)
        requires
            now_ms <= u64::MAX - 10000,
            old(self).toast_queue@.len() <= 4,
        ensures
            final(self).toast_queue@.len() <= 4,
            keeps_but(*old(self), *final(self), Touch { update: true, toasts: true, ..touch_nothing() }),
            update_view(final(self).update_state) == (6int, err@),
            !final(self).update_dialog_open,
            toasts_queued(*old(self), *final(self), ToastKind::Error, tx.error_title@, tx.update_failed@ + ": "@ + err@, now_ms),
    {
        let head = concat(tx.update_failed.as_str(), ": ");
        let message = concat(head.as_str(), err.as_str());
        self.queue_toast(ToastKind::Error, tx.error_title.as_str(), message.as_str(), now_ms);
        self.update_state = UpdateState::Error(err);
        self.update_dialog_open = false;
    }

    fn set_configs(&mut self, c: ModuleConfigs)
        ensures
            keeps_but(*old(self), *final(self), Touch { configs: true, ..touch_nothing() }),
            final(self).module_configs == c,
    {
        self.module_configs = c;
    }

    fn take_configs(&mut self) -> (c: ModuleConfigs)
        ensures
            c == old(self).module_configs,
            keeps_but(*old(self), *final(self), Touch { configs: true, ..touch_nothing() }),
    {
        let mut c = ModuleConfigs {
            color_picker: ColorPickerConf {
                format: String::new(),
                behavior: String::new(),
                show_color_name: false,
                formats: Vec::new(),
            },
            text_extractor: TextExtractorConf { language: String::new() },
            image_resizer: ImageResizerConf { preset: String::new(), output_format: String::new(), quality: 0 },
            mouse_utils: MouseUtilsConf {
                find_my_mouse: false,
                click_highlighter: false,
                crosshair: false,
                spotlight_radius: 0,
                spotlight_color: String::new(),
                spotlight_opacity_percent: 0,
            },
            app_launcher: AppLauncherConf { max_results: 0, show_calculator: false },
            fancy_zones: FancyZonesConf { active_layout: 0, zone_gap: 0 },
            peek: PeekConf { max_preview_lines: 0, max_dir_entries: 0 },
            command_palette: CommandPaletteConf { max_results: 0, search_engine: String::new(), show_provider_tags: false },
            light_switch: LightSwitchConf {
                schedule_mode: String::new(),
                latitude_micro: 0,
                longitude_micro: 0,
                sunrise_offset_min: 0,
                sunset_offset_min: 0,
                dark_mode_time: String::new(),
                light_mode_time: String::new(),
                apply_system: false,
                apply_apps: false,
            },
        };
        std::mem::swap(&mut c, &mut self.module_configs);
        c
    }

    fn set_demo(&mut self, open: bool, phase: DemoDialogPhase)
        ensures
            keeps_but(*old(self), *final(self), Touch { demo: true, ..touch_nothing() }),
            final(self).demo_dialog_open == open,
            final(self).demo_dialog_phase == phase,
    {
        self.demo_dialog_open = open;
        self.demo_dialog_phase = phase;
    }
}

fn concat(a: &str, b: &str) -> (s: String)
    ensures
        s@ == a@ + b@,
{
    let mut s = owned(a);
    push_all(&mut s, b);
    s
}

/// The messages about nav.
pub open spec fn about_nav(msg: Message) -> bool {
    msg is NavigateTo || msg is TriggerHotkeyTest || msg is TriggerHotkeyTestResult || msg is StartHotkeyTest || msg is StopHotkeyTest || msg is KeyboardEvent || msg is ToggleDependencyHelp || msg is CloseDependencyHelp
}

/// The messages about modules.
pub open spec fn about_modules(msg: Message) -> bool {
    msg is ToggleModule || msg is ToggleModuleResult || msg is DaemonPoll || msg is DaemonState
}

/// The messages about toasts.
pub open spec fn about_toasts(msg: Message) -> bool {
    msg is CopyInstallCommand || msg is CopyInstallCommandResult || msg is DismissToast || msg is ToastTick || msg is DemoToast || msg is StartDaemon || msg is StartDaemonResult || msg is RestartApp
}

/// The messages about prefs.
pub open spec fn about_prefs(msg: Message) -> bool {
    msg is SetThemeMode || msg is SetLanguage || msg is SetFontSize || msg is ToggleHighContrast || msg is ToggleBoldText || msg is ToggleCompactLayout || msg is ToggleReducedMotion || msg is SystemThemeCheck || msg is SystemThemeDetected || msg is SetVisualTheme || msg is PickCustomImage || msg is CustomImagePicked
}

/// The messages about updates.
pub open spec fn about_updates(msg: Message) -> bool {
    msg is CheckForUpdates || msg is UpdateCheckFinished || msg is OpenUpdateDialog || msg is CloseUpdateDialog || msg is ConfirmUpdateInstall || msg is UpdateInstallFinished
}

/// The messages about configs.
pub open spec fn about_configs(msg: Message) -> bool {
    msg is SetColorPickerFormat || msg is SetColorPickerBehavior || msg is ToggleColorPickerShowName || msg is ToggleColorFormat || msg is SetTextExtractorLang || msg is SetImageResizerPreset || msg is SetImageResizerFormat || msg is SetImageResizerQuality || msg is SetAppLauncherMaxResults || msg is ToggleAppLauncherCalc || msg is SetFancyZonesGap || msg is SetPeekPreviewLines || msg is SetPeekDirEntries || msg is ToggleMouseFindMyMouse || msg is ToggleMouseClickHighlighter || msg is ToggleMouseCrosshair || about_light_switch(msg)
}

/// The messages about the light switch's settings.
pub open spec fn about_light_switch(msg: Message) -> bool {
    msg is SetLightSwitchSchedule || msg is SetLightSwitchLatitude || msg is SetLightSwitchLongitude || msg is SetLightSwitchSunriseOffset || msg is SetLightSwitchSunsetOffset || msg is SetLightSwitchDarkTime || msg is SetLightSwitchLightTime || msg is ToggleLightSwitchSystem || msg is ToggleLightSwitchApps
}

/// The messages about demo.
pub open spec fn about_demo(msg: Message) -> bool {
    msg is OpenDemoDialog || msg is CloseDemoDialog || msg is DemoDialogConfirm
}
impl Settings {
    fn update_nav(&mut self, msg: Message, now_ms: u64, tx: &ToastTexts) -> (e: Effect)
        requires
            settings_wf(*old(self)),
            now_ms <= u64::MAX - 10000,
            about_nav(msg),
        ensures
            settings_wf(*final(self)),
            post_nav(*old(self), *final(self), msg, now_ms, *tx, e),
    {
        proof {
            reveal_strlit("ok");
            reveal(post_nav);
        }
        match msg {
            Message::NavigateTo(page) => self.navigate(page),
            Message::TriggerHotkeyTest(id) => self.trigger_test(id),
            Message::TriggerHotkeyTestResult(id, result) => {
                self.set_result(id, result);
                Effect::Nothing
            },
            Message::StartHotkeyTest => self.start_test(),
            Message::StopHotkeyTest => {
                self.stop_test();
                Effect::Nothing
            },
            Message::KeyboardEvent(name, pressed) => {
                self.key_event(name, pressed);
                Effect::Nothing
            },
            Message::ToggleDependencyHelp(id) => {
                self.toggle_help(id);
                Effect::Nothing
            },
            Message::CloseDependencyHelp => {
                self.close_help();
                Effect::Nothing
            },
            _ => Effect::Nothing,
        }
    }

    fn is_about_nav(msg: &Message) -> (b: bool)
        ensures
            b == about_nav(*msg),
    {
        matches!(msg, Message::NavigateTo { .. }) || matches!(msg, Message::TriggerHotkeyTest { .. }) || matches!(msg, Message::TriggerHotkeyTestResult { .. }) || matches!(msg, Message::StartHotkeyTest { .. }) || matches!(msg, Message::StopHotkeyTest { .. }) || matches!(msg, Message::KeyboardEvent { .. }) || matches!(msg, Message::ToggleDependencyHelp { .. }) || matches!(msg, Message::CloseDependencyHelp { .. })
    }

    fn update_modules(&mut self, msg: Message, now_ms: u64, tx: &ToastTexts) -> (e: Effect)
        requires
            settings_wf(*old(self)),
            now_ms <= u64::MAX - 10000,
            about_modules(msg),
        ensures
            settings_wf(*final(self)),
            post_modules(*old(self), *final(self), msg, now_ms, *tx, e),
    {
        proof {
            reveal_strlit("ok");
            reveal(post_modules);
        }
        match msg {
            Message::ToggleModule(id, enabled) => {
                self.set_module_running(id.as_str(), enabled);
                if self.daemon_connected {
                    Effect::ToggleModule(id, enabled)
                } else {
                    Effect::Nothing
                }
            },
            Message::ToggleModuleResult(id, desired, result) => {
                if !same_text(result.as_str(), "ok") {
                    self.set_module_running(id.as_str(), !desired);
                }
                Effect::Nothing
            },
            Message::DaemonPoll => Effect::PollDaemon,
            Message::DaemonState(state) => {
                self.daemon_report(state);
                Effect::Nothing
            },
            _ => Effect::Nothing,
        }
    }

    fn is_about_modules(msg: &Message) -> (b: bool)
        ensures
            b == about_modules(*msg),
    {
        matches!(msg, Message::ToggleModule { .. }) || matches!(msg, Message::ToggleModuleResult { .. }) || matches!(msg, Message::DaemonPoll { .. }) || matches!(msg, Message::DaemonState { .. })
    }

    fn update_toasts(&mut self, msg: Message, now_ms: u64, tx: &ToastTexts) -> (e: Effect)
        requires
            settings_wf(*old(self)),
            now_ms <= u64::MAX - 10000,
            about_toasts(msg),
        ensures
            settings_wf(*final(self)),
            post_toasts(*old(self), *final(self), msg, now_ms, *tx, e),
    {
        proof {
            reveal_strlit("ok");
            reveal(post_toasts);
        }
        match msg {
            Message::CopyInstallCommand(command) => Effect::CopyToClipboard(command),
            Message::CopyInstallCommandResult(ok) => {
                if ok {
                    self.queue_toast(ToastKind::Success, tx.success_title.as_str(), tx.command_copied.as_str(), now_ms);
                } else {
                    self.queue_toast(ToastKind::Error, tx.error_title.as_str(), tx.copy_failed.as_str(), now_ms);
                }
                Effect::Nothing
            },
            Message::DismissToast => {
                self.dismiss_toast();
                Effect::Nothing
            },
            Message::ToastTick => {
                self.toast_tick(now_ms);
                Effect::Nothing
            },
            Message::DemoToast(kind) => {
                match kind {
                    ToastKind::Success => self.queue_toast(ToastKind::Success, tx.success_title.as_str(), tx.demo_success.as_str(), now_ms),
                    ToastKind::Error => self.queue_toast(ToastKind::Error, tx.error_title.as_str(), tx.demo_error.as_str(), now_ms),
                }
                Effect::Nothing
            },
            Message::StartDaemon => Effect::SpawnDaemon,
            Message::StartDaemonResult(result) => {
                if let Err(err) = result {
                    let message = concat("mpt-daemon: ", err.as_str());
                    self.queue_toast(ToastKind::Error, tx.error_title.as_str(), message.as_str(), now_ms);
                }
                Effect::Nothing
            },
            Message::RestartApp => Effect::Restart,
            _ => Effect::Nothing,
        }
    }

    fn is_about_toasts(msg: &Message) -> (b: bool)
        ensures
            b == about_toasts(*msg),
    {
        matches!(msg, Message::CopyInstallCommand { .. }) || matches!(msg, Message::CopyInstallCommandResult { .. }) || matches!(msg, Message::DismissToast { .. }) || matches!(msg, Message::ToastTick { .. }) || matches!(msg, Message::DemoToast { .. }) || matches!(msg, Message::StartDaemon { .. }) || matches!(msg, Message::StartDaemonResult { .. }) || matches!(msg, Message::RestartApp { .. })
    }

    fn update_prefs(&mut self, msg: Message, now_ms: u64, tx: &ToastTexts) -> (e: Effect)
        requires
            settings_wf(*old(self)),
            now_ms <= u64::MAX - 10000,
            about_prefs(msg),
        ensures
            settings_wf(*final(self)),
            post_prefs(*old(self), *final(self), msg, now_ms, *tx, e),
    {
        proof {
            reveal_strlit("ok");
            reveal(post_prefs);
        }
        match msg {
            Message::SetThemeMode(m) => {
                self.set_prefs((m, self.system_is_dark, self.language, self.font_size, self.high_contrast, self.bold_text, self.compact_layout, self.reduced_motion));
                Effect::Nothing
            },
            Message::SetLanguage(l) => {
                self.set_prefs((self.theme_mode, self.system_is_dark, l, self.font_size, self.high_contrast, self.bold_text, self.compact_layout, self.reduced_motion));
                Effect::Nothing
            },
            Message::SetFontSize(f) => {
                self.set_prefs((self.theme_mode, self.system_is_dark, self.language, f, self.high_contrast, self.bold_text, self.compact_layout, self.reduced_motion));
                Effect::Nothing
            },
            Message::ToggleHighContrast(v) => {
                self.set_prefs((self.theme_mode, self.system_is_dark, self.language, self.font_size, v, self.bold_text, self.compact_layout, self.reduced_motion));
                Effect::Nothing
            },
            Message::ToggleBoldText(v) => {
                self.set_prefs((self.theme_mode, self.system_is_dark, self.language, self.font_size, self.high_contrast, v, self.compact_layout, self.reduced_motion));
                Effect::Nothing
            },
            Message::ToggleCompactLayout(v) => {
                self.set_prefs((self.theme_mode, self.system_is_dark, self.language, self.font_size, self.high_contrast, self.bold_text, v, self.reduced_motion));
                Effect::Nothing
            },
            Message::ToggleReducedMotion(v) => {
                self.set_prefs((self.theme_mode, self.system_is_dark, self.language, self.font_size, self.high_contrast, self.bold_text, self.compact_layout, v));
                Effect::Nothing
            },
            Message::SystemThemeCheck => Effect::DetectSystemDark,
            Message::SystemThemeDetected(d) => {
                self.set_prefs((self.theme_mode, d, self.language, self.font_size, self.high_contrast, self.bold_text, self.compact_layout, self.reduced_motion));
                Effect::Nothing
            },
            Message::SetVisualTheme(vt) => {
                self.set_visual_theme(vt);
                Effect::SaveUiPrefs
            },
            Message::PickCustomImage => Effect::PickImage,
            Message::CustomImagePicked(picked) => match picked {
                Some(path) => {
                    self.picked_image(path);
                    Effect::SaveUiPrefs
                },
                None => Effect::Nothing,
            },
            _ => Effect::Nothing,
        }
    }

    fn is_about_prefs(msg: &Message) -> (b: bool)
        ensures
            b == about_prefs(*msg),
    {
        matches!(msg, Message::SetThemeMode { .. }) || matches!(msg, Message::SetLanguage { .. }) || matches!(msg, Message::SetFontSize { .. }) || matches!(msg, Message::ToggleHighContrast { .. }) || matches!(msg, Message::ToggleBoldText { .. }) || matches!(msg, Message::ToggleCompactLayout { .. }) || matches!(msg, Message::ToggleReducedMotion { .. }) || matches!(msg, Message::SystemThemeCheck { .. }) || matches!(msg, Message::SystemThemeDetected { .. }) || matches!(msg, Message::SetVisualTheme { .. }) || matches!(msg, Message::PickCustomImage { .. }) || matches!(msg, Message::CustomImagePicked { .. })
    }

    fn update_updates(&mut self, msg: Message, now_ms: u64, tx: &ToastTexts) -> (e: Effect)
        requires
            settings_wf(*old(self)),
            now_ms <= u64::MAX - 10000,
            about_updates(msg),
        ensures
            settings_wf(*final(self)),
            post_updates(*old(self), *final(self), msg, now_ms, *tx, e),
    {
        proof {
            reveal_strlit("ok");
            reveal(post_updates);
        }
        match msg {
            Message::CheckForUpdates => {
                self.check_updates();
                Effect::CheckForUpdates
            },
            Message::UpdateCheckFinished(result) => {
                self.check_finished(result);
                Effect::Nothing
            },
            Message::OpenUpdateDialog => {
                self.set_update_dialog(true);
                Effect::Nothing
            },
            Message::CloseUpdateDialog => {
                self.set_update_dialog(false);
                Effect::Nothing
            },
            Message::ConfirmUpdateInstall => self.confirm_install(),
            Message::UpdateInstallFinished(result) => match result {
                UpdateInstallResult::Updated(version) => {
                    self.install_updated(version);
                    Effect::After(1500, Delayed::RestartApp)
                },
                UpdateInstallResult::AlreadyUpToDate => {
                    self.install_current(now_ms, tx);
                    Effect::Nothing
                },
                UpdateInstallResult::Error(err) => {
                    self.install_failed(err, now_ms, tx);
                    Effect::Nothing
                },
            },
            _ => Effect::Nothing,
        }
    }

    fn is_about_updates(msg: &Message) -> (b: bool)
        ensures
            b == about_updates(*msg),
    {
        matches!(msg, Message::CheckForUpdates { .. }) || matches!(msg, Message::UpdateCheckFinished { .. }) || matches!(msg, Message::OpenUpdateDialog { .. }) || matches!(msg, Message::CloseUpdateDialog { .. }) || matches!(msg, Message::ConfirmUpdateInstall { .. }) || matches!(msg, Message::UpdateInstallFinished { .. })
    }

    fn update_configs(&mut self, msg: Message, now_ms: u64, tx: &ToastTexts) -> (e: Effect)
        requires
            settings_wf(*old(self)),
            now_ms <= u64::MAX - 10000,
            about_configs(msg),
        ensures
            settings_wf(*final(self)),
            post_configs(*old(self), *final(self), msg, now_ms, *tx, e),
    {
        proof {
            reveal_strlit("ok");
            reveal(post_configs);
        }
        match msg {
            Message::SetColorPickerFormat(f) => {
                let mut c = self.take_configs();
                c.color_picker.format = f;
                self.set_configs(c);
                Effect::SaveModule(owned("color-picker"))
            },
            Message::SetColorPickerBehavior(b) => {
                let mut c = self.take_configs();
                c.color_picker.behavior = b;
                self.set_configs(c);
                Effect::SaveModule(owned("color-picker"))
            },
            Message::ToggleColorPickerShowName(v) => {
                let mut c = self.take_configs();
                c.color_picker.show_color_name = v;
                self.set_configs(c);
                Effect::SaveModule(owned("color-picker"))
            },
            Message::ToggleColorFormat(id, enabled) => {
                let mut c = self.take_configs();
                c.color_picker.toggle_format(id.as_str(), enabled);
                self.set_configs(c);
                Effect::SaveModule(owned("color-picker"))
            },
            Message::SetTextExtractorLang(l) => {
                let mut c = self.take_configs();
                c.text_extractor.language = l;
                self.set_configs(c);
                Effect::SaveModule(owned("text-extractor"))
            },
            Message::SetImageResizerPreset(p) => {
                let mut c = self.take_configs();
                c.image_resizer.preset = p;
                self.set_configs(c);
                Effect::SaveModule(owned("image-resizer"))
            },
            Message::SetImageResizerFormat(f) => {
                let mut c = self.take_configs();
                c.image_resizer.output_format = f;
                self.set_configs(c);
                Effect::SaveModule(owned("image-resizer"))
            },
            Message::SetImageResizerQuality(q) => {
                let mut c = self.take_configs();
                c.image_resizer.quality = q;
                self.set_configs(c);
                Effect::SaveModule(owned("image-resizer"))
            },
            Message::SetAppLauncherMaxResults(n) => {
                let mut c = self.take_configs();
                c.app_launcher.max_results = n;
                self.set_configs(c);
                Effect::SaveModule(owned("app-launcher"))
            },
            Message::ToggleAppLauncherCalc(v) => {
                let mut c = self.take_configs();
                c.app_launcher.show_calculator = v;
                self.set_configs(c);
                Effect::SaveModule(owned("app-launcher"))
            },
            Message::SetFancyZonesGap(g) => {
                let mut c = self.take_configs();
                c.fancy_zones.zone_gap = g;
                self.set_configs(c);
                Effect::SaveModule(owned("fancy-zones"))
            },
            Message::SetPeekPreviewLines(n) => {
                let mut c = self.take_configs();
                c.peek.max_preview_lines = n;
                self.set_configs(c);
                Effect::SaveModule(owned("peek"))
            },
            Message::SetPeekDirEntries(d) => {
                let mut c = self.take_configs();
                c.peek.max_dir_entries = d;
                self.set_configs(c);
                Effect::SaveModule(owned("peek"))
            },
            Message::ToggleMouseFindMyMouse(v) => {
                let mut c = self.take_configs();
                c.mouse_utils.find_my_mouse = v;
                self.set_configs(c);
                Effect::SaveModule(owned("mouse-utils"))
            },
            Message::ToggleMouseClickHighlighter(v) => {
                let mut c = self.take_configs();
                c.mouse_utils.click_highlighter = v;
                self.set_configs(c);
                Effect::SaveModule(owned("mouse-utils"))
            },
            Message::ToggleMouseCrosshair(v) => {
                let mut c = self.take_configs();
                c.mouse_utils.crosshair = v;
                self.set_configs(c);
                Effect::SaveModule(owned("mouse-utils"))
            },
            Message::SetLightSwitchSchedule(m) => {
                let mut c = self.take_configs();
                c.light_switch.schedule_mode = m;
                self.set_configs(c);
                Effect::SaveModule(owned("light-switch"))
            },
            Message::SetLightSwitchLatitude(l) => match l {
                Some(v) => {
                    let mut c = self.take_configs();
                    c.light_switch.latitude_micro = v;
                    self.set_configs(c);
                    Effect::SaveModule(owned("light-switch"))
                },
                None => Effect::Nothing,
            },
            Message::SetLightSwitchLongitude(l) => match l {
                Some(v) => {
                    let mut c = self.take_configs();
                    c.light_switch.longitude_micro = v;
                    self.set_configs(c);
                    Effect::SaveModule(owned("light-switch"))
                },
                None => Effect::Nothing,
            },
            Message::SetLightSwitchSunriseOffset(t) => match parse_i32(t.as_str()) {
                Some(v) => {
                    let mut c = self.take_configs();
                    c.light_switch.sunrise_offset_min = v;
                    self.set_configs(c);
                    Effect::SaveModule(owned("light-switch"))
                },
                None => Effect::Nothing,
            },
            Message::SetLightSwitchSunsetOffset(t) => match parse_i32(t.as_str()) {
                Some(v) => {
                    let mut c = self.take_configs();
                    c.light_switch.sunset_offset_min = v;
                    self.set_configs(c);
                    Effect::SaveModule(owned("light-switch"))
                },
                None => Effect::Nothing,
            },
            Message::SetLightSwitchDarkTime(t) => {
                let mut c = self.take_configs();
                c.light_switch.dark_mode_time = t;
                self.set_configs(c);
                Effect::SaveModule(owned("light-switch"))
            },
            Message::SetLightSwitchLightTime(t) => {
                let mut c = self.take_configs();
                c.light_switch.light_mode_time = t;
                self.set_configs(c);
                Effect::SaveModule(owned("light-switch"))
            },
            Message::ToggleLightSwitchSystem(v) => {
                let mut c = self.take_configs();
                c.light_switch.apply_system = v;
                self.set_configs(c);
                Effect::SaveModule(owned("light-switch"))
            },
            Message::ToggleLightSwitchApps(v) => {
                let mut c = self.take_configs();
                c.light_switch.apply_apps = v;
                self.set_configs(c);
                Effect::SaveModule(owned("light-switch"))
            },
            _ => Effect::Nothing,
        }
    }

    fn is_about_configs(msg: &Message) -> (b: bool)
        ensures
            b == about_configs(*msg),
    {
        matches!(msg, Message::SetColorPickerFormat { .. }) || matches!(msg, Message::SetColorPickerBehavior { .. }) || matches!(msg, Message::ToggleColorPickerShowName { .. }) || matches!(msg, Message::ToggleColorFormat { .. }) || matches!(msg, Message::SetTextExtractorLang { .. }) || matches!(msg, Message::SetImageResizerPreset { .. }) || matches!(msg, Message::SetImageResizerFormat { .. }) || matches!(msg, Message::SetImageResizerQuality { .. }) || matches!(msg, Message::SetAppLauncherMaxResults { .. }) || matches!(msg, Message::ToggleAppLauncherCalc { .. }) || matches!(msg, Message::SetFancyZonesGap { .. }) || matches!(msg, Message::SetPeekPreviewLines { .. }) || matches!(msg, Message::SetPeekDirEntries { .. })
            || matches!(msg, Message::ToggleMouseFindMyMouse { .. }) || matches!(msg, Message::ToggleMouseClickHighlighter { .. }) || matches!(msg, Message::ToggleMouseCrosshair { .. })
            || matches!(msg, Message::SetLightSwitchSchedule { .. }) || matches!(msg, Message::SetLightSwitchLatitude { .. }) || matches!(msg, Message::SetLightSwitchLongitude { .. })
            || matches!(msg, Message::SetLightSwitchSunriseOffset { .. }) || matches!(msg, Message::SetLightSwitchSunsetOffset { .. }) || matches!(msg, Message::SetLightSwitchDarkTime { .. })
            || matches!(msg, Message::SetLightSwitchLightTime { .. }) || matches!(msg, Message::ToggleLightSwitchSystem { .. }) || matches!(msg, Message::ToggleLightSwitchApps { .. })
    }

    fn update_demo(&mut self, msg: Message, now_ms: u64, tx: &ToastTexts) -> (e: Effect)
        requires
            settings_wf(*old(self)),
            now_ms <= u64::MAX - 10000,
            about_demo(msg),
        ensures
            settings_wf(*final(self)),
            post_demo(*old(self), *final(self), msg, now_ms, *tx, e),
    {
        proof {
            reveal_strlit("ok");
            reveal(post_demo);
        }
        match msg {
            Message::OpenDemoDialog => {
                self.set_demo(true, DemoDialogPhase::Available);
                Effect::Nothing
            },
            Message::CloseDemoDialog => {
                let phase = self.demo_dialog_phase;
                self.set_demo(false, phase);
                Effect::Nothing
            },
            Message::DemoDialogConfirm => {
                let open = self.demo_dialog_open;
                match self.demo_dialog_phase {
                    DemoDialogPhase::Available => {
                        self.set_demo(open, DemoDialogPhase::Updating);
                        Effect::After(3000, Delayed::DemoDialogConfirm)
                    },
                    DemoDialogPhase::Updating => {
                        self.set_demo(open, DemoDialogPhase::Restarting);
                        Effect::After(2000, Delayed::CloseDemoDialog)
                    },
                    DemoDialogPhase::Restarting => {
                        self.set_demo(false, DemoDialogPhase::Restarting);
                        Effect::Nothing
                    },
                }
            },
            _ => Effect::Nothing,
        }
    }

    fn is_about_demo(msg: &Message) -> (b: bool)
        ensures
            b == about_demo(*msg),
    {
        matches!(msg, Message::OpenDemoDialog { .. }) || matches!(msg, Message::CloseDemoDialog { .. }) || matches!(msg, Message::DemoDialogConfirm { .. })
    }

    /// The window's answer to a message at time `now_ms`, with the toasts'
    /// texts in the current language: the new state, and what is left to
    /// do outside.
    pub fn update(&mut self, msg: Message, now_ms: u64, tx: &ToastTexts) -> (e: Effect)
        requires
            settings_wf(*old(self)),
            now_ms <= u64::MAX - 10000,
        ensures
            settings_wf(*final(self)),
            update_post(*old(self), *final(self), msg, now_ms, *tx, e),
    {
        if Self::is_about_nav(&msg) {
            return self.update_nav(msg, now_ms, tx);
        }
        if Self::is_about_modules(&msg) {
            return self.update_modules(msg, now_ms, tx);
        }
        if Self::is_about_toasts(&msg) {
            return self.update_toasts(msg, now_ms, tx);
        }
        if Self::is_about_prefs(&msg) {
            return self.update_prefs(msg, now_ms, tx);
        }
        if Self::is_about_updates(&msg) {
            return self.update_updates(msg, now_ms, tx);
        }
        if Self::is_about_configs(&msg) {
            return self.update_configs(msg, now_ms, tx);
        }
        self.update_demo(msg, now_ms, tx)
    }
}

/// The timers the window runs.
#[derive(Debug, Clone, Copy, PartialEq, Eq, Structural)]
pub enum Tick {
    DaemonPoll,
    ToastTick,
    SystemThemeCheck,
    PollKeyboardEvents,
    UpdateProgressTick,
}

/// The timers running in a state: every `ms` milliseconds, a tick.
pub open spec fn timers_of(s: Settings) -> Seq<(u64, Tick)> {
    let a: Seq<(u64, Tick)> = seq![(3000u64, Tick::DaemonPoll)];
    let b = if s.toast is Some || s.toast_queue@.len() > 0 {
        a.push((if s.reduced_motion { 200u64 } else { 80u64 }, Tick::ToastTick))
    } else {
        a
    };
    let c = if s.theme_mode == ThemeMode::System {
        b.push((2000u64, Tick::SystemThemeCheck))
    } else {
        b
    };
    let d = if s.hotkey_test_active && s.key_listener_started {
        c.push((20u64, Tick::PollKeyboardEvents))
    } else {
        c
    };
    let busy = update_view(s.update_state).0 == 4 || update_view(s.update_state).0 == 5 || (
    s.demo_dialog_open && (s.demo_dialog_phase == DemoDialogPhase::Updating || s.demo_dialog_phase
        == DemoDialogPhase::Restarting));
    if busy {
        d.push((if s.reduced_motion { 100u64 } else { 50u64 }, Tick::UpdateProgressTick))
    } else {
        d
    }
}

impl Settings {
    /// A window on the dashboard, in French, with the given modules (none
    /// running), backdrop, recent pictures, module settings and system
    /// theme; nothing pending.
    pub fn new(
        module_ids: Vec<String>,
        visual_theme: VisualTheme,
        custom_image_history: Vec<String>,
        system_is_dark: bool,
        module_configs: ModuleConfigs,
    ) -> (s: Settings)
        requires
            views(module_ids@).no_duplicates(),
        ensures
            settings_wf(s),
            modules_view(s.modules@) == views(module_ids@).map_values(|id: Seq<char>| (id, false)),
            page_view(s.page).0 == 0,
            !s.daemon_connected,
            prefs_view(s) == (ThemeMode::System, system_is_dark, Language::Fr, FontSize::Medium, false, false, false, false),
            s.visual_theme == visual_theme,
            s.custom_image_history == custom_image_history,
            s.shortcut_test_results@.len() == 0,
            !s.hotkey_test_active,
            s.test_active_keys@.len() == 0,
            !s.key_listener_started,
            s.dependency_help_for is None,
            s.toast is None,
            s.toast_queue@.len() == 0,
            update_view(s.update_state).0 == 0,
            !s.update_dialog_open,
            s.module_configs == module_configs,
            !s.demo_dialog_open,
            s.demo_dialog_phase == DemoDialogPhase::Available,
    {
        let mut modules: Vec<ModuleStatus> = Vec::new();
        let mut i: usize = 0;
        let ghost ids = views(module_ids@);
        while i < module_ids.len()
            invariant
                i <= module_ids.len(),
                ids == views(module_ids@),
                modules_view(modules@) == ids.take(i as int).map_values(|id: Seq<char>| (id, false)),
            decreases module_ids.len() - i,
        {
            let m = ModuleStatus { id: module_ids[i].clone(), running: false };
            proof {
                assert(modules_view(modules@.push(m)) =~= modules_view(modules@).push((m.id@, false)));
                assert(ids.take(i + 1).map_values(|id: Seq<char>| (id, false)) =~= ids.take(i as int).map_values(|id: Seq<char>| (id, false)).push((ids[i as int], false)));
            }
            modules.push(m);
            i += 1;
        }
        proof {
            assert(ids.take(i as int) =~= ids);
            let mv = modules_view(modules@);
            assert forall|a: int, b: int| 0 <= a < b < mv.len() implies mv[a].0 != mv[b].0 by {
                assert(mv[a].0 == ids[a] && mv[b].0 == ids[b]);
            }
            assert(results_view(Seq::<(String, String)>::empty()) =~= Seq::<(Seq<char>, Seq<char>)>::empty());
        }
        Settings {
            modules,
            page: Page::Dashboard,
            daemon_connected: false,
            theme_mode: ThemeMode::System,
            system_is_dark,
            language: Language::Fr,
            font_size: FontSize::Medium,
            high_contrast: false,
            bold_text: false,
            compact_layout: false,
            reduced_motion: false,
            visual_theme,
            custom_image_history,
            shortcut_test_results: Vec::new(),
            hotkey_test_active: false,
            test_active_keys: Vec::new(),
            key_listener_started: false,
            dependency_help_for: None,
            toast: None,
            toast_queue: Vec::new(),
            update_state: UpdateState::Unknown,
            update_dialog_open: false,
            module_configs,
            demo_dialog_open: false,
            demo_dialog_phase: DemoDialogPhase::Available,
        }
    }

    /// Whether the window is dark: by the choice, or by the system's theme.
    pub fn is_dark(&self) -> (b: bool)
        ensures
            b == (match self.theme_mode {
                ThemeMode::Light => false,
                ThemeMode::Dark => true,
                ThemeMode::System => self.system_is_dark,
            }),
    {
        match self.theme_mode {
            ThemeMode::Light => false,
            ThemeMode::Dark => true,
            ThemeMode::System => self.system_is_dark,
        }
    }

    /// The timers to run: the daemon poll always; toasts while any shows or
    /// waits; the system theme when following it; key polling during a key
    /// test; the progress animation while updating.
    pub fn subscriptions(&self) -> (t: Vec<(u64, Tick)>)
        ensures
            t@ == timers_of(*self),
    {
        let mut t: Vec<(u64, Tick)> = vec![(3000, Tick::DaemonPoll)];
        if self.toast.is_some() || self.toast_queue.len() > 0 {
            let cadence: u64 = if self.reduced_motion {
                200
            } else {
                80
            };
            t.push((cadence, Tick::ToastTick));
        }
        if self.theme_mode == ThemeMode::System {
            t.push((2000, Tick::SystemThemeCheck));
        }
        if self.hotkey_test_active && self.key_listener_started {
            t.push((20, Tick::PollKeyboardEvents));
        }
        let updating = match &self.update_state {
            UpdateState::Updating { .. } | UpdateState::Restarting { .. } => true,
            _ => false,
        };
        let demo_busy = self.demo_dialog_open && (self.demo_dialog_phase == DemoDialogPhase::Updating
            || self.demo_dialog_phase == DemoDialogPhase::Restarting);
        if updating || demo_busy {
            let cadence: u64 = if self.reduced_motion {
                100
            } else {
                50
            };
            t.push((cadence, Tick::UpdateProgressTick));
        }
        assert(t@ =~= timers_of(*self));
        t
    }
}

/// The waiting toasts never number more than four: queueing a toast into a
/// state with at most four waiting leaves at most four, whatever shows.
pub proof fn law_toast_queue_bounded(shown: Option<ToastView>, queue: Seq<ToastView>, t: ToastView)
    requires
        queue.len() <= 4,
    ensures
        after_queueing(shown, queue, t).1.len() <= 4,
        after_show_next(shown, queue).1.len() <= 4,
{
}

/// Toasts wait only behind a shown one: from a state where none waits while
/// none shows, queueing a toast, showing the next one, or dropping the shown
/// one and showing the next keeps it so, with at most four waiting.
pub proof fn law_toasts_wait_behind_shown(shown: Option<ToastView>, queue: Seq<ToastView>, t: ToastView)
    requires
        queue.len() <= 4,
        shown is None ==> queue.len() == 0,
    ensures
        ({
            let q = after_queueing(shown, queue, t);
            &&& q.1.len() <= 4
            &&& (q.0 is None ==> q.1.len() == 0)
        }),
        ({
            let n = after_show_next(shown, queue);
            &&& n.1.len() <= 4
            &&& (n.0 is None ==> n.1.len() == 0)
        }),
        ({
            let d = after_show_next(None, queue);
            &&& d.1.len() <= 4
            &&& (d.0 is None ==> d.1.len() == 0)
        }),
{
}

/// Toasts show in the order they were queued: a queued toast goes last, and
/// the next shown is the first waiting.
pub proof fn law_toast_order(shown: ToastView, queue: Seq<ToastView>, t: ToastView)
    requires
        queue.len() < 4,
    ensures
        after_queueing(Some(shown), queue, t).1 == queue.push(t),
        after_show_next(None, queue.push(t)).0 == Some(queue.push(t)[0]),
{
}

} // verus!
