//! The decisions behind global shortcuts and window movement; registering
//! keys and moving windows is done by the host.
use vstd::prelude::*;
use crate::text::{chars_of, seq_eq, trim};

verus! {

broadcast use vstd::string::group_string_axioms;

/// Whether a license is active; window movement needs one.
#[derive(Debug)]
pub struct LicenseState {
    has_active_license: bool,
}

impl LicenseState {
    pub closed spec fn active(&self) -> bool {
        self.has_active_license
    }

    pub fn new() -> (r: Self)
        ensures
            !r.active(),
    {
        LicenseState { has_active_license: false }
    }

    pub fn is_active(&self) -> (r: bool)
        ensures
            r == self.active(),
    {
        self.has_active_license
    }

    pub fn set_active(&mut self, active: bool)
        ensures
            final(self).active() == active,
    {
        self.has_active_license = active;
    }
}

/// Whether the main window is hidden.
#[derive(Debug)]
pub struct WindowVisibility {
    pub is_hidden: bool,
}

/// The shortcuts currently registered, as (action id, key).
#[derive(Debug)]
pub struct RegisteredShortcuts {
    pub shortcuts: Vec<(String, String)>,
}

impl RegisteredShortcuts {
    pub fn new() -> (r: Self)
        ensures
            r.shortcuts@.len() == 0,
    {
        RegisteredShortcuts { shortcuts: Vec::new() }
    }

    /// Whether any shortcut is registered.
    pub fn has_any(&self) -> (r: bool)
        ensures
            r == (self.shortcuts@.len() > 0),
    {
        self.shortcuts.len() > 0
    }

    /// Replaces the record with what was registered just now.
    pub fn replace_all(&mut self, registered: Vec<(String, String)>)
        ensures
            final(self).shortcuts@ == registered@,
    {
        self.shortcuts = registered;
    }
}

/// One configured shortcut.
#[derive(Debug, Clone)]
pub struct ShortcutBinding {
    pub action: String,
    pub key: String,
    pub enabled: bool,
}

/// The configured shortcuts, by action id.
#[derive(Debug)]
pub struct ShortcutsConfig {
    pub bindings: Vec<(String, ShortcutBinding)>,
}

/// What a triggered shortcut does.
#[derive(Debug)]
pub enum ShortcutAction {
    ToggleDashboard,
    ToggleWindow,
    FocusInput,
    MoveWindow(Direction),
    AudioRecording,
    Screenshot,
    SystemAudio,
    /// Handed to the UI as a custom action.
    Custom(String),
}

#[derive(PartialEq, Eq, Structural, Clone, Copy, Debug)]
pub enum Direction {
    Up,
    Down,
    Left,
    Right,
}

pub open spec fn direction_name(d: Direction) -> Seq<char> {
    match d {
        Direction::Up => "up"@,
        Direction::Down => "down"@,
        Direction::Left => "left"@,
        Direction::Right => "right"@,
    }
}

/// The action for an action id; ids that name no built-in action are
/// custom.
pub open spec fn action_of(id: Seq<char>) -> ShortcutActionView {
    if id == "toggle_dashboard"@ {
        ShortcutActionView::ToggleDashboard
    } else if id == "toggle_window"@ {
        ShortcutActionView::ToggleWindow
    } else if id == "focus_input"@ {
        ShortcutActionView::FocusInput
    } else if id == "move_window_up"@ {
        ShortcutActionView::MoveWindow(Direction::Up)
    } else if id == "move_window_down"@ {
        ShortcutActionView::MoveWindow(Direction::Down)
    } else if id == "move_window_left"@ {
        ShortcutActionView::MoveWindow(Direction::Left)
    } else if id == "move_window_right"@ {
        ShortcutActionView::MoveWindow(Direction::Right)
    } else if id == "audio_recording"@ {
        ShortcutActionView::AudioRecording
    } else if id == "screenshot"@ {
        ShortcutActionView::Screenshot
    } else if id == "system_audio"@ {
        ShortcutActionView::SystemAudio
    } else {
        ShortcutActionView::Custom(id)
    }
}

pub enum ShortcutActionView {
    ToggleDashboard,
    ToggleWindow,
    FocusInput,
    MoveWindow(Direction),
    AudioRecording,
    Screenshot,
    SystemAudio,
    Custom(Seq<char>),
}

impl View for ShortcutAction {
    type V = ShortcutActionView;

    open spec fn view(&self) -> ShortcutActionView {
        match self {
            ShortcutAction::ToggleDashboard => ShortcutActionView::ToggleDashboard,
            ShortcutAction::ToggleWindow => ShortcutActionView::ToggleWindow,
            ShortcutAction::FocusInput => ShortcutActionView::FocusInput,
            ShortcutAction::MoveWindow(d) => ShortcutActionView::MoveWindow(*d),
            ShortcutAction::AudioRecording => ShortcutActionView::AudioRecording,
            ShortcutAction::Screenshot => ShortcutActionView::Screenshot,
            ShortcutAction::SystemAudio => ShortcutActionView::SystemAudio,
            ShortcutAction::Custom(s) => ShortcutActionView::Custom(s@),
        }
    }
}

fn same_text(v: &Vec<char>, lit: &str) -> (r: bool)
    ensures
        r == (v@ == lit@),
{
    let l = chars_of(lit);
    seq_eq(v, &l)
}

/// The action that a shortcut's action id stands for.
pub fn shortcut_action(action_id: &str) -> (r: ShortcutAction)
    ensures
        r@ == action_of(action_id@),
{
    let v = chars_of(action_id);
    if same_text(&v, "toggle_dashboard") {
        ShortcutAction::ToggleDashboard
    } else if same_text(&v, "toggle_window") {
        ShortcutAction::ToggleWindow
    } else if same_text(&v, "focus_input") {
        ShortcutAction::FocusInput
    } else if same_text(&v, "move_window_up") {
        ShortcutAction::MoveWindow(Direction::Up)
    } else if same_text(&v, "move_window_down") {
        ShortcutAction::MoveWindow(Direction::Down)
    } else if same_text(&v, "move_window_left") {
        ShortcutAction::MoveWindow(Direction::Left)
    } else if same_text(&v, "move_window_right") {
        ShortcutAction::MoveWindow(Direction::Right)
    } else if same_text(&v, "audio_recording") {
        ShortcutAction::AudioRecording
    } else if same_text(&v, "screenshot") {
        ShortcutAction::Screenshot
    } else if same_text(&v, "system_audio") {
        ShortcutAction::SystemAudio
    } else {
        ShortcutAction::Custom(String::from_str(action_id))
    }
}

/// The direction a name gives, if any.
pub fn parse_direction(name: &str) -> (r: Option<Direction>)
    ensures
        match r {
            Some(d) => direction_name(d) == name@,
            None => forall|d: Direction| direction_name(d) != name@,
        },
{
    let v = chars_of(name);
    if same_text(&v, "up") {
        Some(Direction::Up)
    } else if same_text(&v, "down") {
        Some(Direction::Down)
    } else if same_text(&v, "left") {
        Some(Direction::Left)
    } else if same_text(&v, "right") {
        Some(Direction::Right)
    } else {
        None
    }
}

/// The position `step` pixels away from `(x, y)` in direction `d`.
pub open spec fn moved(x: int, y: int, d: Direction, step: int) -> (int, int) {
    match d {
        Direction::Up => (x, y - step),
        Direction::Down => (x, y + step),
        Direction::Left => (x - step, y),
        Direction::Right => (x + step, y),
    }
}

/// The window position after one step; the new coordinates must fit.
pub fn moved_position(x: i32, y: i32, d: Direction, step: i32) -> (r: (i32, i32))
    requires
        i32::MIN <= moved(x as int, y as int, d, step as int).0 <= i32::MAX,
        i32::MIN <= moved(x as int, y as int, d, step as int).1 <= i32::MAX,
    ensures
        (r.0 as int, r.1 as int) == moved(x as int, y as int, d, step as int),
{
    match d {
        Direction::Up => (x, y - step),
        Direction::Down => (x, y + step),
        Direction::Left => (x - step, y),
        Direction::Right => (x + step, y),
    }
}

pub open spec fn all_directions() -> Seq<Direction> {
    seq![Direction::Up, Direction::Down, Direction::Left, Direction::Right]
}

/// The registrations that one binding asks for: none when disabled or
/// without a key; for `move_window`, with a license and a non-blank key,
/// one per arrow as "<modifiers>+<arrow>"; otherwise the binding's key.
pub open spec fn binding_plan(id: Seq<char>, b: ShortcutBinding, licensed: bool) -> Seq<(Seq<char>, Seq<char>)> {
    if !b.enabled || b.key@.len() == 0 {
        seq![]
    } else if id == "move_window"@ {
        let m = crate::text::trimmed(b.key@);
        if !licensed || m.len() == 0 {
            seq![]
        } else {
            all_directions().map_values(
                |d: Direction| ("move_window_"@ + direction_name(d), m + "+"@ + direction_name(d)),
            )
        }
    } else {
        seq![(id, b.key@)]
    }
}

/// All bindings' registrations, in order.
pub open spec fn registration_plan(bindings: Seq<(String, ShortcutBinding)>, licensed: bool) -> Seq<
    (Seq<char>, Seq<char>),
>
    decreases bindings.len(),
{
    if bindings.len() == 0 {
        seq![]
    } else {
        registration_plan(bindings.drop_last(), licensed) + binding_plan(
            bindings.last().0@,
            bindings.last().1,
            licensed,
        )
    }
}

pub open spec fn pair_views(v: Seq<(String, String)>) -> Seq<(Seq<char>, Seq<char>)> {
    v.map_values(|e: (String, String)| (e.0@, e.1@))
}

fn direction_str(d: Direction) -> (r: &'static str)
    ensures
        r@ == direction_name(d),
{
    match d {
        Direction::Up => "up",
        Direction::Down => "down",
        Direction::Left => "left",
        Direction::Right => "right",
    }
}

fn plan_binding(id: &String, b: &ShortcutBinding, licensed: bool, out: &mut Vec<(String, String)>)
    ensures
        pair_views(final(out)@) == pair_views(old(out)@) + binding_plan(id@, *b, licensed),
{
    let ghost before = pair_views(out@);
    if !b.enabled || b.key.as_str().is_empty() {
        assert(pair_views(out@) =~= before + Seq::<(Seq<char>, Seq<char>)>::empty());
        return;
    }
    let idv = chars_of(id.as_str());
    if !same_text(&idv, "move_window") {
        out.push((id.clone(), b.key.clone()));
        assert(pair_views(out@) =~= before + seq![(id@, b.key@)]);
        return;
    }
    let m = trim(b.key.as_str());
    if !licensed || m.as_str().is_empty() {
        assert(pair_views(out@) =~= before + Seq::<(Seq<char>, Seq<char>)>::empty());
        return;
    }
    let dirs = [Direction::Up, Direction::Down, Direction::Left, Direction::Right];
    let ghost plan = binding_plan(id@, *b, licensed);
    assert(plan == all_directions().map_values(
        |d: Direction| ("move_window_"@ + direction_name(d), m@ + "+"@ + direction_name(d)),
    ));
    let mut i: usize = 0;
    while i < 4
        invariant
            i <= 4,
            dirs@ == all_directions(),
            plan == all_directions().map_values(
                |d: Direction| ("move_window_"@ + direction_name(d), m@ + "+"@ + direction_name(d)),
            ),
            pair_views(out@) == before + plan.subrange(0, i as int),
        decreases 4 - i,
    {
        let d = dirs[i];
        let name = direction_str(d);
        let mut action = String::from_str("move_window_");
        action.append(name);
        let mut key = m.clone();
        key.append("+");
        key.append(name);
        let ghost prev = pair_views(out@);
        out.push((action, key));
        assert(pair_views(out@) =~= prev.push(plan[i as int]));
        i = i + 1;
        assert(pair_views(out@) =~= before + plan.subrange(0, i as int));
    }
    assert(plan.subrange(0, 4) =~= plan);
}

/// The (action id, key) pairs to register for a configuration, in order.
pub fn plan_registrations(config: &ShortcutsConfig, licensed: bool) -> (r: Vec<(String, String)>)
    ensures
        pair_views(r@) == registration_plan(config.bindings@, licensed),
{
    let mut out: Vec<(String, String)> = Vec::new();
    let mut i: usize = 0;
    while i < config.bindings.len()
        invariant
            i <= config.bindings@.len(),
            pair_views(out@) == registration_plan(config.bindings@.subrange(0, i as int), licensed),
        decreases config.bindings@.len() - i,
    {
        assert(config.bindings@.subrange(0, i + 1).drop_last() =~= config.bindings@.subrange(0, i as int));
        plan_binding(&config.bindings[i].0, &config.bindings[i].1, licensed, &mut out);
        i = i + 1;
    }
    assert(config.bindings@.subrange(0, i as int) =~= config.bindings@);
    out
}

} // verus!
