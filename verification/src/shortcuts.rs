//! The global keyboard shortcuts: the fixed catalogue of actions, their
//! display texts and default bindings, the default configuration, and the
//! format check on a binding.
//!
//! Registering bindings with the window system and persisting the chosen
//! configuration are the application shell's side.

use vstd::prelude::*;

use crate::text::{contains_chars, contains_seq, str_to_chars};

verus! {

/// Everything a global shortcut can trigger.
#[derive(Clone, Copy, PartialEq, Eq, Structural, Debug)]
pub enum ShortcutAction {
    ToggleWindow,
    NewConversation,
    OpenSettings,
    QuickCapture,
    FocusInput,
    ClearConversation,
    ExportCurrent,
    ToggleProfileMenu,
    SearchDocuments,
    ShowPerformance,
    ToggleRecording,
    QuickExport,
}

/// The name an action shows in the settings panel.
pub open spec fn display_name_spec(a: ShortcutAction) -> Seq<char> {
    match a {
        ShortcutAction::ToggleWindow => "Toggle Window"@,
        ShortcutAction::NewConversation => "New Conversation"@,
        ShortcutAction::OpenSettings => "Open Settings"@,
        ShortcutAction::QuickCapture => "Quick Capture"@,
        ShortcutAction::FocusInput => "Focus Input"@,
        ShortcutAction::ClearConversation => "Clear Conversation"@,
        ShortcutAction::ExportCurrent => "Export Current"@,
        ShortcutAction::ToggleProfileMenu => "Toggle Profile Menu"@,
        ShortcutAction::SearchDocuments => "Search Documents"@,
        ShortcutAction::ShowPerformance => "Show Performance"@,
        ShortcutAction::ToggleRecording => "Toggle Recording"@,
        ShortcutAction::QuickExport => "Quick Export"@,
    }
}

/// The sentence an action shows under its name.
pub open spec fn description_spec(a: ShortcutAction) -> Seq<char> {
    match a {
        ShortcutAction::ToggleWindow => "Show/hide the main application window"@,
        ShortcutAction::NewConversation => "Create a new conversation"@,
        ShortcutAction::OpenSettings => "Open the settings panel"@,
        ShortcutAction::QuickCapture => "Quick capture input without showing window"@,
        ShortcutAction::FocusInput => "Focus the chat input field"@,
        ShortcutAction::ClearConversation => "Clear the current conversation"@,
        ShortcutAction::ExportCurrent => "Export current conversation to file"@,
        ShortcutAction::ToggleProfileMenu => "Open/close the profile selection menu"@,
        ShortcutAction::SearchDocuments => "Open document search interface"@,
        ShortcutAction::ShowPerformance => "Display performance metrics"@,
        ShortcutAction::ToggleRecording => "Start/stop voice recording"@,
        ShortcutAction::QuickExport => "Quick export in default format"@,
    }
}

/// The binding an action ships with.
pub open spec fn default_shortcut_spec(a: ShortcutAction) -> Seq<char> {
    match a {
        ShortcutAction::ToggleWindow => "CommandOrControl+Space"@,
        ShortcutAction::NewConversation => "CommandOrControl+N"@,
        ShortcutAction::OpenSettings => "CommandOrControl+Comma"@,
        ShortcutAction::QuickCapture => "CommandOrControl+Shift+Space"@,
        ShortcutAction::FocusInput => "CommandOrControl+Shift+I"@,
        ShortcutAction::ClearConversation => "CommandOrControl+Delete"@,
        ShortcutAction::ExportCurrent => "CommandOrControl+E"@,
        ShortcutAction::ToggleProfileMenu => "CommandOrControl+P"@,
        ShortcutAction::SearchDocuments => "CommandOrControl+Shift+F"@,
        ShortcutAction::ShowPerformance => "CommandOrControl+Shift+P"@,
        ShortcutAction::ToggleRecording => "CommandOrControl+R"@,
        ShortcutAction::QuickExport => "CommandOrControl+Shift+E"@,
    }
}

/// The settings group an action belongs to.
pub open spec fn category_spec(a: ShortcutAction) -> Seq<char> {
    match a {
        ShortcutAction::ToggleWindow => "Window & Focus"@,
        ShortcutAction::FocusInput => "Window & Focus"@,
        ShortcutAction::QuickCapture => "Window & Focus"@,
        ShortcutAction::NewConversation => "Conversation"@,
        ShortcutAction::ClearConversation => "Conversation"@,
        ShortcutAction::ExportCurrent => "Export"@,
        ShortcutAction::QuickExport => "Export"@,
        ShortcutAction::ToggleProfileMenu => "Profiles"@,
        ShortcutAction::SearchDocuments => "Search"@,
        ShortcutAction::OpenSettings => "System"@,
        ShortcutAction::ShowPerformance => "System"@,
        ShortcutAction::ToggleRecording => "Recording"@,
    }
}

/// The catalogue, in display order.
pub open spec fn all_actions_spec() -> Seq<ShortcutAction> {
    seq![
        ShortcutAction::ToggleWindow,
        ShortcutAction::NewConversation,
        ShortcutAction::OpenSettings,
        ShortcutAction::QuickCapture,
        ShortcutAction::FocusInput,
        ShortcutAction::ClearConversation,
        ShortcutAction::ExportCurrent,
        ShortcutAction::ToggleProfileMenu,
        ShortcutAction::SearchDocuments,
        ShortcutAction::ShowPerformance,
        ShortcutAction::ToggleRecording,
        ShortcutAction::QuickExport,
    ]
}

impl ShortcutAction {
    /// The name shown in the settings panel.
    pub fn display_name(&self) -> (r: &'static str)
        ensures
            r@ == display_name_spec(*self),
    {
        match self {
            ShortcutAction::ToggleWindow => "Toggle Window",
            ShortcutAction::NewConversation => "New Conversation",
            ShortcutAction::OpenSettings => "Open Settings",
            ShortcutAction::QuickCapture => "Quick Capture",
            ShortcutAction::FocusInput => "Focus Input",
            ShortcutAction::ClearConversation => "Clear Conversation",
            ShortcutAction::ExportCurrent => "Export Current",
            ShortcutAction::ToggleProfileMenu => "Toggle Profile Menu",
            ShortcutAction::SearchDocuments => "Search Documents",
            ShortcutAction::ShowPerformance => "Show Performance",
            ShortcutAction::ToggleRecording => "Toggle Recording",
            ShortcutAction::QuickExport => "Quick Export",
        }
    }

    /// The sentence shown under the name.
    pub fn description(&self) -> (r: &'static str)
        ensures
            r@ == description_spec(*self),
    {
        match self {
            ShortcutAction::ToggleWindow => "Show/hide the main application window",
            ShortcutAction::NewConversation => "Create a new conversation",
            ShortcutAction::OpenSettings => "Open the settings panel",
            ShortcutAction::QuickCapture => "Quick capture input without showing window",
            ShortcutAction::FocusInput => "Focus the chat input field",
            ShortcutAction::ClearConversation => "Clear the current conversation",
            ShortcutAction::ExportCurrent => "Export current conversation to file",
            ShortcutAction::ToggleProfileMenu => "Open/close the profile selection menu",
            ShortcutAction::SearchDocuments => "Open document search interface",
            ShortcutAction::ShowPerformance => "Display performance metrics",
            ShortcutAction::ToggleRecording => "Start/stop voice recording",
            ShortcutAction::QuickExport => "Quick export in default format",
        }
    }

    /// The binding the action ships with.
    pub fn default_shortcut(&self) -> (r: &'static str)
        ensures
            r@ == default_shortcut_spec(*self),
    {
        match self {
            ShortcutAction::ToggleWindow => "CommandOrControl+Space",
            ShortcutAction::NewConversation => "CommandOrControl+N",
            ShortcutAction::OpenSettings => "CommandOrControl+Comma",
            ShortcutAction::QuickCapture => "CommandOrControl+Shift+Space",
            ShortcutAction::FocusInput => "CommandOrControl+Shift+I",
            ShortcutAction::ClearConversation => "CommandOrControl+Delete",
            ShortcutAction::ExportCurrent => "CommandOrControl+E",
            ShortcutAction::ToggleProfileMenu => "CommandOrControl+P",
            ShortcutAction::SearchDocuments => "CommandOrControl+Shift+F",
            ShortcutAction::ShowPerformance => "CommandOrControl+Shift+P",
            ShortcutAction::ToggleRecording => "CommandOrControl+R",
            ShortcutAction::QuickExport => "CommandOrControl+Shift+E",
        }
    }

    /// The settings group the action belongs to.
    pub fn category(&self) -> (r: &'static str)
        ensures
            r@ == category_spec(*self),
    {
        match self {
            ShortcutAction::ToggleWindow
            | ShortcutAction::FocusInput
            | ShortcutAction::QuickCapture => "Window & Focus",
            ShortcutAction::NewConversation | ShortcutAction::ClearConversation => "Conversation",
            ShortcutAction::ExportCurrent | ShortcutAction::QuickExport => "Export",
            ShortcutAction::ToggleProfileMenu => "Profiles",
            ShortcutAction::SearchDocuments => "Search",
            ShortcutAction::OpenSettings | ShortcutAction::ShowPerformance => "System",
            ShortcutAction::ToggleRecording => "Recording",
        }
    }

    /// The whole catalogue, in display order.
    pub fn all_actions() -> (r: Vec<ShortcutAction>)
        ensures
            r@ == all_actions_spec(),
    {
        let mut r: Vec<ShortcutAction> = Vec::new();
        r.push(ShortcutAction::ToggleWindow);
        r.push(ShortcutAction::NewConversation);
        r.push(ShortcutAction::OpenSettings);
        r.push(ShortcutAction::QuickCapture);
        r.push(ShortcutAction::FocusInput);
        r.push(ShortcutAction::ClearConversation);
        r.push(ShortcutAction::ExportCurrent);
        r.push(ShortcutAction::ToggleProfileMenu);
        r.push(ShortcutAction::SearchDocuments);
        r.push(ShortcutAction::ShowPerformance);
        r.push(ShortcutAction::ToggleRecording);
        r.push(ShortcutAction::QuickExport);
        assert(r@ =~= all_actions_spec());
        r
    }
}

/// One configured binding.
pub struct GlobalShortcut {
    pub action: ShortcutAction,
    pub shortcut: String,
    pub enabled: bool,
}

/// Spec-level binding.
pub ghost struct GlobalShortcutV {
    pub action: ShortcutAction,
    pub shortcut: Seq<char>,
    pub enabled: bool,
}

impl View for GlobalShortcut {
    type V = GlobalShortcutV;

    open spec fn view(&self) -> GlobalShortcutV {
        GlobalShortcutV { action: self.action, shortcut: self.shortcut@, enabled: self.enabled }
    }
}

/// The whole shortcut configuration.
pub struct ShortcutConfig {
    pub shortcuts: Vec<GlobalShortcut>,
}

impl View for ShortcutConfig {
    type V = Seq<GlobalShortcutV>;

    open spec fn view(&self) -> Seq<GlobalShortcutV> {
        self.shortcuts@.map_values(|g: GlobalShortcut| g@)
    }
}

/// The configuration the application ships with: every action under its
/// default binding, only the window toggle enabled.
pub open spec fn default_config_spec() -> Seq<GlobalShortcutV> {
    all_actions_spec().map_values(
        |a: ShortcutAction|
            GlobalShortcutV {
                action: a,
                shortcut: default_shortcut_spec(a),
                enabled: a == ShortcutAction::ToggleWindow,
            },
    )
}

impl Default for ShortcutConfig {
    /// Builds the shipped configuration.
    fn default() -> (r: ShortcutConfig)
        ensures
            r@ == default_config_spec(),
    {
        let actions = ShortcutAction::all_actions();
        let mut shortcuts: Vec<GlobalShortcut> = Vec::new();
        let n = actions.len();
        let mut i: usize = 0;
        while i < n
            invariant
                n == all_actions_spec().len(),
                actions@ == all_actions_spec(),
                i <= n,
                shortcuts@.map_values(|g: GlobalShortcut| g@) =~= default_config_spec().subrange(
                    0,
                    i as int,
                ),
            decreases n - i,
        {
            let a = actions[i];
            let enabled = match a {
                ShortcutAction::ToggleWindow => true,
                _ => false,
            };
            assert(enabled == (a == ShortcutAction::ToggleWindow));
            proof {
                assert(default_config_spec().len() == all_actions_spec().len());
                assert(default_config_spec().subrange(0, i as int).len() == i as int);
                assert(shortcuts@.map_values(|g: GlobalShortcut| g@).len() == i as int);
                assert(shortcuts@.len() == i as int);
            }
            shortcuts.push(
                GlobalShortcut { action: a, shortcut: String::from_str(a.default_shortcut()), enabled },
            );
            proof {
                let sv = shortcuts@.map_values(|g: GlobalShortcut| g@);
                assert(shortcuts@.len() == i + 1);
                assert(sv.len() == i + 1);
                assert(default_config_spec().len() == all_actions_spec().len());
                assert forall|k: int| 0 <= k < i + 1 implies sv[k] == default_config_spec()[k] by {
                    assert(sv[k] == shortcuts@[k]@);
                    assert(default_config_spec()[k] == (GlobalShortcutV {
                        action: all_actions_spec()[k],
                        shortcut: default_shortcut_spec(all_actions_spec()[k]),
                        enabled: (all_actions_spec()[k] == ShortcutAction::ToggleWindow),
                    }));
                    if k < i {
                        assert(sv[k] == default_config_spec().subrange(0, i as int)[k]);
                    }
                }
                assert(sv =~= default_config_spec().subrange(0, i + 1));
            }
            i = i + 1;
        }
        proof {
            assert(default_config_spec().subrange(0, n as int) =~= default_config_spec());
        }
        ShortcutConfig { shortcuts }
    }
}

/// A binding passes the format check when it is nonempty after trimming
/// and carries both a modifier name and a `+`.
pub open spec fn shortcut_format_ok(s: Seq<char>) -> bool {
    &&& (contains_seq(s, "Command"@) || contains_seq(s, "Control"@) || contains_seq(s, "Ctrl"@)
        || contains_seq(s, "Alt"@) || contains_seq(s, "Shift"@))
    &&& contains_seq(s, "+"@)
}

/// Checks a binding's format: empty bindings and bindings without a
/// modifier and a main key are refused with the original's errors.
pub fn validate_shortcut(shortcut: &String) -> (r: Result<bool, String>)
    ensures
        match r {
            Ok(b) => b == true && crate::server::trim_blanks(shortcut@).len() > 0
                && shortcut_format_ok(shortcut@),
            Err(e) => (crate::server::trim_blanks(shortcut@).len() == 0 && e@
                == "Shortcut cannot be empty"@) || (crate::server::trim_blanks(
                shortcut@,
            ).len() > 0 && !shortcut_format_ok(shortcut@) && e@
                == "Shortcut must include a modifier key (CommandOrControl, Alt, Shift) and a main key"@),
        },
{
    let mut cs = str_to_chars(shortcut.as_str());
    crate::wire::trim_end_chars(&mut cs);
    let mut has_lead: bool = false;
    let n = cs.len();
    let mut i: usize = 0;
    while i < n
        invariant
            n == cs@.len(),
            i <= n,
            has_lead ==> exists|k: int| 0 <= k < n && !crate::server::is_blank(#[trigger] cs@[k]),
            !has_lead ==> forall|k: int| 0 <= k < i ==> crate::server::is_blank(#[trigger] cs@[k]),
        ensures
            has_lead == exists|k: int| 0 <= k < n && !crate::server::is_blank(#[trigger] cs@[k]),
        decreases n - i,
    {
        let c = cs[i];
        if !(c == ' ' || c == '\t' || c == '\n' || c == '\r') {
            proof {
                assert(!crate::server::is_blank(cs@[i as int]));
            }
            has_lead = true;
            break ;
        }
        i = i + 1;
    }
    let empty_after_trim = !has_lead;
    proof {
        lemma_trim_front_all_blank(cs@);
        if empty_after_trim {
            assert(crate::server::trim_blanks_front(cs@).len() == 0);
        } else {
            assert(crate::server::trim_blanks_front(cs@).len() > 0);
        }
    }
    if empty_after_trim {
        return Err(String::from_str("Shortcut cannot be empty"));
    }
    let all = str_to_chars(shortcut.as_str());
    let has_modifier = contains_chars(&all, &str_to_chars("Command")) || contains_chars(
        &all,
        &str_to_chars("Control"),
    ) || contains_chars(&all, &str_to_chars("Ctrl")) || contains_chars(
        &all,
        &str_to_chars("Alt"),
    ) || contains_chars(&all, &str_to_chars("Shift"));
    let has_plus = contains_chars(&all, &str_to_chars("+"));
    if !has_modifier || !has_plus {
        return Err(
            String::from_str(
                "Shortcut must include a modifier key (CommandOrControl, Alt, Shift) and a main key",
            ),
        );
    }
    Ok(true)
}

/// A value whose characters are all blank trims from the front to
/// nothing; one with any other character does not.
proof fn lemma_trim_front_all_blank(s: Seq<char>)
    ensures
        (forall|k: int| 0 <= k < s.len() ==> crate::server::is_blank(#[trigger] s[k]))
            <==> crate::server::trim_blanks_front(s).len() == 0,
    decreases s.len(),
{
    if s.len() == 0 {
    } else if crate::server::is_blank(s[0]) {
        lemma_trim_front_all_blank(s.skip(1));
        if crate::server::trim_blanks_front(s.skip(1)).len() == 0 {
            assert forall|k: int| 0 <= k < s.len() implies crate::server::is_blank(
                #[trigger] s[k],
            ) by {
                if k > 0 {
                    assert(s.skip(1)[k - 1] == s[k]);
                    assert(crate::server::is_blank(s.skip(1)[k - 1]));
                }
            }
        } else {
            let k0 = choose|k: int|
                0 <= k < s.skip(1).len() && !crate::server::is_blank(#[trigger] s.skip(1)[k]);
            assert(s.skip(1)[k0] == s[k0 + 1]);
            assert(!crate::server::is_blank(s[k0 + 1]));
        }
    } else {
        assert(crate::server::trim_blanks_front(s) == s);
    }
}

} // verus!
