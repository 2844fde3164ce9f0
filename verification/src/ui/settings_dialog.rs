//! The options dialog: which tab is shown, whether it is open, and what
//! its buttons do.

use vstd::prelude::*;

verus! {

/// The tabs of the options dialog.
#[derive(Debug, Clone, Copy, PartialEq, Eq, Structural)]
pub enum Tab {
    General,
    Display,
    Skin,
    Network,
    About,
}

/// What the user did in the dialog during one frame.
#[derive(Debug, Clone, Copy, PartialEq, Eq, Structural)]
pub enum DialogEvent {
    /// The dialog's window was asked to close.
    CloseRequested,
    /// A tab header was clicked.
    SelectTab(Tab),
    /// The "save" button was clicked.
    SaveClicked,
    /// The "close" button was clicked.
    CloseClicked,
}

/// What the application has to do after an event.
#[derive(Debug, Clone, Copy, PartialEq, Eq, Structural)]
pub enum DialogAction {
    Nothing,
    /// Write the configuration to disk.
    SaveConfig,
}

/// The state of the options dialog.
pub struct SettingsDialog {
    pub open: bool,
    tab: Tab,
}

impl Default for SettingsDialog {
    /// Closed, on the general tab.
    fn default() -> (res: Self)
        ensures
            !res.is_open(),
            res.selected_tab() == Tab::General,
    {
        SettingsDialog { open: false, tab: Tab::General }
    }
}

/// Whether the dialog shows its save and close buttons on tab `t`: on every
/// tab but "about".
pub open spec fn tab_has_buttons(t: Tab) -> bool {
    t != Tab::About
}

/// The dialog after `event`, from the state (`open`, `tab`), and the action
/// that it asks for. A closed dialog takes no events; the buttons act only
/// where they are shown, and both close the dialog.
pub open spec fn dialog_step(open: bool, tab: Tab, event: DialogEvent) -> (bool, Tab, DialogAction) {
    if !open {
        (open, tab, DialogAction::Nothing)
    } else {
        match event {
            DialogEvent::CloseRequested => (false, tab, DialogAction::Nothing),
            DialogEvent::SelectTab(t) => (true, t, DialogAction::Nothing),
            DialogEvent::SaveClicked => if tab_has_buttons(tab) {
                (false, tab, DialogAction::SaveConfig)
            } else {
                (true, tab, DialogAction::Nothing)
            },
            DialogEvent::CloseClicked => if tab_has_buttons(tab) {
                (false, tab, DialogAction::Nothing)
            } else {
                (true, tab, DialogAction::Nothing)
            },
        }
    }
}

impl SettingsDialog {
    /// Whether the dialog is open.
    pub closed spec fn is_open(&self) -> bool {
        self.open
    }

    /// The tab on show.
    pub closed spec fn selected_tab(&self) -> Tab {
        self.tab
    }

    /// The tab on show.
    pub fn tab(&self) -> (res: Tab)
        ensures
            res == self.selected_tab(),
    {
        self.tab
    }

    /// Opens or closes the dialog, on the tab it was left on.
    pub fn set_open(&mut self, open: bool)
        ensures
            final(self).is_open() == open,
            final(self).selected_tab() == old(self).selected_tab(),
    {
        self.open = open;
    }

    /// Whether the save and close buttons are shown.
    pub fn has_buttons(&self) -> (res: bool)
        ensures
            res == tab_has_buttons(self.selected_tab()),
            res == (self.selected_tab() != Tab::About),
    {
        self.tab != Tab::About
    }

    /// Applies what the user did and says what the application must do.
    pub fn handle(&mut self, event: DialogEvent) -> (res: DialogAction)
        ensures
            (final(self).is_open(), final(self).selected_tab(), res)
                == dialog_step(old(self).is_open(), old(self).selected_tab(), event),
            !old(self).is_open() ==> !final(self).is_open() && final(self).selected_tab() == old(self).selected_tab()
                && res == DialogAction::Nothing,
            old(self).is_open() && event == DialogEvent::CloseRequested ==> !final(self).is_open()
                && final(self).selected_tab() == old(self).selected_tab() && res == DialogAction::Nothing,
            old(self).is_open() && old(self).selected_tab() != Tab::About && event == DialogEvent::CloseClicked
                ==> !final(self).is_open() && res == DialogAction::Nothing,
            old(self).is_open() && old(self).selected_tab() != Tab::About && event == DialogEvent::SaveClicked
                ==> !final(self).is_open() && res == DialogAction::SaveConfig,
            old(self).selected_tab() == Tab::About && (event == DialogEvent::SaveClicked || event == DialogEvent::CloseClicked)
                ==> final(self).is_open() == old(self).is_open() && res == DialogAction::Nothing,
            forall|t: Tab| old(self).is_open() && event == DialogEvent::SelectTab(t)
                ==> #[trigger] final(self).selected_tab() == t && final(self).is_open() && res == DialogAction::Nothing,
            res == DialogAction::SaveConfig <==> (old(self).is_open() && old(self).selected_tab() != Tab::About
                && event == DialogEvent::SaveClicked),
    {
        if !self.open {
            return DialogAction::Nothing;
        }
        match event {
            DialogEvent::CloseRequested => {
                self.open = false;
                DialogAction::Nothing
            },
            DialogEvent::SelectTab(t) => {
                self.tab = t;
                DialogAction::Nothing
            },
            DialogEvent::SaveClicked => {
                if self.tab != Tab::About {
                    self.open = false;
                    DialogAction::SaveConfig
                } else {
                    DialogAction::Nothing
                }
            },
            DialogEvent::CloseClicked => {
                if self.tab != Tab::About {
                    self.open = false;
                }
                DialogAction::Nothing
            },
        }
    }
}

/// How the dialog answers its events: a closed dialog ignores them; the
/// window's close request closes it; choosing a tab shows that tab; on
/// every tab but "about" the close button closes it and the save button
/// saves and closes it, while on "about" neither button does anything; and
/// only the save button asks for a save.
pub proof fn lemma_dialog_answers(open: bool, tab: Tab, event: DialogEvent)
    ensures
        ({
            let (open2, tab2, action) = dialog_step(open, tab, event);
            &&& !open ==> !open2 && tab2 == tab && action == DialogAction::Nothing
            &&& open && event == DialogEvent::CloseRequested ==> !open2 && tab2 == tab && action == DialogAction::Nothing
            &&& open && tab != Tab::About && event == DialogEvent::CloseClicked
                ==> !open2 && tab2 == tab && action == DialogAction::Nothing
            &&& open && tab != Tab::About && event == DialogEvent::SaveClicked
                ==> !open2 && tab2 == tab && action == DialogAction::SaveConfig
            &&& tab == Tab::About && (event == DialogEvent::SaveClicked || event == DialogEvent::CloseClicked)
                ==> open2 == open && tab2 == tab && action == DialogAction::Nothing
            &&& (action == DialogAction::SaveConfig) == (open && tab != Tab::About && event == DialogEvent::SaveClicked)
        }),
        forall|t: Tab| open && event == DialogEvent::SelectTab(t) ==> #[trigger] dialog_step(open, tab, event) == (true, t, DialogAction::Nothing),
{
}

} // verus!
