use vstd::prelude::*;
use crate::schema::TableGeneralInfo;

verus! {

/// What the home screen shows: a title and the catalog's tables, each once
/// they have been loaded.
#[derive(Debug, Clone)]
pub struct Home {
    pub title: Option<String>,
    pub tables: Option<Vec<TableGeneralInfo>>,
}

/// The home screen.
#[derive(Debug, Clone)]
pub struct HomeUI {
    pub home: Home,
}

impl HomeUI {
    pub fn new(home: Home) -> (r: HomeUI)
        ensures
            r.home == home,
    {
        HomeUI { home }
    }
}

/// The screen on display.
#[derive(Debug, Clone, Copy, PartialEq, Eq, Structural)]
pub enum CurrentComponent {
    Home,
}

/// The screens of the application and whether the console is shown.
#[derive(Debug, Clone)]
pub struct UIComponents {
    pub home_ui: HomeUI,
    pub current_component: CurrentComponent,
    pub show_console: bool,
}

/// Messages addressed to the whole application.
#[derive(Debug, Clone)]
pub enum ComponentsMessage {
    InitializeComponents(UIComponents),
    ShowOrRemoveConsole,
}

impl UIComponents {
    /// The application at start: the home screen, console hidden.
    pub fn new(home_ui: HomeUI) -> (r: UIComponents)
        ensures
            r.home_ui == home_ui,
            r.current_component == CurrentComponent::Home,
            !r.show_console,
    {
        UIComponents { home_ui, current_component: CurrentComponent::Home, show_console: false }
    }

    /// Toggles the console; other messages change nothing here.
    pub fn update(&mut self, message: ComponentsMessage)
        ensures
            final(self).show_console == if message is ShowOrRemoveConsole {
                !old(self).show_console
            } else {
                old(self).show_console
            },
            final(self).home_ui == old(self).home_ui,
            final(self).current_component == old(self).current_component,
    {
        if let ComponentsMessage::ShowOrRemoveConsole = message {
            self.show_console = !self.show_console;
        }
    }
}

} // verus!
