//! The client as its user meets it: what each action changes, and what is asked of the server.
pub mod browse;
pub mod composer;
pub mod creation;
pub mod entries;
pub mod forms;
pub mod laws;
pub mod review;
pub mod terminals;

use super::config::Connection;
use super::diff::{CommentTarget, LineSelection};
use super::poll;
use super::poll::{
    open_session, open_workflow, refresh_interaction, refresh_new_session, refresh_settings,
    refresh_workflow_setup, Fetch,
};
use super::state;
use super::state::{
    Attachment, Core, ListEntry, OpenTarget, OpenView, Paging, SessionView, SettingsTab, SidePanel,
    ViewKey,
};
use super::terminal_view::grid;
use super::terminal_view::TerminalScreen;
use crate::common::api::{ApiFormat, OrchestratorConfig};
use crate::strings;
use crate::strings::{is_blank, trim};
use crate::table::Table;
use browse::wants_more_unassigned;
use terminals::TerminalStreamKey;
use vstd::prelude::*;

verus! {

/// The client: its state, and what is folded, chosen and half entered.
pub struct AmuxApp {
    pub core: Core,
    /// The connection was changed and not saved.
    pub settings_dirty: bool,
    /// The interface that was chosen for the built-in agent.
    pub orchestrator_format: Option<ApiFormat>,
    /// What the form of the built-in agent was filled with.
    pub orchestrator_prefilled: Option<OrchestratorConfig>,
    /// The entry whose title is being changed.
    pub renaming_id: Option<String>,
    pub terminal: TerminalScreen,
    /// The terminal whose output is followed.
    pub terminal_stream: Option<TerminalStreamKey>,
    pub attachments: Vec<Attachment>,
    /// The command that is marked.
    pub slash_selected: usize,
    /// The commands were put away.
    pub slash_dismissed: bool,
    pub diff_collapsed_files: Table<()>,
    pub diff_collapsed_dirs: Table<()>,
    pub diff_tree_visible: bool,
    pub diff_comment_target: Option<CommentTarget>,
    pub diff_line_selection: Option<LineSelection>,
    /// The conversation is to be shown from its end.
    pub dialog_scroll_on_entry: bool,
    /// The activities are to be shown from their end.
    pub activities_scroll_on_entry: bool,
    pub expanded_activities: Table<()>,
    /// The directories that were used lately are offered.
    pub workspace_recent_open: bool,
    /// The file that is looked at.
    pub workspace_file: Option<String>,
    pub workspace_tree_visible: bool,
    pub workspace_content_visible: bool,
}

/// Nothing is in a table.
pub open spec fn nothing_in(table: Table<()>) -> bool {
    table@ == Map::<Seq<char>, ()>::empty()
}

/// What the view that is shown needs, where there is a server to ask.
pub open spec fn needs(core: Core) -> Seq<Fetch> {
    if core.client is None {
        Seq::empty()
    } else if core.settings_open {
        poll::settings_needs(core.settings_tab)
    } else if core.open is Some {
        seq![
            Fetch::Machines,
            Fetch::Orchestrator,
            Fetch::QuickCommands,
            Fetch::SessionControls,
            Fetch::Terminals,
        ]
    } else if core.new_session.workflow_mode {
        seq![
            Fetch::Machines,
            Fetch::RecentWorkspaces,
            Fetch::Projects,
            Fetch::Orchestrator,
            Fetch::Plans,
        ]
    } else {
        seq![Fetch::Machines, Fetch::RecentWorkspaces, Fetch::Projects]
    }
}

/// Fetches what the view that is shown needs, and notes that it was fetched.
pub fn load_view_data(core: &mut Core) -> (r: Vec<Fetch>)
    ensures
        r@ == needs(*old(core)),
        *final(core) == (Core { loaded_view: Some(old(core).shown()), ..*old(core) }),
{
    core.loaded_view = Some(core.view_key());
    if core.client.is_none() {
        let none: Vec<Fetch> = Vec::new();
        proof {
            assert(none@ =~= needs(*old(core)));
        }
        return none;
    }
    if core.settings_open {
        return refresh_settings(core.settings_tab);
    }
    if core.open.is_some() {
        return refresh_interaction();
    }
    let mut all: Vec<Fetch> = refresh_new_session();
    if core.new_session.workflow_mode {
        let mut more: Vec<Fetch> = refresh_workflow_setup();
        all.append(&mut more);
    }
    proof {
        assert(all@ =~= needs(*old(core)));
    }
    all
}

/// What a view needs is fetched once, when it comes to be shown.
pub fn sync_view_data(core: &mut Core) -> (r: Vec<Fetch>)
    ensures
        ({
            let loaded = old(core).loaded_view matches Some(key) && key.same_as(
                old(core).shown(),
            );
            if loaded {
                r@.len() == 0 && *final(core) == *old(core)
            } else {
                r@ == needs(*old(core)) && *final(core) == (Core {
                    loaded_view: Some(old(core).shown()),
                    ..*old(core)
                })
            }
        }),
{
    let key: ViewKey = core.view_key();
    let loaded: bool = match &core.loaded_view {
        Some(before) => before.is(&key),
        None => false,
    };
    if loaded {
        return Vec::new();
    }
    load_view_data(core)
}

/// What a view needs is not fetched again as long as it is shown.
pub proof fn law_views_are_fetched_once(before: Core, after: Core)
    requires
        after == (Core { loaded_view: Some(before.shown()), ..before }),
    ensures
        after.loaded_view matches Some(key) && key.same_as(after.shown()),
{
}

/// The view is within a page of the older end of what is loaded.
pub open spec fn near_older_end(
    loaded: usize,
    older_at_top: bool,
    top: usize,
    bottom: usize,
    page_size: usize,
) -> bool {
    loaded > 0 && if older_at_top {
        top <= page_size
    } else {
        bottom + page_size >= loaded
    }
}

/// By how many entries the view is to move, because as many were put before the others.
pub open spec fn moved_by(paging: Paging) -> Option<usize> {
    if paging.loading_older {
        None
    } else {
        paging.shift
    }
}

/// How a list is paged once its view was followed.
pub open spec fn followed(paging: Paging, page_size: usize) -> Paging {
    Paging {
        page_size,
        shift: if paging.loading_older {
            paging.shift
        } else {
            None
        },
        ..paging
    }
}

/// Follows the view of a list: how many entries a page has, by how many entries the view is to move
/// because as many were put before the others, and whether older entries are to be fetched.
pub fn sync_list_paging(
    paging: &mut Paging,
    loaded: usize,
    older_at_top: bool,
    top: usize,
    bottom: usize,
    page_size: usize,
) -> (r: (Option<usize>, bool))
    ensures
        r.0 == moved_by(*old(paging)),
        r.1 == (old(paging).has_older && !old(paging).loading_older && near_older_end(
            loaded,
            older_at_top,
            top,
            bottom,
            page_size,
        )),
        *final(paging) == followed(*old(paging), page_size),
{
    paging.page_size = page_size;
    let mut shift: Option<usize> = None;
    if !paging.loading_older {
        shift = paging.shift;
        paging.shift = None;
    }
    let near: bool = loaded > 0 && if older_at_top {
        top <= page_size
    } else {
        loaded <= page_size || bottom >= loaded - page_size
    };
    (shift, paging.has_older && !paging.loading_older && near)
}

/// What of a list is in view.
#[derive(Debug, Clone, Copy, PartialEq, Eq, Structural)]
pub struct ListInView {
    pub top: usize,
    pub bottom: usize,
    /// How many entries fill the view.
    pub page_size: usize,
}

/// What following the views of the lists asks for.
#[derive(Debug, Clone, Copy, PartialEq, Eq, Structural)]
pub struct PagingWanted {
    /// More of the sessions that belong to no project.
    pub unassigned: bool,
    /// Older messages of the conversation.
    pub history: bool,
    /// By how many messages the view of the conversation is to move.
    pub history_shift: Option<usize>,
    /// Older activities.
    pub activities: bool,
    /// By how many activities their view is to move.
    pub activities_shift: Option<usize>,
}

impl AmuxApp {
    /// Nothing is folded, chosen or half entered.
    pub open spec fn is_new(self) -> bool {
        &&& self.core.is_new()
        &&& !self.settings_dirty
        &&& self.orchestrator_format is None
        &&& self.orchestrator_prefilled is None
        &&& self.renaming_id is None
        &&& self.terminal.inv()
        &&& self.terminal_stream is None
        &&& self.attachments@.len() == 0
        &&& self.slash_selected == 0
        &&& !self.slash_dismissed
        &&& nothing_in(self.diff_collapsed_files)
        &&& nothing_in(self.diff_collapsed_dirs)
        &&& self.diff_tree_visible
        &&& self.diff_comment_target is None
        &&& self.diff_line_selection is None
        &&& self.dialog_scroll_on_entry
        &&& !self.activities_scroll_on_entry
        &&& nothing_in(self.expanded_activities)
        &&& !self.workspace_recent_open
        &&& self.workspace_file is None
        &&& self.workspace_tree_visible
        &&& self.workspace_content_visible
    }

    /// The view of the conversation is followed: it has been shown from its end.
    pub open spec fn follows_dialog(self) -> bool {
        self.core.client is Some && self.core.open is Some && !self.dialog_scroll_on_entry
    }

    /// The view of the activities is followed: they are shown, and have been from their end.
    pub open spec fn follows_activities(self) -> bool {
        &&& self.core.client is Some
        &&& self.core.open is Some
        &&& self.core.side_panel == Some(SidePanel::Activities)
        &&& !self.activities_scroll_on_entry
    }

    /// Follows the views of the lists: what is near an end that has more is fetched, and what was
    /// put before the others moves the view.
    pub fn sync_paging(
        &mut self,
        list_at_end: bool,
        dialog: ListInView,
        activities: ListInView,
    ) -> (r: PagingWanted)
        ensures
            ({
                let was = old(self).core.view.detail;
                let dialog_on = old(self).follows_dialog();
                let activities_on = old(self).follows_activities();
                &&& r.unassigned == (old(self).core.client is Some && browse::more_unassigned(
                    old(self).core,
                    list_at_end,
                ))
                &&& r.history == (dialog_on && was.history_paging.has_older
                    && !was.history_paging.loading_older && near_older_end(
                    was.history.len(),
                    true,
                    dialog.top,
                    dialog.bottom,
                    dialog.page_size,
                ))
                &&& r.history_shift == if dialog_on {
                    moved_by(was.history_paging)
                } else {
                    None
                }
                &&& r.activities == (activities_on && was.activities_paging.has_older
                    && !was.activities_paging.loading_older && near_older_end(
                    was.activities.len(),
                    true,
                    activities.top,
                    activities.bottom,
                    activities.page_size,
                ))
                &&& r.activities_shift == if activities_on {
                    moved_by(was.activities_paging)
                } else {
                    None
                }
                &&& *final(self) == (AmuxApp {
                    core: Core {
                        view: OpenView {
                            detail: SessionView {
                                history_paging: if dialog_on {
                                    followed(was.history_paging, dialog.page_size)
                                } else {
                                    was.history_paging
                                },
                                activities_paging: if activities_on {
                                    followed(was.activities_paging, activities.page_size)
                                } else {
                                    was.activities_paging
                                },
                                ..was
                            },
                            ..old(self).core.view
                        },
                        ..old(self).core
                    },
                    ..*old(self)
                })
            }),
    {
        let mut r: PagingWanted = PagingWanted {
            unassigned: false,
            history: false,
            history_shift: None,
            activities: false,
            activities_shift: None,
        };
        if self.core.client.is_none() {
            return r;
        }
        r.unassigned = wants_more_unassigned(&self.core, list_at_end);
        if self.core.open.is_none() {
            return r;
        }
        if !self.dialog_scroll_on_entry {
            let loaded: usize = self.core.view.detail.history.len();
            let (shift, wanted) = sync_list_paging(
                &mut self.core.view.detail.history_paging,
                loaded,
                true,
                dialog.top,
                dialog.bottom,
                dialog.page_size,
            );
            r.history_shift = shift;
            r.history = wanted;
        }
        let shown: bool = match self.core.side_panel {
            Some(panel) => panel == SidePanel::Activities,
            None => false,
        };
        if shown && !self.activities_scroll_on_entry {
            let loaded: usize = self.core.view.detail.activities.len();
            let (shift, wanted) = sync_list_paging(
                &mut self.core.view.detail.activities_paging,
                loaded,
                true,
                activities.top,
                activities.bottom,
                activities.page_size,
            );
            r.activities_shift = shift;
            r.activities = wanted;
        }
        r
    }

    /// The client for a connection. Its terminal has drawn no buffer yet.
    pub fn new(connection: Connection) -> (r: Self)
        ensures
            r.is_new(),
            r.core.connects(connection),
            r.core.view.detail.terminal_output.version() == 0,
            r.terminal.version() == 1,
            r.core.generations == 2,
            r.terminal.size() == (100u16, 30u16),
            r.terminal.composing() is None,
            r.terminal.story() == (grid::Story { cols: 100, rows: 30, steps: Seq::empty() }),
    {
        let mut core: Core = Core::new(connection);
        let terminal: TerminalScreen = TerminalScreen::new(&mut core.generations);
        AmuxApp {
            core,
            settings_dirty: false,
            orchestrator_format: None,
            orchestrator_prefilled: None,
            renaming_id: None,
            terminal,
            terminal_stream: None,
            attachments: Vec::new(),
            slash_selected: 0,
            slash_dismissed: false,
            diff_collapsed_files: Table::new(),
            diff_collapsed_dirs: Table::new(),
            diff_tree_visible: true,
            diff_comment_target: None,
            diff_line_selection: None,
            dialog_scroll_on_entry: true,
            activities_scroll_on_entry: false,
            expanded_activities: Table::new(),
            workspace_recent_open: false,
            workspace_file: None,
            workspace_tree_visible: true,
            workspace_content_visible: true,
        }
    }

    /// Opens the settings, at a part of them where one is given. What the form of the built-in agent
    /// is to be filled with comes back where it comes to be shown.
    pub fn open_settings(&mut self, tab: Option<SettingsTab>) -> (r: (
        Option<OrchestratorConfig>,
        Vec<Fetch>,
    ))
        ensures
            ({
                let shown = match tab {
                    Some(tab) => tab,
                    None => old(self).core.settings_tab,
                };
                let opened = Core {
                    settings_tab: shown,
                    settings_open: true,
                    ..old(self).core
                };
                let fills = shown != old(self).core.settings_tab && shown
                    == SettingsTab::Orchestrator;
                &&& final(self).core == (Core { loaded_view: Some(opened.shown()), ..opened })
                &&& r.1@ == needs(opened)
                &&& fills ==> r.0 is Some && r.0->0@ == forms::saved_config(
                    old(self).core,
                ) && final(self).orchestrator_format == Some(r.0->0.api_format)
                    && final(self).orchestrator_prefilled == r.0
                &&& !fills ==> r.0 is None && final(self).orchestrator_format
                    == old(self).orchestrator_format && final(self).orchestrator_prefilled
                    == old(self).orchestrator_prefilled
            }),
            *final(self) == (AmuxApp {
                core: final(self).core,
                orchestrator_format: final(self).orchestrator_format,
                orchestrator_prefilled: final(self).orchestrator_prefilled,
                ..*old(self)
            }),
    {
        let mut switched: bool = false;
        match tab {
            Some(tab) => {
                switched = self.core.settings_tab != tab;
                self.core.settings_tab = tab;
            },
            None => {},
        }
        self.core.settings_open = true;
        let mut filled: Option<OrchestratorConfig> = None;
        if switched && self.core.settings_tab == SettingsTab::Orchestrator {
            filled = Some(self.load_orchestrator_form());
        }
        let fetch: Vec<Fetch> = load_view_data(&mut self.core);
        (filled, fetch)
    }

    /// Closes the settings.
    pub fn close_settings(&mut self)
        ensures
            *final(self) == (AmuxApp {
                core: Core { settings_open: false, ..old(self).core },
                ..*old(self)
            }),
    {
        self.core.settings_open = false;
    }

    /// Shows another part of the settings.
    pub fn select_settings_tab(&mut self, tab: SettingsTab) -> (r: (
        Option<OrchestratorConfig>,
        Vec<Fetch>,
    ))
        ensures
            tab == old(self).core.settings_tab ==> *final(self) == *old(self) && r.0 is None
                && r.1@.len() == 0,
            tab != old(self).core.settings_tab ==> {
                let shown = Core { settings_tab: tab, ..old(self).core };
                &&& final(self).core == (Core { loaded_view: Some(shown.shown()), ..shown })
                &&& r.1@ == needs(shown)
                &&& tab == SettingsTab::Orchestrator ==> r.0 is Some && r.0->0@
                    == forms::saved_config(old(self).core) && final(self).orchestrator_format
                    == Some(r.0->0.api_format) && final(self).orchestrator_prefilled == r.0
                &&& tab != SettingsTab::Orchestrator ==> r.0 is None
                    && final(self).orchestrator_format == old(self).orchestrator_format
                    && final(self).orchestrator_prefilled == old(self).orchestrator_prefilled
            },
            *final(self) == (AmuxApp {
                core: final(self).core,
                orchestrator_format: final(self).orchestrator_format,
                orchestrator_prefilled: final(self).orchestrator_prefilled,
                ..*old(self)
            }),
    {
        if self.core.settings_tab == tab {
            return (None, Vec::new());
        }
        self.core.settings_tab = tab;
        let mut filled: Option<OrchestratorConfig> = None;
        if tab == SettingsTab::Orchestrator {
            filled = Some(self.load_orchestrator_form());
        }
        let fetch: Vec<Fetch> = load_view_data(&mut self.core);
        (filled, fetch)
    }

    /// Shows the form for a new session.
    pub fn open_new_session(&mut self) -> (r: Vec<Fetch>)
        ensures
            final(self).core.view.is_new(),
            final(self).core.view.detail.terminal_output.version() == old(self).core.generations,
            ({
                let closed = Core {
                    open: None,
                    side_panel: None,
                    view: final(self).core.view,
                    generations: state::after(old(self).core.generations),
                    ..old(self).core
                };
                final(self).core == (Core { loaded_view: Some(closed.shown()), ..closed }) && r@
                    == needs(closed)
            }),
            *final(self) == (AmuxApp {
                core: final(self).core,
                dialog_scroll_on_entry: true,
                ..*old(self)
            }),
    {
        self.dialog_scroll_on_entry = true;
        self.core.open = None;
        self.core.side_panel = None;
        self.core.view = OpenView::new(&mut self.core.generations);
        load_view_data(&mut self.core)
    }

    /// Opens an entry of the list. What belonged to the session before is given up, and so is a panel
    /// that the entry does not have.
    pub fn open_entry(&mut self, id: &str) -> (r: Vec<Fetch>)
        ensures
            ({
                let workflow = state::entry_of(old(self).core.entries@, id@) matches Some(
                    ListEntry::Workflow(_),
                );
                let opened = Core {
                    open: final(self).core.open,
                    view: final(self).core.view,
                    last: state::no_ticks(),
                    generations: state::after(old(self).core.generations),
                    side_panel: match old(self).core.side_panel {
                        Some(panel) => if panel.fits(workflow) {
                            Some(panel)
                        } else {
                            None
                        },
                        None => None,
                    },
                    ..old(self).core
                };
                &&& workflow ==> (final(self).core.open matches Some(OpenTarget::Workflow(open))
                    && open@ == id@)
                &&& !workflow ==> (final(self).core.open matches Some(OpenTarget::Session(open))
                    && open@ == id@)
                &&& final(self).core == (Core { loaded_view: Some(opened.shown()), ..opened })
                &&& r@ == needs(opened)
            }),
            final(self).core.view.is_new(),
            final(self).core.view.detail.terminal_output.version() == old(self).core.generations,
            final(self).attachments@.len() == 0,
            nothing_in(final(self).diff_collapsed_files),
            nothing_in(final(self).diff_collapsed_dirs),
            nothing_in(final(self).expanded_activities),
            *final(self) == (AmuxApp {
                core: final(self).core,
                attachments: final(self).attachments,
                diff_collapsed_files: final(self).diff_collapsed_files,
                diff_collapsed_dirs: final(self).diff_collapsed_dirs,
                diff_comment_target: None,
                diff_line_selection: None,
                expanded_activities: final(self).expanded_activities,
                workspace_file: None,
                workspace_tree_visible: true,
                dialog_scroll_on_entry: true,
                activities_scroll_on_entry: true,
                ..*old(self)
            }),
    {
        let is_workflow: bool = match self.core.entry(id) {
            Some(ListEntry::Workflow(_)) => true,
            _ => false,
        };
        if is_workflow {
            open_workflow(&mut self.core, id);
        } else {
            open_session(&mut self.core, id);
        }
        match self.core.side_panel {
            Some(panel) => {
                if !panel.is_available(is_workflow) {
                    self.core.side_panel = None;
                }
            },
            None => {},
        }
        self.attachments = Vec::new();
        self.diff_collapsed_files = Table::new();
        self.diff_collapsed_dirs = Table::new();
        self.diff_comment_target = None;
        self.diff_line_selection = None;
        self.expanded_activities = Table::new();
        self.workspace_file = None;
        self.workspace_tree_visible = true;
        self.dialog_scroll_on_entry = true;
        self.activities_scroll_on_entry = true;
        load_view_data(&mut self.core)
    }

    /// Begins to change the title of an entry. The title comes back, to be filled in.
    pub fn begin_rename(&mut self, id: &str) -> (r: String)
        ensures
            r@ == match state::entry_of(old(self).core.entries@, id@) {
                Some(entry) => entry.titled(),
                None => Seq::empty(),
            },
            final(self).renaming_id is Some && final(self).renaming_id->0@ == id@,
            *final(self) == (AmuxApp { renaming_id: final(self).renaming_id, ..*old(self) }),
    {
        let title: String = match self.core.entry(id) {
            Some(entry) => entry.title(),
            None => {
                let none: String = String::new();
                proof {
                    assert(none@ =~= Seq::empty());
                }
                none
            },
        };
        self.renaming_id = Some(id.to_owned());
        title
    }

    /// Gives up changing a title.
    pub fn cancel_rename(&mut self)
        ensures
            *final(self) == (AmuxApp { renaming_id: None, ..*old(self) }),
    {
        self.renaming_id = None;
    }

    /// Changes a title to what was entered. The entry and the title come back, unless nothing was
    /// entered or the entry is gone.
    pub fn commit_rename(&mut self, entered: &str) -> (r: Option<(OpenTarget, String)>)
        ensures
            *final(self) == (AmuxApp { renaming_id: None, ..*old(self) }),
            match old(self).renaming_id {
                Some(id) => match state::entry_of(old(self).core.entries@, id@) {
                    Some(entry) => if strings::blank(entered@) {
                        r is None
                    } else {
                        &&& r is Some
                        &&& (r->0).0.key() == id@
                        &&& (r->0).0 is Workflow == entry is Workflow
                        &&& (r->0).1@ == strings::trim_of(entered@)
                    },
                    None => r is None,
                },
                None => r is None,
            },
    {
        let id: String = match &self.renaming_id {
            Some(id) => id.clone(),
            None => {
                return None;
            },
        };
        self.renaming_id = None;
        if is_blank(entered) {
            return None;
        }
        let title: String = trim(entered);
        match self.core.entry(id.as_str()) {
            Some(ListEntry::Session(_)) => Some((OpenTarget::Session(id), title)),
            Some(ListEntry::Workflow(_)) => Some((OpenTarget::Workflow(id), title)),
            None => None,
        }
    }

    /// Opens or closes a panel: one that is open is closed.
    pub fn toggle_side_panel(&mut self, panel: SidePanel) -> (r: PanelNeeds)
        ensures
            old(self).core.side_panel == Some(panel) ==> r == PanelNeeds::Nothing && *final(self)
                == (AmuxApp { core: Core { side_panel: None, ..old(self).core }, ..*old(self) }),
            old(self).core.side_panel != Some(panel) ==> r == needs_of(panel) && *final(self)
                == with_panel(*old(self), panel),
    {
        let open: bool = match self.core.side_panel {
            Some(open) => open == panel,
            None => false,
        };
        if open {
            self.core.side_panel = None;
            return PanelNeeds::Nothing;
        }
        self.open_side_panel(panel)
    }

    /// Opens a panel. What it shows is due at once.
    pub fn open_side_panel(&mut self, panel: SidePanel) -> (r: PanelNeeds)
        ensures
            r == needs_of(panel),
            *final(self) == with_panel(*old(self), panel),
    {
        self.core.side_panel = Some(panel);
        match panel {
            SidePanel::Activities => {
                self.core.last.activities = None;
                self.activities_scroll_on_entry = true;
                PanelNeeds::Nothing
            },
            SidePanel::Plan => {
                self.core.last.plan = None;
                PanelNeeds::Nothing
            },
            SidePanel::Workspace => PanelNeeds::Workspace,
            SidePanel::Terminal => PanelNeeds::Terminals,
            SidePanel::Diff => PanelNeeds::Changes,
            SidePanel::Detail => PanelNeeds::Context,
        }
    }
}

/// What is fetched when a panel is opened.
#[derive(Debug, Clone, Copy, PartialEq, Eq, Structural)]
pub enum PanelNeeds {
    Nothing,
    /// What is in the session's directory.
    Workspace,
    Terminals,
    Changes,
    /// How much of the context is used.
    Context,
}

/// What is fetched when a panel is opened.
pub open spec fn needs_of(panel: SidePanel) -> PanelNeeds {
    match panel {
        SidePanel::Workspace => PanelNeeds::Workspace,
        SidePanel::Terminal => PanelNeeds::Terminals,
        SidePanel::Diff => PanelNeeds::Changes,
        SidePanel::Detail => PanelNeeds::Context,
        SidePanel::Activities => PanelNeeds::Nothing,
        SidePanel::Plan => PanelNeeds::Nothing,
    }
}

/// A panel is open, and what it shows is due.
pub open spec fn with_panel(app: AmuxApp, panel: SidePanel) -> AmuxApp {
    AmuxApp {
        core: Core {
            side_panel: Some(panel),
            last: state::Ticks {
                activities: if panel == SidePanel::Activities {
                    None
                } else {
                    app.core.last.activities
                },
                plan: if panel == SidePanel::Plan {
                    None
                } else {
                    app.core.last.plan
                },
                ..app.core.last
            },
            ..app.core
        },
        activities_scroll_on_entry: panel == SidePanel::Activities
            || app.activities_scroll_on_entry,
        ..app
    }
}

} // verus!
