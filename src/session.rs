//! The system-mode state machine and the handling of bus events.
//!
//! Each event is handled by a pure step from the current state to the next,
//! together with the actions that the surrounding frame loop performs (swap the
//! active menu group, open a window, start the file picker, send a follow-up
//! event, log). A frame hands over the batch it drained; events sent while
//! handling it come back as `Send` actions, for the next frame's drain.
use vstd::prelude::*;
use crate::login::LoginParams;
use crate::registry::{IdCounter, WindowId};

verus! {

/// The top-level modes of the system. Exactly one is current.
#[derive(Debug, Clone, Copy, PartialEq, Eq, Structural)]
pub enum SystemMode {
    /// Idle, waiting for grid selection.
    Startup,
    /// The login dialog is up.
    Login,
    /// Connecting to a server.
    Connecting,
    /// Fully connected, all menus live.
    Connected,
    /// Playing back a replay file.
    Replay,
    /// Shutting down; no way out.
    Shutdown,
}

/// The name of a mode, as spelled in its variant.
pub open spec fn mode_name(m: SystemMode) -> Seq<char> {
    match m {
        SystemMode::Startup => seq!['S', 't', 'a', 'r', 't', 'u', 'p'],
        SystemMode::Login => seq!['L', 'o', 'g', 'i', 'n'],
        SystemMode::Connecting => seq!['C', 'o', 'n', 'n', 'e', 'c', 't', 'i', 'n', 'g'],
        SystemMode::Connected => seq!['C', 'o', 'n', 'n', 'e', 'c', 't', 'e', 'd'],
        SystemMode::Replay => seq!['R', 'e', 'p', 'l', 'a', 'y'],
        SystemMode::Shutdown => seq!['S', 'h', 'u', 't', 'd', 'o', 'w', 'n'],
    }
}

impl SystemMode {
    /// The mode's name, for log lines.
    pub fn name(&self) -> (r: &'static str)
        ensures
            r@ == mode_name(*self),
    {
        match self {
            SystemMode::Startup => {
                proof { reveal_strlit("Startup"); }
                let r = "Startup";
                assert(r@ =~= mode_name(*self));
                r
            },
            SystemMode::Login => {
                proof { reveal_strlit("Login"); }
                let r = "Login";
                assert(r@ =~= mode_name(*self));
                r
            },
            SystemMode::Connecting => {
                proof { reveal_strlit("Connecting"); }
                let r = "Connecting";
                assert(r@ =~= mode_name(*self));
                r
            },
            SystemMode::Connected => {
                proof { reveal_strlit("Connected"); }
                let r = "Connected";
                assert(r@ =~= mode_name(*self));
                r
            },
            SystemMode::Replay => {
                proof { reveal_strlit("Replay"); }
                let r = "Replay";
                assert(r@ =~= mode_name(*self));
                r
            },
            SystemMode::Shutdown => {
                proof { reveal_strlit("Shutdown"); }
                let r = "Shutdown";
                assert(r@ =~= mode_name(*self));
                r
            },
        }
    }
}

/// The menu groups; exactly one is active at a time.
#[derive(Debug, Clone, Copy, PartialEq, Eq, Structural)]
pub enum MenuKind {
    /// The empty menu group, active before anything else.
    Empty,
    /// The start menu with grid selection.
    Start,
    /// The menu shown while logging in.
    Login,
    /// The menus of a live (or replayed) session.
    Connected,
}

/// Basic information about a grid, as read from the grid list.
#[derive(Debug, Clone)]
pub struct GridSelectParamsData {
    /// Second Life, OsGrid, etc.
    pub metaverse: String,
    /// agni, etc.
    pub grid: String,
    /// Local file name of the picture bar, in the images directory.
    pub picture_bar: String,
    /// Home page of the site.
    pub home_url: String,
    /// How to join.
    pub join_url: Option<String>,
    /// Login address; none for a replay.
    pub login_url: Option<String>,
    /// A comment carried in the source file.
    pub comment: Option<String>,
}

/// Infrastructure events that any application can use.
#[derive(Debug)]
pub enum GuiCommonEvent {
    /// Pops up a warning window: title, lines of text.
    ErrorMessage((String, Vec<String>)),
    /// A line for the message window.
    LogMessage(String),
    /// Shut everything down.
    Shutdown,
}

/// Application events.
#[derive(Debug)]
pub enum GuiEvent {
    /// Back to the startup state.
    Startup,
    /// Open a replay file; none when the user chose no file.
    OpenReplay(Option<String>),
    /// Save into a replay file.
    SaveReplay(String),
    /// A grid was selected: ask for login parameters.
    LoginTo(GridSelectParamsData),
    /// Start the login process with these parameters.
    LoginStart(LoginParams),
}

/// Everything the event bus carries: either family, told apart by the tag.
#[derive(Debug)]
pub enum BusEvent {
    App(GuiEvent),
    Common(GuiCommonEvent),
}

/// What the frame loop is asked to do after an event was handled.
#[derive(Debug)]
pub enum Action {
    /// Make this menu group the active one.
    SetMenu(MenuKind),
    /// Open an informational window with a dismiss button.
    OpenTextWindow { id: WindowId, title: String, lines: Vec<String> },
    /// Open the login dialog for the selected grid.
    OpenLoginDialog { id: WindowId },
    /// Start the native file picker for a replay file, off the redraw thread.
    PickReplayFile,
    /// Append a line to the message window.
    AppendMessage(String),
    /// Log an error line; the event was ignored.
    LogError(String),
    /// Put this event on the bus, for the next frame.
    Send(GuiEvent),
}

/// The state that event handling reads and writes.
pub struct SessionModel {
    pub mode: SystemMode,
    pub menu: MenuKind,
    pub quit: bool,
    /// Window ids handed out so far.
    pub issued: nat,
    /// The selected grid, if any.
    pub grid: Option<GridSelectParamsData>,
}

/// How many window ids handling `ev` in state `m` takes.
pub open spec fn ids_taken(m: SessionModel, ev: BusEvent) -> nat {
    match ev {
        BusEvent::App(GuiEvent::LoginTo(g)) => if m.mode == SystemMode::Startup && g.login_url is Some {
            1
        } else {
            0
        },
        BusEvent::App(GuiEvent::SaveReplay(_)) => 1,
        BusEvent::App(GuiEvent::LoginStart(_)) => 1,
        BusEvent::Common(GuiCommonEvent::ErrorMessage(_)) => 1,
        _ => 0,
    }
}

/// The state after handling `ev` in state `m`.
pub open spec fn next_model(m: SessionModel, ev: BusEvent) -> SessionModel {
    let issued = m.issued + ids_taken(m, ev);
    match ev {
        BusEvent::App(GuiEvent::Startup) => if m.mode == SystemMode::Shutdown {
            m
        } else {
            SessionModel { mode: SystemMode::Startup, menu: MenuKind::Start, grid: None, ..m }
        },
        BusEvent::App(GuiEvent::OpenReplay(Some(_))) => if m.mode == SystemMode::Shutdown {
            m
        } else {
            SessionModel { mode: SystemMode::Replay, menu: MenuKind::Connected, ..m }
        },
        BusEvent::App(GuiEvent::LoginTo(g)) => if m.mode == SystemMode::Startup {
            SessionModel { mode: SystemMode::Login, menu: MenuKind::Login, grid: Some(g), issued, ..m }
        } else {
            m
        },
        BusEvent::Common(GuiCommonEvent::Shutdown) => SessionModel {
            mode: SystemMode::Shutdown,
            quit: true,
            ..m
        },
        _ => SessionModel { issued, ..m },
    }
}

/// The actions that handling `ev` in state `m` produces, with `unimplemented`
/// the translated "unimplemented" text.
pub open spec fn actions_match(
    m: SessionModel,
    ev: BusEvent,
    unimplemented: Seq<char>,
    acts: Seq<Action>,
) -> bool {
    let id = (m.issued + 1) as WindowId;
    match ev {
        BusEvent::App(GuiEvent::Startup) => if m.mode == SystemMode::Shutdown {
            acts.len() == 0
        } else {
            acts == seq![Action::SetMenu(MenuKind::Start)]
        },
        BusEvent::App(GuiEvent::OpenReplay(Some(_))) => if m.mode == SystemMode::Shutdown {
            acts.len() == 0
        } else {
            acts == seq![Action::SetMenu(MenuKind::Connected)]
        },
        BusEvent::App(GuiEvent::OpenReplay(None)) => acts == seq![Action::Send(GuiEvent::Startup)],
        BusEvent::App(GuiEvent::LoginTo(g)) => if m.mode == SystemMode::Startup {
            if g.login_url is None {
                acts == seq![Action::SetMenu(MenuKind::Login), Action::PickReplayFile]
            } else {
                acts == seq![Action::SetMenu(MenuKind::Login), Action::OpenLoginDialog { id }]
            }
        } else {
            acts.len() == 1 && acts[0] is LogError
        },
        BusEvent::App(GuiEvent::SaveReplay(_)) | BusEvent::App(GuiEvent::LoginStart(_)) => {
            &&& acts.len() == 1
            &&& acts[0] matches Action::OpenTextWindow { id: i, title, lines }
                && i == id && title@ == unimplemented && lines@.len() == 1 && lines@[0]@ == unimplemented
        },
        BusEvent::Common(GuiCommonEvent::ErrorMessage((t, l))) => {
            &&& acts.len() == 1
            &&& acts[0] matches Action::OpenTextWindow { id: i, title, lines }
                && i == id && title == t && lines@ == l@
        },
        BusEvent::Common(GuiCommonEvent::LogMessage(s)) => acts == seq![Action::AppendMessage(s)],
        BusEvent::Common(GuiCommonEvent::Shutdown) => acts.len() == 0,
    }
}

/// How many errors handling `ev` in state `m` logs.
pub open spec fn errors_logged(acts: Seq<Action>) -> nat
    decreases acts.len(),
{
    if acts.len() == 0 {
        0
    } else {
        errors_logged(acts.drop_last()) + if acts.last() is LogError {
            1nat
        } else {
            0nat
        }
    }
}

/// The state after handling the events of `batch` one after another.
pub open spec fn model_after(m: SessionModel, batch: Seq<BusEvent>) -> SessionModel
    decreases batch.len(),
{
    if batch.len() == 0 {
        m
    } else {
        next_model(model_after(m, batch.drop_last()), batch.last())
    }
}

/// The orchestrator's state: mode, active menu group, pending exit, window ids,
/// and the selected grid.
pub struct Session {
    mode: SystemMode,
    menu: MenuKind,
    quit: bool,
    ids: IdCounter,
    selected_grid: Option<GridSelectParamsData>,
    unimplemented: String,
}

impl Session {
    pub closed spec fn model(&self) -> SessionModel {
        SessionModel {
            mode: self.mode,
            menu: self.menu,
            quit: self.quit,
            issued: self.ids.issued(),
            grid: self.selected_grid,
        }
    }

    /// The translated "unimplemented" text that stands in windows of features not there yet.
    pub closed spec fn unimplemented_text(&self) -> Seq<char> {
        self.unimplemented@
    }

    /// A new session in `Startup` mode with the empty menu group; `unimplemented`
    /// is the text shown for features not there yet.
    pub fn new(unimplemented: String) -> (r: Self)
        ensures
            r.model() == (SessionModel {
                mode: SystemMode::Startup,
                menu: MenuKind::Empty,
                quit: false,
                issued: 0,
                grid: None,
            }),
            r.unimplemented_text() == unimplemented@,
    {
        Session {
            mode: SystemMode::Startup,
            menu: MenuKind::Empty,
            quit: false,
            ids: IdCounter::new(),
            selected_grid: None,
            unimplemented,
        }
    }

    /// How many window ids have been handed out.
    pub fn ids_issued(&self) -> (r: u64)
        ensures
            r == self.model().issued,
    {
        self.ids.issued_count()
    }

    pub fn get_mode(&self) -> (r: SystemMode)
        ensures
            r == self.model().mode,
    {
        self.mode
    }

    pub fn get_menu(&self) -> (r: MenuKind)
        ensures
            r == self.model().menu,
    {
        self.menu
    }

    /// True once a shutdown was handled: the process is to exit.
    pub fn quit_requested(&self) -> (r: bool)
        ensures
            r == self.model().quit,
    {
        self.quit
    }

    /// The grid chosen by the last accepted login request, if any.
    pub fn selected_grid(&self) -> (r: &Option<GridSelectParamsData>)
        ensures
            *r == self.model().grid,
    {
        &self.selected_grid
    }

    /// Record a mode change made outside event handling (a connection came up,
    /// for instance). Leaving `Shutdown` is not possible: there the mode stays.
    pub fn change_mode(&mut self, mode: SystemMode)
        ensures
            final(self).model() == (SessionModel {
                mode: if old(self).model().mode == SystemMode::Shutdown {
                    SystemMode::Shutdown
                } else {
                    mode
                },
                ..old(self).model()
            }),
            final(self).unimplemented_text() == old(self).unimplemented_text(),
    {
        if self.mode != SystemMode::Shutdown {
            self.mode = mode;
        }
    }

    /// A fresh window id, for windows that the frame loop opens itself.
    pub fn get_unique_id(&mut self) -> (r: WindowId)
        requires
            old(self).model().issued < u64::MAX,
        ensures
            r == old(self).model().issued + 1,
            final(self).model() == (SessionModel { issued: r as nat, ..old(self).model() }),
            final(self).unimplemented_text() == old(self).unimplemented_text(),
    {
        self.ids.get_unique_id()
    }

    /// Handle one event: move to the next state and say what the frame loop is to do.
    /// A login request outside `Startup` mode is ignored and logs one error.
    pub fn handle_event(&mut self, ev: BusEvent) -> (acts: Vec<Action>)
        requires
            ids_taken(old(self).model(), ev) > 0 ==> old(self).model().issued < u64::MAX,
        ensures
            final(self).model() == next_model(old(self).model(), ev),
            actions_match(old(self).model(), ev, old(self).unimplemented_text(), acts@),
            final(self).unimplemented_text() == old(self).unimplemented_text(),
    {
        let mut acts: Vec<Action> = Vec::new();
        match ev {
            BusEvent::App(GuiEvent::Startup) => {
                if self.mode != SystemMode::Shutdown {
                    self.mode = SystemMode::Startup;
                    self.menu = MenuKind::Start;
                    self.selected_grid = None;
                    acts.push(Action::SetMenu(MenuKind::Start));
                    assert(acts@ =~= seq![Action::SetMenu(MenuKind::Start)]);
                }
            },
            BusEvent::App(GuiEvent::OpenReplay(Some(_path))) => {
                if self.mode != SystemMode::Shutdown {
                    self.mode = SystemMode::Replay;
                    self.menu = MenuKind::Connected;
                    acts.push(Action::SetMenu(MenuKind::Connected));
                    assert(acts@ =~= seq![Action::SetMenu(MenuKind::Connected)]);
                }
            },
            BusEvent::App(GuiEvent::OpenReplay(None)) => {
                acts.push(Action::Send(GuiEvent::Startup));
                assert(acts@ =~= seq![Action::Send(GuiEvent::Startup)]);
            },
            BusEvent::App(GuiEvent::LoginTo(grid)) => {
                if self.mode == SystemMode::Startup {
                    self.mode = SystemMode::Login;
                    self.menu = MenuKind::Login;
                    acts.push(Action::SetMenu(MenuKind::Login));
                    if grid.login_url.is_none() {
                        acts.push(Action::PickReplayFile);
                        assert(acts@ =~= seq![Action::SetMenu(MenuKind::Login), Action::PickReplayFile]);
                    } else {
                        let id = self.ids.get_unique_id();
                        acts.push(Action::OpenLoginDialog { id });
                        assert(acts@ =~= seq![Action::SetMenu(MenuKind::Login), Action::OpenLoginDialog { id }]);
                    }
                    self.selected_grid = Some(grid);
                } else {
                    let line = String::from_str("Login request while in mode ").concat(
                        self.mode.name(),
                    );
                    acts.push(Action::LogError(line));
                }
            },
            BusEvent::App(GuiEvent::SaveReplay(_)) | BusEvent::App(GuiEvent::LoginStart(_)) => {
                let id = self.ids.get_unique_id();
                let mut lines: Vec<String> = Vec::new();
                lines.push(self.unimplemented.clone());
                acts.push(Action::OpenTextWindow { id, title: self.unimplemented.clone(), lines });
            },
            BusEvent::Common(GuiCommonEvent::ErrorMessage((title, lines))) => {
                let id = self.ids.get_unique_id();
                acts.push(Action::OpenTextWindow { id, title, lines });
            },
            BusEvent::Common(GuiCommonEvent::LogMessage(s)) => {
                acts.push(Action::AppendMessage(s));
                assert(acts@ =~= seq![Action::AppendMessage(s)]);
            },
            BusEvent::Common(GuiCommonEvent::Shutdown) => {
                self.mode = SystemMode::Shutdown;
                self.quit = true;
            },
        }
        acts
    }

    /// Handle a frame's drained batch, in order. The result holds the actions of
    /// each event, at the event's position. Events that handling sends come out as
    /// `Send` actions and are not handled here: they belong to the next drain.
    pub fn process_events(&mut self, batch: Vec<BusEvent>) -> (r: Vec<Vec<Action>>)
        requires
            old(self).model().issued + batch@.len() < u64::MAX,
        ensures
            final(self).model() == model_after(old(self).model(), batch@),
            final(self).unimplemented_text() == old(self).unimplemented_text(),
            r@.len() == batch@.len(),
            forall|i: int| 0 <= i < batch@.len() ==> actions_match(
                model_after(old(self).model(), batch@.take(i)),
                #[trigger] batch@[i],
                old(self).unimplemented_text(),
                r@[i]@,
            ),
    {
        let ghost m0 = self.model();
        let ghost all = batch@;
        let mut rest = batch;
        let mut out: Vec<Vec<Action>> = Vec::new();
        let n = rest.len();
        let mut i: usize = 0;
        assert(all.take(0) =~= Seq::<BusEvent>::empty());
        while i < n
            invariant
                n == all.len(),
                0 <= i <= n,
                m0.issued + n < u64::MAX,
                rest@ == all.skip(i as int),
                self.model() == model_after(m0, all.take(i as int)),
                self.model().issued <= m0.issued + i,
                self.unimplemented_text() == old(self).unimplemented_text(),
                out@.len() == i,
                forall|k: int| 0 <= k < i ==> actions_match(
                    model_after(m0, all.take(k)),
                    #[trigger] all[k],
                    old(self).unimplemented_text(),
                    out@[k]@,
                ),
            decreases n - i,
        {
            let ev = rest.remove(0);
            assert(ev == all[i as int]);
            assert(all.take(i + 1).drop_last() =~= all.take(i as int));
            assert(all.skip(i + 1) =~= all.skip(i as int).subrange(1, (n - i) as int));
            let acts = self.handle_event(ev);
            out.push(acts);
            i += 1;
        }
        assert(all.take(n as int) =~= all);
        out
    }
}

/// `Shutdown` is terminal: whatever events follow, the mode stays `Shutdown`.
pub proof fn lemma_shutdown_terminal(m: SessionModel, batch: Seq<BusEvent>)
    requires
        m.mode == SystemMode::Shutdown,
    ensures
        model_after(m, batch).mode == SystemMode::Shutdown,
    decreases batch.len(),
{
    if batch.len() > 0 {
        lemma_shutdown_terminal(m, batch.drop_last());
    }
}

/// Application-specific user-interface state; the application supplies it.
pub trait AppState {
}

/// The empty menu group: draws nothing and counts as in use.
pub struct MenuNone {}

impl MenuNone {
    pub fn new() -> (r: Self) {
        MenuNone {  }
    }

    /// Draw the group; true when the menu is in use, which it always is.
    pub fn draw(&mut self) -> (r: bool)
        ensures
            r,
    {
        true
    }

    /// The group's name, for log lines.
    pub fn get_name(&self) -> (r: &'static str)
        ensures
            r@ == seq!['-', '-', '-'],
    {
        proof { reveal_strlit("---"); }
        "---"
    }
}

/// Handling a batch and then, at the next drain, the events sent meanwhile,
/// reaches the state of handling the two in that order: the first batch is
/// done whole before any event that its handling sent.
pub proof fn lemma_batches_in_order(m: SessionModel, batch: Seq<BusEvent>, sent: Seq<BusEvent>)
    ensures
        model_after(m, batch + sent) == model_after(model_after(m, batch), sent),
    decreases sent.len(),
{
    if sent.len() == 0 {
        assert(batch + sent =~= batch);
    } else {
        lemma_batches_in_order(m, batch, sent.drop_last());
        assert((batch + sent).drop_last() =~= batch + sent.drop_last());
    }
}

/// A login request that arrives in any mode but `Startup` (for instance while
/// connected) leaves the state unchanged and logs exactly one error.
pub proof fn lemma_login_guard(
    m: SessionModel,
    grid: GridSelectParamsData,
    unimplemented: Seq<char>,
    acts: Seq<Action>,
)
    requires
        m.mode != SystemMode::Startup,
        actions_match(m, BusEvent::App(GuiEvent::LoginTo(grid)), unimplemented, acts),
    ensures
        next_model(m, BusEvent::App(GuiEvent::LoginTo(grid))) == m,
        errors_logged(acts) == 1,
{
    assert(acts.drop_last().len() == 0);
    assert(errors_logged(acts.drop_last()) == 0);
}

} // verus!
