use libui::{
    Action, BusEvent, GridSelectParamsData, GuiCommonEvent, GuiEvent, LoginDestination, LoginParams, MenuKind, MenuNone,
    Session, SystemMode,
};

fn grid(login_url: Option<&str>) -> GridSelectParamsData {
    GridSelectParamsData {
        metaverse: "Second Life".to_string(),
        grid: "agni".to_string(),
        picture_bar: "bar.png".to_string(),
        home_url: "https://example.org".to_string(),
        join_url: None,
        login_url: login_url.map(|s| s.to_string()),
        comment: None,
    }
}

fn session() -> Session {
    Session::new("Not yet".to_string())
}

#[test]
fn login_request_while_connected_is_ignored_and_logged_once() {
    let mut s = session();
    s.change_mode(SystemMode::Connected);
    let acts = s.handle_event(BusEvent::App(GuiEvent::LoginTo(grid(Some("https://login")))));
    assert_eq!(s.get_mode(), SystemMode::Connected);
    assert_eq!(acts.len(), 1);
    assert!(matches!(acts[0], Action::LogError(_)));
    assert!(s.selected_grid().is_none());
}

#[test]
fn login_request_at_startup_opens_login_dialog() {
    let mut s = session();
    let acts = s.handle_event(BusEvent::App(GuiEvent::LoginTo(grid(Some("https://login")))));
    assert_eq!(s.get_mode(), SystemMode::Login);
    assert_eq!(s.get_menu(), MenuKind::Login);
    assert_eq!(acts.len(), 2);
    assert!(matches!(acts[0], Action::SetMenu(MenuKind::Login)));
    assert!(matches!(acts[1], Action::OpenLoginDialog { id: 1 }));
    assert_eq!(s.selected_grid().as_ref().unwrap().grid, "agni");
}

#[test]
fn grid_without_login_url_starts_file_picker() {
    let mut s = session();
    let acts = s.handle_event(BusEvent::App(GuiEvent::LoginTo(grid(None))));
    assert_eq!(s.get_mode(), SystemMode::Login);
    assert_eq!(acts.len(), 2);
    assert!(matches!(acts[1], Action::PickReplayFile));
}

#[test]
fn events_sent_while_handling_wait_for_next_drain() {
    let mut s = session();
    let batch = vec![
        BusEvent::App(GuiEvent::OpenReplay(None)),
        BusEvent::Common(GuiCommonEvent::LogMessage("hello".to_string())),
    ];
    let out = s.process_events(batch);
    assert_eq!(out.len(), 2);
    assert!(matches!(out[0][0], Action::Send(GuiEvent::Startup)));
    match &out[1][0] {
        Action::AppendMessage(m) => assert_eq!(m, "hello"),
        other => panic!("unexpected {:?}", other),
    }
    // the Startup event sent by the first handler was not handled in this frame
    assert_eq!(s.get_menu(), MenuKind::Empty);
    let out2 = s.process_events(vec![BusEvent::App(GuiEvent::Startup)]);
    assert!(matches!(out2[0][0], Action::SetMenu(MenuKind::Start)));
    assert_eq!(s.get_menu(), MenuKind::Start);
}

#[test]
fn chosen_replay_file_enters_replay_mode() {
    let mut s = session();
    let acts = s.handle_event(BusEvent::App(GuiEvent::OpenReplay(Some("/tmp/a.json".to_string()))));
    assert_eq!(s.get_mode(), SystemMode::Replay);
    assert!(matches!(acts[0], Action::SetMenu(MenuKind::Connected)));
}

#[test]
fn error_message_opens_text_window() {
    let mut s = session();
    let ev = GuiCommonEvent::ErrorMessage(("Oops".to_string(), vec!["line one".to_string(), "line two".to_string()]));
    let acts = s.handle_event(BusEvent::Common(ev));
    match &acts[0] {
        Action::OpenTextWindow { id, title, lines } => {
            assert_eq!(*id, 1);
            assert_eq!(title, "Oops");
            assert_eq!(lines.len(), 2);
        }
        other => panic!("unexpected {:?}", other),
    }
    assert_eq!(s.get_unique_id(), 2);
}

#[test]
fn unimplemented_feature_opens_notice() {
    let mut s = session();
    let acts = s.handle_event(BusEvent::App(GuiEvent::SaveReplay("/tmp/x".to_string())));
    match &acts[0] {
        Action::OpenTextWindow { id, title, lines } => {
            assert_eq!(*id, 1);
            assert_eq!(title, "Not yet");
            assert_eq!(lines, &vec!["Not yet".to_string()]);
        }
        other => panic!("unexpected {:?}", other),
    }
}

#[test]
fn login_start_is_not_there_yet() {
    let mut s = session();
    let params = LoginParams::new(grid(Some("https://login")), LoginDestination::Home, "bob".to_string());
    let acts = s.handle_event(BusEvent::App(GuiEvent::LoginStart(params)));
    assert_eq!(acts.len(), 1);
    assert!(matches!(acts[0], Action::OpenTextWindow { id: 1, .. }));
}

#[test]
fn shutdown_is_terminal() {
    let mut s = session();
    let acts = s.handle_event(BusEvent::Common(GuiCommonEvent::Shutdown));
    assert!(acts.is_empty());
    assert!(s.quit_requested());
    assert_eq!(s.get_mode(), SystemMode::Shutdown);
    let acts = s.handle_event(BusEvent::App(GuiEvent::Startup));
    assert!(acts.is_empty());
    s.change_mode(SystemMode::Startup);
    assert_eq!(s.get_mode(), SystemMode::Shutdown);
}

#[test]
fn mode_names_and_empty_menu() {
    assert_eq!(SystemMode::Connecting.name(), "Connecting");
    let mut m = MenuNone::new();
    assert!(m.draw());
    assert_eq!(m.get_name(), "---");
}
