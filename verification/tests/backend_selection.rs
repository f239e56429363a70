use singulari_world::backend_selection::{
    check_backend_selection_update, check_loaded_backend_selection, BackendSelectionError,
    WorldBackendSelection, WorldTextBackend, WorldVisualBackend,
};

#[test]
fn backend_selection_is_locked_after_world_creation() {
    let selection = WorldBackendSelection::new(
        "stw_backend_lock".to_owned(),
        WorldTextBackend::CodexAppServer,
        WorldVisualBackend::Webgpt,
        "test",
    ).expect("clock");
    assert!(selection.locked);
    assert_eq!(selection.text_backend, WorldTextBackend::CodexAppServer);
    assert!(check_backend_selection_update(None, &selection).is_ok());
    assert!(check_backend_selection_update(Some(&selection), &selection).is_ok());

    let conflicting = WorldBackendSelection::new(
        "stw_backend_lock".to_owned(),
        WorldTextBackend::Webgpt,
        WorldVisualBackend::Webgpt,
        "test",
    ).expect("clock");
    let Err(error) = check_backend_selection_update(Some(&selection), &conflicting) else {
        panic!("locked selection accepted backend changes");
    };
    assert!(error.message().contains("backend selection is locked"));
    assert_eq!(
        error.message(),
        "backend selection is locked for world_id=stw_backend_lock, text=codex-app-server, visual=webgpt"
    );
}

#[test]
fn unlocked_selection_may_change_and_world_must_match() {
    let mut existing = WorldBackendSelection::new(
        "w".to_owned(),
        WorldTextBackend::Webgpt,
        WorldVisualBackend::CodexAppServer,
        "cli",
    ).expect("clock");
    existing.locked = false;
    let other = WorldBackendSelection::new(
        "w".to_owned(),
        WorldTextBackend::CodexAppServer,
        WorldVisualBackend::Webgpt,
        "cli",
    ).expect("clock");
    assert!(check_backend_selection_update(Some(&existing), &other).is_ok());
    assert!(check_loaded_backend_selection(&existing, "w").is_ok());
    match check_loaded_backend_selection(&existing, "x") {
        Err(BackendSelectionError::WorldMismatch { expected, actual }) => {
            assert_eq!(expected, "x");
            assert_eq!(actual, "w");
        }
        _ => panic!("mismatched world must fail"),
    }
    assert_eq!(WorldTextBackend::CodexAppServer.as_str(), "codex-app-server");
    assert_eq!(WorldVisualBackend::Webgpt.as_str(), "webgpt");
}
