use ris_jobs::ecs::{EcsError, GameObjectHandle, MeshComponent};
use ris_jobs::god_job::{determine_wants_to, GameloopState, WantsTo};
use ris_jobs::god_state::{GodState, Settings};
use ris_jobs::input::{pre_update_mouse, update_mouse, MouseData, MouseEvent};
use ris_jobs::path::sanitize;

#[test]
fn sanitize_replaces_invalid_characters() {
    assert_eq!(sanitize("a:b*c?d\"e<f>g|h", false), "a_b_c_d_e_f_g_h");
    assert_eq!(sanitize("keep_me-1.txt", false), "keep_me-1.txt");
    assert_eq!(sanitize("", true), "");
}

#[test]
fn sanitize_replaces_slashes_only_on_request() {
    assert_eq!(sanitize("dir/file\\name", false), "dir/file\\name");
    assert_eq!(sanitize("dir/file\\name", true), "dir_file_name");
}

#[test]
fn wants_to_quit_wins() {
    assert!(matches!(
        determine_wants_to(GameloopState::WantsToQuit, GameloopState::WantsToRestart),
        Some(WantsTo::Quit)
    ));
    assert!(matches!(
        determine_wants_to(GameloopState::WantsToContinue, GameloopState::WantsToQuit),
        Some(WantsTo::Quit)
    ));
    assert!(matches!(
        determine_wants_to(GameloopState::WantsToRestart, GameloopState::WantsToContinue),
        Some(WantsTo::Restart)
    ));
    assert!(determine_wants_to(GameloopState::WantsToContinue, GameloopState::WantsToContinue)
        .is_none());
}

#[test]
fn god_state_reset_clears_events_and_pending_settings() {
    let mut settings = Settings::new(4);
    settings.set_workers(8);
    assert!(settings.job().changed());
    assert!(settings.save_requested());

    let mut state = GodState::new(settings);
    state.event_rebuild_renderers = true;
    state.event_window_resized = Some((640, 480));
    state.debug_ui_is_focused = true;

    state.reset_events();
    assert!(!state.event_rebuild_renderers);
    assert_eq!(state.event_window_resized, None);
    assert!(state.debug_ui_is_focused);
    assert_eq!(state.settings.job().workers(), 8);
    assert!(!state.settings.job().changed());
    assert!(!state.settings.save_requested());
}

#[test]
fn mouse_pre_update_clears_deltas_only() {
    let mut mouse = MouseData { x: 3, y: 4, xrel: 9, yrel: -2, wheel_xrel: 1, wheel_yrel: -1 };
    pre_update_mouse(&mut mouse);
    assert_eq!(
        mouse,
        MouseData { x: 3, y: 4, xrel: 0, yrel: 0, wheel_xrel: 0, wheel_yrel: 0 }
    );
}

#[test]
fn mouse_events_accumulate() {
    let mut mouse = MouseData { x: 0, y: 0, xrel: 0, yrel: 0, wheel_xrel: 0, wheel_yrel: 0 };
    update_mouse(&mut mouse, &MouseEvent::Motion { x: 10, y: 20, xrel: 2, yrel: 3 });
    update_mouse(&mut mouse, &MouseEvent::Motion { x: 12, y: 21, xrel: 2, yrel: 1 });
    update_mouse(&mut mouse, &MouseEvent::Wheel { x: 0, y: -1 });
    update_mouse(&mut mouse, &MouseEvent::Other);
    assert_eq!(
        mouse,
        MouseData { x: 12, y: 21, xrel: 4, yrel: 4, wheel_xrel: 0, wheel_yrel: -1 }
    );
}

#[test]
fn ecs_error_messages() {
    assert_eq!(
        EcsError::InvalidOperation(String::from("no scene")).message(),
        "invalid operation: no scene"
    );
    assert_eq!(EcsError::ObjectIsDestroyed.message(), "object is destroyed");
    assert_eq!(EcsError::OutOfBounds.message(), "operation was out of bounds");
    assert_eq!(EcsError::OutOfMemory.message(), "out of memory");
    assert_eq!(EcsError::TypeDoesNotMatchId.message(), "type does not match the id");
}

#[test]
fn mesh_component_tracks_its_game_object() {
    let handle = GameObjectHandle { index: 5, generation: 2 };
    let mut component = MeshComponent::create(handle);
    assert_eq!(component.game_object(), handle);
    assert!(!component.game_object().is_null());
    component.destroy();
    assert_eq!(component.game_object(), handle);

    let fallback = MeshComponent::default();
    assert!(fallback.game_object().is_null());
    assert_eq!(GameObjectHandle::null(), fallback.game_object());
}
