use sphere_ui_components::editor_backend::{
    host_region_wait, native_editor_available, EditorBackendKind, HostRegionReadiness, HostRegionWait,
    LocalEditorCompatibility, PluginEditorPresentationMode,
};

#[test]
fn each_platform_names_its_own_backend() {
    assert_eq!(EditorBackendKind::current("windows"), EditorBackendKind::RemoteNativeWindow);
    assert_eq!(EditorBackendKind::current("macos"), EditorBackendKind::HostOwnedNativeWindow);
    assert_eq!(EditorBackendKind::current("linux"), EditorBackendKind::HostOwnedNativeWindow);
    assert_eq!(EditorBackendKind::current("freebsd"), EditorBackendKind::Unimplemented);
    assert_eq!(EditorBackendKind::current(""), EditorBackendKind::Unimplemented);
}

#[test]
fn every_platform_that_ships_has_an_editor() {
    for os in ["windows", "macos", "linux"] {
        assert!(native_editor_available(os));
    }
}

#[test]
fn only_the_remote_backend_waits_for_a_foreign_handle() {
    assert!(EditorBackendKind::RemoteNativeWindow.waits_for_foreign_parent_handle());
    assert!(!EditorBackendKind::HostOwnedNativeWindow.waits_for_foreign_parent_handle());
    assert!(!EditorBackendKind::LocalNativeView.waits_for_foreign_parent_handle());
    assert!(!EditorBackendKind::Unimplemented.waits_for_foreign_parent_handle());
}

#[test]
fn only_a_host_owned_editor_lives_outside_this_window() {
    assert!(EditorBackendKind::RemoteNativeWindow.embeds_in_editor_window());
    assert!(EditorBackendKind::LocalNativeView.embeds_in_editor_window());
    assert!(!EditorBackendKind::HostOwnedNativeWindow.embeds_in_editor_window());
}

#[test]
fn presentation_follows_where_the_view_actually_is() {
    assert_eq!(
        EditorBackendKind::HostOwnedNativeWindow.presentation(),
        PluginEditorPresentationMode::DetachedNativeWindow
    );
    assert_eq!(
        EditorBackendKind::RemoteNativeWindow.presentation(),
        PluginEditorPresentationMode::ChildHwndEmbed
    );
}

#[test]
fn readiness_is_named_per_backend_not_shared() {
    assert_eq!(
        EditorBackendKind::RemoteNativeWindow.readiness(),
        HostRegionReadiness::NativeParentHandle
    );
    assert_eq!(
        EditorBackendKind::HostOwnedNativeWindow.readiness(),
        HostRegionReadiness::HostProcessEditorWindow
    );
    assert_eq!(
        EditorBackendKind::LocalNativeView.readiness(),
        HostRegionReadiness::AppKitHostView
    );
    for backend in [
        EditorBackendKind::HostOwnedNativeWindow,
        EditorBackendKind::LocalNativeView,
    ] {
        assert!(!backend.readiness().label().contains("parent handle"));
    }
}

#[test]
fn the_backends_that_ship_wait_and_the_unbuilt_ones_report() {
    assert_eq!(
        host_region_wait(EditorBackendKind::RemoteNativeWindow, true),
        HostRegionWait::KeepWaiting
    );
    assert_eq!(
        host_region_wait(EditorBackendKind::RemoteNativeWindow, false),
        HostRegionWait::KeepWaiting
    );
    assert_eq!(
        host_region_wait(EditorBackendKind::HostOwnedNativeWindow, false),
        HostRegionWait::KeepWaiting
    );
    assert_eq!(
        host_region_wait(EditorBackendKind::LocalNativeView, false),
        HostRegionWait::GiveUp(LocalEditorCompatibility::BackendNotImplemented)
    );
    assert_eq!(
        host_region_wait(EditorBackendKind::LocalNativeView, true),
        HostRegionWait::KeepWaiting
    );
    assert_eq!(
        host_region_wait(EditorBackendKind::Unimplemented, true),
        HostRegionWait::GiveUp(LocalEditorCompatibility::BackendNotImplemented)
    );
}

#[test]
fn every_refusal_carries_a_reason_and_a_log_tag() {
    for reason in [
        LocalEditorCompatibility::BackendNotImplemented,
        LocalEditorCompatibility::UnsupportedSplitController,
        LocalEditorCompatibility::ControllerCreationFailed,
        LocalEditorCompatibility::ViewUnsupported,
        LocalEditorCompatibility::ViewAttachFailed,
    ] {
        assert!(!reason.is_supported());
        assert!(!reason.message().is_empty(), "{reason:?} has no message");
        assert!(!reason.log_reason().is_empty());
        assert!(
            !reason.message().contains("audio"),
            "{reason:?} speculates about DSP state"
        );
    }
    assert!(LocalEditorCompatibility::Supported.is_supported());
    assert!(LocalEditorCompatibility::Supported.message().is_empty());
}

#[test]
fn native_editor_availability_follows_the_backend() {
    for os in ["windows", "macos", "linux", "freebsd", "wasm", ""] {
        assert_eq!(
            native_editor_available(os),
            !matches!(EditorBackendKind::current(os), EditorBackendKind::Unimplemented)
        );
    }
}
