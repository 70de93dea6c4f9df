//! How each platform puts a plug-in's own view in front of the user, and what
//! the editor window therefore waits for before it can attach.

use crate::text::same_text;
use vstd::prelude::*;

verus! {

/// How an attached editor is presented.
#[derive(Debug, Clone, Copy, PartialEq, Eq, Structural)]
pub enum PluginEditorPresentationMode {
    /// A child window inside the editor window.
    ChildHwndEmbed,
    /// A window of its own.
    DetachedNativeWindow,
}

/// How a plug-in's own view gets in front of the user.
#[derive(Debug, Clone, Copy, PartialEq, Eq, Structural)]
pub enum EditorBackendKind {
    /// Windows: the app makes a content child window and sends its handle to
    /// the plug-in host process, which attaches the view to it.
    RemoteNativeWindow,
    /// macOS and Linux: the host process opens a top-level window of its own.
    HostOwnedNativeWindow,
    /// The view is created and attached in this process.
    LocalNativeView,
    /// No implementation on this platform.
    Unimplemented,
}

/// The backend of a platform, by its name as a compilation target.
pub open spec fn backend_of(target_os: Seq<char>) -> EditorBackendKind {
    if target_os == "windows"@ {
        EditorBackendKind::RemoteNativeWindow
    } else if target_os == "macos"@ || target_os == "linux"@ {
        EditorBackendKind::HostOwnedNativeWindow
    } else {
        EditorBackendKind::Unimplemented
    }
}

impl EditorBackendKind {
    /// The backend that a build for `target_os` has.
    pub fn current(target_os: &str) -> (kind: EditorBackendKind)
        ensures
            kind == backend_of(target_os@),
    {
        if same_text(target_os, "windows") {
            EditorBackendKind::RemoteNativeWindow
        } else if same_text(target_os, "macos") || same_text(target_os, "linux") {
            EditorBackendKind::HostOwnedNativeWindow
        } else {
            EditorBackendKind::Unimplemented
        }
    }

    /// The backend waits for a parent handle from the windowing system.
    pub open spec fn needs_foreign_handle(self) -> bool {
        self == EditorBackendKind::RemoteNativeWindow
    }

    /// `true` when the backend waits for a native parent handle that the
    /// windowing system supplies.
    pub fn waits_for_foreign_parent_handle(self) -> (r: bool)
        ensures
            r == self.needs_foreign_handle(),
    {
        matches!(self, EditorBackendKind::RemoteNativeWindow)
    }

    /// The plug-in's view lives inside the editor window.
    pub open spec fn embeds(self) -> bool {
        self == EditorBackendKind::RemoteNativeWindow || self == EditorBackendKind::LocalNativeView
    }

    /// `true` when the plug-in's view lives inside the editor window.
    pub fn embeds_in_editor_window(self) -> (r: bool)
        ensures
            r == self.embeds(),
    {
        matches!(self, EditorBackendKind::RemoteNativeWindow | EditorBackendKind::LocalNativeView)
    }

    /// How an attached editor on this backend is presented.
    pub open spec fn spec_presentation(self) -> PluginEditorPresentationMode {
        match self {
            EditorBackendKind::HostOwnedNativeWindow => PluginEditorPresentationMode::DetachedNativeWindow,
            _ => PluginEditorPresentationMode::ChildHwndEmbed,
        }
    }

    /// How an attached editor on this backend is presented.
    pub fn presentation(self) -> (mode: PluginEditorPresentationMode)
        ensures
            mode == self.spec_presentation(),
    {
        match self {
            EditorBackendKind::HostOwnedNativeWindow => PluginEditorPresentationMode::DetachedNativeWindow,
            _ => PluginEditorPresentationMode::ChildHwndEmbed,
        }
    }

    /// What the editor window waits for before it can attach.
    pub open spec fn spec_readiness(self) -> HostRegionReadiness {
        match self {
            EditorBackendKind::RemoteNativeWindow => HostRegionReadiness::NativeParentHandle,
            EditorBackendKind::HostOwnedNativeWindow => HostRegionReadiness::HostProcessEditorWindow,
            EditorBackendKind::LocalNativeView => HostRegionReadiness::AppKitHostView,
            EditorBackendKind::Unimplemented => HostRegionReadiness::Nothing,
        }
    }

    /// What the editor window waits for before it can attach.
    pub fn readiness(self) -> (r: HostRegionReadiness)
        ensures
            r == self.spec_readiness(),
    {
        match self {
            EditorBackendKind::RemoteNativeWindow => HostRegionReadiness::NativeParentHandle,
            EditorBackendKind::HostOwnedNativeWindow => HostRegionReadiness::HostProcessEditorWindow,
            EditorBackendKind::LocalNativeView => HostRegionReadiness::AppKitHostView,
            EditorBackendKind::Unimplemented => HostRegionReadiness::Nothing,
        }
    }

    /// Name of the backend in logs.
    pub open spec fn spec_label(self) -> Seq<char> {
        match self {
            EditorBackendKind::RemoteNativeWindow => "remote native window"@,
            EditorBackendKind::HostOwnedNativeWindow => "host-owned native window"@,
            EditorBackendKind::LocalNativeView => "local native view"@,
            EditorBackendKind::Unimplemented => "unimplemented"@,
        }
    }

    /// Name of the backend in logs.
    pub fn label(self) -> (s: &'static str)
        ensures
            s@ == self.spec_label(),
    {
        match self {
            EditorBackendKind::RemoteNativeWindow => "remote native window",
            EditorBackendKind::HostOwnedNativeWindow => "host-owned native window",
            EditorBackendKind::LocalNativeView => "local native view",
            EditorBackendKind::Unimplemented => "unimplemented",
        }
    }
}

/// What a backend needs before a view can be attached.
#[derive(Debug, Clone, Copy, PartialEq, Eq, Structural)]
pub enum HostRegionReadiness {
    /// A native parent handle from the editor window.
    NativeParentHandle,
    /// The window that the host process opens for the view.
    HostProcessEditorWindow,
    /// A container view mounted in the editor window.
    AppKitHostView,
    /// Nothing: the platform has no path to attach at all.
    Nothing,
}

impl HostRegionReadiness {
    /// What is waited for, in words.
    pub open spec fn spec_label(self) -> Seq<char> {
        match self {
            HostRegionReadiness::NativeParentHandle => "native parent handle"@,
            HostRegionReadiness::HostProcessEditorWindow => "the host process's editor window"@,
            HostRegionReadiness::AppKitHostView => "AppKit host view"@,
            HostRegionReadiness::Nothing => "nothing (no editor backend on this platform)"@,
        }
    }

    /// What is waited for, in words.
    pub fn label(self) -> (s: &'static str)
        ensures
            s@ == self.spec_label(),
    {
        match self {
            HostRegionReadiness::NativeParentHandle => "native parent handle",
            HostRegionReadiness::HostProcessEditorWindow => "the host process's editor window",
            HostRegionReadiness::AppKitHostView => "AppKit host view",
            HostRegionReadiness::Nothing => "nothing (no editor backend on this platform)",
        }
    }
}

/// `true` once a view attached in this process works end to end. No platform
/// selects that backend for a plug-in that runs in the host process.
pub fn local_native_view_ready() -> (r: bool)
    ensures
        !r,
{
    false
}

/// A backend can put an editor in front of the user.
pub open spec fn backend_shows_editor(backend: EditorBackendKind) -> bool {
    backend == EditorBackendKind::RemoteNativeWindow || backend == EditorBackendKind::HostOwnedNativeWindow
}

/// `true` when a build for `target_os` can put a plug-in's editor in front of
/// the user at all.
pub fn native_editor_available(target_os: &str) -> (r: bool)
    ensures
        r == backend_shows_editor(backend_of(target_os@)),
{
    match EditorBackendKind::current(target_os) {
        EditorBackendKind::RemoteNativeWindow => true,
        EditorBackendKind::HostOwnedNativeWindow => true,
        EditorBackendKind::LocalNativeView => local_native_view_ready(),
        EditorBackendKind::Unimplemented => false,
    }
}

/// Why an editor in this process could not be embedded.
#[derive(Debug, Clone, Copy, PartialEq, Eq, Structural)]
pub enum LocalEditorCompatibility {
    /// The controller was created and the view attached.
    Supported,
    /// The path in this process is not built yet.
    BackendNotImplemented,
    /// The plug-in does not separate its processor from its controller.
    UnsupportedSplitController,
    /// The controller could not be created in this process.
    ControllerCreationFailed,
    /// The view refused the platform's view type.
    ViewUnsupported,
    /// Attaching the view failed.
    ViewAttachFailed,
}

impl LocalEditorCompatibility {
    /// `true` when the editor is embedded.
    pub fn is_supported(&self) -> (r: bool)
        ensures
            r == (*self == LocalEditorCompatibility::Supported),
    {
        matches!(*self, LocalEditorCompatibility::Supported)
    }

    /// One sentence for the editor shell.
    pub open spec fn spec_message(self) -> Seq<char> {
        match self {
            LocalEditorCompatibility::Supported => ""@,
            LocalEditorCompatibility::BackendNotImplemented =>
                "Plug-in editor windows are not available on this platform yet. Futureboard has no way to put this plug-in's own view on screen here."@,
            LocalEditorCompatibility::UnsupportedSplitController =>
                "This plug-in cannot show its editor in isolated mode on macOS: it does not separate its processor from its controller, so its window cannot be opened without loading a second copy of it."@,
            LocalEditorCompatibility::ControllerCreationFailed =>
                "This plug-in's editor controller could not be created."@,
            LocalEditorCompatibility::ViewUnsupported => "This plug-in does not offer a macOS (NSView) editor."@,
            LocalEditorCompatibility::ViewAttachFailed =>
                "This plug-in's editor could not be attached to its window."@,
        }
    }

    /// One sentence for the editor shell, always about the editor window.
    pub fn message(&self) -> (s: &'static str)
        ensures
            s@ == self.spec_message(),
    {
        match *self {
            LocalEditorCompatibility::Supported => "",
            LocalEditorCompatibility::BackendNotImplemented =>
                "Plug-in editor windows are not available on this platform yet. Futureboard has no way to put this plug-in's own view on screen here.",
            LocalEditorCompatibility::UnsupportedSplitController =>
                "This plug-in cannot show its editor in isolated mode on macOS: it does not separate its processor from its controller, so its window cannot be opened without loading a second copy of it.",
            LocalEditorCompatibility::ControllerCreationFailed =>
                "This plug-in's editor controller could not be created.",
            LocalEditorCompatibility::ViewUnsupported => "This plug-in does not offer a macOS (NSView) editor.",
            LocalEditorCompatibility::ViewAttachFailed =>
                "This plug-in's editor could not be attached to its window.",
        }
    }

    /// Short tag for logs.
    pub open spec fn spec_log_reason(self) -> Seq<char> {
        match self {
            LocalEditorCompatibility::Supported => "supported"@,
            LocalEditorCompatibility::BackendNotImplemented => "backend_not_implemented"@,
            LocalEditorCompatibility::UnsupportedSplitController => "unsupported_split_controller"@,
            LocalEditorCompatibility::ControllerCreationFailed => "controller_creation_failed"@,
            LocalEditorCompatibility::ViewUnsupported => "view_unsupported"@,
            LocalEditorCompatibility::ViewAttachFailed => "view_attach_failed"@,
        }
    }

    /// Short tag for logs.
    pub fn log_reason(&self) -> (s: &'static str)
        ensures
            s@ == self.spec_log_reason(),
    {
        match *self {
            LocalEditorCompatibility::Supported => "supported",
            LocalEditorCompatibility::BackendNotImplemented => "backend_not_implemented",
            LocalEditorCompatibility::UnsupportedSplitController => "unsupported_split_controller",
            LocalEditorCompatibility::ControllerCreationFailed => "controller_creation_failed",
            LocalEditorCompatibility::ViewUnsupported => "view_unsupported",
            LocalEditorCompatibility::ViewAttachFailed => "view_attach_failed",
        }
    }
}

/// What an unmet readiness condition means.
#[derive(Debug, Clone, Copy, PartialEq, Eq, Structural)]
pub enum HostRegionWait {
    /// Not ready yet; keep ticking.
    KeepWaiting,
    /// Never going to be ready; report it and stop.
    GiveUp(LocalEditorCompatibility),
}

/// What an unmet readiness condition means on a backend.
pub open spec fn wait_for(backend: EditorBackendKind, backend_ready: bool) -> HostRegionWait {
    if backend_shows_editor(backend) || (backend == EditorBackendKind::LocalNativeView && backend_ready) {
        HostRegionWait::KeepWaiting
    } else {
        HostRegionWait::GiveUp(LocalEditorCompatibility::BackendNotImplemented)
    }
}

/// Decides whether an unmet readiness condition is worth waiting through.
pub fn host_region_wait(backend: EditorBackendKind, backend_ready: bool) -> (w: HostRegionWait)
    ensures
        w == wait_for(backend, backend_ready),
{
    match backend {
        EditorBackendKind::RemoteNativeWindow => HostRegionWait::KeepWaiting,
        EditorBackendKind::HostOwnedNativeWindow => HostRegionWait::KeepWaiting,
        EditorBackendKind::LocalNativeView => if backend_ready {
            HostRegionWait::KeepWaiting
        } else {
            HostRegionWait::GiveUp(LocalEditorCompatibility::BackendNotImplemented)
        },
        EditorBackendKind::Unimplemented => HostRegionWait::GiveUp(LocalEditorCompatibility::BackendNotImplemented),
    }
}

/// No two backends wait for the same thing, and only the backend that embeds a
/// window of another process asks for a foreign handle.
pub proof fn law_readiness_is_named_per_backend(a: EditorBackendKind, b: EditorBackendKind)
    ensures
        a.spec_readiness() == b.spec_readiness() ==> a == b,
        a.needs_foreign_handle() == (a.spec_readiness() == HostRegionReadiness::NativeParentHandle),
        a.needs_foreign_handle() ==> a.embeds(),
{
}

/// A backend that can show an editor is never given up on, and an editor outside
/// the editor window is presented as a window of its own.
pub proof fn law_shipping_backends_wait(backend: EditorBackendKind, backend_ready: bool)
    ensures
        backend_shows_editor(backend) ==> wait_for(backend, backend_ready) == HostRegionWait::KeepWaiting,
        backend == EditorBackendKind::Unimplemented ==> wait_for(backend, backend_ready) is GiveUp,
        backend_shows_editor(backend) ==> (backend.embeds() == (backend.spec_presentation()
            == PluginEditorPresentationMode::ChildHwndEmbed)),
{
}

/// Every platform that the app ships on has an editor.
pub proof fn law_shipping_platforms_have_an_editor()
    ensures
        backend_shows_editor(backend_of("windows"@)),
        backend_shows_editor(backend_of("macos"@)),
        backend_shows_editor(backend_of("linux"@)),
{
}

/// Every refusal carries a message, and each reason has a log tag of its own.
pub proof fn law_refusals_are_named(a: LocalEditorCompatibility, b: LocalEditorCompatibility)
    ensures
        (a.spec_message().len() == 0) == (a == LocalEditorCompatibility::Supported),
        a.spec_log_reason() == b.spec_log_reason() ==> a == b,
        a.spec_log_reason().len() > 0,
{
    reveal_strlit("");
    reveal_strlit("Plug-in editor windows are not available on this platform yet. Futureboard has no way to put this plug-in's own view on screen here.");
    reveal_strlit("This plug-in cannot show its editor in isolated mode on macOS: it does not separate its processor from its controller, so its window cannot be opened without loading a second copy of it.");
    reveal_strlit("This plug-in's editor controller could not be created.");
    reveal_strlit("This plug-in does not offer a macOS (NSView) editor.");
    reveal_strlit("This plug-in's editor could not be attached to its window.");
    reveal_strlit("supported");
    reveal_strlit("backend_not_implemented");
    reveal_strlit("unsupported_split_controller");
    reveal_strlit("controller_creation_failed");
    reveal_strlit("view_unsupported");
    reveal_strlit("view_attach_failed");
    assert("supported"@.len() == 9);
    assert("backend_not_implemented"@.len() == 23);
    assert("unsupported_split_controller"@.len() == 28);
    assert("controller_creation_failed"@.len() == 26);
    assert("view_unsupported"@.len() == 16);
    assert("view_attach_failed"@.len() == 18);
}

} // verus!
