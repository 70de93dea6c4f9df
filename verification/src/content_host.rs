//! Content windows that hold a plug-in's own view, and who owns the keys that
//! land inside them.
//!
//! The window system is asked outside; its answers arrive here as plain values.

use crate::text::{begins_with, has_part, has_prefix, occurs_in, same_text};
use vstd::prelude::*;

verus! {

/// Window messages that the decisions here look at.
pub const WM_NULL: u32 = 0x0000;

pub const WM_SETFOCUS: u32 = 0x0007;

pub const WM_ERASEBKGND: u32 = 0x0014;

pub const WM_KEYDOWN: u32 = 0x0100;

pub const WM_SYSKEYDOWN: u32 = 0x0104;

pub const WM_LBUTTONDOWN: u32 = 0x0201;

pub const WM_RBUTTONDOWN: u32 = 0x0204;

pub const WM_MBUTTONDOWN: u32 = 0x0207;

pub const WM_XBUTTONDOWN: u32 = 0x020B;

pub const WM_PARENTNOTIFY: u32 = 0x0210;

/// Key code of the space bar.
pub const VK_SPACE: u64 = 0x20;

/// Bit of a key message that marks auto-repeat.
pub const KEY_REPEAT_BIT: u64 = 0x4000_0000;

/// Style bit of a child window.
pub const WS_CHILD: u64 = 0x4000_0000;

/// Hook code of a message that is being handled.
pub const HC_ACTION: i32 = 0;

/// Hook argument of a message that is being removed from its queue.
pub const PM_REMOVE: u64 = 1;

/// Longest walk from a window up to its host.
pub const OWNER_WALK_LIMIT: usize = 32;

/// A plug-in's own view can be embedded in the app's window on this platform.
pub open spec fn embedding_supported(target_os: Seq<char>) -> bool {
    target_os == "windows"@
}

/// `true` when a build for `target_os` can embed a plug-in's own view in the
/// app's window.
pub fn native_view_embedding_supported(target_os: &str) -> (r: bool)
    ensures
        r == embedding_supported(target_os@),
{
    same_text(target_os, "windows")
}

/// Embedding is supported exactly where the backend waits for a foreign handle.
pub proof fn law_embedding_follows_the_backend(target_os: Seq<char>)
    ensures
        embedding_supported(target_os) == crate::editor_backend::backend_of(target_os).needs_foreign_handle(),
{
}

/// Rectangle of a content window in physical pixels, relative to its parent.
#[derive(Debug, Clone, Copy, PartialEq, Eq, Structural)]
pub struct ContentRect {
    pub x: i32,
    pub y: i32,
    pub width: i32,
    pub height: i32,
}

/// A rectangle as the window system is asked for it: one pixel or more each way.
pub open spec fn at_least_a_pixel(rect: ContentRect) -> ContentRect {
    ContentRect {
        width: if rect.width < 1 {
            1
        } else {
            rect.width
        },
        height: if rect.height < 1 {
            1
        } else {
            rect.height
        },
        ..rect
    }
}

fn usable_rect(rect: ContentRect) -> (r: ContentRect)
    ensures
        r == at_least_a_pixel(rect),
{
    ContentRect {
        x: rect.x,
        y: rect.y,
        width: if rect.width < 1 {
            1
        } else {
            rect.width
        },
        height: if rect.height < 1 {
            1
        } else {
            rect.height
        },
    }
}

/// What a content window holds, which decides who owns the keys inside it.
#[derive(Debug, Clone, Copy, PartialEq, Eq, Structural)]
pub enum ContentHostKind {
    /// A plug-in's own native view.
    NativeView,
    /// A browser that shows a built-in plug-in's editor.
    WebView,
}

/// A class of windows that own a text caret.
pub open spec fn owns_caret(class: Seq<char>) -> bool {
    class == "edit"@ || class == "combobox"@ || begins_with(class, "richedit"@) || begins_with(class, "windows.ui.core"@)
        || occurs_in(class, "textbox"@)
}

/// `true` for lower-case window classes that own a text caret. Space belongs to
/// them, never to the transport.
pub fn is_text_entry_class(class: &str) -> (r: bool)
    ensures
        r == owns_caret(class@),
{
    same_text(class, "edit") || same_text(class, "combobox") || has_prefix(class, "richedit") || has_prefix(
        class,
        "windows.ui.core",
    ) || has_part(class, "textbox")
}

/// A message of the thread's queue.
#[derive(Debug, Clone, Copy, PartialEq, Eq, Structural)]
pub struct KeyMessage {
    pub message: u32,
    pub wparam: u64,
    pub lparam: u64,
}

/// Virtual key codes of the keys that modify Space.
pub const VK_CONTROL: i32 = 0x11;

pub const VK_MENU: i32 = 0x12;

pub const VK_LWIN: i32 = 0x5B;

pub const VK_RWIN: i32 = 0x5C;

/// Which of those keys are down.
#[derive(Debug, Clone, Copy, PartialEq, Eq, Structural)]
pub struct HeldKeys {
    pub control: bool,
    pub menu: bool,
    pub left_win: bool,
    pub right_win: bool,
}

impl HeldKeys {
    /// One of the keys is down.
    pub open spec fn any(self) -> bool {
        self.control || self.menu || self.left_win || self.right_win
    }
}

/// What becomes of a key on its way to a window.
#[derive(Debug, Clone, Copy, PartialEq, Eq, Structural)]
pub enum KeyVerdict {
    /// Not a key press at all.
    NotAKeyPress,
    /// A key other than Space.
    OtherKey,
    /// Auto-repeat: one press is one toggle.
    Repeat,
    /// A modifier is held.
    ModifierHeld,
    /// The window does not belong to a plug-in view.
    OutsidePluginView,
    /// The browser knows whether a text field has focus, and decides.
    WebViewDecides,
    /// A text caret owns the key.
    CaretOwnsKey,
    /// The transport takes the key.
    Claimed,
}

/// What becomes of a key message, given what the window system says of it.
pub open spec fn verdict_on(
    msg: KeyMessage,
    held: HeldKeys,
    owner: Option<ContentHostKind>,
    caret_has_focus: bool,
) -> KeyVerdict {
    if msg.message != WM_KEYDOWN && msg.message != WM_SYSKEYDOWN {
        KeyVerdict::NotAKeyPress
    } else if msg.wparam != VK_SPACE {
        KeyVerdict::OtherKey
    } else if msg.lparam & KEY_REPEAT_BIT != 0 {
        KeyVerdict::Repeat
    } else if held.any() {
        KeyVerdict::ModifierHeld
    } else {
        match owner {
            None => KeyVerdict::OutsidePluginView,
            Some(ContentHostKind::WebView) => KeyVerdict::WebViewDecides,
            Some(ContentHostKind::NativeView) => if caret_has_focus {
                KeyVerdict::CaretOwnsKey
            } else {
                KeyVerdict::Claimed
            },
        }
    }
}

/// Decides whether a message is a bare, fresh Space aimed at an embedded plug-in
/// view. `focus_class` is the lower-case class of the window with the keyboard
/// focus, where there is one.
pub fn claims_transport(
    msg: KeyMessage,
    held: HeldKeys,
    owner: Option<ContentHostKind>,
    focus_class: Option<&str>,
) -> (verdict: KeyVerdict)
    ensures
        verdict == verdict_on(
            msg,
            held,
            owner,
            match focus_class {
                Some(class) => owns_caret(class@),
                None => false,
            },
        ),
{
    if msg.message != WM_KEYDOWN && msg.message != WM_SYSKEYDOWN {
        return KeyVerdict::NotAKeyPress;
    }
    if msg.wparam != VK_SPACE {
        return KeyVerdict::OtherKey;
    }
    if msg.lparam & KEY_REPEAT_BIT != 0 {
        return KeyVerdict::Repeat;
    }
    if held.control || held.menu || held.left_win || held.right_win {
        return KeyVerdict::ModifierHeld;
    }
    match owner {
        None => KeyVerdict::OutsidePluginView,
        Some(ContentHostKind::WebView) => KeyVerdict::WebViewDecides,
        Some(ContentHostKind::NativeView) => {
            let caret = match focus_class {
                Some(class) => is_text_entry_class(class),
                None => false,
            };
            if caret {
                KeyVerdict::CaretOwnsKey
            } else {
                KeyVerdict::Claimed
            }
        },
    }
}

impl KeyVerdict {
    /// The verdict in the keyboard trace; messages that are no fresh Space are
    /// not traced.
    pub open spec fn spec_label(self) -> Option<Seq<char>> {
        match self {
            KeyVerdict::NotAKeyPress | KeyVerdict::OtherKey | KeyVerdict::Repeat => None,
            KeyVerdict::ModifierHeld => Some("modifier held"@),
            KeyVerdict::OutsidePluginView => Some("not inside a plug-in view"@),
            KeyVerdict::WebViewDecides => Some("web view; CEF decides"@),
            KeyVerdict::CaretOwnsKey => Some("caret owns the key"@),
            KeyVerdict::Claimed => Some("claimed"@),
        }
    }

    /// The verdict in the keyboard trace, where it is traced.
    pub fn label(self) -> (s: Option<&'static str>)
        ensures
            match s {
                Some(t) => self.spec_label() == Some(t@),
                None => self.spec_label() is None,
            },
    {
        match self {
            KeyVerdict::NotAKeyPress => None,
            KeyVerdict::OtherKey => None,
            KeyVerdict::Repeat => None,
            KeyVerdict::ModifierHeld => Some("modifier held"),
            KeyVerdict::OutsidePluginView => Some("not inside a plug-in view"),
            KeyVerdict::WebViewDecides => Some("web view; CEF decides"),
            KeyVerdict::CaretOwnsKey => Some("caret owns the key"),
            KeyVerdict::Claimed => Some("claimed"),
        }
    }
}

/// Only a native plug-in view gives the key up, and never while a caret has it; the
/// key is a fresh Space that nothing modifies.
pub proof fn law_transport_never_takes_a_typed_space(
    msg: KeyMessage,
    held: HeldKeys,
    owner: Option<ContentHostKind>,
    caret_has_focus: bool,
)
    ensures
        verdict_on(msg, held, owner, caret_has_focus) == KeyVerdict::Claimed ==> !caret_has_focus && owner == Some(
            ContentHostKind::NativeView,
        ) && !held.any() && msg.wparam == VK_SPACE && msg.lparam & KEY_REPEAT_BIT == 0,
{
}

/// The message that the hook leaves in the queue: nothing in place of a claimed
/// press, else the message itself.
pub open spec fn message_left(code: i32, removal: u64, msg: KeyMessage, verdict: KeyVerdict) -> KeyMessage {
    if code == HC_ACTION && removal == PM_REMOVE && verdict == KeyVerdict::Claimed {
        KeyMessage { message: WM_NULL, wparam: 0, lparam: 0 }
    } else {
        msg
    }
}

/// What the message hook leaves of a message.
pub fn transport_key_hook(code: i32, removal: u64, msg: KeyMessage, verdict: KeyVerdict) -> (left: KeyMessage)
    ensures
        left == message_left(code, removal, msg, verdict),
{
    if code == HC_ACTION && removal == PM_REMOVE && verdict == KeyVerdict::Claimed {
        KeyMessage { message: WM_NULL, wparam: 0, lparam: 0 }
    } else {
        msg
    }
}

/// `true` when the way up from a window goes to its parent rather than to its
/// owner.
pub fn follows_parent(style: u64) -> (r: bool)
    ensures
        r == (style & WS_CHILD != 0),
{
    style & WS_CHILD != 0
}

/// First entry of a host.
pub open spec fn host_entry(hosts: Seq<(u64, ContentHostKind)>, hwnd: u64) -> Option<int>
    decreases hosts.len(),
{
    if hosts.len() == 0 {
        None
    } else {
        match host_entry(hosts.drop_last(), hwnd) {
            Some(i) => Some(i),
            None => if hosts.last().0 == hwnd {
                Some(hosts.len() - 1)
            } else {
                None
            },
        }
    }
}

proof fn lemma_host_entry(hosts: Seq<(u64, ContentHostKind)>, hwnd: u64, at: int)
    requires
        0 <= at <= hosts.len(),
        forall|k: int| 0 <= k < at ==> (#[trigger] hosts[k]).0 != hwnd,
        at < hosts.len() ==> hosts[at].0 == hwnd,
    ensures
        host_entry(hosts, hwnd) == (if at < hosts.len() {
            Some(at)
        } else {
            None
        }),
    decreases hosts.len(),
{
    if hosts.len() > 0 {
        let front = hosts.drop_last();
        assert(forall|k: int| 0 <= k < front.len() ==> front[k] == hosts[k]);
        if at < hosts.len() {
            lemma_host_entry(front, hwnd, at);
        } else {
            lemma_host_entry(front, hwnd, front.len() as int);
            assert(hosts[hosts.len() - 1].0 != hwnd);
        }
    }
}

/// The host reached from step `i` of a walk. The walk ends at nothing, at the
/// desktop, at a window that leads to itself, and after its longest length.
pub open spec fn host_on_walk(hosts: Seq<(u64, ContentHostKind)>, chain: Seq<u64>, desktop: u64, i: int) -> Option<
    ContentHostKind,
>
    decreases OWNER_WALK_LIMIT - i,
{
    if i < 0 || i >= OWNER_WALK_LIMIT || i >= chain.len() || chain[i] == 0 || chain[i] == desktop {
        None
    } else {
        match host_entry(hosts, chain[i]) {
            Some(k) => Some(hosts[k].1),
            None => if i + 1 < chain.len() && chain[i + 1] == chain[i] {
                None
            } else {
                host_on_walk(hosts, chain, desktop, i + 1)
            },
        }
    }
}

/// The live content hosts, and the message hook that serves them.
#[derive(Debug)]
pub struct HostRegistry {
    hosts: Vec<(u64, ContentHostKind)>,
    /// Raw handle of the installed hook, or zero.
    hook: u64,
}

impl HostRegistry {
    /// The registered hosts, oldest first.
    pub closed spec fn entries(self) -> Seq<(u64, ContentHostKind)> {
        self.hosts@
    }

    /// Raw handle of the installed hook, or zero.
    pub closed spec fn hook_handle(self) -> u64 {
        self.hook
    }

    /// No host, no hook.
    pub fn new() -> (r: HostRegistry)
        ensures
            r.entries() == Seq::<(u64, ContentHostKind)>::empty(),
            r.hook_handle() == 0,
    {
        HostRegistry { hosts: Vec::new(), hook: 0 }
    }

    /// Adds a host; `true` when a hook has to be installed for it.
    pub fn register_host(&mut self, hwnd: u64, kind: ContentHostKind) -> (needs_hook: bool)
        ensures
            final(self).entries() == old(self).entries().push((hwnd, kind)),
            final(self).hook_handle() == old(self).hook_handle(),
            needs_hook == (old(self).hook_handle() == 0),
    {
        self.hosts.push((hwnd, kind));
        self.hook == 0
    }

    /// Whether the hosts' keys are being watched.
    pub fn has_hook(&self) -> (r: bool)
        ensures
            r == (self.hook_handle() != 0),
    {
        self.hook != 0
    }

    /// Remembers the hook that was installed; zero where that failed.
    pub fn hook_installed(&mut self, hook: u64)
        ensures
            final(self).entries() == old(self).entries(),
            final(self).hook_handle() == hook,
    {
        self.hook = hook;
    }

    /// Removes the first entry of a host. With the last host gone the hook goes
    /// too: its handle is returned to be released, once.
    pub fn unregister_host(&mut self, hwnd: u64) -> (release: Option<u64>)
        ensures
            final(self).entries() == (match host_entry(old(self).entries(), hwnd) {
                Some(i) => old(self).entries().remove(i),
                None => old(self).entries(),
            }),
            final(self).entries().len() > 0 ==> release is None && final(self).hook_handle() == old(
                self,
            ).hook_handle(),
            final(self).entries().len() == 0 ==> final(self).hook_handle() == 0 && release == (if old(
                self,
            ).hook_handle() != 0 {
                Some(old(self).hook_handle())
            } else {
                None
            }),
    {
        let mut i: usize = 0;
        let n: usize = self.hosts.len();
        while i < n && self.hosts[i].0 != hwnd
            invariant
                i <= n,
                n == self.hosts@.len(),
                forall|k: int| 0 <= k < i ==> (#[trigger] self.hosts@[k]).0 != hwnd,
            decreases n - i,
        {
            i = i + 1;
        }
        proof {
            lemma_host_entry(self.hosts@, hwnd, i as int);
        }
        if i < n {
            self.hosts.remove(i);
        }
        if self.hosts.len() > 0 {
            return None;
        }
        let raw: u64 = self.hook;
        self.hook = 0;
        if raw != 0 {
            Some(raw)
        } else {
            None
        }
    }

    fn kind_of(&self, hwnd: u64) -> (r: Option<ContentHostKind>)
        ensures
            match host_entry(self.hosts@, hwnd) {
                Some(i) => r == Some(self.hosts@[i].1),
                None => r is None,
            },
    {
        let mut i: usize = 0;
        while i < self.hosts.len()
            invariant
                i <= self.hosts@.len(),
                forall|k: int| 0 <= k < i ==> (#[trigger] self.hosts@[k]).0 != hwnd,
            decreases self.hosts@.len() - i,
        {
            if self.hosts[i].0 == hwnd {
                proof {
                    lemma_host_entry(self.hosts@, hwnd, i as int);
                }
                return Some(self.hosts[i].1);
            }
            i = i + 1;
        }
        proof {
            lemma_host_entry(self.hosts@, hwnd, self.hosts@.len() as int);
        }
        None
    }

    /// The content host that a window belongs to. `chain` is the window followed
    /// by each next parent or owner.
    pub fn owning_host(&self, chain: &Vec<u64>, desktop: u64) -> (r: Option<ContentHostKind>)
        ensures
            r == host_on_walk(self.entries(), chain@, desktop, 0),
    {
        let mut i: usize = 0;
        while i < OWNER_WALK_LIMIT && i < chain.len()
            invariant
                i <= OWNER_WALK_LIMIT,
                i <= chain@.len(),
                host_on_walk(self.hosts@, chain@, desktop, 0) == host_on_walk(self.hosts@, chain@, desktop, i as int),
            decreases OWNER_WALK_LIMIT - i,
        {
            let hwnd: u64 = chain[i];
            if hwnd == 0 || hwnd == desktop {
                return None;
            }
            match self.kind_of(hwnd) {
                Some(kind) => {
                    return Some(kind);
                },
                None => {},
            }
            if i + 1 < chain.len() && chain[i + 1] == hwnd {
                return None;
            }
            i = i + 1;
        }
        None
    }
}

/// Without a registered host no window belongs to one.
pub proof fn law_no_host_owns_nothing(chain: Seq<u64>, desktop: u64, i: int)
    ensures
        host_on_walk(Seq::<(u64, ContentHostKind)>::empty(), chain, desktop, i) is None,
    decreases OWNER_WALK_LIMIT - i,
{
    if 0 <= i < OWNER_WALK_LIMIT {
        law_no_host_owns_nothing(chain, desktop, i + 1);
    }
}

/// What the content window does with a message.
#[derive(Debug, Clone, Copy, PartialEq, Eq, Structural)]
pub enum HostWindowAction {
    /// Give the keyboard focus to the embedded child, then handle the message
    /// as usual.
    FocusChildAndDefault,
    /// Give the keyboard focus to the embedded child; that is all.
    FocusChild,
    /// Fill the client area.
    FillBackground,
    /// Handle the message as usual.
    Default,
}

/// What the content window does with a message.
pub open spec fn host_window_action(message: u32, wparam: u64) -> HostWindowAction {
    let event = (wparam & 0xFFFF) as u32;
    if message == WM_PARENTNOTIFY && (event == WM_LBUTTONDOWN || event == WM_MBUTTONDOWN || event == WM_RBUTTONDOWN
        || event == WM_XBUTTONDOWN) {
        HostWindowAction::FocusChildAndDefault
    } else if message == WM_SETFOCUS {
        HostWindowAction::FocusChild
    } else if message == WM_ERASEBKGND {
        HostWindowAction::FillBackground
    } else {
        HostWindowAction::Default
    }
}

/// Decides what the content window does with a message.
pub fn content_host_wndproc(message: u32, wparam: u64) -> (action: HostWindowAction)
    ensures
        action == host_window_action(message, wparam),
{
    if message == WM_PARENTNOTIFY {
        let event: u32 = (wparam & 0xFFFF) as u32;
        if event == WM_LBUTTONDOWN || event == WM_MBUTTONDOWN || event == WM_RBUTTONDOWN || event == WM_XBUTTONDOWN {
            return HostWindowAction::FocusChildAndDefault;
        }
        return HostWindowAction::Default;
    }
    if message == WM_SETFOCUS {
        return HostWindowAction::FocusChild;
    }
    if message == WM_ERASEBKGND {
        return HostWindowAction::FillBackground;
    }
    HostWindowAction::Default
}

/// Fill colour of the uncovered part of a content window: black, or magenta
/// while views are traced.
pub fn host_fill_color(debug: bool) -> (color: u32)
    ensures
        color == (if debug {
            0x00FF00FFu32
        } else {
            0u32
        }),
{
    if debug {
        0x00FF00FF
    } else {
        0
    }
}

/// Where an owned popup goes.
#[derive(Debug, Clone, Copy, PartialEq, Eq, Structural)]
pub struct PopupPlacement {
    pub popup_hwnd: u64,
    pub owner_hwnd: u64,
    pub rect: ContentRect,
}

/// Decides where a popup owned by another window goes; `None` when either handle
/// is not a live window, or both are one window.
pub fn place_owned_popup(
    popup_hwnd: u64,
    owner_hwnd: u64,
    rect: ContentRect,
    popup_is_window: bool,
    owner_is_window: bool,
) -> (r: Option<PopupPlacement>)
    ensures
        r == (if popup_hwnd == 0 || owner_hwnd == 0 || popup_hwnd == owner_hwnd || !popup_is_window
            || !owner_is_window {
            None
        } else {
            Some(PopupPlacement { popup_hwnd, owner_hwnd, rect: at_least_a_pixel(rect) })
        }),
{
    if popup_hwnd == 0 || owner_hwnd == 0 || popup_hwnd == owner_hwnd {
        return None;
    }
    if !popup_is_window || !owner_is_window {
        return None;
    }
    Some(PopupPlacement { popup_hwnd, owner_hwnd, rect: usable_rect(rect) })
}

/// What the window system answered to a request for a window.
#[derive(Debug, Clone, Copy, PartialEq, Eq, Structural)]
pub enum WindowReply {
    /// The platform has no such windows.
    Unsupported,
    /// The parent is not a window.
    NotAWindow,
    /// The window could not be created.
    Failed,
    /// The window, by its handle.
    Created(u64),
}

/// A content window under a top window of the app. Its handle travels to the
/// host process.
#[derive(Debug, Clone, Copy, PartialEq, Eq, Structural)]
pub struct ContentChildHwnd {
    top_hwnd: u64,
    content_hwnd: u64,
}

impl ContentChildHwnd {
    /// Handle of the top window.
    pub closed spec fn top(self) -> u64 {
        self.top_hwnd
    }

    /// Handle of the content window.
    pub closed spec fn content(self) -> u64 {
        self.content_hwnd
    }

    /// A content window hangs under another window than itself.
    pub open spec fn valid(self) -> bool {
        self.top() != 0 && self.content() != self.top()
    }

    /// What to ask the window system for; nothing without a top window.
    pub fn request(top_hwnd: u64, rect: ContentRect) -> (r: Option<ContentRect>)
        ensures
            r == (if top_hwnd == 0 {
                None
            } else {
                Some(at_least_a_pixel(rect))
            }),
    {
        if top_hwnd == 0 {
            None
        } else {
            Some(usable_rect(rect))
        }
    }

    /// Takes the window system's reply to a request for a content window that
    /// holds a plug-in's own view.
    pub fn create(top_hwnd: u64, reply: WindowReply, registry: &mut HostRegistry) -> (r: Option<ContentChildHwnd>)
        ensures
            child_created(ContentHostKind::NativeView, top_hwnd, reply, *old(registry), *final(registry), r),
    {
        ContentChildHwnd::create_for(ContentHostKind::NativeView, top_hwnd, reply, registry)
    }

    /// As [`Self::create`], saying what the window will hold.
    pub fn create_for(
        kind: ContentHostKind,
        top_hwnd: u64,
        reply: WindowReply,
        registry: &mut HostRegistry,
    ) -> (r: Option<ContentChildHwnd>)
        ensures
            child_created(kind, top_hwnd, reply, *old(registry), *final(registry), r),
    {
        if top_hwnd == 0 {
            return None;
        }
        match reply {
            WindowReply::Created(content_hwnd) => {
                if content_hwnd == top_hwnd {
                    return None;
                }
                registry.register_host(content_hwnd, kind);
                Some(ContentChildHwnd { top_hwnd, content_hwnd })
            },
            _ => None,
        }
    }

    /// The window that has to be destroyed again because it is the top window.
    pub fn misplaced(top_hwnd: u64, reply: WindowReply) -> (r: Option<u64>)
        ensures
            r == (if reply == WindowReply::Created(top_hwnd) {
                Some(top_hwnd)
            } else {
                None
            }),
    {
        match reply {
            WindowReply::Created(content_hwnd) => if content_hwnd == top_hwnd {
                Some(content_hwnd)
            } else {
                None
            },
            _ => None,
        }
    }

    /// Handle of the content window, as it is passed to the host process.
    pub fn hwnd(&self) -> (h: u64)
        ensures
            h == self.content(),
    {
        self.content_hwnd
    }

    /// Handle of the top window.
    pub fn top_hwnd(&self) -> (h: u64)
        ensures
            h == self.top(),
    {
        self.top_hwnd
    }

    /// The window to move and the rectangle to move it to.
    pub fn set_bounds(&self, rect: ContentRect) -> (r: (u64, ContentRect))
        ensures
            r == (self.content(), at_least_a_pixel(rect)),
    {
        (self.content_hwnd, usable_rect(rect))
    }

    /// `true` while the content window is among the live windows.
    pub fn is_valid(&self, live: &Vec<u64>) -> (r: bool)
        ensures
            r == live@.contains(self.content()),
    {
        lists(live, self.content_hwnd)
    }

    /// Takes the host out of the registry. Returns the hook to release, and the
    /// window to destroy if it still is one.
    pub fn close(self, live: &Vec<u64>, registry: &mut HostRegistry) -> (r: (Option<u64>, Option<u64>))
        ensures
            final(registry).entries() == (match host_entry(old(registry).entries(), self.content()) {
                Some(i) => old(registry).entries().remove(i),
                None => old(registry).entries(),
            }),
            r.0 is Some <==> final(registry).entries().len() == 0 && old(registry).hook_handle() != 0,
            r.0 is Some ==> r.0 == Some(old(registry).hook_handle()),
            r.1 == (if self.content() != 0 && live@.contains(self.content()) {
                Some(self.content())
            } else {
                None
            }),
    {
        let hook = registry.unregister_host(self.content_hwnd);
        let window = if self.content_hwnd != 0 && lists(live, self.content_hwnd) {
            Some(self.content_hwnd)
        } else {
            None
        };
        (hook, window)
    }
}

/// The outcome of a request for a content window.
pub open spec fn child_created(
    kind: ContentHostKind,
    top_hwnd: u64,
    reply: WindowReply,
    before: HostRegistry,
    after: HostRegistry,
    r: Option<ContentChildHwnd>,
) -> bool {
    if top_hwnd != 0 && reply is Created && reply->Created_0 != top_hwnd {
        &&& r is Some && r->0.top() == top_hwnd && r->0.content() == reply->Created_0
        &&& after.entries() == before.entries().push((reply->Created_0, kind))
        &&& after.hook_handle() == before.hook_handle()
    } else {
        r is None && after == before
    }
}

fn lists(live: &Vec<u64>, hwnd: u64) -> (r: bool)
    ensures
        r == live@.contains(hwnd),
{
    let mut i: usize = 0;
    while i < live.len()
        invariant
            i <= live@.len(),
            forall|k: int| 0 <= k < i ==> live@[k] != hwnd,
        decreases live@.len() - i,
    {
        if live[i] == hwnd {
            assert(live@[i as int] == hwnd);
            return true;
        }
        i = i + 1;
    }
    false
}

/// A top window that is never shown.
#[derive(Debug, Clone, Copy, PartialEq, Eq, Structural)]
pub struct HiddenHostWindow {
    hwnd: u64,
}

impl HiddenHostWindow {
    /// Handle of the window.
    pub closed spec fn handle(self) -> u64 {
        self.hwnd
    }

    /// Takes the window system's reply to a request for a hidden window.
    pub fn create(reply: WindowReply) -> (r: Option<HiddenHostWindow>)
        ensures
            r is Some <==> reply is Created,
            r is Some ==> r->0.handle() == reply->Created_0,
    {
        match reply {
            WindowReply::Created(hwnd) => Some(HiddenHostWindow { hwnd }),
            _ => None,
        }
    }

    /// Handle of the window.
    pub fn hwnd(&self) -> (h: u64)
        ensures
            h == self.handle(),
    {
        self.hwnd
    }

    /// The window to destroy, if it still is one.
    pub fn close(self, live: &Vec<u64>) -> (r: Option<u64>)
        ensures
            r == (if self.handle() != 0 && live@.contains(self.handle()) {
                Some(self.handle())
            } else {
                None
            }),
    {
        if self.hwnd != 0 && lists(live, self.hwnd) {
            Some(self.hwnd)
        } else {
            None
        }
    }
}

/// A content window that is opened and closed again leaves the registry as it
/// was, but for the hook that its last host takes with it.
pub proof fn law_closing_undoes_opening(entries: Seq<(u64, ContentHostKind)>, hwnd: u64, kind: ContentHostKind)
    requires
        host_entry(entries, hwnd) is None,
    ensures
        host_entry(entries.push((hwnd, kind)), hwnd) == Some(entries.len() as int),
        entries.push((hwnd, kind)).remove(entries.len() as int) == entries,
{
    let more = entries.push((hwnd, kind));
    assert(more.drop_last() =~= entries);
    assert(more.remove(entries.len() as int) =~= entries);
}

} // verus!
