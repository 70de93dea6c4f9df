use sphere_ui_components::content_host::{
    claims_transport, content_host_wndproc, follows_parent, host_fill_color, is_text_entry_class,
    native_view_embedding_supported, place_owned_popup, transport_key_hook, ContentChildHwnd, ContentHostKind,
    ContentRect, HeldKeys, HiddenHostWindow, HostRegistry, HostWindowAction, KeyMessage, KeyVerdict, WindowReply, HC_ACTION,
    KEY_REPEAT_BIT, PM_REMOVE, VK_SPACE, WM_ERASEBKGND, WM_KEYDOWN, WM_LBUTTONDOWN, WM_NULL, WM_PARENTNOTIFY,
    WM_SETFOCUS,
};
use sphere_ui_components::editor_chrome::{
    chrome_button, packed, popup_rect, preset_menu_size, render_chrome_tools, render_preset_menu, render_tab_strip,
    Colour, ControlState, MenuMetrics, PluginEditorAction, PluginEditorChrome, PluginEditorTab, PresetList,
    PresetMenuWindow,
};

fn px(p: f64) -> i64 {
    (p * 1_000_000.0).round() as i64
}

fn space() -> KeyMessage {
    KeyMessage { message: WM_KEYDOWN, wparam: VK_SPACE, lparam: 0 }
}

const NOTHING_HELD: HeldKeys = HeldKeys { control: false, menu: false, left_win: false, right_win: false };

#[test]
fn space_in_a_native_view_is_the_transports() {
    let native = Some(ContentHostKind::NativeView);
    assert_eq!(claims_transport(space(), NOTHING_HELD, native, None), KeyVerdict::Claimed);
    assert_eq!(claims_transport(space(), NOTHING_HELD, native, Some("edit")), KeyVerdict::CaretOwnsKey);
    let alt = HeldKeys { menu: true, ..NOTHING_HELD };
    assert_eq!(claims_transport(space(), alt, native, None), KeyVerdict::ModifierHeld);
    assert_eq!(claims_transport(space(), NOTHING_HELD, None, None), KeyVerdict::OutsidePluginView);
    assert_eq!(
        claims_transport(space(), NOTHING_HELD, Some(ContentHostKind::WebView), None),
        KeyVerdict::WebViewDecides
    );
    let repeat = KeyMessage { lparam: KEY_REPEAT_BIT, ..space() };
    assert_eq!(claims_transport(repeat, NOTHING_HELD, native, None), KeyVerdict::Repeat);
    let other = KeyMessage { wparam: 0x41, ..space() };
    assert_eq!(claims_transport(other, NOTHING_HELD, native, None), KeyVerdict::OtherKey);
    let paint = KeyMessage { message: WM_ERASEBKGND, ..space() };
    assert_eq!(claims_transport(paint, NOTHING_HELD, native, None), KeyVerdict::NotAKeyPress);
    assert_eq!(KeyVerdict::Claimed.label(), Some("claimed"));
    assert_eq!(KeyVerdict::Repeat.label(), None);
}

#[test]
fn a_claimed_key_is_taken_out_of_the_queue() {
    let left = transport_key_hook(HC_ACTION, PM_REMOVE, space(), KeyVerdict::Claimed);
    assert_eq!(left.message, WM_NULL);
    let peeked = transport_key_hook(HC_ACTION, 0, space(), KeyVerdict::Claimed);
    assert_eq!(peeked, space());
    let passed = transport_key_hook(HC_ACTION, PM_REMOVE, space(), KeyVerdict::CaretOwnsKey);
    assert_eq!(passed, space());
}

#[test]
fn text_classes_own_the_caret() {
    for class in ["edit", "combobox", "richedit50w", "windows.ui.core.corewindow", "mytextboxclass"] {
        assert!(is_text_entry_class(class), "{class}");
    }
    for class in ["button", "static", "juce_window", ""] {
        assert!(!is_text_entry_class(class), "{class}");
    }
    assert!(follows_parent(0x4000_0000) && !follows_parent(0x8000_0000));
}

#[test]
fn the_hook_lives_as_long_as_there_are_hosts() {
    let mut registry = HostRegistry::new();
    assert!(registry.register_host(10, ContentHostKind::NativeView));
    assert!(!registry.has_hook());
    registry.hook_installed(99);
    assert!(registry.has_hook());
    assert!(!registry.register_host(11, ContentHostKind::WebView));
    assert_eq!(registry.owning_host(&vec![5, 11, 1], 1), Some(ContentHostKind::WebView));
    assert_eq!(registry.owning_host(&vec![5, 1], 1), None);
    assert_eq!(registry.unregister_host(10), None);
    assert_eq!(registry.unregister_host(11), Some(99));
}

#[test]
fn a_content_host_gives_its_focus_to_the_plugin() {
    assert_eq!(content_host_wndproc(WM_SETFOCUS, 0), HostWindowAction::FocusChild);
    assert_eq!(
        content_host_wndproc(WM_PARENTNOTIFY, WM_LBUTTONDOWN as u64),
        HostWindowAction::FocusChildAndDefault
    );
    assert_eq!(content_host_wndproc(WM_PARENTNOTIFY, 1), HostWindowAction::Default);
    assert_eq!(content_host_wndproc(WM_ERASEBKGND, 0), HostWindowAction::FillBackground);
    assert_eq!(content_host_wndproc(0x9999, 0), HostWindowAction::Default);
    assert_ne!(host_fill_color(true), host_fill_color(false));
}

#[test]
fn a_content_window_is_created_placed_and_closed() {
    assert!(native_view_embedding_supported("windows") && !native_view_embedding_supported("linux"));
    let rect = ContentRect { x: 1, y: 2, width: 0, height: -5 };
    assert_eq!(ContentChildHwnd::request(0, rect), None);
    assert_eq!(ContentChildHwnd::request(7, rect), Some(ContentRect { x: 1, y: 2, width: 1, height: 1 }));
    let mut registry = HostRegistry::new();
    assert!(ContentChildHwnd::create(7, WindowReply::Failed, &mut registry).is_none());
    let child = ContentChildHwnd::create(7, WindowReply::Created(8), &mut registry).expect("a window");
    assert_eq!((child.top_hwnd(), child.hwnd()), (7, 8));
    assert_eq!(child.set_bounds(rect), (8, ContentRect { x: 1, y: 2, width: 1, height: 1 }));
    assert!(child.is_valid(&vec![7, 8]) && !child.is_valid(&vec![7]));
    registry.hook_installed(5);
    assert_eq!(child.close(&vec![7, 8], &mut registry), (Some(5), Some(8)));
    let hidden = HiddenHostWindow::create(WindowReply::Created(3)).expect("a window");
    assert_eq!(hidden.hwnd(), 3);
    assert_eq!(hidden.close(&vec![]), None);
    assert!(HiddenHostWindow::create(WindowReply::Unsupported).is_none());
}

#[test]
fn a_popup_needs_both_windows() {
    let rect = ContentRect { x: 1, y: 2, width: 30, height: 40 };
    assert!(place_owned_popup(1, 2, rect, true, false).is_none());
    assert!(place_owned_popup(1, 2, rect, false, true).is_none());
    let placed = place_owned_popup(1, 2, rect, true, true).expect("a place");
    assert_eq!((placed.popup_hwnd, placed.owner_hwnd, placed.rect), (1, 2, rect));
}

fn chrome() -> PluginEditorChrome {
    PluginEditorChrome {
        plugin_name: "Reverb".to_string(),
        track_name: "Vox".to_string(),
        insert_number: 2,
        active: true,
        latency_samples: 480,
        sample_rate: 48_000,
        cpu_load: Some(12_340_000),
        presets: vec!["Hall".to_string(), "Room".to_string(), "Plate".to_string()],
        preset_index: Some(1),
    }
}

#[test]
fn the_chrome_has_its_labels() {
    let mut c = chrome();
    assert_eq!(c.window_title(), "Reverb - Insert 2");
    assert_eq!(c.preset_label(), "Room");
    assert_eq!(c.latency_label(), "10.0 ms");
    assert_eq!(c.cpu_label(), "1%");
    c.cpu_load = None;
    assert_eq!(c.cpu_label(), "—");
    c.preset_index = None;
    assert_eq!(c.preset_label(), "Unsaved");
    c.presets.clear();
    assert_eq!(c.preset_label(), "No presets");
    c.sample_rate = 0;
    assert_eq!(c.latency_label(), "480 smp");
    c.latency_samples = 0;
    assert_eq!(c.latency_label(), "0 smp");
    c.insert_number = 0;
    assert_eq!(c.window_title(), "Reverb");
    c.plugin_name.clear();
    assert_eq!(c.window_title(), "Plugin");
}

#[test]
fn the_preset_list_marks_its_rows() {
    match render_preset_menu(&chrome(), Some(2)) {
        PresetList::Rows(rows) => {
            assert_eq!(rows.iter().map(|r| r.selected).collect::<Vec<bool>>(), vec![false, true, false]);
        }
        PresetList::Note(_) => panic!("no rows"),
    }
    let mut none = chrome();
    none.presets.clear();
    assert!(matches!(render_preset_menu(&none, None), PresetList::Note(_)));
}

#[test]
fn the_highlight_wraps_round_the_list() {
    let mut m = PresetMenuWindow::new(chrome());
    assert_eq!(m.highlighted, Some(1));
    m.move_highlight(1);
    m.move_highlight(1);
    assert_eq!(m.highlighted, Some(0));
    m.move_highlight(-1);
    assert_eq!(m.highlighted, Some(2));
    let reply = m.on_key("enter");
    assert!(reply.used && reply.close);
    assert!(reply.actions.iter().any(|a| matches!(a, PluginEditorAction::SelectPreset(2))));
    let away = m.on_key("escape");
    assert!(away.close && !away.actions.iter().any(|a| matches!(a, PluginEditorAction::SelectPreset(_))));
    assert!(!m.on_key("q").used);
}

#[test]
fn a_menu_that_loses_its_window_closes() {
    let mut m = PresetMenuWindow::new(chrome());
    assert!(!m.activation_changed(false).close);
    assert!(!m.activation_changed(true).close);
    let lost = m.activation_changed(false);
    assert!(lost.close && lost.used);
    assert!(m.claim_focus());
    assert!(!m.claim_focus());
}

#[test]
fn tabs_and_tools_carry_their_actions() {
    let tabs = vec![
        PluginEditorTab { insert_id: "a".to_string(), display_name: "EQ".to_string(), insert_number: 1 },
        PluginEditorTab { insert_id: "b".to_string(), display_name: "Comp".to_string(), insert_number: 2 },
    ];
    let strip = render_tab_strip(&tabs, "b");
    assert_eq!(strip.iter().map(|t| t.selected).collect::<Vec<bool>>(), vec![false, true]);
    assert!(matches!(strip[0].select(), PluginEditorAction::SelectTab(id) if id == "a"));
    assert!(matches!(strip[1].close(), PluginEditorAction::CloseTab(id) if id == "b"));
    let tools = render_chrome_tools(&chrome(), false);
    assert!(matches!(tools.on_power, PluginEditorAction::SetActive(false)));
    assert!(matches!(tools.on_next, PluginEditorAction::StepPreset(1)));
    assert!(matches!(tools.on_menu, PluginEditorAction::TogglePresetMenu(true)));
    assert_eq!(chrome_button(false, true), ControlState::Disabled);
    assert_eq!(chrome_button(true, true), ControlState::Active);
    assert_eq!(chrome_button(true, false), ControlState::Plain);
}

#[test]
fn a_menu_has_room_for_its_rows_up_to_a_limit() {
    let m = MenuMetrics { width: px(200.0), row_h: px(20.0), pad: px(4.0), gap: px(1.0) };
    let (w, one) = preset_menu_size(1, &m);
    assert_eq!(w, px(200.0));
    assert_eq!(preset_menu_size(0, &m).1, one);
    assert!(preset_menu_size(16, &m).1 > preset_menu_size(15, &m).1);
    assert_eq!(preset_menu_size(17, &m).1, preset_menu_size(16, &m).1);
    let r = popup_rect(px(10.0), px(20.0), px(30.0), px(40.0), 1_500_000);
    assert_eq!((r.x, r.y, r.width, r.height), (15, 30, 45, 60));
}

#[test]
fn a_colour_is_packed_by_bytes() {
    let one = 1_000_000_000;
    assert_eq!(packed(&Colour { r: one, g: 0, b: 0, a: one }) & 0xff00_00ff, 0xff00_00ff);
    assert_eq!(packed(&Colour { r: 0, g: 0, b: 0, a: 0 }), 0);
    assert_eq!(packed(&Colour { r: one, g: one, b: one, a: one }), 0xffff_ffff);
}
