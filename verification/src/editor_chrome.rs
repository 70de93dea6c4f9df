//! The strip above a plug-in's editor: tabs, the insert's controls, its
//! presets, and what it costs.

use crate::fixed::{clamp_i64, clamp_to, lemma_nearest_bound, nearest, nearest_div, PX, VALUE_ONE, WINDOW_LIMIT};
use crate::labels::{half_even, round_half_even};
use crate::text::{digit_char, natural_text, push_natural, same_text};
use vstd::prelude::*;

verus! {

/// One plug-in open in a channel's editor window.
#[derive(Debug)]
pub struct PluginEditorTab {
    /// Insert slot that the plug-in is in.
    pub insert_id: String,
    pub display_name: String,
    /// Place of the slot on the channel, from one.
    pub insert_number: usize,
}

/// Something that the strip asks the studio to do.
#[derive(Debug)]
pub enum PluginEditorAction {
    /// Turns the insert's processing on or off.
    SetActive(bool),
    /// Moves through the presets, wrapping.
    StepPreset(i32),
    /// Stores the plug-in's state as a new preset.
    SavePreset,
    /// Loads the preset at a place.
    SelectPreset(usize),
    /// Opens or closes the list of presets.
    TogglePresetMenu(bool),
    /// Brings another plug-in of the channel to the front.
    SelectTab(String),
    /// Closes a plug-in's tab.
    CloseTab(String),
}

/// What the strip shows.
#[derive(Debug)]
pub struct PluginEditorChrome {
    pub plugin_name: String,
    pub track_name: String,
    /// Place of the insert slot on its track, from one; zero if unknown.
    pub insert_number: usize,
    /// The insert is processing.
    pub active: bool,
    pub latency_samples: u32,
    pub sample_rate: u32,
    /// Share of an audio block that processing took, in billionths; none while
    /// nothing has been measured.
    pub cpu_load: Option<i64>,
    pub presets: Vec<String>,
    /// Which preset is loaded.
    pub preset_index: Option<usize>,
}

/// Title of the editor's window.
pub open spec fn title_of(chrome: PluginEditorChrome) -> Seq<char> {
    let name = if chrome.plugin_name@.len() == 0 {
        "Plugin"@
    } else {
        chrome.plugin_name@
    };
    if chrome.insert_number == 0 {
        name
    } else {
        name + " - Insert "@ + natural_text(chrome.insert_number as int)
    }
}

/// What the presets' trigger says.
pub open spec fn preset_text(chrome: PluginEditorChrome) -> Seq<char> {
    match chrome.preset_index {
        Some(i) => if i < chrome.presets@.len() {
            chrome.presets@[i as int]@
        } else if chrome.presets@.len() == 0 {
            "No presets"@
        } else {
            "Unsaved"@
        },
        None => if chrome.presets@.len() == 0 {
            "No presets"@
        } else {
            "Unsaved"@
        },
    }
}

/// Tenths of a millisecond of a latency.
pub open spec fn latency_tenths(samples: int, rate: int) -> int {
    half_even(samples * 10_000, rate)
}

/// What the latency readout says.
pub open spec fn latency_text(samples: int, rate: int) -> Seq<char> {
    if samples == 0 || rate == 0 {
        natural_text(samples) + " smp"@
    } else {
        natural_text(latency_tenths(samples, rate) / 10) + "."@ + seq![digit_char(latency_tenths(samples, rate) % 10)]
            + " ms"@
    }
}

/// Load in whole percent.
pub open spec fn load_percent(load: int) -> int {
    half_even(clamp_to(load, 0, 9_990_000_000), 10_000_000)
}

/// What the load readout says.
pub open spec fn cpu_text(load: Option<i64>) -> Seq<char> {
    match load {
        Some(l) => natural_text(load_percent(l as int)) + "%"@,
        None => "—"@,
    }
}

impl PluginEditorChrome {
    /// Title of the editor's window.
    pub fn window_title(&self) -> (s: String)
        ensures
            s@ == title_of(*self),
    {
        let mut s = if same_text(self.plugin_name.as_str(), "") {
            proof {
                reveal_strlit("");
            }
            "Plugin".to_owned()
        } else {
            proof {
                reveal_strlit("");
                if self.plugin_name@.len() == 0 {
                    assert(self.plugin_name@ =~= ""@);
                }
            }
            self.plugin_name.clone()
        };
        if self.insert_number == 0 {
            return s;
        }
        s.append(" - Insert ");
        push_natural(&mut s, self.insert_number as u64);
        s
    }

    /// Name of the loaded preset, or what stands in for it.
    pub fn preset_label(&self) -> (s: String)
        ensures
            s@ == preset_text(*self),
    {
        if let Some(i) = self.preset_index {
            if i < self.presets.len() {
                return self.presets[i].clone();
            }
        }
        if self.presets.len() == 0 {
            "No presets".to_owned()
        } else {
            "Unsaved".to_owned()
        }
    }

    /// Latency in milliseconds, or in samples where there is none or the rate is
    /// unknown.
    pub fn latency_label(&self) -> (s: String)
        ensures
            s@ == latency_text(self.latency_samples as int, self.sample_rate as int),
    {
        let mut s = String::new();
        if self.latency_samples == 0 || self.sample_rate == 0 {
            push_natural(&mut s, self.latency_samples as u64);
            s.append(" smp");
            assert(s@ =~= natural_text(self.latency_samples as int) + " smp"@);
            return s;
        }
        let t = round_half_even(self.latency_samples as u128 * 10_000, self.sample_rate as u128);
        push_natural(&mut s, (t / 10) as u64);
        s.append(".");
        let ghost front = s@;
        push_natural(&mut s, (t % 10) as u64);
        assert(s@ =~= front + seq![digit_char(t as int % 10)]);
        s.append(" ms");
        assert(s@ =~= latency_text(self.latency_samples as int, self.sample_rate as int));
        s
    }

    /// Load in whole percent; a dash while nothing has been measured.
    pub fn cpu_label(&self) -> (s: String)
        ensures
            s@ == cpu_text(self.cpu_load),
    {
        match self.cpu_load {
            Some(load) => {
                let clamped = clamp_i64(load, 0, 9_990_000_000);
                let percent = round_half_even(clamped as u128, 10_000_000);
                let mut s = String::new();
                push_natural(&mut s, percent as u64);
                s.append("%");
                assert(s@ =~= natural_text(load_percent(load as int)) + "%"@);
                s
            },
            None => "—".to_owned(),
        }
    }
}

/// Fill of a row of the list.
#[derive(Debug, Clone, Copy, PartialEq, Eq, Structural)]
pub enum RowFill {
    /// The loaded preset.
    Selected,
    /// The row that the keyboard is on.
    Highlighted,
    Clear,
}

/// A row of the list of presets.
#[derive(Debug)]
pub struct PresetRow {
    pub name: String,
    /// The preset is loaded: marked on its edge and with a check.
    pub selected: bool,
    pub fill: RowFill,
}

/// A row, as contracts speak of it.
pub type PresetRowView = (Seq<char>, bool, RowFill);

impl View for PresetRow {
    type V = PresetRowView;

    open spec fn view(&self) -> PresetRowView {
        (self.name@, self.selected, self.fill)
    }
}

/// Row of a preset.
pub open spec fn preset_row(chrome: PluginEditorChrome, highlighted: Option<usize>, i: int) -> PresetRowView {
    let selected = chrome.preset_index == Some(i as usize);
    (
        chrome.presets@[i]@,
        selected,
        if selected {
            RowFill::Selected
        } else if highlighted == Some(i as usize) {
            RowFill::Highlighted
        } else {
            RowFill::Clear
        },
    )
}

/// The list of presets: rows, or the note that there are none.
#[derive(Debug)]
pub enum PresetList {
    Note(String),
    Rows(Vec<PresetRow>),
}

/// The list of presets.
pub fn render_preset_menu(chrome: &PluginEditorChrome, highlighted: Option<usize>) -> (list: PresetList)
    ensures
        match list {
            PresetList::Note(s) => chrome.presets@.len() == 0 && s@ == "No presets saved for this plug-in"@,
            PresetList::Rows(rows) => {
                &&& chrome.presets@.len() > 0
                &&& rows@.len() == chrome.presets@.len()
                &&& forall|i: int|
                    0 <= i < rows@.len() ==> (#[trigger] rows@[i])@ == preset_row(*chrome, highlighted, i)
            },
        },
{
    if chrome.presets.len() == 0 {
        return PresetList::Note("No presets saved for this plug-in".to_owned());
    }
    let mut rows: Vec<PresetRow> = Vec::new();
    let mut i: usize = 0;
    while i < chrome.presets.len()
        invariant
            i <= chrome.presets@.len(),
            rows@.len() == i,
            forall|k: int| 0 <= k < i ==> (#[trigger] rows@[k])@ == preset_row(*chrome, highlighted, k),
        decreases chrome.presets@.len() - i,
    {
        let selected = match chrome.preset_index {
            Some(p) => p == i,
            None => false,
        };
        let keyboard = match highlighted {
            Some(h) => h == i,
            None => false,
        };
        let fill = if selected {
            RowFill::Selected
        } else if keyboard {
            RowFill::Highlighted
        } else {
            RowFill::Clear
        };
        rows.push(PresetRow { name: chrome.presets[i].clone(), selected, fill });
        i = i + 1;
    }
    PresetList::Rows(rows)
}

/// Sizes that all menus share.
#[derive(Debug, Clone, Copy, PartialEq, Eq, Structural)]
pub struct MenuMetrics {
    pub width: i64,
    pub row_h: i64,
    pub pad: i64,
    pub gap: i64,
}

impl MenuMetrics {
    pub open spec fn valid(self) -> bool {
        0 <= self.width <= WINDOW_LIMIT && 0 <= self.row_h <= WINDOW_LIMIT && 0 <= self.pad <= WINDOW_LIMIT && 0
            <= self.gap <= WINDOW_LIMIT
    }
}

/// Rows that the list opens with at its tallest.
pub const PRESET_MENU_MAX_ROWS: usize = 16;

/// Rows that the list opens with: one at least, for the note.
pub open spec fn rows_shown(count: int) -> int {
    clamp_to(count, 1, PRESET_MENU_MAX_ROWS as int)
}

/// Size of the list for a number of presets.
pub fn preset_menu_size(count: usize, m: &MenuMetrics) -> (r: (i64, i64))
    requires
        m.valid(),
    ensures
        r.0 == m.width,
        r.1 == 2 * m.pad + 2 * PX + rows_shown(count as int) * m.row_h + (rows_shown(count as int) - 1) * m.gap,
{
    let rows: i64 = if count == 0 {
        1
    } else if count > PRESET_MENU_MAX_ROWS {
        16
    } else {
        count as i64
    };
    assert(0 <= rows * m.row_h <= 16 * 68_719_476_736 && 0 <= (rows - 1) * m.gap <= 16 * 68_719_476_736) by (nonlinear_arith)
        requires
            1 <= rows <= 16,
            0 <= m.row_h <= 68_719_476_736,
            0 <= m.gap <= 68_719_476_736,
    ;
    (m.width, 2 * m.pad + 2 * PX + rows * m.row_h + (rows - 1) * m.gap)
}

/// The list grows with the presets up to its tallest, and is never without a
/// row.
pub proof fn law_list_has_a_row_and_a_limit(few: int, many: int)
    requires
        few <= many,
    ensures
        1 <= rows_shown(few) <= rows_shown(many) <= PRESET_MENU_MAX_ROWS,
        0 < many <= PRESET_MENU_MAX_ROWS ==> rows_shown(many) == many,
{
}

/// The open list of presets.
#[derive(Debug)]
pub struct PresetMenuWindow {
    pub chrome: PluginEditorChrome,
    /// Row that the keyboard is on.
    pub highlighted: Option<usize>,
    /// The keyboard has been claimed.
    pub focus_taken: bool,
    /// The list has been active at some time.
    pub seen_active: bool,
}

/// What the list wants done.
#[derive(Debug)]
pub struct MenuReply {
    /// The key was used up.
    pub used: bool,
    /// Actions for the editor, in order.
    pub actions: Vec<PluginEditorAction>,
    /// The list closes.
    pub close: bool,
}

/// Row after a step, wrapping at both ends.
pub open spec fn stepped(highlighted: Option<usize>, count: int, delta: int) -> int {
    match highlighted {
        Some(h) => (h + delta) % count,
        None => if delta > 0 {
            0
        } else {
            count - 1
        },
    }
}

/// A step down and a step up come back to the row, and steps stay in the list.
pub proof fn law_highlight_wraps_and_returns(row: usize, count: int)
    requires
        0 <= row < count,
        count <= 0x7fff_ffff,
    ensures
        0 <= stepped(Some(row), count, 1) < count,
        0 <= stepped(Some(row), count, -1) < count,
        stepped(Some(stepped(Some(row), count, 1) as usize), count, -1) == row,
        stepped(Some(stepped(Some(row), count, -1) as usize), count, 1) == row,
        stepped(Some((count - 1) as usize), count, 1) == 0,
        stepped(Some(0usize), count, -1) == count - 1,
{
    let down = stepped(Some(row), count, 1);
    let up = stepped(Some(row), count, -1);
    crate::fixed::lemma_quotient_unique(row + 1, count, if row + 1 == count { 1 } else { 0 }, if row + 1 == count {
        0
    } else {
        row + 1
    });
    crate::fixed::lemma_quotient_unique(row - 1, count, if row == 0 { -1 } else { 0 }, if row == 0 {
        count - 1
    } else {
        row - 1
    });
    crate::fixed::lemma_quotient_unique(count, count, 1, 0);
    crate::fixed::lemma_quotient_unique(-1, count, -1, count - 1);
    crate::fixed::lemma_quotient_unique(down - 1, count, if down == 0 { -1 } else { 0 }, row as int);
    crate::fixed::lemma_quotient_unique(up + 1, count, if up + 1 == count { 1 } else { 0 }, row as int);
}

/// Nothing to do.
pub open spec fn idle_reply(r: MenuReply, used: bool) -> bool {
    r.used == used && r.actions@ == Seq::<PluginEditorAction>::empty() && !r.close
}

/// The list closes and says so.
pub open spec fn dismissing(r: MenuReply) -> bool {
    r.actions@ == seq![PluginEditorAction::TogglePresetMenu(false)] && r.close
}

/// A preset is chosen and the list closes.
pub open spec fn choosing(r: MenuReply, index: usize) -> bool {
    r.actions@ == seq![PluginEditorAction::SelectPreset(index), PluginEditorAction::TogglePresetMenu(false)] && r.close
}

impl PresetMenuWindow {
    /// The list as it opens: the keyboard starts at the loaded preset.
    pub fn new(chrome: PluginEditorChrome) -> (m: PresetMenuWindow)
        ensures
            m.chrome == chrome,
            m.highlighted == chrome.preset_index,
            !m.focus_taken && !m.seen_active,
    {
        PresetMenuWindow { highlighted: chrome.preset_index, chrome, focus_taken: false, seen_active: false }
    }

    /// Closes the list.
    pub fn dismiss(&self) -> (r: MenuReply)
        ensures
            dismissing(r) && r.used,
    {
        let mut actions: Vec<PluginEditorAction> = Vec::new();
        actions.push(PluginEditorAction::TogglePresetMenu(false));
        MenuReply { used: true, actions, close: true }
    }

    /// Loads a preset and closes the list, as a click on its row does.
    pub fn pick(&self, index: usize) -> (r: MenuReply)
        ensures
            choosing(r, index) && r.used,
    {
        let mut actions: Vec<PluginEditorAction> = Vec::new();
        actions.push(PluginEditorAction::SelectPreset(index));
        actions.push(PluginEditorAction::TogglePresetMenu(false));
        assert(actions@ =~= seq![
            PluginEditorAction::SelectPreset(index),
            PluginEditorAction::TogglePresetMenu(false),
        ]);
        MenuReply { used: true, actions, close: true }
    }

    /// Loads the highlighted preset and closes the list; without one, nothing.
    pub fn commit(&self) -> (r: MenuReply)
        ensures
            match self.highlighted {
                Some(i) => if i < self.chrome.presets@.len() {
                    choosing(r, i) && r.used
                } else {
                    idle_reply(r, true)
                },
                None => idle_reply(r, true),
            },
    {
        if let Some(i) = self.highlighted {
            if i < self.chrome.presets.len() {
                return self.pick(i);
            }
        }
        MenuReply { used: true, actions: Vec::new(), close: false }
    }

    /// Moves the keyboard's row, wrapping at both ends; says whether it moved.
    pub fn move_highlight(&mut self, delta: i32) -> (moved: bool)
        requires
            -0x4000_0000 <= delta <= 0x4000_0000,
            old(self).chrome.presets@.len() <= 0x7fff_ffff,
            old(self).highlighted matches Some(h) ==> h <= 0x7fff_ffff,
        ensures
            old(self).chrome.presets@.len() == 0 ==> !moved && *final(self) == *old(self),
            old(self).chrome.presets@.len() > 0 ==> {
                &&& final(self).highlighted == Some(
                    stepped(old(self).highlighted, old(self).chrome.presets@.len() as int, delta as int) as usize,
                )
                &&& moved == (final(self).highlighted != old(self).highlighted)
                &&& *final(self) == (PresetMenuWindow { highlighted: final(self).highlighted, ..*old(self) })
            },
    {
        let count = self.chrome.presets.len();
        if count == 0 {
            return false;
        }
        let next: usize = match self.highlighted {
            None => if delta > 0 {
                0
            } else {
                count - 1
            },
            Some(current) => {
                let n: i128 = count as i128;
                let at: i128 = current as i128 + delta as i128;
                let q = crate::fixed::floor_div(at, n);
                proof {
                    vstd::arithmetic::div_mod::lemma_fundamental_div_mod(at as int, n as int);
                    assert(n * q == q * n) by (nonlinear_arith);
                    assert(-0x1_0000_0000 <= q * n <= 0x1_0000_0000);
                }
                (at - q * n) as usize
            },
        };
        let same = match self.highlighted {
            Some(h) => h == next,
            None => false,
        };
        if same {
            return false;
        }
        self.highlighted = Some(next);
        true
    }

    /// Carries out a key of the list.
    pub fn on_key(&mut self, key: &str) -> (r: MenuReply)
        requires
            old(self).chrome.presets@.len() <= 0x7fff_ffff,
            old(self).highlighted matches Some(h) ==> h <= 0x7fff_ffff,
        ensures
            final(self).chrome == old(self).chrome,
            if key@ == "escape"@ {
                dismissing(r) && r.used && *final(self) == *old(self)
            } else if key@ == "down"@ || key@ == "up"@ {
                &&& idle_reply(r, true)
                &&& old(self).chrome.presets@.len() == 0 ==> *final(self) == *old(self)
                &&& old(self).chrome.presets@.len() > 0 ==> *final(self) == (PresetMenuWindow {
                    highlighted: Some(
                        stepped(
                            old(self).highlighted,
                            old(self).chrome.presets@.len() as int,
                            if key@ == "down"@ {
                                1
                            } else {
                                -1
                            },
                        ) as usize,
                    ),
                    ..*old(self)
                })
            } else if key@ == "enter"@ {
                &&& *final(self) == *old(self)
                &&& match old(self).highlighted {
                    Some(i) => if i < old(self).chrome.presets@.len() {
                        choosing(r, i) && r.used
                    } else {
                        idle_reply(r, true)
                    },
                    None => idle_reply(r, true),
                }
            } else {
                idle_reply(r, false) && *final(self) == *old(self)
            },
    {
        if same_text(key, "escape") {
            self.dismiss()
        } else if same_text(key, "down") {
            self.move_highlight(1);
            MenuReply { used: true, actions: Vec::new(), close: false }
        } else if same_text(key, "up") {
            self.move_highlight(-1);
            MenuReply { used: true, actions: Vec::new(), close: false }
        } else if same_text(key, "enter") {
            self.commit()
        } else {
            MenuReply { used: false, actions: Vec::new(), close: false }
        }
    }

    /// The list has become active, or is so no longer. Only a list that has been
    /// active closes when it loses that.
    pub fn activation_changed(&mut self, active: bool) -> (r: MenuReply)
        ensures
            *final(self) == (PresetMenuWindow { seen_active: old(self).seen_active || active, ..*old(self) }),
            !active && old(self).seen_active ==> dismissing(r) && r.used,
            active || !old(self).seen_active ==> idle_reply(r, false),
    {
        if active {
            self.seen_active = true;
            return MenuReply { used: false, actions: Vec::new(), close: false };
        }
        if !self.seen_active {
            return MenuReply { used: false, actions: Vec::new(), close: false };
        }
        self.dismiss()
    }

    /// Whether the keyboard is to be claimed now: once, on the first frame.
    pub fn claim_focus(&mut self) -> (claim: bool)
        ensures
            claim == !old(self).focus_taken,
            *final(self) == (PresetMenuWindow { focus_taken: true, ..*old(self) }),
    {
        let claim = !self.focus_taken;
        self.focus_taken = true;
        claim
    }
}

/// Place and size of the list on the device.
#[derive(Debug, Clone, Copy, PartialEq, Eq, Structural)]
pub struct DeviceRect {
    pub x: i32,
    pub y: i32,
    pub width: i32,
    pub height: i32,
}

/// Scale that the list is placed with: that of the editor, where it is one.
pub open spec fn popup_scale(scale: int) -> int {
    if scale > 100_000 {
        scale
    } else {
        PX as int
    }
}

/// A length in device pixels.
pub open spec fn to_device(v: int, scale: int) -> int {
    nearest(v * popup_scale(scale), PX * PX)
}

fn device_of(v: i64, scale: i64) -> (r: i32)
    requires
        -2_000_000_000_000 <= v <= 2_000_000_000_000,
        scale <= 64_000_000,
    ensures
        r == to_device(v as int, scale as int),
{
    let s: i64 = if scale > 100_000 {
        scale
    } else {
        PX
    };
    assert(-2_000_000_000_000 * 64_000_000 <= v * s <= 2_000_000_000_000 * 64_000_000) by (nonlinear_arith)
        requires
            -2_000_000_000_000 <= v <= 2_000_000_000_000,
            0 <= s <= 64_000_000,
    ;
    let q = nearest_div(v as i128 * s as i128, 1_000_000_000_000);
    proof {
        lemma_nearest_bound(v * s, 1_000_000_000_000);
    }
    q as i32
}

/// Where the list goes on the device, by the editor's scale.
pub fn popup_rect(x: i64, y: i64, width: i64, height: i64, scale: i64) -> (r: DeviceRect)
    requires
        -2_000_000_000_000 <= x <= 2_000_000_000_000,
        -2_000_000_000_000 <= y <= 2_000_000_000_000,
        -2_000_000_000_000 <= width <= 2_000_000_000_000,
        -2_000_000_000_000 <= height <= 2_000_000_000_000,
        scale <= 64_000_000,
    ensures
        r.x == to_device(x as int, scale as int),
        r.y == to_device(y as int, scale as int),
        r.width == to_device(width as int, scale as int),
        r.height == to_device(height as int, scale as int),
{
    DeviceRect {
        x: device_of(x, scale),
        y: device_of(y, scale),
        width: device_of(width, scale),
        height: device_of(height, scale),
    }
}

/// Height of the tab strip.
pub const TAB_STRIP_H: i64 = 30_000_000;

/// A tab as it is drawn.
#[derive(Debug)]
pub struct TabView {
    pub insert_id: String,
    pub number: String,
    pub name: String,
    pub selected: bool,
}

impl TabView {
    /// The tab shows a plug-in.
    pub open spec fn shows(self, tab: PluginEditorTab, active: Seq<char>) -> bool {
        &&& self.insert_id@ == tab.insert_id@
        &&& self.number@ == natural_text(tab.insert_number as int)
        &&& self.name@ == tab.display_name@
        &&& self.selected == (tab.insert_id@ == active)
    }

    /// What a click on the tab asks for.
    pub fn select(&self) -> (a: PluginEditorAction)
        ensures
            a matches PluginEditorAction::SelectTab(id) && id@ == self.insert_id@,
    {
        PluginEditorAction::SelectTab(self.insert_id.clone())
    }

    /// What a click on the tab's cross asks for.
    pub fn close(&self) -> (a: PluginEditorAction)
        ensures
            a matches PluginEditorAction::CloseTab(id) && id@ == self.insert_id@,
    {
        PluginEditorAction::CloseTab(self.insert_id.clone())
    }
}

/// One tab for each plug-in open on the channel.
pub fn render_tab_strip(tabs: &Vec<PluginEditorTab>, active: &str) -> (out: Vec<TabView>)
    ensures
        out@.len() == tabs@.len(),
        forall|i: int| 0 <= i < out@.len() ==> (#[trigger] out@[i]).shows(tabs@[i], active@),
{
    let mut out: Vec<TabView> = Vec::new();
    let mut i: usize = 0;
    while i < tabs.len()
        invariant
            i <= tabs@.len(),
            out@.len() == i,
            forall|k: int| 0 <= k < i ==> (#[trigger] out@[k]).shows(tabs@[k], active@),
        decreases tabs@.len() - i,
    {
        let tab = &tabs[i];
        let mut number = String::new();
        push_natural(&mut number, tab.insert_number as u64);
        assert(number@ =~= natural_text(tab.insert_number as int));
        out.push(
            TabView {
                insert_id: tab.insert_id.clone(),
                number,
                name: tab.display_name.clone(),
                selected: same_text(tab.insert_id.as_str(), active),
            },
        );
        i = i + 1;
    }
    out
}

/// How a control of the strip is drawn.
#[derive(Debug, Clone, Copy, PartialEq, Eq, Structural)]
pub enum ControlState {
    Disabled,
    Active,
    Plain,
}

/// How a control is drawn: one that is disabled never looks active.
pub open spec fn control_state(enabled: bool, active: bool) -> ControlState {
    if !enabled {
        ControlState::Disabled
    } else if active {
        ControlState::Active
    } else {
        ControlState::Plain
    }
}

/// How a control is drawn.
pub fn chrome_button(enabled: bool, active: bool) -> (s: ControlState)
    ensures
        s == control_state(enabled, active),
{
    if !enabled {
        ControlState::Disabled
    } else if active {
        ControlState::Active
    } else {
        ControlState::Plain
    }
}

/// The controls above the plug-in.
#[derive(Debug)]
pub struct ChromeTools {
    pub power: ControlState,
    pub on_power: PluginEditorAction,
    /// State of the two buttons that step through the presets.
    pub step: ControlState,
    pub on_previous: PluginEditorAction,
    pub on_next: PluginEditorAction,
    pub preset: String,
    /// The list is open.
    pub menu_open: bool,
    pub on_menu: PluginEditorAction,
    pub save: ControlState,
    pub on_save: PluginEditorAction,
    pub cpu: String,
    pub latency: String,
}

/// The controls above the plug-in.
pub fn render_chrome_tools(chrome: &PluginEditorChrome, menu_open: bool) -> (t: ChromeTools)
    ensures
        t.power == control_state(true, chrome.active),
        t.on_power == PluginEditorAction::SetActive(!chrome.active),
        t.step == control_state(chrome.presets@.len() > 0, false),
        t.on_previous == PluginEditorAction::StepPreset((-1) as i32),
        t.on_next == PluginEditorAction::StepPreset(1),
        t.preset@ == preset_text(*chrome),
        t.menu_open == menu_open,
        t.on_menu == PluginEditorAction::TogglePresetMenu(!menu_open),
        t.save == ControlState::Plain,
        t.on_save == PluginEditorAction::SavePreset,
        t.cpu@ == cpu_text(chrome.cpu_load),
        t.latency@ == latency_text(chrome.latency_samples as int, chrome.sample_rate as int),
{
    ChromeTools {
        power: chrome_button(true, chrome.active),
        on_power: PluginEditorAction::SetActive(!chrome.active),
        step: chrome_button(chrome.presets.len() > 0, false),
        on_previous: PluginEditorAction::StepPreset(-1),
        on_next: PluginEditorAction::StepPreset(1),
        preset: chrome.preset_label(),
        menu_open,
        on_menu: PluginEditorAction::TogglePresetMenu(!menu_open),
        save: chrome_button(true, false),
        on_save: PluginEditorAction::SavePreset,
        cpu: chrome.cpu_label(),
        latency: chrome.latency_label(),
    }
}

/// A colour: red, green, blue and opacity, in billionths.
#[derive(Debug, Clone, Copy, PartialEq, Eq, Structural)]
pub struct Colour {
    pub r: i64,
    pub g: i64,
    pub b: i64,
    pub a: i64,
}

/// A channel of a colour as a byte.
pub open spec fn channel_byte(value: int) -> int {
    nearest(clamp_to(value, 0, VALUE_ONE as int) * 255, VALUE_ONE as int)
}

/// A colour in one word, red first.
pub open spec fn packed_colour(c: Colour) -> int {
    channel_byte(c.r as int) * 0x100_0000 + channel_byte(c.g as int) * 0x1_0000 + channel_byte(c.b as int) * 0x100
        + channel_byte(c.a as int)
}

fn byte_of(value: i64) -> (b: u32)
    ensures
        b == channel_byte(value as int),
        b <= 255,
{
    let v = clamp_i64(value, 0, VALUE_ONE);
    let q = nearest_div(v as i128 * 255, 1_000_000_000);
    proof {
        lemma_nearest_bound(v * 255, 1_000_000_000);
    }
    q as u32
}

/// A colour in one word, red first.
pub fn packed(c: &Colour) -> (w: u32)
    ensures
        w == packed_colour(*c),
{
    byte_of(c.r) * 0x100_0000 + byte_of(c.g) * 0x1_0000 + byte_of(c.b) * 0x100 + byte_of(c.a)
}

/// Every channel can be read back from a packed colour.
pub proof fn law_packed_colour_keeps_its_channels(c: Colour)
    ensures
        0 <= packed_colour(c) <= 0xffff_ffff,
        packed_colour(c) / 0x100_0000 == channel_byte(c.r as int),
        packed_colour(c) / 0x1_0000 % 0x100 == channel_byte(c.g as int),
        packed_colour(c) / 0x100 % 0x100 == channel_byte(c.b as int),
        packed_colour(c) % 0x100 == channel_byte(c.a as int),
{
    lemma_channel_is_a_byte(c.r as int);
    lemma_channel_is_a_byte(c.g as int);
    lemma_channel_is_a_byte(c.b as int);
    lemma_channel_is_a_byte(c.a as int);
    lemma_word_of_bytes(
        channel_byte(c.r as int),
        channel_byte(c.g as int),
        channel_byte(c.b as int),
        channel_byte(c.a as int),
    );
}

proof fn lemma_channel_is_a_byte(value: int)
    ensures
        0 <= channel_byte(value) <= 255,
{
    lemma_nearest_bound(clamp_to(value, 0, VALUE_ONE as int) * 255, VALUE_ONE as int);
}

proof fn lemma_word_of_bytes(r: int, g: int, b: int, a: int)
    requires
        0 <= r <= 255,
        0 <= g <= 255,
        0 <= b <= 255,
        0 <= a <= 255,
    ensures
        ({
            let w = r * 0x100_0000 + g * 0x1_0000 + b * 0x100 + a;
            &&& w / 0x100_0000 == r
            &&& w / 0x1_0000 % 0x100 == g
            &&& w / 0x100 % 0x100 == b
            &&& w % 0x100 == a
        }),
{
    let w = r * 0x100_0000 + g * 0x1_0000 + b * 0x100 + a;
    crate::fixed::lemma_quotient_unique(w, 0x100_0000, r, g * 0x1_0000 + b * 0x100 + a);
    crate::fixed::lemma_quotient_unique(w, 0x1_0000, r * 0x100 + g, b * 0x100 + a);
    crate::fixed::lemma_quotient_unique(r * 0x100 + g, 0x100, r, g);
    crate::fixed::lemma_quotient_unique(w, 0x100, r * 0x1_0000 + g * 0x100 + b, a);
    crate::fixed::lemma_quotient_unique(r * 0x1_0000 + g * 0x100 + b, 0x100, r * 0x100 + g, b);
}

/// Colours of the strip, from the theme.
#[derive(Debug, Clone, Copy, PartialEq, Eq, Structural)]
pub struct ChromeColours {
    pub strip_bg: Colour,
    pub row_bg: Colour,
    pub border: Colour,
    pub control_bg: Colour,
    pub control_hover: Colour,
    pub control_pressed: Colour,
    pub accent: Colour,
    pub text_primary: Colour,
    pub text_secondary: Colour,
    pub text_faint: Colour,
}

/// Colours of the strip for a host that cannot read the theme.
#[derive(Debug, Clone, Copy, PartialEq, Eq, Structural)]
pub struct EditorChromePalette {
    pub strip_bg: u32,
    pub row_bg: u32,
    pub border: u32,
    pub control_bg: u32,
    pub control_hover: u32,
    pub control_pressed: u32,
    pub accent: u32,
    pub text_primary: u32,
    pub text_secondary: u32,
    pub text_faint: u32,
}

/// Colours of the strip for a host that cannot read the theme.
pub fn resolve_chrome_palette(c: &ChromeColours) -> (p: EditorChromePalette)
    ensures
        p.strip_bg == packed_colour(c.strip_bg),
        p.row_bg == packed_colour(c.row_bg),
        p.border == packed_colour(c.border),
        p.control_bg == packed_colour(c.control_bg),
        p.control_hover == packed_colour(c.control_hover),
        p.control_pressed == packed_colour(c.control_pressed),
        p.accent == packed_colour(c.accent),
        p.text_primary == packed_colour(c.text_primary),
        p.text_secondary == packed_colour(c.text_secondary),
        p.text_faint == packed_colour(c.text_faint),
{
    EditorChromePalette {
        strip_bg: packed(&c.strip_bg),
        row_bg: packed(&c.row_bg),
        border: packed(&c.border),
        control_bg: packed(&c.control_bg),
        control_hover: packed(&c.control_hover),
        control_pressed: packed(&c.control_pressed),
        accent: packed(&c.accent),
        text_primary: packed(&c.text_primary),
        text_secondary: packed(&c.text_secondary),
        text_faint: packed(&c.text_faint),
    }
}

/// The latency shown is the time that the samples last, to a tenth of a
/// millisecond, and the load is its hundredths.
pub proof fn law_readings_are_rounded(samples: int, rate: int, load: int)
    requires
        rate > 0,
        0 <= load <= 9_990_000_000,
    ensures
        -rate <= 2 * (rate * latency_tenths(samples, rate) - samples * 10_000) <= rate,
        -10_000_000 <= 2 * (10_000_000 * load_percent(load) - load) <= 10_000_000,
{
    crate::labels::law_rounding_is_to_the_nearest_even(samples * 10_000, rate);
    crate::labels::law_rounding_is_to_the_nearest_even(load, 10_000_000);
}

} // verus!
