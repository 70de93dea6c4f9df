//! The toolbar, its dropdowns, and the selector of the controller lane.

use crate::commands::{command_asks, command_says, commanded, CommandInput, RollCommand};
use crate::gesture::{silence, silenced};
use crate::grid::{GridRes, GRID_RES_COUNT};
use crate::labels::{cc_kind_label, kind_label};
use crate::lanes::{
    lane_at, lane_of_cycle, place_in_cycle, ControllerLaneKind, PianoSelectMenu, PianoTool, LANE_CYCLE_LEN,
};
use crate::midi::{
    all_channels, lemma_filter_step, only_channel, MidiChannel, MidiChannelMask, MidiControllerKind, CHANNEL_COUNT,
};
use crate::order::{sorted, stable_sort, Keyed};
use crate::preview::{PreviewMessage, PreviewTarget};
use crate::roll::{lone_channel, PianoRoll};
use crate::roll_edit::{EditView, Outcome};
use crate::scale::{PitchContext, Scale, ScaleChoices};
use crate::selection_edits::of_selected_ids;
use crate::status::status_text;
use crate::text::{decimal_text, natural_text, push_natural};
use crate::zoom::{beat_zoomed, zoom_stays_in_reach};
use vstd::prelude::*;

verus! {

/// Zoom factor of the button that zooms out, in billionths.
pub const ZOOM_OUT: i64 = 500_000_000;

/// Zoom factor of the button that zooms in, in billionths.
pub const ZOOM_IN: i64 = 2_000_000_000;

/// Something that a control of the toolbar does.
#[derive(Debug, Clone, Copy, PartialEq, Eq, Structural)]
pub enum ToolbarAction {
    Tool(PianoTool),
    ToggleSnap,
    Grid(GridRes),
    /// Opens or closes a dropdown.
    Menu(PianoSelectMenu),
    /// Chooses a root of the scale, by place.
    ScaleRoot(usize),
    /// Chooses a scale, by place.
    ScaleKind(usize),
    ToggleLock,
    ToScale,
    Channels(MidiChannelMask),
    /// Puts the selected notes on the channel that new notes get.
    ApplyChannel,
    PerNoteOutput,
    Quantize,
    Delete,
    Duplicate,
    Fit,
    ZoomOut,
    ZoomIn,
    ShowMiddleC,
    Lane(ControllerLaneKind),
    ToggleLane,
    /// Steps the number of the custom controller up or down.
    StepCustom(bool),
    /// Shows the custom controller.
    CustomLane,
    /// Opens the editor in a window of its own.
    PopOut,
}

/// An option of a dropdown, or a button: text, whether it is on, and action.
#[derive(Debug)]
pub struct Choice {
    pub label: String,
    pub on: bool,
    pub action: ToolbarAction,
}

/// A choice, as contracts speak of it.
pub type ChoiceView = (Seq<char>, bool, ToolbarAction);

impl View for Choice {
    type V = ChoiceView;

    open spec fn view(&self) -> ChoiceView {
        (self.label@, self.on, self.action)
    }
}

/// Views of a list of choices.
pub open spec fn choices_view(list: Seq<Choice>) -> Seq<ChoiceView> {
    list.map_values(|c: Choice| c@)
}

/// A control of the toolbar.
#[derive(Debug)]
pub enum ToolbarItem {
    Button(Choice),
    /// A dropdown: which, what it says, whether it is open, and its options.
    Select(PianoSelectMenu, String, bool, Vec<Choice>),
    /// The selector of the controller lane.
    LaneSelector,
}

/// A control, as contracts speak of it.
pub ghost enum ItemView {
    Button(ChoiceView),
    Select(PianoSelectMenu, Seq<char>, bool, Seq<ChoiceView>),
    LaneSelector,
}

impl View for ToolbarItem {
    type V = ItemView;

    open spec fn view(&self) -> ItemView {
        match self {
            ToolbarItem::Button(c) => ItemView::Button(c@),
            ToolbarItem::Select(m, label, open, options) => ItemView::Select(
                *m,
                label@,
                *open,
                choices_view(options@),
            ),
            ToolbarItem::LaneSelector => ItemView::LaneSelector,
        }
    }
}

/// Views of a list of controls.
pub open spec fn items_view(list: Seq<ToolbarItem>) -> Seq<ItemView> {
    list.map_values(|i: ToolbarItem| i@)
}

/// A titled group of controls.
#[derive(Debug)]
pub struct ToolbarGroup {
    pub title: String,
    pub items: Vec<ToolbarItem>,
}

/// A group, as contracts speak of it.
pub type GroupView = (Seq<char>, Seq<ItemView>);

impl View for ToolbarGroup {
    type V = GroupView;

    open spec fn view(&self) -> GroupView {
        (self.title@, items_view(self.items@))
    }
}

/// Views of a list of groups.
pub open spec fn groups_view(list: Seq<ToolbarGroup>) -> Seq<GroupView> {
    list.map_values(|g: ToolbarGroup| g@)
}

/// The toolbar: its groups from the left, then what it says of the editor, and
/// at the end a button that opens the editor in a window of its own.
#[derive(Debug)]
pub struct Toolbar {
    pub groups: Vec<ToolbarGroup>,
    pub status: String,
    pub pop_out: Option<Choice>,
}

/// A toolbar, as contracts speak of it.
pub type ToolbarView = (Seq<GroupView>, Seq<char>, Option<ChoiceView>);

impl View for Toolbar {
    type V = ToolbarView;

    open spec fn view(&self) -> ToolbarView {
        (
            groups_view(self.groups@),
            self.status@,
            match self.pop_out {
                Some(c) => Some(c@),
                None => None,
            },
        )
    }
}

/// The resolution at a place of the grid's dropdown.
pub open spec fn grid_at(i: int) -> GridRes {
    if i == 0 {
        GridRes::Free
    } else if i == 1 {
        GridRes::Adaptive
    } else if i == 2 {
        GridRes::Bar
    } else if i == 3 {
        GridRes::Whole
    } else if i == 4 {
        GridRes::Half
    } else if i == 5 {
        GridRes::Quarter
    } else if i == 6 {
        GridRes::Eighth
    } else if i == 7 {
        GridRes::Sixteenth
    } else if i == 8 {
        GridRes::ThirtySecond
    } else if i == 9 {
        GridRes::SixtyFourth
    } else if i == 10 {
        GridRes::QuarterTriplet
    } else if i == 11 {
        GridRes::EighthTriplet
    } else {
        GridRes::SixteenthTriplet
    }
}

/// Options of the grid's dropdown.
pub open spec fn grid_choices(roll: PianoRoll) -> Seq<ChoiceView> {
    Seq::new(
        GRID_RES_COUNT as nat,
        |i: int| (grid_at(i).spec_label(), grid_at(i) == roll.grid_res, ToolbarAction::Grid(grid_at(i))),
    )
}

/// Option of a channel.
pub open spec fn channel_choice(roll: PianoRoll, raw: int) -> ChoiceView {
    let mask = only_channel(MidiChannel { raw: raw as u8 });
    ("Channel "@ + natural_text(raw + 1), roll.channel_view == mask, ToolbarAction::Channels(mask))
}

/// Options of the channels' dropdown: all, then each one.
pub open spec fn channel_choices(roll: PianoRoll) -> Seq<ChoiceView> {
    seq![("All Channels"@, roll.channel_view == all_channels(), ToolbarAction::Channels(all_channels()))] + Seq::new(
        CHANNEL_COUNT as nat,
        |i: int| channel_choice(roll, i),
    )
}

/// Options of a list of names.
pub open spec fn root_choices(names: Seq<String>, chosen: int) -> Seq<ChoiceView> {
    Seq::new(names.len(), |i: int| (names[i]@, i == chosen, ToolbarAction::ScaleRoot(i as usize)))
}

/// Options of a list of names.
pub open spec fn kind_choices(names: Seq<String>, chosen: int) -> Seq<ChoiceView> {
    Seq::new(names.len(), |i: int| (names[i]@, i == chosen, ToolbarAction::ScaleKind(i as usize)))
}

/// What the channels' dropdown says.
pub open spec fn channel_text(roll: PianoRoll) -> Seq<char> {
    if roll.channel_view == all_channels() {
        "All Channels"@
    } else {
        match lone_channel(roll.channel_view, 0) {
            Some(c) => "Channel "@ + decimal_text(c + 1),
            None => "Custom"@,
        }
    }
}

/// A button.
pub open spec fn tool_button(label: Seq<char>, on: bool, action: ToolbarAction) -> ItemView {
    ItemView::Button((label, on, action))
}

/// A dropdown.
pub open spec fn dropdown(roll: PianoRoll, menu: PianoSelectMenu, label: Seq<char>, options: Seq<ChoiceView>) -> ItemView {
    ItemView::Select(menu, label, roll.open_select_menu == Some(menu), options)
}

pub open spec fn tools_group(roll: PianoRoll) -> GroupView {
    (
        "Tools"@,
        seq![
            tool_button("Select"@, roll.tool == PianoTool::Select, ToolbarAction::Tool(PianoTool::Select)),
            tool_button("Draw"@, roll.tool == PianoTool::Draw, ToolbarAction::Tool(PianoTool::Draw)),
            tool_button("Line"@, roll.tool == PianoTool::Line, ToolbarAction::Tool(PianoTool::Line)),
            tool_button("Erase"@, roll.tool == PianoTool::Erase, ToolbarAction::Tool(PianoTool::Erase)),
            tool_button("Split"@, roll.tool == PianoTool::Split, ToolbarAction::Tool(PianoTool::Split)),
            tool_button("Mute"@, roll.tool == PianoTool::Mute, ToolbarAction::Tool(PianoTool::Mute)),
        ],
    )
}

pub open spec fn snap_group(roll: PianoRoll) -> GroupView {
    (
        "Snap"@,
        seq![
            tool_button("Snap"@, roll.snap_on, ToolbarAction::ToggleSnap),
            dropdown(roll, PianoSelectMenu::Grid, "Grid: "@ + roll.grid_res.spec_label(), grid_choices(roll)),
        ],
    )
}

pub open spec fn scale_group(roll: PianoRoll, scale: ScaleChoices) -> GroupView {
    (
        "Scale"@,
        seq![
            dropdown(
                roll,
                PianoSelectMenu::ScaleRoot,
                scale.roots@[roll.pitch_ctx.scale.root as int]@,
                root_choices(scale.roots@, roll.pitch_ctx.scale.root as int),
            ),
            dropdown(
                roll,
                PianoSelectMenu::ScaleKind,
                scale.kinds@[roll.pitch_ctx.scale.kind as int]@,
                kind_choices(scale.kinds@, roll.pitch_ctx.scale.kind as int),
            ),
            tool_button("Lock"@, roll.pitch_ctx.constrain, ToolbarAction::ToggleLock),
            tool_button("To Scale"@, false, ToolbarAction::ToScale),
        ],
    )
}

pub open spec fn channel_group(roll: PianoRoll, per_note: bool) -> GroupView {
    (
        "Channel"@,
        seq![
            dropdown(roll, PianoSelectMenu::Channel, channel_text(roll), channel_choices(roll)),
            tool_button("Set Sel"@, false, ToolbarAction::ApplyChannel),
            tool_button("Per-Note Out"@, per_note, ToolbarAction::PerNoteOutput),
        ],
    )
}

pub open spec fn edit_group(roll: PianoRoll) -> GroupView {
    (
        "Edit"@,
        seq![
            tool_button("Quantize"@, roll.quantize_preview, ToolbarAction::Quantize),
            tool_button("Del"@, false, ToolbarAction::Delete),
            tool_button("Dup"@, false, ToolbarAction::Duplicate),
        ],
    )
}

pub open spec fn view_group() -> GroupView {
    (
        "View"@,
        seq![
            tool_button("Fit"@, false, ToolbarAction::Fit),
            tool_button("−"@, false, ToolbarAction::ZoomOut),
            tool_button("+"@, false, ToolbarAction::ZoomIn),
            tool_button("C4"@, false, ToolbarAction::ShowMiddleC),
        ],
    )
}

/// The groups of the toolbar, from the left.
pub open spec fn toolbar_groups(roll: PianoRoll, scale: ScaleChoices, per_note: bool) -> Seq<GroupView> {
    seq![
        tools_group(roll),
        snap_group(roll),
        scale_group(roll, scale),
        channel_group(roll, per_note),
        edit_group(roll),
        ("Controller"@, seq![ItemView::LaneSelector]),
        view_group(),
    ]
}

/// The toolbar of an editor whose clip has `note_count` notes.
pub open spec fn toolbar(roll: PianoRoll, scale: ScaleChoices, per_note: bool, note_count: int) -> ToolbarView {
    (
        toolbar_groups(roll, scale, per_note),
        status_text(roll, note_count, roll.selection@.len() as int),
        if roll.can_pop_out {
            Some(("Pop out"@, false, ToolbarAction::PopOut))
        } else {
            None
        },
    )
}

/// Width of a dropdown's panel.
pub fn select_menu_width(menu: PianoSelectMenu) -> (w: i64)
    ensures
        w == (if menu == PianoSelectMenu::Grid || menu == PianoSelectMenu::Channel {
            160_000_000int
        } else {
            148_000_000int
        }),
{
    if menu == PianoSelectMenu::Grid || menu == PianoSelectMenu::Channel {
        160_000_000
    } else {
        148_000_000
    }
}

/// Controllers sort by number, behind them the streams without one.
impl Keyed for MidiControllerKind {
    open spec fn key(self) -> int {
        match self {
            MidiControllerKind::CC(n) => n as int,
            MidiControllerKind::PitchBend => 200,
            MidiControllerKind::ChannelPressure => 201,
            MidiControllerKind::PolyPressure => 202,
        }
    }

    fn sort_key(&self) -> (k: i128) {
        match *self {
            MidiControllerKind::CC(n) => n as i128,
            MidiControllerKind::PitchBend => 200,
            MidiControllerKind::ChannelPressure => 201,
            MidiControllerKind::PolyPressure => 202,
        }
    }
}

/// The lane is one of those that the lane commands step through.
pub open spec fn in_cycle(kind: ControllerLaneKind) -> bool {
    exists|i: int| 0 <= i < LANE_CYCLE_LEN && #[trigger] lane_at(i) == kind
}

fn is_in_cycle(kind: ControllerLaneKind) -> (r: bool)
    ensures
        r == in_cycle(kind),
{
    let i = place_in_cycle(kind);
    let r = lane_of_cycle(i) == kind;
    proof {
        if r {
            assert(lane_at(i as int) == kind);
        } else {
            assert forall|j: int| 0 <= j < LANE_CYCLE_LEN implies #[trigger] lane_at(j) != kind by {}
        }
    }
    r
}

/// Some lane of the clip has points of this kind.
pub open spec fn has_points(lanes: Seq<(MidiControllerKind, bool)>, kind: MidiControllerKind) -> bool {
    exists|i: int| 0 <= i < lanes.len() && (#[trigger] lanes[i]) == (kind, true)
}

fn has_data(lanes: &Vec<(MidiControllerKind, bool)>, kind: MidiControllerKind) -> (r: bool)
    ensures
        r == has_points(lanes@, kind),
{
    let mut i: usize = 0;
    while i < lanes.len()
        invariant
            i <= lanes@.len(),
            forall|k: int| 0 <= k < i ==> (#[trigger] lanes@[k]) != (kind, true),
        decreases lanes@.len() - i,
    {
        let l = lanes[i];
        if l.0 == kind && l.1 {
            assert(lanes@[i as int] == (kind, true));
            return true;
        }
        i = i + 1;
    }
    false
}

/// A lane that only this clip brings to the menu.
pub open spec fn is_extra(lane: (MidiControllerKind, bool)) -> bool {
    lane.1 && !in_cycle(ControllerLaneKind::Controller(lane.0))
}

/// Kinds that have points in the clip and are not offered anyway, in order.
pub open spec fn extra_kinds(lanes: Seq<(MidiControllerKind, bool)>) -> Seq<MidiControllerKind> {
    sorted(
        lanes.filter(|l: (MidiControllerKind, bool)| is_extra(l)).map_values(|l: (MidiControllerKind, bool)| l.0),
    )
}

fn find_extra_kinds(lanes: &Vec<(MidiControllerKind, bool)>) -> (out: Vec<MidiControllerKind>)
    ensures
        out@ == extra_kinds(lanes@),
{
    let ghost p = |l: (MidiControllerKind, bool)| is_extra(l);
    let ghost f = |l: (MidiControllerKind, bool)| l.0;
    let mut list: Vec<MidiControllerKind> = Vec::new();
    let mut i: usize = 0;
    proof {
        reveal(Seq::filter);
        assert(lanes@.subrange(0, 0).filter(p).map_values(f) =~= Seq::<MidiControllerKind>::empty());
    }
    while i < lanes.len()
        invariant
            i <= lanes@.len(),
            p == (|l: (MidiControllerKind, bool)| is_extra(l)),
            f == (|l: (MidiControllerKind, bool)| l.0),
            list@ == lanes@.subrange(0, i as int).filter(p).map_values(f),
        decreases lanes@.len() - i,
    {
        proof {
            lemma_filter_step(lanes@, i as int, p);
        }
        let ghost front = lanes@.subrange(0, i as int).filter(p);
        let l = lanes[i];
        if l.1 && !is_in_cycle(ControllerLaneKind::Controller(l.0)) {
            list.push(l.0);
            assert(front.push(lanes@[i as int]).map_values(f) =~= front.map_values(f).push(l.0));
        }
        i = i + 1;
    }
    assert(lanes@.subrange(0, lanes@.len() as int) =~= lanes@);
    stable_sort(&list)
}

/// Every controller that has points in the clip is offered: among the common
/// ones or among those of the clip.
pub proof fn law_every_lane_with_points_is_offered(lanes: Seq<(MidiControllerKind, bool)>, kind: MidiControllerKind)
    requires
        has_points(lanes, kind),
    ensures
        in_cycle(ControllerLaneKind::Controller(kind)) || extra_kinds(lanes).contains(kind),
{
    let p = |l: (MidiControllerKind, bool)| is_extra(l);
    let f = |l: (MidiControllerKind, bool)| l.0;
    let i = choose|i: int| 0 <= i < lanes.len() && (#[trigger] lanes[i]) == (kind, true);
    if !in_cycle(ControllerLaneKind::Controller(kind)) {
        lanes.lemma_filter_contains(p, i);
        let kept = lanes.filter(p);
        let j = choose|j: int| 0 <= j < kept.len() && kept[j] == lanes[i];
        assert(kept.map_values(f)[j] == kind);
        assert(kept.map_values(f).contains(kind));
        crate::order::lemma_sorted_contains(kept.map_values(f), kind);
    }
}

/// A row of the lane selector.
#[derive(Debug)]
pub struct LaneOption {
    pub label: String,
    pub kind: ControllerLaneKind,
    pub selected: bool,
    /// A dot shows that the clip has data there.
    pub has_data: bool,
}

/// A row, as contracts speak of it.
pub type LaneOptionView = (Seq<char>, ControllerLaneKind, bool, bool);

impl View for LaneOption {
    type V = LaneOptionView;

    open spec fn view(&self) -> LaneOptionView {
        (self.label@, self.kind, self.selected, self.has_data)
    }
}

/// Views of a list of rows.
pub open spec fn options_view(list: Seq<LaneOption>) -> Seq<LaneOptionView> {
    list.map_values(|o: LaneOption| o@)
}

/// Name of a lane.
pub open spec fn lane_text(kind: ControllerLaneKind) -> Seq<char> {
    match kind {
        ControllerLaneKind::Velocity => "Velocity"@,
        ControllerLaneKind::Controller(k) => kind_label(k),
        ControllerLaneKind::Articulations => "Articulations"@,
    }
}

fn text_of_lane(kind: ControllerLaneKind) -> (s: String)
    ensures
        s@ == lane_text(kind),
{
    match kind {
        ControllerLaneKind::Velocity => "Velocity".to_owned(),
        ControllerLaneKind::Controller(k) => cc_kind_label(k),
        ControllerLaneKind::Articulations => "Articulations".to_owned(),
    }
}

/// The clip has data in a lane.
pub open spec fn lane_has_data(
    kind: ControllerLaneKind,
    lanes: Seq<(MidiControllerKind, bool)>,
    articulations: bool,
) -> bool {
    match kind {
        ControllerLaneKind::Velocity => false,
        ControllerLaneKind::Controller(k) => has_points(lanes, k),
        ControllerLaneKind::Articulations => articulations,
    }
}

/// The rows that are always there.
pub open spec fn common_options(
    roll: PianoRoll,
    lanes: Seq<(MidiControllerKind, bool)>,
    articulations: bool,
) -> Seq<LaneOptionView> {
    Seq::new(
        LANE_CYCLE_LEN as nat,
        |i: int|
            (
                lane_text(lane_at(i)),
                lane_at(i),
                lane_at(i) == roll.lane(),
                lane_has_data(lane_at(i), lanes, articulations),
            ),
    )
}

/// The rows of the clip's own controllers.
pub open spec fn clip_options(roll: PianoRoll, lanes: Seq<(MidiControllerKind, bool)>) -> Seq<LaneOptionView> {
    extra_kinds(lanes).map_values(
        |k: MidiControllerKind|
            (
                kind_label(k),
                ControllerLaneKind::Controller(k),
                ControllerLaneKind::Controller(k) == roll.lane(),
                true,
            ),
    )
}

/// The selector of the controller lane.
#[derive(Debug)]
pub struct LaneSelector {
    pub label: String,
    pub open: bool,
    pub common: Vec<LaneOption>,
    /// Controllers that only this clip brings.
    pub in_clip: Vec<LaneOption>,
    pub custom_label: String,
    pub custom_selected: bool,
    /// The lane is shown.
    pub visible: bool,
}

impl LaneSelector {
    /// The selector shows the editor's state.
    pub open spec fn shows(
        self,
        roll: PianoRoll,
        lanes: Seq<(MidiControllerKind, bool)>,
        articulations: bool,
        own_lanes: bool,
    ) -> bool {
        &&& self.label@ == "Lane: "@ + lane_text(roll.lane())
        &&& self.open == (roll.open_select_menu == Some(PianoSelectMenu::Lane))
        &&& options_view(self.common@) == common_options(roll, lanes, articulations)
        &&& options_view(self.in_clip@) == clip_options(roll, lanes)
        &&& self.custom_label@ == "Custom CC"@ + natural_text(roll.custom_cc as int)
        &&& self.custom_selected == (roll.lane() == ControllerLaneKind::Controller(
            MidiControllerKind::CC(roll.custom_cc),
        ))
        &&& self.visible == !(crate::canvas::lane_shown(roll, own_lanes) is Hidden)
    }

    /// What the button that folds the lane says.
    pub fn fold_label(&self) -> (s: &'static str)
        ensures
            s@ == (if self.visible {
                "▾"@
            } else {
                "▸"@
            }),
    {
        if self.visible {
            "▾"
        } else {
            "▸"
        }
    }
}

fn choice(label: &str, on: bool, action: ToolbarAction) -> (c: Choice)
    ensures
        c@ == (label@, on, action),
{
    Choice { label: label.to_owned(), on, action }
}

fn tool_btn(label: &str, on: bool, action: ToolbarAction) -> (i: ToolbarItem)
    ensures
        i@ == tool_button(label@, on, action),
{
    ToolbarItem::Button(choice(label, on, action))
}

fn scale_options(names: &Vec<String>, chosen: usize, roots: bool) -> (out: Vec<Choice>)
    ensures
        roots ==> choices_view(out@) == root_choices(names@, chosen as int),
        !roots ==> choices_view(out@) == kind_choices(names@, chosen as int),
{
    let mut out: Vec<Choice> = Vec::new();
    let mut i: usize = 0;
    while i < names.len()
        invariant
            i <= names@.len(),
            out@.len() == i,
            forall|k: int|
                0 <= k < i ==> (#[trigger] out@[k])@ == (names@[k]@, k == chosen, if roots {
                    ToolbarAction::ScaleRoot(k as usize)
                } else {
                    ToolbarAction::ScaleKind(k as usize)
                }),
        decreases names@.len() - i,
    {
        let action = if roots {
            ToolbarAction::ScaleRoot(i)
        } else {
            ToolbarAction::ScaleKind(i)
        };
        out.push(choice(names[i].as_str(), i == chosen, action));
        i = i + 1;
    }
    proof {
        if roots {
            assert(choices_view(out@) =~= root_choices(names@, chosen as int));
        } else {
            assert(choices_view(out@) =~= kind_choices(names@, chosen as int));
        }
    }
    out
}

impl PianoRoll {
    /// A dropdown of the toolbar.
    pub fn render_select_menu(&self, menu: PianoSelectMenu, label: String, options: Vec<Choice>) -> (i: ToolbarItem)
        ensures
            i@ == dropdown(*self, menu, label@, choices_view(options@)),
    {
        let open = match self.open_select_menu {
            Some(m) => m == menu,
            None => false,
        };
        ToolbarItem::Select(menu, label, open, options)
    }

    fn grid_options(&self) -> (out: Vec<Choice>)
        ensures
            choices_view(out@) == grid_choices(*self),
    {
        let all = GridRes::all();
        let mut out: Vec<Choice> = Vec::new();
        let mut i: usize = 0;
        while i < all.len()
            invariant
                all@.len() == GRID_RES_COUNT,
                forall|k: int| 0 <= k < all@.len() ==> (#[trigger] all@[k]).rank() == k,
                i <= all@.len(),
                out@.len() == i,
                forall|k: int|
                    0 <= k < i ==> (#[trigger] out@[k])@ == (
                        grid_at(k).spec_label(),
                        grid_at(k) == self.grid_res,
                        ToolbarAction::Grid(grid_at(k)),
                    ),
            decreases all@.len() - i,
        {
            let res = all[i];
            assert(res.rank() == i);
            assert(res == grid_at(i as int));
            out.push(choice(res.label(), res == self.grid_res, ToolbarAction::Grid(res)));
            i = i + 1;
        }
        assert(choices_view(out@) =~= grid_choices(*self));
        out
    }

    fn channel_options(&self) -> (out: Vec<Choice>)
        ensures
            choices_view(out@) == channel_choices(*self),
    {
        let mut out: Vec<Choice> = Vec::new();
        let all = MidiChannelMask::all();
        out.push(choice("All Channels", self.channel_view == all, ToolbarAction::Channels(all)));
        let mut raw: u8 = 0;
        while raw < CHANNEL_COUNT
            invariant
                raw <= CHANNEL_COUNT,
                out@.len() == raw + 1,
                out@[0]@ == (
                    "All Channels"@,
                    self.channel_view == all_channels(),
                    ToolbarAction::Channels(all_channels()),
                ),
                forall|k: int| 0 <= k < raw ==> (#[trigger] out@[k + 1])@ == channel_choice(*self, k),
            decreases CHANNEL_COUNT - raw,
        {
            let mask = MidiChannelMask::single(MidiChannel { raw });
            let mut label = String::new();
            label.append("Channel ");
            push_natural(&mut label, raw as u64 + 1);
            assert(label@ =~= "Channel "@ + natural_text(raw + 1));
            let ghost before = out@;
            out.push(Choice { label, on: self.channel_view == mask, action: ToolbarAction::Channels(mask) });
            assert forall|k: int| 0 <= k < raw + 1 implies (#[trigger] out@[k + 1])@ == channel_choice(*self, k) by {
                if k < raw {
                    assert(out@[k + 1] == before[k + 1]);
                }
            }
            raw = raw + 1;
        }
        assert forall|i: int| 0 <= i < out@.len() implies #[trigger] choices_view(out@)[i] == channel_choices(*self)[i] by {
            if i > 0 {
                assert(out@[(i - 1) + 1]@ == channel_choice(*self, i - 1));
            }
        }
        assert(choices_view(out@) =~= channel_choices(*self));
        out
    }

    /// The controls of the toolbar.
    pub fn render_toolbar(&self, scale: &ScaleChoices, per_note: bool, note_count: usize) -> (bar: Toolbar)
        requires
            self.valid(),
            scale.offers(self.pitch_ctx.scale),
        ensures
            bar@ == toolbar(*self, *scale, per_note, note_count as int),
    {
        let mut out: Vec<ToolbarGroup> = Vec::new();
        out.push(self.tools());
        out.push(self.snap_controls());
        out.push(self.scale_controls(scale));
        out.push(self.channel_controls(per_note));
        out.push(self.edit_controls());
        let mut lane: Vec<ToolbarItem> = Vec::new();
        lane.push(ToolbarItem::LaneSelector);
        assert(items_view(lane@) =~= seq![ItemView::LaneSelector]);
        out.push(ToolbarGroup { title: "Controller".to_owned(), items: lane });
        out.push(view_controls());
        assert(groups_view(out@) =~= toolbar_groups(*self, *scale, per_note));
        let pop_out = if self.can_pop_out {
            Some(choice("Pop out", false, ToolbarAction::PopOut))
        } else {
            None
        };
        Toolbar { groups: out, status: self.toolbar_status(note_count, self.selection.len()), pop_out }
    }

    fn tools(&self) -> (g: ToolbarGroup)
        ensures
            g@ == tools_group(*self),
    {
        let mut items: Vec<ToolbarItem> = Vec::new();
        items.push(tool_btn("Select", self.tool == PianoTool::Select, ToolbarAction::Tool(PianoTool::Select)));
        items.push(tool_btn("Draw", self.tool == PianoTool::Draw, ToolbarAction::Tool(PianoTool::Draw)));
        items.push(tool_btn("Line", self.tool == PianoTool::Line, ToolbarAction::Tool(PianoTool::Line)));
        items.push(tool_btn("Erase", self.tool == PianoTool::Erase, ToolbarAction::Tool(PianoTool::Erase)));
        items.push(tool_btn("Split", self.tool == PianoTool::Split, ToolbarAction::Tool(PianoTool::Split)));
        items.push(tool_btn("Mute", self.tool == PianoTool::Mute, ToolbarAction::Tool(PianoTool::Mute)));
        assert(items_view(items@) =~= tools_group(*self).1);
        ToolbarGroup { title: "Tools".to_owned(), items }
    }

    fn snap_controls(&self) -> (g: ToolbarGroup)
        ensures
            g@ == snap_group(*self),
    {
        let mut label = String::new();
        label.append("Grid: ");
        label.append(self.grid_res.label());
        assert(label@ =~= "Grid: "@ + self.grid_res.spec_label());
        let mut items: Vec<ToolbarItem> = Vec::new();
        items.push(tool_btn("Snap", self.snap_on, ToolbarAction::ToggleSnap));
        items.push(self.render_select_menu(PianoSelectMenu::Grid, label, self.grid_options()));
        assert(items_view(items@) =~= snap_group(*self).1);
        ToolbarGroup { title: "Snap".to_owned(), items }
    }

    fn scale_controls(&self, scale: &ScaleChoices) -> (g: ToolbarGroup)
        requires
            scale.offers(self.pitch_ctx.scale),
        ensures
            g@ == scale_group(*self, *scale),
    {
        let mut items: Vec<ToolbarItem> = Vec::new();
        let now = self.pitch_ctx.scale;
        let root = scale.roots[now.root].clone();
        let kind = scale.kinds[now.kind].clone();
        items.push(
            self.render_select_menu(PianoSelectMenu::ScaleRoot, root, scale_options(scale.roots, now.root, true)),
        );
        items.push(
            self.render_select_menu(PianoSelectMenu::ScaleKind, kind, scale_options(scale.kinds, now.kind, false)),
        );
        items.push(tool_btn("Lock", self.pitch_ctx.constrain, ToolbarAction::ToggleLock));
        items.push(tool_btn("To Scale", false, ToolbarAction::ToScale));
        assert(items_view(items@) =~= scale_group(*self, *scale).1);
        ToolbarGroup { title: "Scale".to_owned(), items }
    }

    fn channel_controls(&self, per_note: bool) -> (g: ToolbarGroup)
        ensures
            g@ == channel_group(*self, per_note),
    {
        let mut items: Vec<ToolbarItem> = Vec::new();
        items.push(self.render_select_menu(PianoSelectMenu::Channel, self.channel_view_label(), self.channel_options()));
        items.push(tool_btn("Set Sel", false, ToolbarAction::ApplyChannel));
        items.push(tool_btn("Per-Note Out", per_note, ToolbarAction::PerNoteOutput));
        assert(items_view(items@) =~= channel_group(*self, per_note).1);
        ToolbarGroup { title: "Channel".to_owned(), items }
    }

    fn edit_controls(&self) -> (g: ToolbarGroup)
        ensures
            g@ == edit_group(*self),
    {
        let mut items: Vec<ToolbarItem> = Vec::new();
        items.push(tool_btn("Quantize", self.quantize_preview, ToolbarAction::Quantize));
        items.push(tool_btn("Del", false, ToolbarAction::Delete));
        items.push(tool_btn("Dup", false, ToolbarAction::Duplicate));
        assert(items_view(items@) =~= edit_group(*self).1);
        ToolbarGroup { title: "Edit".to_owned(), items }
    }

    fn common_lanes(&self, lanes: &Vec<(MidiControllerKind, bool)>, articulations: bool) -> (out: Vec<LaneOption>)
        ensures
            options_view(out@) == common_options(*self, lanes@, articulations),
    {
        let current = self.current_lane();
        let mut out: Vec<LaneOption> = Vec::new();
        let mut i: i32 = 0;
        while i < LANE_CYCLE_LEN
            invariant
                current == self.lane(),
                0 <= i <= LANE_CYCLE_LEN,
                out@.len() == i,
                forall|k: int|
                    0 <= k < i ==> (#[trigger] out@[k])@ == (
                        lane_text(lane_at(k)),
                        lane_at(k),
                        lane_at(k) == self.lane(),
                        lane_has_data(lane_at(k), lanes@, articulations),
                    ),
            decreases LANE_CYCLE_LEN - i,
        {
            let kind = lane_of_cycle(i);
            let data = match kind {
                ControllerLaneKind::Velocity => false,
                ControllerLaneKind::Controller(k) => has_data(lanes, k),
                ControllerLaneKind::Articulations => articulations,
            };
            out.push(LaneOption { label: text_of_lane(kind), kind, selected: kind == current, has_data: data });
            i = i + 1;
        }
        assert(options_view(out@) =~= common_options(*self, lanes@, articulations));
        out
    }

    fn clip_lanes(&self, lanes: &Vec<(MidiControllerKind, bool)>) -> (out: Vec<LaneOption>)
        ensures
            options_view(out@) == clip_options(*self, lanes@),
    {
        let current = self.current_lane();
        let kinds = find_extra_kinds(lanes);
        let mut out: Vec<LaneOption> = Vec::new();
        let mut i: usize = 0;
        while i < kinds.len()
            invariant
                current == self.lane(),
                i <= kinds@.len(),
                out@.len() == i,
                forall|k: int|
                    0 <= k < i ==> (#[trigger] out@[k])@ == (
                        kind_label(kinds@[k]),
                        ControllerLaneKind::Controller(kinds@[k]),
                        ControllerLaneKind::Controller(kinds@[k]) == self.lane(),
                        true,
                    ),
            decreases kinds@.len() - i,
        {
            let kind = ControllerLaneKind::Controller(kinds[i]);
            out.push(LaneOption { label: cc_kind_label(kinds[i]), kind, selected: kind == current, has_data: true });
            i = i + 1;
        }
        assert(options_view(out@) =~= clip_options(*self, lanes@));
        out
    }

    /// The selector of the controller lane. `lanes` are the controllers of the
    /// clip with whether they have points.
    pub fn render_lane_selector(
        &self,
        lanes: &Vec<(MidiControllerKind, bool)>,
        articulations: bool,
        own_lanes: bool,
    ) -> (s: LaneSelector)
        ensures
            s.shows(*self, lanes@, articulations, own_lanes),
    {
        let current = self.current_lane();
        let mut label = String::new();
        label.append("Lane: ");
        let name = self.lane_name();
        label.append(name.as_str());
        assert(label@ =~= "Lane: "@ + lane_text(self.lane()));
        let open = match self.open_select_menu {
            Some(m) => m == PianoSelectMenu::Lane,
            None => false,
        };
        let mut custom_label = String::new();
        custom_label.append("Custom CC");
        push_natural(&mut custom_label, self.custom_cc as u64);
        assert(custom_label@ =~= "Custom CC"@ + natural_text(self.custom_cc as int));
        LaneSelector {
            label,
            open,
            common: self.common_lanes(lanes, articulations),
            in_clip: self.clip_lanes(lanes),
            custom_label,
            custom_selected: current == ControllerLaneKind::Controller(MidiControllerKind::CC(self.custom_cc)),
            visible: self.unified_lane_visible(own_lanes),
        }
    }
}

fn view_controls() -> (g: ToolbarGroup)
    ensures
        g@ == view_group(),
{
    let mut items: Vec<ToolbarItem> = Vec::new();
    items.push(tool_btn("Fit", false, ToolbarAction::Fit));
    items.push(tool_btn("−", false, ToolbarAction::ZoomOut));
    items.push(tool_btn("+", false, ToolbarAction::ZoomIn));
    items.push(tool_btn("C4", false, ToolbarAction::ShowMiddleC));
    assert(items_view(items@) =~= view_group().1);
    ToolbarGroup { title: "View".to_owned(), items }
}

/// The command that a control amounts to, where it is one.
pub open spec fn control_command(action: ToolbarAction, custom_cc: u8) -> Option<RollCommand> {
    match action {
        ToolbarAction::Tool(t) => Some(RollCommand::Tool(t)),
        ToolbarAction::ToggleSnap => Some(RollCommand::ToggleSnap),
        ToolbarAction::Quantize => Some(RollCommand::Quantize),
        ToolbarAction::Delete => Some(RollCommand::DeleteNotes),
        ToolbarAction::Duplicate => Some(RollCommand::DuplicateNotes(false)),
        ToolbarAction::Fit => Some(RollCommand::FitNotes),
        ToolbarAction::ShowMiddleC => Some(RollCommand::ScrollToMiddle),
        ToolbarAction::Lane(k) => Some(RollCommand::Lane(k)),
        ToolbarAction::CustomLane => Some(
            RollCommand::Lane(ControllerLaneKind::Controller(MidiControllerKind::CC(custom_cc))),
        ),
        ToolbarAction::ToggleLane => Some(RollCommand::ToggleLane),
        _ => None,
    }
}

/// The scale and its lock after a control.
pub open spec fn chosen_scale(ctx: PitchContext, action: ToolbarAction) -> PitchContext {
    match action {
        ToolbarAction::ScaleRoot(root) => PitchContext { scale: Scale { root, ..ctx.scale }, ..ctx },
        ToolbarAction::ScaleKind(kind) => PitchContext { scale: Scale { kind, ..ctx.scale }, ..ctx },
        ToolbarAction::ToggleLock => PitchContext { constrain: !ctx.constrain, ..ctx },
        _ => ctx,
    }
}

/// The editor after a control that is no command.
pub open spec fn controlled(
    pre: PianoRoll,
    post: PianoRoll,
    action: ToolbarAction,
    scales: ScaleChoices,
    has_track: bool,
) -> bool {
    match action {
        ToolbarAction::Grid(res) => post == (PianoRoll {
            grid_res: res,
            snap_on: res != GridRes::Free,
            open_select_menu: None,
            ..pre
        }),
        ToolbarAction::Menu(m) => post == (PianoRoll {
            open_select_menu: if pre.open_select_menu == Some(m) {
                None
            } else {
                Some(m)
            },
            ..pre
        }),
        ToolbarAction::ScaleRoot(_) | ToolbarAction::ScaleKind(_) | ToolbarAction::ToggleLock => {
            &&& scales.holds(chosen_scale(pre.pitch_ctx, action), post.pitch_map@)
            &&& post == (PianoRoll {
                pitch_ctx: chosen_scale(pre.pitch_ctx, action),
                pitch_map: post.pitch_map,
                open_select_menu: None,
                ..pre
            })
        },
        ToolbarAction::PerNoteOutput => if has_track {
            silenced(pre, post) && post == (PianoRoll { preview: post.preview, ..pre })
        } else {
            post == pre
        },
        ToolbarAction::Channels(mask) => post == (PianoRoll { channel_view: mask, open_select_menu: None, ..pre }),
        ToolbarAction::ZoomOut => beat_zoomed(pre, post, ZOOM_OUT as int, pre.grid_size().0 / 2),
        ToolbarAction::ZoomIn => beat_zoomed(pre, post, ZOOM_IN as int, pre.grid_size().0 / 2),
        ToolbarAction::StepCustom(up) => post == (PianoRoll {
            custom_cc: if up {
                if pre.custom_cc >= 127 {
                    127
                } else {
                    (pre.custom_cc + 1) as u8
                }
            } else if pre.custom_cc == 0 {
                0
            } else {
                (pre.custom_cc - 1) as u8
            },
            ..pre
        }),
        _ => post == pre,
    }
}

/// The track of the edited clip and whether its output has a channel per note.
pub open spec fn edited_track(track: Option<(String, bool)>, input: CommandInput) -> Option<(Seq<char>, bool)> {
    match (track, input.clip) {
        (Some(t), Some(_)) => Some((t.0@, t.1)),
        _ => None,
    }
}

/// What a control that is no command says to the instrument: only a track whose
/// output changes is silenced.
pub open spec fn control_says(
    pre: PianoRoll,
    action: ToolbarAction,
    has_track: bool,
    target: Option<PreviewTarget>,
) -> Seq<PreviewMessage> {
    if action == ToolbarAction::PerNoteOutput && has_track {
        silence(pre, target)
    } else {
        Seq::empty()
    }
}

/// What a control asks of the song.
pub open spec fn control_asks(
    pre: PianoRoll,
    action: ToolbarAction,
    input: CommandInput,
    track_channel: MidiChannel,
    track: Option<(Seq<char>, bool)>,
) -> Option<EditView> {
    match action {
        ToolbarAction::ToScale => of_selected_ids(
            pre,
            input.clip,
            |id: Seq<char>, ids: Seq<u64>| EditView::SnapToScale(id, ids, pre.pitch_ctx.scale),
        ),
        ToolbarAction::PerNoteOutput => match track {
            Some(t) => Some(EditView::SetOutputPerNote(t.0, !t.1)),
            None => None,
        },
        ToolbarAction::ApplyChannel => of_selected_ids(
            pre,
            input.clip,
            |id: Seq<char>, ids: Seq<u64>| EditView::SetChannel(id, ids, pre.drawing_channel(track_channel)),
        ),
        _ => match control_command(action, pre.custom_cc) {
            Some(c) => command_asks(pre, c, input),
            None => None,
        },
    }
}

/// Choosing the free grid turns snapping off, and any other turns it on.
pub proof fn law_grid_choice_sets_snapping(
    pre: PianoRoll,
    post: PianoRoll,
    res: GridRes,
    scales: ScaleChoices,
    has_track: bool,
)
    requires
        pre.valid(),
        controlled(pre, post, ToolbarAction::Grid(res), scales, has_track),
    ensures
        post.snap_on == (res != GridRes::Free),
        res == GridRes::Free <==> post.snap_step(false) == 0,
{
}

impl PianoRoll {
    /// Does what a control of the toolbar does, and says whether the editor is to
    /// be opened in a window of its own. `track` is that of the edited clip, with
    /// whether its output has a channel per note.
    #[verifier::rlimit(40)]
    pub fn run_toolbar_action(
        &mut self,
        action: ToolbarAction,
        input: &CommandInput,
        track_channel: MidiChannel,
        track: Option<(String, bool)>,
        scales: &ScaleChoices,
        target: Option<PreviewTarget>,
    ) -> (r: (Outcome, bool))
        requires
            old(self).valid(),
            input.valid(),
            scales.valid(),
            scales.offers(chosen_scale(old(self).pitch_ctx, action).scale),
            action == ToolbarAction::ZoomOut ==> zoom_stays_in_reach(
                *old(self),
                ZOOM_OUT as int,
                old(self).grid_size().0 / 2,
            ),
            action == ToolbarAction::ZoomIn ==> zoom_stays_in_reach(
                *old(self),
                ZOOM_IN as int,
                old(self).grid_size().0 / 2,
            ),
        ensures
            match control_command(action, old(self).custom_cc) {
                Some(c) => commanded(*old(self), *final(self), c, *input) && r.0.said() == command_says(
                    *old(self),
                    c,
                    *input,
                    target,
                ),
                None => {
                    let has_track = edited_track(track, *input) is Some;
                    controlled(*old(self), *final(self), action, *scales, has_track) && r.0.said() == control_says(
                        *old(self),
                        action,
                        has_track,
                        target,
                    )
                },
            },
            r.0.asks() == control_asks(*old(self), action, *input, track_channel, edited_track(track, *input)),
            r.1 == (action == ToolbarAction::PopOut && old(self).can_pop_out),
            final(self).valid(),
    {
        let command = match action {
            ToolbarAction::Tool(t) => RollCommand::Tool(t),
            ToolbarAction::ToggleSnap => RollCommand::ToggleSnap,
            ToolbarAction::Quantize => RollCommand::Quantize,
            ToolbarAction::Delete => RollCommand::DeleteNotes,
            ToolbarAction::Duplicate => RollCommand::DuplicateNotes(false),
            ToolbarAction::Fit => RollCommand::FitNotes,
            ToolbarAction::ShowMiddleC => RollCommand::ScrollToMiddle,
            ToolbarAction::Lane(k) => RollCommand::Lane(k),
            ToolbarAction::CustomLane => RollCommand::Lane(
                ControllerLaneKind::Controller(MidiControllerKind::CC(self.custom_cc)),
            ),
            ToolbarAction::ToggleLane => RollCommand::ToggleLane,
            ToolbarAction::Grid(res) => {
                self.grid_res = res;
                self.snap_on = !res.is_free();
                self.open_select_menu = None;
                return (Outcome::nothing(), false);
            },
            ToolbarAction::Menu(m) => {
                let open = match self.open_select_menu {
                    Some(n) => n == m,
                    None => false,
                };
                self.open_select_menu = if open {
                    None
                } else {
                    Some(m)
                };
                return (Outcome::nothing(), false);
            },
            ToolbarAction::ScaleRoot(root) => {
                let ctx = self.pitch_ctx;
                self.hold_to(PitchContext { scale: Scale { root, ..ctx.scale }, ..ctx }, scales);
                return (Outcome::nothing(), false);
            },
            ToolbarAction::ScaleKind(kind) => {
                let ctx = self.pitch_ctx;
                self.hold_to(PitchContext { scale: Scale { kind, ..ctx.scale }, ..ctx }, scales);
                return (Outcome::nothing(), false);
            },
            ToolbarAction::ToggleLock => {
                let ctx = self.pitch_ctx;
                self.hold_to(PitchContext { constrain: !ctx.constrain, ..ctx }, scales);
                return (Outcome::nothing(), false);
            },
            ToolbarAction::PopOut => {
                return (Outcome::nothing(), self.can_pop_out);
            },
            ToolbarAction::ToScale => {
                return (Outcome::of_edit(self.snap_selection_to_scale(input.clip)), false);
            },
            ToolbarAction::Channels(mask) => {
                self.set_channel_view(mask);
                return (Outcome::nothing(), false);
            },
            ToolbarAction::ApplyChannel => {
                let channel = self.active_note_channel(track_channel);
                return (Outcome::of_edit(self.set_selected_notes_channel(channel, input.clip)), false);
            },
            ToolbarAction::PerNoteOutput => {
                let track = match input.clip {
                    Some(_) => track,
                    None => None,
                };
                return (self.toggle_track_output_per_note(track, target), false);
            },
            ToolbarAction::ZoomOut => {
                self.zoom_by(ZOOM_OUT);
                return (Outcome::nothing(), false);
            },
            ToolbarAction::ZoomIn => {
                self.zoom_by(ZOOM_IN);
                return (Outcome::nothing(), false);
            },
            ToolbarAction::StepCustom(up) => {
                let n = self.custom_cc;
                self.custom_cc = if up {
                    if n >= 127 {
                        127
                    } else {
                        n + 1
                    }
                } else if n == 0 {
                    0
                } else {
                    n - 1
                };
                return (Outcome::nothing(), false);
            },
        };
        (self.run_command(command, input, target).0, false)
    }

    fn hold_to(&mut self, ctx: PitchContext, scales: &ScaleChoices)
        requires
            old(self).valid(),
            scales.valid(),
            scales.offers(ctx.scale),
        ensures
            scales.holds(ctx, final(self).pitch_map@),
            *final(self) == (PianoRoll {
                pitch_ctx: ctx,
                pitch_map: final(self).pitch_map,
                open_select_menu: None,
                ..*old(self)
            }),
            final(self).valid(),
    {
        self.pitch_ctx = ctx;
        self.pitch_map = scales.held_pitches(ctx);
        self.open_select_menu = None;
    }

    /// Alt and the wheel over the lane selector step through the lanes; says
    /// whether they did.
    pub fn lane_selector_wheel(&mut self, alt: bool, dy: i64) -> (used: bool)
        requires
            old(self).valid(),
        ensures
            used == (alt && dy != 0),
            !used ==> *final(self) == *old(self),
            used ==> final(self).lane() == crate::lanes::lane_after(old(self).lane(), if dy < 0 {
                1
            } else {
                -1
            }),
            used ==> *final(self) == (PianoRoll {
                lane_view: final(self).lane_view,
                active_cc: final(self).active_cc,
                lane_visible: true,
                open_select_menu: None,
                selected_articulation: None,
                lane_bounds: None,
                ..*old(self)
            }),
            final(self).valid(),
    {
        if !alt || dy == 0 {
            return false;
        }
        self.cycle_lane(if dy < 0 { 1 } else { -1 });
        true
    }

    /// The pointer is over the quantize button, or leaves it.
    pub fn hover_quantize(&mut self, hovered: bool)
        ensures
            *final(self) == (PianoRoll { quantize_preview: hovered, ..*old(self) }),
    {
        self.quantize_preview = hovered;
    }
}

} // verus!
