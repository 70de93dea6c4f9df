//! The note inspector, the menu of the selected notes, and what their buttons
//! do.

use crate::commands::{command_asks, command_says, commanded, CommandInput, RollCommand};
use crate::fixed::{clamp_i64, clamp_to, max_i64, max_of, MIN_NOTE_TICKS};
use crate::labels::{
    inspector_beats, plural, plural_text, shared_byte, shared_time, NoteByte, NoteInspectorSnapshot, NoteTime,
};
use crate::midi::{notes_in, snapshot_notes, ArticulationId, MidiNote, ARTICULATION_COUNT};
use crate::note_edits::{
    all_muted, earliest_start, latest_end, mute_target, nudged_lengths, nudged_starts, transpose_changes,
    uniform_articulation,
};
use crate::pitch::pitch_name;
use crate::preview::{PreviewMessage, PreviewTarget};
use crate::roll::{ClipView, PianoRoll};
use crate::roll_edit::{EditView, Outcome};
use crate::selection_edits::{clip_name, of_selected_ids, selected, unless_empty};
use crate::text::{decimal, decimal_text, natural_text, push_natural};
use vstd::prelude::*;

verus! {

/// What a button for the selected notes does.
#[derive(Debug, Clone, Copy, PartialEq, Eq, Structural)]
pub enum NoteAction {
    Articulate(Option<ArticulationId>),
    Channel(i32),
    Pitch(i32),
    Start(i64),
    Length(i64),
    Velocity(i16),
    ToggleMute,
    Quantize,
    Delete,
    Duplicate,
}

/// A button.
#[derive(Debug)]
pub struct NoteButton {
    pub label: String,
    /// The selection has what the button sets.
    pub active: bool,
    pub action: NoteAction,
}

/// A button, as contracts speak of it: label, whether it is active, and action.
pub type ButtonView = (Seq<char>, bool, NoteAction);

impl View for NoteButton {
    type V = ButtonView;

    open spec fn view(&self) -> ButtonView {
        (self.label@, self.active, self.action)
    }
}

/// A row of the inspector.
#[derive(Debug)]
pub enum InspectorRow {
    Title(String),
    Hint(String),
    Value(String, String),
    Buttons(Vec<NoteButton>),
}

/// A row of the inspector, as contracts speak of it.
pub ghost enum RowView {
    Title(Seq<char>),
    Hint(Seq<char>),
    Value(Seq<char>, Seq<char>),
    Buttons(Seq<ButtonView>),
}

/// Views of a list of buttons.
pub open spec fn buttons_view(list: Seq<NoteButton>) -> Seq<ButtonView> {
    list.map_values(|b: NoteButton| b@)
}

impl View for InspectorRow {
    type V = RowView;

    open spec fn view(&self) -> RowView {
        match self {
            InspectorRow::Title(s) => RowView::Title(s@),
            InspectorRow::Hint(s) => RowView::Hint(s@),
            InspectorRow::Value(l, v) => RowView::Value(l@, v@),
            InspectorRow::Buttons(list) => RowView::Buttons(buttons_view(list@)),
        }
    }
}

/// Views of a list of rows.
pub open spec fn rows_view(list: Seq<InspectorRow>) -> Seq<RowView> {
    list.map_values(|r: InspectorRow| r@)
}

/// Names that come from outside the editor.
pub struct NoteNames<'a> {
    /// Name of each articulation, by rank.
    pub articulations: &'a Vec<String>,
    /// Short name of each articulation, by rank.
    pub short: &'a Vec<String>,
    /// Name of each channel byte.
    pub channels: &'a Vec<String>,
}

impl<'a> NoteNames<'a> {
    pub open spec fn valid(self) -> bool {
        self.articulations@.len() == ARTICULATION_COUNT && self.short@.len() == ARTICULATION_COUNT
            && self.channels@.len() == 256
    }
}

pub open spec fn pitch_cell(notes: Seq<MidiNote>) -> Seq<char> {
    match shared_byte(notes, NoteByte::Pitch) {
        Some(p) => pitch_name(p as int) + " ("@ + decimal_text(p as int) + ")"@,
        None => "Mixed"@,
    }
}

pub open spec fn time_cell(notes: Seq<MidiNote>, field: NoteTime) -> Seq<char> {
    match shared_time(notes, field) {
        Some(t) => inspector_beats(t as int),
        None => "Mixed"@,
    }
}

pub open spec fn velocity_cell(notes: Seq<MidiNote>) -> Seq<char> {
    match shared_byte(notes, NoteByte::Velocity) {
        Some(v) => decimal_text(v as int),
        None => "Mixed"@,
    }
}

pub open spec fn channel_cell(notes: Seq<MidiNote>, channels: Seq<String>) -> Seq<char> {
    match shared_byte(notes, NoteByte::Channel) {
        Some(c) => channels[c as int]@,
        None => "Mixed"@,
    }
}

/// The articulation that all notes share; `None` for a mixed or empty list.
pub open spec fn shared_articulation(notes: Seq<MidiNote>) -> Option<Option<ArticulationId>> {
    if notes.len() > 0 && (forall|i: int|
        0 <= i < notes.len() ==> (#[trigger] notes[i]).articulation == notes[0].articulation) {
        Some(notes[0].articulation)
    } else {
        None
    }
}

pub open spec fn articulation_cell(notes: Seq<MidiNote>, names: Seq<String>) -> Seq<char> {
    match shared_articulation(notes) {
        Some(Some(a)) => names[a.rank()]@,
        Some(None) => "None"@,
        None => "Mixed"@,
    }
}

pub open spec fn range_cell(notes: Seq<MidiNote>) -> Seq<char> {
    inspector_beats(earliest_start(notes)) + ".."@ + inspector_beats(latest_end(notes))
}

/// One button for each articulation that the instrument has, and one for none.
pub open spec fn articulation_buttons(
    available: Seq<ArticulationId>,
    short: Seq<String>,
    current: Option<Option<ArticulationId>>,
) -> Seq<ButtonView> {
    available.map_values(
        |a: ArticulationId| (short[a.rank()]@, current == Some(Some(a)), NoteAction::Articulate(Some(a))),
    ).push(("None"@, current == Some(None::<ArticulationId>), NoteAction::Articulate(None)))
}

/// Two buttons that do not show a state.
pub open spec fn button_pair(a: Seq<char>, first: NoteAction, b: Seq<char>, second: NoteAction) -> RowView {
    RowView::Buttons(seq![(a, false, first), (b, false, second)])
}

/// Step that the inspector moves starts by: that of the grid as it is shown.
pub open spec fn inspector_step(roll: PianoRoll) -> int {
    max_of(roll.step(), MIN_NOTE_TICKS as int)
}

/// Step that the inspector changes lengths by.
pub open spec fn inspector_fine_step(roll: PianoRoll) -> int {
    max_of(inspector_step(roll) / 4, MIN_NOTE_TICKS as int)
}

/// What the inspector says of a single note.
pub open spec fn single_rows(
    roll: PianoRoll,
    notes: Seq<MidiNote>,
    available: Seq<ArticulationId>,
    names: NoteNames,
) -> Seq<RowView> {
    let n = notes[0];
    let step = inspector_step(roll) as i64;
    let fine = inspector_fine_step(roll) as i64;
    seq![
        RowView::Title("NOTE INSPECTOR"@),
        RowView::Value("Pitch"@, pitch_cell(notes)),
        RowView::Value("Start"@, inspector_beats(n.start as int)),
        RowView::Value("Length"@, inspector_beats(n.duration as int)),
        RowView::Value("End"@, inspector_beats(n.start + n.duration)),
        RowView::Value("Velocity"@, decimal_text(n.velocity as int)),
        RowView::Value("Channel"@, names.channels@[n.channel.raw as int]@),
        RowView::Value("Artic."@, articulation_cell(notes, names.articulations@)),
        RowView::Buttons(articulation_buttons(available, names.short@, shared_articulation(notes))),
        button_pair("Ch -1"@, NoteAction::Channel((-1) as i32), "Ch +1"@, NoteAction::Channel(1)),
        button_pair("-1 st"@, NoteAction::Pitch((-1) as i32), "+1 st"@, NoteAction::Pitch(1)),
        button_pair("-Start"@, NoteAction::Start((-step) as i64), "+Start"@, NoteAction::Start(step)),
        button_pair("-Len"@, NoteAction::Length((-fine) as i64), "+Len"@, NoteAction::Length(fine)),
        button_pair("Vel -5"@, NoteAction::Velocity((-5) as i16), "Vel +5"@, NoteAction::Velocity(5)),
        RowView::Buttons(
            seq![
                (
                    if n.muted {
                        "Unmute"@
                    } else {
                        "Mute"@
                    },
                    false,
                    NoteAction::ToggleMute,
                ),
            ],
        ),
    ]
}

/// What the inspector says of several notes.
pub open spec fn several_rows(
    notes: Seq<MidiNote>,
    available: Seq<ArticulationId>,
    names: NoteNames,
) -> Seq<RowView> {
    seq![
        RowView::Title("NOTE INSPECTOR"@),
        RowView::Value("Selected"@, natural_text(notes.len() as int)),
        RowView::Value("Pitch"@, pitch_cell(notes)),
        RowView::Value("Range"@, range_cell(notes)),
        RowView::Value("Start"@, time_cell(notes, NoteTime::Start)),
        RowView::Value("Length"@, time_cell(notes, NoteTime::Length)),
        RowView::Value("Velocity"@, velocity_cell(notes)),
        RowView::Value("Channel"@, channel_cell(notes, names.channels@)),
        RowView::Value("Artic."@, articulation_cell(notes, names.articulations@)),
        RowView::Buttons(articulation_buttons(available, names.short@, shared_articulation(notes))),
        button_pair("Ch -1"@, NoteAction::Channel((-1) as i32), "Ch +1"@, NoteAction::Channel(1)),
        button_pair("-1 st"@, NoteAction::Pitch((-1) as i32), "+1 st"@, NoteAction::Pitch(1)),
        button_pair("Vel -5"@, NoteAction::Velocity((-5) as i16), "Vel +5"@, NoteAction::Velocity(5)),
        button_pair("Quantize"@, NoteAction::Quantize, "Delete"@, NoteAction::Delete),
        button_pair("Mute"@, NoteAction::ToggleMute, "Duplicate"@, NoteAction::Duplicate),
    ]
}

/// What the inspector says of the selected notes.
pub open spec fn inspector_rows(
    roll: PianoRoll,
    notes: Seq<MidiNote>,
    available: Seq<ArticulationId>,
    names: NoteNames,
) -> Seq<RowView> {
    if notes.len() == 0 {
        seq![
            RowView::Title("NOTE INSPECTOR"@),
            RowView::Hint("Select notes in the piano roll to edit pitch, timing, and velocity."@),
        ]
    } else if notes.len() == 1 {
        single_rows(roll, notes, available, names)
    } else {
        several_rows(notes, available, names)
    }
}

fn button(label: &str, action: NoteAction) -> (b: NoteButton)
    ensures
        b@ == (label@, false, action),
{
    NoteButton { label: label.to_owned(), active: false, action }
}

fn pair(a: &str, first: NoteAction, b: &str, second: NoteAction) -> (r: InspectorRow)
    ensures
        r@ == button_pair(a@, first, b@, second),
{
    let mut list: Vec<NoteButton> = Vec::new();
    list.push(button(a, first));
    list.push(button(b, second));
    assert(buttons_view(list@) =~= seq![(a@, false, first), (b@, false, second)]);
    InspectorRow::Buttons(list)
}

fn value(label: &str, text: String) -> (r: InspectorRow)
    ensures
        r@ == RowView::Value(label@, text@),
{
    InspectorRow::Value(label.to_owned(), text)
}

fn copy_text(s: &String) -> (t: String)
    ensures
        t@ == s@,
{
    s.clone()
}

/// One button for each articulation that the instrument has, and one for none.
pub fn articulation_assign_row(
    available: &Vec<ArticulationId>,
    short: &Vec<String>,
    current: Option<Option<ArticulationId>>,
) -> (out: Vec<NoteButton>)
    requires
        short@.len() == ARTICULATION_COUNT,
    ensures
        buttons_view(out@) == articulation_buttons(available@, short@, current),
{
    let ghost f = |a: ArticulationId|
        (short@[a.rank()]@, current == Some(Some(a)), NoteAction::Articulate(Some(a)));
    let mut out: Vec<NoteButton> = Vec::new();
    let mut i: usize = 0;
    while i < available.len()
        invariant
            short@.len() == ARTICULATION_COUNT,
            i <= available@.len(),
            out@.len() == i,
            f == (|a: ArticulationId|
                (short@[a.rank()]@, current == Some(Some(a)), NoteAction::Articulate(Some(a)))),
            forall|k: int| 0 <= k < i ==> (#[trigger] out@[k])@ == f(available@[k]),
        decreases available@.len() - i,
    {
        let a = available[i];
        let active = match current {
            Some(Some(c)) => c == a,
            _ => false,
        };
        out.push(
            NoteButton { label: copy_text(&short[a.index()]), active, action: NoteAction::Articulate(Some(a)) },
        );
        i = i + 1;
    }
    let none_active = match current {
        Some(None) => true,
        _ => false,
    };
    out.push(NoteButton { label: "None".to_owned(), active: none_active, action: NoteAction::Articulate(None) });
    assert(buttons_view(out@) =~= articulation_buttons(available@, short@, current));
    out
}

/// Name of the element of an articulation's button.
pub fn articulation_button_id(articulation: Option<ArticulationId>) -> (s: &'static str)
    ensures
        s@ == (match articulation {
            None => "pr-art-assign-none"@,
            Some(ArticulationId::Sustain) => "pr-art-assign-sustain"@,
            Some(ArticulationId::Staccato) => "pr-art-assign-staccato"@,
            Some(ArticulationId::Staccatissimo) => "pr-art-assign-staccatissimo"@,
            Some(ArticulationId::Legato) => "pr-art-assign-legato"@,
            Some(ArticulationId::Tenuto) => "pr-art-assign-tenuto"@,
            Some(ArticulationId::Accent) => "pr-art-assign-accent"@,
            Some(ArticulationId::Marcato) => "pr-art-assign-marcato"@,
            Some(ArticulationId::Pizzicato) => "pr-art-assign-pizzicato"@,
            Some(ArticulationId::Tremolo) => "pr-art-assign-tremolo"@,
        }),
{
    match articulation {
        None => "pr-art-assign-none",
        Some(ArticulationId::Sustain) => "pr-art-assign-sustain",
        Some(ArticulationId::Staccato) => "pr-art-assign-staccato",
        Some(ArticulationId::Staccatissimo) => "pr-art-assign-staccatissimo",
        Some(ArticulationId::Legato) => "pr-art-assign-legato",
        Some(ArticulationId::Tenuto) => "pr-art-assign-tenuto",
        Some(ArticulationId::Accent) => "pr-art-assign-accent",
        Some(ArticulationId::Marcato) => "pr-art-assign-marcato",
        Some(ArticulationId::Pizzicato) => "pr-art-assign-pizzicato",
        Some(ArticulationId::Tremolo) => "pr-art-assign-tremolo",
    }
}

fn articulation_text(snapshot: &NoteInspectorSnapshot, names: &Vec<String>) -> (s: String)
    requires
        names@.len() == ARTICULATION_COUNT,
    ensures
        s@ == articulation_cell(snapshot.selected@, names@),
{
    match uniform_articulation(&snapshot.selected) {
        Some(Some(a)) => copy_text(&names[a.index()]),
        Some(None) => "None".to_owned(),
        None => "Mixed".to_owned(),
    }
}

proof fn lemma_song_notes(notes: Seq<MidiNote>)
    requires
        crate::drag::notes_in_song(notes),
    ensures
        crate::midi::valid_notes(notes),
{
    assert forall|i: int| 0 <= i < notes.len() implies (#[trigger] notes[i]).valid() by {
        assert(crate::drag::note_in_song(notes[i]));
    }
}

proof fn lemma_chosen_notes(notes: Seq<MidiNote>, ids: Set<u64>)
    requires
        crate::drag::notes_in_song(notes),
    ensures
        crate::drag::notes_in_song(notes_in(notes, ids)),
{
    let p = |n: MidiNote| ids.contains(n.id);
    notes.lemma_filter_len(p);
    assert forall|i: int| 0 <= i < notes_in(notes, ids).len() implies crate::drag::note_in_song(
        #[trigger] notes_in(notes, ids)[i],
    ) by {
        let e = notes_in(notes, ids)[i];
        assert(notes_in(notes, ids).contains(e));
        notes.lemma_filter_contains_rev(p, e);
    }
}

/// The menu of the selected notes.
#[derive(Debug)]
pub enum MenuEntry {
    Heading(String),
    Row(MenuRow),
}

/// A row of the menu.
#[derive(Debug)]
pub struct MenuRow {
    pub label: String,
    /// The selection has what the row sets.
    pub marked: bool,
    pub destructive: bool,
    /// The menu closes.
    pub closes: bool,
    pub action: NoteAction,
}

/// The menu of the selected notes, as contracts speak of it.
pub ghost enum EntryView {
    Heading(Seq<char>),
    /// Label, marked, destructive, whether the menu closes, and action.
    Row(Seq<char>, bool, bool, bool, NoteAction),
}

impl View for MenuEntry {
    type V = EntryView;

    open spec fn view(&self) -> EntryView {
        match self {
            MenuEntry::Heading(s) => EntryView::Heading(s@),
            MenuEntry::Row(r) => EntryView::Row(r.label@, r.marked, r.destructive, r.closes, r.action),
        }
    }
}

/// Views of a list of menu entries.
pub open spec fn menu_view(list: Seq<MenuEntry>) -> Seq<EntryView> {
    list.map_values(|e: MenuEntry| e@)
}

/// Width of the menu.
pub const NOTE_MENU_W: i64 = 168_000_000;

/// Greatest height of the menu.
pub const NOTE_MENU_H: i64 = 300_000_000;

/// Least distance of the menu from the edges.
pub const NOTE_MENU_MARGIN: i64 = 2_000_000;

/// The rows of the articulations.
pub open spec fn menu_articulations(
    available: Seq<ArticulationId>,
    names: Seq<String>,
    current: Option<Option<ArticulationId>>,
) -> Seq<EntryView> {
    available.map_values(
        |a: ArticulationId|
            EntryView::Row(names[a.rank()]@, current == Some(Some(a)), false, true, NoteAction::Articulate(Some(a))),
    )
}

/// The rows under the articulations.
pub open spec fn menu_commands(current: Option<Option<ArticulationId>>, muted: bool, count: int) -> Seq<EntryView> {
    seq![
        EntryView::Row("None"@, current == Some(None::<ArticulationId>), false, true, NoteAction::Articulate(None)),
        EntryView::Heading("Note"@),
        EntryView::Row(
            if muted {
                "Unmute"@
            } else {
                "Mute"@
            },
            muted,
            false,
            true,
            NoteAction::ToggleMute,
        ),
        EntryView::Row("Velocity +5"@, false, false, false, NoteAction::Velocity(5)),
        EntryView::Row("Velocity -5"@, false, false, false, NoteAction::Velocity((-5) as i16)),
        EntryView::Row(
            "Delete "@ + natural_text(count) + " note"@ + plural_text(count),
            false,
            true,
            true,
            NoteAction::Delete,
        ),
    ]
}

/// The menu of the selected notes.
pub open spec fn note_menu(
    notes: Seq<MidiNote>,
    count: int,
    available: Seq<ArticulationId>,
    names: Seq<String>,
) -> Seq<EntryView> {
    let current = shared_articulation(notes);
    seq![EntryView::Heading("Articulation"@)] + menu_articulations(available, names, current) + menu_commands(
        current,
        notes.len() > 0 && !mute_target(notes),
        count,
    )
}

/// The menu of the selected notes, where it is open.
pub open spec fn note_menu_shown(
    r: Option<((i64, i64), Vec<MenuEntry>)>,
    roll: PianoRoll,
    clip: ClipView,
    available: Seq<ArticulationId>,
    names: Seq<String>,
) -> bool {
    match r {
        Some(m) => {
            &&& roll.open_note_menu matches Some(at) && (m.0).0 == menu_place(
                at.0 as int,
                roll.grid_size().0,
                NOTE_MENU_W as int,
            ) && (m.0).1 == menu_place(at.1 as int, roll.grid_size().1, NOTE_MENU_H as int)
            &&& menu_view(m.1@) == note_menu(
                notes_in(clip.notes@, roll.selection@),
                roll.selection@.len() as int,
                available,
                names,
            )
        },
        None => roll.open_note_menu is None,
    }
}

/// Where a menu opens so that all of it stays on screen.
pub open spec fn menu_place(at: int, view: int, size: int) -> int {
    clamp_to(at, NOTE_MENU_MARGIN as int, max_of(view - size, NOTE_MENU_MARGIN as int))
}

/// A menu that fits is on screen with all of it.
pub proof fn law_menu_stays_on_screen(at: int, view: int, size: int)
    requires
        0 <= size,
        size + NOTE_MENU_MARGIN <= view,
    ensures
        0 <= menu_place(at, view, size),
        menu_place(at, view, size) + size <= view,
{
}

fn plain_row(label: &str, action: NoteAction, marked: bool, destructive: bool, closes: bool) -> (e: MenuEntry)
    ensures
        e@ == EntryView::Row(label@, marked, destructive, closes, action),
{
    MenuEntry::Row(MenuRow { label: label.to_owned(), marked, destructive, closes, action })
}

fn push_articulations(
    out: &mut Vec<MenuEntry>,
    available: &Vec<ArticulationId>,
    names: &Vec<String>,
    current: Option<Option<ArticulationId>>,
)
    requires
        names@.len() == ARTICULATION_COUNT,
    ensures
        menu_view(final(out)@) == menu_view(old(out)@) + menu_articulations(available@, names@, current),
{
    let ghost before = menu_view(out@);
    let ghost f = |a: ArticulationId|
        EntryView::Row(names@[a.rank()]@, current == Some(Some(a)), false, true, NoteAction::Articulate(Some(a)));
    let mut i: usize = 0;
    assert(menu_view(out@) =~= before + available@.subrange(0, 0).map_values(f));
    while i < available.len()
        invariant
            names@.len() == ARTICULATION_COUNT,
            i <= available@.len(),
            f == (|a: ArticulationId|
                EntryView::Row(
                    names@[a.rank()]@,
                    current == Some(Some(a)),
                    false,
                    true,
                    NoteAction::Articulate(Some(a)),
                )),
            menu_view(out@) == before + available@.subrange(0, i as int).map_values(f),
        decreases available@.len() - i,
    {
        let a = available[i];
        let marked = match current {
            Some(Some(c)) => c == a,
            _ => false,
        };
        let ghost mid = out@;
        out.push(
            MenuEntry::Row(
                MenuRow {
                    label: copy_text(&names[a.index()]),
                    marked,
                    destructive: false,
                    closes: true,
                    action: NoteAction::Articulate(Some(a)),
                },
            ),
        );
        proof {
            assert(menu_view(out@) =~= menu_view(mid).push(f(a)));
            assert(available@.subrange(0, i + 1).map_values(f) =~= available@.subrange(0, i as int).map_values(f).push(
                f(a),
            ));
            assert(before + available@.subrange(0, i as int).map_values(f).push(f(a)) =~= (before + available@.subrange(
                0,
                i as int,
            ).map_values(f)).push(f(a)));
        }
        i = i + 1;
    }
    assert(available@.subrange(0, available@.len() as int) =~= available@);
    assert(available@.map_values(f) =~= menu_articulations(available@, names@, current));
}

impl PianoRoll {
    /// Snapshot of the selected notes.
    pub fn note_inspector_snapshot(&self, clip: &ClipView) -> (s: NoteInspectorSnapshot)
        requires
            clip.valid(),
        ensures
            s.selected@ == notes_in(clip.notes@, self.selection@),
            crate::drag::notes_in_song(s.selected@),
    {
        proof {
            lemma_chosen_notes(clip.notes@, self.selection@);
        }
        NoteInspectorSnapshot { selected: snapshot_notes(&clip.notes, &self.selection) }
    }

    /// The articulation that all selected notes share.
    pub fn uniform_selection_articulation(&self, clip: &ClipView) -> (r: Option<Option<ArticulationId>>)
        requires
            clip.valid(),
        ensures
            r == shared_articulation(notes_in(clip.notes@, self.selection@)),
    {
        uniform_articulation(&self.note_inspector_snapshot(clip).selected)
    }

    /// Whether there are selected notes and all of them are muted.
    pub fn selection_all_muted(&self, clip: &ClipView) -> (r: bool)
        requires
            clip.valid(),
        ensures
            ({
                let notes = notes_in(clip.notes@, self.selection@);
                r == (notes.len() > 0 && !mute_target(notes))
            }),
    {
        all_muted(&self.note_inspector_snapshot(clip).selected)
    }

    fn single_note_rows(
        &self,
        snapshot: &NoteInspectorSnapshot,
        available: &Vec<ArticulationId>,
        names: &NoteNames,
    ) -> (out: Vec<InspectorRow>)
        requires
            self.valid(),
            names.valid(),
            snapshot.selected@.len() == 1,
            crate::drag::notes_in_song(snapshot.selected@),
        ensures
            rows_view(out@) == single_rows(*self, snapshot.selected@, available@, *names),
    {
        let ghost notes = snapshot.selected@;
        let n = snapshot.selected[0];
        assert(crate::drag::note_in_song(notes[0]));
        let step = max_i64(self.step_beats(), MIN_NOTE_TICKS);
        let fine = max_i64(step / 4, MIN_NOTE_TICKS);
        let mut out: Vec<InspectorRow> = Vec::new();
        out.push(InspectorRow::Title("NOTE INSPECTOR".to_owned()));
        out.push(value("Pitch", snapshot.pitch_label()));
        out.push(value("Start", crate::labels::format_beats(n.start)));
        out.push(value("Length", crate::labels::format_beats(n.duration)));
        out.push(value("End", crate::labels::format_beats(n.start + n.duration)));
        out.push(value("Velocity", decimal(n.velocity as i64)));
        out.push(value("Channel", copy_text(&names.channels[n.channel.raw as usize])));
        out.push(value("Artic.", articulation_text(snapshot, names.articulations)));
        out.push(
            InspectorRow::Buttons(
                articulation_assign_row(available, names.short, uniform_articulation(&snapshot.selected)),
            ),
        );
        out.push(pair("Ch -1", NoteAction::Channel(-1), "Ch +1", NoteAction::Channel(1)));
        out.push(pair("-1 st", NoteAction::Pitch(-1), "+1 st", NoteAction::Pitch(1)));
        out.push(pair("-Start", NoteAction::Start(-step), "+Start", NoteAction::Start(step)));
        out.push(pair("-Len", NoteAction::Length(-fine), "+Len", NoteAction::Length(fine)));
        out.push(pair("Vel -5", NoteAction::Velocity(-5), "Vel +5", NoteAction::Velocity(5)));
        let mute = button(if n.muted { "Unmute" } else { "Mute" }, NoteAction::ToggleMute);
        let mut last: Vec<NoteButton> = Vec::new();
        last.push(mute);
        assert(buttons_view(last@) =~= seq![mute@]);
        out.push(InspectorRow::Buttons(last));
        assert(rows_view(out@) =~= single_rows(*self, notes, available@, *names));
        out
    }

    fn several_note_rows(
        &self,
        snapshot: &NoteInspectorSnapshot,
        available: &Vec<ArticulationId>,
        names: &NoteNames,
    ) -> (out: Vec<InspectorRow>)
        requires
            names.valid(),
            snapshot.selected@.len() > 1,
            crate::drag::notes_in_song(snapshot.selected@),
        ensures
            rows_view(out@) == several_rows(snapshot.selected@, available@, *names),
    {
        let ghost notes = snapshot.selected@;
        proof {
            lemma_song_notes(notes);
        }
        let mut count = String::new();
        push_natural(&mut count, snapshot.count() as u64);
        assert(count@ =~= natural_text(notes.len() as int));
        let mut out: Vec<InspectorRow> = Vec::new();
        out.push(InspectorRow::Title("NOTE INSPECTOR".to_owned()));
        out.push(value("Selected", count));
        out.push(value("Pitch", snapshot.pitch_label()));
        out.push(value("Range", snapshot.end_label()));
        out.push(value("Start", snapshot.start_label()));
        out.push(value("Length", snapshot.length_label()));
        out.push(value("Velocity", snapshot.velocity_label()));
        out.push(value("Channel", snapshot.channel_label(names.channels)));
        out.push(value("Artic.", articulation_text(snapshot, names.articulations)));
        out.push(
            InspectorRow::Buttons(
                articulation_assign_row(available, names.short, uniform_articulation(&snapshot.selected)),
            ),
        );
        out.push(pair("Ch -1", NoteAction::Channel(-1), "Ch +1", NoteAction::Channel(1)));
        out.push(pair("-1 st", NoteAction::Pitch(-1), "+1 st", NoteAction::Pitch(1)));
        out.push(pair("Vel -5", NoteAction::Velocity(-5), "Vel +5", NoteAction::Velocity(5)));
        out.push(pair("Quantize", NoteAction::Quantize, "Delete", NoteAction::Delete));
        out.push(pair("Mute", NoteAction::ToggleMute, "Duplicate", NoteAction::Duplicate));
        assert(rows_view(out@) =~= several_rows(notes, available@, *names));
        out
    }

    /// What the inspector shows of the selected notes.
    pub fn render_note_inspector(&self, clip: &ClipView, available: &Vec<ArticulationId>, names: &NoteNames) -> (out:
        Vec<InspectorRow>)
        requires
            self.valid(),
            clip.valid(),
            names.valid(),
        ensures
            rows_view(out@) == inspector_rows(*self, notes_in(clip.notes@, self.selection@), available@, *names),
    {
        let snapshot = self.note_inspector_snapshot(clip);
        if snapshot.count() == 0 {
            let mut out: Vec<InspectorRow> = Vec::new();
            out.push(InspectorRow::Title("NOTE INSPECTOR".to_owned()));
            out.push(
                InspectorRow::Hint(
                    "Select notes in the piano roll to edit pitch, timing, and velocity.".to_owned(),
                ),
            );
            assert(rows_view(out@) =~= inspector_rows(*self, snapshot.selected@, available@, *names));
            out
        } else if snapshot.count() == 1 {
            self.single_note_rows(&snapshot, available, names)
        } else {
            self.several_note_rows(&snapshot, available, names)
        }
    }

    /// The menu of the selected notes, and where it opens.
    pub fn build_note_context_menu(&self, clip: &ClipView, available: &Vec<ArticulationId>, names: &Vec<String>) -> (r:
        Option<((i64, i64), Vec<MenuEntry>)>)
        requires
            self.valid(),
            clip.valid(),
            names@.len() == ARTICULATION_COUNT,
        ensures
            note_menu_shown(r, *self, *clip, available@, names@),
    {
        let at = match self.open_note_menu {
            Some(at) => at,
            None => {
                return None;
            },
        };
        let (view_w, view_h) = self.grid_view_size();
        let left = clamp_i64(at.0, NOTE_MENU_MARGIN, max_i64(view_w - NOTE_MENU_W, NOTE_MENU_MARGIN));
        let top = clamp_i64(at.1, NOTE_MENU_MARGIN, max_i64(view_h - NOTE_MENU_H, NOTE_MENU_MARGIN));
        let ghost notes = notes_in(clip.notes@, self.selection@);
        let current = self.uniform_selection_articulation(clip);
        let muted = self.selection_all_muted(clip);
        let count = self.selection.len();
        let mut out: Vec<MenuEntry> = Vec::new();
        out.push(MenuEntry::Heading("Articulation".to_owned()));
        assert(menu_view(out@) =~= seq![EntryView::Heading("Articulation"@)]);
        push_articulations(&mut out, available, names, current);
        let ghost front = menu_view(out@);
        let none_marked = match current {
            Some(None) => true,
            _ => false,
        };
        let mut delete = String::new();
        delete.append("Delete ");
        push_natural(&mut delete, count as u64);
        delete.append(" note");
        delete.append(plural(count));
        assert(delete@ =~= "Delete "@ + natural_text(count as int) + " note"@ + plural_text(count as int));
        out.push(plain_row("None", NoteAction::Articulate(None), none_marked, false, true));
        out.push(MenuEntry::Heading("Note".to_owned()));
        out.push(plain_row(if muted { "Unmute" } else { "Mute" }, NoteAction::ToggleMute, muted, false, true));
        out.push(plain_row("Velocity +5", NoteAction::Velocity(5), false, false, false));
        out.push(plain_row("Velocity -5", NoteAction::Velocity(-5), false, false, false));
        out.push(
            MenuEntry::Row(
                MenuRow { label: delete, marked: false, destructive: true, closes: true, action: NoteAction::Delete },
            ),
        );
        assert(menu_view(out@) =~= front + menu_commands(shared_articulation(notes), muted, count as int));
        Some(((left, top), out))
    }
}

/// The command that a button amounts to, where it is one.
pub open spec fn as_command(action: NoteAction) -> Option<RollCommand> {
    match action {
        NoteAction::Articulate(a) => Some(RollCommand::Articulate(a)),
        NoteAction::Velocity(d) => Some(RollCommand::Velocity(d)),
        NoteAction::ToggleMute => Some(RollCommand::ToggleMute),
        NoteAction::Quantize => Some(RollCommand::Quantize),
        NoteAction::Delete => Some(RollCommand::DeleteNotes),
        NoteAction::Duplicate => Some(RollCommand::DuplicateNotes(false)),
        _ => None,
    }
}

/// What a button asks of the song.
pub open spec fn action_asks(pre: PianoRoll, action: NoteAction, input: CommandInput) -> Option<EditView> {
    let chosen = selected(pre, input.clip);
    match action {
        NoteAction::Channel(d) => of_selected_ids(
            pre,
            input.clip,
            |id: Seq<char>, ids: Seq<u64>| EditView::NudgeChannel(id, ids, d as int),
        ),
        NoteAction::Pitch(d) => if transpose_changes(chosen, d as int) {
            of_selected_ids(pre, input.clip, |id: Seq<char>, ids: Seq<u64>| EditView::Transpose(id, ids, d as int))
        } else {
            None
        },
        NoteAction::Start(d) => unless_empty(
            nudged_starts(chosen, d as int),
            EditView::MoveNotes(clip_name(input.clip), nudged_starts(chosen, d as int)),
        ),
        NoteAction::Length(d) => unless_empty(
            nudged_lengths(chosen, d as int),
            EditView::SetLengths(clip_name(input.clip), nudged_lengths(chosen, d as int)),
        ),
        _ => command_asks(pre, as_command(action)->0, input),
    }
}

impl PianoRoll {
    /// Does what a button for the selected notes does.
    pub fn run_note_action(&mut self, action: NoteAction, input: &CommandInput, target: Option<PreviewTarget>) -> (o: Outcome)
        requires
            old(self).valid(),
            input.valid(),
            action matches NoteAction::Velocity(d) ==> d <= 32_000,
            action matches NoteAction::Start(d) ==> crate::fixed::on_axis(d as int),
            action matches NoteAction::Length(d) ==> crate::fixed::on_axis(d as int),
        ensures
            match as_command(action) {
                Some(c) => commanded(*old(self), *final(self), c, *input) && o.said() == command_says(
                    *old(self),
                    c,
                    *input,
                    target,
                ),
                None => *final(self) == *old(self) && o.said() == Seq::<PreviewMessage>::empty(),
            },
            o.asks() == action_asks(*old(self), action, *input),
            final(self).valid(),
    {
        let command = match action {
            NoteAction::Channel(d) => {
                return Outcome::of_edit(self.nudge_selected_channel(d, input.clip));
            },
            NoteAction::Pitch(d) => {
                return Outcome::of_edit(self.nudge_selected_pitch(d, input.clip));
            },
            NoteAction::Start(d) => {
                return Outcome::of_edit(self.nudge_selected_start(d, input.clip));
            },
            NoteAction::Length(d) => {
                return Outcome::of_edit(self.nudge_selected_length(d, input.clip));
            },
            NoteAction::Articulate(a) => RollCommand::Articulate(a),
            NoteAction::Velocity(d) => RollCommand::Velocity(d),
            NoteAction::ToggleMute => RollCommand::ToggleMute,
            NoteAction::Quantize => RollCommand::Quantize,
            NoteAction::Delete => RollCommand::DeleteNotes,
            NoteAction::Duplicate => RollCommand::DuplicateNotes(false),
        };
        self.run_command(command, input, target).0
    }

    /// Does what a row of the notes' menu does, and closes the menu where the
    /// row closes it.
    pub fn run_note_menu_row(
        &mut self,
        action: NoteAction,
        closes: bool,
        input: &CommandInput,
        target: Option<PreviewTarget>,
    ) -> (o: Outcome)
        requires
            old(self).valid(),
            input.valid(),
            as_command(action) is Some,
            action matches NoteAction::Velocity(d) ==> d <= 32_000,
        ensures
            ({
                let pre = if closes {
                    PianoRoll { open_note_menu: None, ..*old(self) }
                } else {
                    *old(self)
                };
                &&& commanded(pre, *final(self), as_command(action)->0, *input)
                &&& o.said() == command_says(pre, as_command(action)->0, *input, target)
                &&& o.asks() == action_asks(pre, action, *input)
            }),
            final(self).valid(),
    {
        if closes {
            self.open_note_menu = None;
        }
        self.run_note_action(action, input, target)
    }
}

/// The inspector's buttons change every selected note by what they hold: the start
/// and the length by their time, and a positive one makes later and longer.
pub proof fn law_inspector_buttons_change_by_their_amount(pre: PianoRoll, input: CommandInput, d: i64, i: int)
    requires
        crate::midi::valid_notes(selected(pre, input.clip)),
        crate::note_edits::TIME_TOLERANCE < d <= 4 * crate::fixed::TICKS_PER_BEAT,
        0 <= i < selected(pre, input.clip).len(),
        forall|k: int|
            0 <= k < selected(pre, input.clip).len() ==> (#[trigger] selected(pre, input.clip)[k]).duration
                >= MIN_NOTE_TICKS,
    ensures
        action_asks(pre, NoteAction::Start(d), input) matches Some(EditView::MoveNotes(id, places)) && {
            let n = selected(pre, input.clip)[i];
            &&& id == clip_name(input.clip)
            &&& places.len() == selected(pre, input.clip).len()
            &&& places[i].id == n.id && places[i].pitch == n.pitch
            &&& places[i].start == n.start + d
        },
        action_asks(pre, NoteAction::Length(d), input) matches Some(EditView::SetLengths(id, lengths)) && {
            let n = selected(pre, input.clip)[i];
            &&& id == clip_name(input.clip)
            &&& lengths.len() == selected(pre, input.clip).len()
            &&& lengths[i].0 == n.id
            &&& lengths[i].1 == n.duration + d
        },
{
    let chosen = selected(pre, input.clip);
    assert(chosen[i].valid());
    crate::note_edits::law_nudge_moves_by_its_distance(chosen, d as int);
    crate::note_edits::law_length_nudge_adds_its_amount(chosen, d as int);
    assert(nudged_starts(chosen, d as int)[i].start == chosen[i].start + d);
    assert(nudged_lengths(chosen, d as int)[i].1 == chosen[i].duration + d);
}

/// The buttons go by the grid step, or by the shortest note on a finer grid, and
/// the fine ones by a quarter of that.
pub proof fn law_inspector_steps_follow_the_grid(roll: PianoRoll)
    ensures
        roll.step() >= MIN_NOTE_TICKS ==> inspector_step(roll) == roll.step(),
        roll.step() < MIN_NOTE_TICKS ==> inspector_step(roll) == MIN_NOTE_TICKS,
        inspector_step(roll) >= 4 * MIN_NOTE_TICKS ==> 0 <= inspector_step(roll) - 4 * inspector_fine_step(roll) < 4,
        inspector_step(roll) < 4 * MIN_NOTE_TICKS ==> inspector_fine_step(roll) == MIN_NOTE_TICKS,
{
}

} // verus!
