//! The editor's decision logic: tools, keyboard shortcuts, tutorial pages and
//! the setup that the Kepler's-second-law view needs.
use vstd::prelude::*;
use crate::text::{self, push_char, push_decimal};
use vstd::string::*;

verus! {

/// The tool that a left click in the simulation space uses.
#[derive(Debug, Clone, Copy, PartialEq, Eq, Structural)]
pub enum ClickMode {
    Select,
    Move,
    Resize,
    Velocity,
    Insert,
    Delete,
}

/// Whether choosing a tool pauses the simulation: resizing and aiming a
/// planet are done on a paused simulation.
pub open spec fn spec_pauses(mode: ClickMode) -> bool {
    mode == ClickMode::Resize || mode == ClickMode::Velocity
}

/// Whether choosing `mode` pauses the simulation.
pub fn pauses_simulation(mode: ClickMode) -> (p: bool)
    ensures
        p == spec_pauses(mode),
{
    match mode {
        ClickMode::Resize | ClickMode::Velocity => true,
        _ => false,
    }
}

/// The kind of edit a new selection starts.
#[derive(Debug, Clone, Copy, PartialEq, Eq, Structural)]
pub enum SelectionKind {
    Selecting,
    Moving,
    Resizing,
    Aiming,
}

/// The edit that clicking a planet with a tool starts; the inserting and
/// deleting tools select nothing.
pub open spec fn spec_selection_kind(mode: ClickMode) -> Option<SelectionKind> {
    match mode {
        ClickMode::Select => Some(SelectionKind::Selecting),
        ClickMode::Move => Some(SelectionKind::Moving),
        ClickMode::Resize => Some(SelectionKind::Resizing),
        ClickMode::Velocity => Some(SelectionKind::Aiming),
        ClickMode::Insert | ClickMode::Delete => None,
    }
}

/// The edit that clicking a planet with tool `mode` starts.
pub fn selection_kind(mode: ClickMode) -> (k: Option<SelectionKind>)
    ensures
        k == spec_selection_kind(mode),
{
    match mode {
        ClickMode::Select => Some(SelectionKind::Selecting),
        ClickMode::Move => Some(SelectionKind::Moving),
        ClickMode::Resize => Some(SelectionKind::Resizing),
        ClickMode::Velocity => Some(SelectionKind::Aiming),
        ClickMode::Insert | ClickMode::Delete => None,
    }
}

/// The keys that have a shortcut; every other key is `Other`.
#[derive(Debug, Clone, Copy, PartialEq, Eq, Structural)]
pub enum ShortcutKey {
    S,
    O,
    N,
    Slash,
    Space,
    D,
    Num1,
    Num2,
    Num3,
    Num4,
    Num5,
    Num6,
    Escape,
    Other,
}

/// The modifier keys held with a key press.
#[derive(Debug, Clone, Copy, PartialEq, Eq, Structural)]
pub struct Modifiers {
    pub ctrl: bool,
    pub shift: bool,
}

/// What a shortcut asks of the application beyond the editor state.
#[derive(Debug, Clone, Copy, PartialEq, Eq, Structural)]
pub enum Command {
    Nothing,
    Save,
    SaveAs,
    Load,
    NewSimulation,
    DeleteSelected,
    CancelEdit,
}

/// The editor state that shortcuts change directly.
#[derive(Debug, Clone, Copy, PartialEq, Eq, Structural)]
pub struct Controls {
    pub click_mode: ClickMode,
    pub playing: bool,
    pub shortcuts_shown: bool,
}

/// The command of a key press.  With Ctrl: S saves (with Shift too: saves
/// under a new name), O loads, N starts a new simulation.  D deletes the
/// selected planet and Escape cancels the current edit, with or without Ctrl.
pub open spec fn shortcut_command(key: ShortcutKey, mods: Modifiers) -> Command {
    match key {
        ShortcutKey::S => if mods.ctrl && mods.shift {
            Command::SaveAs
        } else if mods.ctrl {
            Command::Save
        } else {
            Command::Nothing
        },
        ShortcutKey::O => if mods.ctrl {
            Command::Load
        } else {
            Command::Nothing
        },
        ShortcutKey::N => if mods.ctrl {
            Command::NewSimulation
        } else {
            Command::Nothing
        },
        ShortcutKey::D => Command::DeleteSelected,
        ShortcutKey::Escape => Command::CancelEdit,
        _ => Command::Nothing,
    }
}

/// The editor state after a key press.  Ctrl+/ shows or hides the shortcuts
/// screen, Space plays or pauses, the keys 1 to 6 choose a tool (3 and 4
/// also pause); nothing else changes it.
pub open spec fn shortcut_controls(c: Controls, key: ShortcutKey, mods: Modifiers) -> Controls {
    match key {
        ShortcutKey::Slash => if mods.ctrl {
            Controls { shortcuts_shown: !c.shortcuts_shown, ..c }
        } else {
            c
        },
        ShortcutKey::Space => Controls { playing: !c.playing, ..c },
        ShortcutKey::Num1 => Controls { click_mode: ClickMode::Select, ..c },
        ShortcutKey::Num2 => Controls { click_mode: ClickMode::Move, ..c },
        ShortcutKey::Num3 => Controls { click_mode: ClickMode::Resize, playing: false, ..c },
        ShortcutKey::Num4 => Controls { click_mode: ClickMode::Velocity, playing: false, ..c },
        ShortcutKey::Num5 => Controls { click_mode: ClickMode::Insert, ..c },
        ShortcutKey::Num6 => Controls { click_mode: ClickMode::Delete, ..c },
        _ => c,
    }
}

impl Controls {
    /// Handles one key event.  Only a fresh press counts: a release or an
    /// auto-repeat changes nothing and asks for nothing.
    pub fn handle_shortcut(
        &mut self,
        key: ShortcutKey,
        mods: Modifiers,
        pressed: bool,
        repeat: bool,
    ) -> (cmd: Command)
        ensures
            !pressed || repeat ==> *final(self) == *old(self) && cmd == Command::Nothing,
            pressed && !repeat ==> *final(self) == shortcut_controls(*old(self), key, mods) && cmd
                == shortcut_command(key, mods),
    {
        if !pressed || repeat {
            return Command::Nothing;
        }
        match key {
            ShortcutKey::S => {
                if mods.ctrl && mods.shift {
                    Command::SaveAs
                } else if mods.ctrl {
                    Command::Save
                } else {
                    Command::Nothing
                }
            },
            ShortcutKey::O => if mods.ctrl {
                Command::Load
            } else {
                Command::Nothing
            },
            ShortcutKey::N => if mods.ctrl {
                Command::NewSimulation
            } else {
                Command::Nothing
            },
            ShortcutKey::Slash => {
                if mods.ctrl {
                    self.shortcuts_shown = !self.shortcuts_shown;
                }
                Command::Nothing
            },
            ShortcutKey::Space => {
                self.playing = !self.playing;
                Command::Nothing
            },
            ShortcutKey::D => Command::DeleteSelected,
            ShortcutKey::Num1 => {
                self.click_mode = ClickMode::Select;
                Command::Nothing
            },
            ShortcutKey::Num2 => {
                self.click_mode = ClickMode::Move;
                Command::Nothing
            },
            ShortcutKey::Num3 => {
                self.click_mode = ClickMode::Resize;
                self.playing = false;
                Command::Nothing
            },
            ShortcutKey::Num4 => {
                self.click_mode = ClickMode::Velocity;
                self.playing = false;
                Command::Nothing
            },
            ShortcutKey::Num5 => {
                self.click_mode = ClickMode::Insert;
                Command::Nothing
            },
            ShortcutKey::Num6 => {
                self.click_mode = ClickMode::Delete;
                Command::Nothing
            },
            ShortcutKey::Escape => Command::CancelEdit,
            ShortcutKey::Other => Command::Nothing,
        }
    }
}

/// Resizing and aiming are done on a paused simulation: the keys that choose
/// the resizing or the aiming tool always leave the simulation paused.
pub proof fn lemma_tool_keys_pause(c: Controls, key: ShortcutKey, mods: Modifiers)
    requires
        key == ShortcutKey::Num3 || key == ShortcutKey::Num4,
    ensures
        spec_pauses(shortcut_controls(c, key, mods).click_mode),
        !shortcut_controls(c, key, mods).playing,
{
}

/// What pressing the primary mouse button over the simulation does.
#[derive(Debug, Clone, Copy, PartialEq, Eq, Structural)]
pub enum PressAction {
    /// An edit was under way: it is confirmed, and nothing else happens.
    ConfirmEdit,
    /// The selection is cleared.
    ClearSelection,
    /// Nothing happens: the deleting tool clicked empty space.
    Nothing,
    /// The planet with this index is deleted and the selection cleared.
    DeletePlanet(usize),
    /// The planet with this index is selected for an edit of this kind.
    SelectPlanet(usize, SelectionKind),
}

/// The action of a primary press: `editing` tells whether a selected planet
/// is being moved, resized or aimed, and `clicked` which planet (if any) is
/// under the pointer.
pub open spec fn spec_press_action(mode: ClickMode, editing: bool, clicked: Option<usize>) -> PressAction {
    if editing {
        PressAction::ConfirmEdit
    } else {
        match mode {
            ClickMode::Insert => PressAction::ClearSelection,
            ClickMode::Delete => match clicked {
                Some(i) => PressAction::DeletePlanet(i),
                None => PressAction::Nothing,
            },
            _ => match clicked {
                Some(i) => PressAction::SelectPlanet(i, spec_selection_kind(mode)->0),
                None => PressAction::ClearSelection,
            },
        }
    }
}

/// Decides what a primary press over the simulation does.
pub fn press_action(mode: ClickMode, editing: bool, clicked: Option<usize>) -> (a: PressAction)
    ensures
        a == spec_press_action(mode, editing, clicked),
{
    if editing {
        return PressAction::ConfirmEdit;
    }
    match mode {
        ClickMode::Insert => PressAction::ClearSelection,
        ClickMode::Delete => match clicked {
            Some(i) => PressAction::DeletePlanet(i),
            None => PressAction::Nothing,
        },
        _ => match clicked {
            Some(i) => match selection_kind(mode) {
                Some(kind) => PressAction::SelectPlanet(i, kind),
                None => PressAction::ClearSelection,
            },
            None => PressAction::ClearSelection,
        },
    }
}

/// Whether a press that hit no planet should look for the tail of a moving
/// planet instead: only the aiming tool grabs planets by their tail.
pub fn searches_tails(mode: ClickMode, clicked: Option<usize>) -> (b: bool)
    ensures
        b == (clicked is None && mode == ClickMode::Velocity),
{
    clicked.is_none() && mode == ClickMode::Velocity
}

/// Whether a drag pans the view: dragging with the middle button always
/// does, dragging with the primary button only when nothing is selected.
pub fn pans_view(middle_down: bool, primary_down: bool, has_selection: bool) -> (b: bool)
    ensures
        b == (middle_down || (primary_down && !has_selection)),
{
    middle_down || (primary_down && !has_selection)
}

/// What releasing the primary mouse button over the simulation does: an edit
/// under way ends, and a click (not a drag) with the inserting tool inserts a
/// planet at the pointer and selects it.
#[derive(Debug, Clone, Copy, PartialEq, Eq, Structural)]
pub struct ReleaseAction {
    pub end_edit: bool,
    pub insert_planet: bool,
}

/// Decides what a primary release over the simulation does.
pub fn release_action(mode: ClickMode, editing: bool, dragging: bool) -> (a: ReleaseAction)
    ensures
        a.end_edit == editing,
        a.insert_planet == (mode == ClickMode::Insert && !dragging),
{
    ReleaseAction { end_edit: editing, insert_planet: mode == ClickMode::Insert && !dragging }
}

/// The editing keys pressed in a frame.
#[derive(Debug, Clone, Copy, PartialEq, Eq, Structural)]
pub struct EditKeys {
    pub move_key: bool,
    pub resize_key: bool,
    pub aim_key: bool,
    pub insert_key: bool,
    pub enter_key: bool,
}

/// An edit started from the keyboard on the selected planet.
#[derive(Debug, Clone, Copy, PartialEq, Eq, Structural)]
pub enum SelectionEdit {
    /// Start moving the selected planet.
    StartMove,
    /// Start resizing the selected planet, pausing the simulation.
    StartResize,
    /// Start aiming the selected planet, pausing the simulation.
    StartAim,
    /// Insert a planet at the pointer and select it.
    InsertPlanet,
    /// Confirm the edit under way and keep the planet selected.
    Confirm,
}

/// The keyboard edits of a frame, in order: M, R, V act on an existing
/// selection, I inserts (and selects) a planet, Enter confirms when there is
/// a selection, including one just inserted.  Nothing happens while Ctrl is
/// held.
pub open spec fn spec_selection_edits(ctrl: bool, keys: EditKeys, has_selection: bool) -> Seq<
    SelectionEdit,
> {
    if ctrl {
        seq![]
    } else {
        let m = if keys.move_key && has_selection {
            seq![SelectionEdit::StartMove]
        } else {
            seq![]
        };
        let r = if keys.resize_key && has_selection {
            seq![SelectionEdit::StartResize]
        } else {
            seq![]
        };
        let v = if keys.aim_key && has_selection {
            seq![SelectionEdit::StartAim]
        } else {
            seq![]
        };
        let i = if keys.insert_key {
            seq![SelectionEdit::InsertPlanet]
        } else {
            seq![]
        };
        let e = if keys.enter_key && (has_selection || keys.insert_key) {
            seq![SelectionEdit::Confirm]
        } else {
            seq![]
        };
        m + r + v + i + e
    }
}

/// Decides the keyboard edits of a frame; `has_selection` tells whether a
/// selected planet exists when the frame starts.
pub fn selection_edits(ctrl: bool, keys: EditKeys, has_selection: bool) -> (edits: Vec<
    SelectionEdit,
>)
    ensures
        edits@ == spec_selection_edits(ctrl, keys, has_selection),
{
    let mut edits: Vec<SelectionEdit> = Vec::new();
    if ctrl {
        return edits;
    }
    let mut selected = has_selection;
    if keys.move_key && selected {
        edits.push(SelectionEdit::StartMove);
    }
    if keys.resize_key && selected {
        edits.push(SelectionEdit::StartResize);
    }
    if keys.aim_key && selected {
        edits.push(SelectionEdit::StartAim);
    }
    if keys.insert_key {
        edits.push(SelectionEdit::InsertPlanet);
        selected = true;
    }
    if keys.enter_key && selected {
        edits.push(SelectionEdit::Confirm);
    }
    assert(edits@ =~= spec_selection_edits(ctrl, keys, has_selection));
    edits
}

/// The last page of the tutorial (pages are numbered from 0).
pub const LAST_PAGE: u8 = 4;

/// A tutorial page brought into range.
pub fn clamp_page(page: u8) -> (p: u8)
    ensures
        p == if page <= LAST_PAGE { page } else { LAST_PAGE },
{
    if page > LAST_PAGE {
        LAST_PAGE
    } else {
        page
    }
}

/// Whether there is a page after `page`.
pub fn has_next_page(page: u8) -> (b: bool)
    ensures
        b == (page < LAST_PAGE),
{
    page < LAST_PAGE
}

/// Whether there is a page before `page`.
pub fn has_previous_page(page: u8) -> (b: bool)
    ensures
        b == (page != 0),
{
    page != 0
}

/// The page after `page`; the last page has none, so it stays.
pub fn next_page(page: u8) -> (p: u8)
    ensures
        p == if page < LAST_PAGE { (page + 1) as u8 } else { page },
{
    if page < LAST_PAGE {
        page + 1
    } else {
        page
    }
}

/// The page before `page`; the first page has none, so it stays.
pub fn previous_page(page: u8) -> (p: u8)
    ensures
        p == if page != 0 { (page - 1) as u8 } else { page },
{
    if page != 0 {
        page - 1
    } else {
        page
    }
}

/// The tutorial's page after one frame: the page is brought into range, the
/// next button (if clicked) moves forward, then the previous button (if
/// clicked) moves back; a button on a page without a neighbour is disabled.
/// Closing the window ends the tutorial.
pub open spec fn spec_tutorial_after(
    page: Option<u8>,
    still_open: bool,
    next_clicked: bool,
    previous_clicked: bool,
) -> Option<u8> {
    match page {
        None => None,
        Some(p) => if !still_open {
            None
        } else {
            let p0 = if p <= LAST_PAGE { p } else { LAST_PAGE };
            let p1 = if next_clicked && p0 < LAST_PAGE { (p0 + 1) as u8 } else { p0 };
            let p2 = if previous_clicked && p1 != 0 { (p1 - 1) as u8 } else { p1 };
            Some(p2)
        },
    }
}

/// The tutorial's page stays within its pages, whatever the user clicks.
pub proof fn lemma_tutorial_page_in_range(
    page: Option<u8>,
    still_open: bool,
    next_clicked: bool,
    previous_clicked: bool,
)
    ensures
        match spec_tutorial_after(page, still_open, next_clicked, previous_clicked) {
            None => true,
            Some(q) => q <= LAST_PAGE,
        },
        page is None ==> spec_tutorial_after(page, still_open, next_clicked, previous_clicked)
            is None,
{
}

/// Carries out one frame of the tutorial window, as `spec_tutorial_after`
/// describes.
pub fn tutorial_after(
    page: Option<u8>,
    still_open: bool,
    next_clicked: bool,
    previous_clicked: bool,
) -> (r: Option<u8>)
    ensures
        r == spec_tutorial_after(page, still_open, next_clicked, previous_clicked),
{
    match page {
        None => None,
        Some(p) => {
            if !still_open {
                return None;
            }
            let mut q = clamp_page(p);
            if next_clicked {
                q = next_page(q);
            }
            if previous_clicked {
                q = previous_page(q);
            }
            Some(q)
        },
    }
}

/// The Help menu's tutorial entry: it opens the tutorial at its first page,
/// or closes it if it is open.
pub fn toggle_tutorial(page: Option<u8>) -> (p: Option<u8>)
    ensures
        p == match page {
            Some(_) => None::<u8>,
            None => Some(0u8),
        },
{
    match page {
        Some(_) => None,
        None => Some(0),
    }
}

/// The page counter's text, "Page n/m", counting pages from 1.
pub open spec fn page_label_text(page: nat) -> Seq<char> {
    "Page "@ + text::decimal(page + 1) + seq!['/'] + text::decimal(LAST_PAGE as nat + 1)
}

/// The page counter shown under a tutorial page.
pub fn page_label(page: u8) -> (s: String)
    ensures
        s@ == page_label_text(page as nat),
{
    let mut s = String::from_str("Page ");
    push_decimal(&mut s, page as usize + 1);
    push_char(&mut s, '/');
    push_decimal(&mut s, LAST_PAGE as usize + 1);
    assert(s@ =~= page_label_text(page as nat));
    s
}

/// The two planets that the Kepler's-second-law view follows: exactly two
/// planets, one of them locked in place.  Gives the indices of the
/// stationary and the orbiting planet.
pub open spec fn spec_planet_setup(locked: Seq<bool>) -> Option<(usize, usize)> {
    if locked.len() != 2 {
        None
    } else if locked[0] && !locked[1] {
        Some((0, 1))
    } else if locked[1] && !locked[0] {
        Some((1, 0))
    } else {
        None
    }
}

/// Given which planets are locked, the indices of the stationary and the
/// orbiting planet, if the simulation is set up for Kepler's second law.
pub fn get_planet_setup(locked: &Vec<bool>) -> (r: Option<(usize, usize)>)
    ensures
        r == spec_planet_setup(locked@),
{
    if locked.len() != 2 {
        return None;
    }
    let first = locked[0];
    let second = locked[1];
    if first && !second {
        Some((0, 1))
    } else if second && !first {
        Some((1, 0))
    } else {
        None
    }
}

} // verus!

verus! {

/// Only Ctrl turns S, O and N into file commands: a key pressed without Ctrl
/// asks at most for deleting the selection or cancelling the edit, and each
/// command comes from exactly one key (with its modifiers).
pub proof fn lemma_shortcut_commands(key: ShortcutKey, mods: Modifiers)
    ensures
        !mods.ctrl ==> ({
            let cmd = shortcut_command(key, mods);
            cmd == Command::Nothing || cmd == Command::DeleteSelected || cmd == Command::CancelEdit
        }),
        (shortcut_command(key, mods) == Command::Save) == (key == ShortcutKey::S && mods.ctrl
            && !mods.shift),
        (shortcut_command(key, mods) == Command::SaveAs) == (key == ShortcutKey::S && mods.ctrl
            && mods.shift),
        (shortcut_command(key, mods) == Command::Load) == (key == ShortcutKey::O && mods.ctrl),
        (shortcut_command(key, mods) == Command::NewSimulation) == (key == ShortcutKey::N
            && mods.ctrl),
        (shortcut_command(key, mods) == Command::DeleteSelected) == (key == ShortcutKey::D),
        (shortcut_command(key, mods) == Command::CancelEdit) == (key == ShortcutKey::Escape),
{
}

/// What a key press does to the editor state: Ctrl+/ alone flips the
/// cheatsheet, Space alone flips play, the number keys alone choose tools
/// (1 to 6: select, move, resize, aim, insert, delete), and only Space can
/// start the simulation.
pub proof fn lemma_shortcut_state(c: Controls, key: ShortcutKey, mods: Modifiers)
    ensures
        ({
            let a = shortcut_controls(c, key, mods);
            &&& (a.shortcuts_shown != c.shortcuts_shown) == (key == ShortcutKey::Slash && mods.ctrl)
            &&& key == ShortcutKey::Space ==> a.playing == !c.playing && a.click_mode
                == c.click_mode
            &&& a.playing && !c.playing ==> key == ShortcutKey::Space
            &&& key == ShortcutKey::Num1 ==> a.click_mode == ClickMode::Select
            &&& key == ShortcutKey::Num2 ==> a.click_mode == ClickMode::Move
            &&& key == ShortcutKey::Num3 ==> a.click_mode == ClickMode::Resize
            &&& key == ShortcutKey::Num4 ==> a.click_mode == ClickMode::Velocity
            &&& key == ShortcutKey::Num5 ==> a.click_mode == ClickMode::Insert
            &&& key == ShortcutKey::Num6 ==> a.click_mode == ClickMode::Delete
            &&& a.click_mode != c.click_mode ==> (key == ShortcutKey::Num1 || key
                == ShortcutKey::Num2 || key == ShortcutKey::Num3 || key == ShortcutKey::Num4
                || key == ShortcutKey::Num5 || key == ShortcutKey::Num6)
            &&& a.playing != c.playing ==> (key == ShortcutKey::Space || key == ShortcutKey::Num3
                || key == ShortcutKey::Num4)
        }),
{
}

/// Each tool starts its own edit: selecting selects, moving moves, resizing
/// resizes, aiming aims, and the inserting and deleting tools start none.
pub proof fn lemma_selection_kind_matches_tool(mode: ClickMode)
    ensures
        (spec_selection_kind(mode) == Some(SelectionKind::Selecting)) == (mode
            == ClickMode::Select),
        (spec_selection_kind(mode) == Some(SelectionKind::Moving)) == (mode == ClickMode::Move),
        (spec_selection_kind(mode) == Some(SelectionKind::Resizing)) == (mode
            == ClickMode::Resize),
        (spec_selection_kind(mode) == Some(SelectionKind::Aiming)) == (mode
            == ClickMode::Velocity),
        (spec_selection_kind(mode) is None) == (mode == ClickMode::Insert || mode
            == ClickMode::Delete),
{
}

/// What a primary press does, tool by tool: an edit under way is confirmed;
/// otherwise a clicked planet is selected for the tool's own edit (select,
/// move, resize, aim), or deleted by the deleting tool; the inserting tool
/// and a click on empty space clear the selection, except that the deleting
/// tool on empty space does nothing.  An action names only the clicked
/// planet.
pub proof fn lemma_press_action_by_tool(mode: ClickMode, editing: bool, clicked: Option<usize>)
    ensures
        editing ==> spec_press_action(mode, editing, clicked) == PressAction::ConfirmEdit,
        !editing ==> match clicked {
            Some(i) => {
                &&& mode == ClickMode::Select ==> spec_press_action(mode, editing, clicked)
                    == PressAction::SelectPlanet(i, SelectionKind::Selecting)
                &&& mode == ClickMode::Move ==> spec_press_action(mode, editing, clicked)
                    == PressAction::SelectPlanet(i, SelectionKind::Moving)
                &&& mode == ClickMode::Resize ==> spec_press_action(mode, editing, clicked)
                    == PressAction::SelectPlanet(i, SelectionKind::Resizing)
                &&& mode == ClickMode::Velocity ==> spec_press_action(mode, editing, clicked)
                    == PressAction::SelectPlanet(i, SelectionKind::Aiming)
                &&& mode == ClickMode::Delete ==> spec_press_action(mode, editing, clicked)
                    == PressAction::DeletePlanet(i)
                &&& mode == ClickMode::Insert ==> spec_press_action(mode, editing, clicked)
                    == PressAction::ClearSelection
            },
            None => {
                &&& mode == ClickMode::Delete ==> spec_press_action(mode, editing, clicked)
                    == PressAction::Nothing
                &&& mode != ClickMode::Delete ==> spec_press_action(mode, editing, clicked)
                    == PressAction::ClearSelection
            },
        },
        spec_press_action(mode, editing, clicked) matches PressAction::SelectPlanet(j, _)
            ==> clicked == Some(j),
        spec_press_action(mode, editing, clicked) matches PressAction::DeletePlanet(j)
            ==> clicked == Some(j),
{
}

/// The keyboard edits of a frame: nothing with Ctrl; otherwise, with a
/// selection, moving, resizing and aiming start exactly when their keys are
/// pressed; insertion happens exactly when its key is pressed; confirming
/// needs the Enter key and a selection (possibly the inserted planet).
pub proof fn lemma_selection_edits_by_key(ctrl: bool, keys: EditKeys, has_selection: bool)
    ensures
        ctrl ==> spec_selection_edits(ctrl, keys, has_selection).len() == 0,
        !ctrl && has_selection ==> {
            let e = spec_selection_edits(ctrl, keys, has_selection);
            &&& e.contains(SelectionEdit::StartMove) == keys.move_key
            &&& e.contains(SelectionEdit::StartResize) == keys.resize_key
            &&& e.contains(SelectionEdit::StartAim) == keys.aim_key
        },
        !has_selection ==> {
            let e = spec_selection_edits(ctrl, keys, has_selection);
            &&& !e.contains(SelectionEdit::StartMove)
            &&& !e.contains(SelectionEdit::StartResize)
            &&& !e.contains(SelectionEdit::StartAim)
        },
        spec_selection_edits(ctrl, keys, has_selection).contains(SelectionEdit::InsertPlanet) == (
        !ctrl && keys.insert_key),
        spec_selection_edits(ctrl, keys, has_selection).contains(SelectionEdit::Confirm) == (!ctrl
            && keys.enter_key && (has_selection || keys.insert_key)),
{
    let e = spec_selection_edits(ctrl, keys, has_selection);
    if !ctrl {
        let m = if keys.move_key && has_selection {
            seq![SelectionEdit::StartMove]
        } else {
            seq![]
        };
        let r = if keys.resize_key && has_selection {
            seq![SelectionEdit::StartResize]
        } else {
            seq![]
        };
        let v = if keys.aim_key && has_selection {
            seq![SelectionEdit::StartAim]
        } else {
            seq![]
        };
        let i = if keys.insert_key {
            seq![SelectionEdit::InsertPlanet]
        } else {
            seq![]
        };
        let c = if keys.enter_key && (has_selection || keys.insert_key) {
            seq![SelectionEdit::Confirm]
        } else {
            seq![]
        };
        assert(e == m + r + v + i + c);
        lemma_optional_edit(m, keys.move_key && has_selection, SelectionEdit::StartMove);
        lemma_optional_edit(r, keys.resize_key && has_selection, SelectionEdit::StartResize);
        lemma_optional_edit(v, keys.aim_key && has_selection, SelectionEdit::StartAim);
        lemma_optional_edit(i, keys.insert_key, SelectionEdit::InsertPlanet);
        lemma_optional_edit(c, keys.enter_key && (has_selection || keys.insert_key),
            SelectionEdit::Confirm);
        lemma_concat_contains(m, r);
        lemma_concat_contains(m + r, v);
        lemma_concat_contains(m + r + v, i);
        lemma_concat_contains(m + r + v + i, c);
    } else {
        assert(e.len() == 0);
    }
}

/// A sequence of at most one edit holds exactly that edit, when present.
proof fn lemma_optional_edit(s: Seq<SelectionEdit>, present: bool, x: SelectionEdit)
    requires
        s == (if present { seq![x] } else { Seq::<SelectionEdit>::empty() }),
    ensures
        forall|y: SelectionEdit| #![trigger s.contains(y)] s.contains(y) == (present && y == x),
{
    assert forall|y: SelectionEdit| s.contains(y) == (present && y == x) by {
        if present && y == x {
            assert(s[0] == y);
        }
    }
}

/// What two sequences of edits hold together.
proof fn lemma_concat_contains(a: Seq<SelectionEdit>, b: Seq<SelectionEdit>)
    ensures
        forall|y: SelectionEdit| #![trigger (a + b).contains(y)]
            (a + b).contains(y) == (a.contains(y) || b.contains(y)),
{
    assert forall|y: SelectionEdit| (a + b).contains(y) == (a.contains(y) || b.contains(y)) by {
        if (a + b).contains(y) {
            let q = choose|q: int| 0 <= q < (a + b).len() && (a + b)[q] == y;
            if q < a.len() {
                assert(a[q] == y);
            } else {
                assert(b[q - a.len()] == y);
            }
        }
        if a.contains(y) {
            let q = choose|q: int| 0 <= q < a.len() && a[q] == y;
            assert((a + b)[q] == y);
        }
        if b.contains(y) {
            let q = choose|q: int| 0 <= q < b.len() && b[q] == y;
            assert((a + b)[q + a.len()] == y);
        }
    }
}

/// One frame of the tutorial window, stated page by page: with the window
/// still open, the page (brought into range) moves one forward for a next
/// click where there is a next page, then one back for a previous click where
/// there is a previous page; it never moves by more than one, and it never
/// leaves the range of pages.  Without a tutorial, or with the window closed,
/// there is no page.
pub proof fn lemma_tutorial_steps(page: Option<u8>, still_open: bool, next: bool, previous: bool)
    ensures
        page is None || !still_open ==> spec_tutorial_after(page, still_open, next, previous)
            is None,
        page is Some && still_open ==> ({
            let last = LAST_PAGE as int;
            let p = page->Some_0 as int;
            let p0 = if p <= last { p } else { last };
            let q = spec_tutorial_after(page, still_open, next, previous)->Some_0 as int;
            &&& spec_tutorial_after(page, still_open, next, previous) is Some
            &&& 0 <= q <= last
            &&& !next && !previous ==> q == p0
            &&& next && !previous ==> q == if p0 < last { p0 + 1 } else { last }
            &&& !next && previous ==> q == if p0 > 0 { p0 - 1 } else { 0 }
            &&& next && previous ==> q == if p0 < last { p0 } else { last - 1 }
        }),
{
}

} // verus!
