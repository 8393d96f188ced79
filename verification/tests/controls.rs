use orbit_sim::controls::{
    clamp_page, get_planet_setup, next_page, previous_page, tutorial_after, selection_edits, EditKeys, SelectionEdit, has_next_page, has_previous_page, page_label, pans_view,
    pauses_simulation, press_action, release_action, searches_tails, selection_kind,
    toggle_tutorial, ClickMode, Command, Controls, Modifiers, PressAction, SelectionKind,
    ShortcutKey,
};

fn controls() -> Controls {
    Controls { click_mode: ClickMode::Select, playing: true, shortcuts_shown: false }
}

const NONE: Modifiers = Modifiers { ctrl: false, shift: false };
const CTRL: Modifiers = Modifiers { ctrl: true, shift: false };
const CTRL_SHIFT: Modifiers = Modifiers { ctrl: true, shift: true };

#[test]
fn save_and_load_shortcuts_need_ctrl() {
    let mut c = controls();
    assert_eq!(c.handle_shortcut(ShortcutKey::S, CTRL, true, false), Command::Save);
    assert_eq!(c.handle_shortcut(ShortcutKey::S, CTRL_SHIFT, true, false), Command::SaveAs);
    assert_eq!(c.handle_shortcut(ShortcutKey::S, NONE, true, false), Command::Nothing);
    assert_eq!(c.handle_shortcut(ShortcutKey::O, CTRL, true, false), Command::Load);
    assert_eq!(c.handle_shortcut(ShortcutKey::O, NONE, true, false), Command::Nothing);
    assert_eq!(c.handle_shortcut(ShortcutKey::N, CTRL, true, false), Command::NewSimulation);
    assert_eq!(c, controls());
}

#[test]
fn space_toggles_play_and_ctrl_slash_the_cheatsheet() {
    let mut c = controls();
    c.handle_shortcut(ShortcutKey::Space, NONE, true, false);
    assert!(!c.playing);
    c.handle_shortcut(ShortcutKey::Space, CTRL, true, false);
    assert!(c.playing);
    c.handle_shortcut(ShortcutKey::Slash, NONE, true, false);
    assert!(!c.shortcuts_shown);
    c.handle_shortcut(ShortcutKey::Slash, CTRL, true, false);
    assert!(c.shortcuts_shown);
}

#[test]
fn number_keys_choose_tools_and_three_four_pause() {
    let mut c = controls();
    c.handle_shortcut(ShortcutKey::Num2, NONE, true, false);
    assert_eq!(c.click_mode, ClickMode::Move);
    assert!(c.playing);
    c.handle_shortcut(ShortcutKey::Num3, NONE, true, false);
    assert_eq!(c.click_mode, ClickMode::Resize);
    assert!(!c.playing);
    c.playing = true;
    c.handle_shortcut(ShortcutKey::Num4, NONE, true, false);
    assert_eq!(c.click_mode, ClickMode::Velocity);
    assert!(!c.playing);
    c.handle_shortcut(ShortcutKey::Num5, NONE, true, false);
    assert_eq!(c.click_mode, ClickMode::Insert);
    c.handle_shortcut(ShortcutKey::Num6, NONE, true, false);
    assert_eq!(c.click_mode, ClickMode::Delete);
    c.handle_shortcut(ShortcutKey::Num1, NONE, true, false);
    assert_eq!(c.click_mode, ClickMode::Select);
}

#[test]
fn delete_and_escape_are_commands() {
    let mut c = controls();
    assert_eq!(c.handle_shortcut(ShortcutKey::D, NONE, true, false), Command::DeleteSelected);
    assert_eq!(c.handle_shortcut(ShortcutKey::Escape, CTRL, true, false), Command::CancelEdit);
    assert_eq!(c.handle_shortcut(ShortcutKey::Other, CTRL, true, false), Command::Nothing);
}

#[test]
fn releases_and_repeats_are_ignored() {
    let mut c = controls();
    assert_eq!(c.handle_shortcut(ShortcutKey::S, CTRL, false, false), Command::Nothing);
    assert_eq!(c.handle_shortcut(ShortcutKey::Space, NONE, true, true), Command::Nothing);
    assert_eq!(c, controls());
}

#[test]
fn tools_and_selections() {
    assert!(pauses_simulation(ClickMode::Resize));
    assert!(pauses_simulation(ClickMode::Velocity));
    assert!(!pauses_simulation(ClickMode::Move));
    assert_eq!(selection_kind(ClickMode::Move), Some(SelectionKind::Moving));
    assert_eq!(selection_kind(ClickMode::Velocity), Some(SelectionKind::Aiming));
    assert_eq!(selection_kind(ClickMode::Insert), None);
}

#[test]
fn presses_confirm_select_or_delete() {
    assert_eq!(press_action(ClickMode::Move, true, Some(3)), PressAction::ConfirmEdit);
    assert_eq!(
        press_action(ClickMode::Resize, false, Some(3)),
        PressAction::SelectPlanet(3, SelectionKind::Resizing)
    );
    assert_eq!(press_action(ClickMode::Select, false, None), PressAction::ClearSelection);
    assert_eq!(press_action(ClickMode::Delete, false, Some(0)), PressAction::DeletePlanet(0));
    assert_eq!(press_action(ClickMode::Insert, false, Some(0)), PressAction::ClearSelection);
    assert_eq!(press_action(ClickMode::Insert, false, None), PressAction::ClearSelection);
    assert_eq!(press_action(ClickMode::Move, false, None), PressAction::ClearSelection);
    assert!(searches_tails(ClickMode::Velocity, None));
    assert!(!searches_tails(ClickMode::Velocity, Some(1)));
    assert!(!searches_tails(ClickMode::Move, None));
}

#[test]
fn releases_end_edits_and_insert_on_clicks() {
    let r = release_action(ClickMode::Insert, false, false);
    assert!(r.insert_planet && !r.end_edit);
    let r = release_action(ClickMode::Insert, true, true);
    assert!(!r.insert_planet && r.end_edit);
    assert!(!release_action(ClickMode::Select, false, false).insert_planet);
    assert!(pans_view(true, false, true));
    assert!(pans_view(false, true, false));
    assert!(!pans_view(false, true, true));
}

#[test]
fn tutorial_pages() {
    assert_eq!(clamp_page(9), 4);
    assert_eq!(clamp_page(2), 2);
    assert!(has_next_page(3));
    assert!(!has_next_page(4));
    assert!(!has_previous_page(0));
    assert!(has_previous_page(1));
    assert_eq!(toggle_tutorial(None), Some(0));
    assert_eq!(toggle_tutorial(Some(3)), None);
    assert_eq!(page_label(0), "Page 1/5");
    assert_eq!(page_label(4), "Page 5/5");
}

#[test]
fn kepler_setup_needs_one_locked_of_two() {
    assert_eq!(get_planet_setup(&vec![true, false]), Some((0, 1)));
    assert_eq!(get_planet_setup(&vec![false, true]), Some((1, 0)));
    assert_eq!(get_planet_setup(&vec![true, true]), None);
    assert_eq!(get_planet_setup(&vec![false, false]), None);
    assert_eq!(get_planet_setup(&vec![true]), None);
    assert_eq!(get_planet_setup(&vec![true, false, false]), None);
}

fn keys(m: bool, r: bool, v: bool, i: bool, enter: bool) -> EditKeys {
    EditKeys { move_key: m, resize_key: r, aim_key: v, insert_key: i, enter_key: enter }
}

#[test]
fn editing_keys_need_a_selection_except_insert() {
    assert!(selection_edits(false, keys(true, true, true, false, true), false).is_empty());
    assert_eq!(
        selection_edits(false, keys(true, false, true, false, false), true),
        vec![SelectionEdit::StartMove, SelectionEdit::StartAim]
    );
    assert_eq!(
        selection_edits(false, keys(false, false, false, true, true), false),
        vec![SelectionEdit::InsertPlanet, SelectionEdit::Confirm]
    );
}

#[test]
fn editing_keys_are_ignored_with_ctrl() {
    assert!(selection_edits(true, keys(true, true, true, true, true), true).is_empty());
}

#[test]
fn deleting_tool_on_empty_space_does_nothing() {
    assert_eq!(press_action(ClickMode::Delete, false, None), PressAction::Nothing);
    assert_eq!(press_action(ClickMode::Delete, true, None), PressAction::ConfirmEdit);
}

#[test]
fn tutorial_pages_step_within_range() {
    assert_eq!(next_page(3), 4);
    assert_eq!(next_page(4), 4);
    assert_eq!(previous_page(1), 0);
    assert_eq!(previous_page(0), 0);
    assert_eq!(tutorial_after(None, true, true, false), None);
    assert_eq!(tutorial_after(Some(2), false, true, false), None);
    assert_eq!(tutorial_after(Some(9), true, false, false), Some(4));
    assert_eq!(tutorial_after(Some(9), true, true, true), Some(3));
    assert_eq!(tutorial_after(Some(0), true, false, true), Some(0));
    assert_eq!(tutorial_after(Some(0), true, true, true), Some(0));
    assert_eq!(tutorial_after(Some(1), true, true, false), Some(2));
}
