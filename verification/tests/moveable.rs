use sat_ranges::moveable::{update_moveables, Candidate, CursorIcon, Grip, Held, Mouse};

fn mouse(left_pressed: bool, left_just_pressed: bool, right_just_pressed: bool) -> Mouse {
    Mouse { left_pressed, left_just_pressed, right_just_pressed }
}

fn candidate(visible: bool, in_reach: bool, deletable: bool) -> Candidate {
    Candidate { visible, in_reach, deletable }
}

#[test]
fn missing_thing_stays_held() {
    let all = vec![candidate(true, true, true)];
    let update = update_moveables(Held::Missing, mouse(false, true, true), &all);
    assert_eq!(update.icon, CursorIcon::Pointer);
    assert_eq!(update.grip, Grip::Keep);
    assert!(update.despawn.is_empty());
}

#[test]
fn held_thing_follows_while_left_is_down() {
    let all = vec![candidate(true, true, true)];
    let update = update_moveables(Held::Present, mouse(true, false, true), &all);
    assert_eq!(update.icon, CursorIcon::Pointer);
    assert_eq!(update.grip, Grip::Follow);
    assert!(update.despawn.is_empty());
}

#[test]
fn held_thing_is_released_when_left_is_up() {
    let update = update_moveables(Held::Present, mouse(false, false, false), &Vec::new());
    assert_eq!(update.icon, CursorIcon::Pointer);
    assert_eq!(update.grip, Grip::Release);
    assert!(update.despawn.is_empty());
}

#[test]
fn nothing_under_the_pointer_changes_nothing() {
    let all = vec![candidate(true, false, true), candidate(false, true, true)];
    let update = update_moveables(Held::Nothing, mouse(true, true, true), &all);
    assert_eq!(update.icon, CursorIcon::Default);
    assert_eq!(update.grip, Grip::Keep);
    assert!(update.despawn.is_empty());
}

#[test]
fn no_candidates_at_all() {
    let update = update_moveables(Held::Nothing, mouse(true, true, false), &Vec::new());
    assert_eq!(update.icon, CursorIcon::Default);
    assert_eq!(update.grip, Grip::Keep);
    assert!(update.despawn.is_empty());
}

#[test]
fn hovering_turns_the_pointer_into_a_hand() {
    let all = vec![candidate(true, false, false), candidate(true, true, false)];
    let update = update_moveables(Held::Nothing, mouse(false, false, false), &all);
    assert_eq!(update.icon, CursorIcon::Pointer);
    assert_eq!(update.grip, Grip::Keep);
    assert!(update.despawn.is_empty());
}

#[test]
fn left_click_grabs_the_first_candidate_under_the_pointer() {
    let all = vec![
        candidate(true, false, false),
        candidate(false, true, false),
        candidate(true, true, false),
        candidate(true, true, true),
    ];
    let update = update_moveables(Held::Nothing, mouse(true, true, false), &all);
    assert_eq!(update.icon, CursorIcon::Pointer);
    assert_eq!(update.grip, Grip::Grab(2));
    assert!(update.despawn.is_empty());
}

#[test]
fn right_click_removes_every_deletable_candidate_under_the_pointer() {
    let all = vec![
        candidate(true, true, false),
        candidate(true, true, true),
        candidate(false, true, true),
        candidate(true, false, true),
        candidate(true, true, true),
    ];
    let update = update_moveables(Held::Nothing, mouse(false, false, true), &all);
    assert_eq!(update.icon, CursorIcon::Pointer);
    assert_eq!(update.grip, Grip::Keep);
    assert_eq!(update.despawn, vec![1, 4]);
}

#[test]
fn right_click_on_what_cannot_be_deleted_removes_nothing() {
    let all = vec![candidate(true, true, false)];
    let update = update_moveables(Held::Nothing, mouse(false, false, true), &all);
    assert_eq!(update.icon, CursorIcon::Pointer);
    assert_eq!(update.grip, Grip::Keep);
    assert!(update.despawn.is_empty());
}

#[test]
fn both_clicks_at_once_grab_and_remove_nothing() {
    let all = vec![candidate(true, true, true), candidate(true, true, true)];
    let update = update_moveables(Held::Nothing, mouse(true, true, true), &all);
    assert_eq!(update.icon, CursorIcon::Pointer);
    assert_eq!(update.grip, Grip::Grab(0));
    assert!(update.despawn.is_empty());
}

#[test]
fn holding_the_left_button_down_does_not_grab() {
    let all = vec![candidate(true, true, true)];
    let update = update_moveables(Held::Nothing, mouse(true, false, false), &all);
    assert_eq!(update.icon, CursorIcon::Pointer);
    assert_eq!(update.grip, Grip::Keep);
    assert!(update.despawn.is_empty());
}
