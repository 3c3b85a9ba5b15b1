use sat_ranges::ui::{vis_button_interaction, Interaction, StateButton, VisibilityButton};
use sat_ranges::{GraphVisibility, Settings};

fn start() -> Settings {
    Settings {
        character_visible: true,
        ranges_visible: true,
        graph_visibility: GraphVisibility::All,
    }
}

#[test]
fn character_button_shows_in_state_zero_only() {
    let mut settings = start();
    vis_button_interaction(&mut settings, VisibilityButton::Character, 1);
    assert_eq!(
        settings,
        Settings {
            character_visible: false,
            ranges_visible: true,
            graph_visibility: GraphVisibility::All,
        }
    );
    vis_button_interaction(&mut settings, VisibilityButton::Character, 0);
    assert_eq!(settings, start());
    vis_button_interaction(&mut settings, VisibilityButton::Character, 7);
    assert!(!settings.character_visible);
}

#[test]
fn ranges_button_shows_in_state_one_only() {
    let mut settings = start();
    vis_button_interaction(&mut settings, VisibilityButton::Ranges, 0);
    assert_eq!(
        settings,
        Settings {
            character_visible: true,
            ranges_visible: false,
            graph_visibility: GraphVisibility::All,
        }
    );
    vis_button_interaction(&mut settings, VisibilityButton::Ranges, 1);
    assert_eq!(settings, start());
    vis_button_interaction(&mut settings, VisibilityButton::Ranges, 2);
    assert!(!settings.ranges_visible);
}

#[test]
fn graph_button_selects_by_state() {
    let mut settings = start();
    vis_button_interaction(&mut settings, VisibilityButton::Graphs, 0);
    assert_eq!(settings.graph_visibility, GraphVisibility::Hidden);
    vis_button_interaction(&mut settings, VisibilityButton::Graphs, 1);
    assert_eq!(settings.graph_visibility, GraphVisibility::Adjacent);
    vis_button_interaction(&mut settings, VisibilityButton::Graphs, 2);
    assert_eq!(settings.graph_visibility, GraphVisibility::All);
    vis_button_interaction(&mut settings, VisibilityButton::Graphs, 3);
    assert_eq!(settings.graph_visibility, GraphVisibility::Hidden);
    vis_button_interaction(&mut settings, VisibilityButton::Graphs, u16::MAX);
    assert_eq!(settings.graph_visibility, GraphVisibility::Hidden);
    assert!(settings.character_visible);
    assert!(settings.ranges_visible);
}

#[test]
fn new_button_shows_its_first_look() {
    let button = StateButton::new(vec![("shown", "shown_sel"), ("hidden", "hidden_sel")]);
    assert_eq!(button.state, 0);
    assert_eq!(button.states.len(), 2);
    assert_eq!(*button.image(Interaction::Idle), "shown");
}

#[test]
fn image_is_highlighted_while_pressed_or_hovered() {
    let mut button = StateButton::new(vec![("a", "a_sel"), ("b", "b_sel"), ("c", "c_sel")]);
    button.state = 1;
    assert_eq!(*button.image(Interaction::Idle), "b");
    assert_eq!(*button.image(Interaction::Hovered), "b_sel");
    assert_eq!(*button.image(Interaction::Pressed), "b_sel");
}

#[test]
fn press_steps_through_the_looks_and_wraps() {
    let mut button = StateButton::new(vec![(0u8, 10u8), (1, 11), (2, 12)]);
    button.state_button_interaction(Interaction::Pressed);
    assert_eq!(button.state, 1);
    button.state_button_interaction(Interaction::Pressed);
    assert_eq!(button.state, 2);
    assert_eq!(*button.image(Interaction::Pressed), 12);
    button.state_button_interaction(Interaction::Pressed);
    assert_eq!(button.state, 0);
    assert_eq!(button.states, vec![(0u8, 10u8), (1, 11), (2, 12)]);
}

#[test]
fn hover_and_idle_leave_the_state() {
    let mut button = StateButton::new(vec![(0u8, 10u8), (1, 11)]);
    button.state = 1;
    button.state_button_interaction(Interaction::Hovered);
    assert_eq!(button.state, 1);
    button.state_button_interaction(Interaction::Idle);
    assert_eq!(button.state, 1);
}

#[test]
fn button_with_one_look_stays_put() {
    let mut button = StateButton::new(vec![("add", "add_sel")]);
    button.state_button_interaction(Interaction::Pressed);
    assert_eq!(button.state, 0);
    button.state_button_interaction(Interaction::Pressed);
    assert_eq!(button.state, 0);
    assert_eq!(*button.image(Interaction::Hovered), "add_sel");
}

#[test]
fn press_counts_the_looks_in_sixteen_bits() {
    // 65537 looks step around as if there were one.
    let mut button = StateButton::new(vec![((), ()); 0x1_0001]);
    button.state = 40;
    button.state_button_interaction(Interaction::Pressed);
    assert_eq!(button.state, 0);
    // 65535 looks are all reached.
    let mut button = StateButton::new(vec![((), ()); 0xffff]);
    button.state = 0xfffd;
    button.state_button_interaction(Interaction::Pressed);
    assert_eq!(button.state, 0xfffe);
    button.state_button_interaction(Interaction::Pressed);
    assert_eq!(button.state, 0);
}

#[test]
fn images_are_handed_out_by_reference() {
    let mut button = StateButton::new(vec![
        (String::from("shown"), String::from("shown_sel")),
        (String::from("hidden"), String::from("hidden_sel")),
    ]);
    let before = button.image(Interaction::Hovered).clone();
    button.state_button_interaction(Interaction::Pressed);
    assert_eq!(before, "shown_sel");
    assert_eq!(button.state, 1);
    assert_eq!(button.image(Interaction::Pressed), "hidden_sel");
    assert_eq!(button.image(Interaction::Idle), "hidden");
}
