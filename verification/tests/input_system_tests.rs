use std::collections::HashSet;

use node_graph::input_system::{
    any_source_held, update_input_system, GameAction, InputMappings, InputSource, InputState,
    KEY_ARROW_DOWN, KEY_ARROW_LEFT, KEY_ARROW_RIGHT, KEY_ARROW_UP,
};

fn held(keys: &[u32]) -> HashSet<u32> {
    keys.iter().copied().collect()
}

const ALL: [GameAction; 7] = [
    GameAction::MoveLeft,
    GameAction::MoveRight,
    GameAction::MoveUp,
    GameAction::MoveDown,
    GameAction::RotateLeft,
    GameAction::RotateRight,
    GameAction::SpeedBoost,
];

fn active(state: &InputState) -> Vec<GameAction> {
    ALL.iter().copied().filter(|a| state.is_action_active(*a)).collect()
}

#[test]
fn the_default_mappings_put_the_moves_on_the_arrows() {
    let mappings = InputMappings::default();
    let map = mappings.get_current_mappings();
    assert_eq!(map.len(), 4);
    assert_eq!(map[&GameAction::MoveLeft.code()], vec![InputSource::KeyCode(KEY_ARROW_LEFT)]);
    assert_eq!(map[&GameAction::MoveRight.code()], vec![InputSource::KeyCode(KEY_ARROW_RIGHT)]);
    assert_eq!(map[&GameAction::MoveUp.code()], vec![InputSource::KeyCode(KEY_ARROW_UP)]);
    assert_eq!(map[&GameAction::MoveDown.code()], vec![InputSource::KeyCode(KEY_ARROW_DOWN)]);
}

#[test]
fn action_numbers_go_both_ways() {
    for (i, action) in ALL.iter().enumerate() {
        assert_eq!(action.code(), i as u32);
        assert_eq!(GameAction::from_code(i as u32), Some(*action));
    }
    assert_eq!(GameAction::from_code(7), None);
    assert_eq!(GameAction::from_code(u32::MAX), None);
}

#[test]
fn held_keys_make_their_actions_active() {
    let mappings = InputMappings::default();
    let mut state = InputState::default();
    assert!(state.get_active_actions().is_empty());

    update_input_system(&mut state, &mappings, &held(&[KEY_ARROW_UP, KEY_ARROW_LEFT, 99]));
    assert_eq!(active(&state), vec![GameAction::MoveLeft, GameAction::MoveUp]);
    assert_eq!(state.get_active_actions().len(), 2);

    // What was active before plays no part.
    update_input_system(&mut state, &mappings, &held(&[KEY_ARROW_DOWN]));
    assert_eq!(active(&state), vec![GameAction::MoveDown]);

    update_input_system(&mut state, &mappings, &held(&[]));
    assert!(active(&state).is_empty());
}

#[test]
fn added_mappings_come_behind_and_any_of_them_triggers() {
    let mut mappings = InputMappings::default();
    mappings.add_mapping(GameAction::MoveLeft, InputSource::KeyCode(30));
    mappings.add_mapping(GameAction::SpeedBoost, InputSource::KeyCode(40));
    mappings.add_mapping(GameAction::SpeedBoost, InputSource::KeyCode(41));
    let map = mappings.get_current_mappings();
    assert_eq!(map.len(), 5);
    assert_eq!(
        map[&GameAction::MoveLeft.code()],
        vec![InputSource::KeyCode(KEY_ARROW_LEFT), InputSource::KeyCode(30)]
    );
    assert_eq!(
        map[&GameAction::SpeedBoost.code()],
        vec![InputSource::KeyCode(40), InputSource::KeyCode(41)]
    );
    assert_eq!(map[&GameAction::MoveUp.code()], vec![InputSource::KeyCode(KEY_ARROW_UP)]);

    let mut state = InputState::default();
    update_input_system(&mut state, &mappings, &held(&[41, 30]));
    assert_eq!(active(&state), vec![GameAction::MoveLeft, GameAction::SpeedBoost]);
}

#[test]
fn set_mappings_replaces_the_sources_of_an_action() {
    let mut mappings = InputMappings::default();
    mappings.set_mappings_for_action(GameAction::MoveUp, vec![InputSource::KeyCode(50)]);
    mappings.set_mappings_for_action(GameAction::MoveDown, vec![]);
    let mut state = InputState::default();
    update_input_system(&mut state, &mappings, &held(&[KEY_ARROW_UP, KEY_ARROW_DOWN]));
    assert!(active(&state).is_empty());
    update_input_system(&mut state, &mappings, &held(&[50]));
    assert_eq!(active(&state), vec![GameAction::MoveUp]);
}

#[test]
fn sources_are_described_by_their_key_number() {
    assert_eq!(InputSource::KeyCode(0).describe(), "Keyboard(0)");
    assert_eq!(InputSource::KeyCode(1234).describe(), "Keyboard(1234)");
    assert!(InputSource::KeyCode(5).is_held(&held(&[4, 5])));
    assert!(!InputSource::KeyCode(5).is_held(&held(&[4])));
    assert!(any_source_held(
        &vec![InputSource::KeyCode(1), InputSource::KeyCode(2)],
        &held(&[2])
    ));
    assert!(!any_source_held(&vec![], &held(&[2])));
}
