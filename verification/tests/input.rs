use rust_snake::input_queue::{InputKey, InputQueue, KeyPress};
use rust_snake::InputKey as Arrow;
use rust_snake::MoveDirection;

#[test]
fn recognizes_movement_keys() {
    let cases = [
        (KeyPress::Up, MoveDirection::Up),
        (KeyPress::Down, MoveDirection::Down),
        (KeyPress::Left, MoveDirection::Left),
        (KeyPress::Right, MoveDirection::Right),
    ];

    for (key, direction) in cases {
        assert_eq!(InputKey::from_key(key), InputKey::Move(direction));
    }
}

#[test]
fn recognizes_quit_key() {
    assert_eq!(
        InputKey::from_key(KeyPress::Char(InputKey::QUIT_CHARACTER)),
        InputKey::Quit
    );
}

#[test]
fn recognizes_other_keys_for_the_start_prompt() {
    assert_eq!(InputKey::from_key(KeyPress::Other), InputKey::Other);
}

#[test]
fn recognizes_pause_and_reset_keys() {
    assert_eq!(InputKey::from_key(KeyPress::Char('p')), InputKey::Pause);
    assert_eq!(InputKey::from_key(KeyPress::Char('r')), InputKey::Reset);
    assert_eq!(InputKey::from_key(KeyPress::Char('x')), InputKey::Other);
    assert_eq!(InputKey::from_key(KeyPress::Char('Q')), InputKey::Other);
}

#[test]
fn full_input_queue_drops_the_oldest_key() {
    let mut queue = InputQueue::new();
    queue.push_back(InputKey::Pause);
    for _ in 0..InputQueue::MAX_ITEMS {
        queue.push_back(InputKey::Quit);
    }
    assert_eq!(queue.len(), InputQueue::MAX_ITEMS);
    let flushed: Vec<InputKey> = queue.flush().into_iter().collect();
    assert_eq!(flushed, vec![InputKey::Quit; InputQueue::MAX_ITEMS]);
    assert_eq!(queue.len(), 0);
}

#[test]
fn arrow_keys_name_themselves() {
    assert_eq!(Arrow::Up.to_string(), "Up");
    assert_eq!(Arrow::Down.to_string(), "Down");
    assert_eq!(Arrow::Left.to_string(), "Left");
    assert_eq!(Arrow::Right.to_string(), "Right");
    assert_eq!(Arrow::from_key(KeyPress::Left), Some(Arrow::Left));
    assert_eq!(Arrow::from_key(KeyPress::Char('q')), None);
}
