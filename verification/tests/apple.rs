use rust_snake::assets;
use rust_snake::models::apple::{Apple, AppleSignal};
use rust_snake::models::snake::SnakeSignal;
use rust_snake::models::text::Text;
use rust_snake::{GameObject, GameObjectId, Render, TextureColor, Vector2Int};

#[test]
fn an_apple_is_eaten_once_by_its_own_id() {
    let mut apple = Apple::spawn(Vector2Int::new(3, 4));
    let id = apple.id();
    assert_eq!(apple.collision_cell(), Some((id, Vector2Int::new(3, 4))));

    let other = GameObjectId::new();
    assert_eq!(apple.on_snake_signal(&SnakeSignal::FoodEaten { food_id: other }), None);
    assert_eq!(apple.on_snake_signal(&SnakeSignal::Killed { snake_id: id }), None);
    assert!(!apple.eaten());

    assert_eq!(
        apple.on_snake_signal(&SnakeSignal::FoodEaten { food_id: id }),
        Some(AppleSignal::Eaten { apple_id: id })
    );
    assert!(apple.eaten());
    assert_eq!(apple.collision_cell(), None);
    assert_eq!(apple.on_snake_signal(&SnakeSignal::FoodEaten { food_id: id }), None);

    apple.respawn(Vector2Int::new(5, 6));
    assert!(!apple.eaten());
    assert_eq!(apple.position(), Vector2Int::new(5, 6));
    assert_eq!(apple.id(), id);
}

#[test]
fn an_apple_draws_one_apple_glyph_at_its_origin() {
    let apple = Apple::spawn(Vector2Int::new(3, 4));
    let items = apple.render_items();
    assert_eq!(items.len(), 1);
    assert_eq!(items[0].texture(), assets::apple());
    assert_eq!(items[0].position_local(), Vector2Int::new(0, 0));
}

#[test]
fn text_draws_printable_characters_and_hides_when_invisible() {
    let mut text = Text::new(Vector2Int::new(0, 24), "Hi é!", TextureColor::White);
    let characters: String = text
        .render_items()
        .iter()
        .map(|item| item.texture().character(rust_snake::Rotation::right()))
        .collect();
    assert_eq!(characters, "Hi ?!");
    let columns: Vec<i32> = text.render_items().iter().map(|item| item.position_local().x).collect();
    assert_eq!(columns, [0, 1, 2, 3, 4]);

    text.set_visible(false);
    assert!(!text.visible());
    assert!(text.render_items().is_empty());
}
