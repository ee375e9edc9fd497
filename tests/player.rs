use gameplay::player::{movement, PlayerKeys, PlayerState};
use gameplay::sprite_animation::SpriteAnimation;

fn keys() -> PlayerKeys {
    PlayerKeys::default()
}

#[test]
fn movement_from_held_keys() {
    assert_eq!(movement(&keys()), (0, 0));
    assert_eq!(movement(&PlayerKeys { up: true, right: true, ..keys() }), (1, 1));
    assert_eq!(movement(&PlayerKeys { left: true, down: true, ..keys() }), (-1, -1));
    assert_eq!(movement(&PlayerKeys { left: true, right: true, up: true, ..keys() }), (0, 1));
}

#[test]
fn idle_transitions() {
    let s = PlayerState::Idle;
    assert_eq!(s.next(&keys()), PlayerState::Idle);
    assert_eq!(s.next(&PlayerKeys { interact_pressed: true, observe_pressed: true, up: true, ..keys() }), PlayerState::Interact);
    assert_eq!(s.next(&PlayerKeys { observe_pressed: true, up: true, ..keys() }), PlayerState::Observe);
    assert_eq!(s.next(&PlayerKeys { right: true, ..keys() }), PlayerState::Move(1, 0));
}

#[test]
fn interact_and_observe_last_until_release() {
    assert_eq!(PlayerState::Interact.next(&PlayerKeys { up: true, ..keys() }), PlayerState::Interact);
    assert_eq!(PlayerState::Interact.next(&PlayerKeys { interact_released: true, ..keys() }), PlayerState::Idle);
    assert_eq!(PlayerState::Observe.next(&PlayerKeys { interact_released: true, ..keys() }), PlayerState::Observe);
    assert_eq!(PlayerState::Observe.next(&PlayerKeys { observe_released: true, ..keys() }), PlayerState::Idle);
}

#[test]
fn moving_transitions() {
    let s = PlayerState::Move(1, 0);
    assert_eq!(s.next(&PlayerKeys { down: true, ..keys() }), PlayerState::Move(0, -1));
    assert_eq!(s.next(&PlayerKeys { observe_pressed: true, down: true, ..keys() }), PlayerState::Move(0, -1));
    assert_eq!(s.next(&PlayerKeys { interact_pressed: true, down: true, ..keys() }), PlayerState::Interact);
    assert_eq!(s.next(&keys()), PlayerState::Idle);
}

fn anims() -> SpriteAnimation {
    SpriteAnimation::new(vec![("idle", vec![1, 2]), ("walk", vec![5, 6, 7])])
}

#[test]
fn animation_starts_with_first() {
    let a = anims();
    assert_eq!(a.get(), Some("idle"));
    assert_eq!(a.index(), 1);
    let empty = SpriteAnimation::new(vec![]);
    assert_eq!(empty.get(), None);
    assert_eq!(empty.index(), 0);
}

#[test]
fn animation_frames_cycle() {
    let mut a = anims();
    a.set("walk");
    let mut shown = vec![];
    for _ in 0..4 {
        shown.push(a.index());
        a.update(true);
    }
    assert_eq!(shown, vec![5, 6, 7, 5]);
    a.update(false);
    assert_eq!(a.index(), 6);
    a.set("jump");
    assert_eq!(a.index(), 0);
}

#[test]
fn animation_counter_wraps() {
    let mut a = anims();
    a.anim_index = usize::MAX;
    a.update(true);
    assert_eq!(a.anim_index, 0);
}
