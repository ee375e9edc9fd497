use gameplay::inventory::{Inventory, ItemKind, Items};
use gameplay::inventory_widget::{selection_from_keys, slot_sprite};
use gameplay::jabber::{Jabbering, LINES_OF_COOKING};
use gameplay::oven::{OvenState, Timer};
use gameplay::utils::SliceExt;

const FISH: ItemKind = ItemKind(1);
const BAKED: ItemKind = ItemKind(2);
const ITEMS: Items = Items { fish: FISH, baked_fish: BAKED };

#[test]
fn inventory_put_has_count_take() {
    let mut inv = Inventory::new();
    assert!(!inv.has(&FISH));
    inv.put(&FISH);
    inv.put(&BAKED);
    inv.put(&FISH);
    assert!(inv.has(&FISH));
    assert_eq!(inv.count(&FISH), 2);
    assert_eq!(inv.count(&BAKED), 1);
    inv.take(&FISH);
    assert_eq!(inv.items, vec![BAKED, FISH]);
    inv.take(&ItemKind(7));
    assert_eq!(inv.items, vec![BAKED, FISH]);
}

#[test]
fn timer_runs_out_and_resets() {
    let mut t = Timer::new(100);
    assert!(!t.finished());
    t.tick(60);
    assert_eq!(t.elapsed, 60);
    t.tick(60);
    assert_eq!(t.elapsed, 100);
    assert!(t.finished());
    t.reset();
    assert_eq!(t.elapsed, 0);
}

#[test]
fn oven_full_cycle() {
    let mut oven = OvenState::new(1000);
    assert_eq!(oven.animation(), "off");
    assert_eq!(oven.interact(&ITEMS), None);
    assert!(oven.on_fire);
    assert_eq!(oven.animation(), "on");
    assert_eq!(oven.interact(&ITEMS), None);
    assert_eq!(oven.item, Some(FISH));
    assert_eq!(oven.animation(), "on_fish");
    oven.baking_timer.tick(1000);
    assert_eq!(oven.animation(), "on_bakedfish");
    assert_eq!(oven.interact(&ITEMS), Some(BAKED));
    assert!(!oven.on_fire);
    assert_eq!(oven.item, None);
    assert_eq!(oven.animation(), "off");
}

#[test]
fn oven_gives_raw_fish_back_early() {
    let mut oven = OvenState::new(1000);
    oven.interact(&ITEMS);
    oven.interact(&ITEMS);
    oven.baking_timer.tick(10);
    assert_eq!(oven.interact(&ITEMS), Some(FISH));
    assert!(!oven.on_fire);
    assert_eq!(oven.baked_item, None);
    assert_eq!(oven.animation(), "off");
}

#[test]
fn cold_oven_with_fish() {
    let mut oven = OvenState::new(5);
    oven.item = Some(FISH);
    oven.baked_item = Some(BAKED);
    assert_eq!(oven.animation(), "off_fish");
    oven.baking_timer.tick(5);
    assert_eq!(oven.animation(), "off_bakedfish");
    assert_eq!(oven.interact(&ITEMS), Some(BAKED));
    assert_eq!(oven.item, None);
}

#[test]
fn jabbering_lines() {
    let mut j = Jabbering { line: None, lines: &LINES_OF_COOKING };
    assert_eq!(j.get_line(), None);
    j.line = Some(1);
    assert_eq!(j.get_line(), Some("More salt...".to_string()));
    j.line = Some(10);
    assert_eq!(j.get_line(), None);
    for _ in 0..50 {
        j.pick_line();
        assert!(j.line.unwrap() < LINES_OF_COOKING.len());
        assert!(j.get_line().is_some());
    }
}

#[test]
fn jabbering_picks_vary() {
    let mut j = Jabbering { line: None, lines: &LINES_OF_COOKING };
    let mut seen = std::collections::HashSet::new();
    for _ in 0..200 {
        j.pick_line();
        seen.insert(j.line.unwrap());
    }
    assert!(seen.len() > 1);
}

#[test]
fn slice_random_picks_members() {
    let xs = [3u32, 5, 7];
    let mut seen = std::collections::HashSet::new();
    for _ in 0..200 {
        let x = xs[..].random();
        assert!(xs.contains(&x));
        seen.insert(x);
    }
    assert!(seen.len() > 1);
}

#[test]
fn widget_selection() {
    let none = vec![false; 8];
    assert_eq!(selection_from_keys(&none, false), None);
    assert_eq!(selection_from_keys(&none, true), Some(None));
    let mut keys = vec![false; 8];
    keys[2] = true;
    keys[5] = true;
    assert_eq!(selection_from_keys(&keys, false), Some(Some(5)));
    assert_eq!(selection_from_keys(&keys, true), Some(None));
    assert_eq!(slot_sprite(5, Some(5), 9, 4), 9);
    assert_eq!(slot_sprite(4, Some(5), 9, 4), 4);
    assert_eq!(slot_sprite(4, None, 9, 4), 4);
}

use gameplay::item_basics::{first_pickable, CanBeItemBasics, CanItemBasics, Release};

fn carrier(drop: bool, throw: bool) -> CanItemBasics {
    CanItemBasics { pick_up: true, drop, throw, picked_up: Some(7) }
}

fn item(drop: bool, throw: bool) -> CanBeItemBasics {
    CanBeItemBasics { pick_up: false, drop, throw }
}

#[test]
fn release_by_coin() {
    let mut c = carrier(true, true);
    let mut i = item(true, true);
    assert_eq!(c.release_with(&mut i, true), Release::Drop);
    assert_eq!(c.picked_up, None);
    assert!(i.pick_up);
    let mut c = carrier(true, true);
    let mut i = item(true, true);
    assert_eq!(c.release_with(&mut i, false), Release::Throw);
    assert_eq!(c.picked_up, None);
}

#[test]
fn release_only_way_open() {
    let mut c = carrier(true, false);
    let mut i = item(true, true);
    assert_eq!(c.release_with(&mut i, false), Release::Drop);
    let mut c = carrier(true, true);
    let mut i = item(false, true);
    assert_eq!(c.release_with(&mut i, true), Release::Throw);
    let mut c = carrier(false, true);
    let mut i = item(true, false);
    assert_eq!(c.release_with(&mut i, true), Release::Keep);
    assert_eq!(c.picked_up, Some(7));
    assert!(!i.pick_up);
}

#[test]
fn release_flips_a_coin() {
    let mut drops = 0;
    let mut throws = 0;
    for _ in 0..200 {
        let mut c = carrier(true, true);
        let mut i = item(true, true);
        match c.release(&mut i) {
            Release::Drop => drops += 1,
            Release::Throw => throws += 1,
            Release::Keep => panic!("both ways were open"),
        }
    }
    assert!(drops > 0 && throws > 0);
}

#[test]
fn pick_and_first_pickable() {
    let items = vec![item(true, true), CanBeItemBasics { pick_up: true, drop: true, throw: false }];
    assert_eq!(first_pickable(&items), Some(1));
    assert_eq!(first_pickable(&vec![item(true, true)]), None);
    let mut c = CanItemBasics { pick_up: true, drop: true, throw: true, picked_up: None };
    let mut i = items[1];
    c.pick(42, &mut i);
    assert_eq!(c.picked_up, Some(42));
    assert!(!i.pick_up);
}
