use reveal_engine::action::{
    item_for_key, slot_for_key, Action, GuiAction, InputMode, ViewportMode,
};
use reveal_engine::actor::{Actor, ActorAI, ActorId, ActorKind};
use reveal_engine::engine::{free_neighbours, pick_move, targets_for, Engine};
use reveal_engine::item::{Item, ItemId, ItemKind, Potion};
use reveal_engine::message::{Message, MessageKind};
use reveal_engine::point::{Point, Rectangle};
use reveal_engine::terrain::{DoorState, Terrain, TerrainKind};
use reveal_engine::world::{remove_handle, HighlightMode, World};

fn engine() -> Engine {
    Engine::new(Rectangle { x1: 0, y1: 0, x2: 40, y2: 30 }, Point::new(10, 10))
}

fn texts(world: &World) -> Vec<String> {
    world.messages.iter().iter().map(|m| m.text.clone()).collect()
}

#[test]
fn engine_starts_with_everything_switched_off() {
    let e = engine();
    assert!(!e.quit && !e.is_bw && !e.turn_ended);
    assert!(!e.show_inventory && !e.show_help && !e.show_status && !e.show_messages);
    assert!(matches!(e.input_mode, InputMode::Default));
    assert_eq!(e.viewport, Rectangle { x1: 0, y1: 0, x2: 40, y2: 30 });
    assert_eq!(e.border_size, Point::new(10, 10));
}

#[test]
fn actions_are_taken_from_the_end() {
    let mut world = World::new().unwrap();
    let mut e = engine();
    let mut actions = vec![
        Action::DisplayMessage { msg: Message::new(MessageKind::Info, "queued first", false) },
        Action::DisplayMessage { msg: Message::new(MessageKind::Info, "queued last", false) },
    ];
    e.process_actions(&mut world, &mut actions);
    assert!(actions.is_empty());
    assert_eq!(texts(&world), vec!["queued first", "queued last"]);
}

#[test]
fn end_turn_puts_a_turn_for_every_npc_on_top() {
    let mut world = World::new().unwrap();
    let cat = world.actors.add(Actor::new(ActorKind::Cat, (1, 1), 2u16)).unwrap();
    let dog = world.actors.add(Actor::new(ActorKind::Dog, (3, 3), 2u16)).unwrap();
    let mut e = engine();
    let mut actions = vec![Action::Ouch];
    e.handle(&mut world, &mut actions, Action::EndTurn);
    assert_eq!(world.time, 1);
    assert!(e.turn_ended);
    assert_eq!(actions.len(), 3);
    assert!(matches!(actions[0], Action::Ouch));
    let mut turns: Vec<u64> = actions[1..]
        .iter()
        .map(|a| match a {
            Action::RunAI { actor_id } => actor_id.raw(),
            other => panic!("not a turn: {:?}", other),
        })
        .collect();
    turns.sort();
    let mut expected = vec![cat.raw(), dog.raw()];
    expected.sort();
    assert_eq!(turns, expected);
    assert_eq!(world.messages.len(), 0);
}

#[test]
fn derived_turns_run_before_what_was_queued_earlier() {
    // Were the move that waits below the end of the turn carried out before
    // the cat's own turn, the cat would now and then end up next to its goal.
    for _ in 0..40 {
        let mut world = World::new().unwrap();
        let cat = world.actors.add(Actor::new(ActorKind::Cat, (1, 1), 2u16)).unwrap();
        let mut e = engine();
        let mut actions =
            vec![Action::Move { actor_id: cat, pos: Point::new(50, 50) }, Action::EndTurn];
        e.process_actions(&mut world, &mut actions);
        assert!(actions.is_empty());
        assert_eq!(world.time, 1);
        assert_eq!(world.actors.get(&cat).unwrap().pos, Point::new(50, 50));
        let visited = &world.actors.get(&cat).unwrap().visited;
        assert!(visited.contains(&Point::new(50, 50)));
    }
}

#[test]
fn wandering_actor_moves_to_a_free_neighbour_or_stays() {
    for _ in 0..50 {
        let mut world = World::new().unwrap();
        let cat = world.actors.add(Actor::new(ActorKind::Cat, (5, 5), 2u16)).unwrap();
        world.terrain.insert(Point::new(6, 5), Terrain::from(TerrainKind::Wall));
        world.actors.add(Actor::new(ActorKind::Dog, (5, 6), 2u16).with_ai(ActorAI::DoNothing))
            .unwrap();
        let mut e = engine();
        let mut actions = vec![Action::RunAI { actor_id: cat }];
        e.process_actions(&mut world, &mut actions);
        let pos = world.actors.get(&cat).unwrap().pos;
        assert!(pos == Point::new(5, 5) || pos == Point::new(4, 5) || pos == Point::new(5, 4));
        assert_eq!(world.time, 0);
    }
}

#[test]
fn idle_or_walled_in_actor_stays() {
    let mut world = World::new().unwrap();
    let idle =
        world.actors.add(Actor::new(ActorKind::Cat, (5, 5), 2u16).with_ai(ActorAI::DoNothing))
            .unwrap();
    let caged = world.actors.add(Actor::new(ActorKind::Dog, (9, 9), 2u16)).unwrap();
    for p in [(10, 9), (9, 10), (8, 9), (9, 8)] {
        world.terrain.insert(Point::from(p), Terrain::from(TerrainKind::Hedge));
    }
    let mut e = engine();
    for _ in 0..30 {
        let mut actions = vec![Action::EndTurn];
        e.process_actions(&mut world, &mut actions);
    }
    assert_eq!(world.time, 30);
    assert_eq!(world.actors.get(&idle).unwrap().pos, Point::new(5, 5));
    assert_eq!(world.actors.get(&caged).unwrap().pos, Point::new(9, 9));
    assert_eq!(world.player_pos(), Point::new(20, 20));
}

#[test]
fn targets_are_the_free_neighbours_east_south_west_north() {
    let mut world = World::new().unwrap();
    let cat = world.actors.add(Actor::new(ActorKind::Cat, (5, 5), 2u16)).unwrap();
    assert_eq!(
        free_neighbours(&world, &Point::new(5, 5)),
        vec![Point::new(6, 5), Point::new(5, 6), Point::new(4, 5), Point::new(5, 4)]
    );
    world.terrain.insert(Point::new(5, 6), Terrain::from(TerrainKind::Door(DoorState::Locked)));
    world.terrain.insert(Point::new(4, 5), Terrain::from(TerrainKind::ShallowWater));
    assert_eq!(
        free_neighbours(&world, &Point::new(5, 5)),
        vec![Point::new(6, 5), Point::new(5, 4)]
    );
    assert_eq!(free_neighbours(&world, &Point::new(i32::MAX, i32::MIN)).len(), 2);
    assert_eq!(free_neighbours(&world, &Point::new(20, 21)).len(), 3);
    assert!(targets_for(&world, &cat, 2).is_empty());
    assert_eq!(targets_for(&world, &cat, 3), vec![Point::new(6, 5), Point::new(5, 4)]);
    assert_eq!(targets_for(&world, &cat, 9).len(), 2);
    assert!(targets_for(&world, &ActorId::from_raw(1), 9).is_empty());
    let targets = vec![Point::new(6, 5), Point::new(5, 4)];
    match pick_move(&cat, &targets, 1) {
        Some(Action::Move { actor_id, pos }) => {
            assert_eq!(actor_id, cat);
            assert_eq!(pos, Point::new(5, 4));
        },
        other => panic!("no move: {:?}", other),
    }
    assert!(pick_move(&cat, &targets, 2).is_none());
}

#[test]
fn move_follow_moves_actor_and_viewport() {
    let mut world = World::new().unwrap();
    let player = world.player_id();
    let mut e = engine();
    let mut actions = vec![Action::MoveFollow {
        actor_id: player,
        pos: Point::new(20, 5),
        mode: ViewportMode::North,
    }];
    e.process_actions(&mut world, &mut actions);
    assert_eq!(world.player_pos(), Point::new(20, 5));
    assert_eq!(e.viewport, Rectangle { x1: 0, y1: -5, x2: 40, y2: 25 });
    assert_eq!(world.visible(&player).unwrap().len(), 169);
    let nobody = ActorId::from_raw(player.raw().wrapping_add(1));
    let mut actions = vec![Action::MoveFollow {
        actor_id: nobody,
        pos: Point::new(500, 500),
        mode: ViewportMode::Center,
    }];
    e.process_actions(&mut world, &mut actions);
    assert_eq!(e.viewport, Rectangle { x1: 0, y1: -5, x2: 40, y2: 25 });
}

#[test]
fn pick_up_use_and_drop_through_the_engine() {
    let mut world = World::new().unwrap();
    let player = world.player_id();
    let money = world.items.add(Item::new(ItemKind::Money(7)).with_pos((20, 20))).unwrap();
    let potion =
        world.items.add(Item::new(ItemKind::Potion(Potion::Swimming)).with_pos((20, 20))).unwrap();
    let key = world.items.add(Item::new(ItemKind::Key).with_pos((20, 20))).unwrap();
    let mut e = engine();
    let mut actions = vec![
        Action::DropItem { item_id: potion },
        Action::UseItem { item_id: potion, target: player },
        Action::PickUp { actor_id: player, items: vec![money, potion, key] },
    ];
    e.process_actions(&mut world, &mut actions);
    let actor = world.actors.get(&player).unwrap();
    assert_eq!(actor.coins, 7);
    assert_eq!(actor.inventory, vec![key]);
    assert_eq!(actor.skills.len(), 1);
    assert_eq!(world.items.len(), 2);
    let dropped = world.items.get(&potion).unwrap();
    assert_eq!(dropped.kind, ItemKind::Potion(Potion::Empty));
    assert_eq!(dropped.pos, Some(Point::new(20, 20)));
    assert!(dropped.owner.is_none());
    assert!(matches!(e.input_mode, InputMode::Default));

    world.terrain.insert(Point::new(21, 21), Terrain::from(TerrainKind::Door(DoorState::Locked)));
    let mut actions = vec![Action::UseItem { item_id: key, target: player }];
    e.process_actions(&mut world, &mut actions);
    match &e.input_mode {
        InputMode::Select { positions } => {
            assert_eq!(positions.to_vec(), vec![Point::new(21, 21)]);
        },
        other => panic!("no selection: {:?}", other),
    }
}

#[test]
fn ouch_is_said_once_and_ends_the_turn() {
    let mut world = World::new().unwrap();
    let mut e = engine();
    let mut actions = vec![Action::Ouch, Action::Ouch, Action::Ouch];
    e.process_actions(&mut world, &mut actions);
    assert_eq!(texts(&world), vec!["Ouch!"]);
    assert!(world.messages.get(0).unwrap().no_repeat);
    assert!(e.turn_ended);
    assert_eq!(world.time, 0);
}

#[test]
fn turn_counter_stops_at_the_largest_number() {
    let mut world = World::new().unwrap();
    world.time = i32::MAX - 1;
    let mut e = engine();
    let mut actions = vec![Action::EndTurn, Action::EndTurn, Action::EndTurn];
    e.process_actions(&mut world, &mut actions);
    assert_eq!(world.time, i32::MAX);
}

#[test]
fn interface_actions_switch_what_they_name() {
    let mut world = World::new().unwrap();
    let mut e = engine();
    let mut actions = vec![
        Action::GUI(GuiAction::HideShowFOV),
        Action::GUI(GuiAction::HideShowStatus),
        Action::GUI(GuiAction::HideShowHelp),
        Action::GUI(GuiAction::HideShowMessages),
        Action::GUI(GuiAction::HideShowInventory),
        Action::GUI(GuiAction::TestBW),
        Action::Quit,
    ];
    e.process_actions(&mut world, &mut actions);
    assert!(e.quit && e.is_bw);
    assert!(e.show_inventory && e.show_help && e.show_status && e.show_messages);
    assert_eq!(world.highlight_mode, Some(HighlightMode::FOV));
    let mut actions = vec![Action::GUI(GuiAction::TestBW), Action::GUI(GuiAction::HideShowFOV)];
    e.process_actions(&mut world, &mut actions);
    assert!(!e.is_bw);
    assert_eq!(world.highlight_mode, None);

    world.highlight_mode = Some(HighlightMode::Line);
    let mut actions =
        vec![Action::GUI(GuiAction::SwitchMode(InputMode::DropItem { inventory: vec![] }))];
    e.process_actions(&mut world, &mut actions);
    assert!(matches!(e.input_mode, InputMode::DropItem { .. }));
    assert_eq!(world.highlight_mode, None);
}

#[test]
fn viewport_actions_move_the_viewport() {
    let mut world = World::new().unwrap();
    let mut e = engine();
    let mut actions = vec![Action::MoveViewport { dx: 0, dy: -1 }, Action::MoveViewport { dx: 2, dy: 0 }];
    e.process_actions(&mut world, &mut actions);
    assert_eq!(e.viewport, Rectangle { x1: 2, y1: -1, x2: 42, y2: 29 });
    let mut actions = vec![Action::CenterViewport];
    e.process_actions(&mut world, &mut actions);
    assert_eq!(e.viewport, Rectangle { x1: 0, y1: 5, x2: 40, y2: 35 });
    assert_eq!(e.viewport.center(), world.player_pos());
}

#[test]
fn keys_choose_slots() {
    assert_eq!(slot_for_key('1'), Some(0));
    assert_eq!(slot_for_key('5'), Some(4));
    assert_eq!(slot_for_key('9'), Some(8));
    assert_eq!(slot_for_key('0'), Some(9));
    assert_eq!(slot_for_key('a'), None);
    let inventory = vec![ItemId::from_raw(11), ItemId::from_raw(22)];
    assert_eq!(item_for_key('1', &inventory), Some(ItemId::from_raw(11)));
    assert_eq!(item_for_key('2', &inventory), Some(ItemId::from_raw(22)));
    assert_eq!(item_for_key('3', &inventory), None);
    assert_eq!(item_for_key('x', &inventory), None);
}

#[test]
fn remove_handle_takes_out_every_occurrence() {
    let id = |n: u64| ItemId::from_raw(n);
    let mut inventory = vec![id(1), id(2), id(1), id(3), id(1)];
    remove_handle(&mut inventory, &id(1));
    assert_eq!(inventory, vec![id(2), id(3)]);
    remove_handle(&mut inventory, &id(9));
    assert_eq!(inventory, vec![id(2), id(3)]);
}
