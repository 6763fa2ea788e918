use reveal_engine::actor::{ActorKind, ActorMap};
use reveal_engine::item::{Item, ItemKind, Potion};
use reveal_engine::point::Point;
use reveal_engine::population::{
    add_item_from, add_items, chars_of, free_floor, lookup, make_tile, populate_world,
    read_terrain, spawn_npcs, spawn_townsfolk, spawn_townsfolk_from, town_legend, Legend,
};
use reveal_engine::terrain::{DoorState, Orientation, Terrain, TerrainFeature, TerrainKind};
use reveal_engine::world::World;

#[test]
fn legend_takes_the_first_entry_for_a_character() {
    let legend = Legend::new()
        .with_kind('a', TerrainKind::Grass)
        .with_kind('b', TerrainKind::Wall)
        .with_kind('a', TerrainKind::Water)
        .with_feature('b', TerrainFeature::Stones);
    assert_eq!(legend.kind_of('a'), Some(TerrainKind::Grass));
    assert_eq!(legend.kind_of('b'), Some(TerrainKind::Wall));
    assert_eq!(legend.kind_of('c'), None);
    assert_eq!(legend.feature_of('b'), Some(TerrainFeature::Stones));
    assert_eq!(legend.feature_of('a'), None);
    assert_eq!(lookup(&vec![('x', 1u8), ('y', 2u8)], 'y'), Some(2));
    assert_eq!(lookup(&Vec::<(char, u8)>::new(), 'y'), None);
}

#[test]
fn town_legend_knows_twelve_characters() {
    let legend = town_legend();
    let expected = [
        ('.', TerrainKind::Grass),
        ('*', TerrainKind::Hedge),
        (':', TerrainKind::StoneFloor),
        ('P', TerrainKind::Path),
        (';', TerrainKind::ThickGrass),
        ('W', TerrainKind::Water),
        ('#', TerrainKind::Wall),
        ('~', TerrainKind::ShallowWater),
        ('D', TerrainKind::Door(DoorState::Open)),
        ('+', TerrainKind::Window),
        ('B', TerrainKind::Bridge(Orientation::Vertical)),
        ('b', TerrainKind::Bridge(Orientation::Horizontal)),
    ];
    for (ch, kind) in expected {
        assert_eq!(legend.kind_of(ch), Some(kind));
        assert_eq!(legend.feature_of(ch), None);
    }
    assert_eq!(legend.kind_of(' '), None);
    assert_eq!(legend.kind_of('\n'), None);
}

#[test]
fn tile_is_decorated_on_a_high_roll_only() {
    assert_eq!(make_tile(TerrainKind::Grass, None, 94, 3), Terrain::from(TerrainKind::Grass));
    assert_eq!(
        make_tile(TerrainKind::Grass, None, 95, 3),
        Terrain::from(TerrainKind::Grass).with(TerrainFeature::Flower(3))
    );
    assert_eq!(
        make_tile(TerrainKind::ShallowWater, None, 99, 3),
        Terrain::from(TerrainKind::ShallowWater).with(TerrainFeature::Waterlily)
    );
    assert_eq!(make_tile(TerrainKind::Wall, None, 99, 3), Terrain::from(TerrainKind::Wall));
    assert_eq!(
        make_tile(TerrainKind::Grass, Some(TerrainFeature::Fountain), 99, 3),
        Terrain::from(TerrainKind::Grass).with(TerrainFeature::Fountain)
    );
}

#[test]
fn plan_is_read_row_by_row() {
    assert_eq!(chars_of("a\nbc"), vec!['a', '\n', 'b', 'c']);
    let legend = town_legend().with_feature('P', TerrainFeature::Stones);
    let terrain = read_terrain("#: \n\nxP#", &legend);
    let mut points = terrain.points();
    points.sort_by_key(|p| (p.y, p.x));
    assert_eq!(
        points,
        vec![Point::new(0, 0), Point::new(1, 0), Point::new(1, 2), Point::new(2, 2)]
    );
    assert_eq!(terrain.get(&Point::new(0, 0)), Some(&Terrain::from(TerrainKind::Wall)));
    assert_eq!(terrain.get(&Point::new(1, 0)), Some(&Terrain::from(TerrainKind::StoneFloor)));
    assert_eq!(
        terrain.get(&Point::new(1, 2)),
        Some(&Terrain::from(TerrainKind::Path).with(TerrainFeature::Stones))
    );
    assert_eq!(terrain.get(&Point::new(2, 2)), Some(&Terrain::from(TerrainKind::Wall)));
    assert!(read_terrain("", &legend).points().is_empty());
}

#[test]
fn plan_decorates_some_tiles_with_what_suits_them() {
    let plan = ".".repeat(4000);
    let terrain = read_terrain(&plan, &town_legend());
    let mut decorated = 0;
    for p in terrain.points() {
        let tile = terrain.get(&p).unwrap();
        assert_eq!(tile.kind, TerrainKind::Grass);
        match tile.feature {
            None => {},
            Some(TerrainFeature::Flower(n)) => {
                assert!(n < 7);
                decorated += 1;
            },
            other => panic!("grass got {:?}", other),
        }
    }
    assert_eq!(terrain.points().len(), 4000);
    assert!(decorated > 0 && decorated < 1000);
}

#[test]
fn free_floor_is_stone_floor_without_an_actor() {
    let mut world = World::new().unwrap();
    world.terrain = read_terrain(":::\n#.:", &town_legend());
    spawn_townsfolk(&mut world, Point::new(1, 0)).unwrap();
    let mut slots = free_floor(&world);
    slots.sort_by_key(|p| (p.y, p.x));
    assert_eq!(slots, vec![Point::new(0, 0), Point::new(2, 0), Point::new(2, 1)]);
}

#[test]
fn townsfolk_come_to_free_stone_floor() {
    let mut world = World::new().unwrap();
    world.terrain = read_terrain(":::\n:::\n:::", &town_legend());
    let npcs = spawn_npcs(&mut world, 5).unwrap();
    assert_eq!(npcs.len(), 5);
    assert_eq!(world.actors.len(), 6);
    let mut places = Vec::new();
    for id in &npcs {
        let actor = world.actors.get(id).unwrap();
        assert_eq!(actor.kind, ActorKind::Townsfolk);
        assert!(actor.is_npc());
        assert_eq!(actor.health.value, 8);
        assert!((0..3).contains(&actor.pos.x) && (0..3).contains(&actor.pos.y));
        places.push((actor.pos.x, actor.pos.y));
    }
    places.sort();
    places.dedup();
    assert_eq!(places.len(), 5);
    let more = spawn_npcs(&mut world, 5).unwrap();
    assert_eq!(more.len(), 4);
    assert!(free_floor(&world).is_empty());
    assert!(spawn_npcs(&mut world, 5).unwrap().is_empty());
    assert!(spawn_npcs(&mut world, 0).unwrap().is_empty());
}

#[test]
fn populated_world_has_terrain_items_and_townsfolk() {
    let mut world = World::new().unwrap();
    let player = world.player_id();
    let population = populate_world(&mut world, "#####\n#:::#\n#:D:#\n#####\n....~").unwrap();
    assert_eq!(world.terrain.points().len(), 25);
    assert_eq!(world.terrain.get(&Point::new(2, 2)).unwrap().kind, TerrainKind::Door(DoorState::Open));
    assert_eq!(population.items.len(), 8);
    assert_eq!(world.items.len(), 8);
    let kinds: Vec<ItemKind> =
        population.items.iter().map(|id| world.items.get(id).unwrap().kind).collect();
    assert_eq!(
        kinds,
        vec![
            ItemKind::Wand,
            ItemKind::Money(42),
            ItemKind::Potion(Potion::Healing),
            ItemKind::Money(10),
            ItemKind::Wand,
            ItemKind::Wand,
            ItemKind::Gold,
            ItemKind::Ore,
        ]
    );
    for id in &population.items[..3] {
        let item = world.items.get(id).unwrap();
        assert_eq!(item.owner, Some(player));
        assert_eq!(item.pos, None);
    }
    let places: Vec<Option<Point>> =
        population.items[3..].iter().map(|id| world.items.get(id).unwrap().pos).collect();
    assert_eq!(
        places,
        vec![
            Some(Point::new(5, 6)),
            Some(Point::new(12, 10)),
            Some(Point::new(5, 6)),
            Some(Point::new(20, 20)),
            Some(Point::new(20, 20)),
        ]
    );
    assert_eq!(world.actors.get(&player).unwrap().inventory, population.items[..3].to_vec());
    assert_eq!(population.npcs.len(), 5);
    assert_eq!(world.actors.len(), 6);
    for id in &population.npcs {
        let pos = world.actors.get(id).unwrap().pos;
        assert_eq!(world.terrain.get(&pos).unwrap().kind, TerrainKind::StoneFloor);
    }
    assert_eq!(world.item_ids_at(&Point::new(5, 6)).len(), 2);
}

#[test]
fn world_round_a_registry_takes_the_first_free_handle_for_the_player() {
    let world = World::with_player(ActorMap::new(), 77);
    assert_eq!(world.player_id().raw(), 77);
    assert_eq!(world.actors.len(), 1);
    assert_eq!(world.player_pos(), Point::new(20, 20));
    assert_eq!(world.items.len(), 0);
    assert_eq!(world.time, 0);

    let mut actors = ActorMap::new();
    let cat = actors.add_from(77, reveal_engine::actor::Actor::new(ActorKind::Cat, (1, 1), 1u16));
    let world = World::with_player(actors, 77);
    assert_eq!(cat.raw(), 77);
    assert_eq!(world.player_id().raw(), 78);
    assert_eq!(world.actors.len(), 2);
    assert_eq!(world.actors.get(&world.player_id()).unwrap().kind, ActorKind::Player);
}

#[test]
fn new_world_has_used_one_sequence_number_of_the_actors() {
    let world = World::new().unwrap();
    assert_eq!(world.player_id().raw() & 0xFFF, 0);
    assert_eq!((world.player_id().raw() >> 12) & 0x3FF, 1);
    let mut world = world;
    let first_item = world.items.add(Item::new(ItemKind::Ore)).unwrap();
    assert_eq!(first_item.raw() & 0xFFF, 0);
    let next_actor = spawn_townsfolk(&mut world, Point::new(0, 0)).unwrap();
    assert_ne!(next_actor, world.player_id());
    assert_eq!(world.actors.next_flake().unwrap() & 0xFFF, 2);
}

#[test]
fn townsfolk_and_items_take_the_first_free_handle_from_a_start() {
    let mut world = World::with_player(ActorMap::new(), 5);
    let a = spawn_townsfolk_from(&mut world, Point::new(3, 4), 5);
    let b = spawn_townsfolk_from(&mut world, Point::new(4, 4), 5);
    assert_eq!(a.raw(), 6);
    assert_eq!(b.raw(), 7);
    let actor = world.actors.get(&a).unwrap();
    assert_eq!(actor.kind, ActorKind::Townsfolk);
    assert_eq!(actor.pos, Point::new(3, 4));
    assert_eq!(actor.health.value, 8);
    assert_eq!(actor.health.max, 8);
    assert_eq!(world.actors.len(), 3);

    let x = add_item_from(&mut world, Item::new(ItemKind::Key).with_pos((1, 2)), 5);
    let y = add_item_from(&mut world, Item::new(ItemKind::Ore), 5);
    assert_eq!(x.raw(), 5);
    assert_eq!(y.raw(), 6);
    assert_eq!(world.items.get(&x).unwrap().kind, ItemKind::Key);
    assert_eq!(world.items.get(&x).unwrap().pos, Some(Point::new(1, 2)));
    assert_eq!(world.items.get(&y).unwrap().kind, ItemKind::Ore);
    assert_eq!(world.items.len(), 2);
}

#[test]
fn items_are_added_in_their_order() {
    let mut world = World::new().unwrap();
    assert!(add_items(&mut world, &vec![]).unwrap().is_empty());
    assert_eq!(world.items.len(), 0);
    let things = vec![Item::new(ItemKind::Gold), Item::new(ItemKind::Bread).with_pos((2, 2))];
    let ids = add_items(&mut world, &things).unwrap();
    assert_eq!(ids.len(), 2);
    assert_ne!(ids[0], ids[1]);
    assert_eq!(world.items.get(&ids[0]).unwrap().kind, ItemKind::Gold);
    assert_eq!(world.items.get(&ids[1]).unwrap().kind, ItemKind::Bread);
    assert_eq!(world.items.get(&ids[1]).unwrap().pos, Some(Point::new(2, 2)));
    assert_eq!(world.items.len(), 2);
    assert_eq!(ids[0].raw() & 0xFFF, 0);
    assert_eq!(ids[1].raw() & 0xFFF, 1);
    assert_eq!(world.items.next_flake().unwrap() & 0xFFF, 2);
    assert_eq!(world.actors.len(), 1);
}
