use reveal_engine::message::MessageKind;
use reveal_engine::skill::SkillKind;
use reveal_engine::terrain::{
    feature_index, terrain_index, DoorState, Orientation, Terrain, TerrainAccess, TerrainFeature,
    TerrainKind,
};

fn all_kinds() -> Vec<TerrainKind> {
    vec![
        TerrainKind::Empty,
        TerrainKind::Grass,
        TerrainKind::ThickGrass,
        TerrainKind::Hedge,
        TerrainKind::Wall,
        TerrainKind::Water,
        TerrainKind::ShallowWater,
        TerrainKind::Window,
        TerrainKind::StoneFloor,
        TerrainKind::Path,
        TerrainKind::Door(DoorState::Open),
        TerrainKind::Door(DoorState::Closed),
        TerrainKind::Door(DoorState::Locked),
        TerrainKind::Bridge(Orientation::Horizontal),
        TerrainKind::Bridge(Orientation::Vertical),
    ]
}

#[test]
fn shallow_water_lets_in_only_over_a_water_lily() {
    let bare = Terrain::from(TerrainKind::ShallowWater);
    assert!(bare.is_blocking());
    assert!(matches!(bare.access(), TerrainAccess::RequireSkill(SkillKind::Swim)));
    let lily = bare.with(TerrainFeature::Waterlily);
    assert!(!lily.is_blocking());
    assert!(matches!(lily.access(), TerrainAccess::Allowed));
    let stones = bare.with(TerrainFeature::Stones);
    assert!(stones.is_blocking());
    assert!(matches!(stones.access(), TerrainAccess::RequireSkill(SkillKind::Swim)));
}

#[test]
fn fountain_blocks_what_its_ground_would_let_in() {
    for kind in all_kinds() {
        let plain = Terrain::from(kind);
        if !matches!(plain.access(), TerrainAccess::Allowed) {
            continue;
        }
        let fountain = plain.with(TerrainFeature::Fountain);
        assert!(fountain.is_blocking());
        match fountain.access() {
            TerrainAccess::BlockedWithMessage(message) => {
                assert_eq!(message.text, "The fountain is in your way.");
                assert_eq!(message.kind, MessageKind::Info);
                assert!(!message.no_repeat);
            },
            _ => panic!("a fountain on {:?} does not block", kind),
        }
    }
}

#[test]
fn access_rules_in_their_order() {
    for kind in [TerrainKind::Hedge, TerrainKind::Wall, TerrainKind::Water, TerrainKind::Window] {
        assert!(matches!(Terrain::from(kind).access(), TerrainAccess::Blocked));
        assert!(matches!(
            Terrain::from(kind).with(TerrainFeature::Fountain).access(),
            TerrainAccess::Blocked
        ));
        assert!(Terrain::from(kind).is_blocking());
    }
    match Terrain::from(TerrainKind::Door(DoorState::Locked)).with(TerrainFeature::Fountain).access()
    {
        TerrainAccess::BlockedWithMessage(message) => {
            assert_eq!(message.text, "The door is locked!")
        },
        _ => panic!("a locked door lets in"),
    }
    assert!(Terrain::from(TerrainKind::Door(DoorState::Locked)).is_blocking());
    assert!(matches!(
        Terrain::from(TerrainKind::ShallowWater).with(TerrainFeature::Fountain).access(),
        TerrainAccess::RequireSkill(SkillKind::Swim)
    ));
    for kind in [
        TerrainKind::Empty,
        TerrainKind::Grass,
        TerrainKind::ThickGrass,
        TerrainKind::StoneFloor,
        TerrainKind::Path,
        TerrainKind::Door(DoorState::Open),
        TerrainKind::Door(DoorState::Closed),
        TerrainKind::Bridge(Orientation::Vertical),
    ] {
        assert!(matches!(Terrain::from(kind).access(), TerrainAccess::Allowed));
        assert!(!Terrain::from(kind).is_blocking());
        assert!(matches!(
            Terrain::from(kind).with(TerrainFeature::Mushroom).access(),
            TerrainAccess::Allowed
        ));
    }
    assert!(!Terrain::empty().is_blocking());
}

#[test]
fn decoration_suits_the_kind_of_terrain() {
    assert_eq!(TerrainKind::Grass.decor_with(4), Some(TerrainFeature::Flower(4)));
    assert_eq!(TerrainKind::ShallowWater.decor_with(4), Some(TerrainFeature::Waterlily));
    assert_eq!(TerrainKind::Wall.decor_with(4), None);
    for _ in 0..200 {
        match TerrainKind::Grass.random_decor() {
            Some(TerrainFeature::Flower(n)) => assert!(n < 7),
            other => panic!("grass got {:?}", other),
        }
        assert_eq!(TerrainKind::ShallowWater.random_decor(), Some(TerrainFeature::Waterlily));
        assert_eq!(TerrainKind::Path.random_decor(), None);
    }
    let mut tile = Terrain::from(TerrainKind::Path).with(TerrainFeature::Stones);
    tile.set_random_decor();
    assert_eq!(tile.feature, Some(TerrainFeature::Stones));
    let mut water = Terrain::from(TerrainKind::ShallowWater);
    water.set_random_decor();
    assert_eq!(water.feature, Some(TerrainFeature::Waterlily));
    let mut grass = Terrain::from(TerrainKind::Grass);
    grass.set_decor(None);
    assert_eq!(grass.feature, None);
    grass.set_decor(Some(TerrainFeature::Mushroom));
    assert_eq!(grass.feature, Some(TerrainFeature::Mushroom));
}

#[test]
fn terrain_has_its_place_among_the_pictures() {
    let expected = [0, 1, 10, 6, 4, 3, 12, 15, 11, 2, 14, 14, 14, 17, 16];
    for (kind, index) in all_kinds().into_iter().zip(expected) {
        assert_eq!(terrain_index(&Terrain::from(kind)), index);
    }
    let grass = Terrain::from(TerrainKind::Grass);
    assert_eq!(feature_index(&grass), None);
    assert_eq!(feature_index(&grass.with(TerrainFeature::Mushroom)), Some(20));
    assert_eq!(feature_index(&grass.with(TerrainFeature::Flower(0))), Some(40));
    assert_eq!(feature_index(&grass.with(TerrainFeature::Flower(6))), Some(42));
    assert_eq!(feature_index(&grass.with(TerrainFeature::Flower(255))), Some(43));
    assert_eq!(feature_index(&grass.with(TerrainFeature::Stones)), Some(10));
    assert_eq!(feature_index(&grass.with(TerrainFeature::Waterlily)), Some(30));
    assert_eq!(feature_index(&grass.with(TerrainFeature::Fountain)), Some(1));
}
