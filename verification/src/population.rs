//! Filling a world: the terrain from a plan in text, the first items, and
//! the people of the town.
//!
//! A plan is text with one character for each tile, row after row. A
//! [`Legend`] says which character stands for which kind of terrain, and
//! which one brings a feature with it. A character that the legend does not
//! know leaves its tile without an entry.

use vstd::prelude::*;

use crate::actor::{Actor, ActorAI, ActorId, ActorKind, ActorView, Attribute};
use crate::chance::random_below;
use crate::flake::{next_sequence, sequence_after, FlakeError};
use crate::idmap::{is_first_free, is_handle_for};
use crate::item::{Item, ItemId, ItemKind, ItemView, Potion};
use crate::point::Point;
use crate::skill::Skill;
use crate::world::{actor_blocks, World, WorldView};
use crate::terrain::{
    decor_for, DoorState, Orientation, Terrain, TerrainFeature, TerrainKind, TerrainMap,
    FLOWER_KINDS,
};

verus! {

/// Of a hundred rolls, the ones from this on decorate a tile that has no
/// feature of its own.
pub const DECOR_THRESHOLD: usize = 95;

/// The number of different rolls for a decoration.
pub const DECOR_ROLLS: usize = 100;

/// Which character of a plan stands for what. Where a character occurs
/// more than once, the first entry counts.
#[derive(Debug)]
pub struct Legend {
    pub kinds: Vec<(char, TerrainKind)>,
    pub features: Vec<(char, TerrainFeature)>,
}

/// What the first entry for `ch` says, if there is one.
pub open spec fn first_match<T>(entries: Seq<(char, T)>, ch: char) -> Option<T>
    decreases entries.len(),
{
    if entries.len() == 0 {
        None
    } else if entries[0].0 == ch {
        Some(entries[0].1)
    } else {
        first_match(entries.drop_first(), ch)
    }
}

/// What the first entry for `ch` says, if there is one.
pub fn lookup<T: Copy>(entries: &Vec<(char, T)>, ch: char) -> (r: Option<T>)
    ensures
        r == first_match(entries@, ch),
{
    let mut n: usize = 0;
    proof {
        assert(entries@.subrange(0, entries@.len() as int) =~= entries@);
    }
    while n < entries.len()
        invariant
            n <= entries@.len(),
            first_match(entries@, ch) == first_match(
                entries@.subrange(n as int, entries@.len() as int),
                ch,
            ),
        decreases entries@.len() - n,
    {
        let entry = entries[n];
        proof {
            let rest = entries@.subrange(n as int, entries@.len() as int);
            assert(rest[0] == entries@[n as int]);
            assert(rest.drop_first() =~= entries@.subrange(n + 1, entries@.len() as int));
        }
        if entry.0 == ch {
            return Some(entry.1);
        }
        n = n + 1;
    }
    None
}

impl Legend {
    /// A legend without entries.
    pub fn new() -> (legend: Legend)
        ensures
            legend.kinds@ == Seq::<(char, TerrainKind)>::empty(),
            legend.features@ == Seq::<(char, TerrainFeature)>::empty(),
    {
        Legend { kinds: Vec::new(), features: Vec::new() }
    }

    /// The legend with one more entry: `ch` stands for `kind`.
    pub fn with_kind(self, ch: char, kind: TerrainKind) -> (legend: Legend)
        ensures
            legend.kinds@ == self.kinds@.push((ch, kind)),
            legend.features@ == self.features@,
    {
        let mut legend = self;
        legend.kinds.push((ch, kind));
        legend
    }

    /// The legend with one more entry: `ch` brings `feature`.
    pub fn with_feature(self, ch: char, feature: TerrainFeature) -> (legend: Legend)
        ensures
            legend.kinds@ == self.kinds@,
            legend.features@ == self.features@.push((ch, feature)),
    {
        let mut legend = self;
        legend.features.push((ch, feature));
        legend
    }

    /// The kind of terrain that `ch` stands for.
    pub fn kind_of(&self, ch: char) -> (r: Option<TerrainKind>)
        ensures
            r == first_match(self.kinds@, ch),
    {
        lookup(&self.kinds, ch)
    }

    /// The feature that `ch` brings.
    pub fn feature_of(&self, ch: char) -> (r: Option<TerrainFeature>)
        ensures
            r == first_match(self.features@, ch),
    {
        lookup(&self.features, ch)
    }
}

/// The entries of the legend for the town's plan.
pub open spec fn town_kinds() -> Seq<(char, TerrainKind)> {
    seq![
        ('.', TerrainKind::Grass),
        ('*', TerrainKind::Hedge),
        (':', TerrainKind::StoneFloor),
        ('P', TerrainKind::Path),
        (';', TerrainKind::ThickGrass),
        ('W', TerrainKind::Water),
        ('#', TerrainKind::Wall),
        ('~', TerrainKind::ShallowWater),
        ('D', TerrainKind::Door(DoorState::Open)),
        ('+', TerrainKind::Window),
        ('B', TerrainKind::Bridge(Orientation::Vertical)),
        ('b', TerrainKind::Bridge(Orientation::Horizontal)),
    ]
}

/// The legend for the town's plan.
pub fn town_legend() -> (legend: Legend)
    ensures
        legend.kinds@ == town_kinds(),
        legend.features@ == Seq::<(char, TerrainFeature)>::empty(),
{
    let legend = Legend::new().with_kind('.', TerrainKind::Grass).with_kind(
        '*',
        TerrainKind::Hedge,
    ).with_kind(':', TerrainKind::StoneFloor).with_kind('P', TerrainKind::Path).with_kind(
        ';',
        TerrainKind::ThickGrass,
    ).with_kind('W', TerrainKind::Water).with_kind('#', TerrainKind::Wall).with_kind(
        '~',
        TerrainKind::ShallowWater,
    ).with_kind('D', TerrainKind::Door(DoorState::Open)).with_kind(
        '+',
        TerrainKind::Window,
    ).with_kind('B', TerrainKind::Bridge(Orientation::Vertical)).with_kind(
        'b',
        TerrainKind::Bridge(Orientation::Horizontal),
    );
    assert(legend.kinds@ =~= town_kinds());
    legend
}

/// The row in which the character at place `i` of `text` stands: the
/// number of line feeds before it.
pub open spec fn row_of(text: Seq<char>, i: int) -> int
    decreases i,
{
    if i <= 0 {
        0
    } else {
        row_of(text, i - 1) + if text[i - 1] == '\n' {
            1int
        } else {
            0int
        }
    }
}

/// The column in which the character at place `i` of `text` stands: the
/// number of characters between it and the line feed before it.
pub open spec fn column_of(text: Seq<char>, i: int) -> int
    decreases i,
{
    if i <= 0 {
        0
    } else if text[i - 1] == '\n' {
        0
    } else {
        column_of(text, i - 1) + 1
    }
}

/// The position of the tile for the character at place `i` of `text`, if
/// its row and column are coordinates.
pub open spec fn cell(text: Seq<char>, i: int) -> Option<Point> {
    if column_of(text, i) <= i32::MAX && row_of(text, i) <= i32::MAX {
        Some(Point { x: column_of(text, i) as i32, y: row_of(text, i) as i32 })
    } else {
        None
    }
}

/// The tile of the given kind. It carries `feature` if there is one; else,
/// on a roll from [`DECOR_THRESHOLD`] on, the decoration that suits its
/// kind, with `flower` to pick the flower.
pub open spec fn tile_for(
    kind: TerrainKind,
    feature: Option<TerrainFeature>,
    roll: usize,
    flower: u8,
) -> Terrain {
    Terrain {
        kind,
        feature: if feature is Some {
            feature
        } else if roll >= DECOR_THRESHOLD {
            decor_for(kind, flower)
        } else {
            None
        },
    }
}

/// The tile of the given kind; see [`tile_for`].
pub fn make_tile(kind: TerrainKind, feature: Option<TerrainFeature>, roll: usize, flower: u8) -> (t:
    Terrain)
    ensures
        t == tile_for(kind, feature, roll, flower),
{
    let mut tile = Terrain { kind, feature };
    if feature.is_none() && roll >= DECOR_THRESHOLD {
        tile.set_decor(kind.decor_with(flower));
    }
    tile
}

/// Whether `tile` can stand for the character `ch`: it is of the kind that
/// `ch` stands for, with the feature that `ch` brings or, where it brings
/// none, with no feature or a decoration that suits the kind.
pub open spec fn is_tile_of(
    tile: Terrain,
    kinds: Seq<(char, TerrainKind)>,
    features: Seq<(char, TerrainFeature)>,
    ch: char,
) -> bool {
    first_match(kinds, ch) is Some && exists|roll: usize, flower: u8|
        flower < FLOWER_KINDS && tile == #[trigger] tile_for(
            first_match(kinds, ch)->0,
            first_match(features, ch),
            roll,
            flower,
        )
}

/// Whether `terrain` is a terrain that the plan `text` describes: a tile
/// at exactly the positions of the characters that the legend knows, each
/// a tile that can stand for its character.
pub open spec fn is_terrain_of(
    terrain: Map<Point, Terrain>,
    text: Seq<char>,
    kinds: Seq<(char, TerrainKind)>,
    features: Seq<(char, TerrainFeature)>,
) -> bool {
    &&& forall|p: Point| #[trigger]
        terrain.contains_key(p) ==> exists|i: int|
            0 <= i < text.len() && #[trigger] cell(text, i) == Some(p) && first_match(
                kinds,
                text[i],
            ) is Some
    &&& forall|i: int|
        0 <= i < text.len() && (#[trigger] cell(text, i)) is Some && first_match(
            kinds,
            text[i],
        ) is Some ==> terrain.contains_key(cell(text, i)->0) && is_tile_of(
            terrain[cell(text, i)->0],
            kinds,
            features,
            text[i],
        )
}

/// Characters later in the text stand further down, or in the same row
/// further right.
proof fn lemma_cells_in_reading_order(text: Seq<char>, i: int, j: int)
    requires
        0 <= i < j,
    ensures
        row_of(text, i) < row_of(text, j) || (row_of(text, i) == row_of(text, j) && column_of(
            text,
            i,
        ) < column_of(text, j)),
        0 <= row_of(text, i),
        0 <= column_of(text, i),
    decreases j,
{
    lemma_cell_bounds(text, i);
    if i < j - 1 {
        lemma_cells_in_reading_order(text, i, j - 1);
    }
}

proof fn lemma_cell_bounds(text: Seq<char>, i: int)
    ensures
        0 <= row_of(text, i),
        0 <= column_of(text, i),
        i >= 0 ==> row_of(text, i) <= i && column_of(text, i) <= i,
    decreases i,
{
    if i > 0 {
        lemma_cell_bounds(text, i - 1);
    }
}

/// The characters of `text`.
pub fn chars_of(text: &str) -> (chars: Vec<char>)
    ensures
        chars@ == text@,
{
    let mut chars: Vec<char> = Vec::new();
    for c in it: text.chars()
        invariant
            it.seq() == text@,
            chars@ == text@.subrange(0, it.index() as int),
    {
        chars.push(c);
        assert(chars@ =~= text@.subrange(0, it.index() + 1));
    }
    assert(chars@ =~= text@);
    chars
}

/// The terrain that the plan `text` describes. A tile whose character
/// brings no feature is decorated five times in a hundred, at random.
pub fn read_terrain(text: &str, legend: &Legend) -> (terrain: TerrainMap)
    ensures
        is_terrain_of(terrain@, text@, legend.kinds@, legend.features@),
{
    let chars = chars_of(text);
    let mut terrain = TerrainMap::new();
    let mut column: usize = 0;
    let mut row: usize = 0;
    let mut n: usize = 0;
    while n < chars.len()
        invariant
            chars@ == text@,
            n <= chars@.len(),
            column == column_of(text@, n as int),
            row == row_of(text@, n as int),
            forall|p: Point| #[trigger]
                terrain@.contains_key(p) ==> exists|i: int|
                    0 <= i < n && #[trigger] cell(text@, i) == Some(p) && first_match(
                        legend.kinds@,
                        text@[i],
                    ) is Some,
            forall|i: int|
                0 <= i < n && (#[trigger] cell(text@, i)) is Some && first_match(
                    legend.kinds@,
                    text@[i],
                ) is Some ==> terrain@.contains_key(cell(text@, i)->0) && is_tile_of(
                    terrain@[cell(text@, i)->0],
                    legend.kinds@,
                    legend.features@,
                    text@[i],
                ),
        decreases chars@.len() - n,
    {
        let ch = chars[n];
        proof {
            lemma_cell_bounds(text@, n as int);
        }
        if column <= i32::MAX as usize && row <= i32::MAX as usize {
            if let Some(kind) = legend.kind_of(ch) {
                let feature = legend.feature_of(ch);
                let roll = random_below(DECOR_ROLLS);
                let flower = random_below(FLOWER_KINDS) as u8;
                let tile = make_tile(kind, feature, roll, flower);
                let pos = Point { x: column as i32, y: row as i32 };
                let ghost before = terrain@;
                proof {
                    assert(cell(text@, n as int) == Some(pos));
                    assert(is_tile_of(tile, legend.kinds@, legend.features@, ch));
                    assert(!before.contains_key(pos)) by {
                        if before.contains_key(pos) {
                            let i = choose|i: int|
                                0 <= i < n && #[trigger] cell(text@, i) == Some(pos);
                            lemma_cells_in_reading_order(text@, i, n as int);
                        }
                    }
                }
                terrain.insert(pos, tile);
                proof {
                    assert forall|i: int|
                        0 <= i < n + 1 && (#[trigger] cell(text@, i)) is Some && first_match(
                            legend.kinds@,
                            text@[i],
                        ) is Some implies terrain@.contains_key(cell(text@, i)->0) && is_tile_of(
                        terrain@[cell(text@, i)->0],
                        legend.kinds@,
                        legend.features@,
                        text@[i],
                    ) by {
                        if i < n {
                            assert(before.contains_key(cell(text@, i)->0));
                        }
                    }
                }
            }
        }
        if ch == '\n' {
            row = row + 1;
            column = 0;
        } else {
            column = column + 1;
        }
        n = n + 1;
    }
    terrain
}

/// The most people that [`populate_world`] brings to town.
pub const MAX_NPC: usize = 5;

/// The health of the people of the town.
pub const TOWNSFOLK_HEALTH: u16 = 8;

/// One of the people of the town, new at `pos`.
pub open spec fn townsfolk_at(pos: Point) -> ActorView {
    ActorView {
        kind: ActorKind::Townsfolk,
        pos,
        health: Attribute { value: TOWNSFOLK_HEALTH, max: TOWNSFOLK_HEALTH },
        coins: 0,
        ai: ActorAI::WanderAround,
        inventory: Seq::<u64>::empty(),
        visited: Set::<Point>::empty(),
        skills: Seq::<Skill>::empty(),
    }
}

/// Whether `p` is stone floor on which nobody stands.
pub open spec fn is_free_floor(w: WorldView, p: Point) -> bool {
    w.terrain.contains_key(p) && w.terrain[p].kind == TerrainKind::StoneFloor && !actor_blocks(
        w.actors,
        p,
    )
}

/// Whether `after` is `before` with a new actor under each of the handles
/// `npcs`: people of the town, each on stone floor where nobody stood, no
/// two at the same position, and as many as `most` or as the free stone
/// floor had room for.
pub open spec fn is_peopled(before: WorldView, after: WorldView, npcs: Seq<u64>, most: nat) -> bool {
    &&& after == (WorldView { actors: after.actors, ..before })
    &&& npcs.no_duplicates()
    &&& npcs.len() <= most
    &&& after.actors.dom() == before.actors.dom().union(npcs.to_set())
    &&& forall|id: u64| #[trigger]
        before.actors.contains_key(id) ==> after.actors[id] == before.actors[id]
    &&& forall|i: int|
        0 <= i < npcs.len() ==> !before.actors.contains_key(#[trigger] npcs[i])
            && after.actors[npcs[i]] == townsfolk_at(after.actors[npcs[i]].pos) && is_free_floor(
            before,
            after.actors[npcs[i]].pos,
        )
    &&& forall|i: int, j: int|
        0 <= i < npcs.len() && 0 <= j < npcs.len() && i != j ==> after.actors[npcs[i]].pos
            != after.actors[npcs[j]].pos
    &&& npcs.len() == most || forall|p: Point| #[trigger]
        is_free_floor(before, p) ==> actor_blocks(after.actors, p)
}

/// The positions of stone floor on which nobody stands, each once, in no
/// particular order.
pub fn free_floor(world: &World) -> (slots: Vec<Point>)
    ensures
        slots@.no_duplicates(),
        forall|p: Point| slots@.contains(p) <==> is_free_floor(world@, p),
{
    let all = world.terrain.points();
    let mut slots: Vec<Point> = Vec::new();
    let mut n: usize = 0;
    while n < all.len()
        invariant
            n <= all@.len(),
            all@.no_duplicates(),
            all@.to_set() == world@.terrain.dom(),
            slots@.no_duplicates(),
            forall|p: Point|
                slots@.contains(p) <==> is_free_floor(world@, p) && exists|i: int|
                    0 <= i < n && all@[i] == p,
        decreases all@.len() - n,
    {
        let p = all[n];
        proof {
            assert(all@.to_set().contains(p));
        }
        let stone = match world.terrain.get(&p) {
            Some(tile) => match tile.kind {
                TerrainKind::StoneFloor => true,
                _ => false,
            },
            None => false,
        };
        let ghost before = slots@;
        if stone && !World::actor_blocking(&p, &world.actors) {
            slots.push(p);
            proof {
                assert(!before.contains(p)) by {
                    if before.contains(p) {
                        let i = choose|i: int| 0 <= i < n && all@[i] == p;
                    }
                }
                assert forall|q: Point|
                    slots@.contains(q) <==> is_free_floor(world@, q) && exists|i: int|
                        0 <= i < n + 1 && all@[i] == q by {
                    if slots@.contains(q) {
                        let j = choose|j: int| 0 <= j < slots@.len() && slots@[j] == q;
                        if j < before.len() {
                            assert(before.contains(q));
                        }
                    }
                    if is_free_floor(world@, q) && exists|i: int|
                        0 <= i < n + 1 && all@[i] == q {
                        let i = choose|i: int| 0 <= i < n + 1 && all@[i] == q;
                        if i < n {
                            assert(before.contains(q));
                            let j = choose|j: int| 0 <= j < before.len() && before[j] == q;
                            assert(slots@[j] == q);
                        } else {
                            assert(slots@[slots@.len() - 1] == q);
                        }
                    }
                }
            }
        } else {
            proof {
                assert forall|q: Point|
                    slots@.contains(q) <==> is_free_floor(world@, q) && exists|i: int|
                        0 <= i < n + 1 && all@[i] == q by {
                    if is_free_floor(world@, q) && exists|i: int|
                        0 <= i < n + 1 && all@[i] == q {
                        let i = choose|i: int| 0 <= i < n + 1 && all@[i] == q;
                        assert(i < n);
                    }
                }
            }
        }
        n = n + 1;
    }
    proof {
        assert forall|p: Point| is_free_floor(world@, p) implies slots@.contains(p) by {
            assert(all@.to_set().contains(p));
            let i = choose|i: int| 0 <= i < all@.len() && all@[i] == p;
        }
    }
    slots
}

/// Brings one of the people of the town into the world, at `pos`, under
/// the first free handle at or after `start`.
pub fn spawn_townsfolk_from(world: &mut World, pos: Point, start: u64) -> (id: ActorId)
    ensures
        is_first_free(old(world)@.actors.dom(), start, id@),
        !old(world)@.actors.contains_key(id@),
        final(world)@ == (WorldView {
            actors: old(world)@.actors.insert(id@, townsfolk_at(pos)),
            ..old(world)@
        }),
        final(world).actors.sequence() == old(world).actors.sequence(),
        final(world).items.sequence() == old(world).items.sequence(),
{
    let actor = Actor::new(ActorKind::Townsfolk, (pos.x, pos.y), TOWNSFOLK_HEALTH);
    assert(actor@ =~= townsfolk_at(pos));
    assert(world@.actors.dom() =~= world.actors@.dom());
    let id = world.actors.add_from(start, actor);
    assert(world@ =~= (WorldView {
        actors: old(world)@.actors.insert(id@, townsfolk_at(pos)),
        ..old(world)@
    }));
    id
}

/// Brings one of the people of the town into the world, at `pos`.
///
/// The handle is the number made of the system clock and the next sequence
/// number of the actors' registry, or the first free one after it. That
/// sequence moves on, whether the clock reads a time before
/// [`crate::flake::DEFAULT_EPOCH`], which is the one way to fail and leaves the
/// world as it is, or not.
pub fn spawn_townsfolk(world: &mut World, pos: Point) -> (r: Result<ActorId, FlakeError>)
    ensures
        final(world).actors.sequence() == next_sequence(old(world).actors.sequence()),
        final(world).items.sequence() == old(world).items.sequence(),
        match r {
            Ok(id) => {
                &&& !old(world)@.actors.contains_key(id@)
                &&& final(world)@ == (WorldView {
                    actors: old(world)@.actors.insert(id@, townsfolk_at(pos)),
                    ..old(world)@
                })
                &&& exists|secs: u64, nanos: u32| #[trigger]
                    is_handle_for(
                        old(world)@.actors.dom(),
                        secs,
                        nanos,
                        old(world).actors.sequence(),
                        id@,
                    )
            },
            Err(e) => e == FlakeError::ClockBeforeEpoch && final(world)@ == old(world)@,
        },
{
    let ghost sequence = world.actors.sequence();
    match world.actors.next_flake() {
        Ok(flake) => {
            let id = spawn_townsfolk_from(world, pos, flake);
            proof {
                let (secs, nanos) = choose|secs: u64, nanos: u32|
                    nanos < 1_000_000_000 && #[trigger] crate::flake::flake_from_clock_spec(
                        secs,
                        nanos,
                        sequence,
                    ) == Ok::<u64, FlakeError>(flake);
                assert(is_handle_for(old(world)@.actors.dom(), secs, nanos, sequence, id@));
            }
            Ok(id)
        },
        Err(e) => {
            assert(world@ =~= old(world)@);
            Err(e)
        },
    }
}

/// Whether `after` holds all that `before` holds.
pub open spec fn keeps<V>(before: Map<u64, V>, after: Map<u64, V>) -> bool {
    forall|id: u64| #[trigger] before.contains_key(id) ==> after.contains_key(id) && after[id]
        == before[id]
}

/// The numbers of the handles in `handles`.
pub open spec fn raw_actors(handles: Seq<ActorId>) -> Seq<u64> {
    handles.map_values(|id: ActorId| id@)
}

/// Whether `after` is `before` with a new actor under each of the handles
/// `npcs`: people of the town, each on stone floor where nobody stood, no
/// two at the same position.
pub open spec fn is_peopled_so_far(before: WorldView, after: WorldView, npcs: Seq<u64>) -> bool {
    &&& after == (WorldView { actors: after.actors, ..before })
    &&& npcs.no_duplicates()
    &&& after.actors.dom() == before.actors.dom().union(npcs.to_set())
    &&& forall|id: u64| #[trigger]
        before.actors.contains_key(id) ==> after.actors[id] == before.actors[id]
    &&& forall|i: int|
        0 <= i < npcs.len() ==> !before.actors.contains_key(#[trigger] npcs[i])
            && after.actors[npcs[i]] == townsfolk_at(after.actors[npcs[i]].pos) && is_free_floor(
            before,
            after.actors[npcs[i]].pos,
        )
    &&& forall|i: int, j: int|
        0 <= i < npcs.len() && 0 <= j < npcs.len() && i != j ==> after.actors[npcs[i]].pos
            != after.actors[npcs[j]].pos
}

/// People who were put at the positions `places`, one after another, have
/// peopled the town so far.
proof fn lemma_peopled_so_far(w0: WorldView, after: WorldView, raw: Seq<u64>, places: Seq<Point>)
    requires
        after == (WorldView { actors: after.actors, ..w0 }),
        raw.no_duplicates(),
        places.len() == raw.len(),
        after.actors.dom() == w0.actors.dom().union(raw.to_set()),
        forall|id: u64| #[trigger] w0.actors.contains_key(id) ==> after.actors[id] == w0.actors[id],
        forall|i: int|
            0 <= i < raw.len() ==> !w0.actors.contains_key(#[trigger] raw[i]) && after.actors[raw[i]]
                == townsfolk_at(places[i]) && is_free_floor(w0, places[i]),
        forall|i: int, j: int|
            0 <= i < places.len() && 0 <= j < places.len() && i != j ==> places[i] != places[j],
    ensures
        is_peopled_so_far(w0, after, raw),
        forall|i: int| 0 <= i < raw.len() ==> after.actors[#[trigger] raw[i]].pos == places[i],
{
    assert forall|i: int| 0 <= i < raw.len() implies after.actors[#[trigger] raw[i]].pos
        == places[i] by {
        assert(after.actors[raw[i]] == townsfolk_at(places[i]));
    }
    assert forall|i: int, j: int|
        0 <= i < raw.len() && 0 <= j < raw.len() && i != j implies after.actors[raw[i]].pos
        != after.actors[raw[j]].pos by {
        assert(after.actors[raw[i]] == townsfolk_at(places[i]));
        assert(after.actors[raw[j]] == townsfolk_at(places[j]));
    }
}

/// Brings up to `most` people to town, each to a position chosen at random
/// among the stone floor on which nobody stands, and returns their
/// handles; see [`is_peopled`].
///
/// Each handle is made from the system clock and the next sequence number
/// of the actors' registry, which moves on by one for each. Where the
/// clock reads a time before [`crate::flake::DEFAULT_EPOCH`], which is the one
/// way to fail, those who came before are in town and no one else. Where
/// nobody is to come, or no stone floor is free, nothing can fail.
pub fn spawn_npcs(world: &mut World, most: usize) -> (r: Result<Vec<ActorId>, FlakeError>)
    ensures
        most == 0 || (forall|p: Point| !is_free_floor(old(world)@, p)) ==> r is Ok,
        final(world).items.sequence() == old(world).items.sequence(),
        match r {
            Ok(npcs) => {
                &&& is_peopled(old(world)@, final(world)@, raw_actors(npcs@), most as nat)
                &&& final(world).actors.sequence() == sequence_after(
                    old(world).actors.sequence(),
                    npcs@.len(),
                )
            },
            Err(e) => {
                &&& e == FlakeError::ClockBeforeEpoch
                &&& final(world)@ == (WorldView { actors: final(world)@.actors, ..old(world)@ })
                &&& keeps(old(world)@.actors, final(world)@.actors)
                &&& exists|done: Seq<u64>|
                    {
                        &&& #[trigger] is_peopled_so_far(old(world)@, final(world)@, done)
                        &&& done.len() < most
                        &&& final(world).actors.sequence() == sequence_after(
                            old(world).actors.sequence(),
                            done.len() + 1,
                        )
                    }
            },
        },
{
    let ghost w0 = world@;
    let ghost first = world.actors.sequence();
    let mut slots = free_floor(world);
    proof {
        if slots@.len() > 0 {
            assert(slots@.contains(slots@[0]));
            assert(is_free_floor(w0, slots@[0]));
        }
    }
    let mut npcs: Vec<ActorId> = Vec::new();
    let ghost mut places: Seq<Point> = Seq::empty();
    proof {
        assert(raw_actors(npcs@) =~= Seq::<u64>::empty());
        assert(world@.actors.dom() =~= w0.actors.dom().union(raw_actors(npcs@).to_set()));
    }
    while npcs.len() < most && slots.len() > 0
        invariant
            w0 == old(world)@,
            first == old(world).actors.sequence(),
            world.actors.sequence() == sequence_after(first, npcs@.len()),
            world.items.sequence() == old(world).items.sequence(),
            npcs@.len() <= most,
            places.len() == npcs@.len(),
            slots@.no_duplicates(),
            world@ == (WorldView { actors: world@.actors, ..w0 }),
            raw_actors(npcs@).no_duplicates(),
            world@.actors.dom() == w0.actors.dom().union(raw_actors(npcs@).to_set()),
            forall|id: u64| #[trigger]
                w0.actors.contains_key(id) ==> world@.actors[id] == w0.actors[id],
            forall|i: int|
                0 <= i < npcs@.len() ==> !w0.actors.contains_key(#[trigger] raw_actors(npcs@)[i])
                    && world@.actors[raw_actors(npcs@)[i]] == townsfolk_at(places[i])
                    && is_free_floor(w0, places[i]),
            forall|i: int, j: int|
                0 <= i < places.len() && 0 <= j < places.len() && i != j ==> places[i]
                    != places[j],
            forall|p: Point| #[trigger]
                slots@.contains(p) ==> is_free_floor(w0, p) && !places.contains(p),
            forall|p: Point| #[trigger]
                is_free_floor(w0, p) ==> slots@.contains(p) || places.contains(p),
        decreases most - npcs@.len(),
    {
        let index = random_below(slots.len());
        let pos = slots[index];
        let ghost raw_before = raw_actors(npcs@);
        let ghost slots_before = slots@;
        let ghost places_before = places;
        proof {
            assert(slots@.contains(pos));
        }
        match spawn_townsfolk(world, pos) {
            Ok(id) => {
                npcs.push(id);
                slots.remove(index);
                proof {
                    places = places.push(pos);
                    let raw = raw_actors(npcs@);
                    assert(raw =~= raw_before.push(id@));
                    assert(!raw_before.contains(id@)) by {
                        if raw_before.contains(id@) {
                            assert(raw_before.to_set().contains(id@));
                        }
                    }
                    assert(raw.no_duplicates());
                    assert(world@.actors.dom() =~= w0.actors.dom().union(raw.to_set())) by {
                        assert forall|k: u64| raw.to_set().contains(k) <==> raw_before.to_set().contains(
                            k,
                        ) || k == id@ by {
                            if raw.to_set().contains(k) {
                                let i = choose|i: int| 0 <= i < raw.len() && raw[i] == k;
                                if i < raw_before.len() {
                                    assert(raw_before[i] == k);
                                }
                            }
                            if raw_before.to_set().contains(k) {
                                let i = choose|i: int|
                                    0 <= i < raw_before.len() && raw_before[i] == k;
                                assert(raw[i] == k);
                            }
                            if k == id@ {
                                assert(raw[raw.len() - 1] == k);
                            }
                        }
                    }
                    assert forall|i: int| 0 <= i < npcs@.len() implies !w0.actors.contains_key(
                        #[trigger] raw[i],
                    ) && world@.actors[raw[i]] == townsfolk_at(places[i]) && is_free_floor(
                        w0,
                        places[i],
                    ) by {
                        if i < raw_before.len() {
                            assert(raw_before[i] == raw[i]);
                            assert(raw_before.to_set().contains(raw_before[i]));
                        }
                    }
                    assert forall|p: Point| #[trigger] slots@.contains(p) implies is_free_floor(
                        w0,
                        p,
                    ) && !places.contains(p) by {
                        let j = choose|j: int| 0 <= j < slots@.len() && slots@[j] == p;
                        let k = if j < index {
                            j
                        } else {
                            j + 1
                        };
                        assert(slots_before[k] == p);
                        assert(slots_before.contains(p));
                        assert(p != pos);
                        if places.contains(p) {
                            let i = choose|i: int| 0 <= i < places.len() && places[i] == p;
                            assert(places_before[i] == p);
                        }
                    }
                    assert forall|p: Point| #[trigger] is_free_floor(w0, p) implies slots@.contains(
                        p,
                    ) || places.contains(p) by {
                        if p == pos {
                            assert(places[places.len() - 1] == p);
                        } else if places_before.contains(p) {
                            let i = choose|i: int|
                                0 <= i < places_before.len() && places_before[i] == p;
                            assert(places[i] == p);
                        } else {
                            assert(slots_before.contains(p));
                            let j = choose|j: int|
                                0 <= j < slots_before.len() && slots_before[j] == p;
                            let k = if j < index {
                                j
                            } else {
                                j - 1
                            };
                            assert(slots@[k] == p);
                        }
                    }
                    assert forall|i: int, j: int|
                        0 <= i < places.len() && 0 <= j < places.len() && i != j implies places[i]
                        != places[j] by {
                        if i == places.len() - 1 && j < places_before.len() {
                            assert(places_before.contains(places_before[j]));
                        }
                        if j == places.len() - 1 && i < places_before.len() {
                            assert(places_before.contains(places_before[i]));
                        }
                    }
                }
            },
            Err(e) => {
                proof {
                    assert forall|id: u64| #[trigger]
                        w0.actors.contains_key(id) implies world@.actors.contains_key(id)
                        && world@.actors[id] == w0.actors[id] by {
                        assert(w0.actors.dom().union(raw_actors(npcs@).to_set()).contains(id));
                    }
                    assert(is_free_floor(w0, pos));
                    lemma_peopled_so_far(w0, world@, raw_before, places);
                }
                return Err(e);
            },
        }
    }
    proof {
        let raw = raw_actors(npcs@);
        assert forall|i: int| 0 <= i < raw.len() implies !w0.actors.contains_key(#[trigger] raw[i])
            && world@.actors[raw[i]] == townsfolk_at(world@.actors[raw[i]].pos) && is_free_floor(
            w0,
            world@.actors[raw[i]].pos,
        ) by {
            assert(world@.actors[raw[i]] == townsfolk_at(places[i]));
        }
        assert forall|i: int, j: int|
            0 <= i < raw.len() && 0 <= j < raw.len() && i != j implies world@.actors[raw[i]].pos
            != world@.actors[raw[j]].pos by {
            assert(world@.actors[raw[i]] == townsfolk_at(places[i]));
            assert(world@.actors[raw[j]] == townsfolk_at(places[j]));
        }
        if raw.len() != most {
            assert forall|p: Point| #[trigger] is_free_floor(w0, p) implies actor_blocks(
                world@.actors,
                p,
            ) by {
                assert(!slots@.contains(p));
                let i = choose|i: int| 0 <= i < places.len() && places[i] == p;
                assert(world@.actors[raw[i]] == townsfolk_at(places[i]));
                assert(raw.to_set().contains(raw[i]));
                assert(world@.actors.contains_key(raw[i]));
            }
        }
    }
    Ok(npcs)
}

/// The items with which a world starts: a wand, 42 coins and a potion of
/// healing that the player carries, and on the ground 10 coins and a wand
/// at `(5, 6)`, a wand at `(12, 10)`, and gold and ore where the player
/// stands.
pub open spec fn starting_items(player: u64, at: Point) -> Seq<ItemView> {
    seq![
        ItemView { kind: ItemKind::Wand, pos: None, owner: Some(player) },
        ItemView { kind: ItemKind::Money(42), pos: None, owner: Some(player) },
        ItemView { kind: ItemKind::Potion(Potion::Healing), pos: None, owner: Some(player) },
        ItemView { kind: ItemKind::Money(10), pos: Some(Point { x: 5, y: 6 }), owner: None },
        ItemView { kind: ItemKind::Wand, pos: Some(Point { x: 12, y: 10 }), owner: None },
        ItemView { kind: ItemKind::Wand, pos: Some(Point { x: 5, y: 6 }), owner: None },
        ItemView { kind: ItemKind::Gold, pos: Some(at), owner: None },
        ItemView { kind: ItemKind::Ore, pos: Some(at), owner: None },
    ]
}

/// The number of the starting items that the player carries.
pub const CARRIED_ITEMS: usize = 3;

/// Whether `after` is `before` with the items `things` added under the
/// handles `ids`, which were not in use and are all different.
pub open spec fn has_new_items(
    before: Map<u64, ItemView>,
    after: Map<u64, ItemView>,
    ids: Seq<u64>,
    things: Seq<ItemView>,
) -> bool {
    &&& ids.len() == things.len()
    &&& ids.no_duplicates()
    &&& after.dom() == before.dom().union(ids.to_set())
    &&& forall|id: u64| #[trigger] before.contains_key(id) ==> after[id] == before[id]
    &&& forall|i: int|
        0 <= i < ids.len() ==> !before.contains_key(#[trigger] ids[i]) && after[ids[i]]
            == things[i]
}

/// The numbers of the handles in `handles`.
pub open spec fn raw_items(handles: Seq<ItemId>) -> Seq<u64> {
    handles.map_values(|id: ItemId| id@)
}

/// What each of `items` is.
pub open spec fn item_models(items: Seq<Item>) -> Seq<ItemView> {
    items.map_values(|item: Item| item@)
}

/// Puts `item` into the world under the first free handle at or after
/// `start`, and returns that handle.
pub fn add_item_from(world: &mut World, item: Item, start: u64) -> (id: ItemId)
    ensures
        is_first_free(old(world)@.items.dom(), start, id@),
        !old(world)@.items.contains_key(id@),
        final(world)@ == (WorldView {
            items: old(world)@.items.insert(id@, item@),
            ..old(world)@
        }),
        final(world).items.sequence() == old(world).items.sequence(),
        final(world).actors.sequence() == old(world).actors.sequence(),
{
    assert(world@.items.dom() =~= world.items@.dom());
    let id = world.items.add_from(start, item);
    assert(world@ =~= (WorldView { items: old(world)@.items.insert(id@, item@), ..old(world)@ }));
    id
}

/// Whether `after` is `before` with the first `done.len()` of `things`
/// added under the handles `done`, and no more, and short of all of them.
pub open spec fn is_cut_short(
    before: WorldView,
    after: WorldView,
    done: Seq<u64>,
    things: Seq<ItemView>,
) -> bool {
    &&& done.len() < things.len()
    &&& has_new_items(before.items, after.items, done, things.subrange(0, done.len() as int))
    &&& after == (WorldView { items: after.items, ..before })
}

/// Puts `items` into the world and returns their handles, in the same
/// order.
///
/// Each handle is made from the system clock and the next sequence number
/// of the items' registry, which moves on by one for each. Where the clock
/// reads a time before [`crate::flake::DEFAULT_EPOCH`], which is the one way to
/// fail, the items before the one that was to be added are in the world and
/// the others are not. Without items there is nothing that could fail.
pub fn add_items(world: &mut World, items: &Vec<Item>) -> (r: Result<Vec<ItemId>, FlakeError>)
    ensures
        items@.len() == 0 ==> r is Ok,
        final(world).actors.sequence() == old(world).actors.sequence(),
        match r {
            Ok(ids) => {
                &&& has_new_items(
                    old(world)@.items,
                    final(world)@.items,
                    raw_items(ids@),
                    item_models(items@),
                )
                &&& final(world)@ == (WorldView { items: final(world)@.items, ..old(world)@ })
                &&& final(world).items.sequence() == sequence_after(
                    old(world).items.sequence(),
                    items@.len(),
                )
            },
            Err(e) => {
                &&& e == FlakeError::ClockBeforeEpoch
                &&& final(world)@ == (WorldView { items: final(world)@.items, ..old(world)@ })
                &&& keeps(old(world)@.items, final(world)@.items)
                &&& exists|done: Seq<u64>|
                    {
                        &&& #[trigger] is_cut_short(
                            old(world)@,
                            final(world)@,
                            done,
                            item_models(items@),
                        )
                        &&& final(world).items.sequence() == sequence_after(
                            old(world).items.sequence(),
                            done.len() + 1,
                        )
                    }
            },
        },
{
    let ghost w0 = world@;
    let ghost first = world.items.sequence();
    let mut ids: Vec<ItemId> = Vec::new();
    let mut n: usize = 0;
    proof {
        assert(raw_items(ids@) =~= Seq::<u64>::empty());
        assert(item_models(items@).subrange(0, 0) =~= Seq::<ItemView>::empty());
        assert(world@.items.dom() =~= w0.items.dom().union(raw_items(ids@).to_set()));
    }
    while n < items.len()
        invariant
            w0 == old(world)@,
            first == old(world).items.sequence(),
            world.items.sequence() == sequence_after(first, n as nat),
            world.actors.sequence() == old(world).actors.sequence(),
            n <= items@.len(),
            ids@.len() == n,
            has_new_items(
                w0.items,
                world@.items,
                raw_items(ids@),
                item_models(items@).subrange(0, n as int),
            ),
            world@ == (WorldView { items: world@.items, ..w0 }),
        decreases items@.len() - n,
    {
        let ghost raw_before = raw_items(ids@);
        let ghost before = world@.items;
        let ghost things_before = item_models(items@).subrange(0, n as int);
        proof {
            assert(has_new_items(w0.items, before, raw_before, things_before));
        }
        match world.items.next_flake() {
            Ok(flake) => {
                let id = add_item_from(world, items[n], flake);
                ids.push(id);
                proof {
                    let raw = raw_items(ids@);
                    let things = item_models(items@).subrange(0, n + 1);
                    assert(!before.contains_key(id@));
                    assert(raw =~= raw_before.push(id@));
                    assert(world@.items =~= before.insert(id@, items@[n as int]@));
                    assert(!raw_before.contains(id@)) by {
                        if raw_before.contains(id@) {
                            assert(raw_before.to_set().contains(id@));
                            assert(w0.items.dom().union(raw_before.to_set()).contains(id@));
                            assert(before.dom().contains(id@));
                        }
                    }
                    assert(world@.items.dom() =~= w0.items.dom().union(raw.to_set())) by {
                        assert forall|k: u64| raw.to_set().contains(k) <==> raw_before.to_set().contains(
                            k,
                        ) || k == id@ by {
                            if raw.to_set().contains(k) {
                                let i = choose|i: int| 0 <= i < raw.len() && raw[i] == k;
                                if i < raw_before.len() {
                                    assert(raw_before[i] == k);
                                }
                            }
                            if raw_before.to_set().contains(k) {
                                let i = choose|i: int|
                                    0 <= i < raw_before.len() && raw_before[i] == k;
                                assert(raw[i] == k);
                            }
                            if k == id@ {
                                assert(raw[raw.len() - 1] == k);
                            }
                        }
                    }
                    assert forall|i: int| 0 <= i < raw.len() implies !w0.items.contains_key(
                        #[trigger] raw[i],
                    ) && world@.items[raw[i]] == things[i] by {
                        if i < raw_before.len() {
                            assert(raw_before[i] == raw[i]);
                            assert(before[raw_before[i]] == things_before[i]);
                            assert(things_before[i] == things[i]);
                        } else {
                            assert(raw[i] == id@);
                            assert(things[i] == items@[n as int]@);
                        }
                    }
                    assert(world@ =~= (WorldView { items: world@.items, ..w0 }));
                }
            },
            Err(e) => {
                proof {
                    assert(world@.items =~= before);
                    assert forall|id: u64| #[trigger]
                        w0.items.contains_key(id) implies world@.items.contains_key(id)
                        && world@.items[id] == w0.items[id] by {
                        assert(w0.items.dom().union(raw_items(ids@).to_set()).contains(id));
                    }
                    assert(world@ =~= (WorldView { items: world@.items, ..w0 }));
                    assert(is_cut_short(w0, world@, raw_before, item_models(items@)));
                }
                return Err(e);
            },
        }
        n = n + 1;
    }
    proof {
        assert(item_models(items@).subrange(0, n as int) =~= item_models(items@));
    }
    Ok(ids)
}

/// The handles that [`populate_world`] has issued.
#[derive(Debug)]
pub struct Population {
    /// The handles of the starting items, in the order of
    /// [`starting_items`].
    pub items: Vec<ItemId>,
    /// The handles of the people of the town.
    pub npcs: Vec<ActorId>,
}

/// The actors after the player was handed the first [`CARRIED_ITEMS`] of
/// the items with the handles `ids`.
pub open spec fn with_carried(before: WorldView, ids: Seq<u64>) -> Map<u64, ActorView> {
    let a = before.actors[before.player];
    before.actors.insert(
        before.player,
        ActorView { inventory: a.inventory + ids.subrange(0, CARRIED_ITEMS as int), ..a },
    )
}

/// Whether `after` is `before` with the terrain that `plan` describes by
/// the town's legend and with the starting items under the handles `ids`,
/// of which the player carries the first [`CARRIED_ITEMS`].
pub open spec fn is_stocked(before: WorldView, after: WorldView, plan: Seq<char>, ids: Seq<u64>) -> bool {
    &&& is_terrain_of(
        after.terrain,
        plan,
        town_kinds(),
        Seq::<(char, TerrainFeature)>::empty(),
    )
    &&& has_new_items(
        before.items,
        after.items,
        ids,
        starting_items(before.player, before.actors[before.player].pos),
    )
    &&& after.actors == with_carried(before, ids)
    &&& after == (WorldView {
        actors: after.actors,
        items: after.items,
        terrain: after.terrain,
        ..before
    })
}

/// Whether `after` is what is left of `before` where the clock failed
/// while the starting items were put in place: the terrain is new, the
/// first `done.len()` of the starting items are there under the handles
/// `done`, and nothing else has changed.
pub open spec fn is_left_unstocked(before: WorldView, after: WorldView, done: Seq<u64>) -> bool {
    is_cut_short(
        WorldView { terrain: after.terrain, ..before },
        after,
        done,
        starting_items(before.player, before.actors[before.player].pos),
    )
}

/// Whether `after` is what is left of `before` where the clock failed
/// while people came to town: the world is stocked, with the starting
/// items under the handles `ids`, and those with the handles `done`, fewer
/// than [`MAX_NPC`], have come.
pub open spec fn is_left_unpeopled(
    before: WorldView,
    after: WorldView,
    plan: Seq<char>,
    ids: Seq<u64>,
    done: Seq<u64>,
) -> bool {
    let stocked = WorldView { actors: with_carried(before, ids), ..after };
    &&& is_stocked(before, stocked, plan, ids)
    &&& is_peopled_so_far(stocked, after, done)
    &&& done.len() < MAX_NPC
}

/// Fills the world: the terrain is read from `plan` by the town's legend,
/// the starting items are put in place, and up to [`MAX_NPC`] people come
/// to town.
///
/// The terrain is read first, and is there whatever follows. Each handle is
/// made from the system clock; where the clock reads a time before
/// [`crate::flake::DEFAULT_EPOCH`], which is the one way to fail, the world is
/// left with the items or the people that had come by then.
pub fn populate_world(world: &mut World, plan: &str) -> (r: Result<Population, FlakeError>)
    requires
        old(world)@.actors.contains_key(old(world)@.player),
    ensures
        is_terrain_of(
            final(world)@.terrain,
            plan@,
            town_kinds(),
            Seq::<(char, TerrainFeature)>::empty(),
        ),
        match r {
            Ok(population) => {
                let stocked = WorldView {
                    actors: with_carried(old(world)@, raw_items(population.items@)),
                    ..final(world)@
                };
                &&& is_stocked(old(world)@, stocked, plan@, raw_items(population.items@))
                &&& is_peopled(
                    stocked,
                    final(world)@,
                    raw_actors(population.npcs@),
                    MAX_NPC as nat,
                )
                &&& final(world).items.sequence() == sequence_after(
                    old(world).items.sequence(),
                    starting_items(
                        old(world)@.player,
                        old(world)@.actors[old(world)@.player].pos,
                    ).len(),
                )
                &&& final(world).actors.sequence() == sequence_after(
                    old(world).actors.sequence(),
                    population.npcs@.len(),
                )
            },
            Err(e) => {
                &&& e == FlakeError::ClockBeforeEpoch
                &&& final(world)@ == (WorldView {
                    actors: final(world)@.actors,
                    items: final(world)@.items,
                    terrain: final(world)@.terrain,
                    ..old(world)@
                })
                &&& keeps(old(world)@.items, final(world)@.items)
                &&& old(world)@.actors.dom().subset_of(final(world)@.actors.dom())
                &&& {
                    ||| exists|done: Seq<u64>| #[trigger]
                        is_left_unstocked(old(world)@, final(world)@, done)
                    ||| exists|ids: Seq<u64>, done: Seq<u64>| #[trigger]
                        is_left_unpeopled(old(world)@, final(world)@, plan@, ids, done)
                }
            },
        },
{
    let ghost w0 = world@;
    let legend = town_legend();
    world.terrain = read_terrain(plan, &legend);
    let player_id = world.player_id();
    let at = world.player_pos();
    let mut things: Vec<Item> = Vec::new();
    things.push(Item::new(ItemKind::Wand).with_owner(player_id));
    things.push(Item::new(ItemKind::Money(42)).with_owner(player_id));
    things.push(Item::new(ItemKind::Potion(Potion::Healing)).with_owner(player_id));
    things.push(Item::new(ItemKind::Money(10)).with_pos((5, 6)));
    things.push(Item::new(ItemKind::Wand).with_pos((12, 10)));
    things.push(Item::new(ItemKind::Wand).with_pos((5, 6)));
    things.push(Item::new(ItemKind::Gold).with_pos((at.x, at.y)));
    things.push(Item::new(ItemKind::Ore).with_pos((at.x, at.y)));
    proof {
        assert(item_models(things@) =~= starting_items(w0.player, w0.actors[w0.player].pos));
    }
    let ghost planned = world@;
    let ids = match add_items(world, &things) {
        Ok(ids) => ids,
        Err(e) => {
            proof {
                assert(world@ =~= (WorldView {
                    actors: world@.actors,
                    items: world@.items,
                    terrain: world@.terrain,
                    ..w0
                }));
                let done = choose|done: Seq<u64>| #[trigger]
                    is_cut_short(planned, world@, done, item_models(things@));
                assert(planned =~= (WorldView { terrain: world@.terrain, ..w0 }));
                assert(is_left_unstocked(w0, world@, done));
            }
            return Err(e);
        },
    };
    proof {
        assert forall|id: u64| #[trigger] w0.items.contains_key(id) implies world@.items.contains_key(
            id,
        ) && world@.items[id] == w0.items[id] by {
            assert(planned.items.dom().union(raw_items(ids@).to_set()).contains(id));
        }
    }
    if let Some(player) = world.actors.get_mut(&player_id) {
        let mut n: usize = 0;
        while n < CARRIED_ITEMS
            invariant
                n <= CARRIED_ITEMS,
                ids@.len() == 8,
                player@ == (ActorView {
                    inventory: w0.actors[w0.player].inventory + raw_items(ids@).subrange(
                        0,
                        n as int,
                    ),
                    ..w0.actors[w0.player]
                }),
            decreases CARRIED_ITEMS - n,
        {
            let ghost carried = player@.inventory;
            player.inventory.push(ids[n]);
            n = n + 1;
            proof {
                let handed = raw_items(ids@).subrange(0, n as int);
                assert(player@.inventory =~= carried.push(ids@[n - 1]@));
                assert(handed =~= raw_items(ids@).subrange(0, n - 1).push(ids@[n - 1]@));
                assert(player@.inventory =~= w0.actors[w0.player].inventory + handed);
            }
        }
    }
    let ghost stocked = world@;
    proof {
        assert(stocked.actors =~= with_carried(w0, raw_items(ids@)));
        assert(stocked =~= (WorldView {
            actors: stocked.actors,
            items: stocked.items,
            terrain: stocked.terrain,
            ..w0
        }));
    }
    let npcs = match spawn_npcs(world, MAX_NPC) {
        Ok(npcs) => npcs,
        Err(e) => {
            proof {
                assert(world@ =~= (WorldView {
                    actors: world@.actors,
                    items: world@.items,
                    terrain: world@.terrain,
                    ..w0
                }));
                assert forall|id: u64|
                    w0.actors.dom().contains(id) implies world@.actors.dom().contains(id) by {
                    assert(stocked.actors.contains_key(id));
                }
                let done = choose|done: Seq<u64>| #[trigger]
                    is_peopled_so_far(stocked, world@, done) && done.len() < MAX_NPC;
                assert(stocked =~= (WorldView {
                    actors: with_carried(w0, raw_items(ids@)),
                    ..world@
                }));
                assert(is_stocked(w0, stocked, plan@, raw_items(ids@)));
                assert(is_left_unpeopled(w0, world@, plan@, raw_items(ids@), done));
            }
            return Err(e);
        },
    };
    proof {
        assert(stocked =~= (WorldView {
            actors: with_carried(w0, raw_items(ids@)),
            ..world@
        }));
    }
    Ok(Population { items: ids, npcs })
}

} // verus!
