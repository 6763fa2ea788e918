//! The world: actors, items and terrain, and what can be asked of them.
//!
//! The world's view, [`WorldView`], is its mathematical model: maps from
//! handles' numbers to actors and items, a map from positions to terrain,
//! the sets of visible positions, the turn counter and the message log.
//! Every operation states what it does to that model.

use std::collections::HashMap;
use vstd::prelude::*;
use vstd::std_specs::hash::*;
use vstd::string::*;

use crate::action::{Action, ActionView, ViewportMode};
use crate::actor::{Actor, ActorId, ActorKind, ActorMap, ActorView};
use crate::flake::{flake_from_clock_spec, FlakeError};
use crate::idmap::is_first_free;
use crate::item::{
    around, item_name, used, Item, ItemId, ItemKind, ItemMap, ItemView, UseResult, UseResultView,
};
use crate::message::{pushed, Message, MessageKind, MessageQueue, MessageView};
use crate::point::{
    half_toward_zero, is_coord, line_point, line_steps, shifted, Point, Rectangle,
};
use crate::pointset::{square, PointSet};
use crate::terrain::{AccessView, Terrain, TerrainAccess, TerrainMap};
use crate::text::{decimal, decimal_string};

verus! {

broadcast use vstd::std_specs::hash::group_hash_axioms;

/// What the map highlights.
#[derive(Debug, Clone, Copy, PartialEq, Eq, Structural)]
pub enum HighlightMode {
    Inspect,
    Line,
    FOV,
}

/// How a tile is drawn.
#[derive(Debug, Clone, Copy, PartialEq, Eq, Structural)]
pub enum RenderMode {
    Hidden,
    Visible,
    Visited,
}

/// How far an actor sees in each direction.
pub const FOV_RADIUS: i32 = 6;

/// All there is in the game: the actors, the items, the terrain, what each
/// actor sees, the turn counter and the message log.
#[derive(Debug)]
pub struct World {
    pub actors: ActorMap,
    pub items: ItemMap,
    pub terrain: TerrainMap,
    /// The handle of the player; it is chosen when the world is made and
    /// meant to stay.
    pub player_id: ActorId,
    /// The number of turns that have ended.
    pub time: i32,
    pub highlight_mode: Option<HighlightMode>,
    pub highlights: PointSet,
    /// For each actor, by its handle's number, the positions that it sees.
    pub fov: HashMap<u64, PointSet>,
    pub messages: MessageQueue,
}

/// The model of a [`World`].
#[verifier::ext_equal]
pub struct WorldView {
    pub actors: Map<u64, ActorView>,
    pub items: Map<u64, ItemView>,
    pub terrain: Map<Point, Terrain>,
    pub player: u64,
    pub time: int,
    pub highlight_mode: Option<HighlightMode>,
    pub highlights: Set<Point>,
    pub fov: Map<u64, Set<Point>>,
    pub messages: Seq<MessageView>,
}

/// The models of the actors in a registry.
pub open spec fn actor_views(actors: Map<u64, Actor>) -> Map<u64, ActorView> {
    Map::new(|id: u64| actors.contains_key(id), |id: u64| actors[id]@)
}

/// The models of the items in a registry.
pub open spec fn item_views(items: Map<u64, Item>) -> Map<u64, ItemView> {
    Map::new(|id: u64| items.contains_key(id), |id: u64| items[id]@)
}

/// The sets that a map of point sets holds.
pub open spec fn fov_views(fov: Map<u64, PointSet>) -> Map<u64, Set<Point>> {
    Map::new(|id: u64| fov.contains_key(id), |id: u64| fov[id]@)
}

impl View for World {
    type V = WorldView;

    open spec fn view(&self) -> WorldView {
        WorldView {
            actors: actor_views(self.actors@),
            items: item_views(self.items@),
            terrain: self.terrain@,
            player: self.player_id@,
            time: self.time as int,
            highlight_mode: self.highlight_mode,
            highlights: self.highlights@,
            fov: fov_views(self.fov@),
            messages: self.messages@,
        }
    }
}

/// The terrain at `pos`: empty ground where the map has no entry.
pub open spec fn tile_at(terrain: Map<Point, Terrain>, pos: Point) -> Terrain {
    if terrain.contains_key(pos) {
        terrain[pos]
    } else {
        Terrain::spec_empty()
    }
}

/// Whether the terrain at `pos` keeps actors out.
pub open spec fn tile_blocks(terrain: Map<Point, Terrain>, pos: Point) -> bool {
    tile_at(terrain, pos).spec_is_blocking()
}

/// Whether an actor stands at `pos`.
pub open spec fn actor_blocks(actors: Map<u64, ActorView>, pos: Point) -> bool {
    exists|id: u64| #[trigger] actors.contains_key(id) && actors[id].pos == pos
}

/// The handles of the items that lie at `pos`.
pub open spec fn items_at(items: Map<u64, ItemView>, pos: Point) -> Set<u64> {
    Set::new(|id: u64| items.contains_key(id) && items[id].pos == Some(pos))
}

/// How the actor with the handle `viewer` sees the tile at `p`: visible
/// where it sees it now, visited where it has seen it before, hidden else.
pub open spec fn render_mode_of(w: WorldView, viewer: u64, p: Point) -> RenderMode {
    if w.fov.contains_key(viewer) && w.fov[viewer].contains(p) {
        RenderMode::Visible
    } else if w.actors.contains_key(viewer) && w.actors[viewer].visited.contains(p) {
        RenderMode::Visited
    } else {
        RenderMode::Hidden
    }
}

/// The positions next to `pos` at which an actor stands.
pub open spec fn actors_next_to(actors: Map<u64, ActorView>, pos: Point) -> Set<Point> {
    Set::new(|p: Point| around(pos).contains(p) && actor_blocks(actors, p))
}

/// The points of the line from `from` to `to`.
pub open spec fn line_set(from: Point, to: Point) -> Set<Point> {
    Set::new(|p: Point| exists|i: int| 0 <= i <= line_steps(from, to) && line_point(from, to, i) == p)
}

/// `handles` without `handle`, the rest in their order.
pub open spec fn without(handles: Seq<u64>, handle: u64) -> Seq<u64>
    decreases handles.len(),
{
    if handles.len() == 0 {
        handles
    } else {
        let rest = without(handles.drop_last(), handle);
        if handles.last() == handle {
            rest
        } else {
            rest.push(handles.last())
        }
    }
}

/// `a + b`, or the largest `u16` where that is less.
pub open spec fn saturating_sum(a: u16, b: u16) -> u16 {
    if a + b > u16::MAX {
        u16::MAX
    } else {
        (a + b) as u16
    }
}

/// A message about the player's belongings.
pub open spec fn inventory_message(text: Seq<char>) -> MessageView {
    MessageView { kind: MessageKind::Inventory, text, no_repeat: false }
}

/// What the player is told who picks up `amount` coins.
pub open spec fn coins_text(amount: u16) -> Seq<char> {
    "You pick up "@ + decimal(amount as nat) + " coins and add it to your pouch."@
}

/// What the player is told who picks up an item of the given kind.
pub open spec fn pick_up_text(kind: ItemKind) -> Seq<char> {
    "You pick up "@ + item_name(kind) + "."@
}

impl WorldView {
    /// Whether `pos` cannot be entered, for its terrain or for an actor
    /// who stands there.
    pub open spec fn blocks(self, pos: Point) -> bool {
        tile_blocks(self.terrain, pos) || actor_blocks(self.actors, pos)
    }

    /// The world after the actor has picked up the item. Money goes to the
    /// actor's coins, up to the most that they can count, and the item is
    /// no more; anything else goes to the end of the inventory. Where the
    /// actor or the item is missing, nothing happens.
    pub open spec fn picked_up(self, actor: u64, item: u64) -> WorldView {
        if !self.actors.contains_key(actor) || !self.items.contains_key(item) {
            self
        } else {
            let a = self.actors[actor];
            let it = self.items[item];
            match it.kind {
                ItemKind::Money(amount) => WorldView {
                    actors: self.actors.insert(
                        actor,
                        ActorView { coins: saturating_sum(a.coins, amount), ..a },
                    ),
                    items: self.items.remove(item),
                    messages: pushed(self.messages, inventory_message(coins_text(amount))),
                    ..self
                },
                _ => WorldView {
                    actors: self.actors.insert(
                        actor,
                        ActorView { inventory: a.inventory.push(item), ..a },
                    ),
                    items: self.items.insert(
                        item,
                        ItemView { owner: Some(actor), pos: None, ..it },
                    ),
                    messages: pushed(self.messages, inventory_message(pick_up_text(it.kind))),
                    ..self
                },
            }
        }
    }

    /// The world after the item was dropped: it has no owner, it has left
    /// the inventory of the actor who held it, and it lies where that
    /// actor stands. An item without an owner, or a missing one, stays as
    /// it is; where the owner is missing, the item only loses its owner.
    pub open spec fn dropped(self, item: u64) -> WorldView {
        if !self.items.contains_key(item) {
            self
        } else {
            let it = self.items[item];
            match it.owner {
                None => self,
                Some(owner) => if self.actors.contains_key(owner) {
                    let a = self.actors[owner];
                    WorldView {
                        actors: self.actors.insert(
                            owner,
                            ActorView { inventory: without(a.inventory, item), ..a },
                        ),
                        items: self.items.insert(
                            item,
                            ItemView { owner: None, pos: Some(a.pos), ..it },
                        ),
                        ..self
                    }
                } else {
                    WorldView {
                        items: self.items.insert(item, ItemView { owner: None, ..it }),
                        ..self
                    }
                },
            }
        }
    }

    /// The world after the actor has looked around: it sees the square of
    /// radius [`FOV_RADIUS`] round its position, and has seen it from now
    /// on. Where the actor is missing, nothing happens.
    pub open spec fn seen_from(self, actor: u64) -> WorldView {
        if !self.actors.contains_key(actor) {
            self
        } else {
            let a = self.actors[actor];
            let seen = square(a.pos, FOV_RADIUS as int);
            WorldView {
                actors: self.actors.insert(
                    actor,
                    ActorView { visited: a.visited.union(seen), ..a },
                ),
                fov: self.fov.insert(actor, seen),
                ..self
            }
        }
    }
    /// The world after the actor has moved to `pos` and looked around.
    /// Where the actor is missing, nothing happens.
    pub open spec fn moved_to(self, actor: u64, pos: Point) -> WorldView {
        if !self.actors.contains_key(actor) {
            self
        } else {
            let a = self.actors[actor];
            (WorldView { actors: self.actors.insert(actor, ActorView { pos, ..a }), ..self }).seen_from(
                actor,
            )
        }
    }

    /// The world after the item was used on the actor with the handle
    /// `target`, and the result for the caller. What the item does is said
    /// by [`used`]. An item that is used up leaves its owner's inventory and
    /// the world; one that has changed is kept with its new kind; one that
    /// falls is dropped. A missing item does nothing.
    pub open spec fn item_used(self, item: u64, target: u64) -> (WorldView, UseResultView) {
        if !self.items.contains_key(item) {
            (self, UseResultView::Cancel)
        } else {
            let it = self.items[item];
            let outcome = used(self, it.kind, target);
            let w = outcome.world;
            match outcome.result {
                UseResultView::UsedUp => (
                    WorldView {
                        actors: match it.owner {
                            Some(owner) => if w.actors.contains_key(owner) {
                                let a = w.actors[owner];
                                w.actors.insert(
                                    owner,
                                    ActorView { inventory: without(a.inventory, item), ..a },
                                )
                            } else {
                                w.actors
                            },
                            None => w.actors,
                        },
                        items: w.items.remove(item),
                        ..w
                    },
                    UseResultView::UsedUp,
                ),
                UseResultView::Replace => (
                    WorldView {
                        items: w.items.insert(item, ItemView { kind: outcome.kind, ..it }),
                        ..w
                    },
                    UseResultView::Replace,
                ),
                UseResultView::Drop => (w.dropped(item), UseResultView::Drop),
                other => (w, other),
            }
        }
    }

    /// Whether the actor may enter the tile at `pos`: its access is
    /// allowed, or asks for a skill that the actor has.
    pub open spec fn may_enter(self, actor: ActorView, pos: Point) -> bool {
        match tile_at(self.terrain, pos).spec_access() {
            AccessView::Allowed => true,
            AccessView::RequireSkill(kind) => actor.has_skill(kind),
            _ => false,
        }
    }

    /// The move that comes of the actor's attempt to step by `(dx, dy)`,
    /// if that step is possible.
    pub open spec fn move_attempt(self, actor: u64, dx: i32, dy: i32, follow: bool) -> Option<
        ActionView,
    > {
        if !self.actors.contains_key(actor) {
            None
        } else {
            let a = self.actors[actor];
            match shifted(a.pos, dx as int, dy as int) {
                None => None,
                Some(pos) => if self.may_enter(a, pos) {
                    if follow {
                        Some(ActionView::MoveFollow { actor, pos, mode: follow_mode(dx, dy) })
                    } else {
                        Some(ActionView::Move { actor, pos })
                    }
                } else {
                    None
                },
            }
        }
    }

    /// The world after the actor's attempt to step by `(dx, dy)`: where the
    /// tile answers with a message, the message is in the log; nothing else
    /// changes.
    pub open spec fn after_move_attempt(self, actor: u64, dx: i32, dy: i32) -> WorldView {
        if !self.actors.contains_key(actor) {
            self
        } else {
            match shifted(self.actors[actor].pos, dx as int, dy as int) {
                None => self,
                Some(pos) => match tile_at(self.terrain, pos).spec_access() {
                    AccessView::BlockedWithMessage(msg) => WorldView {
                        messages: pushed(self.messages, msg),
                        ..self
                    },
                    _ => self,
                },
            }
        }
    }
}

/// Takes `handle` out of `inventory`, wherever it occurs.
pub fn remove_handle(inventory: &mut Vec<ItemId>, handle: &ItemId)
    ensures
        final(inventory)@.map_values(|id: ItemId| id@) == without(
            old(inventory)@.map_values(|id: ItemId| id@),
            handle@,
        ),
{
    let mut kept: Vec<ItemId> = Vec::new();
    let mut n: usize = 0;
    let ghost raw = inventory@.map_values(|id: ItemId| id@);
    while n < inventory.len()
        invariant
            *inventory == *old(inventory),
            raw == inventory@.map_values(|id: ItemId| id@),
            n <= inventory@.len(),
            kept@.map_values(|id: ItemId| id@) == without(raw.subrange(0, n as int), handle@),
        decreases inventory@.len() - n,
    {
        let id = inventory[n];
        proof {
            let next = raw.subrange(0, n + 1);
            assert(next.drop_last() =~= raw.subrange(0, n as int));
            assert(next.last() == id@);
        }
        if id.raw() != handle.raw() {
            kept.push(id);
            assert(kept@.map_values(|id: ItemId| id@) =~= without(
                raw.subrange(0, n as int),
                handle@,
            ).push(id@));
        }
        n = n + 1;
    }
    proof {
        assert(raw.subrange(0, n as int) =~= raw);
    }
    *inventory = kept;
}

/// The way in which the viewport follows a step by `(dx, dy)`.
pub open spec fn follow_mode(dx: i32, dy: i32) -> ViewportMode {
    if dx == 0 && dy == -1 {
        ViewportMode::North
    } else if dx == 0 && dy == 1 {
        ViewportMode::South
    } else if dx == 1 && dy == 0 {
        ViewportMode::East
    } else if dx == -1 && dy == 0 {
        ViewportMode::West
    } else {
        ViewportMode::Center
    }
}

/// `viewport` moved by `(dx, dy)`; where a corner would leave the range of
/// the coordinates, `viewport` as it is.
pub open spec fn moved_by(viewport: Rectangle, dx: int, dy: int) -> Rectangle {
    if is_coord(viewport.x1 + dx) && is_coord(viewport.x2 + dx) && is_coord(viewport.y1 + dy)
        && is_coord(viewport.y2 + dy) {
        Rectangle {
            x1: (viewport.x1 + dx) as i32,
            x2: (viewport.x2 + dx) as i32,
            y1: (viewport.y1 + dy) as i32,
            y2: (viewport.y2 + dy) as i32,
        }
    } else {
        viewport
    }
}

/// The viewport after it has followed a move to `pos`. Towards a side, it
/// moves just far enough to keep `pos` at least `border_size` away from
/// that side, if it has to move at all; with [`ViewportMode::Center`], it
/// moves its centre to `pos`.
pub open spec fn adjusted(
    viewport: Rectangle,
    border_size: Point,
    pos: Point,
    mode: ViewportMode,
) -> Rectangle {
    match mode {
        ViewportMode::North => {
            let dy = -(viewport.y1 - pos.y + border_size.y);
            if dy < 0 {
                moved_by(viewport, 0, dy)
            } else {
                viewport
            }
        },
        ViewportMode::South => {
            let dy = -(viewport.y2 - pos.y - border_size.y);
            if dy > 0 {
                moved_by(viewport, 0, dy)
            } else {
                viewport
            }
        },
        ViewportMode::East => {
            let dx = -(viewport.x2 - pos.x - border_size.x);
            if dx > 0 {
                moved_by(viewport, dx, 0)
            } else {
                viewport
            }
        },
        ViewportMode::West => {
            let dx = -(viewport.x1 - pos.x + border_size.x);
            if dx < 0 {
                moved_by(viewport, dx, 0)
            } else {
                viewport
            }
        },
        ViewportMode::Center => moved_by(
            viewport,
            pos.x - (viewport.x1 + half_toward_zero(viewport.x2 - viewport.x1)),
            pos.y - (viewport.y1 + half_toward_zero(viewport.y2 - viewport.y1)),
        ),
    }
}

/// Moves `viewport` by `(dx, dy)`, unless a corner would leave the range
/// of the coordinates.
pub fn move_viewport(viewport: &mut Rectangle, dx: i32, dy: i32)
    ensures
        *final(viewport) == moved_by(*old(viewport), dx as int, dy as int),
{
    shift_viewport(viewport, dx as i64, dy as i64);
}

fn shift_viewport(viewport: &mut Rectangle, dx: i64, dy: i64)
    requires
        -0x4_0000_0000 <= dx <= 0x4_0000_0000,
        -0x4_0000_0000 <= dy <= 0x4_0000_0000,
    ensures
        *final(viewport) == moved_by(*old(viewport), dx as int, dy as int),
{
    let x1: i64 = viewport.x1 as i64 + dx;
    let x2: i64 = viewport.x2 as i64 + dx;
    let y1: i64 = viewport.y1 as i64 + dy;
    let y2: i64 = viewport.y2 as i64 + dy;
    if fits(x1) && fits(x2) && fits(y1) && fits(y2) {
        viewport.x1 = x1 as i32;
        viewport.x2 = x2 as i32;
        viewport.y1 = y1 as i32;
        viewport.y2 = y2 as i32;
    }
}

fn fits(v: i64) -> (b: bool)
    ensures
        b == is_coord(v as int),
{
    i32::MIN as i64 <= v && v <= i32::MAX as i64
}

/// Lets the viewport follow a move to `pos`; see [`adjusted`].
pub fn adjust_viewport(
    viewport: &mut Rectangle,
    border_size: &Point,
    pos: &Point,
    mode: ViewportMode,
)
    ensures
        *final(viewport) == adjusted(*old(viewport), *border_size, *pos, mode),
{
    match mode {
        ViewportMode::North => {
            let dy: i64 = -(viewport.y1 as i64 - pos.y as i64 + border_size.y as i64);
            if dy < 0 {
                shift_viewport(viewport, 0, dy);
            }
        },
        ViewportMode::South => {
            let dy: i64 = -(viewport.y2 as i64 - pos.y as i64 - border_size.y as i64);
            if dy > 0 {
                shift_viewport(viewport, 0, dy);
            }
        },
        ViewportMode::East => {
            let dx: i64 = -(viewport.x2 as i64 - pos.x as i64 - border_size.x as i64);
            if dx > 0 {
                shift_viewport(viewport, dx, 0);
            }
        },
        ViewportMode::West => {
            let dx: i64 = -(viewport.x1 as i64 - pos.x as i64 + border_size.x as i64);
            if dx < 0 {
                shift_viewport(viewport, dx, 0);
            }
        },
        ViewportMode::Center => {
            let cx: i64 = viewport.x1 as i64 + (viewport.x2 as i64 - viewport.x1 as i64) / 2;
            let cy: i64 = viewport.y1 as i64 + (viewport.y2 as i64 - viewport.y1 as i64) / 2;
            shift_viewport(viewport, pos.x as i64 - cx, pos.y as i64 - cy);
        },
    }
}

/// The move that comes of the actor's attempt to step by `(dx, dy)`, or
/// `None` where the actor may not enter the tile there. A tile that answers
/// with a message has it put in the log.
pub fn move_by(world: &mut World, actor_id: &ActorId, dx: i32, dy: i32, follow: bool) -> (r:
    Option<Action>)
    ensures
        match r {
            Some(action) => old(world)@.move_attempt(actor_id@, dx, dy, follow) == Some(action@),
            None => old(world)@.move_attempt(actor_id@, dx, dy, follow) is None,
        },
        final(world)@ == old(world)@.after_move_attempt(actor_id@, dx, dy),
{
    let from = match world.actors.get(actor_id) {
        Some(actor) => actor.pos,
        None => {
            return None;
        },
    };
    let new_pos = match from.checked_offset(dx, dy) {
        Some(p) => p,
        None => {
            return None;
        },
    };
    let tile = match world.terrain.get(&new_pos) {
        Some(tile) => *tile,
        None => Terrain::empty(),
    };
    let allow_movement = match tile.access() {
        TerrainAccess::Allowed => true,
        TerrainAccess::Blocked => false,
        TerrainAccess::BlockedWithMessage(msg) => {
            world.messages.push(msg);
            false
        },
        TerrainAccess::RequireSkill(kind) => match world.actors.get(actor_id) {
            Some(actor) => actor.has_skill(&kind),
            None => false,
        },
    };
    assert(world@ =~= old(world)@.after_move_attempt(actor_id@, dx, dy));
    if allow_movement {
        if follow {
            let mode = if dx == 0 && dy == -1 {
                ViewportMode::North
            } else if dx == 0 && dy == 1 {
                ViewportMode::South
            } else if dx == 1 && dy == 0 {
                ViewportMode::East
            } else if dx == -1 && dy == 0 {
                ViewportMode::West
            } else {
                ViewportMode::Center
            };
            Some(Action::MoveFollow { actor_id: *actor_id, pos: new_pos, mode })
        } else {
            Some(Action::Move { actor_id: *actor_id, pos: new_pos })
        }
    } else {
        None
    }
}

/// The command by which the actor picks up all that lies at `pos`.
pub fn pick_up_items(world: &World, actor_id: &ActorId, pos: Point) -> (action: Action)
    ensures
        action@ matches ActionView::PickUp { actor, items } && actor == actor_id@
            && items.to_set() == items_at(world@.items, pos) && items.no_duplicates(),
{
    let items = world.item_ids_at(&pos);
    Action::PickUp { actor_id: *actor_id, items }
}

/// The player of a new world: at `(20, 20)`, with 8 of 8 health, and with
/// nothing else to its name.
pub open spec fn new_player() -> ActorView {
    ActorView {
        kind: ActorKind::Player,
        pos: Point { x: 20, y: 20 },
        health: crate::actor::Attribute { value: 8, max: 8 },
        coins: 0,
        ai: crate::actor::ActorAI::WanderAround,
        inventory: Seq::<u64>::empty(),
        visited: Set::<Point>::empty(),
        skills: Seq::<crate::skill::Skill>::empty(),
    }
}

impl World {
    /// A world round the actors of `actors`, with nothing else in it but a
    /// new player, see [`new_player`], whose handle is the first free one at
    /// or after `start`.
    pub fn with_player(actors: ActorMap, start: u64) -> (world: World)
        ensures
            is_first_free(actor_views(actors@).dom(), start, world@.player),
            !actor_views(actors@).contains_key(world@.player),
            world@.actors == actor_views(actors@).insert(world@.player, new_player()),
            world@.items == Map::<u64, ItemView>::empty(),
            world@.terrain == Map::<Point, Terrain>::empty(),
            world@.time == 0,
            world@.highlight_mode is None,
            world@.highlights == Set::<Point>::empty(),
            world@.fov == Map::<u64, Set<Point>>::empty(),
            world@.messages == Seq::<MessageView>::empty(),
            world.actors.sequence() == actors.sequence(),
            world.items.sequence() == 0,
    {
        let mut actors = actors;
        let ghost before = actors@;
        let start_pos: (i32, i32) = (20, 20);
        let health: u16 = 8;
        let player = Actor::new(ActorKind::Player, start_pos, health);
        assert(player@ =~= new_player());
        assert(actor_views(before).dom() =~= before.dom());
        let player_id = actors.add_from(start, player);
        let world = World {
            actors,
            items: ItemMap::new(),
            terrain: TerrainMap::new(),
            player_id,
            time: 0,
            highlight_mode: None,
            highlights: PointSet::new(),
            fov: HashMap::new(),
            messages: MessageQueue::new(),
        };
        proof {
            assert(world@.actors =~= actor_views(before).insert(world@.player, new_player()));
            assert(world@.items =~= Map::<u64, ItemView>::empty());
            assert(world@.fov =~= Map::<u64, Set<Point>>::empty());
        }
        world
    }

    /// A world with nothing in it but the player, who stands at `(20, 20)`
    /// with 8 of 8 health.
    ///
    /// The player's handle is the number made of the system clock and the
    /// first sequence number of the actors' registry. Where the clock reads
    /// a time before [`crate::flake::DEFAULT_EPOCH`], which is the one way to
    /// fail, there is no world.
    pub fn new() -> (r: Result<World, FlakeError>)
        ensures
            match r {
                Ok(world) => {
                    &&& world@.actors.dom() == set![world@.player]
                    &&& world@.actors[world@.player] == new_player()
                    &&& world@.items == Map::<u64, ItemView>::empty()
                    &&& world@.terrain == Map::<Point, Terrain>::empty()
                    &&& world@.time == 0
                    &&& world@.highlight_mode is None
                    &&& world@.highlights == Set::<Point>::empty()
                    &&& world@.fov == Map::<u64, Set<Point>>::empty()
                    &&& world@.messages == Seq::<MessageView>::empty()
                    &&& world.actors.sequence() == 1
                    &&& world.items.sequence() == 0
                    &&& exists|secs: u64, nanos: u32|
                        nanos < 1_000_000_000 && #[trigger] flake_from_clock_spec(secs, nanos, 0)
                            == Ok::<u64, FlakeError>(world@.player)
                },
                Err(e) => e == FlakeError::ClockBeforeEpoch,
            },
    {
        let mut actors = ActorMap::new();
        match actors.next_flake() {
            Ok(flake) => {
                let world = World::with_player(actors, flake);
                proof {
                    assert(actor_views(actors@) =~= Map::<u64, ActorView>::empty());
                    assert(crate::idmap::probe(flake, 0) == flake);
                    assert(world@.player == flake) by {
                        let j = choose|j: nat|
                            {
                                &&& #[trigger] crate::idmap::probe(flake, j) == world@.player
                                &&& !actor_views(actors@).dom().contains(world@.player)
                                &&& forall|i: nat|
                                    i < j ==> actor_views(actors@).dom().contains(
                                        #[trigger] crate::idmap::probe(flake, i),
                                    )
                            };
                        if j > 0 {
                            assert(actor_views(actors@).dom().contains(
                                crate::idmap::probe(flake, 0),
                            ));
                        }
                    }
                    assert(world@.actors.dom() =~= set![world@.player]);
                }
                Ok(world)
            },
            Err(e) => Err(e),
        }
    }

    /// The handle of the player.
    pub fn player_id(&self) -> (id: ActorId)
        ensures
            id@ == self@.player,
    {
        self.player_id
    }

    /// Where the player stands.
    pub fn player_pos(&self) -> (pos: Point)
        requires
            self@.actors.contains_key(self@.player),
        ensures
            pos == self@.actors[self@.player].pos,
    {
        match self.actors.get(&self.player_id) {
            Some(player) => player.pos,
            None => Point { x: 0, y: 0 },
        }
    }

    /// The positions that the actor with the given handle sees, if any
    /// have been worked out for it.
    pub fn visible(&self, actor_id: &ActorId) -> (r: Option<&PointSet>)
        ensures
            match r {
                Some(seen) => self@.fov.contains_key(actor_id@) && seen@ == self@.fov[actor_id@],
                None => !self@.fov.contains_key(actor_id@),
            },
    {
        let key = actor_id.raw();
        self.fov.get(&key)
    }

    /// The handles of all items that lie at `pos`, each once, in no
    /// particular order.
    pub fn item_ids_at(&self, pos: &Point) -> (ids: Vec<ItemId>)
        ensures
            ids@.map_values(|id: ItemId| id@).to_set() == items_at(self@.items, *pos),
            ids@.map_values(|id: ItemId| id@).no_duplicates(),
    {
        let entries = self.items.iter();
        let mut ids: Vec<ItemId> = Vec::new();
        let ghost mut taken: Seq<int> = Seq::empty();
        let mut n: usize = 0;
        while n < entries.len()
            invariant
                n <= entries@.len(),
                ids@.len() == taken.len(),
                forall|j: int| 0 <= j < taken.len() ==> 0 <= #[trigger] taken[j] < n,
                forall|j: int|
                    0 <= j < taken.len() ==> (#[trigger] ids@[j]) == entries@[taken[j]].0
                        && entries@[taken[j]].1.pos == Some(*pos),
                forall|j: int, k: int| 0 <= j < k < taken.len() ==> taken[j] < taken[k],
                forall|i: int|
                    0 <= i < n && (#[trigger] entries@[i]).1.pos == Some(*pos) ==> exists|j: int|
                        0 <= j < taken.len() && #[trigger] taken[j] == i,
            decreases entries@.len() - n,
        {
            let (id, item) = entries[n];
            let here = match item.pos {
                Some(p) => p.x == pos.x && p.y == pos.y,
                None => false,
            };
            if here {
                ids.push(id);
                proof {
                    let ghost before = taken;
                    taken = taken.push(n as int);
                    assert forall|i: int|
                        0 <= i < n + 1 && (#[trigger] entries@[i]).1.pos == Some(
                            *pos,
                        ) implies exists|j: int| 0 <= j < taken.len() && #[trigger] taken[j] == i by {
                        if i < n {
                            let j = choose|j: int| 0 <= j < before.len() && #[trigger] before[j] == i;
                            assert(taken[j] == i);
                        } else {
                            assert(taken[taken.len() - 1] == i);
                        }
                    }
                }
            }
            n = n + 1;
        }
        proof {
            let raw = ids@.map_values(|id: ItemId| id@);
            assert forall|j: int, k: int| 0 <= j < raw.len() && 0 <= k < raw.len() && j != k implies raw[j]
                != raw[k] by {
                assert(ids@[j] == entries@[taken[j]].0);
                assert(ids@[k] == entries@[taken[k]].0);
                if j < k {
                    assert(taken[j] < taken[k]);
                } else {
                    assert(taken[k] < taken[j]);
                }
            }
            assert forall|id: u64| raw.to_set().contains(id) <==> items_at(
                self@.items,
                *pos,
            ).contains(id) by {
                if raw.to_set().contains(id) {
                    let j = choose|j: int| 0 <= j < raw.len() && raw[j] == id;
                    assert(ids@[j] == entries@[taken[j]].0);
                    assert(self.items@.contains_key(entries@[taken[j]].0@));
                }
                if items_at(self@.items, *pos).contains(id) {
                    let i = choose|i: int|
                        0 <= i < entries@.len() && (#[trigger] entries@[i]).0@ == id;
                    assert(entries@[i].1.pos == Some(*pos));
                    let j = choose|j: int| 0 <= j < taken.len() && #[trigger] taken[j] == i;
                    assert(raw[j] == id);
                }
            }
            assert(raw.to_set() =~= items_at(self@.items, *pos));
        }
        ids
    }

    /// Whether `pos` cannot be entered, for its terrain or for an actor who
    /// stands there.
    pub fn is_blocking(pos: &Point, terrain: &TerrainMap, actors: &ActorMap) -> (b: bool)
        ensures
            b == (tile_blocks(terrain@, *pos) || actor_blocks(actor_views(actors@), *pos)),
    {
        World::tile_blocking(pos, terrain) || World::actor_blocking(pos, actors)
    }

    /// Whether the terrain at `pos` keeps actors out; where the map has no
    /// entry, the ground is empty and does not.
    pub fn tile_blocking(pos: &Point, terrain: &TerrainMap) -> (b: bool)
        ensures
            b == tile_blocks(terrain@, *pos),
    {
        match terrain.get(pos) {
            Some(tile) => tile.is_blocking(),
            None => Terrain::empty().is_blocking(),
        }
    }

    /// Whether an actor stands at `pos`.
    pub fn actor_blocking(pos: &Point, actors: &ActorMap) -> (b: bool)
        ensures
            b == actor_blocks(actor_views(actors@), *pos),
    {
        let all = actors.values();
        let ghost ids: Seq<u64> = choose|ids: Seq<u64>|
            {
                &&& ids.len() == all@.len()
                &&& ids.no_duplicates()
                &&& ids.to_set() == actors@.dom()
                &&& forall|i: int| 0 <= i < ids.len() ==> *(#[trigger] all@[i]) == actors@[ids[i]]
            };
        let mut n: usize = 0;
        while n < all.len()
            invariant
                n <= all@.len(),
                ids.len() == all@.len(),
                ids.to_set() == actors@.dom(),
                forall|i: int| 0 <= i < ids.len() ==> *(#[trigger] all@[i]) == actors@[ids[i]],
                forall|i: int| 0 <= i < n ==> (#[trigger] all@[i]).pos != *pos,
            decreases all@.len() - n,
        {
            let actor = all[n];
            if actor.pos.x == pos.x && actor.pos.y == pos.y {
                proof {
                    assert(ids.to_set().contains(ids[n as int]));
                    assert(actor_views(actors@).contains_key(ids[n as int]));
                }
                return true;
            }
            n = n + 1;
        }
        proof {
            assert forall|id: u64| #[trigger]
                actor_views(actors@).contains_key(id) implies actor_views(actors@)[id].pos
                != *pos by {
                assert(ids.to_set().contains(id));
                let i = choose|i: int| 0 <= i < ids.len() && ids[i] == id;
                assert(all@[i].pos != *pos);
            }
        }
        false
    }
    /// The actor picks up the item. Money is added to the actor's coins, up
    /// to the most that they can count, and the item is gone; any other
    /// item is held by the actor from now on, lies nowhere, and comes last
    /// in the actor's inventory. The player is told. Where the actor or the
    /// item is missing, nothing happens.
    pub fn pick_up(&mut self, actor_id: &ActorId, item_id: &ItemId)
        ensures
            final(self)@ == old(self)@.picked_up(actor_id@, item_id@),
    {
        if !self.actors.contains(actor_id) {
            return ;
        }
        let kind = match self.items.get(item_id) {
            Some(item) => item.kind,
            None => {
                return ;
            },
        };
        match kind {
            ItemKind::Money(amount) => {
                let mut text = String::from_str("You pick up ");
                let digits = decimal_string(amount as u64);
                text.append(digits.as_str());
                text.append(" coins and add it to your pouch.");
                self.messages.push(Message::from_string(MessageKind::Inventory, text));
                if let Some(actor) = self.actors.get_mut(actor_id) {
                    actor.coins = actor.coins.saturating_add(amount);
                }
                self.items.remove(item_id);
            },
            _ => {
                let mut text = String::from_str("You pick up ");
                let name = kind.description();
                text.append(name.as_str());
                text.append(".");
                self.messages.push(Message::from_string(MessageKind::Inventory, text));
                if let Some(item) = self.items.get_mut(item_id) {
                    item.owner = Some(*actor_id);
                    item.pos = None;
                }
                if let Some(actor) = self.actors.get_mut(actor_id) {
                    actor.inventory.push(*item_id);
                    assert(actor@.inventory =~= old(self)@.actors[actor_id@].inventory.push(
                        item_id@,
                    ));
                }
            },
        }
        assert(self@ =~= old(self)@.picked_up(actor_id@, item_id@));
    }

    /// The item is dropped: it has no owner any more, it leaves the
    /// inventory of the actor who held it, and it lies where that actor
    /// stands. Nothing happens to an item without an owner.
    pub fn drop_item(&mut self, item_id: &ItemId)
        ensures
            final(self)@ == old(self)@.dropped(item_id@),
    {
        let owner_id = match self.items.get(item_id) {
            Some(item) => match item.owner {
                Some(owner_id) => owner_id,
                None => {
                    return ;
                },
            },
            None => {
                return ;
            },
        };
        let mut place: Option<Point> = None;
        if let Some(owner) = self.actors.get_mut(&owner_id) {
            remove_handle(&mut owner.inventory, item_id);
            place = Some(owner.pos);
        }
        if let Some(item) = self.items.get_mut(item_id) {
            item.owner = None;
            match place {
                Some(pos) => {
                    item.pos = Some(pos);
                },
                None => {},
            }
        }
        assert(self@ =~= old(self)@.dropped(item_id@));
    }

    /// Works out what the actor sees: the square of radius [`FOV_RADIUS`]
    /// round its position. That square replaces what the actor saw before,
    /// and is added to what it has ever seen.
    pub fn update_fov(&mut self, actor_id: &ActorId)
        ensures
            final(self)@ == old(self)@.seen_from(actor_id@),
    {
        let pos = match self.actors.get(actor_id) {
            Some(actor) => actor.pos,
            None => {
                return ;
            },
        };
        let mut seen = PointSet::new();
        seen.insert_square(pos, FOV_RADIUS);
        assert(seen@ =~= square(pos, FOV_RADIUS as int));
        if let Some(actor) = self.actors.get_mut(actor_id) {
            actor.visited.insert_square(pos, FOV_RADIUS);
        }
        self.fov.insert(actor_id.raw(), seen);
        assert(self@ =~= old(self)@.seen_from(actor_id@));
    }
    /// How the actor with the handle `viewer` sees the tile at `p`.
    pub fn render_mode(&self, viewer: &ActorId, p: &Point) -> (mode: RenderMode)
        ensures
            mode == render_mode_of(self@, viewer@, *p),
    {
        let visible = match self.visible(viewer) {
            Some(seen) => seen.contains(p),
            None => false,
        };
        if visible {
            RenderMode::Visible
        } else {
            let visited = match self.actors.get(viewer) {
                Some(actor) => actor.visited.contains(p),
                None => false,
            };
            if visited {
                RenderMode::Visited
            } else {
                RenderMode::Hidden
            }
        }
    }

    /// The positions next to `pos` at which an actor stands.
    pub fn actors_around(&self, pos: &Point) -> (found: PointSet)
        ensures
            found@ == actors_next_to(self@.actors, *pos),
    {
        let all = self.actors.values();
        let ghost ids: Seq<u64> = choose|ids: Seq<u64>|
            {
                &&& ids.len() == all@.len()
                &&& ids.no_duplicates()
                &&& ids.to_set() == self.actors@.dom()
                &&& forall|i: int|
                    0 <= i < ids.len() ==> *(#[trigger] all@[i]) == self.actors@[ids[i]]
            };
        let mut found = PointSet::new();
        let mut n: usize = 0;
        while n < all.len()
            invariant
                n <= all@.len(),
                ids.len() == all@.len(),
                ids.to_set() == self.actors@.dom(),
                forall|i: int|
                    0 <= i < ids.len() ==> *(#[trigger] all@[i]) == self.actors@[ids[i]],
                forall|p: Point|
                    found@.contains(p) <==> around(*pos).contains(p) && exists|i: int|
                        0 <= i < n && (#[trigger] all@[i]).pos == p,
            decreases all@.len() - n,
        {
            let at = all[n].pos;
            let dx: i64 = at.x as i64 - pos.x as i64;
            let dy: i64 = at.y as i64 - pos.y as i64;
            let ghost before = found@;
            if -1 <= dx && dx <= 1 && -1 <= dy && dy <= 1 && !(dx == 0 && dy == 0) {
                found.insert(at);
            }
            proof {
                assert forall|p: Point|
                    found@.contains(p) <==> around(*pos).contains(p) && exists|i: int|
                        0 <= i < n + 1 && (#[trigger] all@[i]).pos == p by {
                    if around(*pos).contains(p) && exists|i: int|
                        0 <= i < n + 1 && (#[trigger] all@[i]).pos == p {
                        let i = choose|i: int| 0 <= i < n + 1 && (#[trigger] all@[i]).pos == p;
                        if i < n {
                            assert(before.contains(p));
                        }
                    }
                    if found@.contains(p) {
                        if before.contains(p) {
                            let i = choose|i: int| 0 <= i < n && (#[trigger] all@[i]).pos == p;
                            assert(0 <= i < n + 1 && all@[i].pos == p);
                        } else {
                            assert(all@[n as int].pos == p);
                        }
                    }
                }
            }
            n = n + 1;
        }
        proof {
            assert forall|p: Point| found@.contains(p) <==> actors_next_to(
                self@.actors,
                *pos,
            ).contains(p) by {
                if found@.contains(p) {
                    let i = choose|i: int| 0 <= i < n && (#[trigger] all@[i]).pos == p;
                    assert(ids.to_set().contains(ids[i]));
                    assert(self@.actors.contains_key(ids[i]));
                }
                if actors_next_to(self@.actors, *pos).contains(p) {
                    let id = choose|id: u64| #[trigger]
                        self@.actors.contains_key(id) && self@.actors[id].pos == p;
                    assert(ids.to_set().contains(id));
                    let i = choose|i: int| 0 <= i < ids.len() && ids[i] == id;
                    assert(all@[i].pos == p);
                }
            }
            assert(found@ =~= actors_next_to(self@.actors, *pos));
        }
        found
    }

    /// Highlights the line from `from` to `to`, and nothing else.
    pub fn highlight_line(&mut self, from: &Point, to: &Point)
        ensures
            final(self)@ == (WorldView { highlights: line_set(*from, *to), ..old(self)@ }),
    {
        let line = from.line_to(to);
        let mut points = PointSet::new();
        points.insert_all(&line);
        proof {
            assert(points@ =~= line_set(*from, *to)) by {
                assert forall|p: Point| line@.to_set().contains(p) implies line_set(
                    *from,
                    *to,
                ).contains(p) by {
                    let i = choose|i: int| 0 <= i < line@.len() && line@[i] == p;
                    assert(line@[i] == line_point(*from, *to, i));
                }
                assert forall|p: Point| line_set(*from, *to).contains(p) implies line@.to_set().contains(
                    p,
                ) by {
                    let i = choose|i: int|
                        0 <= i <= line_steps(*from, *to) && line_point(*from, *to, i) == p;
                    assert(line@[i] == line_point(*from, *to, i));
                }
            }
        }
        self.highlights = points;
        assert(self@ =~= (WorldView { highlights: line_set(*from, *to), ..old(self)@ }));
    }

    /// Moves the actor to `pos` and works out what it sees from there.
    pub fn move_actor(&mut self, actor_id: &ActorId, pos: Point)
        ensures
            final(self)@ == old(self)@.moved_to(actor_id@, pos),
    {
        if let Some(actor) = self.actors.get_mut(actor_id) {
            actor.pos = pos;
        } else {
            return ;
        }
        let ghost placed = self@;
        assert(placed =~= (WorldView {
            actors: old(self)@.actors.insert(
                actor_id@,
                ActorView { pos, ..old(self)@.actors[actor_id@] },
            ),
            ..old(self)@
        }));
        self.update_fov(actor_id);
    }

    /// Uses the item on the actor with the handle `target` and says what
    /// has come of it; see [`WorldView::item_used`].
    pub fn use_item(&mut self, item_id: &ItemId, target: &ActorId) -> (result: UseResult)
        ensures
            final(self)@ == old(self)@.item_used(item_id@, target@).0,
            result@ == old(self)@.item_used(item_id@, target@).1,
    {
        let mut item = match self.items.get(item_id) {
            Some(item) => *item,
            None => {
                return UseResult::Cancel;
            },
        };
        let result = item.use_item(self, target);
        match result {
            UseResult::UsedUp => {
                if let Some(owner_id) = item.owner {
                    if let Some(owner) = self.actors.get_mut(&owner_id) {
                        remove_handle(&mut owner.inventory, item_id);
                    }
                }
                self.items.remove(item_id);
                assert(self@ =~= old(self)@.item_used(item_id@, target@).0);
                UseResult::UsedUp
            },
            UseResult::Replace => {
                let _ = self.items.replace(item_id, item);
                assert(self@ =~= old(self)@.item_used(item_id@, target@).0);
                UseResult::Replace
            },
            UseResult::Drop => {
                self.drop_item(item_id);
                UseResult::Drop
            },
            other => other,
        }
    }
}

/// What an actor sees after it has looked around is exactly the square of
/// radius [`FOV_RADIUS`] round its position.
pub proof fn lemma_fov_is_square(w: WorldView, actor: u64)
    requires
        w.actors.contains_key(actor),
    ensures
        w.seen_from(actor).fov[actor] == square(w.actors[actor].pos, FOV_RADIUS as int),
        w.seen_from(actor).actors[actor].visited == w.actors[actor].visited.union(
            square(w.actors[actor].pos, FOV_RADIUS as int),
        ),
{
}

/// After two moves an actor has seen all that it had seen before and the
/// squares round both positions, and it sees the square round the second.
pub proof fn lemma_visited_is_union(w: WorldView, actor: u64, first: Point, second: Point)
    requires
        w.actors.contains_key(actor),
    ensures
        w.moved_to(actor, first).moved_to(actor, second).actors[actor].visited
            == w.actors[actor].visited.union(square(first, FOV_RADIUS as int)).union(
            square(second, FOV_RADIUS as int),
        ),
        w.moved_to(actor, first).moved_to(actor, second).fov[actor] == square(
            second,
            FOV_RADIUS as int,
        ),
        w.moved_to(actor, first).moved_to(actor, second).actors[actor].pos == second,
{
}

/// What an actor has ever seen never gets less: not by looking around, not
/// by moving.
pub proof fn lemma_visited_grows(w: WorldView, actor: u64, pos: Point)
    requires
        w.actors.contains_key(actor),
    ensures
        w.actors[actor].visited.subset_of(w.seen_from(actor).actors[actor].visited),
        w.actors[actor].visited.subset_of(w.moved_to(actor, pos).actors[actor].visited),
{
}

/// An actor who cannot swim cannot step onto shallow water without a water
/// lily; after a potion of swimming was used on it, the same step is a
/// move.
pub proof fn lemma_swimming_potion_opens_shallow_water(
    w: WorldView,
    actor: u64,
    dx: i32,
    dy: i32,
    follow: bool,
)
    requires
        w.actors.contains_key(actor),
        shifted(w.actors[actor].pos, dx as int, dy as int) is Some,
        tile_at(w.terrain, shifted(w.actors[actor].pos, dx as int, dy as int)->0).kind
            == crate::terrain::TerrainKind::ShallowWater,
        tile_at(w.terrain, shifted(w.actors[actor].pos, dx as int, dy as int)->0).feature != Some(
            crate::terrain::TerrainFeature::Waterlily,
        ),
    ensures
        !w.actors[actor].has_skill(crate::skill::SkillKind::Swim) ==> w.move_attempt(
            actor,
            dx,
            dy,
            follow,
        ) is None,
        used(
            w,
            ItemKind::Potion(crate::item::Potion::Swimming),
            actor,
        ).world.move_attempt(actor, dx, dy, follow) is Some,
{
    let after = used(w, ItemKind::Potion(crate::item::Potion::Swimming), actor).world;
    let skills = after.actors[actor].skills;
    assert(skills[skills.len() - 1].kind == crate::skill::SkillKind::Swim);
}

} // verus!
