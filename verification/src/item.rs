//! Items: what lies on the ground or is carried.
//!
//! An item is meant to be either on the ground, with a position and no
//! owner, or held, with an owner and no position. Nothing here enforces
//! that; whoever changes an item keeps it so.

use vstd::prelude::*;
use vstd::string::*;

use crate::actor::{ActorId, ActorView, Attribute};
use crate::idmap::{Id, IdMap};
use crate::message::{pushed, Message, MessageKind, MessageView};
use crate::point::Point;
use crate::pointset::PointSet;
use crate::skill::{Skill, SkillDuration, SkillKind};
use crate::terrain::{DoorState, Terrain, TerrainKind, TerrainMap};
use crate::text::{decimal, decimal_string};
use crate::world::{World, WorldView};

verus! {

/// The handle of an item.
pub type ItemId = Id<Item>;

/// The registry of the items.
pub type ItemMap = IdMap<Item>;

/// What a potion does; an empty one does nothing.
#[derive(Debug, Clone, Copy, PartialEq, Eq, Structural)]
pub enum Potion {
    Empty,
    Vision,
    Healing,
    Swimming,
}

/// What kind of thing an item is.
#[derive(Debug, Clone, Copy, PartialEq, Eq, Structural)]
pub enum ItemKind {
    Money(u16),
    Wand,
    Ore,
    Gold,
    Potion(Potion),
    Bread,
    Barrel,
    Key,
}

/// A thing that lies on the ground or is carried.
#[derive(Debug, Clone, Copy)]
pub struct Item {
    pub kind: ItemKind,
    /// Where the item lies, if it lies on the ground.
    pub pos: Option<Point>,
    /// Who holds the item, if it is held.
    pub owner: Option<ActorId>,
}

/// What an [`Item`] is: its fields, with the owner's handle as a number.
pub struct ItemView {
    pub kind: ItemKind,
    pub pos: Option<Point>,
    pub owner: Option<u64>,
}

impl View for Item {
    type V = ItemView;

    open spec fn view(&self) -> ItemView {
        ItemView {
            kind: self.kind,
            pos: self.pos,
            owner: match self.owner {
                Some(id) => Some(id@),
                None => None,
            },
        }
    }
}

/// What comes of using an item.
#[derive(Debug)]
pub enum UseResult {
    /// The item is gone.
    UsedUp,
    /// The item has changed.
    Replace,
    /// The item falls to the ground.
    Drop,
    /// The item needs a target, to be chosen among `positions`.
    Select { positions: PointSet },
    /// Nothing has happened.
    Cancel,
}

/// What a [`UseResult`] says, with the positions as a set.
#[verifier::ext_equal]
pub enum UseResultView {
    UsedUp,
    Replace,
    Drop,
    Select { positions: Set<Point> },
    Cancel,
}

impl View for UseResult {
    type V = UseResultView;

    open spec fn view(&self) -> UseResultView {
        match self {
            UseResult::UsedUp => UseResultView::UsedUp,
            UseResult::Replace => UseResultView::Replace,
            UseResult::Drop => UseResultView::Drop,
            UseResult::Select { positions } => UseResultView::Select { positions: positions@ },
            UseResult::Cancel => UseResultView::Cancel,
        }
    }
}

/// How an item of the given kind is called.
pub open spec fn item_name(kind: ItemKind) -> Seq<char> {
    match kind {
        ItemKind::Wand => "a magical wand"@,
        ItemKind::Ore => "a chunk of ore"@,
        ItemKind::Gold => "a chunk of gold"@,
        ItemKind::Bread => "a loaf of bread"@,
        ItemKind::Money(x) => decimal(x as nat) + " coins of gold"@,
        ItemKind::Potion(Potion::Empty) => "an empty potion"@,
        ItemKind::Potion(Potion::Healing) => "a potion of healing"@,
        ItemKind::Potion(Potion::Swimming) => "a potion of swimming"@,
        ItemKind::Potion(Potion::Vision) => "a potion of vision"@,
        ItemKind::Barrel => "a wooden barrel"@,
        ItemKind::Key => "a metal key"@,
    }
}

/// The place of an item's picture among the item pictures.
pub open spec fn spec_item_index(kind: ItemKind) -> usize {
    match kind {
        ItemKind::Ore => 0,
        ItemKind::Gold => 1,
        ItemKind::Wand => 2,
        ItemKind::Bread => 3,
        ItemKind::Money(x) => if x > 50 {
            13
        } else if x < 50 {
            12
        } else {
            10
        },
        ItemKind::Barrel => 20,
        ItemKind::Potion(Potion::Healing) => 71,
        ItemKind::Potion(Potion::Swimming) => 72,
        ItemKind::Potion(Potion::Vision) => 73,
        ItemKind::Potion(Potion::Empty) => 75,
        ItemKind::Key => 91,
    }
}

/// How much health a potion of healing gives.
pub const HEALING: u16 = 3;

/// How far a potion of vision lets its drinker see.
pub const VISION_RADIUS: i32 = 3;

/// A message about what an actor can do.
pub open spec fn skill_message(text: Seq<char>) -> MessageView {
    MessageView { kind: MessageKind::Skill, text, no_repeat: false }
}

/// A plain message.
pub open spec fn info_message(text: Seq<char>) -> MessageView {
    MessageView { kind: MessageKind::Info, text, no_repeat: false }
}

/// Health after a potion of healing: [`HEALING`] more, but no more than
/// the most there can be.
pub open spec fn healed(health: Attribute) -> Attribute {
    Attribute {
        value: if health.value + HEALING <= health.max {
            (health.value + HEALING) as u16
        } else {
            health.max
        },
        max: health.max,
    }
}

/// The eight positions next to `pos`.
pub open spec fn around(pos: Point) -> Set<Point> {
    Set::new(
        |p: Point| p != pos && pos.x - 1 <= p.x <= pos.x + 1 && pos.y - 1 <= p.y <= pos.y + 1,
    )
}

/// Whether a locked door stands at `p`.
pub open spec fn is_locked_door(terrain: Map<Point, Terrain>, p: Point) -> bool {
    terrain.contains_key(p) && terrain[p].kind == TerrainKind::Door(DoorState::Locked)
}

/// The positions next to `pos` at which a locked door stands.
pub open spec fn locked_doors_around(terrain: Map<Point, Terrain>, pos: Point) -> Set<Point> {
    Set::new(|p: Point| around(pos).contains(p) && is_locked_door(terrain, p))
}

/// The actors after the one with the handle `target`, if there is one, was
/// given a lasting skill of the given kind.
pub open spec fn with_skill(actors: Map<u64, ActorView>, target: u64, kind: SkillKind) -> Map<
    u64,
    ActorView,
> {
    if actors.contains_key(target) {
        let a = actors[target];
        actors.insert(
            target,
            ActorView {
                skills: a.skills.push(Skill { kind, duration: SkillDuration::Permanent }),
                ..a
            },
        )
    } else {
        actors
    }
}

/// What comes of using an item: the world and the item's kind afterwards,
/// and the result for the caller.
pub struct UseOutcome {
    pub world: WorldView,
    pub kind: ItemKind,
    pub result: UseResultView,
}

/// What comes of using an item of the given kind on the actor with the
/// handle `target`.
pub open spec fn used(w: WorldView, kind: ItemKind, target: u64) -> UseOutcome {
    match kind {
        ItemKind::Potion(Potion::Healing) => UseOutcome {
            world: WorldView {
                actors: if w.actors.contains_key(target) {
                    let a = w.actors[target];
                    w.actors.insert(target, ActorView { health: healed(a.health), ..a })
                } else {
                    w.actors
                },
                messages: pushed(
                    w.messages,
                    skill_message("You drink the potion and feel much better."@),
                ),
                ..w
            },
            kind: ItemKind::Potion(Potion::Empty),
            result: UseResultView::Replace,
        },
        ItemKind::Potion(Potion::Vision) => UseOutcome {
            world: (WorldView {
                actors: with_skill(
                    w.actors,
                    target,
                    SkillKind::Vision { radius: VISION_RADIUS },
                ),
                messages: pushed(
                    w.messages,
                    skill_message("You drink the potion and you see things much clearer."@),
                ),
                ..w
            }).seen_from(target),
            kind: ItemKind::Potion(Potion::Empty),
            result: UseResultView::Replace,
        },
        ItemKind::Potion(Potion::Swimming) => UseOutcome {
            world: WorldView {
                actors: with_skill(w.actors, target, SkillKind::Swim),
                messages: pushed(
                    w.messages,
                    skill_message("You drink the potion and you feel able to swim."@),
                ),
                ..w
            },
            kind: ItemKind::Potion(Potion::Empty),
            result: UseResultView::Replace,
        },
        ItemKind::Potion(Potion::Empty) => UseOutcome {
            world: WorldView {
                messages: pushed(
                    w.messages,
                    info_message("Not much use for an empty bottle. Away with it!"@),
                ),
                ..w
            },
            kind,
            result: UseResultView::UsedUp,
        },
        ItemKind::Key => if !w.actors.contains_key(w.player) {
            UseOutcome { world: w, kind, result: UseResultView::Cancel }
        } else {
            let doors = locked_doors_around(w.terrain, w.actors[w.player].pos);
            if doors == Set::<Point>::empty() {
                UseOutcome {
                    world: WorldView {
                        messages: pushed(
                            w.messages,
                            info_message("There is nothing to unlock around you"@),
                        ),
                        ..w
                    },
                    kind,
                    result: UseResultView::Cancel,
                }
            } else {
                UseOutcome { world: w, kind, result: UseResultView::Select { positions: doors } }
            }
        },
        _ => UseOutcome { world: w, kind, result: UseResultView::Cancel },
    }
}

/// The world after a key was used on the door at `pos`: a door that was
/// not open is open now, and the player is told; of a door that was open
/// the player is told that it was. Where the item is missing or no key,
/// the target is missing, or no door stands at `pos`, nothing happens.
pub open spec fn unlocked(w: WorldView, item: u64, target: u64, pos: Point) -> WorldView {
    if !w.items.contains_key(item) || !w.actors.contains_key(target) || w.items[item].kind
        != ItemKind::Key || !w.terrain.contains_key(pos) {
        w
    } else {
        let tile = w.terrain[pos];
        match tile.kind {
            TerrainKind::Door(DoorState::Open) => WorldView {
                messages: pushed(
                    w.messages,
                    info_message("The door is already open, no need to unlock anything."@),
                ),
                ..w
            },
            TerrainKind::Door(_) => WorldView {
                terrain: w.terrain.insert(
                    pos,
                    Terrain { kind: TerrainKind::Door(DoorState::Open), feature: tile.feature },
                ),
                messages: pushed(w.messages, info_message("You unlock the door"@)),
                ..w
            },
            _ => w,
        }
    }
}

/// Adds `p` to `doors` where it is a position with a locked door.
fn note_locked_door(terrain: &TerrainMap, doors: &mut PointSet, p: Option<Point>)
    ensures
        final(doors)@ == match p {
            Some(q) => if is_locked_door(terrain@, q) {
                old(doors)@.insert(q)
            } else {
                old(doors)@
            },
            None => old(doors)@,
        },
{
    if let Some(q) = p {
        let locked = match terrain.get(&q) {
            Some(tile) => match tile.kind {
                TerrainKind::Door(DoorState::Locked) => true,
                _ => false,
            },
            None => false,
        };
        if locked {
            doors.insert(q);
        }
    }
}

/// The positions next to `pos` at which a locked door stands.
pub fn find_locked_doors(terrain: &TerrainMap, pos: &Point) -> (doors: PointSet)
    ensures
        doors@ == locked_doors_around(terrain@, *pos),
{
    let mut doors = PointSet::new();
    note_locked_door(terrain, &mut doors, pos.checked_offset(-1, -1));
    note_locked_door(terrain, &mut doors, pos.checked_offset(-1, 0));
    note_locked_door(terrain, &mut doors, pos.checked_offset(-1, 1));
    note_locked_door(terrain, &mut doors, pos.checked_offset(0, -1));
    note_locked_door(terrain, &mut doors, pos.checked_offset(0, 1));
    note_locked_door(terrain, &mut doors, pos.checked_offset(1, -1));
    note_locked_door(terrain, &mut doors, pos.checked_offset(1, 0));
    note_locked_door(terrain, &mut doors, pos.checked_offset(1, 1));
    assert(doors@ =~= locked_doors_around(terrain@, *pos));
    doors
}

impl ItemKind {
    /// How the item is called.
    pub fn description(&self) -> (text: String)
        ensures
            text@ == item_name(*self),
    {
        match self {
            ItemKind::Wand => String::from_str("a magical wand"),
            ItemKind::Ore => String::from_str("a chunk of ore"),
            ItemKind::Gold => String::from_str("a chunk of gold"),
            ItemKind::Bread => String::from_str("a loaf of bread"),
            ItemKind::Money(x) => {
                let mut text = decimal_string(*x as u64);
                text.append(" coins of gold");
                text
            },
            ItemKind::Potion(Potion::Empty) => String::from_str("an empty potion"),
            ItemKind::Potion(Potion::Healing) => String::from_str("a potion of healing"),
            ItemKind::Potion(Potion::Swimming) => String::from_str("a potion of swimming"),
            ItemKind::Potion(Potion::Vision) => String::from_str("a potion of vision"),
            ItemKind::Barrel => String::from_str("a wooden barrel"),
            ItemKind::Key => String::from_str("a metal key"),
        }
    }
}

impl Item {
    /// An item that is nowhere and belongs to nobody.
    pub fn new(kind: ItemKind) -> (item: Item)
        ensures
            item@ == (ItemView { kind, pos: None, owner: None }),
    {
        Item { kind, pos: None, owner: None }
    }

    /// The same item, lying at `pos`.
    pub fn with_pos<P: Into<Point>>(self, pos: P) -> (item: Item)
        ensures
            item@.kind == self@.kind,
            item@.owner == self@.owner,
            item@.pos is Some,
            call_ensures(P::into, (pos,), item@.pos->0),
    {
        Item { kind: self.kind, pos: Some(pos.into()), owner: self.owner }
    }

    /// The same item, held by `owner`.
    pub fn with_owner(self, owner: ActorId) -> (item: Item)
        ensures
            item@ == (ItemView { owner: Some(owner@), ..self@ }),
    {
        Item { kind: self.kind, pos: self.pos, owner: Some(owner) }
    }

    /// How the item is called.
    pub fn description(&self) -> (text: String)
        ensures
            text@ == item_name(self.kind),
    {
        self.kind.description()
    }
    /// Uses a key on the door at `pos`: a door that was not open is open
    /// afterwards, and the player is told so; of an open door the player is
    /// told that it was open. Nothing happens where the item is no key, or
    /// where no door stands at `pos`.
    pub fn use_item_on(world: &mut World, item_id: &ItemId, target: &ActorId, pos: &Point)
        ensures
            final(world)@ == unlocked(old(world)@, item_id@, target@, *pos),
    {
        let is_key = match world.items.get(item_id) {
            Some(item) => match item.kind {
                ItemKind::Key => true,
                _ => false,
            },
            None => false,
        };
        if !is_key || !world.actors.contains(target) {
            return ;
        }
        let mut told: Option<Message> = None;
        if let Some(tile) = world.terrain.get_mut(pos) {
            match tile.kind {
                TerrainKind::Door(DoorState::Open) => {
                    told = Some(
                        Message::new(
                            MessageKind::Info,
                            "The door is already open, no need to unlock anything.",
                            false,
                        ),
                    );
                },
                TerrainKind::Door(_) => {
                    tile.kind = TerrainKind::Door(DoorState::Open);
                    told = Some(Message::new(MessageKind::Info, "You unlock the door", false));
                },
                _ => {},
            }
        }
        if let Some(message) = told {
            world.messages.push(message);
        }
        assert(world@ =~= unlocked(old(world)@, item_id@, target@, *pos));
    }

    /// Uses the item on the actor with the handle `target`, and says what
    /// has come of it: see [`used`].
    pub fn use_item(&mut self, world: &mut World, target: &ActorId) -> (result: UseResult)
        ensures
            final(world)@ == used(old(world)@, old(self).kind, target@).world,
            final(self).kind == used(old(world)@, old(self).kind, target@).kind,
            result@ == used(old(world)@, old(self).kind, target@).result,
            final(self).pos == old(self).pos,
            final(self).owner == old(self).owner,
    {
        match self.kind {
            ItemKind::Potion(Potion::Healing) => {
                world.messages.push(
                    Message::new(
                        MessageKind::Skill,
                        "You drink the potion and feel much better.",
                        false,
                    ),
                );
                if let Some(actor) = world.actors.get_mut(target) {
                    let room = if actor.health.value <= actor.health.max {
                        actor.health.max - actor.health.value
                    } else {
                        0
                    };
                    if room >= HEALING {
                        actor.health.value = actor.health.value + HEALING;
                    } else {
                        actor.health.value = actor.health.max;
                    }
                }
                self.kind = ItemKind::Potion(Potion::Empty);
                assert(world@ =~= used(old(world)@, old(self).kind, target@).world);
                UseResult::Replace
            },
            ItemKind::Potion(Potion::Vision) => {
                if let Some(actor) = world.actors.get_mut(target) {
                    actor.skills.push(Skill::new(SkillKind::Vision { radius: VISION_RADIUS }));
                }
                world.messages.push(
                    Message::new(
                        MessageKind::Skill,
                        "You drink the potion and you see things much clearer.",
                        false,
                    ),
                );
                let ghost granted = world@;
                assert(granted =~= (WorldView {
                    actors: with_skill(
                        old(world)@.actors,
                        target@,
                        SkillKind::Vision { radius: VISION_RADIUS },
                    ),
                    messages: pushed(
                        old(world)@.messages,
                        skill_message("You drink the potion and you see things much clearer."@),
                    ),
                    ..old(world)@
                }));
                world.update_fov(target);
                self.kind = ItemKind::Potion(Potion::Empty);
                UseResult::Replace
            },
            ItemKind::Potion(Potion::Empty) => {
                world.messages.push(
                    Message::new(
                        MessageKind::Info,
                        "Not much use for an empty bottle. Away with it!",
                        false,
                    ),
                );
                assert(world@ =~= used(old(world)@, old(self).kind, target@).world);
                UseResult::UsedUp
            },
            ItemKind::Potion(Potion::Swimming) => {
                if let Some(actor) = world.actors.get_mut(target) {
                    actor.skills.push(Skill::new(SkillKind::Swim));
                }
                world.messages.push(
                    Message::new(
                        MessageKind::Skill,
                        "You drink the potion and you feel able to swim.",
                        false,
                    ),
                );
                self.kind = ItemKind::Potion(Potion::Empty);
                assert(world@ =~= used(old(world)@, old(self).kind, target@).world);
                UseResult::Replace
            },
            ItemKind::Key => {
                let player_id = world.player_id();
                let pos = match world.actors.get(&player_id) {
                    Some(player) => player.pos,
                    None => {
                        return UseResult::Cancel;
                    },
                };
                let doors = find_locked_doors(&world.terrain, &pos);
                if doors.is_empty() {
                    world.messages.push(
                        Message::new(
                            MessageKind::Info,
                            "There is nothing to unlock around you",
                            false,
                        ),
                    );
                    assert(world@ =~= used(old(world)@, old(self).kind, target@).world);
                    UseResult::Cancel
                } else {
                    UseResult::Select { positions: doors }
                }
            },
            _ => UseResult::Cancel,
        }
    }
}

/// The place of the item's picture among the item pictures.
pub fn item_index(item: &Item) -> (index: usize)
    ensures
        index == spec_item_index(item.kind),
{
    match item.kind {
        ItemKind::Ore => 0,
        ItemKind::Gold => 1,
        ItemKind::Wand => 2,
        ItemKind::Bread => 3,
        ItemKind::Money(x) => if x > 50 {
            13
        } else if x < 50 {
            12
        } else {
            10
        },
        ItemKind::Barrel => 20,
        ItemKind::Potion(Potion::Healing) => 71,
        ItemKind::Potion(Potion::Swimming) => 72,
        ItemKind::Potion(Potion::Vision) => 73,
        ItemKind::Potion(Potion::Empty) => 75,
        ItemKind::Key => 91,
    }
}

} // verus!
