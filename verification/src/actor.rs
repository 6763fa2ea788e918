//! Actors: the player and everyone else who walks the map.

use vstd::prelude::*;
use vstd::std_specs::convert::FromSpecImpl;
use vstd::string::*;

use crate::idmap::{Id, IdMap};
use crate::item::ItemId;
use crate::point::Point;
use crate::pointset::PointSet;
use crate::skill::{Skill, SkillKind};

verus! {

/// The handle of an actor.
pub type ActorId = Id<Actor>;

/// The registry of the actors.
pub type ActorMap = IdMap<Actor>;

/// The handles of the items that an actor carries, in the order in which
/// they were picked up.
pub type Inventory = Vec<ItemId>;

/// A value with an upper end, such as health.
#[derive(Debug, Clone, Copy, PartialEq, Eq, Structural)]
pub struct Attribute {
    pub value: u16,
    pub max: u16,
}

impl From<(u16, u16)> for Attribute {
    fn from(value_max: (u16, u16)) -> (a: Attribute) {
        Attribute { value: value_max.0, max: value_max.1 }
    }
}

impl FromSpecImpl<(u16, u16)> for Attribute {
    open spec fn obeys_from_spec() -> bool {
        true
    }

    open spec fn from_spec(value_max: (u16, u16)) -> Attribute {
        Attribute { value: value_max.0, max: value_max.1 }
    }
}

impl From<u16> for Attribute {
    fn from(value: u16) -> (a: Attribute) {
        Attribute { value, max: value }
    }
}

impl FromSpecImpl<u16> for Attribute {
    open spec fn obeys_from_spec() -> bool {
        true
    }

    open spec fn from_spec(value: u16) -> Attribute {
        Attribute { value, max: value }
    }
}

/// What kind of being an actor is.
#[derive(Debug, Clone, Copy, PartialEq, Eq, Structural)]
pub enum ActorKind {
    Player,
    Cat,
    Dog,
    Townsfolk,
    Shopkeeper,
}

/// How an actor without a player behaves.
#[derive(Debug, Clone, Copy, PartialEq, Eq, Structural)]
pub enum ActorAI {
    DoNothing,
    WanderAround,
}

/// Someone who walks the map.
#[derive(Debug, Clone)]
pub struct Actor {
    pub kind: ActorKind,
    pub pos: Point,
    pub health: Attribute,
    pub coins: u16,
    pub ai: ActorAI,
    pub inventory: Inventory,
    /// Every position that the actor has ever seen.
    pub visited: PointSet,
    pub skills: Vec<Skill>,
}

/// What an [`Actor`] is: its fields, with handles as numbers and the
/// collections as sequences and sets.
#[verifier::ext_equal]
pub struct ActorView {
    pub kind: ActorKind,
    pub pos: Point,
    pub health: Attribute,
    pub coins: u16,
    pub ai: ActorAI,
    pub inventory: Seq<u64>,
    pub visited: Set<Point>,
    pub skills: Seq<Skill>,
}

impl View for Actor {
    type V = ActorView;

    open spec fn view(&self) -> ActorView {
        ActorView {
            kind: self.kind,
            pos: self.pos,
            health: self.health,
            coins: self.coins,
            ai: self.ai,
            inventory: self.inventory@.map_values(|id: ItemId| id@),
            visited: self.visited@,
            skills: self.skills@,
        }
    }
}

/// Whether one of `skills` is of the given kind.
pub open spec fn has_skill_of(skills: Seq<Skill>, kind: SkillKind) -> bool {
    exists|i: int| 0 <= i < skills.len() && (#[trigger] skills[i]).kind == kind
}

/// How an actor of the given kind is called.
pub open spec fn actor_name(kind: ActorKind) -> Seq<char> {
    match kind {
        ActorKind::Player => "player"@,
        ActorKind::Cat => "a cat"@,
        ActorKind::Dog => "a dog"@,
        ActorKind::Townsfolk => "a villager"@,
        ActorKind::Shopkeeper => "a shopkeeper"@,
    }
}

/// The place of an actor's picture among the actor pictures.
pub open spec fn spec_actor_index(kind: ActorKind) -> usize {
    match kind {
        ActorKind::Player => 2,
        ActorKind::Townsfolk => 3,
        ActorKind::Shopkeeper => 0,
        _ => 1,
    }
}

impl ActorView {
    /// Whether the actor is not the player.
    pub open spec fn is_npc(self) -> bool {
        self.kind != ActorKind::Player
    }

    /// Whether the actor has a skill of the given kind.
    pub open spec fn has_skill(self, kind: SkillKind) -> bool {
        has_skill_of(self.skills, kind)
    }
}

impl Actor {
    /// A new actor that wanders around, with no coins, items, skills or
    /// memory of places.
    pub fn new<P: Into<Point>, A: Into<Attribute>>(kind: ActorKind, pos: P, health: A) -> (a:
        Actor)
        ensures
            a@.kind == kind,
            call_ensures(P::into, (pos,), a@.pos),
            call_ensures(A::into, (health,), a@.health),
            a@.ai == ActorAI::WanderAround,
            a@.coins == 0,
            a@.inventory == Seq::<u64>::empty(),
            a@.visited == Set::<Point>::empty(),
            a@.skills == Seq::<Skill>::empty(),
    {
        let a = Actor {
            kind,
            pos: pos.into(),
            ai: ActorAI::WanderAround,
            health: health.into(),
            coins: 0,
            inventory: Vec::new(),
            visited: PointSet::new(),
            skills: Vec::new(),
        };
        assert(a@.inventory =~= Seq::<u64>::empty());
        a
    }

    /// The same actor with the behaviour `ai`.
    pub fn with_ai(self, ai: ActorAI) -> (a: Actor)
        ensures
            a@ == (ActorView { ai, ..self@ }),
    {
        let mut a = self;
        a.ai = ai;
        a
    }

    /// Whether the actor is not the player.
    pub fn is_npc(&self) -> (b: bool)
        ensures
            b == self@.is_npc(),
    {
        match self.kind {
            ActorKind::Player => false,
            _ => true,
        }
    }

    /// Whether the actor has a skill of the given kind.
    pub fn has_skill(&self, kind: &SkillKind) -> (b: bool)
        ensures
            b == self@.has_skill(*kind),
    {
        let mut n: usize = 0;
        while n < self.skills.len()
            invariant
                n <= self.skills@.len(),
                forall|i: int| 0 <= i < n ==> (#[trigger] self.skills@[i]).kind != *kind,
            decreases self.skills@.len() - n,
        {
            if self.skills[n].kind == *kind {
                return true;
            }
            n = n + 1;
        }
        false
    }

    /// How the actor is called.
    pub fn description(&self) -> (text: String)
        ensures
            text@ == actor_name(self.kind),
    {
        match self.kind {
            ActorKind::Player => String::from_str("player"),
            ActorKind::Cat => String::from_str("a cat"),
            ActorKind::Dog => String::from_str("a dog"),
            ActorKind::Townsfolk => String::from_str("a villager"),
            ActorKind::Shopkeeper => String::from_str("a shopkeeper"),
        }
    }
}

/// The place of the actor's picture among the actor pictures.
pub fn actor_index(actor: &Actor) -> (index: usize)
    ensures
        index == spec_actor_index(actor.kind),
{
    match actor.kind {
        ActorKind::Player => 2,
        ActorKind::Townsfolk => 3,
        ActorKind::Shopkeeper => 0,
        _ => 1,
    }
}

} // verus!
