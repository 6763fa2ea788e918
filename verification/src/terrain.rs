//! The ground: each tile has a kind and may carry a feature.
//!
//! Whether a tile can be entered is decided by [`Terrain::access`], a list
//! of rules of which the first that applies wins.

use vstd::prelude::*;
use vstd::std_specs::convert::FromSpecImpl;

use crate::chance::random_below;
use crate::message::{Message, MessageKind, MessageView};
use crate::pointset::PointMap;
use crate::skill::SkillKind;

verus! {

/// Which way a bridge runs.
#[derive(Debug, Clone, Copy, PartialEq, Eq, Structural)]
pub enum Orientation {
    Horizontal,
    Vertical,
}

/// Whether a door is open, closed, or closed and locked.
#[derive(Debug, Clone, Copy, PartialEq, Eq, Structural)]
pub enum DoorState {
    Open,
    Closed,
    Locked,
}

/// What the ground of a tile is.
#[derive(Debug, Clone, Copy, PartialEq, Eq, Structural)]
pub enum TerrainKind {
    Empty,
    Grass,
    ThickGrass,
    Hedge,
    Wall,
    Water,
    ShallowWater,
    Window,
    StoneFloor,
    Path,
    Door(DoorState),
    Bridge(Orientation),
}

/// What stands or grows on a tile.
#[derive(Debug, Clone, Copy, PartialEq, Eq, Structural)]
pub enum TerrainFeature {
    Mushroom,
    Flower(u8),
    Waterlily,
    Stones,
    Fountain,
}

/// The ground of one tile and what is on it.
#[derive(Debug, Clone, Copy, PartialEq, Eq, Structural)]
pub struct Terrain {
    pub kind: TerrainKind,
    pub feature: Option<TerrainFeature>,
}

/// The terrain of the whole map; a position without an entry is empty
/// ground.
pub type TerrainMap = PointMap<Terrain>;

/// What it takes to enter a tile.
#[derive(Debug)]
pub enum TerrainAccess {
    Allowed,
    Blocked,
    BlockedWithMessage(Message),
    RequireSkill(SkillKind),
}

/// What a [`TerrainAccess`] says, with the message's text as a sequence of
/// characters.
#[verifier::ext_equal]
pub enum AccessView {
    Allowed,
    Blocked,
    BlockedWithMessage(MessageView),
    RequireSkill(SkillKind),
}

impl View for TerrainAccess {
    type V = AccessView;

    open spec fn view(&self) -> AccessView {
        match self {
            TerrainAccess::Allowed => AccessView::Allowed,
            TerrainAccess::Blocked => AccessView::Blocked,
            TerrainAccess::BlockedWithMessage(m) => AccessView::BlockedWithMessage(m@),
            TerrainAccess::RequireSkill(k) => AccessView::RequireSkill(*k),
        }
    }
}

/// The message for a tile that cannot be entered, with the given text.
pub open spec fn blocked_message(text: Seq<char>) -> MessageView {
    MessageView { kind: MessageKind::Info, text, no_repeat: false }
}

/// The number of different flowers.
pub const FLOWER_KINDS: usize = 7;

/// The decoration that suits `kind`, where `roll` picks the flower.
pub open spec fn decor_for(kind: TerrainKind, roll: u8) -> Option<TerrainFeature> {
    match kind {
        TerrainKind::Grass => Some(TerrainFeature::Flower(roll)),
        TerrainKind::ShallowWater => Some(TerrainFeature::Waterlily),
        _ => None,
    }
}

impl TerrainKind {
    /// The decoration that suits this kind of terrain, where `roll` picks
    /// the flower.
    pub fn decor_with(&self, roll: u8) -> (r: Option<TerrainFeature>)
        ensures
            r == decor_for(*self, roll),
    {
        match self {
            TerrainKind::Grass => Some(TerrainFeature::Flower(roll)),
            TerrainKind::ShallowWater => Some(TerrainFeature::Waterlily),
            _ => None,
        }
    }

    /// A decoration that suits this kind of terrain, with a flower picked
    /// at random among the [`FLOWER_KINDS`].
    pub fn random_decor(&self) -> (r: Option<TerrainFeature>)
        ensures
            exists|roll: u8| roll < FLOWER_KINDS && r == #[trigger] decor_for(*self, roll),
    {
        let roll = random_below(FLOWER_KINDS) as u8;
        self.decor_with(roll)
    }
}

impl Terrain {
    /// The access rules; the first that applies decides.
    pub open spec fn spec_access(self) -> AccessView {
        match (self.kind, self.feature) {
            (TerrainKind::ShallowWater, Some(TerrainFeature::Waterlily)) => AccessView::Allowed,
            (TerrainKind::ShallowWater, _) => AccessView::RequireSkill(SkillKind::Swim),
            (TerrainKind::Hedge, _) => AccessView::Blocked,
            (TerrainKind::Wall, _) => AccessView::Blocked,
            (TerrainKind::Water, _) => AccessView::Blocked,
            (TerrainKind::Window, _) => AccessView::Blocked,
            (TerrainKind::Door(DoorState::Locked), _) => AccessView::BlockedWithMessage(
                blocked_message("The door is locked!"@),
            ),
            (_, Some(TerrainFeature::Fountain)) => AccessView::BlockedWithMessage(
                blocked_message("The fountain is in your way."@),
            ),
            _ => AccessView::Allowed,
        }
    }

    /// Whether the tile cannot be entered without more ado.
    pub open spec fn spec_is_blocking(self) -> bool {
        !(self.spec_access() is Allowed)
    }

    /// Empty ground.
    pub open spec fn spec_empty() -> Terrain {
        Terrain { kind: TerrainKind::Empty, feature: None }
    }

    /// Empty ground.
    pub fn empty() -> (t: Terrain)
        ensures
            t == Terrain::spec_empty(),
    {
        Terrain { kind: TerrainKind::Empty, feature: None }
    }

    /// The same terrain with `feature` on it.
    pub fn with(self, feature: TerrainFeature) -> (t: Terrain)
        ensures
            t == (Terrain { kind: self.kind, feature: Some(feature) }),
    {
        Terrain { kind: self.kind, feature: Some(feature) }
    }

    /// Puts `decor` on the tile, if there is any.
    pub fn set_decor(&mut self, decor: Option<TerrainFeature>)
        ensures
            final(self).kind == old(self).kind,
            final(self).feature == if decor is Some {
                decor
            } else {
                old(self).feature
            },
    {
        match decor {
            Some(feature) => {
                self.feature = Some(feature);
            },
            None => {},
        }
    }

    /// Puts a random decoration that suits the kind of terrain on the tile;
    /// a tile of a kind that has none is left as it is.
    pub fn set_random_decor(&mut self)
        ensures
            final(self).kind == old(self).kind,
            exists|roll: u8|
                roll < FLOWER_KINDS && final(self).feature == if (#[trigger] decor_for(
                    old(self).kind,
                    roll,
                )) is Some {
                    decor_for(old(self).kind, roll)
                } else {
                    old(self).feature
                },
    {
        let decor = self.kind.random_decor();
        self.set_decor(decor);
    }

    /// Whether the tile cannot be entered without more ado: its access is
    /// anything but allowed.
    pub fn is_blocking(&self) -> (b: bool)
        ensures
            b == self.spec_is_blocking(),
    {
        match (self.kind, self.feature) {
            (TerrainKind::ShallowWater, Some(TerrainFeature::Waterlily)) => false,
            (TerrainKind::ShallowWater, _) => true,
            (TerrainKind::Hedge, _) => true,
            (TerrainKind::Wall, _) => true,
            (TerrainKind::Water, _) => true,
            (TerrainKind::Window, _) => true,
            (TerrainKind::Door(DoorState::Locked), _) => true,
            (_, Some(TerrainFeature::Fountain)) => true,
            _ => false,
        }
    }

    /// What it takes to enter this tile.
    pub fn access(&self) -> (a: TerrainAccess)
        ensures
            a@ == self.spec_access(),
    {
        match (self.kind, self.feature) {
            (TerrainKind::ShallowWater, Some(TerrainFeature::Waterlily)) => TerrainAccess::Allowed,
            (TerrainKind::ShallowWater, _) => TerrainAccess::RequireSkill(SkillKind::Swim),
            (TerrainKind::Hedge, _) => TerrainAccess::Blocked,
            (TerrainKind::Wall, _) => TerrainAccess::Blocked,
            (TerrainKind::Water, _) => TerrainAccess::Blocked,
            (TerrainKind::Window, _) => TerrainAccess::Blocked,
            (TerrainKind::Door(DoorState::Locked), _) => TerrainAccess::BlockedWithMessage(
                Message::new(MessageKind::Info, "The door is locked!", false),
            ),
            (_, Some(TerrainFeature::Fountain)) => TerrainAccess::BlockedWithMessage(
                Message::new(MessageKind::Info, "The fountain is in your way.", false),
            ),
            _ => TerrainAccess::Allowed,
        }
    }
}

impl From<TerrainKind> for Terrain {
    fn from(kind: TerrainKind) -> (t: Terrain) {
        Terrain { kind, feature: None }
    }
}

impl FromSpecImpl<TerrainKind> for Terrain {
    open spec fn obeys_from_spec() -> bool {
        true
    }

    open spec fn from_spec(kind: TerrainKind) -> Terrain {
        Terrain { kind, feature: None }
    }
}

/// The place of a tile's picture among the terrain pictures.
pub open spec fn spec_terrain_index(kind: TerrainKind) -> usize {
    match kind {
        TerrainKind::Grass => 1,
        TerrainKind::Path => 2,
        TerrainKind::Water => 3,
        TerrainKind::Wall => 4,
        TerrainKind::Hedge => 6,
        TerrainKind::ThickGrass => 10,
        TerrainKind::StoneFloor => 11,
        TerrainKind::ShallowWater => 12,
        TerrainKind::Door(_) => 14,
        TerrainKind::Window => 15,
        TerrainKind::Bridge(Orientation::Vertical) => 16,
        TerrainKind::Bridge(Orientation::Horizontal) => 17,
        TerrainKind::Empty => 0,
    }
}

/// The place of a feature's picture among the feature pictures.
pub open spec fn spec_feature_index(feature: TerrainFeature) -> usize {
    match feature {
        TerrainFeature::Mushroom => 20,
        TerrainFeature::Flower(n) => (40 + n % 4) as usize,
        TerrainFeature::Stones => 10,
        TerrainFeature::Waterlily => 30,
        TerrainFeature::Fountain => 1,
    }
}

/// The place of a tile's picture among the terrain pictures.
pub fn terrain_index(tile: &Terrain) -> (index: usize)
    ensures
        index == spec_terrain_index(tile.kind),
{
    match tile.kind {
        TerrainKind::Grass => 1,
        TerrainKind::Path => 2,
        TerrainKind::Water => 3,
        TerrainKind::Wall => 4,
        TerrainKind::Hedge => 6,
        TerrainKind::ThickGrass => 10,
        TerrainKind::StoneFloor => 11,
        TerrainKind::ShallowWater => 12,
        TerrainKind::Door(_) => 14,
        TerrainKind::Window => 15,
        TerrainKind::Bridge(Orientation::Vertical) => 16,
        TerrainKind::Bridge(Orientation::Horizontal) => 17,
        TerrainKind::Empty => 0,
    }
}

/// The place of the picture of the tile's feature among the feature
/// pictures, if the tile has a feature.
pub fn feature_index(tile: &Terrain) -> (index: Option<usize>)
    ensures
        index == match tile.feature {
            Some(feature) => Some(spec_feature_index(feature)),
            None => None,
        },
{
    match tile.feature {
        Some(TerrainFeature::Mushroom) => Some(20),
        Some(TerrainFeature::Flower(n)) => Some(40 + (n % 4) as usize),
        Some(TerrainFeature::Stones) => Some(10),
        Some(TerrainFeature::Waterlily) => Some(30),
        Some(TerrainFeature::Fountain) => Some(1),
        None => None,
    }
}

/// A tile of shallow water can be entered without more ado exactly where a
/// water lily lies on it.
pub proof fn lemma_shallow_water_blocks_without_lily(feature: Option<TerrainFeature>)
    ensures
        (Terrain { kind: TerrainKind::ShallowWater, feature }).spec_is_blocking() <==> feature
            != Some(TerrainFeature::Waterlily),
{
}

/// A fountain blocks every tile whose kind would on its own let an actor
/// in, and says so with a message.
pub proof fn lemma_fountain_overrides_kind(kind: TerrainKind)
    requires
        (Terrain { kind, feature: None }).spec_access() is Allowed,
    ensures
        (Terrain { kind, feature: Some(TerrainFeature::Fountain) }).spec_access()
            == AccessView::BlockedWithMessage(blocked_message("The fountain is in your way."@)),
{
}

} // verus!
