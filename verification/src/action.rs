//! The commands that the engine works through.
//!
//! Every change of state is a command: moving, picking up, using and
//! dropping items, the end of a turn, the turn of an actor without a
//! player, and what the user interface switches.

use vstd::prelude::*;

use crate::actor::{ActorId, Inventory};
use crate::item::ItemId;
use crate::message::{Message, MessageView};
use crate::point::Point;
use crate::pointset::PointSet;

verus! {

/// The way in which the viewport follows a move.
#[derive(Debug, Clone, Copy, PartialEq, Eq, Structural)]
pub enum ViewportMode {
    North,
    South,
    East,
    West,
    Center,
}

/// What the input is for at the moment.
#[derive(Debug)]
pub enum InputMode {
    Default,
    /// Choosing among `inventory` an item to use.
    UseItem { inventory: Inventory },
    /// Choosing among `inventory` an item to pick up.
    PickUpItem { inventory: Inventory },
    /// Choosing among `inventory` an item to drop.
    DropItem { inventory: Inventory },
    /// Choosing one of `positions`.
    Select { positions: PointSet },
}

/// What an [`InputMode`] says, with handles as numbers and the positions as
/// a set.
#[verifier::ext_equal]
pub enum InputModeView {
    Default,
    UseItem { inventory: Seq<u64> },
    PickUpItem { inventory: Seq<u64> },
    DropItem { inventory: Seq<u64> },
    Select { positions: Set<Point> },
}

/// The numbers of the handles in `handles`.
pub open spec fn raw_handles(handles: Seq<ItemId>) -> Seq<u64> {
    handles.map_values(|id: ItemId| id@)
}

impl View for InputMode {
    type V = InputModeView;

    open spec fn view(&self) -> InputModeView {
        match self {
            InputMode::Default => InputModeView::Default,
            InputMode::UseItem { inventory } => InputModeView::UseItem {
                inventory: raw_handles(inventory@),
            },
            InputMode::PickUpItem { inventory } => InputModeView::PickUpItem {
                inventory: raw_handles(inventory@),
            },
            InputMode::DropItem { inventory } => InputModeView::DropItem {
                inventory: raw_handles(inventory@),
            },
            InputMode::Select { positions } => InputModeView::Select { positions: positions@ },
        }
    }
}

/// What the user interface switches.
#[derive(Debug)]
pub enum GuiAction {
    TestBW,
    HideShowInventory,
    HideShowHelp,
    HideShowStatus,
    HideShowFOV,
    HideShowMessages,
    SwitchMode(InputMode),
}

/// What a [`GuiAction`] says.
#[verifier::ext_equal]
pub enum GuiActionView {
    TestBW,
    HideShowInventory,
    HideShowHelp,
    HideShowStatus,
    HideShowFOV,
    HideShowMessages,
    SwitchMode(InputModeView),
}

impl View for GuiAction {
    type V = GuiActionView;

    open spec fn view(&self) -> GuiActionView {
        match self {
            GuiAction::TestBW => GuiActionView::TestBW,
            GuiAction::HideShowInventory => GuiActionView::HideShowInventory,
            GuiAction::HideShowHelp => GuiActionView::HideShowHelp,
            GuiAction::HideShowStatus => GuiActionView::HideShowStatus,
            GuiAction::HideShowFOV => GuiActionView::HideShowFOV,
            GuiAction::HideShowMessages => GuiActionView::HideShowMessages,
            GuiAction::SwitchMode(mode) => GuiActionView::SwitchMode(mode@),
        }
    }
}

/// A command for the engine.
#[derive(Debug)]
pub enum Action {
    /// The actor moves to `pos`, and the viewport follows.
    MoveFollow { actor_id: ActorId, pos: Point, mode: ViewportMode },
    /// The actor moves to `pos`.
    Move { actor_id: ActorId, pos: Point },
    /// The actor picks up the items, one after another.
    PickUp { actor_id: ActorId, items: Vec<ItemId> },
    UseItem { item_id: ItemId, target: ActorId },
    DropItem { item_id: ItemId },
    /// The actor, one without a player, takes its turn.
    RunAI { actor_id: ActorId },
    DisplayMessage { msg: Message },
    /// The player has bumped into something.
    Ouch,
    EndTurn,
    Quit,
    MoveViewport { dx: i32, dy: i32 },
    CenterViewport,
    GUI(GuiAction),
}

/// What an [`Action`] says, with handles as numbers.
#[verifier::ext_equal]
pub enum ActionView {
    MoveFollow { actor: u64, pos: Point, mode: ViewportMode },
    Move { actor: u64, pos: Point },
    PickUp { actor: u64, items: Seq<u64> },
    UseItem { item: u64, target: u64 },
    DropItem { item: u64 },
    RunAI { actor: u64 },
    DisplayMessage { msg: MessageView },
    Ouch,
    EndTurn,
    Quit,
    MoveViewport { dx: i32, dy: i32 },
    CenterViewport,
    GUI(GuiActionView),
}

impl View for Action {
    type V = ActionView;

    open spec fn view(&self) -> ActionView {
        match self {
            Action::MoveFollow { actor_id, pos, mode } => ActionView::MoveFollow {
                actor: actor_id@,
                pos: *pos,
                mode: *mode,
            },
            Action::Move { actor_id, pos } => ActionView::Move { actor: actor_id@, pos: *pos },
            Action::PickUp { actor_id, items } => ActionView::PickUp {
                actor: actor_id@,
                items: raw_handles(items@),
            },
            Action::UseItem { item_id, target } => ActionView::UseItem {
                item: item_id@,
                target: target@,
            },
            Action::DropItem { item_id } => ActionView::DropItem { item: item_id@ },
            Action::RunAI { actor_id } => ActionView::RunAI { actor: actor_id@ },
            Action::DisplayMessage { msg } => ActionView::DisplayMessage { msg: msg@ },
            Action::Ouch => ActionView::Ouch,
            Action::EndTurn => ActionView::EndTurn,
            Action::Quit => ActionView::Quit,
            Action::MoveViewport { dx, dy } => ActionView::MoveViewport { dx: *dx, dy: *dy },
            Action::CenterViewport => ActionView::CenterViewport,
            Action::GUI(gui) => ActionView::GUI(gui@),
        }
    }
}

/// What each of `actions` says.
pub open spec fn action_views(actions: Seq<Action>) -> Seq<ActionView> {
    actions.map_values(|a: Action| a@)
}

/// The slot that a key chooses: the keys `1` to `9` the first nine slots,
/// the key `0` the tenth.
pub open spec fn spec_slot_for_key(key: char) -> Option<usize> {
    if key == '1' {
        Some(0)
    } else if key == '2' {
        Some(1)
    } else if key == '3' {
        Some(2)
    } else if key == '4' {
        Some(3)
    } else if key == '5' {
        Some(4)
    } else if key == '6' {
        Some(5)
    } else if key == '7' {
        Some(6)
    } else if key == '8' {
        Some(7)
    } else if key == '9' {
        Some(8)
    } else if key == '0' {
        Some(9)
    } else {
        None
    }
}

/// The slot that a key chooses.
pub fn slot_for_key(key: char) -> (slot: Option<usize>)
    ensures
        slot == spec_slot_for_key(key),
{
    if key == '1' {
        Some(0)
    } else if key == '2' {
        Some(1)
    } else if key == '3' {
        Some(2)
    } else if key == '4' {
        Some(3)
    } else if key == '5' {
        Some(4)
    } else if key == '6' {
        Some(5)
    } else if key == '7' {
        Some(6)
    } else if key == '8' {
        Some(7)
    } else if key == '9' {
        Some(8)
    } else if key == '0' {
        Some(9)
    } else {
        None
    }
}

/// The handle in the slot that a key chooses, if the inventory reaches
/// that far.
pub fn item_for_key(key: char, inventory: &Inventory) -> (r: Option<ItemId>)
    ensures
        r == match spec_slot_for_key(key) {
            Some(slot) => if slot < inventory@.len() {
                Some(inventory@[slot as int])
            } else {
                None
            },
            None => None,
        },
{
    match slot_for_key(key) {
        Some(slot) => if slot < inventory.len() {
            Some(inventory[slot])
        } else {
            None
        },
        None => None,
    }
}

} // verus!
