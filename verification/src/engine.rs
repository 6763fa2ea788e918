//! The engine that works through the commands.
//!
//! Commands wait on a stack. The engine takes the last one, carries it
//! out, which may put further commands on the stack, and goes on until the
//! stack is empty. So what a command brings forth is carried out before
//! anything that waited below it.
//!
//! [`handled`] says what a command does to the state, [`derives`] which
//! commands it may bring forth, and [`is_run`] what a whole run is.

use vstd::prelude::*;
use vstd::string::*;

use crate::action::{
    action_views, Action, ActionView, GuiAction, GuiActionView, InputMode, InputModeView,
    ViewportMode,
};
use crate::actor::{ActorAI, ActorId};
use crate::chance::random_below;
use crate::item::{ItemId, UseResult, UseResultView};
use crate::message::{pushed, Message, MessageKind, MessageView};
use crate::point::{shifted, Point, Rectangle};
use crate::world::{
    adjust_viewport, adjusted, move_viewport, moved_by, HighlightMode, World,
    WorldView,
};

verus! {

/// Of ten rolls, the ones from this on let a wandering actor move.
pub const WANDER_THRESHOLD: usize = 3;

/// The number of different rolls.
pub const WANDER_ROLLS: usize = 10;

/// The state of the game beside the world.
#[derive(Debug)]
pub struct Engine {
    pub quit: bool,
    pub is_bw: bool,
    pub show_inventory: bool,
    pub show_help: bool,
    pub show_status: bool,
    pub show_messages: bool,
    /// The part of the map that is shown.
    pub viewport: Rectangle,
    /// How close to the viewport's side the player may come before the
    /// viewport follows.
    pub border_size: Point,
    pub input_mode: InputMode,
    /// Whether a turn has ended, or the player has bumped into something,
    /// since this was last set to false.
    pub turn_ended: bool,
}

/// The model of an [`Engine`].
#[verifier::ext_equal]
pub struct EngineView {
    pub quit: bool,
    pub is_bw: bool,
    pub show_inventory: bool,
    pub show_help: bool,
    pub show_status: bool,
    pub show_messages: bool,
    pub viewport: Rectangle,
    pub border_size: Point,
    pub input_mode: InputModeView,
    pub turn_ended: bool,
}

impl View for Engine {
    type V = EngineView;

    open spec fn view(&self) -> EngineView {
        EngineView {
            quit: self.quit,
            is_bw: self.is_bw,
            show_inventory: self.show_inventory,
            show_help: self.show_help,
            show_status: self.show_status,
            show_messages: self.show_messages,
            viewport: self.viewport,
            border_size: self.border_size,
            input_mode: self.input_mode@,
            turn_ended: self.turn_ended,
        }
    }
}

/// The whole state: engine and world.
#[verifier::ext_equal]
pub struct GameView {
    pub engine: EngineView,
    pub world: WorldView,
}

/// The world after the actor has picked up `items` one after another.
pub open spec fn picked_up_all(w: WorldView, actor: u64, items: Seq<u64>) -> WorldView
    decreases items.len(),
{
    if items.len() == 0 {
        w
    } else {
        picked_up_all(w, actor, items.drop_last()).picked_up(actor, items.last())
    }
}

/// The turn counter after one more turn; it stops at the largest number
/// that it can hold.
pub open spec fn next_turn(time: int) -> int {
    if time < i32::MAX {
        time + 1
    } else {
        time
    }
}

/// The input mode after an item was used with the given result: choosing
/// a position where the item asks for one.
pub open spec fn mode_after_use(result: UseResultView) -> InputModeView {
    match result {
        UseResultView::Select { positions } => InputModeView::Select { positions },
        _ => InputModeView::Default,
    }
}

/// The state after the command `a` was carried out.
pub open spec fn handled(g: GameView, a: ActionView) -> GameView {
    let e = g.engine;
    let w = g.world;
    match a {
        ActionView::Quit => GameView { engine: EngineView { quit: true, ..e }, world: w },
        ActionView::DisplayMessage { msg } => GameView {
            engine: e,
            world: WorldView { messages: pushed(w.messages, msg), ..w },
        },
        ActionView::EndTurn => GameView {
            engine: EngineView { turn_ended: true, ..e },
            world: WorldView { time: next_turn(w.time), ..w },
        },
        ActionView::RunAI { .. } => g,
        ActionView::Ouch => GameView {
            engine: EngineView { turn_ended: true, ..e },
            world: WorldView {
                messages: pushed(
                    w.messages,
                    MessageView { kind: MessageKind::Info, text: "Ouch!"@, no_repeat: true },
                ),
                ..w
            },
        },
        ActionView::Move { actor, pos } => GameView { engine: e, world: w.moved_to(actor, pos) },
        ActionView::MoveFollow { actor, pos, mode } => if w.actors.contains_key(actor) {
            GameView {
                engine: EngineView {
                    viewport: adjusted(e.viewport, e.border_size, pos, mode),
                    ..e
                },
                world: w.moved_to(actor, pos),
            }
        } else {
            g
        },
        ActionView::PickUp { actor, items } => GameView {
            engine: e,
            world: picked_up_all(w, actor, items),
        },
        ActionView::UseItem { item, target } => GameView {
            engine: EngineView {
                input_mode: mode_after_use(w.item_used(item, target).1),
                ..e
            },
            world: w.item_used(item, target).0,
        },
        ActionView::DropItem { item } => GameView {
            engine: EngineView { input_mode: InputModeView::Default, ..e },
            world: w.dropped(item),
        },
        ActionView::MoveViewport { dx, dy } => GameView {
            engine: EngineView { viewport: moved_by(e.viewport, dx as int, dy as int), ..e },
            world: w,
        },
        ActionView::CenterViewport => if w.actors.contains_key(w.player) {
            GameView {
                engine: EngineView {
                    viewport: adjusted(
                        e.viewport,
                        e.border_size,
                        w.actors[w.player].pos,
                        ViewportMode::Center,
                    ),
                    ..e
                },
                world: w,
            }
        } else {
            g
        },
        ActionView::GUI(GuiActionView::TestBW) => GameView {
            engine: EngineView { is_bw: !e.is_bw, ..e },
            world: w,
        },
        ActionView::GUI(GuiActionView::HideShowMessages) => GameView {
            engine: EngineView { show_messages: !e.show_messages, ..e },
            world: w,
        },
        ActionView::GUI(GuiActionView::HideShowInventory) => GameView {
            engine: EngineView { show_inventory: !e.show_inventory, ..e },
            world: w,
        },
        ActionView::GUI(GuiActionView::HideShowHelp) => GameView {
            engine: EngineView { show_help: !e.show_help, ..e },
            world: w,
        },
        ActionView::GUI(GuiActionView::HideShowStatus) => GameView {
            engine: EngineView { show_status: !e.show_status, ..e },
            world: w,
        },
        ActionView::GUI(GuiActionView::HideShowFOV) => GameView {
            engine: e,
            world: WorldView {
                highlight_mode: if w.highlight_mode is None {
                    Some(HighlightMode::FOV)
                } else {
                    None
                },
                ..w
            },
        },
        ActionView::GUI(GuiActionView::SwitchMode(mode)) => GameView {
            engine: EngineView { input_mode: mode, ..e },
            world: WorldView { highlight_mode: None, ..w },
        },
    }
}

/// `targets` with the position `(dx, dy)` away from `pos`, if there is
/// such a position and it can be entered.
pub open spec fn with_target(targets: Seq<Point>, w: WorldView, pos: Point, dx: int, dy: int) -> Seq<
    Point,
> {
    match shifted(pos, dx, dy) {
        Some(p) => if w.blocks(p) {
            targets
        } else {
            targets.push(p)
        },
        None => targets,
    }
}

/// The positions to which an actor at `pos` can wander: those of its four
/// neighbours, east, south, west, north, that can be entered.
pub open spec fn wander_targets(w: WorldView, pos: Point) -> Seq<Point> {
    with_target(
        with_target(
            with_target(with_target(Seq::<Point>::empty(), w, pos, 1, 0), w, pos, 0, 1),
            w,
            pos,
            -1,
            0,
        ),
        w,
        pos,
        0,
        -1,
    )
}

/// The positions among which an actor chooses on its turn after the given
/// roll: none for an actor that is missing or does nothing, and none on a
/// roll below [`WANDER_THRESHOLD`].
pub open spec fn ai_targets(w: WorldView, actor: u64, roll: usize) -> Seq<Point> {
    if w.actors.contains_key(actor) && w.actors[actor].ai == ActorAI::WanderAround && roll
        >= WANDER_THRESHOLD {
        wander_targets(w, w.actors[actor].pos)
    } else {
        Seq::<Point>::empty()
    }
}

/// Whether `derived` is the one move of the actor to the position at place
/// `pick` among those it chooses from after the given roll.
pub open spec fn is_ai_move(
    w: WorldView,
    actor: u64,
    roll: usize,
    pick: int,
    derived: Seq<ActionView>,
) -> bool {
    0 <= pick < ai_targets(w, actor, roll).len() && derived == seq![
        ActionView::Move { actor, pos: ai_targets(w, actor, roll)[pick] },
    ]
}

/// Whether `derived` holds one turn for every actor without a player, and
/// nothing else.
pub open spec fn all_take_turns(w: WorldView, derived: Seq<ActionView>) -> bool {
    &&& derived.no_duplicates()
    &&& derived.len() <= w.actors.dom().len()
    &&& forall|i: int|
        0 <= i < derived.len() ==> ((#[trigger] derived[i]) matches ActionView::RunAI { actor }
            && w.actors.contains_key(actor) && w.actors[actor].is_npc())
    &&& forall|actor: u64| #[trigger]
        w.actors.contains_key(actor) && w.actors[actor].is_npc() ==> derived.contains(
            ActionView::RunAI { actor },
        )
}

/// Whether `derived` is what the actor's turn may bring forth: nothing, or
/// one move to a position among those it chooses from after some roll.
pub open spec fn is_ai_choice(w: WorldView, actor: u64, derived: Seq<ActionView>) -> bool {
    ||| derived.len() == 0
    ||| exists|roll: usize, pick: int| #[trigger] is_ai_move(w, actor, roll, pick, derived)
}

/// Whether carrying out `a` in the state `g` may bring forth the commands
/// `derived`, in that order.
///
/// The end of a turn brings forth one turn for every actor without a
/// player, in any order. Such an actor's turn brings forth nothing, or
/// one move to a position to which the actor can wander. Any other command
/// brings forth nothing.
pub open spec fn derives(g: GameView, a: ActionView, derived: Seq<ActionView>) -> bool {
    match a {
        ActionView::EndTurn => all_take_turns(g.world, derived),
        ActionView::RunAI { actor } => is_ai_choice(g.world, actor, derived),
        _ => derived.len() == 0,
    }
}

/// The state together with the commands that wait.
#[verifier::ext_equal]
pub struct Config {
    pub game: GameView,
    pub stack: Seq<ActionView>,
}

/// The configuration after the last command of the stack was carried out
/// and has brought forth `derived`.
pub open spec fn step(c: Config, derived: Seq<ActionView>) -> Config {
    Config { game: handled(c.game, c.stack.last()), stack: c.stack.drop_last() + derived }
}

/// The configuration after the first `k` steps of a run from `start` in
/// which step `i` brings forth `choices[i]`.
pub open spec fn config_after(start: Config, choices: Seq<Seq<ActionView>>, k: nat) -> Config
    decreases k,
{
    if k == 0 {
        start
    } else {
        step(config_after(start, choices, (k - 1) as nat), choices[k - 1])
    }
}

/// Whether `choices` makes a run from `start`: at each step a command
/// waits, and may bring forth what the step says.
pub open spec fn is_run(start: Config, choices: Seq<Seq<ActionView>>) -> bool {
    forall|k: nat|
        k < choices.len() ==> {
            let c = #[trigger] config_after(start, choices, k);
            c.stack.len() > 0 && derives(c.game, c.stack.last(), choices[k as int])
        }
}

/// Whether `choices` makes a run from `start` that ends with no command
/// left, in the state `end`.
pub open spec fn runs_to(start: Config, choices: Seq<Seq<ActionView>>, end: GameView) -> bool {
    &&& is_run(start, choices)
    &&& config_after(start, choices, choices.len()).stack.len() == 0
    &&& config_after(start, choices, choices.len()).game == end
}

/// What carrying out `a` costs, with `actors` actors in the world: a
/// bound on the number of commands that are carried out for it.
pub open spec fn cost(a: ActionView, actors: nat) -> nat {
    match a {
        ActionView::EndTurn => 2 * actors + 1,
        ActionView::RunAI { .. } => 2,
        _ => 1,
    }
}

/// What carrying out all of `stack` costs.
pub open spec fn total_cost(stack: Seq<ActionView>, actors: nat) -> nat
    decreases stack.len(),
{
    if stack.len() == 0 {
        0
    } else {
        total_cost(stack.drop_last(), actors) + cost(stack.last(), actors)
    }
}

proof fn lemma_cost_push(stack: Seq<ActionView>, a: ActionView, actors: nat)
    ensures
        total_cost(stack.push(a), actors) == total_cost(stack, actors) + cost(a, actors),
{
    assert(stack.push(a).drop_last() =~= stack);
}

/// The first `k` steps of a run depend on the first `k` choices only.
proof fn lemma_config_prefix(
    start: Config,
    choices: Seq<Seq<ActionView>>,
    more: Seq<Seq<ActionView>>,
    k: nat,
)
    requires
        k <= choices.len(),
        choices.len() <= more.len(),
        forall|i: int| 0 <= i < choices.len() ==> choices[i] == more[i],
    ensures
        config_after(start, choices, k) == config_after(start, more, k),
    decreases k,
{
    if k > 0 {
        lemma_config_prefix(start, choices, more, (k - 1) as nat);
    }
}

/// A run that is one step longer.
proof fn lemma_run_push(start: Config, choices: Seq<Seq<ActionView>>, derived: Seq<ActionView>)
    requires
        is_run(start, choices),
        config_after(start, choices, choices.len()).stack.len() > 0,
        derives(
            config_after(start, choices, choices.len()).game,
            config_after(start, choices, choices.len()).stack.last(),
            derived,
        ),
    ensures
        is_run(start, choices.push(derived)),
        config_after(start, choices.push(derived), choices.len() + 1) == step(
            config_after(start, choices, choices.len()),
            derived,
        ),
{
    let more = choices.push(derived);
    assert forall|k: nat| k < more.len() implies {
        let c = #[trigger] config_after(start, more, k);
        c.stack.len() > 0 && derives(c.game, c.stack.last(), more[k as int])
    } by {
        lemma_config_prefix(start, choices, more, k);
        if k < choices.len() {
            let c = config_after(start, choices, k);
            assert(c.stack.len() > 0 && derives(c.game, c.stack.last(), choices[k as int]));
        }
    }
    lemma_config_prefix(start, choices, more, choices.len());
}

/// Adds `p` to `targets` where it is a position that can be entered.
fn add_target(world: &World, targets: &mut Vec<Point>, p: Option<Point>)
    ensures
        final(targets)@ == match p {
            Some(q) => if world@.blocks(q) {
                old(targets)@
            } else {
                old(targets)@.push(q)
            },
            None => old(targets)@,
        },
{
    if let Some(q) = p {
        if !World::is_blocking(&q, &world.terrain, &world.actors) {
            targets.push(q);
        }
    }
}

/// The positions to which an actor at `pos` can wander; see
/// [`wander_targets`].
pub fn free_neighbours(world: &World, pos: &Point) -> (targets: Vec<Point>)
    ensures
        targets@ == wander_targets(world@, *pos),
{
    let mut targets: Vec<Point> = Vec::new();
    add_target(world, &mut targets, pos.checked_offset(1, 0));
    add_target(world, &mut targets, pos.checked_offset(0, 1));
    add_target(world, &mut targets, pos.checked_offset(-1, 0));
    add_target(world, &mut targets, pos.checked_offset(0, -1));
    targets
}

/// The positions among which the actor chooses on its turn after the
/// given roll; see [`ai_targets`].
pub fn targets_for(world: &World, actor_id: &ActorId, roll: usize) -> (targets: Vec<Point>)
    ensures
        targets@ == ai_targets(world@, actor_id@, roll),
{
    match world.actors.get(actor_id) {
        Some(npc) => match npc.ai {
            ActorAI::DoNothing => Vec::new(),
            ActorAI::WanderAround => {
                if roll >= WANDER_THRESHOLD {
                    free_neighbours(world, &npc.pos)
                } else {
                    Vec::new()
                }
            },
        },
        None => Vec::new(),
    }
}

/// The actor's move to the position at place `pick` among `targets`, if
/// there is such a place.
pub fn pick_move(actor_id: &ActorId, targets: &Vec<Point>, pick: usize) -> (r: Option<Action>)
    ensures
        match r {
            Some(action) => pick < targets@.len() && action@ == (ActionView::Move {
                actor: actor_id@,
                pos: targets@[pick as int],
            }),
            None => pick >= targets@.len(),
        },
{
    if pick < targets.len() {
        Some(Action::Move { actor_id: *actor_id, pos: targets[pick] })
    } else {
        None
    }
}

/// The turn of an actor without a player: on seven rolls of ten, an actor
/// that wanders moves to one of the positions to which it can wander, each
/// as likely as the other.
fn run_ai(world: &World, actor_id: &ActorId, actions: &mut Vec<Action>, Ghost(actors): Ghost<nat>)
    ensures
        exists|derived: Seq<ActionView>| #[trigger]
            is_ai_choice(world@, actor_id@, derived) && action_views(final(actions)@)
                == action_views(old(actions)@) + derived,
        total_cost(action_views(final(actions)@), actors) <= total_cost(
            action_views(old(actions)@),
            actors,
        ) + 1,
{
    let roll = random_below(WANDER_ROLLS);
    let targets = targets_for(world, actor_id, roll);
    if targets.len() > 0 {
        let pick = random_below(targets.len());
        if let Some(action) = pick_move(actor_id, &targets, pick) {
            let ghost derived = seq![action@];
            actions.push(action);
            proof {
                assert(is_ai_move(world@, actor_id@, roll, pick as int, derived));
                assert(is_ai_choice(world@, actor_id@, derived));
                assert(action_views(actions@) =~= action_views(old(actions)@) + derived);
                assert(action_views(actions@) =~= action_views(old(actions)@).push(derived[0]));
                lemma_cost_push(action_views(old(actions)@), derived[0], actors);
            }
            return ;
        }
    }
    proof {
        let derived = Seq::<ActionView>::empty();
        assert(is_ai_choice(world@, actor_id@, derived));
        assert(action_views(actions@) =~= action_views(old(actions)@) + derived);
    }
}

/// The end of a turn: a turn for every actor without a player.
fn queue_turns(world: &World, actions: &mut Vec<Action>)
    ensures
        exists|derived: Seq<ActionView>| #[trigger]
            all_take_turns(world@, derived) && action_views(final(actions)@) == action_views(
                old(actions)@,
            ) + derived,
        total_cost(action_views(final(actions)@), world@.actors.dom().len()) <= total_cost(
            action_views(old(actions)@),
            world@.actors.dom().len(),
        ) + 2 * world@.actors.dom().len(),
{
    let entries = world.actors.iter();
    let ghost base = action_views(actions@);
    let ghost actors = world@.actors.dom().len();
    let ghost mut derived: Seq<ActionView> = Seq::empty();
    let ghost mut taken: Seq<int> = Seq::empty();
    proof {
        world.actors.lemma_view_finite();
        assert(world@.actors.dom() =~= world.actors@.dom());
        assert(action_views(actions@) =~= base + derived);
    }
    let mut n: usize = 0;
    while n < entries.len()
        invariant
            n <= entries@.len(),
            entries@.len() == actors,
            action_views(actions@) == base + derived,
            derived.len() == taken.len(),
            derived.len() <= n,
            total_cost(action_views(actions@), actors) == total_cost(base, actors) + 2
                * derived.len(),
            forall|j: int| 0 <= j < taken.len() ==> 0 <= #[trigger] taken[j] < n,
            forall|j: int, k: int| 0 <= j < k < taken.len() ==> taken[j] < taken[k],
            forall|j: int|
                0 <= j < taken.len() ==> (#[trigger] derived[j]) == (ActionView::RunAI {
                    actor: entries@[taken[j]].0@,
                }) && entries@[taken[j]].1@.is_npc(),
            forall|i: int|
                0 <= i < n && (#[trigger] entries@[i]).1@.is_npc() ==> exists|j: int|
                    0 <= j < taken.len() && #[trigger] taken[j] == i,
        decreases entries@.len() - n,
    {
        let (id, actor) = entries[n];
        if actor.is_npc() {
            let ghost view = ActionView::RunAI { actor: id@ };
            let ghost before = taken;
            proof {
                lemma_cost_push(action_views(actions@), view, actors);
            }
            actions.push(Action::RunAI { actor_id: id });
            proof {
                derived = derived.push(view);
                taken = taken.push(n as int);
                assert(action_views(actions@) =~= base + derived);
                assert(action_views(actions@) =~= (base + derived.drop_last()).push(view));
                assert(derived.drop_last() =~= derived.subrange(0, derived.len() - 1));
                assert forall|i: int|
                    0 <= i < n + 1 && (#[trigger] entries@[i]).1@.is_npc() implies exists|j: int|
                    0 <= j < taken.len() && #[trigger] taken[j] == i by {
                    if i < n {
                        let j = choose|j: int| 0 <= j < before.len() && #[trigger] before[j] == i;
                        assert(taken[j] == i);
                    } else {
                        assert(taken[taken.len() - 1] == i);
                    }
                }
            }
        }
        n = n + 1;
    }
    proof {
        assert forall|j: int, k: int|
            0 <= j < derived.len() && 0 <= k < derived.len() && j != k implies derived[j]
            != derived[k] by {
            if j < k {
                assert(taken[j] < taken[k]);
            } else {
                assert(taken[k] < taken[j]);
            }
            assert(entries@[taken[j]].0@ != entries@[taken[k]].0@);
        }
        assert forall|i: int| 0 <= i < derived.len() implies ((#[trigger] derived[i]) matches ActionView::RunAI {
            actor,
        } && world@.actors.contains_key(actor) && world@.actors[actor].is_npc()) by {
            let e = entries@[taken[i]];
            assert(world.actors@.contains_key(e.0@));
        }
        assert forall|actor: u64| #[trigger]
            world@.actors.contains_key(actor) && world@.actors[actor].is_npc() implies derived.contains(
            ActionView::RunAI { actor },
        ) by {
            let i = choose|i: int| 0 <= i < entries@.len() && (#[trigger] entries@[i]).0@ == actor;
            assert(entries@[i].1@.is_npc());
            let j = choose|j: int| 0 <= j < taken.len() && #[trigger] taken[j] == i;
            assert(derived[j] == ActionView::RunAI { actor });
        }
        assert(all_take_turns(world@, derived));
        assert(actors * 2 >= 2 * derived.len());
    }
}

/// The actor picks up `items` one after another.
fn pick_up_all(world: &mut World, actor_id: &ActorId, items: &Vec<ItemId>)
    ensures
        final(world)@ == picked_up_all(
            old(world)@,
            actor_id@,
            crate::action::raw_handles(items@),
        ),
        final(world)@.actors.dom() == old(world)@.actors.dom(),
{
    let ghost raw = crate::action::raw_handles(items@);
    let mut n: usize = 0;
    while n < items.len()
        invariant
            n <= items@.len(),
            raw == crate::action::raw_handles(items@),
            world@ == picked_up_all(old(world)@, actor_id@, raw.subrange(0, n as int)),
            world@.actors.dom() == old(world)@.actors.dom(),
        decreases items@.len() - n,
    {
        let ghost before = world@;
        world.pick_up(actor_id, &items[n]);
        proof {
            assert(raw.subrange(0, n + 1).drop_last() =~= raw.subrange(0, n as int));
            assert(raw.subrange(0, n + 1).last() == items@[n as int]@);
            assert(world@.actors.dom() =~= before.actors.dom());
        }
        n = n + 1;
    }
    proof {
        assert(raw.subrange(0, n as int) =~= raw);
    }
}

impl Engine {
    /// An engine that shows `viewport`, with everything else switched off.
    pub fn new(viewport: Rectangle, border_size: Point) -> (engine: Engine)
        ensures
            engine@ == (EngineView {
                quit: false,
                is_bw: false,
                show_inventory: false,
                show_help: false,
                show_status: false,
                show_messages: false,
                viewport,
                border_size,
                input_mode: InputModeView::Default,
                turn_ended: false,
            }),
    {
        Engine {
            quit: false,
            is_bw: false,
            show_inventory: false,
            show_help: false,
            show_status: false,
            show_messages: false,
            viewport,
            border_size,
            input_mode: InputMode::Default,
            turn_ended: false,
        }
    }

    /// The state of engine and world together.
    pub open spec fn game(self, world: World) -> GameView {
        GameView { engine: self@, world: world@ }
    }

    /// Carries out `action`. What it does to the state is said by
    /// [`handled`]; the commands that it brings forth, see [`derives`], are
    /// put on top of `actions`. The actors stay the same ones, and the
    /// commands that wait cost less than before together with `action`.
    pub fn handle(&mut self, world: &mut World, actions: &mut Vec<Action>, action: Action)
        ensures
            final(self).game(*final(world)) == handled(old(self).game(*old(world)), action@),
            exists|derived: Seq<ActionView>| #[trigger]
                derives(old(self).game(*old(world)), action@, derived) && action_views(
                    final(actions)@,
                ) == action_views(old(actions)@) + derived,
            final(world)@.actors.dom() == old(world)@.actors.dom(),
            total_cost(action_views(final(actions)@), old(world)@.actors.dom().len())
                < total_cost(action_views(old(actions)@), old(world)@.actors.dom().len()) + cost(
                action@,
                old(world)@.actors.dom().len(),
            ),
    {
        let ghost g = self.game(*world);
        let ghost actors = world@.actors.dom().len();
        let ghost nothing = Seq::<ActionView>::empty();
        proof {
            assert(action_views(actions@) =~= action_views(actions@) + nothing);
        }
        match action {
            Action::Quit => {
                self.quit = true;
                assert(self.game(*world) =~= handled(g, action@));
                assert(derives(g, action@, nothing));
            },
            Action::DisplayMessage { msg } => {
                world.messages.push(msg);
                assert(self.game(*world) =~= handled(g, action@));
                assert(derives(g, action@, nothing));
            },
            Action::EndTurn => {
                self.turn_ended = true;
                if world.time < i32::MAX {
                    world.time = world.time + 1;
                }
                assert(self.game(*world) =~= handled(g, action@));
                assert(world@.actors == g.world.actors);
                queue_turns(world, actions);
                proof {
                    let derived = choose|derived: Seq<ActionView>| #[trigger]
                        all_take_turns(world@, derived) && action_views(actions@) == action_views(
                            old(actions)@,
                        ) + derived;
                    assert(derives(g, action@, derived));
                }
            },
            Action::RunAI { actor_id } => {
                run_ai(world, &actor_id, actions, Ghost(actors));
                proof {
                    let derived = choose|derived: Seq<ActionView>| #[trigger]
                        is_ai_choice(world@, actor_id@, derived) && action_views(actions@)
                            == action_views(old(actions)@) + derived;
                    assert(derives(g, action@, derived));
                }
            },
            Action::Ouch => {
                world.messages.push(Message::new(MessageKind::Info, "Ouch!", true));
                self.turn_ended = true;
                assert(self.game(*world) =~= handled(g, action@));
                assert(derives(g, action@, nothing));
            },
            Action::Move { actor_id, pos } => {
                world.move_actor(&actor_id, pos);
                assert(world@.actors.dom() =~= g.world.actors.dom());
                assert(derives(g, action@, nothing));
            },
            Action::MoveFollow { actor_id, pos, mode } => {
                if world.actors.contains(&actor_id) {
                    adjust_viewport(&mut self.viewport, &self.border_size, &pos, mode);
                    world.move_actor(&actor_id, pos);
                }
                assert(self.game(*world) =~= handled(g, action@));
                assert(world@.actors.dom() =~= g.world.actors.dom());
                assert(derives(g, action@, nothing));
            },
            Action::PickUp { actor_id, items } => {
                pick_up_all(world, &actor_id, &items);
                assert(derives(g, action@, nothing));
            },
            Action::UseItem { item_id, target } => {
                let result = world.use_item(&item_id, &target);
                self.input_mode = match result {
                    UseResult::Select { positions } => InputMode::Select { positions },
                    _ => InputMode::Default,
                };
                assert(self.game(*world) =~= handled(g, action@));
                assert(world@.actors.dom() =~= g.world.actors.dom());
                assert(derives(g, action@, nothing));
            },
            Action::DropItem { item_id } => {
                world.drop_item(&item_id);
                self.input_mode = InputMode::Default;
                assert(self.game(*world) =~= handled(g, action@));
                assert(world@.actors.dom() =~= g.world.actors.dom());
                assert(derives(g, action@, nothing));
            },
            Action::MoveViewport { dx, dy } => {
                move_viewport(&mut self.viewport, dx, dy);
                assert(self.game(*world) =~= handled(g, action@));
                assert(derives(g, action@, nothing));
            },
            Action::CenterViewport => {
                let player_id = world.player_id();
                if world.actors.contains(&player_id) {
                    let pos = world.player_pos();
                    adjust_viewport(
                        &mut self.viewport,
                        &self.border_size,
                        &pos,
                        ViewportMode::Center,
                    );
                }
                assert(self.game(*world) =~= handled(g, action@));
                assert(derives(g, action@, nothing));
            },
            Action::GUI(GuiAction::TestBW) => {
                self.is_bw = !self.is_bw;
                assert(self.game(*world) =~= handled(g, action@));
                assert(derives(g, action@, nothing));
            },
            Action::GUI(GuiAction::HideShowMessages) => {
                self.show_messages = !self.show_messages;
                assert(self.game(*world) =~= handled(g, action@));
                assert(derives(g, action@, nothing));
            },
            Action::GUI(GuiAction::HideShowInventory) => {
                self.show_inventory = !self.show_inventory;
                assert(self.game(*world) =~= handled(g, action@));
                assert(derives(g, action@, nothing));
            },
            Action::GUI(GuiAction::HideShowHelp) => {
                self.show_help = !self.show_help;
                assert(self.game(*world) =~= handled(g, action@));
                assert(derives(g, action@, nothing));
            },
            Action::GUI(GuiAction::HideShowStatus) => {
                self.show_status = !self.show_status;
                assert(self.game(*world) =~= handled(g, action@));
                assert(derives(g, action@, nothing));
            },
            Action::GUI(GuiAction::HideShowFOV) => {
                if world.highlight_mode.is_none() {
                    world.highlight_mode = Some(HighlightMode::FOV);
                } else {
                    world.highlight_mode = None;
                }
                assert(self.game(*world) =~= handled(g, action@));
                assert(derives(g, action@, nothing));
            },
            Action::GUI(GuiAction::SwitchMode(mode)) => {
                self.input_mode = mode;
                world.highlight_mode = None;
                assert(self.game(*world) =~= handled(g, action@));
                assert(derives(g, action@, nothing));
            },
        }
    }

    /// Works through `actions` from the last to the first until none is
    /// left. What a command brings forth is put on top, and so carried out
    /// before anything that waited below.
    ///
    /// The whole is a run, see [`runs_to`]: step by step, the last command
    /// is carried out as [`handled`] says and brings forth what [`derives`]
    /// lets it.
    pub fn process_actions(&mut self, world: &mut World, actions: &mut Vec<Action>)
        ensures
            final(actions)@.len() == 0,
            exists|choices: Seq<Seq<ActionView>>| #[trigger]
                runs_to(
                    Config {
                        game: old(self).game(*old(world)),
                        stack: action_views(old(actions)@),
                    },
                    choices,
                    final(self).game(*final(world)),
                ),
    {
        let ghost start = Config { game: self.game(*world), stack: action_views(actions@) };
        let ghost mut choices: Seq<Seq<ActionView>> = Seq::empty();
        let ghost actors = world@.actors.dom().len();
        while actions.len() > 0
            invariant
                is_run(start, choices),
                config_after(start, choices, choices.len()) == (Config {
                    game: self.game(*world),
                    stack: action_views(actions@),
                }),
                world@.actors.dom().len() == actors,
            decreases total_cost(action_views(actions@), actors),
        {
            let ghost before = action_views(actions@);
            let ghost g = self.game(*world);
            match actions.pop() {
                Some(action) => {
                    let ghost popped = action_views(actions@);
                    proof {
                        assert(popped =~= before.drop_last());
                        assert(action@ == before.last());
                    }
                    self.handle(world, actions, action);
                    proof {
                        let derived = choose|derived: Seq<ActionView>| #[trigger]
                            derives(g, action@, derived) && action_views(actions@) == popped
                                + derived;
                        lemma_run_push(start, choices, derived);
                        choices = choices.push(derived);
                    }
                },
                None => {},
            }
        }
        proof {
            assert(runs_to(start, choices, self.game(*world)));
        }
    }
}

/// What a command brings forth is carried out before anything that waited
/// below it.
///
/// Take a run that ends with no command left, and a part `below` of the
/// stack at its start with at least one command above it. Then the run
/// comes to a step `k` at which exactly `below` waits, and at every step
/// before `k` the command that is carried out lies above `below`: it is one
/// of those that waited above, or one that those have brought forth.
pub proof fn lemma_derived_commands_run_first(
    start: Config,
    choices: Seq<Seq<ActionView>>,
    below: Seq<ActionView>,
) -> (k: nat)
    requires
        is_run(start, choices),
        config_after(start, choices, choices.len()).stack.len() == 0,
        below.is_prefix_of(start.stack),
        below.len() < start.stack.len(),
    ensures
        0 < k <= choices.len(),
        config_after(start, choices, k).stack == below,
        forall|j: nat|
            j < k ==> below.is_prefix_of((#[trigger] config_after(start, choices, j)).stack)
                && config_after(start, choices, j).stack.len() > below.len(),
{
    lemma_back_to(start, choices, below, 0)
}

proof fn lemma_back_to(
    start: Config,
    choices: Seq<Seq<ActionView>>,
    below: Seq<ActionView>,
    j: nat,
) -> (k: nat)
    requires
        is_run(start, choices),
        config_after(start, choices, choices.len()).stack.len() == 0,
        j <= choices.len(),
        forall|i: nat|
            i <= j ==> below.is_prefix_of((#[trigger] config_after(start, choices, i)).stack)
                && config_after(start, choices, i).stack.len() > below.len(),
    ensures
        j < k <= choices.len(),
        config_after(start, choices, k).stack == below,
        forall|i: nat|
            i < k ==> below.is_prefix_of((#[trigger] config_after(start, choices, i)).stack)
                && config_after(start, choices, i).stack.len() > below.len(),
    decreases choices.len() - j,
{
    let c = config_after(start, choices, j);
    assert(c.stack.len() > below.len());
    assert(j < choices.len());
    let next = config_after(start, choices, j + 1);
    assert(next == step(c, choices[j as int]));
    assert(below.is_prefix_of(next.stack)) by {
        assert(below =~= c.stack.subrange(0, below.len() as int));
        assert(below =~= next.stack.subrange(0, below.len() as int));
    }
    if next.stack.len() == below.len() {
        assert(next.stack =~= below);
        j + 1
    } else {
        assert forall|i: nat| i <= j + 1 implies below.is_prefix_of(
            (#[trigger] config_after(start, choices, i)).stack,
        ) && config_after(start, choices, i).stack.len() > below.len() by {
            if i <= j {
            }
        }
        lemma_back_to(start, choices, below, j + 1)
    }
}

/// No command changes which actors there are.
pub proof fn lemma_handled_keeps_actors(g: GameView, a: ActionView)
    ensures
        handled(g, a).world.actors.dom() == g.world.actors.dom(),
{
    match a {
        ActionView::PickUp { actor, items } => {
            lemma_picked_up_all_keeps_actors(g.world, actor, items);
        },
        _ => {
            assert(handled(g, a).world.actors.dom() =~= g.world.actors.dom());
        },
    }
}

proof fn lemma_picked_up_all_keeps_actors(w: WorldView, actor: u64, items: Seq<u64>)
    ensures
        picked_up_all(w, actor, items).actors.dom() == w.actors.dom(),
    decreases items.len(),
{
    if items.len() > 0 {
        lemma_picked_up_all_keeps_actors(w, actor, items.drop_last());
        let before = picked_up_all(w, actor, items.drop_last());
        assert(before.picked_up(actor, items.last()).actors.dom() =~= before.actors.dom());
    }
}

/// A run counts the turns: each end of a turn that is carried out adds one
/// to the turn counter, up to the largest number that it can hold, and no
/// other command changes it.
pub proof fn lemma_only_end_turn_counts(g: GameView, a: ActionView)
    ensures
        handled(g, a).world.time == if a is EndTurn {
            next_turn(g.world.time)
        } else {
            g.world.time
        },
{
    match a {
        ActionView::PickUp { actor, items } => {
            lemma_picked_up_all_keeps_time(g.world, actor, items);
        },
        _ => {},
    }
}

proof fn lemma_picked_up_all_keeps_time(w: WorldView, actor: u64, items: Seq<u64>)
    ensures
        picked_up_all(w, actor, items).time == w.time,
    decreases items.len(),
{
    if items.len() > 0 {
        lemma_picked_up_all_keeps_time(w, actor, items.drop_last());
    }
}

/// Whether carrying out `a` brings forth nothing, whatever the state: it
/// is neither the end of a turn nor an actor's turn.
pub open spec fn is_plain(a: ActionView) -> bool {
    !(a is EndTurn) && !(a is RunAI)
}

/// The state after all of `stack` was carried out, from the last command
/// to the first, none of them bringing forth another.
pub open spec fn carried_out(g: GameView, stack: Seq<ActionView>) -> GameView
    decreases stack.len(),
{
    if stack.len() == 0 {
        g
    } else {
        carried_out(handled(g, stack.last()), stack.drop_last())
    }
}

/// A run over commands of which none is the end of a turn or an actor's
/// turn is determined: it has one step for each command, and ends in the
/// state that comes of carrying them out from the last to the first.
pub proof fn lemma_plain_run_is_determined(
    start: Config,
    choices: Seq<Seq<ActionView>>,
    end: GameView,
)
    requires
        runs_to(start, choices, end),
        forall|i: int| 0 <= i < start.stack.len() ==> is_plain(#[trigger] start.stack[i]),
    ensures
        choices.len() == start.stack.len(),
        end == carried_out(start.game, start.stack),
    decreases choices.len(),
{
    if choices.len() == 0 {
        assert(config_after(start, choices, 0) == start);
    } else {
        assert(config_after(start, choices, 0) == start);
        assert(start.stack.len() > 0);
        assert(is_plain(start.stack[start.stack.len() - 1]));
        assert(choices[0].len() == 0);
        let next = step(start, choices[0]);
        assert(next.stack =~= start.stack.drop_last());
        let rest = choices.drop_first();
        lemma_run_rest(start, choices, rest.len());
        assert forall|k: nat| k < rest.len() implies {
            let c = #[trigger] config_after(next, rest, k);
            c.stack.len() > 0 && derives(c.game, c.stack.last(), rest[k as int])
        } by {
            lemma_run_rest(start, choices, k);
            let c = config_after(start, choices, k + 1);
            assert(c.stack.len() > 0 && derives(c.game, c.stack.last(), choices[(k + 1) as int]));
        }
        lemma_plain_run_is_determined(next, rest, end);
    }
}

/// A run without its first step is the run from the configuration after
/// that step.
proof fn lemma_run_rest(start: Config, choices: Seq<Seq<ActionView>>, k: nat)
    requires
        choices.len() > 0,
        k < choices.len(),
    ensures
        config_after(start, choices, k + 1) == config_after(
            step(start, choices[0]),
            choices.drop_first(),
            k,
        ),
    decreases k,
{
    if k == 0 {
        assert(config_after(start, choices, 0) == start);
        assert(config_after(start, choices, 1) == step(
            config_after(start, choices, 0),
            choices[0],
        ));
    } else {
        lemma_run_rest(start, choices, (k - 1) as nat);
        assert(choices.drop_first()[k - 1] == choices[k as int]);
    }
}

} // verus!
