use reveal_engine::actor::{actor_index, Actor, ActorAI, ActorKind, Attribute};
use reveal_engine::item::{item_index, Item, ItemKind, Potion};
use reveal_engine::message::{Message, MessageKind, MessageQueue};
use reveal_engine::point::Point;
use reveal_engine::skill::{Skill, SkillDuration, SkillKind};
use reveal_engine::text::decimal_string;

#[test]
fn numbers_are_written_in_base_ten() {
    assert_eq!(decimal_string(0), "0");
    assert_eq!(decimal_string(7), "7");
    assert_eq!(decimal_string(10), "10");
    assert_eq!(decimal_string(42), "42");
    assert_eq!(decimal_string(65535), "65535");
    assert_eq!(decimal_string(u64::MAX), "18446744073709551615");
}

#[test]
fn items_are_described() {
    assert_eq!(Item::new(ItemKind::Wand).description(), "a magical wand");
    assert_eq!(Item::new(ItemKind::Ore).description(), "a chunk of ore");
    assert_eq!(Item::new(ItemKind::Gold).description(), "a chunk of gold");
    assert_eq!(Item::new(ItemKind::Bread).description(), "a loaf of bread");
    assert_eq!(Item::new(ItemKind::Money(42)).description(), "42 coins of gold");
    assert_eq!(ItemKind::Potion(Potion::Empty).description(), "an empty potion");
    assert_eq!(ItemKind::Potion(Potion::Healing).description(), "a potion of healing");
    assert_eq!(ItemKind::Potion(Potion::Swimming).description(), "a potion of swimming");
    assert_eq!(ItemKind::Potion(Potion::Vision).description(), "a potion of vision");
    assert_eq!(ItemKind::Barrel.description(), "a wooden barrel");
    assert_eq!(ItemKind::Key.description(), "a metal key");
}

#[test]
fn items_have_their_place_among_the_pictures() {
    assert_eq!(item_index(&Item::new(ItemKind::Ore)), 0);
    assert_eq!(item_index(&Item::new(ItemKind::Gold)), 1);
    assert_eq!(item_index(&Item::new(ItemKind::Wand)), 2);
    assert_eq!(item_index(&Item::new(ItemKind::Bread)), 3);
    assert_eq!(item_index(&Item::new(ItemKind::Money(51))), 13);
    assert_eq!(item_index(&Item::new(ItemKind::Money(49))), 12);
    assert_eq!(item_index(&Item::new(ItemKind::Money(50))), 10);
    assert_eq!(item_index(&Item::new(ItemKind::Barrel)), 20);
    assert_eq!(item_index(&Item::new(ItemKind::Potion(Potion::Healing))), 71);
    assert_eq!(item_index(&Item::new(ItemKind::Potion(Potion::Swimming))), 72);
    assert_eq!(item_index(&Item::new(ItemKind::Potion(Potion::Vision))), 73);
    assert_eq!(item_index(&Item::new(ItemKind::Potion(Potion::Empty))), 75);
    assert_eq!(item_index(&Item::new(ItemKind::Key)), 91);
}

#[test]
fn items_are_built_step_by_step() {
    let item = Item::new(ItemKind::Key);
    assert_eq!(item.pos, None);
    assert!(item.owner.is_none());
    let placed = item.with_pos((3, 4));
    assert_eq!(placed.pos, Some(Point::new(3, 4)));
    assert_eq!(placed.kind, ItemKind::Key);
}

#[test]
fn actors_are_built_and_described() {
    let actor = Actor::new(ActorKind::Cat, (1, 2), (3u16, 9u16));
    assert_eq!(actor.kind, ActorKind::Cat);
    assert_eq!(actor.pos, Point::new(1, 2));
    assert_eq!(actor.health, Attribute { value: 3, max: 9 });
    assert_eq!(actor.coins, 0);
    assert_eq!(actor.ai, ActorAI::WanderAround);
    assert!(actor.inventory.is_empty());
    assert!(actor.visited.is_empty());
    assert!(actor.skills.is_empty());
    assert!(actor.is_npc());
    assert_eq!(actor.description(), "a cat");
    assert_eq!(actor_index(&actor), 1);
    let still = actor.with_ai(ActorAI::DoNothing);
    assert_eq!(still.ai, ActorAI::DoNothing);
    assert_eq!(still.pos, Point::new(1, 2));

    let player = Actor::new(ActorKind::Player, (0, 0), 8u16);
    assert_eq!(player.health, Attribute { value: 8, max: 8 });
    assert!(!player.is_npc());
    assert_eq!(player.description(), "player");
    assert_eq!(actor_index(&player), 2);
    assert_eq!(Actor::new(ActorKind::Dog, (0, 0), 1u16).description(), "a dog");
    let villager = Actor::new(ActorKind::Townsfolk, (0, 0), 1u16);
    assert_eq!(villager.description(), "a villager");
    assert_eq!(actor_index(&villager), 3);
    let keeper = Actor::new(ActorKind::Shopkeeper, (0, 0), 1u16);
    assert_eq!(keeper.description(), "a shopkeeper");
    assert_eq!(actor_index(&keeper), 0);
}

#[test]
fn actor_has_the_skills_it_was_given() {
    let mut actor = Actor::new(ActorKind::Player, (0, 0), 8u16);
    assert!(!actor.has_skill(&SkillKind::Swim));
    actor.skills.push(Skill::new(SkillKind::Climb));
    assert!(!actor.has_skill(&SkillKind::Swim));
    assert!(actor.has_skill(&SkillKind::Climb));
    actor.skills.push(Skill::new_temporary(SkillKind::Swim, 12usize));
    assert!(actor.has_skill(&SkillKind::Swim));
    assert_eq!(actor.skills[1].duration, SkillDuration::Temporary { duration: 12 });
    assert_eq!(actor.skills[0].duration, SkillDuration::Permanent);
    assert!(!actor.has_skill(&SkillKind::Vision { radius: 3 }));
}

#[test]
fn skills_are_described() {
    assert_eq!(Skill::new(SkillKind::Swim).description(), "swimming");
    assert_eq!(Skill::new(SkillKind::Climb).description(), "climbing");
    assert_eq!(Skill::from(SkillKind::Vision { radius: 3 }).description(), "vision");
    assert_eq!(SkillDuration::from(4usize), SkillDuration::Temporary { duration: 4 });
}

#[test]
fn message_log_puts_the_newest_first() {
    let mut log = MessageQueue::new();
    log.push(Message::new(MessageKind::Info, "one", false));
    log.push(Message::new(MessageKind::Skill, "two", false));
    assert_eq!(log.len(), 2);
    assert_eq!(log.get(0).unwrap().text, "two");
    assert_eq!(log.get(0).unwrap().kind, MessageKind::Skill);
    assert_eq!(log.get(1).unwrap().text, "one");
    assert!(log.get(2).is_none());
    let all: Vec<&str> = log.iter().iter().map(|m| m.text.as_str()).collect();
    assert_eq!(all, vec!["two", "one"]);
}

#[test]
fn message_log_leaves_out_a_repeat_only_where_asked() {
    let mut log = MessageQueue::default();
    log.push(Message::new(MessageKind::Info, "Ouch!", true));
    log.push(Message::new(MessageKind::Info, "Ouch!", true));
    assert_eq!(log.len(), 1);
    log.push(Message::new(MessageKind::Info, "Ouch!", false));
    assert_eq!(log.len(), 2);
    log.push(Message::new(MessageKind::Info, "Ouch!", false));
    assert_eq!(log.len(), 3);
    log.push(Message::new(MessageKind::Info, "Ouch!", true));
    log.push(Message::new(MessageKind::Debug, "Ouch!", true));
    assert_eq!(log.len(), 5);
    log.push(Message::new(MessageKind::Debug, "Ouch?", true));
    assert_eq!(log.len(), 6);
}

#[test]
fn message_log_keeps_the_newest_fifty() {
    let mut log = MessageQueue::new();
    for n in 0..60u64 {
        log.push(Message::from_string(MessageKind::Info, decimal_string(n)));
    }
    assert_eq!(log.len(), 60);
    log.flush();
    assert_eq!(log.len(), 50);
    assert_eq!(log.get(0).unwrap().text, "59");
    assert_eq!(log.get(49).unwrap().text, "10");
    log.flush();
    assert_eq!(log.len(), 50);
    let copy = log.get(0).unwrap().clone();
    assert!(copy == *log.get(0).unwrap());
}
