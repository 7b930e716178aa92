use reply_relay::history::{build_history, message_turn, DialogueTurn, Role};
use reply_relay::identity::{user_to_string, UserIdentity};
use reply_relay::mention::{format_message_contents, message_to_string};
use reply_relay::message::{Message, ReplyKind, ReplyLink};
use reply_relay::walk::{get_reply, is_followed, Lookup, ReplyWalk};

const CHANNEL: u64 = 700;
const BOT: u64 = 42;

fn user(id: u64, username: &str, global: Option<&str>, nick: Option<&str>) -> UserIdentity {
    UserIdentity {
        id,
        username: username.to_string(),
        global_name: global.map(|s| s.to_string()),
        nickname: nick.map(|s| s.to_string()),
    }
}

fn alice() -> UserIdentity {
    user(1, "alice", Some("Alice W"), None)
}

fn bot() -> UserIdentity {
    user(BOT, "relaybot", Some("Relay Bot"), None)
}

fn carol() -> UserIdentity {
    user(3, "carol", None, Some("Caz"))
}

fn msg(id: u64, author: UserIdentity, content: &str) -> Message {
    Message {
        id,
        channel_id: CHANNEL,
        author,
        content: content.to_string(),
        mentions: vec![],
        reply: None,
        embedded: None,
    }
}

fn link(target: u64, kind: ReplyKind) -> Option<ReplyLink> {
    Some(ReplyLink { channel_id: CHANNEL, message_id: Some(target), kind })
}

fn ids(chain: &[Message]) -> Vec<u64> {
    chain.iter().map(|m| m.id).collect()
}

fn texts(turns: &[DialogueTurn]) -> Vec<(Role, String)> {
    turns.iter().map(|t| (t.role, t.text.clone())).collect()
}

#[test]
fn walk_without_link_is_the_message_alone() {
    let m = msg(5, alice(), "hello");
    let w = ReplyWalk::start(m);
    assert!(w.is_finished());
    assert_eq!(w.next_lookup(), Lookup::Finished);
    let chain = w.into_chain();
    assert_eq!(ids(&chain), vec![5]);
    assert_eq!(chain[0].content, "hello");
}

#[test]
fn walk_stops_at_forwarded_link() {
    let m2 = msg(2, bot(), "earlier");
    let mut m3 = msg(3, alice(), "fwd");
    m3.reply = link(2, ReplyKind::Forwarded);
    m3.embedded = Some(Box::new(m2));
    assert!(!is_followed(&m3));
    let w = ReplyWalk::start(m3);
    assert!(w.is_finished());
    assert_eq!(ids(&w.into_chain()), vec![3]);
}

#[test]
fn walk_link_without_target_ends() {
    let mut m = msg(3, alice(), "x");
    m.reply = Some(ReplyLink { channel_id: CHANNEL, message_id: None, kind: ReplyKind::Default });
    assert_eq!(get_reply(&m), Lookup::Finished);
    let w = ReplyWalk::start(m);
    assert!(w.is_finished());
    assert_eq!(ids(&w.into_chain()), vec![3]);
}

#[test]
fn walk_inline_thread_needs_no_lookup() {
    let m1 = msg(1, alice(), "one");
    let mut m2 = msg(2, bot(), "two");
    m2.reply = link(1, ReplyKind::Default);
    m2.embedded = Some(Box::new(m1));
    let mut m3 = msg(3, carol(), "three");
    m3.reply = link(2, ReplyKind::Default);
    m3.embedded = Some(Box::new(m2));
    let w = ReplyWalk::start(m3);
    assert_eq!(w.next_lookup(), Lookup::Finished);
    let chain = w.into_chain();
    assert_eq!(ids(&chain), vec![1, 2, 3]);
    assert_eq!(chain[1].content, "two");
}

#[test]
fn walk_cache_hit_matches_inline() {
    let m2 = msg(2, bot(), "two");
    let mut m3 = msg(3, alice(), "three");
    m3.reply = link(2, ReplyKind::Default);
    let mut w = ReplyWalk::start(m3);
    assert_eq!(w.next_lookup(), Lookup::Cache { channel_id: CHANNEL, message_id: 2 });
    w.supply(Some(m2));
    assert!(w.is_finished());
    assert_eq!(ids(&w.into_chain()), vec![2, 3]);
}

#[test]
fn walk_cache_miss_fetches_once() {
    let mut m2 = msg(2, bot(), "two");
    m2.reply = link(1, ReplyKind::Default);
    let mut m3 = msg(3, alice(), "three");
    m3.reply = link(2, ReplyKind::Default);
    let mut w = ReplyWalk::start(m3);
    w.supply(None);
    assert_eq!(w.next_lookup(), Lookup::Network { channel_id: CHANNEL, message_id: 2 });
    w.supply(Some(m2));
    assert_eq!(w.next_lookup(), Lookup::Cache { channel_id: CHANNEL, message_id: 1 });
    w.supply(None);
    assert_eq!(w.next_lookup(), Lookup::Network { channel_id: CHANNEL, message_id: 1 });
    w.supply(None);
    assert!(w.is_finished());
    assert_eq!(ids(&w.into_chain()), vec![2, 3]);
}

#[test]
fn walk_fetch_failure_ends_chain_at_step() {
    let mut m3 = msg(3, alice(), "three");
    m3.reply = link(2, ReplyKind::Default);
    let mut w = ReplyWalk::start(m3);
    w.supply(None);
    w.supply(None);
    assert!(w.is_finished());
    w.supply(Some(msg(9, alice(), "late")));
    assert_eq!(ids(&w.into_chain()), vec![3]);
}

#[test]
fn name_precedence() {
    assert_eq!(user_to_string(&user(7, "u", Some("Global"), Some("Nick"))), "@Nick");
    assert_eq!(user_to_string(&user(7, "u", Some("Global"), None)), "@Global");
    assert_eq!(user_to_string(&user(7, "u", None, None)), "@u");
    assert_eq!(user(7, "u", Some("Global"), Some("Nick")).display_name(), "Global");
    assert_eq!(user(7, "u", None, Some("Nick")).shown_name(), "Nick");
}

#[test]
fn format_rewrites_mentions() {
    let mut m = msg(10, alice(), "hi <@12345> and <@3>, again <@12345>; not <@999> nor @bob");
    m.mentions = vec![user(12345, "dave", Some("Dave D"), Some("Davey")), carol()];
    assert_eq!(
        format_message_contents(&m),
        "hi @Davey and @Caz, again @Davey; not <@999> nor @bob"
    );
}

#[test]
fn format_uses_display_then_username() {
    let mut m = msg(10, alice(), "<@8> <@9>");
    m.mentions = vec![user(8, "eve", Some("Eve E"), None), user(9, "frank", None, None)];
    assert_eq!(format_message_contents(&m), "@Eve E @frank");
}

#[test]
fn format_without_mentions_keeps_text() {
    let m = msg(10, alice(), "plain <@1> @alice");
    assert_eq!(format_message_contents(&m), "plain <@1> @alice");
}

#[test]
fn attributed_message_text() {
    let mut m = msg(10, alice(), "ping <@3>");
    m.mentions = vec![carol()];
    assert_eq!(message_to_string(&m), "@Alice W says:\nping @Caz");
}

#[test]
fn turn_roles_by_author() {
    let mine = msg(1, bot(), "I am <@1>");
    let t = message_turn(&mine, &bot());
    assert_eq!(t.role, Role::Model);
    assert_eq!(t.text, "I am <@1>");
    let theirs = msg(2, carol(), "yo");
    let t = message_turn(&theirs, &bot());
    assert_eq!(t.role, Role::User);
    assert_eq!(t.text, "@Caz says:\nyo");
}

#[test]
fn build_empty_chain() {
    assert!(build_history(&vec![], &bot()).is_empty());
}

#[test]
fn end_to_end_thread() {
    let m1 = msg(1, alice(), "what is rust?");
    let mut m2 = msg(2, bot(), "a language");
    m2.reply = link(1, ReplyKind::Default);
    let mut m3 = msg(3, carol(), "<@42> tell more");
    m3.mentions = vec![bot()];
    m3.reply = link(2, ReplyKind::Default);
    m3.embedded = Some(Box::new(m2.duplicate()));
    let mut w = ReplyWalk::start(m3);
    assert_eq!(w.next_lookup(), Lookup::Cache { channel_id: CHANNEL, message_id: 1 });
    w.supply(Some(m1));
    assert!(w.is_finished());
    let chain = w.into_chain();
    assert_eq!(ids(&chain), vec![1, 2, 3]);
    let turns = build_history(&chain, &bot());
    assert_eq!(
        texts(&turns),
        vec![
            (Role::User, "@Alice W says:\nwhat is rust?".to_string()),
            (Role::Model, "a language".to_string()),
            (Role::User, "@Caz says:\n@Relay Bot tell more".to_string()),
        ]
    );
}

#[test]
fn duplicate_is_deep() {
    let mut inner = msg(1, alice(), "a");
    inner.mentions = vec![carol()];
    let mut outer = msg(2, bot(), "b");
    outer.reply = link(1, ReplyKind::Default);
    outer.embedded = Some(Box::new(inner));
    let c = outer.duplicate();
    assert_eq!(c.id, 2);
    assert_eq!(c.reply, outer.reply);
    let e = c.embedded.unwrap();
    assert_eq!(e.id, 1);
    assert_eq!(e.mentions[0].nickname.as_deref(), Some("Caz"));
}

#[test]
fn addressed_only_when_mentioned() {
    let mut m = msg(1, alice(), "hey <@42>");
    assert!(!reply_relay::history::is_addressed(&m, &bot()));
    m.mentions = vec![carol(), bot()];
    assert!(reply_relay::history::is_addressed(&m, &bot()));
}

#[test]
fn walk_stops_at_other_link_kind() {
    let mut m = msg(4, alice(), "quote");
    m.reply = link(2, ReplyKind::Other);
    assert_eq!(get_reply(&m), Lookup::Finished);
    let w = ReplyWalk::start(m);
    assert!(w.is_finished());
    assert_eq!(ids(&w.into_chain()), vec![4]);
}
