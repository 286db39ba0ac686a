use lobby::message::{ChannelList, ChannelUpdate, Message, Motd};
use lobby::state::GlobalState;

fn text(s: &str) -> String {
    s.to_string()
}

fn server() -> GlobalState<&'static str, u32> {
    GlobalState::new(vec![text("#lobby"), text("#games")])
}

fn listed(s: &[(&str, usize)]) -> ChannelList {
    ChannelList {
        channels: s
            .iter()
            .map(|(target, users)| ChannelUpdate { target: target.to_string(), users: *users })
            .collect(),
    }
}

#[test]
fn a_name_is_given_to_one_user_at_a_time() {
    let mut server = server();
    assert!(server.claim_name(&text("ann"), 1));
    assert!(!server.claim_name(&text("ann"), 2));
    assert!(server.claim_name(&text("bob"), 3));
    let message = Message::from(Motd { message: text("x") });
    let all: Vec<u32> = server.msg_all(&message).iter().map(|(to, _)| **to).collect();
    assert_eq!(all, vec![1, 3]);
    server.release_name(&text("ann"));
    assert!(server.claim_name(&text("ann"), 4));
    let all: Vec<u32> = server.msg_all(&message).iter().map(|(to, _)| **to).collect();
    assert_eq!(all, vec![3, 4]);
}

#[test]
fn a_message_to_everybody_is_the_same_for_each() {
    let mut server = server();
    server.claim_name(&text("ann"), 1);
    server.claim_name(&text("bob"), 2);
    let message = Message::from(Motd { message: text("x") });
    let all = server.msg_all(&message);
    assert_eq!(all.len(), 2);
    assert!(all.iter().all(|(_, sent)| **sent == message));
}

#[test]
fn a_channel_is_opened_once() {
    let mut server = server();
    assert_eq!(server.join_sender(&text("#lobby")), None);
    let room = server.open_channel(&text("#lobby"), "first");
    assert!(matches!(&room, Some(room) if room.name() == "#lobby" && room.ticket() == 0));
    assert!(server.open_channel(&text("#lobby"), "second").is_none());
    assert_eq!(server.join_sender(&text("#lobby")), Some(&"first"));
    assert_eq!(server.channel_list(), listed(&[("#lobby", 0)]));
}

#[test]
fn the_list_holds_the_counts_that_were_published() {
    let mut server = server();
    server.open_channel(&text("#lobby"), "a");
    server.open_channel(&text("#games"), "b");
    server.publish_count(&text("#games"), 1, 5);
    server.publish_count(&text("#other"), 1, 6);
    assert_eq!(server.channel_list(), listed(&[("#lobby", 0), ("#games", 5)]));
}

#[test]
fn a_closed_channel_cannot_set_the_count_of_the_next() {
    let mut server = server();
    server.open_channel(&text("#lobby"), "a");
    server.publish_count(&text("#lobby"), 0, 2);
    server.close_channel(&text("#lobby"));
    assert_eq!(server.channel_list(), listed(&[]));
    let room = server.open_channel(&text("#lobby"), "b");
    assert!(matches!(&room, Some(room) if room.ticket() == 1));
    server.publish_count(&text("#lobby"), 0, 7);
    assert_eq!(server.channel_list(), listed(&[("#lobby", 0)]));
    server.publish_count(&text("#lobby"), 1, 1);
    assert_eq!(server.channel_list(), listed(&[("#lobby", 1)]));
}

#[test]
fn default_channels_come_in_their_order() {
    let server = server();
    assert_eq!(server.join_default_channels(0), Some(text("#lobby")));
    assert_eq!(server.join_default_channels(1), Some(text("#games")));
    assert_eq!(server.join_default_channels(2), None);
    assert_eq!(server.join_default_channels(usize::MAX), None);
}
