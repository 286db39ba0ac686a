use lobby::message::{
    Auth, ChannelList, ChannelUpdate, Cmsg, Data, Error, GReadyState, GStart, Join, Message, Motd,
    Part, UserList, VERSION,
};

fn text(s: &str) -> String {
    s.to_string()
}

#[test]
fn every_payload_becomes_a_message_of_the_servers_version() {
    assert_eq!(VERSION, 1);
    let join = Join { user: text("ann"), target: text("#lobby") };
    let message = Message::from(join.clone());
    assert_eq!(message, Message { version: 1, data: Data::Join(join) });
    let message: Message = Motd { message: text("hi") }.into();
    assert_eq!(message.version, 1);
    assert_eq!(message.data, Data::Motd(Motd { message: text("hi") }));
}

#[test]
fn each_payload_goes_to_its_own_variant() {
    assert!(matches!(
        Data::from(Error { message: text("m"), code: text("c") }),
        Data::Error(Error { message, code }) if message == "m" && code == "c"
    ));
    assert!(matches!(Data::from(Auth { name: text("n"), client: text("c") }), Data::Auth(_)));
    assert!(matches!(Data::from(Motd { message: text("m") }), Data::Motd(_)));
    assert!(matches!(Data::from(ChannelList { channels: vec![] }), Data::ChannelList(_)));
    assert!(matches!(
        Data::from(ChannelUpdate { target: text("t"), users: 7 }),
        Data::ChannelUpdate(ChannelUpdate { users: 7, .. })
    ));
    assert!(matches!(Data::from(Join { user: text("u"), target: text("t") }), Data::Join(_)));
    assert!(matches!(Data::from(Part { user: text("u"), target: text("t") }), Data::Part(_)));
    assert!(matches!(Data::from(UserList { target: text("t"), users: vec![] }), Data::UserList(_)));
    assert!(matches!(
        Data::from(Cmsg { message: text("m"), target: text("t"), source: text("s") }),
        Data::Cmsg(_)
    ));
    assert!(matches!(
        Data::from(GReadyState { ready: true, target: text("t"), source: text("s") }),
        Data::GReadyState(_)
    ));
    assert!(matches!(Data::from(GStart { target: text("t"), users: vec![] }), Data::GStart(_)));
}

#[test]
fn data_is_kept_as_it_is() {
    let a = Data::Motd(Motd { message: text("a") });
    let b = Data::Motd(Motd { message: text("b") });
    assert_eq!(Message::from(a.clone()), Message { version: 1, data: a.clone() });
    assert_ne!(Message::from(a), Message::from(b));
}
