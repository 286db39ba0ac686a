use lobby::channel::JoinResponse;
use lobby::message::{
    Auth, ChannelList, ChannelUpdate, Cmsg, Error, GReadyState, GStart, Join, Message, Motd, Part,
};
use lobby::session::{
    after_dispatch, after_unauthed, msg, next_default, strip_tripcode, unauthed, Dispatch, Inbound, JoinStep, Stage, Unauthed,
};
use lobby::state::{GlobalState, User};

type Server = GlobalState<(), u32>;
type Next = Unauthed<&'static str, u8, &'static str>;
type In = Inbound<&'static str>;

fn text(s: &str) -> String {
    s.to_string()
}

fn auth(name: &str) -> In {
    Inbound::Message(Message::from(Auth { name: text(name), client: text("cli") }))
}

fn error(message: &str, code: &str) -> Message {
    Message::from(Error { message: text(message), code: text(code) })
}

fn say(target: &str) -> Message {
    Message::from(Cmsg { message: text("hi"), target: text(target), source: text("eve") })
}

fn server() -> Server {
    GlobalState::new(vec![text("#lobby")])
}

fn user(name: &str) -> User<&'static str, u8> {
    match unauthed(&mut server(), auth(name), 1) {
        Unauthed::Admitted { user, .. } => user,
        _ => panic!("not admitted"),
    }
}

fn user_in(name: &str, target: &str) -> User<&'static str, u8> {
    let mut user = user(name);
    let response = JoinResponse::new(&user.name, "in", 7);
    assert_eq!(user.join_answered(text(target), Some(response)), JoinStep::Done);
    user
}

#[test]
fn what_stands_behind_the_last_hash_is_not_shown() {
    assert_eq!(strip_tripcode(&text("ann")), "ann");
    assert_eq!(strip_tripcode(&text("ann#secret")), "ann");
    assert_eq!(strip_tripcode(&text("ann#b#secret")), "ann#b");
    assert_eq!(strip_tripcode(&text("ann#")), "ann");
    assert_eq!(strip_tripcode(&text("#secret")), "");
    assert_eq!(strip_tripcode(&text("")), "");
    assert_eq!(strip_tripcode(&text("\u{e4}\u{1f600}#\u{fc}")), "\u{e4}\u{1f600}");
}

#[test]
fn a_free_name_gets_a_user_in() {
    let mut server = server();
    server.open_channel(&text("#lobby"), ());
    server.publish_count(&text("#lobby"), 0, 4);
    let next: Next = unauthed(&mut server, auth("ann#secret"), 1);
    match next {
        Unauthed::Admitted { user, greeting } => {
            assert_eq!(user.name, "ann");
            assert_eq!(user.client, "cli");
            assert!(user.channels.is_empty());
            assert_eq!(
                greeting,
                vec![
                    Message::from(Motd { message: text("hello\nworld!") }),
                    Message::from(ChannelList {
                        channels: vec![ChannelUpdate { target: text("#lobby"), users: 4 }],
                    }),
                ]
            );
        }
        _ => panic!("not admitted"),
    }
    assert!(server.users.contains_key(&text("ann")));
}

#[test]
fn a_taken_name_is_refused_whatever_the_secret() {
    let mut server = server();
    let _: Next = unauthed(&mut server, auth("ann#one"), 1);
    let next: Next = unauthed(&mut server, auth("ann#two"), 2);
    assert!(matches!(
        next,
        Unauthed::Reply { message } if message == error("The name ann is unavailable.", "name_unavailable")
    ));
    assert_eq!(server.users.keys(), vec!["ann"]);
}

#[test]
fn nothing_but_auth_is_taken_before_a_name() {
    let mut server = server();
    let next: Next = unauthed(&mut server, Inbound::Message(say("#lobby")), 1);
    assert!(matches!(
        next,
        Unauthed::Reply { message }
            if message == error("You must authenticate before sending other commands.", "unauthorized")
    ));
    assert!(server.users.is_empty());
}

#[test]
fn a_connection_without_a_user_ends() {
    let mut server = server();
    let next: Next = unauthed(&mut server, Inbound::Closed, 1);
    assert!(matches!(next, Unauthed::Finished));
    let next: Next = unauthed(&mut server, Inbound::Failed("reset"), 1);
    assert!(matches!(next, Unauthed::Failed("reset")));
    let next: Next = unauthed(&mut server, Inbound::Undecodable("bad type"), 1);
    assert!(matches!(next, Unauthed::Failed("bad type")));
    assert!(server.users.is_empty());
}

#[test]
fn a_message_goes_to_the_channel_under_the_users_name() {
    let mut user = user_in("ann", "#lobby");
    assert_eq!(
        user.handle_common_message(In::Message(say("#lobby"))),
        Dispatch::Forward { target: text("#lobby"), source: text("ann"), message: say("#lobby") }
    );
    let ready =
        Message::from(GReadyState { ready: true, target: text("#lobby"), source: text("") });
    assert_eq!(
        user.handle_common_message(In::Message(ready.clone())),
        Dispatch::Forward { target: text("#lobby"), source: text("ann"), message: ready }
    );
}

#[test]
fn a_message_to_a_channel_that_the_user_is_not_in_goes_nowhere() {
    let mut user = user_in("ann", "#lobby");
    assert_eq!(user.handle_common_message(In::Message(say("#games"))), Dispatch::Handled);
}

#[test]
fn a_join_is_asked_of_the_channel() {
    let mut user = user("ann");
    let join = Message::from(Join { user: text("bob"), target: text("#lobby") });
    assert_eq!(
        user.handle_common_message(In::Message(join)),
        Dispatch::Join { target: text("#lobby") }
    );
    assert_eq!(user.join_channel(&text("#lobby")), JoinStep::Request);
    let request = user.join_request('r', 'o');
    assert_eq!(request.name, "ann");
    assert_eq!(request.response, 'r');
    assert_eq!(request.outgoing, 'o');
}

#[test]
fn a_channel_that_ended_is_asked_anew() {
    let mut user = user("ann");
    assert_eq!(user.join_answered(text("#lobby"), None), JoinStep::Request);
    assert!(user.channels.is_empty());
}

#[test]
fn a_channel_is_joined_once() {
    let user = user_in("ann", "#lobby");
    assert_eq!(
        user.join_channel(&text("#lobby")),
        JoinStep::Reply { message: error("You're already in #lobby", "already_in_channel") }
    );
}

#[test]
fn a_user_can_join_again_after_leaving() {
    let mut user = user_in("ann", "#lobby");
    let part = Message::from(Part { user: text("ann"), target: text("#lobby") });
    assert_eq!(user.handle_common_message(In::Message(part)), Dispatch::Handled);
    assert_eq!(user.join_channel(&text("#lobby")), JoinStep::Request);
    assert!(user.channels.is_empty());
}

#[test]
fn other_messages_are_left_to_the_state_of_the_connection() {
    let mut user = user_in("ann", "#lobby");
    let start = Message::from(GStart { target: text("#lobby"), users: vec![] });
    assert_eq!(
        user.handle_common_message(In::Message(start.clone())),
        Dispatch::Unhandled { message: start }
    );
}

#[test]
fn a_connection_with_a_user_ends() {
    let mut user = user("ann");
    assert_eq!(user.handle_common_message(In::Closed), Dispatch::End);
    assert_eq!(user.handle_common_message(In::Failed("reset")), Dispatch::End);
    assert_eq!(user.handle_common_message(In::Undecodable("bad type")), Dispatch::End);
}

#[test]
fn a_full_buffer_gets_a_notice() {
    let to = vec![text("ann"), text("bob"), text("cat")];
    let kicked = error("Kicked due to full buffers.", "kicked");
    assert_eq!(
        msg(&to, &vec![true, false, true]),
        vec![(text("ann"), None), (text("bob"), Some(kicked.clone())), (text("cat"), None)]
    );
    assert_eq!(
        msg(&to, &vec![false, false, false]),
        vec![
            (text("ann"), Some(kicked.clone())),
            (text("bob"), Some(kicked.clone())),
            (text("cat"), Some(kicked)),
        ]
    );
    assert_eq!(msg(&vec![], &vec![]), vec![]);
}

#[test]
fn the_default_channels_are_joined_each_once() {
    let server: Server =
        GlobalState::new(vec![text("#a"), text("#b"), text("#a"), text("#c")]);
    let mut user = user_in("ann", "#b");
    let mut done = 0;
    while let Some(target) = server.join_default_channels(done) {
        if user.join_channel(&target) == JoinStep::Request {
            assert_eq!(user.join_answered(target.clone(), None), JoinStep::Request);
            let response = JoinResponse::new(&user.name, "default", 1);
            assert_eq!(user.join_answered(target, Some(response)), JoinStep::Done);
        }
        done += 1;
    }
    assert_eq!(done, 4);
    assert_eq!(user.channels.keys(), vec!["#b", "#a", "#c"]);
    assert_eq!(user.channels.get(&text("#b")).unwrap().incoming.sender, "in");
    assert_eq!(user.channels.get(&text("#a")).unwrap().incoming.sender, "default");
}

#[test]
fn a_reply_leaves_a_connection_without_a_user() {
    let next: Next = unauthed(&mut server(), In::Message(say("#lobby")), 1);
    let (stage, messages) = after_unauthed(next);
    assert!(matches!(stage, Stage::Unauthed));
    assert_eq!(
        messages,
        vec![error("You must authenticate before sending other commands.", "unauthorized")]
    );
}

#[test]
fn an_end_or_an_error_ends_the_life_of_a_connection() {
    let next: Next = Unauthed::Finished;
    let (stage, messages) = after_unauthed(next);
    assert!(matches!(stage, Stage::Over));
    assert_eq!(messages, vec![]);
    let next: Next = Unauthed::Failed("reset");
    let (stage, messages) = after_unauthed(next);
    assert!(matches!(stage, Stage::Over));
    assert_eq!(messages, vec![]);
}

#[test]
fn the_default_channels_come_before_any_message() {
    let mut server: Server = GlobalState::new(vec![text("#a"), text("#b")]);
    let next: Next = unauthed(&mut server, auth("ann"), 1);
    let (mut stage, greeting) = after_unauthed(next);
    assert_eq!(greeting.len(), 2);
    let mut joined = vec![];
    loop {
        stage = match stage {
            Stage::Defaults { user, done } => {
                assert_eq!(user.name, "ann");
                assert_eq!(done, joined.len());
                let (next, target) = next_default(&server, user, done);
                joined.extend(target);
                next
            }
            Stage::Serving { user } => {
                assert_eq!(user.name, "ann");
                break;
            }
            _ => panic!("not on the way to serving"),
        };
    }
    assert_eq!(joined, vec!["#a", "#b"]);
}

#[test]
fn without_default_channels_messages_come_at_once() {
    let server: Server = GlobalState::new(vec![]);
    let (stage, target) = next_default(&server, user("ann"), 0);
    assert!(matches!(stage, Stage::Serving { .. }));
    assert_eq!(target, None);
}

#[test]
fn a_user_is_served_until_the_end() {
    let stage = after_dispatch(user("ann"), &Dispatch::Handled);
    assert!(matches!(stage, Stage::Serving { user } if user.name == "ann"));
    let stage = after_dispatch(user("ann"), &Dispatch::Join { target: text("#a") });
    assert!(matches!(stage, Stage::Serving { .. }));
    let stage = after_dispatch(user("ann"), &Dispatch::End);
    assert!(matches!(stage, Stage::Over));
}
