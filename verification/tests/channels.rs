use lobby::channel::{channel, Action, IncomingSink, JoinResponse, Room};
use lobby::message::{
    ChannelUpdate, Cmsg, Data, Error, GReadyState, GStart, Join, Message, Part, UserList,
};

fn text(s: &str) -> String {
    s.to_string()
}

fn texts(s: &[&str]) -> Vec<String> {
    s.iter().map(|s| s.to_string()).collect()
}

fn room() -> Room {
    channel(&text("#lobby"), 3, ()).1
}

fn say(line: &str, claimed: &str) -> Message {
    Message {
        version: 9,
        data: Data::Cmsg(Cmsg {
            message: text(line),
            target: text("#lobby"),
            source: text(claimed),
        }),
    }
}

fn readiness(ready: bool, source: &str) -> Message {
    Message::from(GReadyState { ready, target: text("#lobby"), source: text(source) })
}

fn start() -> Message {
    Message::from(GStart { target: text("#lobby"), users: vec![] })
}

fn error(message: &str, code: &str) -> Message {
    Message::from(Error { message: text(message), code: text(code) })
}

fn joined(user: &str) -> Message {
    Message::from(Join { user: text(user), target: text("#lobby") })
}

fn parted(user: &str) -> Message {
    Message::from(Part { user: text(user), target: text("#lobby") })
}

fn count(users: usize) -> Message {
    Message::from(ChannelUpdate { target: text("#lobby"), users })
}

fn present(users: &[&str]) -> Message {
    Message::from(UserList { target: text("#lobby"), users: texts(users) })
}

#[test]
fn a_new_channel_is_empty() {
    let (entry, room) = channel(&text("#lobby"), 3, "sender");
    assert_eq!(entry.count_users(), 0);
    assert_eq!(entry.join_sender, "sender");
    assert_eq!(entry.ticket, 3);
    assert_eq!(room.name(), "#lobby");
    assert_eq!(room.ticket(), 3);
}

#[test]
fn the_first_user_is_welcomed() {
    let mut room = room();
    assert_eq!(
        room.join(text("ann"), true),
        vec![
            Action::Keep { user: text("ann") },
            Action::Count { users: 1 },
            Action::Send { to: texts(&["ann"]), message: joined("ann") },
            Action::Announce { message: count(1) },
            Action::Greet { user: text("ann"), message: present(&["ann"]) },
        ]
    );
}

#[test]
fn a_user_who_is_gone_before_the_answer_does_not_join() {
    let mut room = room();
    assert_eq!(room.join(text("ann"), false), vec![]);
    let todo = room.join(text("bob"), true);
    assert_eq!(todo[1], Action::Count { users: 1 });
    assert_eq!(todo[4], Action::Greet { user: text("bob"), message: present(&["bob"]) });
}

#[test]
fn a_newcomer_is_told_who_is_ready() {
    let mut room = room();
    room.join(text("ann"), true);
    room.join(text("bob"), true);
    room.join(text("cat"), true);
    room.incoming(text("cat"), readiness(true, ""));
    room.incoming(text("ann"), readiness(true, ""));
    room.incoming(text("bob"), readiness(true, ""));
    room.incoming(text("bob"), readiness(false, ""));
    assert_eq!(
        room.join(text("dan"), true),
        vec![
            Action::Keep { user: text("dan") },
            Action::Count { users: 4 },
            Action::Send { to: texts(&["ann", "bob", "cat", "dan"]), message: joined("dan") },
            Action::Announce { message: count(4) },
            Action::Greet {
                user: text("dan"),
                message: present(&["ann", "bob", "cat", "dan"]),
            },
            Action::Greet { user: text("dan"), message: readiness(true, "ann") },
            Action::Greet { user: text("dan"), message: readiness(true, "cat") },
        ]
    );
}

#[test]
fn a_line_of_chat_goes_to_everybody_under_the_speakers_name() {
    let mut room = room();
    room.join(text("ann"), true);
    room.join(text("bob"), true);
    let expected = Message::from(Cmsg {
        message: text("hi"),
        target: text("#lobby"),
        source: text("ann"),
    });
    assert_eq!(
        room.incoming(text("ann"), say("hi", "bob")),
        vec![Action::Send { to: texts(&["ann", "bob"]), message: expected }]
    );
}

#[test]
fn readiness_goes_to_everybody_under_the_users_name() {
    let mut room = room();
    room.join(text("ann"), true);
    room.join(text("bob"), true);
    assert_eq!(
        room.incoming(text("bob"), readiness(true, "ann")),
        vec![Action::Send { to: texts(&["ann", "bob"]), message: readiness(true, "bob") }]
    );
}

#[test]
fn an_outsider_changes_nothing() {
    let mut room = room();
    room.join(text("ann"), true);
    assert_eq!(room.incoming(text("eve"), readiness(true, "ann")), vec![]);
    assert_eq!(room.incoming(text("eve"), start()), vec![]);
    let heard = Message::from(Cmsg {
        message: text("hi"),
        target: text("#lobby"),
        source: text("eve"),
    });
    assert_eq!(
        room.incoming(text("eve"), say("hi", "ann")),
        vec![Action::Send { to: texts(&["ann"]), message: heard }]
    );
    let todo = room.join(text("bob"), true);
    assert_eq!(todo.len(), 5);
}

#[test]
fn a_start_needs_readiness_and_no_other_game() {
    let mut room = room();
    room.join(text("ann"), true);
    room.join(text("bob"), true);
    assert_eq!(
        room.incoming(text("ann"), start()),
        vec![Action::Send {
            to: texts(&["ann"]),
            message: error("You must be ready to start a game", "unauthorized"),
        }]
    );
    room.incoming(text("ann"), readiness(true, ""));
    assert_eq!(room.incoming(text("ann"), start()), vec![]);
    assert_eq!(
        room.incoming(text("ann"), start()),
        vec![Action::Send {
            to: texts(&["ann"]),
            message: error("A game is already running", "already_running"),
        }]
    );
    assert_eq!(
        room.incoming(text("bob"), start()),
        vec![Action::Send {
            to: texts(&["bob"]),
            message: error("You must be ready to start a game", "unauthorized"),
        }]
    );
}

#[test]
fn a_game_goes_on_when_its_players_leave() {
    let mut room = room();
    room.join(text("ann"), true);
    room.join(text("bob"), true);
    room.incoming(text("ann"), readiness(true, ""));
    room.incoming(text("bob"), readiness(true, ""));
    room.incoming(text("ann"), start());
    room.part(text("ann"));
    assert_eq!(
        room.incoming(text("bob"), start()),
        vec![Action::Send {
            to: texts(&["bob"]),
            message: error("A game is already running", "already_running"),
        }]
    );
}

#[test]
fn the_count_follows_joins_and_parts() {
    let mut room = room();
    assert_eq!(room.count_users(), 0);
    room.join(text("ann"), true);
    room.join(text("ann"), true);
    room.join(text("bob"), true);
    assert_eq!(room.count_users(), 3);
    room.part(text("ann"));
    room.part(text("bob"));
    assert_eq!(room.count_users(), 1);
}

#[test]
fn a_part_is_told_to_the_leaver_too() {
    let mut room = room();
    room.join(text("ann"), true);
    room.join(text("bob"), true);
    assert_eq!(
        room.part(text("ann")),
        vec![
            Action::Send { to: texts(&["ann", "bob"]), message: parted("ann") },
            Action::Drop { user: text("ann") },
            Action::Count { users: 1 },
            Action::Announce { message: count(1) },
        ]
    );
}

#[test]
fn the_last_part_closes_the_channel() {
    let mut room = room();
    room.join(text("ann"), true);
    assert_eq!(
        room.part(text("ann")),
        vec![
            Action::Send { to: texts(&["ann"]), message: parted("ann") },
            Action::Drop { user: text("ann") },
            Action::Count { users: 0 },
            Action::Announce { message: count(0) },
            Action::Close,
        ]
    );
}

#[test]
fn a_join_that_overtakes_its_part_is_counted_twice() {
    let mut room = room();
    room.join(text("ann"), true);
    room.join(text("bob"), true);
    let todo = room.join(text("ann"), true);
    assert_eq!(todo[1], Action::Count { users: 3 });
    assert_eq!(todo[4], Action::Greet { user: text("ann"), message: present(&["ann", "bob"]) });
    let todo = room.part(text("ann"));
    assert_eq!(todo[2], Action::Count { users: 2 });
    let todo = room.part(text("ann"));
    assert_eq!(todo[0], Action::Send { to: texts(&["bob"]), message: parted("ann") });
    assert_eq!(todo[2], Action::Count { users: 1 });
    assert_eq!(todo.len(), 4);
}

#[test]
fn joining_again_takes_readiness_away() {
    let mut room = room();
    room.join(text("ann"), true);
    room.incoming(text("ann"), readiness(true, ""));
    room.join(text("ann"), true);
    let todo = room.join(text("bob"), true);
    assert_eq!(todo.len(), 5);
}

#[test]
fn a_user_leaves_a_room_as_it_was() {
    let mut room = room();
    room.join(text("ann"), true);
    room.join(text("bob"), true);
    room.part(text("bob"));
    let todo = room.join(text("cat"), true);
    assert_eq!(todo[1], Action::Count { users: 2 });
    assert_eq!(todo[4], Action::Greet { user: text("cat"), message: present(&["ann", "cat"]) });
}

#[test]
fn a_sink_signs_with_its_own_name() {
    let response = JoinResponse::new(&text("ann"), "in", "parted");
    assert_eq!(response.parted, "parted");
    assert_eq!(response.incoming.sender, "in");
    let sink: IncomingSink<&str> = response.incoming;
    let (source, _) = sink.clone().tag(say("hi", "bob"));
    assert_eq!(source, "ann");
    let (source, message) = sink.tag(say("hi", "bob"));
    assert_eq!(source, "ann");
    assert_eq!(message, say("hi", "bob"));
}

#[test]
fn only_the_latest_readiness_since_joining_counts() {
    let mut room = room();
    room.join(text("ann"), true);
    room.join(text("bob"), true);
    room.join(text("cat"), true);
    room.incoming(text("ann"), readiness(true, ""));
    room.incoming(text("bob"), readiness(true, ""));
    room.part(text("ann"));
    room.incoming(text("ann"), readiness(true, ""));
    room.join(text("ann"), true);
    room.incoming(text("cat"), readiness(false, ""));
    room.incoming(text("cat"), readiness(true, ""));
    room.incoming(text("cat"), say("hi", ""));
    let todo = room.join(text("dan"), true);
    assert_eq!(
        todo[5..],
        [
            Action::Greet { user: text("dan"), message: readiness(true, "bob") },
            Action::Greet { user: text("dan"), message: readiness(true, "cat") },
        ]
    );
}
