//! What holds of the server across several events.
use crate::channel::{server_message, ActionView, JoinResponse, RoomView};
use crate::message::{
    strings, Auth, ChannelList, ChannelUpdate, Cmsg, Data, DataView, Error, GReadyState, GStart,
    Join, Message, MessageView, Motd, Part, UserList, VERSION,
};
use crate::name_map::{lemma_without_absent_name, lemma_without_name_at, with_name, without_name};
use crate::session::{
    display_name, kicked, msg, next_default, notice_for, notice_view, Dispatch, Stage,
};
use crate::state::{GlobalState, User};
use crate::websocket::{IntoWebsocketMessage, WsMessage};
use vstd::multiset::Multiset;
use vstd::prelude::*;

verus! {

// ---------------------------------------------------------------- names

proof fn lemma_with_name(names: Seq<Seq<char>>, name: Seq<char>)
    requires
        names.no_duplicates(),
    ensures
        with_name(names, name).no_duplicates(),
        with_name(names, name).to_set() == names.to_set().insert(name),
        forall|other: Seq<char>| #[trigger]
            with_name(names, name).contains(other) <==> (names.contains(other) || other == name),
{
    let after = with_name(names, name);
    if !names.contains(name) {
        assert(after[names.len() as int] == name);
        assert forall|other: Seq<char>| #[trigger]
            after.contains(other) <==> (names.contains(other) || other == name) by {
            if names.contains(other) {
                let i = choose|i: int| 0 <= i < names.len() && names[i] == other;
                assert(after[i] == other);
            }
            if after.contains(other) && other != name {
                let i = choose|i: int| 0 <= i < after.len() && after[i] == other;
                assert(names[i] == other);
            }
        }
        assert forall|i: int, j: int|
            0 <= i < after.len() && 0 <= j < after.len() && i != j implies after[i]
            != after[j] by {
            if i < names.len() {
                assert(names.contains(names[i]));
            }
            if j < names.len() {
                assert(names.contains(names[j]));
            }
        }
    }
    assert(after.to_set() =~= names.to_set().insert(name));
}

pub(crate) proof fn lemma_without_name(names: Seq<Seq<char>>, name: Seq<char>)
    requires
        names.no_duplicates(),
    ensures
        without_name(names, name).no_duplicates(),
        without_name(names, name).to_set() == names.to_set().remove(name),
        without_name(names, name).len() == if names.contains(name) {
            names.len() - 1
        } else {
            names.len() as int
        },
        forall|other: Seq<char>| #[trigger]
            without_name(names, name).contains(other) <==> (names.contains(other) && other
                != name),
{
    let after = without_name(names, name);
    if names.contains(name) {
        let k = choose|k: int| 0 <= k < names.len() && names[k] == name;
        lemma_without_name_at(names, k);
        assert forall|other: Seq<char>| #[trigger]
            after.contains(other) <==> (names.contains(other) && other != name) by {
            if names.contains(other) && other != name {
                let i = choose|i: int| 0 <= i < names.len() && names[i] == other;
                assert(after[if i < k { i } else { i - 1 }] == other);
            }
            if after.contains(other) {
                let i = choose|i: int| 0 <= i < after.len() && after[i] == other;
                assert(names[if i < k { i } else { i + 1 }] == other);
            }
        }
    } else {
        lemma_without_absent_name(names, name);
    }
    assert(after.to_set() =~= names.to_set().remove(name));
}

proof fn lemma_without_undoes_with(names: Seq<Seq<char>>, name: Seq<char>)
    requires
        names.no_duplicates(),
        !names.contains(name),
    ensures
        without_name(names.push(name), name) == names,
{
    let n = names.len() as int;
    assert(names.push(name).no_duplicates()) by {
        lemma_with_name(names, name);
    }
    assert(names.push(name)[n] == name);
    lemma_without_name_at(names.push(name), n);
    assert(names.push(name).remove(n) =~= names);
}

/// A name without `#` is shown as it is.
pub proof fn law_plain_name_is_shown(name: Seq<char>)
    requires
        !name.contains('#'),
    ensures
        display_name(name) == name,
{
    name.index_of_last_ensures('#');
}

/// Of a name given with a secret behind its last `#`, the part before the `#` is
/// shown, and nothing of the secret.
pub proof fn law_secret_is_not_shown(name: Seq<char>, secret: Seq<char>)
    requires
        !secret.contains('#'),
    ensures
        display_name(name + seq!['#'] + secret) == name,
{
    let given = name + seq!['#'] + secret;
    let n = name.len() as int;
    assert(given[n] == '#');
    assert(given.contains('#'));
    given.index_of_last_ensures('#');
    let i = given.index_of_last('#')->Some_0;
    if i > n {
        assert(given[i] == secret[i - n - 1]);
        assert(secret.contains('#'));
    }
    assert(given.take(n) =~= name);
}

// ---------------------------------------------------------------- a room

/// Whatever happens, no user is in a room twice and only users of the room are ready.
pub proof fn law_room_stays_well_formed(room: RoomView, user: Seq<char>, data: DataView)
    requires
        room.wf(),
    ensures
        room.joined(user).wf(),
        room.parted(user).wf(),
        room.heard(user, data).wf(),
{
    lemma_with_name(room.users, user);
    lemma_without_name(room.users, user);
}

/// A user who was not in the room and joins and leaves it, leaves it as it was.
pub proof fn law_part_undoes_join(room: RoomView, user: Seq<char>)
    requires
        room.wf(),
        !room.users.contains(user),
    ensures
        room.joined(user).parted(user) == room,
{
    lemma_without_undoes_with(room.users, user);
    assert(room.joined(user).parted(user).ready =~= room.ready);
}

/// After joining a user is in the room, and not ready. After leaving, the user is
/// neither in the room nor ready. Everybody else is as before.
pub proof fn law_join_and_part_concern_one_user(
    room: RoomView,
    user: Seq<char>,
    other: Seq<char>,
)
    requires
        room.wf(),
        other != user,
    ensures
        room.joined(user).users.contains(user),
        !room.joined(user).ready.contains(user),
        !room.parted(user).users.contains(user),
        !room.parted(user).ready.contains(user),
        room.joined(user).users.contains(other) == room.users.contains(other),
        room.joined(user).ready.contains(other) == room.ready.contains(other),
        room.parted(user).users.contains(other) == room.users.contains(other),
        room.parted(user).ready.contains(other) == room.ready.contains(other),
{
    lemma_with_name(room.users, user);
    lemma_without_name(room.users, user);
}

/// The room's books are right for the joins that were not followed by their part,
/// `pending`: it counts them, and each of its users has one.
pub open spec fn accounts_for(room: RoomView, pending: Multiset<Seq<char>>) -> bool {
    &&& room.wf()
    &&& room.count == pending.len()
    &&& forall|user: Seq<char>| #[trigger] room.users.contains(user) ==> pending.count(user) > 0
}

/// A new room's books are right.
pub proof fn law_new_room_is_accounted(name: Seq<char>, ticket: u64)
    ensures
        accounts_for(RoomView::empty(name, ticket), Multiset::empty()),
{
}

/// A join keeps the room's books right, whether or not the user's name is in the room.
pub proof fn law_join_is_accounted(
    room: RoomView,
    pending: Multiset<Seq<char>>,
    user: Seq<char>,
)
    requires
        accounts_for(room, pending),
    ensures
        accounts_for(room.joined(user), pending.insert(user)),
{
    lemma_with_name(room.users, user);
}

/// The part that follows a join never finds the count at zero, and keeps the room's
/// books right.
pub proof fn law_part_is_accounted(room: RoomView, pending: Multiset<Seq<char>>, user: Seq<char>)
    requires
        accounts_for(room, pending),
        pending.count(user) > 0,
    ensures
        room.count > 0,
        accounts_for(room.parted(user), pending.remove(user)),
{
    lemma_without_name(room.users, user);
    assert(pending.remove(user).len() == pending.len() - 1);
    assert forall|other: Seq<char>| #[trigger]
        room.parted(user).users.contains(other) implies pending.remove(user).count(other) > 0 by {
        assert(room.users.contains(other) && other != user);
    }
}

/// A message keeps the room's books right.
pub proof fn law_message_is_accounted(
    room: RoomView,
    pending: Multiset<Seq<char>>,
    source: Seq<char>,
    data: DataView,
)
    requires
        accounts_for(room, pending),
    ensures
        accounts_for(room.heard(source, data), pending),
{
}

proof fn lemma_distinct_within(names: Seq<Seq<char>>, pending: Multiset<Seq<char>>)
    requires
        names.no_duplicates(),
        forall|name: Seq<char>| #[trigger] names.contains(name) ==> pending.count(name) > 0,
    ensures
        names.len() <= pending.len(),
    decreases names.len(),
{
    if names.len() > 0 {
        let last = names.last();
        let rest = names.drop_last();
        assert(names.contains(last));
        assert forall|name: Seq<char>| #[trigger] rest.contains(name) implies pending.remove(
            last,
        ).count(name) > 0 by {
            let i = choose|i: int| 0 <= i < rest.len() && rest[i] == name;
            assert(names[i] == name);
            assert(names.contains(name));
        }
        lemma_distinct_within(rest, pending.remove(last));
    }
}

/// A room that keeps its books never counts fewer users than are in it.
pub proof fn law_count_covers_the_users(room: RoomView, pending: Multiset<Seq<char>>)
    requires
        accounts_for(room, pending),
    ensures
        room.users.len() <= room.count,
{
    lemma_distinct_within(room.users, pending);
}

/// What can happen to a room.
pub enum Event {
    Join { user: Seq<char> },
    Part { user: Seq<char> },
    Heard { source: Seq<char>, data: DataView },
}

/// A room after events in their order.
pub open spec fn room_after(room: RoomView, events: Seq<Event>) -> RoomView
    decreases events.len(),
{
    if events.len() == 0 {
        room
    } else {
        let before = room_after(room, events.drop_last());
        match events.last() {
            Event::Join { user } => before.joined(user),
            Event::Part { user } => before.parted(user),
            Event::Heard { source, data } => before.heard(source, data),
        }
    }
}

/// The joins among the events that were not followed by their part.
pub open spec fn pending_after(events: Seq<Event>) -> Multiset<Seq<char>>
    decreases events.len(),
{
    if events.len() == 0 {
        Multiset::empty()
    } else {
        let before = pending_after(events.drop_last());
        match events.last() {
            Event::Join { user } => before.insert(user),
            Event::Part { user } => before.remove(user),
            Event::Heard { .. } => before,
        }
    }
}

/// Each part among the events follows on a join of its own.
pub open spec fn parts_follow_joins(events: Seq<Event>) -> bool {
    forall|i: int|
        0 <= i < events.len() ==> (#[trigger] events[i] matches Event::Part { user }
            ==> pending_after(events.take(i)).count(user) > 0)
}

/// Whatever happens to a room from its start, in whatever order the joins and parts
/// come in as long as each part follows on its join, its books are right, it counts no
/// fewer users than are in it, and no part finds its count at zero.
pub proof fn law_every_history_is_accounted(name: Seq<char>, ticket: u64, events: Seq<Event>)
    requires
        parts_follow_joins(events),
    ensures
        ({
            let room = room_after(RoomView::empty(name, ticket), events);
            accounts_for(room, pending_after(events)) && room.users.len() <= room.count
        }),
        forall|i: int|
            0 <= i < events.len() && #[trigger] events[i] is Part ==> room_after(
                RoomView::empty(name, ticket),
                events.take(i),
            ).count > 0,
    decreases events.len(),
{
    let start = RoomView::empty(name, ticket);
    let room = room_after(start, events);
    if events.len() == 0 {
        law_new_room_is_accounted(name, ticket);
    } else {
        let before = events.drop_last();
        let n = before.len() as int;
        assert forall|i: int| 0 <= i < before.len() implies (#[trigger] before[i] matches Event::Part {
            user,
        } ==> pending_after(before.take(i)).count(user) > 0) by {
            assert(before[i] == events[i]);
            assert(before.take(i) =~= events.take(i));
        }
        law_every_history_is_accounted(name, ticket, before);
        assert(events.take(n) =~= before);
        match events.last() {
            Event::Join { user } => {
                law_join_is_accounted(room_after(start, before), pending_after(before), user);
            },
            Event::Part { user } => {
                assert(events[n] == events.last());
                law_part_is_accounted(room_after(start, before), pending_after(before), user);
            },
            Event::Heard { source, data } => {
                law_message_is_accounted(
                    room_after(start, before),
                    pending_after(before),
                    source,
                    data,
                );
            },
        }
        assert forall|i: int| 0 <= i < events.len() && #[trigger] events[i] is Part implies room_after(
            start,
            events.take(i),
        ).count > 0 by {
            if i < n {
                assert(before[i] == events[i]);
                assert(before.take(i) =~= events.take(i));
            }
        }
    }
    law_count_covers_the_users(room, pending_after(events));
}

/// While nobody joins a room that they are in and nobody leaves one that they are
/// not in, a room's count is the number of its users.
pub proof fn law_count_is_exact(
    room: RoomView,
    user: Seq<char>,
    source: Seq<char>,
    data: DataView,
)
    requires
        room.wf(),
        room.count == room.users.len(),
    ensures
        !room.users.contains(user) ==> room.joined(user).count == room.joined(user).users.len(),
        room.users.contains(user) ==> room.count > 0 && room.parted(user).count == room.parted(
            user,
        ).users.len(),
        room.heard(source, data).count == room.heard(source, data).users.len(),
{
    lemma_without_name(room.users, user);
}

/// A room is closed when the last user leaves it, and at no other time.
pub proof fn law_room_closes_when_empty(
    room: RoomView,
    user: Seq<char>,
    source: Seq<char>,
    data: DataView,
)
    requires
        room.wf(),
    ensures
        room.farewell(user).contains(ActionView::Close) <==> (forall|other: Seq<char>| #[trigger]
            room.users.contains(other) ==> other == user),
        !room.joined(user).welcome(user).contains(ActionView::Close),
        !room.responses(source, data).contains(ActionView::Close),
{
    lemma_without_name(room.users, user);
    let after = room.parted(user).users;
    let todo = room.farewell(user);
    if after.len() == 0 {
        assert(todo[4] == ActionView::Close);
        assert forall|other: Seq<char>| #[trigger] room.users.contains(other) implies other
            == user by {
            if other != user {
                assert(after.contains(other));
            }
        }
    } else {
        assert(after.contains(after[0]));
        assert(room.users.contains(after[0]) && after[0] != user);
    }
    let joined = room.joined(user);
    let notices = joined.readiness_notices(user);
    assert forall|i: int| 0 <= i < joined.welcome(user).len() implies #[trigger] joined.welcome(
        user,
    )[i] != ActionView::Close by {
        if i >= 5 {
            assert(joined.welcome(user)[i] == notices[i - 5]);
        }
    }
}

/// The count that a room publishes on a join or a part is the one that everybody on
/// the server is told right after.
pub proof fn law_announced_count_is_published(room: RoomView, user: Seq<char>)
    ensures
        ({
            let todo = room.welcome(user);
            todo[1] == (ActionView::Count { users: room.count as usize }) && todo[3] == (
            ActionView::Announce {
                message: server_message(
                    DataView::ChannelUpdate { target: room.name, count: room.count as usize },
                ),
            })
        }),
        ({
            let todo = room.farewell(user);
            let count = room.parted(user).count as usize;
            todo[2] == (ActionView::Count { users: count }) && todo[3] == (ActionView::Announce {
                message: server_message(DataView::ChannelUpdate { target: room.name, count }),
            })
        }),
{
}

/// After the events `user` is in the room that was `start` before them: the latest join
/// or part of the user is a join.
pub open spec fn member_after(start: RoomView, events: Seq<Event>, user: Seq<char>) -> bool
    decreases events.len(),
{
    if events.len() == 0 {
        start.users.contains(user)
    } else {
        match events.last() {
            Event::Join { user: joined } if joined == user => true,
            Event::Part { user: parted } if parted == user => false,
            _ => member_after(start, events.drop_last(), user),
        }
    }
}

/// What `user` said last about being ready, after the events, since joining or leaving
/// the room that was `start` before them.
pub open spec fn said_ready(start: RoomView, events: Seq<Event>, user: Seq<char>) -> bool
    decreases events.len(),
{
    if events.len() == 0 {
        start.ready.contains(user)
    } else {
        match events.last() {
            Event::Join { user: joined } if joined == user => false,
            Event::Part { user: parted } if parted == user => false,
            Event::Heard { source, data: DataView::GReadyState { ready, .. } } if source
                == user => ready,
            _ => said_ready(start, events.drop_last(), user),
        }
    }
}

/// Whatever happens to a room, it stays well-formed, its users are those whose latest
/// join or part is a join, and its ready users are those of them who, since joining,
/// said last that they are ready.
pub proof fn law_history_decides_who_is_ready(
    start: RoomView,
    events: Seq<Event>,
    user: Seq<char>,
)
    requires
        start.wf(),
    ensures
        room_after(start, events).wf(),
        room_after(start, events).users.contains(user) <==> member_after(start, events, user),
        room_after(start, events).ready.contains(user) <==> member_after(start, events, user)
            && said_ready(start, events, user),
    decreases events.len(),
{
    if events.len() > 0 {
        let before = events.drop_last();
        let room = room_after(start, before);
        law_history_decides_who_is_ready(start, before, user);
        match events.last() {
            Event::Join { user: joined } => {
                lemma_with_name(room.users, joined);
                law_room_stays_well_formed(room, joined, arbitrary());
            },
            Event::Part { user: parted } => {
                lemma_without_name(room.users, parted);
                law_room_stays_well_formed(room, parted, arbitrary());
            },
            Event::Heard { source, data } => {
                law_room_stays_well_formed(room, source, data);
            },
        }
    }
}

/// What follows on a join tells everybody in the room, the newcomer included, of the
/// join, and the newcomer alone who is in the room, each once, and then who is ready,
/// each once and nobody else.
pub proof fn law_newcomer_is_told_who_is_there(room: RoomView, newcomer: Seq<char>)
    requires
        room.wf(),
    ensures
        ({
            let joined = room.joined(newcomer);
            let todo = joined.welcome(newcomer);
            &&& joined.users.no_duplicates()
            &&& forall|user: Seq<char>| #[trigger]
                joined.users.contains(user) <==> room.users.contains(user) || user == newcomer
            &&& todo[2] == (ActionView::Send {
                to: joined.users,
                message: server_message(
                    DataView::Join { user: newcomer, target: room.name },
                ),
            })
            &&& todo[4] == (ActionView::Greet {
                user: newcomer,
                message: server_message(
                    DataView::UserList { target: room.name, users: joined.users },
                ),
            })
            &&& todo.len() == 5 + joined.ready_users().len()
            &&& forall|i: int|
                5 <= i < todo.len() ==> #[trigger] todo[i] == joined.readiness_notice(
                    newcomer,
                    joined.ready_users()[i - 5],
                )
            &&& forall|user: Seq<char>|
                todo.contains(#[trigger] joined.readiness_notice(newcomer, user))
                    <==> room.ready.contains(user) && user != newcomer
            &&& forall|i: int, j: int|
                5 <= i < j < todo.len() ==> #[trigger] todo[i] != #[trigger] todo[j]
        }),
{
    let joined = room.joined(newcomer);
    let todo = joined.welcome(newcomer);
    let pred = |user: Seq<char>| joined.ready.contains(user);
    let told = joined.ready_users();
    lemma_with_name(room.users, newcomer);
    joined.users.filter_lemma(pred);
    lemma_filter_keeps_distinct(joined.users, pred);
    assert forall|user: Seq<char>|
        todo.contains(#[trigger] joined.readiness_notice(newcomer, user)) <==> room.ready.contains(
            user,
        ) && user != newcomer by {
        let notice = joined.readiness_notice(newcomer, user);
        if joined.ready.contains(user) {
            assert(joined.users.contains(user));
            let i = choose|i: int| 0 <= i < joined.users.len() && joined.users[i] == user;
            assert(pred(joined.users[i]));
            assert(told.contains(user));
            let k = choose|k: int| 0 <= k < told.len() && told[k] == user;
            assert(todo[5 + k] == notice);
        }
        if todo.contains(notice) {
            let i = choose|i: int| 0 <= i < todo.len() && todo[i] == notice;
            assert(i >= 5);
            assert(todo[i] == joined.readiness_notice(newcomer, told[i - 5]));
            assert(pred(told[i - 5]));
        }
    }
    assert forall|i: int, j: int| 5 <= i < j < todo.len() implies #[trigger] todo[i]
        != #[trigger] todo[j] by {
        assert(todo[i] == joined.readiness_notice(newcomer, told[i - 5]));
        assert(todo[j] == joined.readiness_notice(newcomer, told[j - 5]));
        assert(told[i - 5] != told[j - 5]);
    }
}

/// Whatever happened to a room before, when `newcomer` joins it everybody in it and
/// the newcomer are told of the join. The newcomer, and nobody else, is then told who
/// is in the room: those who were and the newcomer, each once. After that the newcomer
/// alone is told, once of each, that they are ready: of everybody else in the room
/// whose latest word about it since joining is that they are, and of nobody else. The
/// newcomer is in the room and not ready.
pub proof fn law_join_after_any_history(
    start: RoomView,
    events: Seq<Event>,
    newcomer: Seq<char>,
)
    requires
        start.wf(),
    ensures
        ({
            let joined = room_after(start, events).joined(newcomer);
            let todo = joined.welcome(newcomer);
            &&& joined.users.no_duplicates()
            &&& joined.users.contains(newcomer)
            &&& !joined.ready.contains(newcomer)
            &&& forall|user: Seq<char>| #[trigger]
                joined.users.contains(user) <==> member_after(start, events, user) || user
                    == newcomer
            &&& todo[2] == (ActionView::Send {
                to: joined.users,
                message: server_message(
                    DataView::Join { user: newcomer, target: joined.name },
                ),
            })
            &&& todo[4] == (ActionView::Greet {
                user: newcomer,
                message: server_message(
                    DataView::UserList { target: joined.name, users: joined.users },
                ),
            })
            &&& forall|user: Seq<char>|
                todo.contains(#[trigger] joined.readiness_notice(newcomer, user)) <==> user
                    != newcomer && member_after(start, events, user) && said_ready(
                    start,
                    events,
                    user,
                )
            &&& forall|i: int|
                5 <= i < todo.len() ==> #[trigger] todo[i] == joined.readiness_notice(
                    newcomer,
                    joined.ready_users()[i - 5],
                )
            &&& forall|i: int, j: int|
                5 <= i < j < todo.len() ==> #[trigger] todo[i] != #[trigger] todo[j]
        }),
{
    let room = room_after(start, events);
    let joined = room.joined(newcomer);
    let todo = joined.welcome(newcomer);
    law_history_decides_who_is_ready(start, events, newcomer);
    law_newcomer_is_told_who_is_there(room, newcomer);
    assert forall|user: Seq<char>| #[trigger]
        joined.users.contains(user) <==> member_after(start, events, user) || user
        == newcomer by {
        law_history_decides_who_is_ready(start, events, user);
    }
    assert forall|user: Seq<char>|
        todo.contains(#[trigger] joined.readiness_notice(newcomer, user)) <==> user != newcomer
            && member_after(start, events, user) && said_ready(start, events, user) by {
        law_history_decides_who_is_ready(start, events, user);
        assert(todo.contains(joined.readiness_notice(newcomer, user)) <==> room.ready.contains(
            user,
        ) && user != newcomer);
    }
}

/// A room that fewer things happened to than a `usize` can count has room in its count
/// for another join.
pub proof fn law_another_join_can_be_counted(name: Seq<char>, ticket: u64, events: Seq<Event>)
    requires
        parts_follow_joins(events),
        events.len() < usize::MAX,
    ensures
        room_after(RoomView::empty(name, ticket), events).count < usize::MAX,
{
    law_every_history_is_accounted(name, ticket, events);
    lemma_pending_within(events);
}

proof fn lemma_pending_within(events: Seq<Event>)
    ensures
        pending_after(events).len() <= events.len(),
    decreases events.len(),
{
    if events.len() > 0 {
        lemma_pending_within(events.drop_last());
        let before = pending_after(events.drop_last());
        match events.last() {
            Event::Part { user } => {
                if before.count(user) > 0 {
                    assert(before.remove(user).len() == before.len() - 1);
                } else {
                    assert(before.remove(user) =~= before);
                }
            },
            _ => {},
        }
    }
}

/// A game goes on whatever happens in its room: nothing replaces or ends it.
pub proof fn law_game_goes_on(room: RoomView, user: Seq<char>, data: DataView)
    requires
        room.game is Some,
    ensures
        room.joined(user).game == room.game,
        room.parted(user).game == room.game,
        room.heard(user, data).game == room.game,
{
}

/// A game starts only by a ready user's start, and its players are the ready users,
/// each once, the one who started it among them.
pub proof fn law_game_is_of_the_ready(room: RoomView, user: Seq<char>, data: DataView)
    requires
        room.wf(),
        room.game is None,
    ensures
        room.joined(user).game is None,
        room.parted(user).game is None,
        room.heard(user, data).game is Some <==> data is GStart && room.ready.contains(user),
        room.heard(user, data).game matches Some(players) ==> {
            &&& players.no_duplicates()
            &&& players.contains(user)
            &&& forall|player: Seq<char>| #[trigger]
                players.contains(player) <==> room.ready.contains(player)
        },
{
    let pred = |other: Seq<char>| room.ready.contains(other);
    let players = room.users.filter(pred);
    room.users.filter_lemma(pred);
    lemma_filter_keeps_distinct(room.users, pred);
    assert forall|player: Seq<char>| #[trigger]
        players.contains(player) <==> room.ready.contains(player) by {
        if players.contains(player) {
            let i = choose|i: int| 0 <= i < players.len() && players[i] == player;
            assert(pred(players[i]));
        }
        if room.ready.contains(player) {
            assert(room.users.contains(player));
            let i = choose|i: int| 0 <= i < room.users.len() && room.users[i] == player;
            assert(pred(room.users[i]));
        }
    }
}

proof fn lemma_filter_keeps_distinct(s: Seq<Seq<char>>, pred: spec_fn(Seq<char>) -> bool)
    requires
        s.no_duplicates(),
    ensures
        s.filter(pred).no_duplicates(),
        forall|x: Seq<char>| #[trigger] s.filter(pred).contains(x) ==> s.contains(x),
    decreases s.len(),
{
    reveal(Seq::filter);
    if s.len() > 0 {
        let rest = s.drop_last();
        lemma_filter_keeps_distinct(rest, pred);
        let kept = rest.filter(pred);
        assert forall|x: Seq<char>| #[trigger] s.filter(pred).contains(x) implies s.contains(
            x,
        ) by {
            let i = choose|i: int| 0 <= i < s.filter(pred).len() && s.filter(pred)[i] == x;
            if i < kept.len() {
                assert(kept[i] == x);
                assert(kept.contains(x));
                assert(rest.contains(x));
                let k = choose|k: int| 0 <= k < rest.len() && rest[k] == x;
                assert(s[k] == x);
            } else {
                assert(s[s.len() - 1] == x);
            }
        }
        if pred(s.last()) {
            assert forall|i: int| 0 <= i < kept.len() implies #[trigger] kept[i] != s.last() by {
                assert(kept.contains(kept[i]));
                assert(rest.contains(kept[i]));
                let k = choose|k: int| 0 <= k < rest.len() && rest[k] == kept[i];
                assert(s[k] == kept[i]);
            }
        }
    }
}

// ---------------------------------------------------------------- senders

/// The users whose senders are kept after an action, when those of `kept` are before.
pub open spec fn kept_by(kept: Set<Seq<char>>, action: ActionView) -> Set<Seq<char>> {
    match action {
        ActionView::Keep { user } => kept.insert(user),
        ActionView::Drop { user } => kept.remove(user),
        _ => kept,
    }
}

/// The users whose senders are kept after actions in their order.
pub open spec fn kept_after(kept: Set<Seq<char>>, todo: Seq<ActionView>) -> Set<Seq<char>>
    decreases todo.len(),
{
    if todo.len() == 0 {
        kept
    } else {
        kept_by(kept_after(kept, todo.drop_last()), todo.last())
    }
}

/// There is a kept sender for everybody to whom the action sends by one.
pub open spec fn reaches(kept: Set<Seq<char>>, action: ActionView) -> bool {
    match action {
        ActionView::Send { to, .. } => forall|i: int|
            0 <= i < to.len() ==> kept.contains(#[trigger] to[i]),
        ActionView::Greet { user, .. } => kept.contains(user),
        _ => true,
    }
}

/// Each of the actions, carried out in their order, finds the senders that it needs.
pub open spec fn all_reach(kept: Set<Seq<char>>, todo: Seq<ActionView>) -> bool {
    forall|i: int|
        0 <= i < todo.len() ==> reaches(kept_after(kept, #[trigger] todo.take(i)), todo[i])
}

proof fn lemma_kept_step(kept: Set<Seq<char>>, todo: Seq<ActionView>, i: int)
    requires
        0 <= i < todo.len(),
    ensures
        kept_after(kept, todo.take(i + 1)) == kept_by(kept_after(kept, todo.take(i)), todo[i]),
{
    assert(todo.take(i + 1).drop_last() =~= todo.take(i));
}

proof fn lemma_kept_after_welcome(
    room: RoomView,
    kept: Set<Seq<char>>,
    user: Seq<char>,
    n: int,
)
    requires
        1 <= n <= room.welcome(user).len(),
    ensures
        kept_after(kept, room.welcome(user).take(n)) == kept.insert(user),
    decreases n,
{
    let todo = room.welcome(user);
    lemma_kept_step(kept, todo, n - 1);
    if n == 1 {
        assert(todo.take(0).len() == 0);
    } else {
        lemma_kept_after_welcome(room, kept, user, n - 1);
        if n - 1 >= 5 {
            assert(todo[n - 1] == room.readiness_notices(user)[n - 6]);
        }
    }
}

/// When the senders that are kept are those of a room's users, they still are after
/// all that follows on a join, and each message on the way finds its senders.
pub proof fn law_join_keeps_senders(room: RoomView, user: Seq<char>)
    requires
        room.wf(),
    ensures
        kept_after(room.users.to_set(), room.joined(user).welcome(user)) == room.joined(
            user,
        ).users.to_set(),
        all_reach(room.users.to_set(), room.joined(user).welcome(user)),
{
    let kept = room.users.to_set();
    let joined = room.joined(user);
    let todo = joined.welcome(user);
    lemma_with_name(room.users, user);
    lemma_kept_after_welcome(joined, kept, user, todo.len() as int);
    assert(todo.take(todo.len() as int) =~= todo);
    assert forall|i: int| 0 <= i < todo.len() implies reaches(
        kept_after(kept, #[trigger] todo.take(i)),
        todo[i],
    ) by {
        if i >= 1 {
            lemma_kept_after_welcome(joined, kept, user, i);
        }
        if i >= 5 {
            assert(todo[i] == joined.readiness_notices(user)[i - 5]);
        }
        assert forall|j: int| 0 <= j < joined.users.len() implies kept.insert(user).contains(
            #[trigger] joined.users[j],
        ) by {
            assert(joined.users.contains(joined.users[j]));
            assert(joined.users.to_set().contains(joined.users[j]));
        }
    }
}

/// When the senders that are kept are those of a room's users, they still are after
/// all that follows on a part, and each message on the way finds its senders.
pub proof fn law_part_keeps_senders(room: RoomView, user: Seq<char>)
    requires
        room.wf(),
    ensures
        kept_after(room.users.to_set(), room.farewell(user)) == room.parted(user).users.to_set(),
        all_reach(room.users.to_set(), room.farewell(user)),
{
    let kept = room.users.to_set();
    let todo = room.farewell(user);
    lemma_without_name(room.users, user);
    assert(todo.take(0).len() == 0);
    lemma_kept_step(kept, todo, 0);
    lemma_kept_step(kept, todo, 1);
    lemma_kept_step(kept, todo, 2);
    lemma_kept_step(kept, todo, 3);
    if todo.len() > 4 {
        lemma_kept_step(kept, todo, 4);
    }
    assert(todo.take(todo.len() as int) =~= todo);
    assert forall|i: int| 0 <= i < todo.len() implies reaches(
        kept_after(kept, #[trigger] todo.take(i)),
        todo[i],
    ) by {
        assert forall|j: int| 0 <= j < room.users.len() implies kept.contains(
            #[trigger] room.users[j],
        ) by {
            assert(room.users.contains(room.users[j]));
        }
    }
}

/// What follows on a message changes nothing of the senders that are kept, and finds
/// the senders that it needs.
pub proof fn law_message_keeps_senders(room: RoomView, source: Seq<char>, data: DataView)
    requires
        room.wf(),
    ensures
        kept_after(room.users.to_set(), room.responses(source, data)) == room.heard(
            source,
            data,
        ).users.to_set(),
        all_reach(room.users.to_set(), room.responses(source, data)),
{
    let kept = room.users.to_set();
    let todo = room.responses(source, data);
    assert(todo.take(0).len() == 0);
    if todo.len() > 0 {
        lemma_kept_step(kept, todo, 0);
    }
    assert(todo.take(todo.len() as int) =~= todo);
    assert forall|j: int| 0 <= j < room.users.len() implies kept.contains(
        #[trigger] room.users[j],
    ) by {
        assert(room.users.contains(room.users[j]));
    }
}

// ---------------------------------------------------------------- messages

/// The message that an action sends, if it sends one.
pub open spec fn message_of(action: ActionView) -> Option<MessageView> {
    match action {
        ActionView::Send { message, .. } => Some(message),
        ActionView::Greet { message, .. } => Some(message),
        ActionView::Announce { message } => Some(message),
        _ => None,
    }
}

/// Each message that the actions send has this server's protocol version.
pub open spec fn all_versioned(todo: Seq<ActionView>) -> bool {
    forall|i: int|
        0 <= i < todo.len() ==> (message_of(#[trigger] todo[i]) matches Some(message)
            ==> message.version == VERSION)
}

/// Whatever version a client writes on its messages, all that a room sends has this
/// server's.
pub proof fn law_room_sends_its_version(room: RoomView, user: Seq<char>, data: DataView)
    ensures
        all_versioned(room.welcome(user)),
        all_versioned(room.farewell(user)),
        all_versioned(room.responses(user, data)),
{
    let todo = room.welcome(user);
    assert forall|i: int| 0 <= i < todo.len() implies (message_of(#[trigger] todo[i]) matches Some(
        message,
    ) ==> message.version == VERSION) by {
        if i >= 5 {
            assert(todo[i] == room.readiness_notices(user)[i - 5]);
        }
    }
}

/// A message holds the payload that it was made of, unchanged and as the variant of
/// its kind, and has this server's version.
pub proof fn law_message_holds_its_payload(
    error: Error,
    auth: Auth,
    motd: Motd,
    channel_list: ChannelList,
    channel_update: ChannelUpdate,
    join: Join,
    part: Part,
    user_list: UserList,
    cmsg: Cmsg,
    greadystate: GReadyState,
    gstart: GStart,
    message: Message,
)
    ensures
        call_ensures(<Message as From<Error>>::from, (error,), message) ==> message == (Message {
            version: VERSION,
            data: Data::Error(error),
        }),
        call_ensures(<Message as From<Auth>>::from, (auth,), message) ==> message == (Message {
            version: VERSION,
            data: Data::Auth(auth),
        }),
        call_ensures(<Message as From<Motd>>::from, (motd,), message) ==> message == (Message {
            version: VERSION,
            data: Data::Motd(motd),
        }),
        call_ensures(<Message as From<ChannelList>>::from, (channel_list,), message)
            ==> message == (Message { version: VERSION, data: Data::ChannelList(channel_list) }),
        call_ensures(<Message as From<ChannelUpdate>>::from, (channel_update,), message)
            ==> message == (Message {
            version: VERSION,
            data: Data::ChannelUpdate(channel_update),
        }),
        call_ensures(<Message as From<Join>>::from, (join,), message) ==> message == (Message {
            version: VERSION,
            data: Data::Join(join),
        }),
        call_ensures(<Message as From<Part>>::from, (part,), message) ==> message == (Message {
            version: VERSION,
            data: Data::Part(part),
        }),
        call_ensures(<Message as From<UserList>>::from, (user_list,), message) ==> message == (
        Message { version: VERSION, data: Data::UserList(user_list) }),
        call_ensures(<Message as From<Cmsg>>::from, (cmsg,), message) ==> message == (Message {
            version: VERSION,
            data: Data::Cmsg(cmsg),
        }),
        call_ensures(<Message as From<GReadyState>>::from, (greadystate,), message)
            ==> message == (Message { version: VERSION, data: Data::GReadyState(greadystate) }),
        call_ensures(<Message as From<GStart>>::from, (gstart,), message) ==> message == (
        Message { version: VERSION, data: Data::GStart(gstart) }),
{
}

/// A message made of data holds that data as it is and has this server's version, so
/// messages made of different data are different.
pub proof fn law_different_data_makes_different_messages(
    a: Data,
    b: Data,
    message_a: Message,
    message_b: Message,
)
    requires
        call_ensures(<Message as From<Data>>::from, (a,), message_a),
        call_ensures(<Message as From<Data>>::from, (b,), message_b),
    ensures
        message_a == (Message { version: VERSION, data: a }),
        a != b ==> message_a != message_b,
{
}

/// Of a message that is handed to several users, each gets at most one item: the
/// message, if it was taken, else the notice that the user is kicked. Which of the two
/// depends on that user's own delivery alone, whoever the others are and whatever
/// became of theirs, and nobody else gets anything.
pub proof fn law_deliveries_stand_alone(
    to: Vec<String>,
    delivered: Vec<bool>,
    notices: Vec<(String, Option<Message>)>,
    other_to: Vec<String>,
    other_delivered: Vec<bool>,
    other_notices: Vec<(String, Option<Message>)>,
    i: int,
    j: int,
)
    requires
        delivered@.len() == to@.len(),
        other_delivered@.len() == other_to@.len(),
        call_ensures(msg, (&to, &delivered), notices),
        call_ensures(msg, (&other_to, &other_delivered), other_notices),
        0 <= i < to@.len(),
        0 <= j < other_to@.len(),
        delivered@[i] == other_delivered@[j],
    ensures
        notices@.len() == to@.len(),
        notices@[i].0@ == to@[i]@,
        delivered@[i] <==> notices@[i].1 is None,
        !delivered@[i] ==> notices@[i].1->Some_0@ == kicked(),
        notice_view(notices@[i].1) == notice_view(other_notices@[j].1),
        strings(Seq::new(notices@.len(), |k: int| notices@[k].0)) == strings(to@),
{
    let a = notices@[i];
    let b = other_notices@[j];
    assert(notice_view(a.1) == notice_for(delivered@[i]));
    assert(notice_view(b.1) == notice_for(other_delivered@[j]));
    let users = Seq::new(notices@.len(), |k: int| notices@[k].0);
    assert forall|k: int| 0 <= k < users.len() implies strings(users)[k] == strings(to@)[k] by {
        assert(notices@[k].0@ == to@[k]@);
    }
    assert(strings(users) =~= strings(to@));
}

/// What a client writes as the source of a message makes no difference.
pub proof fn law_claimed_source_is_ignored(
    room: RoomView,
    source: Seq<char>,
    text: Seq<char>,
    ready: bool,
    target: Seq<char>,
    claimed: Seq<char>,
    other: Seq<char>,
)
    ensures
        ({
            let a = DataView::Cmsg { message: text, target, source: claimed };
            let b = DataView::Cmsg { message: text, target, source: other };
            room.responses(source, a) == room.responses(source, b) && room.heard(source, a)
                == room.heard(source, b)
        }),
        ({
            let a = DataView::GReadyState { ready, target, source: claimed };
            let b = DataView::GReadyState { ready, target, source: other };
            room.responses(source, a) == room.responses(source, b) && room.heard(source, a)
                == room.heard(source, b)
        }),
{
}

/// Somebody who is not in a room can change nothing in it. Their lines of chat go
/// out, their other messages are not answered.
pub proof fn law_outsider_changes_nothing(room: RoomView, source: Seq<char>, data: DataView)
    requires
        !room.users.contains(source),
    ensures
        room.heard(source, data) == room,
        !(data is Cmsg) ==> room.responses(source, data).len() == 0,
{
}

// ---------------------------------------------------------------- a user

/// A user who joins a channel on the answer to the user's own request, and leaves
/// channels, goes on speaking under the user's own name.
pub proof fn law_user_keeps_own_name<S, P>(
    user: User<S, P>,
    target: Seq<char>,
    response: JoinResponse<S, P>,
    entered: User<S, P>,
    left: User<S, P>,
)
    requires
        user.signs_own_name(),
        response.incoming.name@ == user.name@,
        user.entered(&entered, target, response),
        user.left(&left, target),
    ensures
        entered.signs_own_name(),
        left.signs_own_name(),
{
}

/// A line of chat that a user sends into a channel goes out there under the user's
/// name and no other, to everybody who is in the channel.
pub proof fn law_chat_names_its_speaker<S, P>(
    user: User<S, P>,
    dispatch: Dispatch,
    message: Message,
    room: RoomView,
)
    requires
        user.signs_own_name(),
        message@.data is Cmsg,
        user.forwards(dispatch, message@.data->Cmsg_target, message),
        dispatch is Forward,
    ensures
        room.responses(dispatch->source@, dispatch->Forward_message@.data) == seq![
            ActionView::Send {
                to: room.users,
                message: server_message(
                    DataView::Cmsg {
                        message: message@.data->Cmsg_message,
                        target: message@.data->Cmsg_target,
                        source: user.name@,
                    },
                ),
            },
        ],
{
}

/// A user who joined a channel is in it until leaving it, and then is not.
pub proof fn law_user_leaves_what_was_joined<S, P>(
    user: User<S, P>,
    target: Seq<char>,
    response: JoinResponse<S, P>,
    entered: User<S, P>,
    left: User<S, P>,
)
    requires
        user.wf(),
        !user.channels@.contains_key(target),
        user.entered(&entered, target, response),
        entered.left(&left, target),
    ensures
        entered.channels@.contains_key(target),
        !left.channels@.contains_key(target),
        left.channels@ == user.channels@,
        left.channels.names() == user.channels.names(),
{
    user.channels.lemma_names();
    let names = user.channels.names();
    lemma_without_undoes_with(names, target);
    assert(left.channels@ =~= user.channels@);
}

/// `names` with each of `targets` put at the end in turn, unless it is among them.
pub open spec fn with_names(names: Seq<Seq<char>>, targets: Seq<Seq<char>>) -> Seq<Seq<char>>
    decreases targets.len(),
{
    if targets.len() == 0 {
        names
    } else {
        with_name(with_names(names, targets.drop_last()), targets.last())
    }
}

/// `states` are those of a user who goes through the default channels of the server
/// from the first to the last, each joined before the next.
pub open spec fn goes_through_defaults<J, O, S, P>(
    global: GlobalState<J, O>,
    states: Seq<User<S, P>>,
) -> bool {
    &&& states.len() == global.default_channels@.len() + 1
    &&& forall|i: int| 0 <= i < states.len() ==> (#[trigger] states[i]).wf()
    &&& forall|i: int|
        0 <= i < global.default_channels@.len() ==> states[i].join_finished(
            &states[i + 1],
            (#[trigger] global.default_channels@[i])@,
        )
}

/// `after` is the user `before` with the channels `targets` joined in their order.
pub open spec fn has_joined<S, P>(
    before: User<S, P>,
    after: User<S, P>,
    targets: Seq<Seq<char>>,
) -> bool {
    &&& after.name == before.name
    &&& after.client == before.client
    &&& after.channels@.dom() == before.channels@.dom().union(targets.to_set())
    &&& forall|target: Seq<char>| #[trigger]
        before.channels@.contains_key(target) ==> after.channels@[target]
            == before.channels@[target]
    &&& after.channels.names() == with_names(before.channels.names(), targets)
    &&& after.channels.names().no_duplicates()
}

proof fn lemma_joined_so_far<J, O, S, P>(
    global: GlobalState<J, O>,
    states: Seq<User<S, P>>,
    n: int,
)
    requires
        goes_through_defaults(global, states),
        0 <= n < states.len(),
    ensures
        has_joined(states[0], states[n], strings(global.default_channels@).take(n)),
    decreases n,
{
    let targets = strings(global.default_channels@);
    states[n].channels.lemma_names();
    if n == 0 {
        assert(targets.take(0).to_set() =~= Set::empty());
        assert(states[0].channels@.dom().union(targets.take(0).to_set())
            =~= states[0].channels@.dom());
    } else {
        let before = states[n - 1];
        let after = states[n];
        let target = targets[n - 1];
        let done = targets.take(n - 1);
        lemma_joined_so_far(global, states, n - 1);
        before.channels.lemma_names();
        assert(target == global.default_channels@[n - 1]@);
        assert(before.join_finished(&after, target));
        assert(targets.take(n).drop_last() =~= done);
        assert(targets.take(n) =~= done.push(target));
        assert(targets.take(n).to_set() =~= done.to_set().insert(target)) by {
            done.lemma_push_to_set_commute(target);
        }
        assert(after.channels@.dom() =~= before.channels@.dom().insert(target));
        assert(after.channels@.dom() =~= states[0].channels@.dom().union(
            targets.take(n).to_set(),
        ));
        assert(after.channels.names() == with_name(before.channels.names(), target));
        assert forall|name: Seq<char>| #[trigger]
            states[0].channels@.contains_key(name) implies after.channels@[name]
            == states[0].channels@[name] by {
            assert(states[0].channels@.dom().contains(name));
            assert(before.channels@.dom().contains(name));
        }
    }
}

/// A user who has gone through the default channels is in those and in the channels
/// that the user was in, which are as they were, and in no other. Each is joined once,
/// in the order of the list. Of an empty list nothing comes.
pub proof fn law_default_channels_are_joined<J, O, S, P>(
    global: GlobalState<J, O>,
    states: Seq<User<S, P>>,
)
    requires
        goes_through_defaults(global, states),
    ensures
        has_joined(states[0], states.last(), strings(global.default_channels@)),
        global.default_channels@.len() == 0 ==> states.last() == states[0],
{
    let n = global.default_channels@.len() as int;
    lemma_joined_so_far(global, states, n);
    assert(strings(global.default_channels@).take(n) =~= strings(global.default_channels@));
}

/// A connection goes through all default channels, from the first to the last, before
/// the user's messages are acted on. `steps` are what `next_default` says from the
/// admission on, until it says that they are, for the users `users` and the numbers of
/// channels `dones` that it is given on the way.
pub proof fn law_defaults_come_before_messages<J, O, S, P>(
    global: GlobalState<J, O>,
    users: Seq<User<S, P>>,
    dones: Seq<usize>,
    steps: Seq<(Stage<S, P>, Option<String>)>,
)
    requires
        steps.len() > 0,
        users.len() == steps.len(),
        dones.len() == steps.len(),
        dones[0] == 0,
        forall|i: int|
            0 <= i < steps.len() ==> call_ensures(
                next_default::<J, O, S, P>,
                (&global, users[i], dones[i]),
                #[trigger] steps[i],
            ),
        forall|i: int|
            0 <= i < steps.len() - 1 ==> (#[trigger] steps[i]).0 is Defaults && steps[i].0->done
                == dones[i + 1],
        steps.last().0 is Serving,
    ensures
        steps.len() == global.default_channels@.len() + 1,
        forall|i: int|
            0 <= i < global.default_channels@.len() ==> (#[trigger] steps[i]).1 is Some
                && steps[i].1->Some_0@ == global.default_channels@[i]@,
{
    assert forall|i: int| 0 <= i < steps.len() implies #[trigger] dones[i] == i by {
        lemma_defaults_counted(global, users, dones, steps, i);
    }
    let last = steps.len() - 1;
    assert(call_ensures(
        next_default::<J, O, S, P>,
        (&global, users[last], dones[last]),
        steps[last],
    ));
    if last > global.default_channels@.len() {
        let n = global.default_channels@.len() as int;
        assert(steps[n].0 is Defaults);
        assert(dones[n] == n);
    }
    assert forall|i: int| 0 <= i < global.default_channels@.len() implies (#[trigger] steps[i]).1
         is Some && steps[i].1->Some_0@ == global.default_channels@[i]@ by {
        assert(dones[i] == i);
    }
}

proof fn lemma_defaults_counted<J, O, S, P>(
    global: GlobalState<J, O>,
    users: Seq<User<S, P>>,
    dones: Seq<usize>,
    steps: Seq<(Stage<S, P>, Option<String>)>,
    n: int,
)
    requires
        0 <= n < steps.len(),
        dones.len() == steps.len(),
        dones[0] == 0,
        forall|i: int|
            0 <= i < steps.len() ==> call_ensures(
                next_default::<J, O, S, P>,
                (&global, users[i], dones[i]),
                #[trigger] steps[i],
            ),
        forall|i: int|
            0 <= i < steps.len() - 1 ==> (#[trigger] steps[i]).0 is Defaults && steps[i].0->done
                == dones[i + 1],
    ensures
        dones[n] == n,
    decreases n,
{
    if n > 0 {
        lemma_defaults_counted(global, users, dones, steps, n - 1);
        assert(global.default_channels.len() == global.default_channels@.len());
        assert(steps[n - 1].0 is Defaults);
    }
}

// ---------------------------------------------------------------- the server

/// A name that was given to a user is taken, and every other name is as free as it was.
pub proof fn law_given_name_is_taken<J, O>(
    before: GlobalState<J, O>,
    after: GlobalState<J, O>,
    name: Seq<char>,
    outgoing: O,
    other: Seq<char>,
)
    requires
        before.admitted(&after, name, outgoing),
        other != name,
    ensures
        after.users@.contains_key(name),
        after.users@.contains_key(other) == before.users@.contains_key(other),
{
}

/// A user who comes and goes leaves the users of the server as they were.
pub proof fn law_release_undoes_claim<J, O>(
    before: GlobalState<J, O>,
    during: GlobalState<J, O>,
    after: GlobalState<J, O>,
    name: Seq<char>,
    outgoing: O,
)
    requires
        before.wf(),
        !before.users@.contains_key(name),
        before.admitted(&during, name, outgoing),
        during.released(&after, name),
    ensures
        after.users@ == before.users@,
        after.users.names() == before.users.names(),
        before.same_but_users(&after),
{
    before.users.lemma_names();
    let names = before.users.names();
    lemma_without_undoes_with(names, name);
    assert(after.users@ =~= before.users@);
}

/// A channel that is opened and closed leaves the channels of the server as they were.
pub proof fn law_close_undoes_open<J, O>(
    before: GlobalState<J, O>,
    during: GlobalState<J, O>,
    after: GlobalState<J, O>,
    name: Seq<char>,
    join_sender: J,
)
    requires
        before.wf(),
        !before.channels@.contains_key(name),
        before.channel_opened(&during, name, join_sender),
        during.channel_closed(&after, name),
    ensures
        after.channels@ == before.channels@,
        after.channels.names() == before.channels.names(),
        before.same_but_channels(&after),
{
    before.channels.lemma_names();
    let names = before.channels.names();
    lemma_without_undoes_with(names, name);
    assert(after.channels@ =~= before.channels@);
}

/// A channel that was closed cannot set the count of a later one of its name.
pub proof fn law_closed_channel_publishes_nothing<J, O>(
    before: GlobalState<J, O>,
    closed: GlobalState<J, O>,
    reopened: GlobalState<J, O>,
    after: GlobalState<J, O>,
    name: Seq<char>,
    ticket: u64,
    join_sender: J,
    count_users: usize,
)
    requires
        before.wf(),
        before.registers(name, ticket),
        before.channel_closed(&closed, name),
        closed.channel_opened(&reopened, name, join_sender),
        reopened.count_published(&after, name, ticket, count_users),
    ensures
        after.channels@ == reopened.channels@,
        after.channels@[name].count_users == 0,
{
}

/// The list of channels names each channel once, with the count that it last
/// published.
pub proof fn law_published_count_is_listed<J, O>(
    before: GlobalState<J, O>,
    after: GlobalState<J, O>,
    name: Seq<char>,
    ticket: u64,
    count_users: usize,
)
    requires
        before.wf(),
        before.registers(name, ticket),
        before.count_published(&after, name, ticket, count_users),
        after.wf(),
    ensures
        after.listing()->channels.contains((name, count_users)),
        forall|i: int, j: int|
            0 <= i < j < after.listing()->channels.len() ==> (#[trigger] after.listing()->channels[i]).0
                != (#[trigger] after.listing()->channels[j]).0,
{
    after.channels.lemma_names();
    let names = after.channels.names();
    assert(names.contains(name));
    let i = choose|i: int| 0 <= i < names.len() && names[i] == name;
    assert(after.listing()->channels[i] == (name, count_users));
}

// ---------------------------------------------------------------- the wire

/// The bytes of an encoded message are what its WebSocket message carries, and so
/// what whoever receives it reads.
pub proof fn law_bytes_come_through<M: IntoWebsocketMessage>(message: M, framed: WsMessage)
    requires
        call_ensures(M::into_ws_message, (message,), Ok::<WsMessage, M::Error>(framed)),
    ensures
        message.encoded() == Ok::<Seq<u8>, M::Error>(framed.payload()),
{
}

} // verus!
