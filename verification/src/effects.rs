//! What each operation does: for every call, what comes out of it and what it leaves
//! behind, in terms of what went in.
use crate::channel::{
    actions, channel, Action, ActionView, Channel, IncomingSink, JoinRequest, JoinResponse, Room,
    RoomView,
};
use crate::laws::{lemma_without_name, room_after, Event};
use crate::message::{
    strings, Auth, ChannelList, Cmsg, Data, DataView, GReadyState, GStart, Join, Message,
    MessageView, Part,
};
use crate::name_map::{lemma_without_name_at, other_than, NameMap};
use crate::session::{
    after_dispatch, after_unauthed, messages, msg, next_default, strip_tripcode, unauthed,
    Dispatch, Inbound, JoinStep, Stage, Unauthed,
};
use crate::state::{GlobalState, User, UserHandle};
use crate::websocket::{decoded, receive, IntoWebsocketMessage, WsMessage};
use vstd::prelude::*;
use vstd::utf8::encode_utf8;

verus! {

/// Two filters that agree on every item of a sequence keep the same items of it.
proof fn lemma_filters_agree<A>(s: Seq<A>, p: spec_fn(A) -> bool, q: spec_fn(A) -> bool)
    requires
        forall|i: int| 0 <= i < s.len() ==> p(#[trigger] s[i]) == q(s[i]),
    ensures
        s.filter(p) == s.filter(q),
    decreases s.len(),
{
    reveal(Seq::filter);
    if s.len() > 0 {
        assert forall|i: int| 0 <= i < s.drop_last().len() implies p(
            #[trigger] s.drop_last()[i],
        ) == q(s.drop_last()[i]) by {
            assert(s.drop_last()[i] == s[i]);
        }
        lemma_filters_agree(s.drop_last(), p, q);
        assert(p(s[s.len() - 1]) == q(s[s.len() - 1]));
    }
}

// ---------------------------------------------------------------- a room

/// The room of a new channel has exactly the name and the ticket that it was opened
/// with, and shows them. Nobody is in it or ready, it counts nobody and runs no game.
/// The registry's entry has the same ticket, counts nobody, and leads to the channel.
pub proof fn law_new_channel<J>(
    name: String,
    ticket: u64,
    join_sender: J,
    entry: Channel<J>,
    room: Room,
    shown_name: &String,
    shown_ticket: u64,
    shown_count: usize,
    listed_count: usize,
)
    requires
        call_ensures(channel::<J>, (&name, ticket, join_sender), (entry, room)),
        call_ensures(Room::name, (&room,), shown_name),
        call_ensures(Room::ticket, (&room,), shown_ticket),
        call_ensures(Room::count_users, (&room,), shown_count),
        call_ensures(Channel::<J>::count_users, (&entry,), listed_count),
    ensures
        room@.name == name@,
        room@.ticket == ticket,
        room@.users.len() == 0,
        forall|user: Seq<char>| !(#[trigger] room@.ready.contains(user)),
        room@.count == 0,
        room@.game is None,
        shown_name@ == name@,
        shown_ticket == ticket,
        shown_count == 0,
        listed_count == 0,
        entry.join_sender == join_sender,
        entry.ticket == ticket,
        entry.count_users == 0,
{
}

/// A room keeps its name and its ticket whatever happens in it.
pub proof fn law_room_keeps_its_name(start: RoomView, events: Seq<Event>)
    ensures
        room_after(start, events).name == start.name,
        room_after(start, events).ticket == start.ticket,
    decreases events.len(),
{
    if events.len() > 0 {
        law_room_keeps_its_name(start, events.drop_last());
    }
}

/// A user who does not take the answer does not join: the room stays as it is and
/// nothing follows.
pub proof fn law_unanswered_join(room: &mut Room, user: String, todo: Vec<Action>)
    requires
        call_ensures(Room::join, (room, user, false), todo),
    ensures
        *final(room) == *old(room),
        todo@.len() == 0,
{
}

/// A join puts the user behind the others, unless the user is among them, takes the
/// user's readiness away, and counts one more. All else stays.
pub proof fn law_join_changes_the_room(room: &mut Room, user: String, todo: Vec<Action>)
    requires
        call_ensures(Room::join, (room, user, true), todo),
    ensures
        final(room)@.name == old(room)@.name,
        final(room)@.ticket == old(room)@.ticket,
        final(room)@.game == old(room)@.game,
        final(room)@.count == old(room)@.count + 1,
        old(room)@.users.contains(user@) ==> final(room)@.users == old(room)@.users,
        !old(room)@.users.contains(user@) ==> final(room)@.users == old(room)@.users.push(user@),
        forall|other: Seq<char>| #[trigger]
            final(room)@.ready.contains(other) <==> old(room)@.ready.contains(other) && other
                != user@,
{
}

/// What follows on a join, in its order: the user's sender is kept; the count, one
/// more than before, is published; everybody who is then in the room is told who
/// joined which channel; everybody on the server is told the channel's count; the
/// user alone is told who is in the room; and then the user alone is told of each
/// other ready user, in the order in which they came, that they are ready.
pub proof fn law_join_is_told(room: &mut Room, user: String, todo: Vec<Action>)
    requires
        old(room).wf(),
        old(room)@.count < usize::MAX,
        call_ensures(Room::join, (room, user, true), todo),
    ensures
        ({
            let name = old(room)@.name;
            let count = (old(room)@.count + 1) as usize;
            let present = if old(room)@.users.contains(user@) {
                old(room)@.users
            } else {
                old(room)@.users.push(user@)
            };
            let ready = old(room)@.users.filter(
                |other: Seq<char>| other != user@ && old(room)@.ready.contains(other),
            );
            &&& todo@.len() == 5 + ready.len()
            &&& todo@[0]@ == (ActionView::Keep { user: user@ })
            &&& todo@[1]@ == (ActionView::Count { users: count })
            &&& todo@[2]@ == (ActionView::Send {
                to: present,
                message: MessageView {
                    version: 1,
                    data: DataView::Join { user: user@, target: name },
                },
            })
            &&& todo@[3]@ == (ActionView::Announce {
                message: MessageView {
                    version: 1,
                    data: DataView::ChannelUpdate { target: name, count },
                },
            })
            &&& todo@[4]@ == (ActionView::Greet {
                user: user@,
                message: MessageView {
                    version: 1,
                    data: DataView::UserList { target: name, users: present },
                },
            })
            &&& forall|i: int|
                0 <= i < ready.len() ==> todo@[5 + i]@ == (ActionView::Greet {
                    user: user@,
                    message: MessageView {
                        version: 1,
                        data: DataView::GReadyState {
                            ready: true,
                            target: name,
                            source: #[trigger] ready[i],
                        },
                    },
                })
        }),
{
    let before = old(room)@;
    let joined = before.joined(user@);
    old(room).lemma_view_wf();
    assert(actions(todo@) == joined.welcome(user@));
    let p = |other: Seq<char>| other != user@ && before.ready.contains(other);
    let q = |other: Seq<char>| joined.ready.contains(other);
    lemma_filters_agree(before.users, p, q);
    if !before.users.contains(user@) {
        before.users.lemma_filter_push(user@, q);
    }
    assert(joined.ready_users() == before.users.filter(p));
    let ready = before.users.filter(p);
    assert(joined.welcome(user@).len() == 5 + ready.len());
    assert forall|i: int| 0 <= i < todo@.len() implies (#[trigger] todo@[i])@ == joined.welcome(
        user@,
    )[i] by {
        assert(actions(todo@)[i] == todo@[i]@);
    }
    assert forall|i: int| 0 <= i < ready.len() implies todo@[5 + i]@ == (ActionView::Greet {
        user: user@,
        message: MessageView {
            version: 1,
            data: DataView::GReadyState {
                ready: true,
                target: before.name,
                source: #[trigger] ready[i],
            },
        },
    }) by {
        assert(joined.welcome(user@)[5 + i] == joined.readiness_notices(user@)[i]);
    }
}

/// A part takes the user out of the room and out of the ready, and counts one less.
/// The others stay in their order, and all else stays.
pub proof fn law_part_changes_the_room(room: &mut Room, user: String, todo: Vec<Action>)
    requires
        old(room).wf(),
        old(room)@.count > 0,
        call_ensures(Room::part, (room, user), todo),
    ensures
        final(room)@.name == old(room)@.name,
        final(room)@.ticket == old(room)@.ticket,
        final(room)@.game == old(room)@.game,
        final(room)@.count == old(room)@.count - 1,
        final(room)@.users == old(room)@.users.filter(|other: Seq<char>| other != user@),
        !final(room)@.users.contains(user@),
        forall|other: Seq<char>| #[trigger]
            final(room)@.ready.contains(other) <==> old(room)@.ready.contains(other) && other
                != user@,
{
    old(room).lemma_view_wf();
    lemma_without_name(old(room)@.users, user@);
    lemma_filters_agree(
        old(room)@.users,
        |other: Seq<char>| other != user@,
        other_than(user@),
    );
}

/// What follows on a part, in its order: everybody who was in the room, the leaver
/// included, is told who left which channel; the leaver's sender is let go; the count,
/// one less than before, is published and told to everybody on the server; and the
/// channel is closed if nobody but the leaver was in it. Nothing else is sent.
pub proof fn law_part_is_told(room: &mut Room, user: String, todo: Vec<Action>)
    requires
        old(room).wf(),
        old(room)@.count > 0,
        call_ensures(Room::part, (room, user), todo),
    ensures
        ({
            let name = old(room)@.name;
            let count = (old(room)@.count - 1) as usize;
            &&& todo@.len() >= 4
            &&& todo@[0]@ == (ActionView::Send {
                to: old(room)@.users,
                message: MessageView {
                    version: 1,
                    data: DataView::Part { user: user@, target: name },
                },
            })
            &&& todo@[1]@ == (ActionView::Drop { user: user@ })
            &&& todo@[2]@ == (ActionView::Count { users: count })
            &&& todo@[3]@ == (ActionView::Announce {
                message: MessageView {
                    version: 1,
                    data: DataView::ChannelUpdate { target: name, count },
                },
            })
        }),
        (forall|other: Seq<char>| #[trigger] old(room)@.users.contains(other) ==> other == user@)
            ==> todo@.len() == 5 && todo@[4]@ == ActionView::Close,
        forall|other: Seq<char>| #[trigger]
            old(room)@.users.contains(other) && other != user@ ==> todo@.len() == 4,
{
    let before = old(room)@;
    old(room).lemma_view_wf();
    lemma_without_name(before.users, user@);
    let after = before.parted(user@).users;
    assert(actions(todo@) == before.farewell(user@));
    assert(actions(todo@).len() == todo@.len());
    assert forall|i: int| 0 <= i < todo@.len() implies (#[trigger] todo@[i])@ == before.farewell(
        user@,
    )[i] by {
        assert(actions(todo@)[i] == todo@[i]@);
    }
    if after.len() > 0 {
        assert(after.contains(after[0]));
        assert(before.users.contains(after[0]) && after[0] != user@);
    }
    assert forall|other: Seq<char>| #[trigger]
        before.users.contains(other) && other != user@ implies todo@.len() == 4 by {
        assert(after.contains(other));
    }
}

/// A line of chat changes nothing in the room, and goes, with its text and target, to
/// everybody in it under the name of whoever sent it, once.
pub proof fn law_chat_goes_to_everybody(
    room: &mut Room,
    source: String,
    version: u8,
    cmsg: Cmsg,
    todo: Vec<Action>,
)
    requires
        call_ensures(
            Room::incoming,
            (room, source, Message { version, data: Data::Cmsg(cmsg) }),
            todo,
        ),
    ensures
        final(room)@ == old(room)@,
        todo@.len() == 1,
        todo@[0]@ == (ActionView::Send {
            to: old(room)@.users,
            message: MessageView {
                version: 1,
                data: DataView::Cmsg {
                    message: cmsg.message@,
                    target: cmsg.target@,
                    source: source@,
                },
            },
        }),
{
    assert(actions(todo@).len() == 1);
    assert(actions(todo@)[0] == todo@[0]@);
}

/// A user's word about being ready goes as it is, with its target, to everybody in the
/// room under the user's name, once, and is then what the room holds of the user. All
/// else stays.
pub proof fn law_readiness_goes_to_everybody(
    room: &mut Room,
    source: String,
    version: u8,
    greadystate: GReadyState,
    todo: Vec<Action>,
)
    requires
        old(room)@.users.contains(source@),
        call_ensures(
            Room::incoming,
            (room, source, Message { version, data: Data::GReadyState(greadystate) }),
            todo,
        ),
    ensures
        todo@.len() == 1,
        todo@[0]@ == (ActionView::Send {
            to: old(room)@.users,
            message: MessageView {
                version: 1,
                data: DataView::GReadyState {
                    ready: greadystate.ready,
                    target: greadystate.target@,
                    source: source@,
                },
            },
        }),
        final(room)@.ready.contains(source@) <==> greadystate.ready,
        forall|other: Seq<char>|
            other != source@ ==> (#[trigger] final(room)@.ready.contains(other)
                <==> old(room)@.ready.contains(other)),
        final(room)@.name == old(room)@.name,
        final(room)@.ticket == old(room)@.ticket,
        final(room)@.users == old(room)@.users,
        final(room)@.count == old(room)@.count,
        final(room)@.game == old(room)@.game,
{
    assert(actions(todo@).len() == 1);
    assert(actions(todo@)[0] == todo@[0]@);
}

/// The word of somebody who is not in the room about being ready, or to start a game,
/// changes nothing and is not answered.
pub proof fn law_outsider_is_not_heard(
    room: &mut Room,
    source: String,
    message: Message,
    todo: Vec<Action>,
)
    requires
        !old(room)@.users.contains(source@),
        message.data is GReadyState || message.data is GStart,
        call_ensures(Room::incoming, (room, source, message), todo),
    ensures
        final(room)@ == old(room)@,
        todo@.len() == 0,
{
    assert(actions(todo@).len() == 0);
}

/// A user's start is refused, to the user alone and without any change, while the user
/// is not ready or else a game runs. Otherwise nothing is sent and a game runs whose
/// players are the ready users in the order in which they came. All else stays.
pub proof fn law_start_of_a_game(
    room: &mut Room,
    source: String,
    version: u8,
    gstart: GStart,
    todo: Vec<Action>,
)
    requires
        old(room)@.users.contains(source@),
        call_ensures(
            Room::incoming,
            (room, source, Message { version, data: Data::GStart(gstart) }),
            todo,
        ),
    ensures
        !old(room)@.ready.contains(source@) ==> {
            &&& final(room)@ == old(room)@
            &&& todo@.len() == 1
            &&& todo@[0]@ == (ActionView::Send {
                to: seq![source@],
                message: MessageView {
                    version: 1,
                    data: DataView::Error {
                        message: "You must be ready to start a game"@,
                        code: "unauthorized"@,
                    },
                },
            })
        },
        old(room)@.ready.contains(source@) && old(room)@.game is Some ==> {
            &&& final(room)@ == old(room)@
            &&& todo@.len() == 1
            &&& todo@[0]@ == (ActionView::Send {
                to: seq![source@],
                message: MessageView {
                    version: 1,
                    data: DataView::Error {
                        message: "A game is already running"@,
                        code: "already_running"@,
                    },
                },
            })
        },
        old(room)@.ready.contains(source@) && old(room)@.game is None ==> {
            &&& todo@.len() == 0
            &&& final(room)@.game == Some(
                old(room)@.users.filter(|user: Seq<char>| old(room)@.ready.contains(user)),
            )
            &&& final(room)@.name == old(room)@.name
            &&& final(room)@.ticket == old(room)@.ticket
            &&& final(room)@.users == old(room)@.users
            &&& final(room)@.ready == old(room)@.ready
            &&& final(room)@.count == old(room)@.count
        },
{
    assert(actions(todo@).len() == todo@.len());
    if todo@.len() > 0 {
        assert(actions(todo@)[0] == todo@[0]@);
    }
    let before = old(room)@;
    lemma_filters_agree(
        before.users,
        |user: Seq<char>| old(room)@.ready.contains(user),
        |user: Seq<char>| before.ready.contains(user),
    );
}

// ---------------------------------------------------------------- names

/// A name map without names finds nothing.
pub proof fn law_new_map_is_empty<V>(map: NameMap<V>, asked: String, found: Option<&V>, empty: bool)
    requires
        call_ensures(NameMap::<V>::new, (), map),
        call_ensures(NameMap::<V>::get, (&map, &asked), found),
        call_ensures(NameMap::<V>::is_empty, (&map,), empty),
    ensures
        found is None,
        empty,
        map.names().len() == 0,
{
}

/// After an insert the name is found with the value that was inserted, and every other
/// name as before. The names keep their order: a new one comes behind the others.
pub proof fn law_insert_is_found<V>(map: &mut NameMap<V>, name: String, value: V)
    requires
        call_ensures(NameMap::<V>::insert, (map, name, value), ()),
    ensures
        forall|asked: String, found: Option<&V>| #[trigger]
            call_ensures(NameMap::<V>::get, (&*final(map), &asked), found) ==> {
                &&& asked@ == name@ ==> found == Some(&value)
                &&& asked@ != name@ ==> match found {
                    Some(other) => old(map)@.contains_key(asked@) && *other == old(map)@[asked@],
                    None => !old(map)@.contains_key(asked@),
                }
            },
        old(map).names().contains(name@) ==> final(map).names() == old(map).names(),
        !old(map).names().contains(name@) ==> final(map).names() == old(map).names().push(name@),
{
}

/// After a removal the name is not found, and every other name as before, in the
/// same order. What was found under the name is handed back.
pub proof fn law_removed_is_not_found<V>(map: &mut NameMap<V>, name: String, value: Option<V>)
    requires
        call_ensures(NameMap::<V>::remove, (map, &name), value),
    ensures
        value is Some <==> old(map)@.contains_key(name@),
        value is Some ==> value->Some_0 == old(map)@[name@],
        forall|asked: String, found: Option<&V>| #[trigger]
            call_ensures(NameMap::<V>::get, (&*final(map), &asked), found) ==> {
                &&& asked@ == name@ ==> found is None
                &&& asked@ != name@ ==> match found {
                    Some(other) => old(map)@.contains_key(asked@) && *other == old(map)@[asked@],
                    None => !old(map)@.contains_key(asked@),
                }
            },
        final(map).names() == old(map).names().filter(|other: Seq<char>| other != name@),
{
    lemma_filters_agree(
        old(map).names(),
        |other: Seq<char>| other != name@,
        other_than(name@),
    );
}

/// What a name stands for can be changed in place: what is written there is what the
/// name then stands for. Every other name stands for what it did, in the same order.
pub proof fn law_change_in_place<V>(map: &mut NameMap<V>, name: String, place: Option<&mut V>)
    requires
        call_ensures(NameMap::<V>::get_mut, (map, &name), place),
    ensures
        place is Some <==> old(map)@.contains_key(name@),
        place is None ==> *final(map) == *old(map),
        match place {
            Some(value) => {
                &&& *value == old(map)@[name@]
                &&& final(map)@.contains_key(name@)
                &&& final(map)@[name@] == *final(value)
            },
            None => true,
        },
        forall|other: Seq<char>|
            #![trigger final(map)@.contains_key(other)]
            other != name@ ==> {
                &&& final(map)@.contains_key(other) <==> old(map)@.contains_key(other)
                &&& final(map)@[other] == old(map)@[other]
            },
        final(map).names() == old(map).names(),
{
}

/// Whether a name is there, what it stands for, and the lists of all names and values
/// tell the same. Both lists are in one order.
pub proof fn law_lookups_agree<V>(
    map: NameMap<V>,
    asked: String,
    there: bool,
    found: Option<&V>,
    names: Vec<String>,
    values: Vec<&V>,
    empty: bool,
)
    requires
        map.wf(),
        call_ensures(NameMap::<V>::contains_key, (&map, &asked), there),
        call_ensures(NameMap::<V>::get, (&map, &asked), found),
        call_ensures(NameMap::<V>::keys, (&map,), names),
        call_ensures(NameMap::<V>::values, (&map,), values),
        call_ensures(NameMap::<V>::is_empty, (&map,), empty),
    ensures
        there <==> found is Some,
        there <==> exists|i: int| 0 <= i < names@.len() && (#[trigger] names@[i])@ == asked@,
        values@.len() == names@.len(),
        empty <==> names@.len() == 0,
        forall|i: int|
            0 <= i < names@.len() && (#[trigger] names@[i])@ == asked@ ==> found == Some(values@[i]),
        forall|i: int, j: int|
            0 <= i < j < names@.len() ==> (#[trigger] names@[i])@ != (#[trigger] names@[j])@,
{
    map.lemma_names();
    let all = map.names();
    assert forall|i: int| 0 <= i < names@.len() implies all[i] == (#[trigger] names@[i])@ by {
        assert(strings(names@)[i] == names@[i]@);
    }
    assert(strings(names@).len() == names@.len());
    if all.contains(asked@) {
        let k = choose|k: int| 0 <= k < all.len() && all[k] == asked@;
        assert(names@[k]@ == asked@);
    }
}

// ---------------------------------------------------------------- the server

/// A new server has no users and no channels, has opened none, and keeps the list of
/// default channels that it was given.
pub proof fn law_new_server<J, O>(default_channels: Vec<String>, state: GlobalState<J, O>)
    requires
        call_ensures(GlobalState::<J, O>::new, (default_channels,), state),
    ensures
        state.users.names().len() == 0,
        state.channels.names().len() == 0,
        forall|name: Seq<char>| !(#[trigger] state.users@.contains_key(name)),
        forall|name: Seq<char>| !(#[trigger] state.channels@.contains_key(name)),
        state.opened == 0,
        state.default_channels == default_channels,
{
}

/// A name is given exactly if no user has it. The new user comes behind the others,
/// who keep what they have, and all else stays. A refusal changes nothing.
pub proof fn law_claim<J, O>(
    state: &mut GlobalState<J, O>,
    name: String,
    outgoing: O,
    claimed: bool,
)
    requires
        call_ensures(GlobalState::<J, O>::claim_name, (state, &name, outgoing), claimed),
    ensures
        claimed <==> !old(state).users@.contains_key(name@),
        !claimed ==> *final(state) == *old(state),
        claimed ==> {
            &&& final(state).users@.contains_key(name@)
            &&& final(state).users@[name@].outgoing == outgoing
            &&& final(state).users.names() == old(state).users.names().push(name@)
            &&& final(state).channels == old(state).channels
            &&& final(state).default_channels == old(state).default_channels
            &&& final(state).opened == old(state).opened
        },
        forall|other: Seq<char>|
            #![trigger final(state).users@.contains_key(other)]
            other != name@ ==> {
                &&& final(state).users@.contains_key(other) <==> old(state).users@.contains_key(
                    other,
                )
                &&& final(state).users@[other] == old(state).users@[other]
            },
{
}

/// Once a name is released no user has it. The others keep their order and what they
/// have, and all else stays.
pub proof fn law_release<J, O>(state: &mut GlobalState<J, O>, name: String)
    requires
        call_ensures(GlobalState::<J, O>::release_name, (state, &name), ()),
    ensures
        !final(state).users@.contains_key(name@),
        forall|other: Seq<char>|
            #![trigger final(state).users@.contains_key(other)]
            other != name@ ==> {
                &&& final(state).users@.contains_key(other) <==> old(state).users@.contains_key(
                    other,
                )
                &&& final(state).users@[other] == old(state).users@[other]
            },
        final(state).users.names() == old(state).users.names().filter(
            |other: Seq<char>| other != name@,
        ),
        final(state).channels == old(state).channels,
        final(state).default_channels == old(state).default_channels,
        final(state).opened == old(state).opened,
{
    lemma_filters_agree(
        old(state).users.names(),
        |other: Seq<char>| other != name@,
        other_than(name@),
    );
}

/// A channel is opened exactly if none has the name. Its entry leads to it, counts
/// nobody and has a ticket that no other channel has; its room has the name and the
/// ticket and is empty. It comes behind the other channels, which stay as they are.
pub proof fn law_open<J, O>(
    state: &mut GlobalState<J, O>,
    name: String,
    join_sender: J,
    opened: Option<Room>,
)
    requires
        old(state).wf(),
        call_ensures(GlobalState::<J, O>::open_channel, (state, &name, join_sender), opened),
    ensures
        opened is Some <==> !old(state).channels@.contains_key(name@),
        opened is None ==> *final(state) == *old(state),
        opened matches Some(room) ==> {
            let entry = final(state).channels@[name@];
            &&& final(state).channels@.contains_key(name@)
            &&& entry.join_sender == join_sender
            &&& entry.count_users == 0
            &&& entry.ticket == old(state).opened
            &&& (forall|other: Seq<char>| #[trigger]
                old(state).channels@.contains_key(other) ==> old(state).channels@[other].ticket
                    != entry.ticket)
            &&& final(state).opened == old(state).opened + 1
            &&& final(state).channels.names() == old(state).channels.names().push(name@)
            &&& final(state).users == old(state).users
            &&& final(state).default_channels == old(state).default_channels
            &&& room@.name == name@
            &&& room@.ticket == entry.ticket
            &&& room@.users.len() == 0
            &&& (forall|user: Seq<char>| !(#[trigger] room@.ready.contains(user)))
            &&& room@.count == 0
            &&& room@.game is None
        },
        forall|other: Seq<char>|
            #![trigger final(state).channels@.contains_key(other)]
            other != name@ ==> {
                &&& final(state).channels@.contains_key(other)
                    <==> old(state).channels@.contains_key(other)
                &&& final(state).channels@[other] == old(state).channels@[other]
            },
{
}

/// Once a channel is closed none is registered under its name, and nobody finds a way
/// to join it. Every other name leads to the same entry as before, and the others stay
/// in their order, wherever among them the closed channel stood. All else stays.
pub proof fn law_close<J, O>(state: &mut GlobalState<J, O>, name: String)
    requires
        old(state).wf(),
        call_ensures(GlobalState::<J, O>::close_channel, (state, &name), ()),
    ensures
        !final(state).channels@.contains_key(name@),
        !final(state).channels.names().contains(name@),
        forall|found: Option<&J>| #[trigger]
            call_ensures(GlobalState::<J, O>::join_sender, (&*final(state), &name), found)
                ==> found is None,
        forall|other: Seq<char>|
            #![trigger final(state).channels@.contains_key(other)]
            other != name@ ==> {
                &&& final(state).channels@.contains_key(other)
                    <==> old(state).channels@.contains_key(other)
                &&& final(state).channels@[other] == old(state).channels@[other]
            },
        final(state).channels.names() == old(state).channels.names().filter(
            |other: Seq<char>| other != name@,
        ),
        forall|k: int|
            0 <= k < old(state).channels.names().len() && (#[trigger] old(state).channels.names()[k])
                == name@ ==> final(state).channels.names() == old(state).channels.names().remove(k),
        final(state).users == old(state).users,
        final(state).default_channels == old(state).default_channels,
        final(state).opened == old(state).opened,
{
    let names = old(state).channels.names();
    old(state).channels.lemma_names();
    lemma_without_name(names, name@);
    lemma_filters_agree(names, |other: Seq<char>| other != name@, other_than(name@));
    let after = final(state).channels.names();
    assert forall|k: int| 0 <= k < names.len() && #[trigger] names[k] == name@ implies after
        == names.remove(k) by {
        lemma_without_name_at(names, k);
    }
}

/// The way to join a channel is the one that it was registered with.
pub proof fn law_way_to_join<J, O>(state: GlobalState<J, O>, name: String, found: Option<&J>)
    requires
        call_ensures(GlobalState::<J, O>::join_sender, (&state, &name), found),
    ensures
        found is Some <==> state.channels@.contains_key(name@),
        found is Some ==> *found->Some_0 == state.channels@[name@].join_sender,
{
}

/// A count is published exactly for the channel of that name that has the ticket: its
/// entry has the count and is otherwise as it was. All else stays in any case.
pub proof fn law_publish<J, O>(
    state: &mut GlobalState<J, O>,
    name: String,
    ticket: u64,
    count_users: usize,
)
    requires
        call_ensures(
            GlobalState::<J, O>::publish_count,
            (state, &name, ticket, count_users),
            (),
        ),
    ensures
        final(state).channels@.contains_key(name@) <==> old(state).channels@.contains_key(name@),
        old(state).channels@.contains_key(name@) ==> {
            let before = old(state).channels@[name@];
            let after = final(state).channels@[name@];
            &&& after.join_sender == before.join_sender
            &&& after.ticket == before.ticket
            &&& before.ticket == ticket ==> after.count_users == count_users
            &&& before.ticket != ticket ==> after.count_users == before.count_users
        },
        forall|other: Seq<char>|
            #![trigger final(state).channels@.contains_key(other)]
            other != name@ ==> {
                &&& final(state).channels@.contains_key(other)
                    <==> old(state).channels@.contains_key(other)
                &&& final(state).channels@[other] == old(state).channels@[other]
            },
        final(state).channels.names() == old(state).channels.names(),
        final(state).users == old(state).users,
        final(state).default_channels == old(state).default_channels,
        final(state).opened == old(state).opened,
{
}

/// The list of channels names every channel once, in their order, with the count that
/// its entry has.
pub proof fn law_list<J, O>(state: GlobalState<J, O>, list: ChannelList)
    requires
        call_ensures(GlobalState::<J, O>::channel_list, (&state,), list),
    ensures
        list.channels@.len() == state.channels.names().len(),
        forall|i: int|
            #![trigger list.channels@[i]]
            0 <= i < list.channels@.len() ==> {
                &&& list.channels@[i].target@ == state.channels.names()[i]
                &&& list.channels@[i].users
                    == state.channels@[state.channels.names()[i]].count_users
            },
{
    let listed = list@->channels;
    assert(listed.len() == list.channels@.len());
    assert forall|i: int|
        #![trigger list.channels@[i]]
        0 <= i < list.channels@.len() implies list.channels@[i].target@
        == state.channels.names()[i] && list.channels@[i].users
        == state.channels@[state.channels.names()[i]].count_users by {
        assert(listed[i] == (list.channels@[i].target@, list.channels@[i].users));
    }
}

/// A message to everybody goes as it is to every user once, in their order, each by
/// the user's own way.
pub proof fn law_everybody_gets_it<'a, J, O>(
    state: &'a GlobalState<J, O>,
    message: &'a Message,
    sent: Vec<(&'a O, &'a Message)>,
)
    requires
        call_ensures(GlobalState::<J, O>::msg_all, (state, message), sent),
    ensures
        sent@.len() == state.users.names().len(),
        forall|i: int|
            #![trigger sent@[i]]
            0 <= i < sent@.len() ==> {
                &&& *sent@[i].0 == state.users@[state.users.names()[i]].outgoing
                &&& *sent@[i].1 == *message
            },
{
}

/// The default channels are handed out one by one, in the order of the list.
pub proof fn law_default_channel<J, O>(
    state: GlobalState<J, O>,
    done: usize,
    target: Option<String>,
)
    requires
        call_ensures(GlobalState::<J, O>::join_default_channels, (&state, done), target),
    ensures
        target is Some <==> done < state.default_channels@.len(),
        target is Some ==> target->Some_0@ == state.default_channels@[done as int]@,
{
}

// ---------------------------------------------------------------- a connection

/// A name without a `#` is shown as it is. Of any other, what stands before its last
/// `#` is shown.
pub proof fn law_shown_name(name: String, shown: String)
    requires
        call_ensures(strip_tripcode, (&name,), shown),
    ensures
        !name@.contains('#') ==> shown@ == name@,
        name@.contains('#') ==> {
            let n = shown@.len() as int;
            &&& n < name@.len()
            &&& shown@ == name@.take(n)
            &&& name@[n] == '#'
            &&& forall|j: int| n < j < name@.len() ==> name@[j] != '#'
        },
{
    name@.index_of_last_ensures('#');
}

/// The end of a connection without a user, and each error on it, end it and change
/// nothing. The error is handed on.
pub proof fn law_unauthed_end<J, O, S, P, E>(
    global: &mut GlobalState<J, O>,
    inbound: Inbound<E>,
    outgoing: O,
    step: Unauthed<S, P, E>,
)
    requires
        !(inbound is Message),
        call_ensures(unauthed::<J, O, S, P, E>, (global, inbound, outgoing), step),
    ensures
        *final(global) == *old(global),
        inbound is Closed ==> step is Finished,
        inbound matches Inbound::Failed(error) ==> step is Failed && step->Failed_0 == error,
        inbound matches Inbound::Undecodable(error) ==> step is Failed && step->Failed_0 == error,
{
}

/// Whatever a connection without a user sends besides an `Auth` is refused, and changes
/// nothing.
pub proof fn law_unauthed_other<J, O, S, P, E>(
    global: &mut GlobalState<J, O>,
    message: Message,
    outgoing: O,
    step: Unauthed<S, P, E>,
)
    requires
        !(message.data is Auth),
        call_ensures(
            unauthed::<J, O, S, P, E>,
            (global, Inbound::Message(message), outgoing),
            step,
        ),
    ensures
        *final(global) == *old(global),
        step is Reply,
        step->message@ == (MessageView {
            version: 1,
            data: DataView::Error {
                message: "You must authenticate before sending other commands."@,
                code: "unauthorized"@,
            },
        }),
{
}

/// An `Auth` for a name that is shown as one that a user has is refused, with that
/// name, and changes nothing. Any other gets its user in: under the shown name, with
/// the client it gave, in no channel. The user is greeted with the message of the day
/// and then with the channels as they are, and is behind the others on the server.
pub proof fn law_unauthed_auth<J, O, S, P, E>(
    global: &mut GlobalState<J, O>,
    version: u8,
    auth: Auth,
    outgoing: O,
    shown: String,
    step: Unauthed<S, P, E>,
)
    requires
        call_ensures(strip_tripcode, (&auth.name,), shown),
        call_ensures(
            unauthed::<J, O, S, P, E>,
            (global, Inbound::Message(Message { version, data: Data::Auth(auth) }), outgoing),
            step,
        ),
    ensures
        old(global).users@.contains_key(shown@) ==> {
            &&& *final(global) == *old(global)
            &&& step is Reply
            &&& step->message@ == (MessageView {
                version: 1,
                data: DataView::Error {
                    message: "The name "@ + shown@ + " is unavailable."@,
                    code: "name_unavailable"@,
                },
            })
        },
        !old(global).users@.contains_key(shown@) ==> {
            let user = step->user;
            let greeting = step->greeting@;
            let names = old(global).channels.names();
            &&& step is Admitted
            &&& user.name@ == shown@
            &&& user.client@ == auth.client@
            &&& user.channels.names().len() == 0
            &&& (forall|target: Seq<char>| !(#[trigger] user.channels@.contains_key(target)))
            &&& greeting.len() == 2
            &&& greeting[0]@ == (MessageView {
                version: 1,
                data: DataView::Motd { message: "hello\nworld!"@ },
            })
            &&& greeting[1]@.version == 1
            &&& greeting[1]@.data is ChannelList
            &&& greeting[1]@.data->channels.len() == names.len()
            &&& (forall|i: int|
                0 <= i < names.len() ==> #[trigger] greeting[1]@.data->channels[i] == (
                    names[i],
                    old(global).channels@[names[i]].count_users,
                ))
            &&& final(global).users@ == old(global).users@.insert(
                shown@,
                UserHandle { outgoing },
            )
            &&& final(global).users.names() == old(global).users.names().push(shown@)
            &&& final(global).channels == old(global).channels
            &&& final(global).default_channels == old(global).default_channels
            &&& final(global).opened == old(global).opened
        },
{
    if !old(global).users@.contains_key(shown@) {
        let greeting = step->greeting@;
        assert(messages(greeting).len() == 2);
        assert(messages(greeting)[0] == greeting[0]@);
        assert(messages(greeting)[1] == greeting[1]@);
    }
}

/// Each step of a connection without a user leads on as it says. A reply is sent and
/// the user still has no name; a user who is let in is greeted, in the order of the
/// greeting, and then starts on the first default channel; else nothing is sent and
/// the connection is over.
pub proof fn law_after_unauthed<S, P, E>(
    step: Unauthed<S, P, E>,
    stage: Stage<S, P>,
    sent: Vec<Message>,
)
    requires
        call_ensures(after_unauthed::<S, P, E>, (step,), (stage, sent)),
    ensures
        step is Reply ==> stage is Unauthed && sent@.len() == 1 && sent@[0] == step->message,
        step is Admitted ==> {
            &&& stage is Defaults
            &&& stage->Defaults_user == step->user
            &&& stage->done == 0
            &&& sent@ == step->greeting@
        },
        step is Finished || step is Failed ==> stage is Over && sent@.len() == 0,
{
}

/// A user who is through with some of the default channels joins the next of the list,
/// and after the last one is served. It stays the same user.
pub proof fn law_next_default<J, O, S, P>(
    global: GlobalState<J, O>,
    user: User<S, P>,
    done: usize,
    stage: Stage<S, P>,
    target: Option<String>,
)
    requires
        call_ensures(next_default::<J, O, S, P>, (&global, user, done), (stage, target)),
    ensures
        done < global.default_channels@.len() ==> {
            &&& target is Some
            &&& target->Some_0@ == global.default_channels@[done as int]@
            &&& stage is Defaults
            &&& stage->Defaults_user == user
            &&& stage->done == done + 1
        },
        done >= global.default_channels@.len() ==> {
            &&& target is None
            &&& stage is Serving
            &&& stage->Serving_user == user
        },
{
    assert(global.default_channels.len() == global.default_channels@.len());
}

/// A connection that is served is over exactly when nothing more comes on it. Until
/// then it goes on with the same user.
pub proof fn law_after_dispatch<S, P>(user: User<S, P>, dispatch: Dispatch, stage: Stage<S, P>)
    requires
        call_ensures(after_dispatch::<S, P>, (user, &dispatch), stage),
    ensures
        dispatch is End ==> stage is Over,
        !(dispatch is End) ==> stage is Serving && stage->Serving_user == user,
{
}

/// Of the users that a message was handed to, each whose buffer was full, and nobody
/// else, is told so.
pub proof fn law_full_buffers(
    to: Vec<String>,
    delivered: Vec<bool>,
    notices: Vec<(String, Option<Message>)>,
    i: int,
)
    requires
        0 <= i < to@.len(),
        call_ensures(msg, (&to, &delivered), notices),
    ensures
        notices@.len() == to@.len(),
        notices@[i].0@ == to@[i]@,
        delivered@[i] ==> notices@[i].1 is None,
        !delivered@[i] ==> notices@[i].1 is Some && notices@[i].1->Some_0@ == (MessageView {
            version: 1,
            data: DataView::Error {
                message: "Kicked due to full buffers."@,
                code: "kicked"@,
            },
        }),
{
    let notice = notices@[i];
}

// ---------------------------------------------------------------- a user

/// A line of chat from a user in its target goes to that target, as it came, under the
/// name that the user has there, whatever other channels the user is in. From a user
/// elsewhere nothing follows. The user stays in the same channels.
pub proof fn law_chat_goes_to_its_target<S, P, E>(
    user: &mut User<S, P>,
    version: u8,
    cmsg: Cmsg,
    dispatch: Dispatch,
)
    requires
        call_ensures(
            User::<S, P>::handle_common_message::<E>,
            (user, Inbound::<E>::Message(Message { version, data: Data::Cmsg(cmsg) })),
            dispatch,
        ),
    ensures
        *final(user) == *old(user),
        old(user).channels@.contains_key(cmsg.target@) ==> {
            &&& dispatch is Forward
            &&& dispatch->Forward_target@ == cmsg.target@
            &&& dispatch->source@ == old(user).channels@[cmsg.target@].incoming.name@
            &&& dispatch->Forward_message == (Message { version, data: Data::Cmsg(cmsg) })
        },
        !old(user).channels@.contains_key(cmsg.target@) ==> dispatch is Handled,
{
}

/// A word about being ready from a user in its target goes to that target, as it came,
/// under the name that the user has there, whatever other channels the user is in. From
/// a user elsewhere nothing follows. The user stays in the same channels.
pub proof fn law_readiness_goes_to_its_target<S, P, E>(
    user: &mut User<S, P>,
    version: u8,
    greadystate: GReadyState,
    dispatch: Dispatch,
)
    requires
        call_ensures(
            User::<S, P>::handle_common_message::<E>,
            (
                user,
                Inbound::<E>::Message(Message { version, data: Data::GReadyState(greadystate) }),
            ),
            dispatch,
        ),
    ensures
        *final(user) == *old(user),
        old(user).channels@.contains_key(greadystate.target@) ==> {
            &&& dispatch is Forward
            &&& dispatch->Forward_target@ == greadystate.target@
            &&& dispatch->source@ == old(user).channels@[greadystate.target@].incoming.name@
            &&& dispatch->Forward_message == (Message {
                version,
                data: Data::GReadyState(greadystate),
            })
        },
        !old(user).channels@.contains_key(greadystate.target@) ==> dispatch is Handled,
{
}

/// A user who wants to join a channel is to join that one, and is unchanged.
pub proof fn law_join_is_dispatched<S, P, E>(
    user: &mut User<S, P>,
    version: u8,
    join: Join,
    dispatch: Dispatch,
)
    requires
        call_ensures(
            User::<S, P>::handle_common_message::<E>,
            (user, Inbound::<E>::Message(Message { version, data: Data::Join(join) })),
            dispatch,
        ),
    ensures
        *final(user) == *old(user),
        dispatch is Join,
        dispatch->Join_target@ == join.target@,
{
}

/// A user who parts a channel is out of it, and of no other: the others lead where they
/// led, in their order. Nothing more follows.
pub proof fn law_part_leaves_its_target<S, P, E>(
    user: &mut User<S, P>,
    version: u8,
    part: Part,
    dispatch: Dispatch,
)
    requires
        call_ensures(
            User::<S, P>::handle_common_message::<E>,
            (user, Inbound::<E>::Message(Message { version, data: Data::Part(part) })),
            dispatch,
        ),
    ensures
        dispatch is Handled,
        final(user).name == old(user).name,
        final(user).client == old(user).client,
        !final(user).channels@.contains_key(part.target@),
        forall|other: Seq<char>|
            #![trigger final(user).channels@.contains_key(other)]
            other != part.target@ ==> {
                &&& final(user).channels@.contains_key(other)
                    <==> old(user).channels@.contains_key(other)
                &&& final(user).channels@[other] == old(user).channels@[other]
            },
        final(user).channels.names() == old(user).channels.names().filter(
            |other: Seq<char>| other != part.target@,
        ),
{
    lemma_filters_agree(
        old(user).channels.names(),
        |other: Seq<char>| other != part.target@,
        other_than(part.target@),
    );
}

/// Whatever else a user sends is handed back as it came, and the user is unchanged.
pub proof fn law_other_messages_are_unhandled<S, P, E>(
    user: &mut User<S, P>,
    message: Message,
    dispatch: Dispatch,
)
    requires
        !(message.data is Cmsg),
        !(message.data is GReadyState),
        !(message.data is Join),
        !(message.data is Part),
        call_ensures(
            User::<S, P>::handle_common_message::<E>,
            (user, Inbound::<E>::Message(message)),
            dispatch,
        ),
    ensures
        *final(user) == *old(user),
        dispatch is Unhandled,
        dispatch->Unhandled_message == message,
{
}

/// When no message comes, the connection ends, and the user is unchanged.
pub proof fn law_no_message_ends_it<S, P, E>(
    user: &mut User<S, P>,
    inbound: Inbound<E>,
    dispatch: Dispatch,
)
    requires
        !(inbound is Message),
        call_ensures(User::<S, P>::handle_common_message::<E>, (user, inbound), dispatch),
    ensures
        *final(user) == *old(user),
        dispatch is End,
{
}

/// A user asks to join a channel exactly if the user is not in it, under the user's own
/// name. One who is in it is told which channel that is.
pub proof fn law_asking_to_join<S, P, R, H>(
    user: User<S, P>,
    target: String,
    response: R,
    outgoing: H,
    step: JoinStep,
    request: JoinRequest<R, H>,
)
    requires
        call_ensures(User::<S, P>::join_channel, (&user, &target), step),
        call_ensures(User::<S, P>::join_request::<R, H>, (&user, response, outgoing), request),
    ensures
        !user.channels@.contains_key(target@) ==> step is Request,
        user.channels@.contains_key(target@) ==> step is Reply && step->message@ == (MessageView {
            version: 1,
            data: DataView::Error {
                message: "You're already in "@ + target@,
                code: "already_in_channel"@,
            },
        }),
        request.name@ == user.name@,
        request.response == response,
        request.outgoing == outgoing,
{
}

/// A user whom a channel lets in is in that channel, by the way in and with the token
/// that came with the answer. The other channels lead where they led, in their order,
/// a new one behind them.
pub proof fn law_answer_lets_in<S, P>(
    user: &mut User<S, P>,
    target: String,
    response: JoinResponse<S, P>,
    step: JoinStep,
)
    requires
        call_ensures(User::<S, P>::join_answered, (user, target, Some(response)), step),
    ensures
        step is Done,
        final(user).name == old(user).name,
        final(user).client == old(user).client,
        final(user).channels@.contains_key(target@),
        final(user).channels@[target@].incoming == response.incoming,
        final(user).channels@[target@].parted == response.parted,
        forall|other: Seq<char>|
            #![trigger final(user).channels@.contains_key(other)]
            other != target@ ==> {
                &&& final(user).channels@.contains_key(other)
                    <==> old(user).channels@.contains_key(other)
                &&& final(user).channels@[other] == old(user).channels@[other]
            },
        old(user).channels.names().contains(target@) ==> final(user).channels.names()
            == old(user).channels.names(),
        !old(user).channels.names().contains(target@) ==> final(user).channels.names()
            == old(user).channels.names().push(target@),
{
}

/// Where a channel ended without an answer the user is unchanged and asks again.
pub proof fn law_no_answer_asks_again<S, P>(
    user: &mut User<S, P>,
    target: String,
    step: JoinStep,
)
    requires
        call_ensures(
            User::<S, P>::join_answered,
            (user, target, None::<JoinResponse<S, P>>),
            step,
        ),
    ensures
        step is Request,
        *final(user) == *old(user),
{
}

/// What goes through the way in that a channel answers a request with arrives as it
/// was sent, under the name that asked.
pub proof fn law_answer_tags_with_the_name<S, P>(
    name: String,
    sender: S,
    parted: P,
    response: JoinResponse<S, P>,
    message: Message,
    source: String,
    tagged: Message,
)
    requires
        call_ensures(JoinResponse::<S, P>::new, (&name, sender, parted), response),
        call_ensures(IncomingSink::<S>::tag, (&response.incoming, message), (source, tagged)),
    ensures
        source@ == name@,
        tagged == message,
        response.incoming.name@ == name@,
        response.incoming.sender == sender,
        response.parted == parted,
{
}

// ---------------------------------------------------------------- what is said

/// What a message says is its version and, field for field, what it holds.
pub proof fn law_message_says_its_fields(message: Message)
    ensures
        message@.version == message.version,
        match message.data {
            Data::Error(it) => message@.data == (DataView::Error {
                message: it.message@,
                code: it.code@,
            }),
            Data::Auth(it) => message@.data == (DataView::Auth {
                name: it.name@,
                client: it.client@,
            }),
            Data::Motd(it) => message@.data == (DataView::Motd { message: it.message@ }),
            Data::ChannelList(it) => {
                &&& message@.data is ChannelList
                &&& message@.data->channels.len() == it.channels@.len()
                &&& forall|i: int|
                    0 <= i < it.channels@.len() ==> #[trigger] message@.data->channels[i] == (
                        it.channels@[i].target@,
                        it.channels@[i].users,
                    )
            },
            Data::ChannelUpdate(it) => message@.data == (DataView::ChannelUpdate {
                target: it.target@,
                count: it.users,
            }),
            Data::Join(it) => message@.data == (DataView::Join {
                user: it.user@,
                target: it.target@,
            }),
            Data::Part(it) => message@.data == (DataView::Part {
                user: it.user@,
                target: it.target@,
            }),
            Data::UserList(it) => {
                &&& message@.data is UserList
                &&& message@.data->UserList_target == it.target@
                &&& message@.data->UserList_users.len() == it.users@.len()
                &&& forall|i: int|
                    0 <= i < it.users@.len() ==> #[trigger] message@.data->UserList_users[i]
                        == it.users@[i]@
            },
            Data::Cmsg(it) => message@.data == (DataView::Cmsg {
                message: it.message@,
                target: it.target@,
                source: it.source@,
            }),
            Data::GReadyState(it) => message@.data == (DataView::GReadyState {
                ready: it.ready,
                target: it.target@,
                source: it.source@,
            }),
            Data::GStart(it) => {
                &&& message@.data is GStart
                &&& message@.data->GStart_target == it.target@
                &&& message@.data->GStart_users.len() == it.users@.len()
                &&& forall|i: int|
                    0 <= i < it.users@.len() ==> #[trigger] message@.data->GStart_users[i]
                        == it.users@[i]@
            },
        },
{
}

/// What an action says is, field for field, what it holds.
pub proof fn law_action_says_its_fields(action: Action)
    ensures
        match action {
            Action::Keep { user } => action@ == (ActionView::Keep { user: user@ }),
            Action::Count { users } => action@ == (ActionView::Count { users }),
            Action::Send { to, message } => {
                &&& action@ is Send
                &&& action@->to.len() == to@.len()
                &&& (forall|i: int| 0 <= i < to@.len() ==> #[trigger] action@->to[i] == to@[i]@)
                &&& action@->Send_message == message@
            },
            Action::Greet { user, message } => action@ == (ActionView::Greet {
                user: user@,
                message: message@,
            }),
            Action::Announce { message } => action@ == (ActionView::Announce { message: message@ }),
            Action::Drop { user } => action@ == (ActionView::Drop { user: user@ }),
            Action::Close => action@ == ActionView::Close,
        },
{
}

// ---------------------------------------------------------------- the wire

/// A message that was encoded goes out as one binary message with exactly its bytes,
/// which are what is read from it. An error goes through as it is.
pub proof fn law_encoding_goes_out<E>(
    encoding: Result<Vec<u8>, E>,
    framed: Result<WsMessage, E>,
    read: Vec<u8>,
)
    requires
        call_ensures(
            <Result<Vec<u8>, E> as IntoWebsocketMessage>::into_ws_message,
            (encoding,),
            framed,
        ),
        framed is Ok ==> call_ensures(WsMessage::into_data, (framed->Ok_0,), read),
    ensures
        encoding is Ok ==> {
            &&& framed is Ok
            &&& framed->Ok_0 is Binary
            &&& framed->Ok_0->Binary_0@ == encoding->Ok_0@
            &&& read@ == encoding->Ok_0@
        },
        encoding is Err ==> framed is Err && framed->Err_0 == encoding->Err_0,
{
}

/// What is read from what came: the data of a binary message, a ping or a pong, the
/// UTF-8 of a text, and of a close the UTF-8 of its reason, if it has one.
pub proof fn law_received_bytes<E>(message: WsMessage, read: Result<Vec<u8>, Inbound<E>>)
    requires
        call_ensures(receive::<E>, (Some(Ok::<WsMessage, E>(message)),), read),
    ensures
        read is Ok,
        match message {
            WsMessage::Text(text) => read->Ok_0@ == encode_utf8(text@),
            WsMessage::Binary(data) => read->Ok_0@ == data@,
            WsMessage::Ping(data) => read->Ok_0@ == data@,
            WsMessage::Pong(data) => read->Ok_0@ == data@,
            WsMessage::Close(None) => read->Ok_0@.len() == 0,
            WsMessage::Close(Some(close)) => read->Ok_0@ == encode_utf8(close.reason@),
        },
{
}

/// The end of a WebSocket is the end of its connection, and its failure, like that of
/// the decoding of what came, is handed on with its error. What was decoded is a message.
pub proof fn law_what_comes_of_it<E>(
    error: E,
    message: Message,
    ended: Result<Vec<u8>, Inbound<E>>,
    failed: Result<Vec<u8>, Inbound<E>>,
    undecodable: Inbound<E>,
    came: Inbound<E>,
)
    requires
        call_ensures(receive::<E>, (None::<Result<WsMessage, E>>,), ended),
        call_ensures(receive::<E>, (Some(Err::<WsMessage, E>(error)),), failed),
        call_ensures(decoded::<E>, (Err::<Message, E>(error),), undecodable),
        call_ensures(decoded::<E>, (Ok::<Message, E>(message),), came),
    ensures
        ended is Err && ended->Err_0 is Closed,
        failed is Err && failed->Err_0 is Failed && failed->Err_0->Failed_0 == error,
        undecodable is Undecodable && undecodable->Undecodable_0 == error,
        came is Message && came->Message_0 == message,
{
}

} // verus!
