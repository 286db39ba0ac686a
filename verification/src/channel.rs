//! A channel: who is in it, and what each event on it sets off.
use crate::message::{
    strings, ChannelUpdate, Data, DataView, Error, GReadyState, Join, Message, MessageView, Part,
    UserList, VERSION,
};
use crate::name_map::{with_name, without_name, NameMap};
use vstd::prelude::*;

verus! {

/// What the registry of channels holds of a channel: the way to ask to join it,
/// and the number of users that it last published.
///
/// The ticket tells this channel from any other that had or will have its name.
pub struct Channel<J> {
    pub join_sender: J,
    pub count_users: usize,
    pub ticket: u64,
}

impl<J> Channel<J> {
    /// The number of users that the channel last published.
    pub fn count_users(&self) -> (r: usize)
        ensures
            r == self.count_users,
    {
        self.count_users
    }
}

/// A user asks to join a channel: under which name, where the answer goes, and
/// where the channel's messages go.
pub struct JoinRequest<R, H> {
    pub name: String,
    pub response: R,
    pub outgoing: H,
}

/// The answer to a [`JoinRequest`]. Dropping `parted` leaves the channel.
pub struct JoinResponse<S, P> {
    pub incoming: IncomingSink<S>,
    pub parted: P,
}

/// The way into a channel for one user's messages, which all go in under that
/// user's name.
#[derive(Clone)]
pub struct IncomingSink<S> {
    pub name: String,
    pub sender: S,
}

impl<S, P> JoinResponse<S, P> {
    /// The answer to the request of the user `name`.
    pub fn new(name: &String, sender: S, parted: P) -> (r: Self)
        ensures
            r.incoming.name@ == name@,
            r.incoming.sender == sender,
            r.parted == parted,
    {
        JoinResponse { incoming: IncomingSink { name: name.clone(), sender }, parted }
    }
}

impl<S> IncomingSink<S> {
    /// What is handed to the channel for a message: the sink's own name and the message.
    pub fn tag(&self, message: Message) -> (r: (String, Message))
        ensures
            r.0@ == self.name@,
            r.1 == message,
    {
        (self.name.clone(), message)
    }
}

/// What a channel keeps of a user.
pub struct Member {
    pub ready: bool,
}

/// The channel itself: its users, its count of them, and the game it runs.
pub struct Room {
    name: String,
    ticket: u64,
    users: NameMap<Member>,
    count_users: usize,
    current_game: Option<Vec<String>>,
}

/// What an event on a channel sets off. Actions are carried out in their order.
#[derive(Debug, PartialEq, Eq)]
pub enum Action {
    /// Keep the sender that came with a request to join, as the user's, in place of
    /// any that is kept for the user.
    Keep { user: String },
    /// Publish the channel's number of users.
    Count { users: usize },
    /// Send a message to each of these users, through the sender kept for the user.
    Send { to: Vec<String>, message: Message },
    /// Send a message to one user, through a fresh copy of the sender kept for the user.
    Greet { user: String, message: Message },
    /// Send a message to every user of the server.
    Announce { message: Message },
    /// Let go of the sender kept for a user.
    Drop { user: String },
    /// Take the channel out of the registry and end it.
    Close,
}

/// What an [`Action`] says.
#[verifier::ext_equal]
pub enum ActionView {
    Keep { user: Seq<char> },
    Count { users: usize },
    Send { to: Seq<Seq<char>>, message: MessageView },
    Greet { user: Seq<char>, message: MessageView },
    Announce { message: MessageView },
    Drop { user: Seq<char> },
    Close,
}

impl View for Action {
    type V = ActionView;

    open spec fn view(&self) -> ActionView {
        match self {
            Action::Keep { user } => ActionView::Keep { user: user@ },
            Action::Count { users } => ActionView::Count { users: *users },
            Action::Send { to, message } => ActionView::Send {
                to: strings(to@),
                message: message@,
            },
            Action::Greet { user, message } => ActionView::Greet { user: user@, message: message@ },
            Action::Announce { message } => ActionView::Announce { message: message@ },
            Action::Drop { user } => ActionView::Drop { user: user@ },
            Action::Close => ActionView::Close,
        }
    }
}

/// What a sequence of actions says.
pub open spec fn actions(s: Seq<Action>) -> Seq<ActionView> {
    Seq::new(s.len(), |i: int| s[i]@)
}

/// A message that the server makes.
pub open spec fn server_message(data: DataView) -> MessageView {
    MessageView { version: VERSION, data }
}

/// What a [`Room`] is.
#[verifier::ext_equal]
pub struct RoomView {
    pub name: Seq<char>,
    pub ticket: u64,
    /// The users in the order in which they came.
    pub users: Seq<Seq<char>>,
    /// The users that are ready for a game.
    pub ready: Set<Seq<char>>,
    /// How many joins have not been followed by their part.
    pub count: nat,
    /// The players of the game that runs.
    pub game: Option<Seq<Seq<char>>>,
}

impl RoomView {
    /// The room of a new channel.
    pub open spec fn empty(name: Seq<char>, ticket: u64) -> RoomView {
        RoomView { name, ticket, users: seq![], ready: Set::empty(), count: 0, game: None }
    }

    /// No user is in the room twice, and only users are ready.
    pub open spec fn wf(self) -> bool {
        &&& self.users.no_duplicates()
        &&& forall|user: Seq<char>| self.ready.contains(user) ==> self.users.contains(user)
    }

    /// The ready users in the order in which they came.
    pub open spec fn ready_users(self) -> Seq<Seq<char>> {
        self.users.filter(|user: Seq<char>| self.ready.contains(user))
    }

    /// The room after `user` joined it. Nobody is ready on joining.
    pub open spec fn joined(self, user: Seq<char>) -> RoomView {
        RoomView {
            users: with_name(self.users, user),
            ready: self.ready.remove(user),
            count: self.count + 1,
            ..self
        }
    }

    /// What tells `user`, who has just joined, that `ready_user` is ready.
    pub open spec fn readiness_notice(
        self,
        user: Seq<char>,
        ready_user: Seq<char>,
    ) -> ActionView {
        ActionView::Greet {
            user,
            message: server_message(
                DataView::GReadyState { ready: true, target: self.name, source: ready_user },
            ),
        }
    }

    /// What follows on `user` having joined: the user's sender is kept, everybody in the
    /// room hears of it,
    /// everybody on the server hears of the new count, and the newcomer is told who
    /// is there and then, one by one, who is ready.
    pub open spec fn welcome(self, user: Seq<char>) -> Seq<ActionView> {
        seq![
            ActionView::Keep { user },
            ActionView::Count { users: self.count as usize },
            ActionView::Send {
                to: self.users,
                message: server_message(DataView::Join { user, target: self.name }),
            },
            ActionView::Announce {
                message: server_message(
                    DataView::ChannelUpdate { target: self.name, count: self.count as usize },
                ),
            },
            ActionView::Greet {
                user,
                message: server_message(
                    DataView::UserList { target: self.name, users: self.users },
                ),
            },
        ] + self.readiness_notices(user)
    }

    /// One readiness notice for each ready user.
    pub open spec fn readiness_notices(self, user: Seq<char>) -> Seq<ActionView> {
        Seq::new(
            self.ready_users().len(),
            |i: int| self.readiness_notice(user, self.ready_users()[i]),
        )
    }

    /// The room after `user` left it.
    pub open spec fn parted(self, user: Seq<char>) -> RoomView {
        RoomView {
            users: without_name(self.users, user),
            ready: self.ready.remove(user),
            count: (self.count - 1) as nat,
            ..self
        }
    }

    /// What follows on `user` leaving this room: everybody in it, the leaver
    /// included, hears of it, everybody on the server hears of the new count, and the
    /// channel ends if nobody is left.
    pub open spec fn farewell(self, user: Seq<char>) -> Seq<ActionView> {
        let after = self.parted(user);
        let always = seq![
            ActionView::Send {
                to: self.users,
                message: server_message(DataView::Part { user, target: self.name }),
            },
            ActionView::Drop { user },
            ActionView::Count { users: after.count as usize },
            ActionView::Announce {
                message: server_message(
                    DataView::ChannelUpdate { target: self.name, count: after.count as usize },
                ),
            },
        ];
        if after.users.len() == 0 {
            always.push(ActionView::Close)
        } else {
            always
        }
    }

    /// A game can be started by `user`: the user is ready and no game runs.
    pub open spec fn may_start(self, user: Seq<char>) -> bool {
        self.users.contains(user) && self.ready.contains(user) && self.game is None
    }

    /// The room after it heard `data` from `source`.
    pub open spec fn heard(self, source: Seq<char>, data: DataView) -> RoomView {
        match data {
            DataView::GReadyState { ready, .. } if self.users.contains(source) => RoomView {
                ready: if ready {
                    self.ready.insert(source)
                } else {
                    self.ready.remove(source)
                },
                ..self
            },
            DataView::GStart { .. } if self.may_start(source) => RoomView {
                game: Some(self.ready_users()),
                ..self
            },
            _ => self,
        }
    }

    /// An error that goes to `user` alone.
    pub open spec fn refusal(
        self,
        user: Seq<char>,
        message: Seq<char>,
        code: Seq<char>,
    ) -> Seq<ActionView> {
        seq![
            ActionView::Send {
                to: seq![user],
                message: server_message(DataView::Error { message, code }),
            },
        ]
    }

    /// What follows on the room hearing `data` from `source`. A line of chat goes to
    /// everybody. A change of readiness goes to everybody if a user made it. A start
    /// is refused, to the user who asked, while the user is not ready or a game
    /// runs. Whatever `data` names as its source, what goes out names `source`.
    pub open spec fn responses(self, source: Seq<char>, data: DataView) -> Seq<ActionView> {
        match data {
            DataView::Cmsg { message, target, .. } => seq![
                ActionView::Send {
                    to: self.users,
                    message: server_message(DataView::Cmsg { message, target, source }),
                },
            ],
            DataView::GReadyState { ready, target, .. } if self.users.contains(source) => seq![
                ActionView::Send {
                    to: self.users,
                    message: server_message(DataView::GReadyState { ready, target, source }),
                },
            ],
            DataView::GStart { .. } if self.users.contains(source) => {
                if !self.ready.contains(source) {
                    self.refusal(source, "You must be ready to start a game"@, "unauthorized"@)
                } else if self.game is Some {
                    self.refusal(source, "A game is already running"@, "already_running"@)
                } else {
                    seq![]
                }
            },
            _ => seq![],
        }
    }
}

/// The messages that a channel can hear.
pub open spec fn channel_hears(data: DataView) -> bool {
    data is Cmsg || data is GReadyState || data is GStart
}

impl View for Room {
    type V = RoomView;

    closed spec fn view(&self) -> RoomView {
        RoomView {
            name: self.name@,
            ticket: self.ticket,
            users: self.users.names(),
            ready: Set::new(
                |user: Seq<char>| self.users@.contains_key(user) && self.users@[user].ready,
            ),
            count: self.count_users as nat,
            game: match self.current_game {
                Some(players) => Some(strings(players@)),
                None => None,
            },
        }
    }
}

/// A channel that nobody is in yet: what the registry holds of it, and the room.
pub fn channel<J>(name: &String, ticket: u64, join_sender: J) -> (r: (Channel<J>, Room))
    ensures
        r.0 == (Channel { join_sender, count_users: 0, ticket }),
        r.1.wf(),
        r.1@ == RoomView::empty(name@, ticket),
{
    let room = Room {
        name: name.clone(),
        ticket,
        users: NameMap::new(),
        count_users: 0,
        current_game: None,
    };
    assert(room@.ready =~= Set::empty());
    (Channel { join_sender, count_users: 0, ticket }, room)
}

impl Room {
    pub closed spec fn wf(&self) -> bool {
        self.users.wf()
    }

    /// What a room is, is well-formed when the room is.
    pub proof fn lemma_view_wf(&self)
        requires
            self.wf(),
        ensures
            self@.wf(),
            self@.count <= usize::MAX,
    {
        self.users.lemma_names();
    }

    pub fn name(&self) -> (r: &String)
        ensures
            r@ == self@.name,
    {
        &self.name
    }

    pub fn ticket(&self) -> (r: u64)
        ensures
            r == self@.ticket,
    {
        self.ticket
    }

    /// How many joins have not been followed by their part.
    pub fn count_users(&self) -> (r: usize)
        ensures
            r == self@.count,
    {
        self.count_users
    }

    /// A user asks to join. `answered` says whether the user took the answer: if the
    /// user is gone already, nothing happens.
    pub fn join(&mut self, user: String, answered: bool) -> (r: Vec<Action>)
        requires
            old(self).wf(),
            answered ==> old(self)@.count < usize::MAX,
        ensures
            final(self).wf(),
            answered ==> final(self)@ == old(self)@.joined(user@),
            answered ==> actions(r@) == old(self)@.joined(user@).welcome(user@),
            !answered ==> *final(self) == *old(self),
            !answered ==> r@.len() == 0,
    {
        let mut todo: Vec<Action> = Vec::new();
        if !answered {
            return todo;
        }
        let ghost before = *self;
        proof {
            before.users.lemma_names();
        }
        self.users.insert(user.clone(), Member { ready: false });
        self.count_users = self.count_users + 1;
        proof {
            self.users.lemma_names();
            assert(self@.ready =~= before@.joined(user@).ready);
            assert(self@ =~= before@.joined(user@));
        }
        todo.push(Action::Keep { user: user.clone() });
        todo.push(Action::Count { users: self.count_users });
        todo.push(
            Action::Send {
                to: self.users.keys(),
                message: Message::from(Join { user: user.clone(), target: self.name.clone() }),
            },
        );
        todo.push(
            Action::Announce {
                message: Message::from(
                    ChannelUpdate { target: self.name.clone(), users: self.count_users },
                ),
            },
        );
        todo.push(
            Action::Greet {
                user: user.clone(),
                message: Message::from(
                    UserList { target: self.name.clone(), users: self.users.keys() },
                ),
            },
        );
        let ready = self.ready_users();
        let mut i: usize = 0;
        while i < ready.len()
            invariant
                i <= ready@.len(),
                strings(ready@) == self@.ready_users(),
                todo@.len() == 5 + i,
                actions(todo@) =~= self@.welcome(user@).take(5 + i),
            decreases ready@.len() - i,
        {
            todo.push(
                Action::Greet {
                    user: user.clone(),
                    message: Message::from(
                        GReadyState {
                            ready: true,
                            target: self.name.clone(),
                            source: ready[i].clone(),
                        },
                    ),
                },
            );
            proof {
                assert(strings(ready@)[i as int] == ready@[i as int]@);
            }
            i = i + 1;
        }
        assert(self@.welcome(user@).take(5 + ready@.len() as int) =~= self@.welcome(user@));
        todo
    }

    /// The ready users in the order in which they came.
    fn ready_users(&self) -> (r: Vec<String>)
        requires
            self.wf(),
        ensures
            strings(r@) == self@.ready_users(),
    {
        let names = self.users.keys();
        let mut r: Vec<String> = Vec::new();
        let ghost pred = |user: Seq<char>| self@.ready.contains(user);
        let mut i: usize = 0;
        proof {
            self.users.lemma_names();
            reveal(Seq::filter);
            assert(strings(r@) =~= strings(names@).take(0).filter(pred));
        }
        while i < names.len()
            invariant
                self.wf(),
                i <= names@.len(),
                strings(names@) == self.users.names(),
                pred == (|user: Seq<char>| self@.ready.contains(user)),
                strings(r@) == strings(names@).take(i as int).filter(pred),
            decreases names@.len() - i,
        {
            let ghost user = strings(names@)[i as int];
            proof {
                assert(strings(names@).take(i + 1) =~= strings(names@).take(i as int).push(user));
                strings(names@).take(i as int).lemma_filter_push(user, pred);
            }
            match self.users.get(&names[i]) {
                Some(member) => {
                    if member.ready {
                        let ghost before = r@;
                        r.push(names[i].clone());
                        assert(strings(r@) =~= strings(before).push(user));
                    }
                },
                None => {},
            }
            i = i + 1;
        }
        assert(strings(names@).take(names@.len() as int) =~= strings(names@));
        r
    }

    /// A user has left.
    pub fn part(&mut self, user: String) -> (r: Vec<Action>)
        requires
            old(self).wf(),
            old(self)@.count > 0,
        ensures
            final(self).wf(),
            final(self)@ == old(self)@.parted(user@),
            actions(r@) == old(self)@.farewell(user@),
    {
        let ghost before = *self;
        let mut todo: Vec<Action> = Vec::new();
        todo.push(
            Action::Send {
                to: self.users.keys(),
                message: Message::from(Part { user: user.clone(), target: self.name.clone() }),
            },
        );
        let _ = self.users.remove(&user);
        self.count_users = self.count_users - 1;
        todo.push(Action::Drop { user: user.clone() });
        todo.push(Action::Count { users: self.count_users });
        todo.push(
            Action::Announce {
                message: Message::from(
                    ChannelUpdate { target: self.name.clone(), users: self.count_users },
                ),
            },
        );
        proof {
            self.users.lemma_names();
            assert(self@.ready =~= before@.parted(user@).ready);
            assert(self@ =~= before@.parted(user@));
        }
        if self.users.is_empty() {
            todo.push(Action::Close);
        }
        assert(actions(todo@) =~= before@.farewell(user@));
        todo
    }

    /// A message came in from the user `source`.
    pub fn incoming(&mut self, source: String, message: Message) -> (r: Vec<Action>)
        requires
            old(self).wf(),
            channel_hears(message@.data),
        ensures
            final(self).wf(),
            final(self)@ == old(self)@.heard(source@, message@.data),
            actions(r@) == old(self)@.responses(source@, message@.data),
    {
        let ghost before = *self;
        let ghost data = message@.data;
        let mut todo: Vec<Action> = Vec::new();
        proof {
            self.users.lemma_names();
        }
        match message.data {
            Data::Cmsg(mut cmsg) => {
                cmsg.source = source;
                todo.push(Action::Send { to: self.users.keys(), message: Message::from(cmsg) });
            },
            Data::GReadyState(mut greadystate) => {
                match self.users.get_mut(&source) {
                    Some(member) => {
                        member.ready = greadystate.ready;
                        proof {
                            self.users.lemma_names();
                            assert(self@.ready =~= before@.heard(source@, data).ready);
                        }
                        greadystate.source = source;
                        todo.push(
                            Action::Send {
                                to: self.users.keys(),
                                message: Message::from(greadystate),
                            },
                        );
                    },
                    None => {},
                }
            },
            Data::GStart(_) => {
                match self.users.get(&source) {
                    Some(member) => {
                        if !member.ready {
                            todo.push(
                                refuse(source, "You must be ready to start a game", "unauthorized"),
                            );
                        } else if self.current_game.is_some() {
                            todo.push(
                                refuse(source, "A game is already running", "already_running"),
                            );
                        } else {
                            let players = self.ready_users();
                            self.current_game = Some(players);
                        }
                    },
                    None => {},
                }
            },
            _ => {},
        }
        assert(self@ =~= before@.heard(source@, data));
        assert(actions(todo@) =~= before@.responses(source@, data));
        todo
    }
}

/// An error that goes to one user alone.
fn refuse(user: String, message: &str, code: &str) -> (r: Action)
    ensures
        r@ == (ActionView::Send {
            to: seq![user@],
            message: server_message(DataView::Error { message: message@, code: code@ }),
        }),
{
    let ghost name = user@;
    let mut to: Vec<String> = Vec::new();
    to.push(user);
    assert(strings(to@) =~= seq![name]);
    Action::Send {
        to,
        message: Message::from(Error { message: message.to_owned(), code: code.to_owned() }),
    }
}

} // verus!
