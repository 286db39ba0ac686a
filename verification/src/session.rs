//! What a connection does with each message that arrives on it, before and after
//! its user has a name.
use crate::channel::{server_message, JoinRequest, JoinResponse};
use crate::message::{Data, DataView, Error, Message, MessageView, Motd};
use crate::name_map::{with_name, without_name, NameMap};
use crate::state::{GlobalState, User, UserChannel};
use vstd::prelude::*;

verus! {

/// What comes next on a connection.
#[derive(Debug, PartialEq, Eq)]
pub enum Inbound<E> {
    /// The connection ended.
    Closed,
    /// The connection failed, on this error.
    Failed(E),
    /// What came is no message of the protocol: decoding it failed, on this error.
    Undecodable(E),
    /// A message came.
    Message(Message),
}

/// What a connection without a user does next.
pub enum Unauthed<S, P, E> {
    /// Send the reply, and go on reading.
    Reply { message: Message },
    /// The user has a name: send the greeting, in its order, and go on as that user.
    Admitted { user: User<S, P>, greeting: Vec<Message> },
    /// The connection is over.
    Finished,
    /// The connection is over, on this error.
    Failed(E),
}

/// What a connection with a user does next.
#[derive(Debug, PartialEq, Eq)]
pub enum Dispatch {
    /// Hand the message to the channel `target`, as one from `source`.
    Forward { target: String, source: String, message: Message },
    /// Join the channel `target`.
    Join { target: String },
    /// Nothing more is to be done about what came.
    Handled,
    /// The message is none that every user can send at any time.
    Unhandled { message: Message },
    /// Nothing more comes on this connection.
    End,
}

/// Where a connection is in its life.
pub enum Stage<S, P> {
    /// The user has no name yet.
    Unauthed,
    /// The user joins the default channels, and is through with the first `done` of them.
    Defaults { user: User<S, P>, done: usize },
    /// The user's messages are acted on.
    Serving { user: User<S, P> },
    /// The connection is over.
    Over,
}

/// What a user who wants to join a channel does next.
#[derive(Debug, PartialEq, Eq)]
pub enum JoinStep {
    /// Send the reply: the user does not join.
    Reply { message: Message },
    /// Find the channel, or open it, and ask it.
    Request,
    /// The user is in the channel.
    Done,
}

/// The name under which a user is known: the name as given, up to its last `#`.
/// What stands behind the `#` is a secret of the user's.
pub open spec fn display_name(name: Seq<char>) -> Seq<char> {
    match name.index_of_last('#') {
        Some(i) => name.take(i),
        None => name,
    }
}

/// The answer to a name that a user has already.
pub open spec fn name_unavailable(name: Seq<char>) -> MessageView {
    server_message(
        DataView::Error {
            message: "The name "@ + name + " is unavailable."@,
            code: "name_unavailable"@,
        },
    )
}

/// The answer to anything that comes before the user has a name.
pub open spec fn unauthorized() -> MessageView {
    server_message(
        DataView::Error {
            message: "You must authenticate before sending other commands."@,
            code: "unauthorized"@,
        },
    )
}

/// The answer to a join by a user who is in the channel.
pub open spec fn already_in_channel(target: Seq<char>) -> MessageView {
    server_message(
        DataView::Error {
            message: "You're already in "@ + target,
            code: "already_in_channel"@,
        },
    )
}

/// What a user is told whose buffer is full.
pub open spec fn kicked() -> MessageView {
    server_message(
        DataView::Error { message: "Kicked due to full buffers."@, code: "kicked"@ },
    )
}

/// The message of the day.
pub open spec fn motd() -> MessageView {
    server_message(DataView::Motd { message: "hello\nworld!"@ })
}

/// What a sequence of messages says.
pub open spec fn messages(s: Seq<Message>) -> Seq<MessageView> {
    Seq::new(s.len(), |i: int| s[i]@)
}

/// An error as a message.
fn error(message: String, code: &str) -> (r: Message)
    ensures
        r@ == server_message(DataView::Error { message: message@, code: code@ }),
{
    Message::from(Data::Error(Error { message, code: code.to_owned() }))
}

/// The name under which a user is known.
pub fn strip_tripcode(name: &String) -> (r: String)
    ensures
        r@ == display_name(name@),
{
    let chars = name.as_str();
    let len = chars.unicode_len();
    let mut i: usize = len;
    while i > 0
        invariant
            i <= len,
            len == chars@.len(),
            chars@ == name@,
            forall|j: int| i <= j < len ==> chars@[j] != '#',
        decreases i,
    {
        i = i - 1;
        if chars.get_char(i) == '#' {
            proof {
                name@.index_of_last_ensures('#');
                assert(name@.contains('#'));
                assert(name@.index_of_last('#') == Some(i as int));
            }
            return chars.substring_char(0, i).to_owned();
        }
    }
    proof {
        name@.index_of_last_ensures('#');
    }
    name.clone()
}

/// What a connection without a user does about what comes next. Only an `Auth`
/// gets a user in, and only under a name that is free. An error that ends the connection
/// is handed on.
pub fn unauthed<J, O, S, P, E>(
    global: &mut GlobalState<J, O>,
    inbound: Inbound<E>,
    outgoing: O,
) -> (r: Unauthed<S, P, E>)
    requires
        old(global).wf(),
    ensures
        final(global).wf(),
        match inbound {
            Inbound::Closed => r is Finished && *final(global) == *old(global),
            Inbound::Failed(error) => {
                &&& r == Unauthed::<S, P, E>::Failed(error)
                &&& *final(global) == *old(global)
            },
            Inbound::Undecodable(error) => {
                &&& r == Unauthed::<S, P, E>::Failed(error)
                &&& *final(global) == *old(global)
            },
            Inbound::Message(message) => match message.data {
                Data::Auth(auth) => {
                    let name = display_name(auth.name@);
                    if old(global).users@.contains_key(name) {
                        &&& r matches Unauthed::Reply { message: reply }
                        &&& reply@ == name_unavailable(name)
                        &&& *final(global) == *old(global)
                    } else {
                        &&& r matches Unauthed::Admitted { user, greeting }
                        &&& user.wf()
                        &&& user.name@ == name
                        &&& user.client@ == auth.client@
                        &&& user.channels@ == Map::<Seq<char>, UserChannel<S, P>>::empty()
                        &&& user.channels.names().len() == 0
                        &&& user.signs_own_name()
                        &&& messages(greeting@) == seq![
                            motd(),
                            server_message(old(global).listing()),
                        ]
                        &&& old(global).admitted(final(global), name, outgoing)
                    }
                },
                _ => {
                    &&& r matches Unauthed::Reply { message: reply }
                    &&& reply@ == unauthorized()
                    &&& *final(global) == *old(global)
                },
            },
        },
{
    let message = match inbound {
        Inbound::Closed => {
            return Unauthed::Finished;
        },
        Inbound::Failed(error) => {
            return Unauthed::Failed(error);
        },
        Inbound::Undecodable(error) => {
            return Unauthed::Failed(error);
        },
        Inbound::Message(message) => message,
    };
    match message.data {
        Data::Auth(auth) => {
            let name = strip_tripcode(&auth.name);
            if !global.claim_name(&name, outgoing) {
                let text = "The name ".to_owned().concat(name.as_str()).concat(" is unavailable.");
                return Unauthed::Reply { message: error(text, "name_unavailable") };
            }
            let user = User { name, client: auth.client, channels: NameMap::new() };
            let mut greeting: Vec<Message> = Vec::new();
            greeting.push(Message::from(Motd { message: "hello\nworld!".to_owned() }));
            greeting.push(Message::from(global.channel_list()));
            assert(messages(greeting@) =~= seq![motd(), server_message(old(global).listing())]);
            Unauthed::Admitted { user, greeting }
        },
        _ => Unauthed::Reply {
            message: error(
                "You must authenticate before sending other commands.".to_owned(),
                "unauthorized",
            ),
        },
    }
}

/// What is to be sent on a connection without a user, in its order, and where the
/// connection is then. An error ends it as its end does.
pub fn after_unauthed<S, P, E>(step: Unauthed<S, P, E>) -> (r: (Stage<S, P>, Vec<Message>))
    ensures
        match step {
            Unauthed::Reply { message } => r.0 == Stage::<S, P>::Unauthed && r.1@ == seq![message],
            Unauthed::Admitted { user, greeting } => {
                &&& r.0 == (Stage::Defaults { user, done: 0 })
                &&& r.1 == greeting
            },
            Unauthed::Finished => r.0 == Stage::<S, P>::Over && r.1@.len() == 0,
            Unauthed::Failed(_) => r.0 == Stage::<S, P>::Over && r.1@.len() == 0,
        },
{
    match step {
        Unauthed::Reply { message } => {
            let mut reply: Vec<Message> = Vec::new();
            reply.push(message);
            (Stage::Unauthed, reply)
        },
        Unauthed::Admitted { user, greeting } => (Stage::Defaults { user, done: 0 }, greeting),
        Unauthed::Finished => (Stage::Over, Vec::new()),
        Unauthed::Failed(_) => (Stage::Over, Vec::new()),
    }
}

/// Which default channel a user who has been through the first `done` of them joins
/// next, and where the connection is once that join is through. The user's messages
/// are acted on when there is none left.
pub fn next_default<J, O, S, P>(
    global: &GlobalState<J, O>,
    user: User<S, P>,
    done: usize,
) -> (r: (Stage<S, P>, Option<String>))
    ensures
        if done < global.default_channels@.len() {
            &&& r.0 == (Stage::Defaults { user, done: (done + 1) as usize })
            &&& r.1 is Some
            &&& r.1->Some_0@ == global.default_channels@[done as int]@
        } else {
            r.0 == (Stage::Serving { user }) && r.1 is None
        },
{
    assert(global.default_channels.len() == global.default_channels@.len());
    match global.join_default_channels(done) {
        Some(target) => (Stage::Defaults { user, done: done + 1 }, Some(target)),
        None => (Stage::Serving { user }, None),
    }
}

/// Where a connection whose user's messages are acted on is once what came was
/// dispatched. A message that is not handled has no place in its life.
pub fn after_dispatch<S, P>(user: User<S, P>, dispatch: &Dispatch) -> (r: Stage<S, P>)
    requires
        !(dispatch is Unhandled),
    ensures
        r == if dispatch is End {
            Stage::<S, P>::Over
        } else {
            Stage::Serving { user }
        },
{
    match dispatch {
        Dispatch::End => Stage::Over,
        _ => Stage::Serving { user },
    }
}

/// What follows on the try to hand a message to a user: nothing if it was taken, else
/// the notice that the user is kicked.
pub open spec fn notice_for(delivered: bool) -> Option<MessageView> {
    if delivered {
        None
    } else {
        Some(kicked())
    }
}

/// What a notice says, if it is one.
pub open spec fn notice_view(notice: Option<Message>) -> Option<MessageView> {
    match notice {
        Some(message) => Some(message@),
        None => None,
    }
}

/// What is to be sent to a user, past the full buffer, when a message to the user
/// was not taken.
fn kick_notice(delivered: bool) -> (r: Option<Message>)
    ensures
        notice_view(r) == notice_for(delivered),
{
    if delivered {
        None
    } else {
        Some(error("Kicked due to full buffers.".to_owned(), "kicked"))
    }
}

/// A message was handed to each of the users `to`, and `delivered` says of each
/// whether it was taken. What follows for each of them, in their order.
pub fn msg(to: &Vec<String>, delivered: &Vec<bool>) -> (r: Vec<(String, Option<Message>)>)
    requires
        delivered@.len() == to@.len(),
    ensures
        r@.len() == to@.len(),
        forall|i: int|
            #![trigger r@[i]]
            0 <= i < r@.len() ==> r@[i].0@ == to@[i]@ && notice_view(r@[i].1) == notice_for(
                delivered@[i],
            ),
{
    let mut r: Vec<(String, Option<Message>)> = Vec::new();
    let mut i: usize = 0;
    while i < to.len()
        invariant
            delivered@.len() == to@.len(),
            i <= to@.len(),
            r@.len() == i,
            forall|j: int|
                #![trigger r@[j]]
                0 <= j < i ==> r@[j].0@ == to@[j]@ && notice_view(r@[j].1) == notice_for(
                    delivered@[j],
                ),
        decreases to@.len() - i,
    {
        r.push((to[i].clone(), kick_notice(delivered[i])));
        i = i + 1;
    }
    r
}

impl<S, P> User<S, P> {
    pub open spec fn wf(&self) -> bool {
        self.channels.wf()
    }

    /// Every way into a channel that the user holds goes under the user's own name.
    pub open spec fn signs_own_name(&self) -> bool {
        forall|target: Seq<char>| #[trigger]
            self.channels@.contains_key(target) ==> self.channels@[target].incoming.name@
                == self.name@
    }

    /// `r` hands `message` to the channel `target`, as one from the name under which
    /// the user is in it. If the user is not in it, nothing is done.
    pub open spec fn forwards(&self, r: Dispatch, target: Seq<char>, message: Message) -> bool {
        if self.channels@.contains_key(target) {
            &&& r matches Dispatch::Forward { target: to, source, message: forwarded }
            &&& to@ == target
            &&& source@ == self.channels@[target].incoming.name@
            &&& forwarded == message
        } else {
            r is Handled
        }
    }

    /// `after` is this user, out of the channel `target`.
    pub open spec fn left(&self, after: &Self, target: Seq<char>) -> bool {
        &&& after.name == self.name
        &&& after.client == self.client
        &&& after.channels@ == self.channels@.remove(target)
        &&& after.channels.names() == without_name(self.channels.names(), target)
    }

    /// `after` is this user, in the channel `target` on the answer `response`.
    pub open spec fn entered(
        &self,
        after: &Self,
        target: Seq<char>,
        response: JoinResponse<S, P>,
    ) -> bool {
        &&& after.name == self.name
        &&& after.client == self.client
        &&& after.channels@ == self.channels@.insert(
            target,
            UserChannel { incoming: response.incoming, parted: response.parted },
        )
        &&& after.channels.names() == with_name(self.channels.names(), target)
    }

    /// `after` is this user once the join of the channel `target` is through: as before
    /// if the user was in it, else in it on some answer of the channel's.
    pub open spec fn join_finished(&self, after: &Self, target: Seq<char>) -> bool {
        if self.channels@.contains_key(target) {
            *after == *self
        } else {
            exists|response: JoinResponse<S, P>| self.entered(after, target, response)
        }
    }

    /// What a connection with a user does about what comes next.
    pub fn handle_common_message<E>(&mut self, inbound: Inbound<E>) -> (r: Dispatch)
        requires
            old(self).wf(),
        ensures
            final(self).wf(),
            old(self).signs_own_name() ==> final(self).signs_own_name(),
            match inbound {
                Inbound::Message(message) => match message.data {
                    Data::Cmsg(cmsg) => {
                        &&& old(self).forwards(r, cmsg.target@, message)
                        &&& *final(self) == *old(self)
                    },
                    Data::GReadyState(greadystate) => {
                        &&& old(self).forwards(r, greadystate.target@, message)
                        &&& *final(self) == *old(self)
                    },
                    Data::Join(join) => {
                        &&& r matches Dispatch::Join { target }
                        &&& target@ == join.target@
                        &&& *final(self) == *old(self)
                    },
                    Data::Part(part) => {
                        &&& r is Handled
                        &&& old(self).left(final(self), part.target@)
                    },
                    _ => {
                        &&& r == (Dispatch::Unhandled { message })
                        &&& *final(self) == *old(self)
                    },
                },
                _ => r is End && *final(self) == *old(self),
            },
    {
        let message = match inbound {
            Inbound::Message(message) => message,
            _ => {
                return Dispatch::End;
            },
        };
        let target = match &message.data {
            Data::Cmsg(cmsg) => cmsg.target.clone(),
            Data::GReadyState(greadystate) => greadystate.target.clone(),
            Data::Join(join) => {
                return Dispatch::Join { target: join.target.clone() };
            },
            Data::Part(part) => {
                let _ = self.channels.remove(&part.target);
                return Dispatch::Handled;
            },
            _ => {
                return Dispatch::Unhandled { message };
            },
        };
        match self.channels.get(&target) {
            Some(place) => {
                let (source, message) = place.incoming.tag(message);
                Dispatch::Forward { target, source, message }
            },
            None => Dispatch::Handled,
        }
    }

    /// The user wants to join the channel `target`.
    pub fn join_channel(&self, target: &String) -> (r: JoinStep)
        requires
            self.wf(),
        ensures
            if self.channels@.contains_key(target@) {
                r matches JoinStep::Reply { message } && message@ == already_in_channel(target@)
            } else {
                r is Request
            },
    {
        if self.channels.contains_key(target) {
            let text = "You're already in ".to_owned().concat(target.as_str());
            JoinStep::Reply { message: error(text, "already_in_channel") }
        } else {
            JoinStep::Request
        }
    }

    /// The user's request to join a channel.
    pub fn join_request<R, H>(&self, response: R, outgoing: H) -> (r: JoinRequest<R, H>)
        ensures
            r.name@ == self.name@,
            r.response == response,
            r.outgoing == outgoing,
    {
        JoinRequest { name: self.name.clone(), response, outgoing }
    }

    /// The channel `target` has answered the user's request to join, or has ended
    /// without an answer: then the channel is to be found anew.
    pub fn join_answered(
        &mut self,
        target: String,
        response: Option<JoinResponse<S, P>>,
    ) -> (r: JoinStep)
        requires
            old(self).wf(),
        ensures
            final(self).wf(),
            old(self).signs_own_name() && (response matches Some(answer)
                ==> answer.incoming.name@ == old(self).name@) ==> final(self).signs_own_name(),
            match response {
                Some(response) => r is Done && old(self).entered(final(self), target@, response),
                None => r is Request && *final(self) == *old(self),
            },
    {
        match response {
            Some(response) => {
                self.channels.insert(
                    target,
                    UserChannel { incoming: response.incoming, parted: response.parted },
                );
                JoinStep::Done
            },
            None => JoinStep::Request,
        }
    }
}

} // verus!
