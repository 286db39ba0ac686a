//! What the whole server shares: who is on it, and which channels there are.
use crate::channel::{channel, Channel, IncomingSink, Room, RoomView};
use crate::message::{strings, ChannelList, ChannelUpdate, DataView, Message};
use crate::name_map::{without_name, NameMap};
use vstd::prelude::*;

verus! {

/// What the server keeps of a user: the way for messages that go to everybody.
pub struct UserHandle<O> {
    pub outgoing: O,
}

/// A user's place in a channel: the way in, and what to drop to leave.
pub struct UserChannel<S, P> {
    pub incoming: IncomingSink<S>,
    pub parted: P,
}

/// A user that has a name, with the channels that the user is in.
pub struct User<S, P> {
    pub name: String,
    pub client: String,
    pub channels: NameMap<UserChannel<S, P>>,
}

/// The users and channels of the server.
pub struct GlobalState<J, O> {
    pub channels: NameMap<Channel<J>>,
    pub default_channels: Vec<String>,
    pub users: NameMap<UserHandle<O>>,
    /// How many channels were ever opened: the ticket of the next one.
    pub opened: u64,
}

impl<J, O> GlobalState<J, O> {
    /// Every ticket was given out, and none to two channels.
    pub open spec fn wf(&self) -> bool {
        &&& self.channels.wf()
        &&& self.users.wf()
        &&& forall|name: Seq<char>| #[trigger]
            self.channels@.contains_key(name) ==> self.channels@[name].ticket < self.opened
        &&& forall|a: Seq<char>, b: Seq<char>|
            #![trigger self.channels@.contains_key(a), self.channels@.contains_key(b)]
            self.channels@.contains_key(a) && self.channels@.contains_key(b)
                && self.channels@[a].ticket == self.channels@[b].ticket ==> a == b
    }

    /// `after` differs from this state in its users at most.
    pub open spec fn same_but_users(&self, after: &Self) -> bool {
        &&& after.channels == self.channels
        &&& after.default_channels == self.default_channels
        &&& after.opened == self.opened
    }

    /// `after` differs from this state in its channels at most.
    pub open spec fn same_but_channels(&self, after: &Self) -> bool {
        &&& after.users == self.users
        &&& after.default_channels == self.default_channels
    }

    /// `after` is this state with the new user `name`.
    pub open spec fn admitted(&self, after: &Self, name: Seq<char>, outgoing: O) -> bool {
        &&& after.users@ == self.users@.insert(name, UserHandle { outgoing })
        &&& after.users.names() == self.users.names().push(name)
        &&& self.same_but_users(after)
    }

    /// `after` is this state without the user `name`.
    pub open spec fn released(&self, after: &Self, name: Seq<char>) -> bool {
        &&& after.users@ == self.users@.remove(name)
        &&& after.users.names() == without_name(self.users.names(), name)
        &&& self.same_but_users(after)
    }

    /// `after` is this state with the new channel `name`.
    pub open spec fn channel_opened(&self, after: &Self, name: Seq<char>, join_sender: J) -> bool {
        &&& after.channels@ == self.channels@.insert(
            name,
            Channel { join_sender, count_users: 0, ticket: self.opened },
        )
        &&& after.channels.names() == self.channels.names().push(name)
        &&& after.opened == self.opened + 1
        &&& self.same_but_channels(after)
    }

    /// `after` is this state without the channel `name`.
    pub open spec fn channel_closed(&self, after: &Self, name: Seq<char>) -> bool {
        &&& after.channels@ == self.channels@.remove(name)
        &&& after.channels.names() == without_name(self.channels.names(), name)
        &&& after.opened == self.opened
        &&& self.same_but_channels(after)
    }

    /// The channel `name` that holds `ticket` is registered.
    pub open spec fn registers(&self, name: Seq<char>, ticket: u64) -> bool {
        self.channels@.contains_key(name) && self.channels@[name].ticket == ticket
    }

    /// `after` is this state with the count of one channel set, if that channel is
    /// still registered.
    pub open spec fn count_published(
        &self,
        after: &Self,
        name: Seq<char>,
        ticket: u64,
        count_users: usize,
    ) -> bool {
        &&& after.channels@ == if self.registers(name, ticket) {
            self.channels@.insert(name, Channel { count_users, ..self.channels@[name] })
        } else {
            self.channels@
        }
        &&& after.channels.names() == self.channels.names()
        &&& after.opened == self.opened
        &&& self.same_but_channels(after)
    }

    /// The channels by name, each with the count that it last published.
    pub open spec fn listing(&self) -> DataView {
        DataView::ChannelList {
            channels: Seq::new(
                self.channels.names().len(),
                |i: int|
                    (
                        self.channels.names()[i],
                        self.channels@[self.channels.names()[i]].count_users,
                    ),
            ),
        }
    }

    /// A server without users and channels. Every new user joins the default channels.
    pub fn new(default_channels: Vec<String>) -> (r: Self)
        ensures
            r.wf(),
            r.channels@ == Map::<Seq<char>, Channel<J>>::empty(),
            r.channels.names().len() == 0,
            r.users@ == Map::<Seq<char>, UserHandle<O>>::empty(),
            r.users.names().len() == 0,
            r.default_channels == default_channels,
            r.opened == 0,
    {
        GlobalState {
            channels: NameMap::new(),
            default_channels,
            users: NameMap::new(),
            opened: 0,
        }
    }

    /// Gives the name `name` to a new user, unless a user has it.
    pub fn claim_name(&mut self, name: &String, outgoing: O) -> (r: bool)
        requires
            old(self).wf(),
        ensures
            final(self).wf(),
            r == !old(self).users@.contains_key(name@),
            r ==> old(self).admitted(final(self), name@, outgoing),
            !r ==> *final(self) == *old(self),
    {
        if self.users.contains_key(name) {
            return false;
        }
        proof {
            self.users.lemma_names();
        }
        self.users.insert(name.clone(), UserHandle { outgoing });
        true
    }

    /// Takes a user who is gone out of the users: the name is free again.
    pub fn release_name(&mut self, name: &String)
        requires
            old(self).wf(),
        ensures
            final(self).wf(),
            old(self).released(final(self), name@),
    {
        let _ = self.users.remove(name);
    }

    /// The way to ask the channel `name` whether one may join it, if there is one.
    pub fn join_sender(&self, name: &String) -> (r: Option<&J>)
        requires
            self.wf(),
        ensures
            match r {
                Some(join_sender) => {
                    &&& self.channels@.contains_key(name@)
                    &&& *join_sender == self.channels@[name@].join_sender
                },
                None => !self.channels@.contains_key(name@),
            },
    {
        match self.channels.get(name) {
            Some(entry) => Some(&entry.join_sender),
            None => None,
        }
    }

    /// Opens the channel `name` unless there is one by that name.
    pub fn open_channel(&mut self, name: &String, join_sender: J) -> (r: Option<Room>)
        requires
            old(self).wf(),
            old(self).opened < u64::MAX,
        ensures
            final(self).wf(),
            match r {
                Some(room) => {
                    &&& !old(self).channels@.contains_key(name@)
                    &&& old(self).channel_opened(final(self), name@, join_sender)
                    &&& room.wf()
                    &&& room@ == RoomView::empty(name@, old(self).opened)
                },
                None => old(self).channels@.contains_key(name@) && *final(self) == *old(self),
            },
    {
        if self.channels.contains_key(name) {
            return None;
        }
        proof {
            self.channels.lemma_names();
        }
        let (entry, room) = channel(name, self.opened, join_sender);
        self.channels.insert(name.clone(), entry);
        self.opened = self.opened + 1;
        Some(room)
    }

    /// Takes the channel `name` out of the registry.
    pub fn close_channel(&mut self, name: &String)
        requires
            old(self).wf(),
        ensures
            final(self).wf(),
            old(self).channel_closed(final(self), name@),
    {
        let _ = self.channels.remove(name);
    }

    /// The channel `name` that holds `ticket` publishes its number of users.
    pub fn publish_count(&mut self, name: &String, ticket: u64, count_users: usize)
        requires
            old(self).wf(),
        ensures
            final(self).wf(),
            old(self).count_published(final(self), name@, ticket, count_users),
    {
        match self.channels.get_mut(name) {
            Some(entry) => {
                if entry.ticket == ticket {
                    entry.count_users = count_users;
                }
            },
            None => {},
        }
        assert(old(self).registers(name@, ticket) || self.channels@ =~= old(self).channels@);
    }

    /// The channels by name, each with the count that it last published.
    pub fn channel_list(&self) -> (r: ChannelList)
        requires
            self.wf(),
        ensures
            r@ == self.listing(),
    {
        let names = self.channels.keys();
        let entries = self.channels.values();
        let mut channels: Vec<ChannelUpdate> = Vec::new();
        let mut i: usize = 0;
        while i < names.len()
            invariant
                i <= names@.len(),
                strings(names@) == self.channels.names(),
                entries@.len() == names@.len(),
                forall|j: int|
                    0 <= j < entries@.len() ==> *(#[trigger] entries@[j])
                        == self.channels@[self.channels.names()[j]],
                channels@.len() == i,
                forall|j: int|
                    #![trigger channels@[j]]
                    0 <= j < i ==> channels@[j].target@ == self.channels.names()[j]
                        && channels@[j].users
                        == self.channels@[self.channels.names()[j]].count_users,
            decreases names@.len() - i,
        {
            assert(strings(names@)[i as int] == names@[i as int]@);
            channels.push(
                ChannelUpdate { target: names[i].clone(), users: entries[i].count_users() },
            );
            i = i + 1;
        }
        let r = ChannelList { channels };
        assert(r@ =~= self.listing());
        r
    }

    /// A message to everybody: each user gets it once.
    pub fn msg_all<'a>(&'a self, message: &'a Message) -> (r: Vec<(&'a O, &'a Message)>)
        requires
            self.wf(),
        ensures
            r@.len() == self.users.names().len(),
            forall|i: int|
                #![trigger r@[i]]
                0 <= i < r@.len() ==> *r@[i].0 == self.users@[self.users.names()[i]].outgoing
                    && *r@[i].1 == *message,
    {
        let handles = self.users.values();
        let mut r: Vec<(&'a O, &'a Message)> = Vec::new();
        let mut i: usize = 0;
        while i < handles.len()
            invariant
                i <= handles@.len(),
                handles@.len() == self.users.names().len(),
                forall|j: int|
                    0 <= j < handles@.len() ==> *(#[trigger] handles@[j])
                        == self.users@[self.users.names()[j]],
                r@.len() == i,
                forall|j: int|
                    #![trigger r@[j]]
                    0 <= j < i ==> *r@[j].0 == self.users@[self.users.names()[j]].outgoing
                        && *r@[j].1 == *message,
            decreases handles@.len() - i,
        {
            let handle = handles[i];
            r.push((&handle.outgoing, message));
            i = i + 1;
        }
        r
    }

    /// The default channel that a new user joins next, when the user has been through
    /// the first `done` of them.
    pub fn join_default_channels(&self, done: usize) -> (r: Option<String>)
        ensures
            match r {
                Some(target) => {
                    &&& done < self.default_channels@.len()
                    &&& target@ == self.default_channels@[done as int]@
                },
                None => done >= self.default_channels@.len(),
            },
    {
        if done < self.default_channels.len() {
            Some(self.default_channels[done].clone())
        } else {
            None
        }
    }
}

} // verus!
