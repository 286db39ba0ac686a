//! The messages that clients and server exchange.
use vstd::prelude::*;

verus! {

/// The protocol version that the server writes on every message it makes.
pub const VERSION: u8 = 1;

#[derive(Debug, Clone, PartialEq, Eq)]
pub struct Error {
    pub message: String,
    pub code: String,
}

#[derive(Debug, Clone, PartialEq, Eq)]
pub struct Auth {
    pub name: String,
    pub client: String,
}

#[derive(Debug, Clone, PartialEq, Eq)]
pub struct Motd {
    pub message: String,
}

#[derive(Debug, Clone, PartialEq, Eq)]
pub struct ChannelList {
    pub channels: Vec<ChannelUpdate>,
}

#[derive(Debug, Clone, PartialEq, Eq)]
pub struct ChannelUpdate {
    pub target: String,
    pub users: usize,
}

#[derive(Debug, Clone, PartialEq, Eq)]
pub struct Join {
    pub user: String,
    pub target: String,
}

#[derive(Debug, Clone, PartialEq, Eq)]
pub struct Part {
    pub user: String,
    pub target: String,
}

#[derive(Debug, Clone, PartialEq, Eq)]
pub struct UserList {
    pub target: String,
    pub users: Vec<String>,
}

/// A line of chat. `source` is filled in by the channel.
#[derive(Debug, Clone, PartialEq, Eq)]
pub struct Cmsg {
    pub message: String,
    pub target: String,
    pub source: String,
}

/// Whether a user is ready for a game. `source` is filled in by the channel.
#[derive(Debug, Clone, PartialEq, Eq)]
pub struct GReadyState {
    pub ready: bool,
    pub target: String,
    pub source: String,
}

#[derive(Debug, Clone, PartialEq, Eq)]
pub struct GStart {
    pub target: String,
    pub users: Vec<String>,
}

#[derive(Debug, Clone, PartialEq, Eq)]
pub enum Data {
    Error(Error),
    Auth(Auth),
    Motd(Motd),
    ChannelList(ChannelList),
    ChannelUpdate(ChannelUpdate),
    Join(Join),
    Part(Part),
    UserList(UserList),
    Cmsg(Cmsg),
    GReadyState(GReadyState),
    GStart(GStart),
}

#[derive(Debug, Clone, PartialEq, Eq)]
pub struct Message {
    pub version: u8,
    pub data: Data,
}

/// What a [`Data`] says, with every string as the sequence of its characters.
#[verifier::ext_equal]
pub enum DataView {
    Error { message: Seq<char>, code: Seq<char> },
    Auth { name: Seq<char>, client: Seq<char> },
    Motd { message: Seq<char> },
    /// Each channel's name and its number of users.
    ChannelList { channels: Seq<(Seq<char>, usize)> },
    ChannelUpdate { target: Seq<char>, count: usize },
    Join { user: Seq<char>, target: Seq<char> },
    Part { user: Seq<char>, target: Seq<char> },
    UserList { target: Seq<char>, users: Seq<Seq<char>> },
    Cmsg { message: Seq<char>, target: Seq<char>, source: Seq<char> },
    GReadyState { ready: bool, target: Seq<char>, source: Seq<char> },
    GStart { target: Seq<char>, users: Seq<Seq<char>> },
}

/// What a [`Message`] says.
#[verifier::ext_equal]
pub struct MessageView {
    pub version: u8,
    pub data: DataView,
}

/// The strings of a sequence, each as the sequence of its characters.
pub open spec fn strings(s: Seq<String>) -> Seq<Seq<char>> {
    Seq::new(s.len(), |i: int| s[i]@)
}

impl View for Error {
    type V = DataView;

    open spec fn view(&self) -> DataView {
        DataView::Error { message: self.message@, code: self.code@ }
    }
}

impl View for Auth {
    type V = DataView;

    open spec fn view(&self) -> DataView {
        DataView::Auth { name: self.name@, client: self.client@ }
    }
}

impl View for Motd {
    type V = DataView;

    open spec fn view(&self) -> DataView {
        DataView::Motd { message: self.message@ }
    }
}

impl View for ChannelList {
    type V = DataView;

    open spec fn view(&self) -> DataView {
        DataView::ChannelList {
            channels: Seq::new(
                self.channels@.len(),
                |i: int| (self.channels@[i].target@, self.channels@[i].users),
            ),
        }
    }
}

impl View for ChannelUpdate {
    type V = DataView;

    open spec fn view(&self) -> DataView {
        DataView::ChannelUpdate { target: self.target@, count: self.users }
    }
}

impl View for Join {
    type V = DataView;

    open spec fn view(&self) -> DataView {
        DataView::Join { user: self.user@, target: self.target@ }
    }
}

impl View for Part {
    type V = DataView;

    open spec fn view(&self) -> DataView {
        DataView::Part { user: self.user@, target: self.target@ }
    }
}

impl View for UserList {
    type V = DataView;

    open spec fn view(&self) -> DataView {
        DataView::UserList { target: self.target@, users: strings(self.users@) }
    }
}

impl View for Cmsg {
    type V = DataView;

    open spec fn view(&self) -> DataView {
        DataView::Cmsg { message: self.message@, target: self.target@, source: self.source@ }
    }
}

impl View for GReadyState {
    type V = DataView;

    open spec fn view(&self) -> DataView {
        DataView::GReadyState { ready: self.ready, target: self.target@, source: self.source@ }
    }
}

impl View for GStart {
    type V = DataView;

    open spec fn view(&self) -> DataView {
        DataView::GStart { target: self.target@, users: strings(self.users@) }
    }
}

impl View for Data {
    type V = DataView;

    open spec fn view(&self) -> DataView {
        match self {
            Data::Error(d) => d@,
            Data::Auth(d) => d@,
            Data::Motd(d) => d@,
            Data::ChannelList(d) => d@,
            Data::ChannelUpdate(d) => d@,
            Data::Join(d) => d@,
            Data::Part(d) => d@,
            Data::UserList(d) => d@,
            Data::Cmsg(d) => d@,
            Data::GReadyState(d) => d@,
            Data::GStart(d) => d@,
        }
    }
}

impl View for Message {
    type V = MessageView;

    open spec fn view(&self) -> MessageView {
        MessageView { version: self.version, data: self.data@ }
    }
}

impl From<Error> for Data {
    fn from(data: Error) -> (r: Data) {
        Data::Error(data)
    }
}

impl vstd::std_specs::convert::FromSpecImpl<Error> for Data {
    open spec fn obeys_from_spec() -> bool {
        true
    }

    open spec fn from_spec(data: Error) -> Data {
        Data::Error(data)
    }
}

impl From<Auth> for Data {
    fn from(data: Auth) -> (r: Data) {
        Data::Auth(data)
    }
}

impl vstd::std_specs::convert::FromSpecImpl<Auth> for Data {
    open spec fn obeys_from_spec() -> bool {
        true
    }

    open spec fn from_spec(data: Auth) -> Data {
        Data::Auth(data)
    }
}

impl From<Motd> for Data {
    fn from(data: Motd) -> (r: Data) {
        Data::Motd(data)
    }
}

impl vstd::std_specs::convert::FromSpecImpl<Motd> for Data {
    open spec fn obeys_from_spec() -> bool {
        true
    }

    open spec fn from_spec(data: Motd) -> Data {
        Data::Motd(data)
    }
}

impl From<ChannelList> for Data {
    fn from(data: ChannelList) -> (r: Data) {
        Data::ChannelList(data)
    }
}

impl vstd::std_specs::convert::FromSpecImpl<ChannelList> for Data {
    open spec fn obeys_from_spec() -> bool {
        true
    }

    open spec fn from_spec(data: ChannelList) -> Data {
        Data::ChannelList(data)
    }
}

impl From<ChannelUpdate> for Data {
    fn from(data: ChannelUpdate) -> (r: Data) {
        Data::ChannelUpdate(data)
    }
}

impl vstd::std_specs::convert::FromSpecImpl<ChannelUpdate> for Data {
    open spec fn obeys_from_spec() -> bool {
        true
    }

    open spec fn from_spec(data: ChannelUpdate) -> Data {
        Data::ChannelUpdate(data)
    }
}

impl From<Join> for Data {
    fn from(data: Join) -> (r: Data) {
        Data::Join(data)
    }
}

impl vstd::std_specs::convert::FromSpecImpl<Join> for Data {
    open spec fn obeys_from_spec() -> bool {
        true
    }

    open spec fn from_spec(data: Join) -> Data {
        Data::Join(data)
    }
}

impl From<Part> for Data {
    fn from(data: Part) -> (r: Data) {
        Data::Part(data)
    }
}

impl vstd::std_specs::convert::FromSpecImpl<Part> for Data {
    open spec fn obeys_from_spec() -> bool {
        true
    }

    open spec fn from_spec(data: Part) -> Data {
        Data::Part(data)
    }
}

impl From<UserList> for Data {
    fn from(data: UserList) -> (r: Data) {
        Data::UserList(data)
    }
}

impl vstd::std_specs::convert::FromSpecImpl<UserList> for Data {
    open spec fn obeys_from_spec() -> bool {
        true
    }

    open spec fn from_spec(data: UserList) -> Data {
        Data::UserList(data)
    }
}

impl From<Cmsg> for Data {
    fn from(data: Cmsg) -> (r: Data) {
        Data::Cmsg(data)
    }
}

impl vstd::std_specs::convert::FromSpecImpl<Cmsg> for Data {
    open spec fn obeys_from_spec() -> bool {
        true
    }

    open spec fn from_spec(data: Cmsg) -> Data {
        Data::Cmsg(data)
    }
}

impl From<GReadyState> for Data {
    fn from(data: GReadyState) -> (r: Data) {
        Data::GReadyState(data)
    }
}

impl vstd::std_specs::convert::FromSpecImpl<GReadyState> for Data {
    open spec fn obeys_from_spec() -> bool {
        true
    }

    open spec fn from_spec(data: GReadyState) -> Data {
        Data::GReadyState(data)
    }
}

impl From<GStart> for Data {
    fn from(data: GStart) -> (r: Data) {
        Data::GStart(data)
    }
}

impl vstd::std_specs::convert::FromSpecImpl<GStart> for Data {
    open spec fn obeys_from_spec() -> bool {
        true
    }

    open spec fn from_spec(data: GStart) -> Data {
        Data::GStart(data)
    }
}

/// Any payload, or anything that turns into one, becomes a message of this
/// server's protocol version.
impl<D> From<D> for Message where D: Into<Data> {
    fn from(data: D) -> (r: Message)
        ensures
            r.version == VERSION,
            call_ensures(<D as Into<Data>>::into, (data,), r.data),
    {
        Message { version: VERSION, data: data.into() }
    }
}

impl<D> vstd::std_specs::convert::FromSpecImpl<D> for Message where D: Into<Data> {
    open spec fn obeys_from_spec() -> bool {
        <D as vstd::std_specs::convert::IntoSpec<Data>>::obeys_into_spec()
    }

    open spec fn from_spec(data: D) -> Message {
        Message {
            version: VERSION,
            data: <D as vstd::std_specs::convert::IntoSpec<Data>>::into_spec(data),
        }
    }
}

/// `<T as From<T>>::from`, the conversion of a value to its own type: what it returns is
/// its argument, unchanged. It is what makes a message of a [`Data`] hold that data.
pub assume_specification<T>[ <T as From<T>>::from ](value: T) -> (r: T)
    ensures
        r == value,
;

} // verus!
