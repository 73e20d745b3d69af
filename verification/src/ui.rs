//! What the session coordinator holds, what it asks of the store, and the
//! rules by which it moves: the session's model.
//!
//! The rules are functions from a session and one input (a key, a command,
//! an event from the notifier, or the store's reply to the last request)
//! to the next session and the next request for the store. The executable
//! session follows them step by step.

use crate::clock::hh_mm;
use crate::data::{JoinedRoom, Message, MessageView, Room, RoomSummary, User, WhoSummary};
use crate::data::Conflict;
use crate::input::{parsed, CommandView};
use crate::nick::is_valid_nick;
use crate::rate::{admits, after_consume, full_level, BucketView};
use crate::realtime::Event;
use crate::rooms::is_valid_room_name;
use crate::text::trimmed;
use crate::util::{nfkc, sanitized};
use vstd::prelude::*;
use vstd::utf8::encode_utf8;

verus! {

/// The options that the session was started with.
#[derive(Debug, Clone)]
pub struct UiOpts {
    /// How many messages are loaded when a room is entered.
    pub history_load: u32,
    /// The longest message, in bytes of UTF-8, that may be sent.
    pub msg_max_len: usize,
    /// The short form of the fingerprint, for display.
    pub fp_short: String,
    /// How many messages may be sent per minute.
    pub rate_per_min: u32,
}

/// A joined room as the sidebar shows it.
#[derive(Debug, Clone)]
pub struct RoomEntry {
    pub id: i64,
    pub name: String,
    pub unread: usize,
}

/// A key press, as far as the session tells keys apart.
#[derive(Debug, Clone, Copy, PartialEq, Eq)]
pub enum Key {
    CtrlC,
    Esc,
    Backspace,
    Enter,
    Tab,
    /// A character typed with no modifier or with shift.
    Char(char),
    Other,
}

/// How many members `/who` asks for.
pub const WHO_LIMIT: i64 = 50;

/// What the session asks of the store.
#[derive(Debug, Clone)]
pub enum Request {
    /// Nothing: the intent is complete and the session is idle.
    Nothing,
    /// Insert a message if the author wrote fewer than `limit` in the last
    /// minute.
    InsertMessage { room_id: i64, user_id: i64, body: String, limit: i64 },
    /// Look a room up by name.
    FindRoom { name: String },
    /// Create a room.
    CreateRoom { name: String, user_id: i64 },
    /// Insert the membership or refresh its time.
    UpsertMembership { room_id: i64, user_id: i64 },
    /// Remove the membership.
    DeleteMembership { room_id: i64, user_id: i64 },
    /// The last `limit` messages of a room, oldest first.
    RecentMessages { room_id: i64, limit: i64 },
    /// One message with its author's handle.
    MessageById { id: i64 },
    /// Change the handle and record the change, in one transaction.
    RenameUser { user_id: i64, new_handle: String },
    /// Soft-delete a room if this user created it and it is live.
    SoftDeleteRoom { name: String, user_id: i64 },
    /// The rooms that the user has joined, latest join first.
    JoinedRooms { user_id: i64 },
    /// The same, with the time of each join.
    JoinedRoomsWithTimes { user_id: i64 },
    /// The members that joined a room last.
    RecentMembers { room_id: i64, limit: i64 },
}

/// A `Request` with each string replaced by its characters.
pub enum RequestView {
    Nothing,
    InsertMessage { room_id: i64, user_id: i64, body: Seq<char>, limit: i64 },
    FindRoom { name: Seq<char> },
    CreateRoom { name: Seq<char>, user_id: i64 },
    UpsertMembership { room_id: i64, user_id: i64 },
    DeleteMembership { room_id: i64, user_id: i64 },
    RecentMessages { room_id: i64, limit: i64 },
    MessageById { id: i64 },
    RenameUser { user_id: i64, new_handle: Seq<char> },
    SoftDeleteRoom { name: Seq<char>, user_id: i64 },
    JoinedRooms { user_id: i64 },
    JoinedRoomsWithTimes { user_id: i64 },
    RecentMembers { room_id: i64, limit: i64 },
}

impl View for Request {
    type V = RequestView;

    open spec fn view(&self) -> RequestView {
        match self {
            Request::Nothing => RequestView::Nothing,
            Request::InsertMessage { room_id, user_id, body, limit } => RequestView::InsertMessage {
                room_id: *room_id,
                user_id: *user_id,
                body: body@,
                limit: *limit,
            },
            Request::FindRoom { name } => RequestView::FindRoom { name: name@ },
            Request::CreateRoom { name, user_id } => RequestView::CreateRoom {
                name: name@,
                user_id: *user_id,
            },
            Request::UpsertMembership { room_id, user_id } => RequestView::UpsertMembership {
                room_id: *room_id,
                user_id: *user_id,
            },
            Request::DeleteMembership { room_id, user_id } => RequestView::DeleteMembership {
                room_id: *room_id,
                user_id: *user_id,
            },
            Request::RecentMessages { room_id, limit } => RequestView::RecentMessages {
                room_id: *room_id,
                limit: *limit,
            },
            Request::MessageById { id } => RequestView::MessageById { id: *id },
            Request::RenameUser { user_id, new_handle } => RequestView::RenameUser {
                user_id: *user_id,
                new_handle: new_handle@,
            },
            Request::SoftDeleteRoom { name, user_id } => RequestView::SoftDeleteRoom {
                name: name@,
                user_id: *user_id,
            },
            Request::JoinedRooms { user_id } => RequestView::JoinedRooms { user_id: *user_id },
            Request::JoinedRoomsWithTimes { user_id } => RequestView::JoinedRoomsWithTimes {
                user_id: *user_id,
            },
            Request::RecentMembers { room_id, limit } => RequestView::RecentMembers {
                room_id: *room_id,
                limit: *limit,
            },
        }
    }
}

/// The store's answer to a request.
#[derive(Debug, Clone)]
pub enum Reply {
    /// The message that was inserted; `None` where the rate gate let no row
    /// be written.
    Written(Option<Message>),
    /// The room of that name, deleted or not, if there is one.
    RoomFound(Option<Room>),
    /// The room that was created.
    RoomCreated(Room),
    /// The write ran into a uniqueness constraint.
    Refused(Conflict),
    /// The membership is in place.
    MembershipSet,
    /// The membership is gone; the flag says whether there was one.
    MembershipDropped(bool),
    /// The recent messages of the room, oldest first.
    Messages(Vec<MessageView>),
    /// The message asked for, if it exists.
    Message(Option<MessageView>),
    /// The user under the new handle.
    Renamed(User),
    /// Whether the room was soft-deleted by this request.
    RoomDeleted(bool),
    Rooms(Vec<RoomSummary>),
    RoomsWithTimes(Vec<JoinedRoom>),
    Members(Vec<WhoSummary>),
    /// The store failed; the text says how.
    Failed(String),
}

/// Why a room is being entered, and so what follows once its history has
/// arrived.
#[derive(Debug, Clone)]
pub enum Entry {
    /// `/join`: the room is added to the sidebar if it is new there.
    Join,
    /// The next-room key: the unread count of `target` is reset.
    Switch { target: i64 },
    /// `/leave` of the current room: the room `left` leaves the sidebar.
    AfterLeave { left: i64, name: String },
}

/// An `Entry` with its string replaced by its characters.
pub enum EntryView {
    Join,
    Switch { target: i64 },
    AfterLeave { left: i64, name: Seq<char> },
}

impl View for Entry {
    type V = EntryView;

    open spec fn view(&self) -> EntryView {
        match self {
            Entry::Join => EntryView::Join,
            Entry::Switch { target } => EntryView::Switch { target: *target },
            Entry::AfterLeave { left, name } => EntryView::AfterLeave { left: *left, name: name@ },
        }
    }
}

/// The reply that the session is waiting for, with what it needs to go on.
#[derive(Debug, Clone)]
pub enum Pending {
    Idle,
    /// A message is being written; `me` tells an action from a plain
    /// message.
    Writing { me: bool },
    Renaming,
    Finding { name: String, entry: Entry },
    Creating { name: String, entry: Entry },
    Joining { room: Room, entry: Entry },
    Loading { room: Room, entry: Entry },
    Dropping { left: i64, name: String },
    Deleting { name: String },
    Refreshing,
    ListingRooms,
    ListingMembers,
    Fetching { id: i64 },
}

/// A `Pending` with each string replaced by its characters.
pub enum PendingView {
    Idle,
    Writing { me: bool },
    Renaming,
    Finding { name: Seq<char>, entry: EntryView },
    Creating { name: Seq<char>, entry: EntryView },
    Joining { room: Room, entry: EntryView },
    Loading { room: Room, entry: EntryView },
    Dropping { left: i64, name: Seq<char> },
    Deleting { name: Seq<char> },
    Refreshing,
    ListingRooms,
    ListingMembers,
    Fetching { id: i64 },
}

impl View for Pending {
    type V = PendingView;

    open spec fn view(&self) -> PendingView {
        match self {
            Pending::Idle => PendingView::Idle,
            Pending::Writing { me } => PendingView::Writing { me: *me },
            Pending::Renaming => PendingView::Renaming,
            Pending::Finding { name, entry } => PendingView::Finding { name: name@, entry: entry@ },
            Pending::Creating { name, entry } => PendingView::Creating {
                name: name@,
                entry: entry@,
            },
            Pending::Joining { room, entry } => PendingView::Joining { room: *room, entry: entry@ },
            Pending::Loading { room, entry } => PendingView::Loading { room: *room, entry: entry@ },
            Pending::Dropping { left, name } => PendingView::Dropping { left: *left, name: name@ },
            Pending::Deleting { name } => PendingView::Deleting { name: name@ },
            Pending::Refreshing => PendingView::Refreshing,
            Pending::ListingRooms => PendingView::ListingRooms,
            Pending::ListingMembers => PendingView::ListingMembers,
            Pending::Fetching { id } => PendingView::Fetching { id: *id },
        }
    }
}

/// What a session holds.
pub struct SessionView {
    pub user: User,
    pub room: Room,
    pub opts: UiOpts,
    pub input: Seq<char>,
    pub status: Seq<char>,
    pub messages: Seq<MessageView>,
    pub rooms: Seq<RoomEntry>,
    pub running: bool,
    pub bucket: BucketView,
    pub pending: PendingView,
}

/// Whether a message with this identifier is among `messages`.
pub open spec fn has_message(messages: Seq<MessageView>, id: i64) -> bool {
    exists|i: int| 0 <= i < messages.len() && #[trigger] messages[i].id == id
}

/// `messages` with `m` at the end, unless a message with its identifier is
/// there already.
pub open spec fn appended(messages: Seq<MessageView>, m: MessageView) -> Seq<MessageView> {
    if has_message(messages, m.id) {
        messages
    } else {
        messages.push(m)
    }
}

/// The messages of `list` in order, each identifier once.
pub open spec fn loaded(list: Seq<MessageView>) -> Seq<MessageView>
    decreases list.len(),
{
    if list.len() == 0 {
        Seq::empty()
    } else {
        appended(loaded(list.drop_last()), list.last())
    }
}

/// No identifier occurs twice among `messages`.
pub open spec fn distinct_messages(messages: Seq<MessageView>) -> bool {
    forall|i: int, j: int|
        0 <= i < j < messages.len() ==> (#[trigger] messages[i]).id != (#[trigger] messages[j]).id
}

/// The position of the first room with this identifier, or the number of
/// rooms if there is none.
pub open spec fn index_of_id(rooms: Seq<RoomEntry>, id: i64) -> int
    decreases rooms.len(),
{
    if rooms.len() == 0 || rooms[0].id == id {
        0
    } else {
        1 + index_of_id(rooms.drop_first(), id)
    }
}

/// The position of the first room with this name, or the number of rooms
/// if there is none.
pub open spec fn index_of_name(rooms: Seq<RoomEntry>, name: Seq<char>) -> int
    decreases rooms.len(),
{
    if rooms.len() == 0 || rooms[0].name@ == name {
        0
    } else {
        1 + index_of_name(rooms.drop_first(), name)
    }
}

/// Whether a room with this identifier is among `rooms`.
pub open spec fn has_room(rooms: Seq<RoomEntry>, id: i64) -> bool {
    exists|i: int| 0 <= i < rooms.len() && #[trigger] rooms[i].id == id
}

/// No identifier occurs twice among `rooms`.
pub open spec fn distinct_rooms(rooms: Seq<RoomEntry>) -> bool {
    forall|i: int, j: int|
        0 <= i < j < rooms.len() ==> (#[trigger] rooms[i]).id != (#[trigger] rooms[j]).id
}

/// `rooms` with a room of this identifier and name at the end, unless the
/// identifier is there already.
pub open spec fn with_room(rooms: Seq<RoomEntry>, id: i64, name: String) -> Seq<RoomEntry> {
    if has_room(rooms, id) {
        rooms
    } else {
        rooms.push(RoomEntry { id, name, unread: 0 })
    }
}

/// The sidebar for a list of joined rooms: in order, each identifier once,
/// nothing unread.
pub open spec fn rooms_from(list: Seq<RoomSummary>) -> Seq<RoomEntry>
    decreases list.len(),
{
    if list.len() == 0 {
        Seq::empty()
    } else {
        with_room(rooms_from(list.drop_last()), list.last().id, list.last().name)
    }
}

/// `rooms` with the unread count of the room `id` set to `unread`.
pub open spec fn with_unread(rooms: Seq<RoomEntry>, id: i64, unread: usize) -> Seq<RoomEntry> {
    let i = index_of_id(rooms, id);
    if i < rooms.len() {
        rooms.update(i, RoomEntry { unread, ..rooms[i] })
    } else {
        rooms
    }
}

/// One more unread message, unless the count is at its limit.
pub open spec fn bumped_unread(unread: usize) -> usize {
    if unread < usize::MAX {
        (unread + 1) as usize
    } else {
        unread
    }
}

/// `rooms` with one more unread message in the room `id`, if it is there.
pub open spec fn with_unread_bumped(rooms: Seq<RoomEntry>, id: i64) -> Seq<RoomEntry> {
    let i = index_of_id(rooms, id);
    if i < rooms.len() {
        with_unread(rooms, id, bumped_unread(rooms[i].unread))
    } else {
        rooms
    }
}

/// `rooms` without the room `id`.
pub open spec fn without_room(rooms: Seq<RoomEntry>, id: i64) -> Seq<RoomEntry> {
    let i = index_of_id(rooms, id);
    if i < rooms.len() {
        rooms.remove(i)
    } else {
        rooms
    }
}

/// The texts of `items` with `sep` between them.
pub open spec fn joined(items: Seq<Seq<char>>, sep: Seq<char>) -> Seq<char>
    decreases items.len(),
{
    if items.len() == 0 {
        Seq::empty()
    } else if items.len() == 1 {
        items[0]
    } else {
        joined(items.drop_last(), sep) + sep + items.last()
    }
}

/// One room of the `/rooms` listing: its name and the time of the last
/// join, with a mark in front of the current room.
pub open spec fn room_item(r: JoinedRoom, current: i64) -> Seq<char> {
    (if r.id == current {
        "> "@
    } else {
        Seq::empty()
    }) + r.name@ + " ["@ + hh_mm(r.last_joined_at) + "]"@
}

/// The status that answers `/rooms`.
pub open spec fn rooms_status(list: Seq<JoinedRoom>, current: i64) -> Seq<char> {
    if list.len() == 0 {
        "rooms: (none)"@
    } else {
        "rooms: "@ + joined(Seq::new(list.len(), |i: int| room_item(list[i], current)), ", "@)
    }
}

/// The status that answers `/who`.
pub open spec fn who_status(list: Seq<WhoSummary>) -> Seq<char> {
    "who: "@ + joined(Seq::new(list.len(), |i: int| list[i].handle@), ", "@)
}

/// A message of the session's own user as it is shown.
pub open spec fn own_view(m: Message, handle: String) -> MessageView {
    MessageView {
        id: m.id,
        room_id: m.room_id,
        user_id: m.user_id,
        user_handle: handle,
        body: m.body,
        created_at: m.created_at,
    }
}

/// The body of an action: a star, the handle and the normalised text.
pub open spec fn action_body(handle: Seq<char>, text: Seq<char>) -> Seq<char> {
    "* "@ + handle + " "@ + sanitized(nfkc(text))
}

/// The session with this status, idle again.
pub open spec fn settled(s: SessionView, status: Seq<char>) -> SessionView {
    SessionView { status, pending: PendingView::Idle, ..s }
}

/// The session after the store failed: the failure is the status, the
/// intent is dropped, everything else stays.
pub open spec fn failed(s: SessionView, error: Seq<char>) -> SessionView {
    settled(s, "store error: "@ + error)
}

/// The session after a reply that does not answer its request.
pub open spec fn confused(s: SessionView) -> SessionView {
    settled(s, "store error: unexpected reply"@)
}

/// The session in `room`, with the history that the store returned, and
/// with the sidebar and the status that the reason for entering asks for.
pub open spec fn entered(
    s: SessionView,
    room: Room,
    history: Seq<MessageView>,
    entry: EntryView,
) -> SessionView {
    let base = SessionView { room, messages: loaded(history), pending: PendingView::Idle, ..s };
    match entry {
        EntryView::Join => SessionView {
            rooms: with_room(with_unread(s.rooms, room.id, 0), room.id, room.name),
            status: "joined"@,
            ..base
        },
        EntryView::Switch { target } => SessionView {
            rooms: with_unread(s.rooms, target, 0),
            status: "joined "@ + room.name@,
            ..base
        },
        EntryView::AfterLeave { left, name } => SessionView {
            rooms: without_room(s.rooms, left),
            status: "left '"@ + name + "'"@,
            ..base
        },
    }
}

/// The start of entering the room called `name`: it is looked up.
pub open spec fn seeking(s: SessionView, name: Seq<char>, entry: EntryView) -> (
    SessionView,
    RequestView,
) {
    (
        SessionView { pending: PendingView::Finding { name, entry }, ..s },
        RequestView::FindRoom { name },
    )
}

/// The membership in `room` is asked for.
pub open spec fn joining(s: SessionView, room: Room, entry: EntryView) -> (
    SessionView,
    RequestView,
) {
    (
        SessionView { pending: PendingView::Joining { room, entry }, ..s },
        RequestView::UpsertMembership { room_id: room.id, user_id: s.user.id },
    )
}

/// The session after the next-room key: the room after the current one in
/// the sidebar, cyclically, is looked up. Nothing happens if the current
/// room is not in the sidebar.
pub open spec fn after_switch(s: SessionView) -> (SessionView, RequestView) {
    let i = index_of_id(s.rooms, s.room.id);
    if i < s.rooms.len() {
        let next = s.rooms[(i + 1) % (s.rooms.len() as int)];
        seeking(s, next.name@, EntryView::Switch { target: next.id })
    } else {
        (s, RequestView::Nothing)
    }
}

/// The session after an attempt to send `text`, the trimmed input.
pub open spec fn after_send(s: SessionView, text: Seq<char>, now: u64) -> (
    SessionView,
    RequestView,
) {
    if encode_utf8(text).len() > s.opts.msg_max_len {
        (SessionView { status: "message too long"@, ..s }, RequestView::Nothing)
    } else if !admits(s.bucket, 1, now as nat) {
        (
            SessionView {
                status: "rate limited (client)"@,
                input: Seq::empty(),
                bucket: after_consume(s.bucket, 1, now as nat),
                ..s
            },
            RequestView::Nothing,
        )
    } else {
        (
            SessionView {
                bucket: after_consume(s.bucket, 1, now as nat),
                pending: PendingView::Writing { me: false },
                ..s
            },
            RequestView::InsertMessage {
                room_id: s.room.id,
                user_id: s.user.id,
                body: sanitized(nfkc(text)),
                limit: s.opts.rate_per_min as i64,
            },
        )
    }
}

/// The session after `/leave`, with or without a room's name.
pub open spec fn after_leave(s: SessionView, arg: Option<Seq<char>>) -> (SessionView, RequestView) {
    let target = trimmed(
        match arg {
            Some(name) => name,
            None => s.room.name@,
        },
    );
    let i = index_of_name(s.rooms, target);
    if target.len() == 0 {
        (SessionView { status: "usage: /leave [room]"@, ..s }, RequestView::Nothing)
    } else if i >= s.rooms.len() {
        (SessionView { status: "room not in sidebar"@, ..s }, RequestView::Nothing)
    } else if s.rooms[i].id == s.room.id && s.rooms.len() <= 1 {
        (SessionView { status: "cannot leave the last room"@, ..s }, RequestView::Nothing)
    } else {
        (
            SessionView { pending: PendingView::Dropping { left: s.rooms[i].id, name: target }, ..s },
            RequestView::DeleteMembership { room_id: s.rooms[i].id, user_id: s.user.id },
        )
    }
}

/// The session after a command.
pub open spec fn after_command(s: SessionView, cmd: CommandView) -> (SessionView, RequestView) {
    if !(s.pending is Idle) {
        (s, RequestView::Nothing)
    } else {
        match cmd {
            CommandView::Help => (
                SessionView { status: "/help /quit /nick /join /rooms /who /me"@, ..s },
                RequestView::Nothing,
            ),
            CommandView::Quit => (SessionView { running: false, ..s }, RequestView::Nothing),
            CommandView::Me(action) => if trimmed(action).len() == 0 {
                (SessionView { status: "usage: /me <action>"@, ..s }, RequestView::Nothing)
            } else {
                (
                    SessionView { pending: PendingView::Writing { me: true }, ..s },
                    RequestView::InsertMessage {
                        room_id: s.room.id,
                        user_id: s.user.id,
                        body: action_body(s.user.handle@, trimmed(action)),
                        limit: s.opts.rate_per_min as i64,
                    },
                )
            },
            CommandView::Nick(new) => if !is_valid_nick(trimmed(new)) {
                (SessionView { status: "invalid nick [a-z0-9_-]{2,16}"@, ..s }, RequestView::Nothing)
            } else {
                (
                    SessionView { pending: PendingView::Renaming, ..s },
                    RequestView::RenameUser { user_id: s.user.id, new_handle: trimmed(new) },
                )
            },
            CommandView::Join(name) => if !is_valid_room_name(trimmed(name)) {
                (SessionView { status: "invalid room [a-z0-9_-]{1,24}"@, ..s }, RequestView::Nothing)
            } else {
                seeking(s, trimmed(name), EntryView::Join)
            },
            CommandView::RoomDel(name) => if !is_valid_room_name(trimmed(name)) {
                (
                    SessionView { status: "usage: /roomdel <name> (a-z0-9_-){1,24}"@, ..s },
                    RequestView::Nothing,
                )
            } else {
                (
                    SessionView { pending: PendingView::Deleting { name: trimmed(name) }, ..s },
                    RequestView::SoftDeleteRoom { name: trimmed(name), user_id: s.user.id },
                )
            },
            CommandView::Leave(arg) => after_leave(s, arg),
            CommandView::Rooms => (
                SessionView { pending: PendingView::ListingRooms, ..s },
                RequestView::JoinedRoomsWithTimes { user_id: s.user.id },
            ),
            CommandView::Who(_) => (
                SessionView { pending: PendingView::ListingMembers, ..s },
                RequestView::RecentMembers { room_id: s.room.id, limit: WHO_LIMIT },
            ),
        }
    }
}

/// The session after the enter key: an empty line is refused, a line that
/// starts with a slash is a command, anything else is sent.
pub open spec fn after_enter(s: SessionView, now: u64) -> (SessionView, RequestView) {
    if trimmed(s.input).len() == 0 {
        (SessionView { status: "empty"@, input: Seq::empty(), ..s }, RequestView::Nothing)
    } else {
        match parsed(s.input) {
            Some(cmd) => after_command(SessionView { input: Seq::empty(), ..s }, cmd),
            None => after_send(s, trimmed(s.input), now),
        }
    }
}

/// The session after a key. Keys are ignored while a reply is awaited.
pub open spec fn after_key(s: SessionView, key: Key, now: u64) -> (SessionView, RequestView) {
    if !(s.pending is Idle) {
        (s, RequestView::Nothing)
    } else {
        match key {
            Key::CtrlC => (SessionView { running: false, ..s }, RequestView::Nothing),
            Key::Esc => (SessionView { input: Seq::empty(), ..s }, RequestView::Nothing),
            Key::Backspace => (
                SessionView {
                    input: if s.input.len() > 0 {
                        s.input.drop_last()
                    } else {
                        s.input
                    },
                    ..s
                },
                RequestView::Nothing,
            ),
            Key::Char(c) => (SessionView { input: s.input.push(c), ..s }, RequestView::Nothing),
            Key::Tab => after_switch(s),
            Key::Enter => after_enter(s, now),
            Key::Other => (s, RequestView::Nothing),
        }
    }
}

/// The session after an event from the notifier. A message for the current
/// room is fetched unless it is shown already; one for another joined room
/// counts as unread; any other is ignored, and so is every event while a
/// reply is awaited.
pub open spec fn after_event(s: SessionView, ev: Event) -> (SessionView, RequestView) {
    if !(s.pending is Idle) {
        (s, RequestView::Nothing)
    } else {
        match ev {
            Event::Message { id, room_id } => if room_id == s.room.id {
                if has_message(s.messages, id) {
                    (s, RequestView::Nothing)
                } else {
                    (
                        SessionView { pending: PendingView::Fetching { id }, ..s },
                        RequestView::MessageById { id },
                    )
                }
            } else {
                (SessionView { rooms: with_unread_bumped(s.rooms, room_id), ..s }, RequestView::Nothing)
            },
        }
    }
}

/// The session after the store answered a write of a message.
pub open spec fn after_written(s: SessionView, me: bool, reply: Reply) -> SessionView {
    match reply {
        Reply::Written(Some(m)) => SessionView {
            messages: appended(s.messages, own_view(m, s.user.handle)),
            input: if me {
                s.input
            } else {
                Seq::empty()
            },
            ..settled(
                s,
                if me {
                    "me"@
                } else {
                    "sent"@
                },
            )
        },
        Reply::Written(None) => settled(s, "rate limited (server)"@),
        Reply::Failed(e) => failed(s, e@),
        _ => confused(s),
    }
}

/// The session after the store answered a rename.
pub open spec fn after_renamed(s: SessionView, reply: Reply) -> SessionView {
    match reply {
        Reply::Renamed(u) => SessionView { user: u, ..settled(s, "nick changed"@) },
        Reply::Refused(_) => settled(s, "nick taken"@),
        Reply::Failed(e) => settled(s, "nick error: "@ + e@),
        _ => confused(s),
    }
}

/// The session after the store answered the lookup of a room: a deleted
/// room is refused, a live one is joined, a missing one is created.
pub open spec fn after_found(s: SessionView, name: Seq<char>, entry: EntryView, reply: Reply) -> (
    SessionView,
    RequestView,
) {
    match reply {
        Reply::RoomFound(Some(r)) => if r.is_deleted {
            (settled(s, "room is deleted"@), RequestView::Nothing)
        } else {
            joining(s, r, entry)
        },
        Reply::RoomFound(None) => (
            SessionView { pending: PendingView::Creating { name, entry }, ..s },
            RequestView::CreateRoom { name, user_id: s.user.id },
        ),
        Reply::Failed(e) => (failed(s, e@), RequestView::Nothing),
        _ => (confused(s), RequestView::Nothing),
    }
}

/// The session after the store answered the creation of a room. If the
/// name was taken in the meantime, the room is looked up again.
pub open spec fn after_created(s: SessionView, name: Seq<char>, entry: EntryView, reply: Reply) -> (
    SessionView,
    RequestView,
) {
    match reply {
        Reply::RoomCreated(r) => joining(s, r, entry),
        Reply::Refused(_) => seeking(s, name, entry),
        Reply::Failed(e) => (failed(s, e@), RequestView::Nothing),
        _ => (confused(s), RequestView::Nothing),
    }
}

/// The session after the store answered the upsert of a membership.
pub open spec fn after_joined(s: SessionView, room: Room, entry: EntryView, reply: Reply) -> (
    SessionView,
    RequestView,
) {
    match reply {
        Reply::MembershipSet => (
            SessionView { pending: PendingView::Loading { room, entry }, ..s },
            RequestView::RecentMessages { room_id: room.id, limit: s.opts.history_load as i64 },
        ),
        Reply::Failed(e) => (failed(s, e@), RequestView::Nothing),
        _ => (confused(s), RequestView::Nothing),
    }
}

/// The session after the store answered with a room's history.
pub open spec fn after_history(s: SessionView, room: Room, entry: EntryView, reply: Reply) -> SessionView {
    match reply {
        Reply::Messages(list) => entered(s, room, list@, entry),
        Reply::Failed(e) => failed(s, e@),
        _ => confused(s),
    }
}

/// The session after the store answered the removal of a membership. A
/// room that is not the current one leaves the sidebar at once. For the
/// current room, the next room of the sidebar is looked up first.
pub open spec fn after_dropped(s: SessionView, left: i64, name: Seq<char>, reply: Reply) -> (
    SessionView,
    RequestView,
) {
    match reply {
        Reply::MembershipDropped(_) => {
            let i = index_of_id(s.rooms, left);
            let next = s.rooms[(i + 1) % (s.rooms.len() as int)];
            if left == s.room.id && i < s.rooms.len() && next.id != left {
                seeking(s, next.name@, EntryView::AfterLeave { left, name })
            } else {
                (
                    SessionView {
                        rooms: without_room(s.rooms, left),
                        ..settled(s, "left '"@ + name + "'"@)
                    },
                    RequestView::Nothing,
                )
            }
        },
        Reply::Failed(e) => (failed(s, e@), RequestView::Nothing),
        _ => (confused(s), RequestView::Nothing),
    }
}

/// The session after the store answered the soft delete of a room.
pub open spec fn after_deleted(s: SessionView, name: Seq<char>, reply: Reply) -> (
    SessionView,
    RequestView,
) {
    match reply {
        Reply::RoomDeleted(true) => (
            SessionView {
                status: "room '"@ + name + "' deleted"@,
                pending: PendingView::Refreshing,
                ..s
            },
            RequestView::JoinedRooms { user_id: s.user.id },
        ),
        Reply::RoomDeleted(false) => (
            settled(s, "not room creator or already deleted"@),
            RequestView::Nothing,
        ),
        Reply::Failed(e) => (failed(s, e@), RequestView::Nothing),
        _ => (confused(s), RequestView::Nothing),
    }
}

/// The session after the store answered with the joined rooms.
pub open spec fn after_refreshed(s: SessionView, reply: Reply) -> SessionView {
    match reply {
        Reply::Rooms(list) => SessionView {
            rooms: rooms_from(list@),
            pending: PendingView::Idle,
            ..s
        },
        Reply::Failed(e) => failed(s, e@),
        _ => confused(s),
    }
}

/// The session after the store answered `/rooms`.
pub open spec fn after_rooms_listed(s: SessionView, reply: Reply) -> SessionView {
    match reply {
        Reply::RoomsWithTimes(list) => settled(s, rooms_status(list@, s.room.id)),
        Reply::Failed(e) => failed(s, e@),
        _ => confused(s),
    }
}

/// The session after the store answered `/who`.
pub open spec fn after_members_listed(s: SessionView, reply: Reply) -> SessionView {
    match reply {
        Reply::Members(list) => settled(s, who_status(list@)),
        Reply::Failed(e) => failed(s, e@),
        _ => confused(s),
    }
}

/// The session after the store answered with a message that an event
/// announced.
pub open spec fn after_fetched(s: SessionView, reply: Reply) -> SessionView {
    match reply {
        Reply::Message(Some(v)) => SessionView {
            messages: appended(s.messages, v),
            pending: PendingView::Idle,
            ..s
        },
        Reply::Message(None) => SessionView { pending: PendingView::Idle, ..s },
        Reply::Failed(e) => failed(s, e@),
        _ => confused(s),
    }
}

/// The session after the store's reply, and the next request. A reply that
/// comes while nothing is awaited changes nothing.
pub open spec fn after_reply(s: SessionView, reply: Reply) -> (SessionView, RequestView) {
    match s.pending {
        PendingView::Idle => (s, RequestView::Nothing),
        PendingView::Writing { me } => (after_written(s, me, reply), RequestView::Nothing),
        PendingView::Renaming => (after_renamed(s, reply), RequestView::Nothing),
        PendingView::Finding { name, entry } => after_found(s, name, entry, reply),
        PendingView::Creating { name, entry } => after_created(s, name, entry, reply),
        PendingView::Joining { room, entry } => after_joined(s, room, entry, reply),
        PendingView::Loading { room, entry } => (
            after_history(s, room, entry, reply),
            RequestView::Nothing,
        ),
        PendingView::Dropping { left, name } => after_dropped(s, left, name, reply),
        PendingView::Deleting { name } => after_deleted(s, name, reply),
        PendingView::Refreshing => (after_refreshed(s, reply), RequestView::Nothing),
        PendingView::ListingRooms => (after_rooms_listed(s, reply), RequestView::Nothing),
        PendingView::ListingMembers => (after_members_listed(s, reply), RequestView::Nothing),
        PendingView::Fetching { id } => (after_fetched(s, reply), RequestView::Nothing),
    }
}

/// A new session: in `room`, with its history, with the joined rooms in
/// the sidebar and the current room among them, and with a full bucket.
pub open spec fn started(
    user: User,
    room: Room,
    opts: UiOpts,
    history: Seq<MessageView>,
    joined_rooms: Seq<RoomSummary>,
    now: u64,
) -> SessionView {
    SessionView {
        user,
        room,
        opts,
        input: Seq::empty(),
        status: "/help for commands"@,
        messages: loaded(history),
        rooms: with_room(rooms_from(joined_rooms), room.id, room.name),
        running: true,
        bucket: BucketView {
            rate: opts.rate_per_min as nat,
            level: full_level(opts.rate_per_min as nat),
            last: now as nat,
        },
        pending: PendingView::Idle,
    }
}

/// What holds of every session: no message is shown twice, no room is in
/// the sidebar twice, and the client's rate governor runs at the rate that
/// the store's gate is given.
pub open spec fn consistent(s: SessionView) -> bool {
    &&& distinct_messages(s.messages)
    &&& distinct_rooms(s.rooms)
    &&& s.bucket.rate == s.opts.rate_per_min
}

/// The first room with a given identifier is the first position that no
/// room before it shares.
pub proof fn lemma_index_of_id(rooms: Seq<RoomEntry>, id: i64, k: int)
    requires
        0 <= k <= rooms.len(),
        forall|i: int| 0 <= i < k ==> (#[trigger] rooms[i]).id != id,
        k == rooms.len() || rooms[k].id == id,
    ensures
        index_of_id(rooms, id) == k,
        has_room(rooms, id) == (k < rooms.len()),
    decreases k,
{
    if k > 0 {
        let rest = rooms.drop_first();
        assert forall|i: int| 0 <= i < k - 1 implies (#[trigger] rest[i]).id != id by {
            assert(rest[i] == rooms[i + 1]);
        }
        lemma_index_of_id(rest, id, k - 1);
    }
    if k < rooms.len() {
        assert(rooms[k].id == id);
    }
}

/// `index_of_id` is a position in the list or its length, no room before
/// it has the identifier, and the room at it has.
pub proof fn lemma_index_of_id_found(rooms: Seq<RoomEntry>, id: i64)
    ensures
        0 <= index_of_id(rooms, id) <= rooms.len(),
        forall|i: int| 0 <= i < index_of_id(rooms, id) ==> (#[trigger] rooms[i]).id != id,
        index_of_id(rooms, id) < rooms.len() ==> rooms[index_of_id(rooms, id)].id == id,
        has_room(rooms, id) == (index_of_id(rooms, id) < rooms.len()),
    decreases rooms.len(),
{
    if rooms.len() > 0 && rooms[0].id != id {
        let rest = rooms.drop_first();
        lemma_index_of_id_found(rest, id);
        let k = index_of_id(rooms, id);
        assert forall|i: int| 0 <= i < k implies (#[trigger] rooms[i]).id != id by {
            if i > 0 {
                assert(rooms[i] == rest[i - 1]);
            }
        }
        if k < rooms.len() {
            assert(rooms[k] == rest[k - 1]);
        }
    }
    lemma_index_of_id(rooms, id, index_of_id(rooms, id));
}

/// The first room with a given name is the first position that no room
/// before it shares.
pub proof fn lemma_index_of_name(rooms: Seq<RoomEntry>, name: Seq<char>, k: int)
    requires
        0 <= k <= rooms.len(),
        forall|i: int| 0 <= i < k ==> (#[trigger] rooms[i]).name@ != name,
        k == rooms.len() || rooms[k].name@ == name,
    ensures
        index_of_name(rooms, name) == k,
    decreases k,
{
    if k > 0 {
        let rest = rooms.drop_first();
        assert forall|i: int| 0 <= i < k - 1 implies (#[trigger] rest[i]).name@ != name by {
            assert(rest[i] == rooms[i + 1]);
        }
        lemma_index_of_name(rest, name, k - 1);
    }
}

/// Appending keeps every identifier single, and shows the new one.
pub proof fn lemma_appended(messages: Seq<MessageView>, m: MessageView)
    requires
        distinct_messages(messages),
    ensures
        distinct_messages(appended(messages, m)),
        has_message(appended(messages, m), m.id),
        forall|id: i64|
            has_message(appended(messages, m), id) == (id == m.id || has_message(messages, id)),
{
    let after = appended(messages, m);
    if !has_message(messages, m.id) {
        assert(after[messages.len() as int].id == m.id);
        assert forall|i: int, j: int| 0 <= i < j < after.len() implies (#[trigger] after[i]).id != (
        #[trigger] after[j]).id by {
            if j == messages.len() {
                assert(messages[i].id != m.id);
            }
        }
    }
    assert forall|id: i64|
        has_message(after, id) == (id == m.id || has_message(messages, id)) by {
        if has_message(after, id) {
            let i = choose|i: int| 0 <= i < after.len() && #[trigger] after[i].id == id;
            if i < messages.len() {
                assert(messages[i].id == id);
            }
        }
        if has_message(messages, id) {
            let i = choose|i: int| 0 <= i < messages.len() && #[trigger] messages[i].id == id;
            assert(after[i].id == id);
        }
    }
}

/// A loaded history shows no identifier twice.
pub proof fn lemma_loaded_distinct(list: Seq<MessageView>)
    ensures
        distinct_messages(loaded(list)),
    decreases list.len(),
{
    if list.len() > 0 {
        lemma_loaded_distinct(list.drop_last());
        lemma_appended(loaded(list.drop_last()), list.last());
    }
}

/// Adding a room keeps every identifier single, and the room is there.
pub proof fn lemma_with_room(rooms: Seq<RoomEntry>, id: i64, name: String)
    requires
        distinct_rooms(rooms),
    ensures
        distinct_rooms(with_room(rooms, id, name)),
        has_room(with_room(rooms, id, name), id),
{
    let after = with_room(rooms, id, name);
    if !has_room(rooms, id) {
        assert(after[rooms.len() as int].id == id);
        assert forall|i: int, j: int| 0 <= i < j < after.len() implies (#[trigger] after[i]).id != (
        #[trigger] after[j]).id by {
            if j == rooms.len() {
                assert(rooms[i].id != id);
            }
        }
    }
}

/// A sidebar made from a list of rooms shows no identifier twice.
pub proof fn lemma_rooms_from_distinct(list: Seq<RoomSummary>)
    ensures
        distinct_rooms(rooms_from(list)),
    decreases list.len(),
{
    if list.len() > 0 {
        lemma_rooms_from_distinct(list.drop_last());
        lemma_with_room(rooms_from(list.drop_last()), list.last().id, list.last().name);
    }
}

/// Setting an unread count changes no identifier and no name.
pub proof fn lemma_with_unread(rooms: Seq<RoomEntry>, id: i64, unread: usize)
    ensures
        with_unread(rooms, id, unread).len() == rooms.len(),
        forall|i: int|
            0 <= i < rooms.len() ==> (#[trigger] with_unread(rooms, id, unread)[i]).id
                == rooms[i].id && with_unread(rooms, id, unread)[i].name == rooms[i].name,
        distinct_rooms(rooms) ==> distinct_rooms(with_unread(rooms, id, unread)),
        forall|other: i64| has_room(with_unread(rooms, id, unread), other) == has_room(rooms, other),
{
    lemma_index_of_id_found(rooms, id);
    let after = with_unread(rooms, id, unread);
    assert forall|other: i64| has_room(after, other) == has_room(rooms, other) by {
        if has_room(after, other) {
            let i = choose|i: int| 0 <= i < after.len() && #[trigger] after[i].id == other;
            assert(rooms[i].id == other);
        }
        if has_room(rooms, other) {
            let i = choose|i: int| 0 <= i < rooms.len() && #[trigger] rooms[i].id == other;
            assert(after[i].id == other);
        }
    }
    if distinct_rooms(rooms) {
        assert forall|i: int, j: int| 0 <= i < j < after.len() implies (#[trigger] after[i]).id != (
        #[trigger] after[j]).id by {
            assert(rooms[i].id != rooms[j].id);
        }
    }
}

/// Removing a room keeps every identifier single, and where they were
/// single the room is gone.
pub proof fn lemma_without_room(rooms: Seq<RoomEntry>, id: i64)
    requires
        distinct_rooms(rooms),
    ensures
        distinct_rooms(without_room(rooms, id)),
        !has_room(without_room(rooms, id), id),
        forall|other: i64|
            other != id ==> has_room(without_room(rooms, id), other) == has_room(rooms, other),
{
    lemma_index_of_id_found(rooms, id);
    let k = index_of_id(rooms, id);
    let after = without_room(rooms, id);
    if k < rooms.len() {
        assert forall|i: int| 0 <= i < after.len() implies #[trigger] after[i] == rooms[if i < k {
            i
        } else {
            i + 1
        }] by {}
        assert forall|i: int, j: int| 0 <= i < j < after.len() implies (#[trigger] after[i]).id != (
        #[trigger] after[j]).id by {
            let a = if i < k {
                i
            } else {
                i + 1
            };
            let b = if j < k {
                j
            } else {
                j + 1
            };
            assert(rooms[a].id != rooms[b].id);
        }
        if has_room(after, id) {
            let i = choose|i: int| 0 <= i < after.len() && #[trigger] after[i].id == id;
            let a = if i < k {
                i
            } else {
                i + 1
            };
            assert(rooms[a].id == id);
            if a < k {
                assert(rooms[a].id != rooms[k].id);
            } else {
                assert(rooms[k].id != rooms[a].id);
            }
        }
        assert forall|other: i64| other != id implies has_room(after, other) == has_room(
            rooms,
            other,
        ) by {
            if has_room(after, other) {
                let i = choose|i: int| 0 <= i < after.len() && #[trigger] after[i].id == other;
                let a = if i < k {
                    i
                } else {
                    i + 1
                };
                assert(rooms[a].id == other);
            }
            if has_room(rooms, other) {
                let a = choose|a: int| 0 <= a < rooms.len() && #[trigger] rooms[a].id == other;
                let i = if a < k {
                    a
                } else {
                    a - 1
                };
                assert(after[i].id == other);
            }
        }
    }
}

/// Entering a room keeps the session consistent, whatever the reason.
pub proof fn lemma_entered_consistent(
    s: SessionView,
    room: Room,
    history: Seq<MessageView>,
    entry: EntryView,
)
    requires
        consistent(s),
    ensures
        consistent(entered(s, room, history, entry)),
{
    lemma_loaded_distinct(history);
    match entry {
        EntryView::Join => {
            lemma_with_unread(s.rooms, room.id, 0);
            lemma_with_room(with_unread(s.rooms, room.id, 0), room.id, room.name);
        },
        EntryView::Switch { target } => {
            lemma_with_unread(s.rooms, target, 0);
        },
        EntryView::AfterLeave { left, name } => {
            lemma_without_room(s.rooms, left);
        },
    }
}

/// Every step keeps the session consistent: no key, command, event or
/// reply makes a message or a room appear twice.
pub proof fn lemma_steps_keep_consistent(
    s: SessionView,
    key: Key,
    now: u64,
    cmd: CommandView,
    ev: Event,
    reply: Reply,
)
    requires
        consistent(s),
    ensures
        consistent(after_key(s, key, now).0),
        consistent(after_command(s, cmd).0),
        consistent(after_event(s, ev).0),
        consistent(after_reply(s, reply).0),
{
    match ev {
        Event::Message { id, room_id } => {
            lemma_index_of_id_found(s.rooms, room_id);
            let i = index_of_id(s.rooms, room_id);
            if i < s.rooms.len() {
                lemma_with_unread(s.rooms, room_id, bumped_unread(s.rooms[i].unread));
            }
        },
    }
    match s.pending {
        PendingView::Writing { me } => {
            match reply {
                Reply::Written(Some(m)) => {
                    lemma_appended(s.messages, own_view(m, s.user.handle));
                },
                _ => {},
            }
        },
        PendingView::Loading { room, entry } => {
            match reply {
                Reply::Messages(list) => {
                    lemma_entered_consistent(s, room, list@, entry);
                },
                _ => {},
            }
        },
        PendingView::Dropping { left, name } => {
            lemma_without_room(s.rooms, left);
        },
        PendingView::Refreshing => {
            match reply {
                Reply::Rooms(list) => {
                    lemma_rooms_from_distinct(list@);
                },
                _ => {},
            }
        },
        PendingView::Fetching { id } => {
            match reply {
                Reply::Message(Some(v)) => {
                    lemma_appended(s.messages, v);
                },
                _ => {},
            }
        },
        _ => {},
    }
}

/// Joining is idempotent in the sidebar: a room that is joined a second
/// time is there once, as it was after the first time, and the join ends
/// in the status `joined` and in no error.
pub proof fn lemma_join_is_idempotent(
    s: SessionView,
    room: Room,
    first: Seq<MessageView>,
    second: Seq<MessageView>,
)
    requires
        consistent(s),
    ensures
        ({
            let once = entered(s, room, first, EntryView::Join);
            let twice = entered(once, room, second, EntryView::Join);
            &&& twice.rooms == once.rooms
            &&& has_room(twice.rooms, room.id)
            &&& forall|i: int, j: int|
                0 <= i < twice.rooms.len() && 0 <= j < twice.rooms.len() && twice.rooms[i].id
                    == room.id && twice.rooms[j].id == room.id ==> i == j
            &&& twice.room == room
            &&& twice.status == "joined"@
            &&& twice.pending is Idle
        }),
{
    let once = entered(s, room, first, EntryView::Join);
    let twice = entered(once, room, second, EntryView::Join);
    lemma_entered_consistent(s, room, first, EntryView::Join);
    lemma_entered_consistent(once, room, second, EntryView::Join);
    lemma_with_unread(s.rooms, room.id, 0);
    let reset = with_unread(s.rooms, room.id, 0);
    lemma_with_room(reset, room.id, room.name);
    lemma_index_of_id_found(s.rooms, room.id);
    lemma_index_of_id_found(once.rooms, room.id);
    let k = index_of_id(once.rooms, room.id);
    assert(once.rooms[k].unread == 0) by {
        if has_room(s.rooms, room.id) {
            let k0 = index_of_id(s.rooms, room.id);
            assert(reset[k0].id == room.id);
            assert(once.rooms == reset);
            if k != k0 {
                if k < k0 {
                    assert(reset[k].id != reset[k0].id);
                } else {
                    assert(reset[k0].id != reset[k].id);
                }
            }
        } else {
            assert(!has_room(reset, room.id));
            if k < reset.len() {
                assert(reset[k].id == room.id);
            }
        }
    }
    lemma_with_unread(once.rooms, room.id, 0);
    assert(with_unread(once.rooms, room.id, 0) =~= once.rooms);
    assert forall|i: int, j: int|
        0 <= i < twice.rooms.len() && 0 <= j < twice.rooms.len() && twice.rooms[i].id == room.id
            && twice.rooms[j].id == room.id implies i == j by {
        if i < j {
            assert(twice.rooms[i].id != twice.rooms[j].id);
        } else if j < i {
            assert(twice.rooms[j].id != twice.rooms[i].id);
        }
    }
}

/// The only joined room cannot be left: with one room in the sidebar,
/// the current one, `/leave` asks nothing of the store and changes neither
/// the room nor the sidebar; where it names that room, or no room, the
/// status says why.
pub proof fn lemma_cannot_leave_only_room(s: SessionView, arg: Option<Seq<char>>)
    requires
        s.pending is Idle,
        s.rooms.len() == 1,
        s.rooms[0].id == s.room.id,
    ensures
        ({
            let (after, request) = after_command(s, CommandView::Leave(arg));
            let target = trimmed(
                match arg {
                    Some(name) => name,
                    None => s.room.name@,
                },
            );
            &&& request == RequestView::Nothing
            &&& after.rooms == s.rooms
            &&& after.room == s.room
            &&& after.messages == s.messages
            &&& after.pending is Idle
            &&& target.len() > 0 && target == s.rooms[0].name@ ==> after.status
                == "cannot leave the last room"@
        }),
{
    let target = trimmed(
        match arg {
            Some(name) => name,
            None => s.room.name@,
        },
    );
    let rest = s.rooms.drop_first();
    assert(rest.len() == 0);
    assert(index_of_name(rest, target) == 0);
    assert(index_of_name(s.rooms, target) == (if s.rooms[0].name@ == target {
        0int
    } else {
        1int
    }));
}

/// Leaving a joined room that is not the current one removes it from the
/// sidebar and changes neither the current room nor its messages.
pub proof fn lemma_leave_other_room(s: SessionView, arg: Option<Seq<char>>, was_member: bool)
    requires
        s.pending is Idle,
        consistent(s),
        ({
            let target = trimmed(
                match arg {
                    Some(name) => name,
                    None => s.room.name@,
                },
            );
            &&& target.len() > 0
            &&& index_of_name(s.rooms, target) < s.rooms.len()
            &&& s.rooms[index_of_name(s.rooms, target)].id != s.room.id
        }),
    ensures
        ({
            let target = trimmed(
                match arg {
                    Some(name) => name,
                    None => s.room.name@,
                },
            );
            let left = s.rooms[index_of_name(s.rooms, target)].id;
            let (asked, request) = after_command(s, CommandView::Leave(arg));
            let (after, next) = after_reply(asked, Reply::MembershipDropped(was_member));
            &&& request == RequestView::DeleteMembership { room_id: left, user_id: s.user.id }
            &&& next == RequestView::Nothing
            &&& after.rooms == without_room(s.rooms, left)
            &&& !has_room(after.rooms, left)
            &&& after.room == s.room
            &&& after.messages == s.messages
            &&& after.pending is Idle
        }),
{
    let target = trimmed(
        match arg {
            Some(name) => name,
            None => s.room.name@,
        },
    );
    let left = s.rooms[index_of_name(s.rooms, target)].id;
    lemma_without_room(s.rooms, left);
}

/// A message that the session wrote itself is shown once: when the
/// notifier later reports the same identifier, nothing is fetched and
/// nothing changes, and even a copy that was fetched would not be added.
pub proof fn lemma_own_message_shown_once(s: SessionView, me: bool, m: Message, copy: MessageView)
    requires
        s.pending == (PendingView::Writing { me }),
        consistent(s),
        copy.id == m.id,
    ensures
        ({
            let (after, next) = after_reply(s, Reply::Written(Some(m)));
            &&& next == RequestView::Nothing
            &&& has_message(after.messages, m.id)
            &&& distinct_messages(after.messages)
            &&& after_event(after, Event::Message { id: m.id, room_id: after.room.id }) == (
                after,
                RequestView::Nothing,
            )
            &&& appended(after.messages, copy) == after.messages
        }),
{
    lemma_appended(s.messages, own_view(m, s.user.handle));
}

/// A message that the store's rate gate refuses is not shown, and the line
/// stays as it was typed, so that it can be offered again.
pub proof fn lemma_server_refusal_keeps_line(s: SessionView)
    requires
        s.pending == (PendingView::Writing { me: false }),
    ensures
        ({
            let (after, next) = after_reply(s, Reply::Written(None));
            &&& next == RequestView::Nothing
            &&& after.status == "rate limited (server)"@
            &&& after.input == s.input
            &&& after.messages == s.messages
            &&& after.room == s.room
            &&& after.running == s.running
            &&& after.pending is Idle
        }),
{
}

/// A message is offered to the store only with a token of the client's
/// bucket, and with the limit that the bucket runs at.
pub proof fn lemma_send_spends_a_token(s: SessionView, text: Seq<char>, now: u64)
    requires
        consistent(s),
    ensures
        ({
            let (after, request) = after_send(s, text, now);
            &&& request is InsertMessage ==> admits(s.bucket, 1, now as nat) && after.bucket
                == after_consume(s.bucket, 1, now as nat) && request->InsertMessage_limit
                == s.bucket.rate
            &&& !admits(s.bucket, 1, now as nat) ==> request == RequestView::Nothing
        }),
{
}

/// The session asks the store for something exactly when it is left
/// waiting for the reply: an idle session that takes a key, a command or
/// an event, and any session that takes a reply, ends idle if and only if
/// it asks for nothing.
pub proof fn lemma_asks_exactly_when_waiting(
    s: SessionView,
    key: Key,
    now: u64,
    cmd: CommandView,
    ev: Event,
    reply: Reply,
)
    ensures
        s.pending is Idle ==> (after_key(s, key, now).1 == RequestView::Nothing) == (after_key(
            s,
            key,
            now,
        ).0.pending is Idle),
        s.pending is Idle ==> (after_command(s, cmd).1 == RequestView::Nothing) == (after_command(
            s,
            cmd,
        ).0.pending is Idle),
        s.pending is Idle ==> (after_event(s, ev).1 == RequestView::Nothing) == (after_event(
            s,
            ev,
        ).0.pending is Idle),
        (after_reply(s, reply).1 == RequestView::Nothing) == (after_reply(s, reply).0.pending is Idle),
{
}

} // verus!
