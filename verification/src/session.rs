//! The session coordinator: the single owner of what the client shows.
//!
//! The coordinator performs no I/O. Each call takes one input (a key, a
//! command, an event from the notifier, or the store's reply to the last
//! request) and returns the next request for the store, or `Nothing` when
//! the intent is complete. Its owner carries the request out and hands the
//! reply back before it offers anything else.

use crate::clock::clock_hh_mm;
use crate::data::{
    choose_room, clone_message_view, JoinedRoom, MessageView, Room, RoomChoice, RoomSummary,
    User, WhoSummary,
};
use crate::input::{parse_command, Command};
use crate::nick::valid_nick;
use crate::rate::{refilled, TokenBucket, UNITS_PER_TOKEN};
use crate::realtime::Event;
use crate::rooms::valid_room_name;
use crate::text::{concat2, concat3, same_text, trim, without_last};
use crate::ui::{
    action_body, after_command, after_created, after_deleted, after_dropped, after_enter,
    after_event, after_fetched, after_found, after_history, after_joined, after_key,
    after_leave, after_members_listed, after_refreshed, after_renamed, after_reply,
    after_rooms_listed, after_send, after_switch, after_written, appended, confused, consistent,
    entered, failed, has_message, has_room, index_of_id, index_of_name, joined, joining,
    lemma_appended, lemma_index_of_id, lemma_index_of_name, lemma_with_room, lemma_with_unread,
    lemma_without_room, loaded, room_item, rooms_from, rooms_status, seeking, settled, started,
    who_status, with_room, with_unread, with_unread_bumped, without_room, Entry, Key, Pending,
    PendingView, Reply, Request, RoomEntry, SessionView, UiOpts, WHO_LIMIT,
};
use crate::util::normalize_message;
use std::collections::HashSet;
use vstd::prelude::*;

verus! {

/// The identifiers of the messages that are shown.
pub open spec fn shown_ids(messages: Seq<MessageView>) -> Set<i64> {
    Set::new(|id: i64| has_message(messages, id))
}

/// The client's view of the chat: the user, the current room and its
/// messages, the joined rooms, the line being typed, the status line and
/// the rate governor. Only the session's own methods change it.
pub struct Session {
    user: User,
    room: Room,
    opts: UiOpts,
    input: String,
    status: String,
    messages: Vec<MessageView>,
    seen_ids: HashSet<i64>,
    rooms: Vec<RoomEntry>,
    running: bool,
    bucket: TokenBucket,
    pending: Pending,
}

impl View for Session {
    type V = SessionView;

    closed spec fn view(&self) -> SessionView {
        SessionView {
            user: self.user,
            room: self.room,
            opts: self.opts,
            input: self.input@,
            status: self.status@,
            messages: self.messages@,
            rooms: self.rooms@,
            running: self.running,
            bucket: self.bucket@,
            pending: self.pending@,
        }
    }
}

impl Session {
    /// The rate governor is sound, nothing is shown twice, and the set of
    /// seen identifiers holds exactly those of the messages shown.
    pub closed spec fn wf(&self) -> bool {
        &&& self.bucket.wf()
        &&& consistent(self@)
        &&& self.seen_ids@ == shown_ids(self.messages@)
    }

    /// A well-formed session is consistent.
    pub proof fn lemma_wf_consistent(&self)
        requires
            self.wf(),
        ensures
            consistent(self@),
    {
    }

    fn find_room_by_id(&self, id: i64) -> (i: usize)
        ensures
            i == index_of_id(self.rooms@, id),
            i <= self.rooms@.len(),
            has_room(self.rooms@, id) == (i < self.rooms@.len()),
    {
        let mut i: usize = 0;
        while i < self.rooms.len() && self.rooms[i].id != id
            invariant
                i <= self.rooms.len(),
                forall|j: int| 0 <= j < i ==> (#[trigger] self.rooms@[j]).id != id,
            decreases self.rooms.len() - i,
        {
            i += 1;
        }
        proof {
            lemma_index_of_id(self.rooms@, id, i as int);
        }
        i
    }

    fn find_room_by_name(&self, name: &str) -> (i: usize)
        ensures
            i == index_of_name(self.rooms@, name@),
            i <= self.rooms@.len(),
    {
        let mut i: usize = 0;
        while i < self.rooms.len() && !same_text(self.rooms[i].name.as_str(), name)
            invariant
                i <= self.rooms.len(),
                forall|j: int| 0 <= j < i ==> (#[trigger] self.rooms@[j]).name@ != name@,
            decreases self.rooms.len() - i,
        {
            i += 1;
        }
        proof {
            lemma_index_of_name(self.rooms@, name@, i as int);
        }
        i
    }

    fn append_message(&mut self, m: MessageView)
        requires
            old(self).wf(),
        ensures
            final(self).wf(),
            final(self)@ == (SessionView {
                messages: appended(old(self)@.messages, m),
                ..old(self)@
            }),
    {
        broadcast use vstd::std_specs::hash::group_hash_axioms;

        proof {
            lemma_appended(self.messages@, m);
        }
        if !self.seen_ids.contains(&m.id) {
            self.seen_ids.insert(m.id);
            self.messages.push(m);
        }
        assert(self.seen_ids@ =~= shown_ids(self.messages@));
    }

    fn load_history(&mut self, list: &Vec<MessageView>)
        requires
            old(self).wf(),
        ensures
            final(self).wf(),
            final(self)@ == (SessionView { messages: loaded(list@), ..old(self)@ }),
    {
        self.messages = Vec::new();
        self.seen_ids.clear();
        assert(self.seen_ids@ =~= shown_ids(self.messages@));
        let mut i: usize = 0;
        while i < list.len()
            invariant
                i <= list.len(),
                self.wf(),
                self@ == (SessionView { messages: loaded(list@.take(i as int)), ..old(self)@ }),
            decreases list.len() - i,
        {
            assert(list@.take(i + 1).drop_last() == list@.take(i as int));
            self.append_message(clone_message_view(&list[i]));
            i += 1;
        }
        assert(list@.take(list.len() as int) == list@);
    }

    fn add_room(&mut self, id: i64, name: String)
        requires
            old(self).wf(),
        ensures
            final(self).wf(),
            final(self)@ == (SessionView {
                rooms: with_room(old(self)@.rooms, id, name),
                ..old(self)@
            }),
    {
        proof {
            lemma_with_room(self.rooms@, id, name);
        }
        let i = self.find_room_by_id(id);
        if i >= self.rooms.len() {
            self.rooms.push(RoomEntry { id, name, unread: 0 });
        }
    }

    fn set_rooms(&mut self, list: &Vec<RoomSummary>)
        requires
            old(self).wf(),
        ensures
            final(self).wf(),
            final(self)@ == (SessionView { rooms: rooms_from(list@), ..old(self)@ }),
    {
        self.rooms = Vec::new();
        let mut i: usize = 0;
        while i < list.len()
            invariant
                i <= list.len(),
                self.wf(),
                self@ == (SessionView { rooms: rooms_from(list@.take(i as int)), ..old(self)@ }),
            decreases list.len() - i,
        {
            assert(list@.take(i + 1).drop_last() == list@.take(i as int));
            self.add_room(list[i].id, list[i].name.clone());
            i += 1;
        }
        assert(list@.take(list.len() as int) == list@);
    }

    fn set_unread(&mut self, id: i64, unread: usize)
        requires
            old(self).wf(),
        ensures
            final(self).wf(),
            final(self)@ == (SessionView {
                rooms: with_unread(old(self)@.rooms, id, unread),
                ..old(self)@
            }),
    {
        proof {
            lemma_with_unread(self.rooms@, id, unread);
        }
        let i = self.find_room_by_id(id);
        if i < self.rooms.len() {
            let entry = RoomEntry {
                id: self.rooms[i].id,
                name: self.rooms[i].name.clone(),
                unread,
            };
            self.rooms.set(i, entry);
        }
    }

    fn bump_unread(&mut self, id: i64)
        requires
            old(self).wf(),
        ensures
            final(self).wf(),
            final(self)@ == (SessionView {
                rooms: with_unread_bumped(old(self)@.rooms, id),
                ..old(self)@
            }),
    {
        let i = self.find_room_by_id(id);
        if i < self.rooms.len() {
            let unread = self.rooms[i].unread;
            let more = if unread < usize::MAX {
                unread + 1
            } else {
                unread
            };
            self.set_unread(id, more);
        }
    }

    fn remove_room(&mut self, id: i64)
        requires
            old(self).wf(),
        ensures
            final(self).wf(),
            final(self)@ == (SessionView {
                rooms: without_room(old(self)@.rooms, id),
                ..old(self)@
            }),
    {
        proof {
            lemma_without_room(self.rooms@, id);
        }
        let i = self.find_room_by_id(id);
        if i < self.rooms.len() {
            self.rooms.remove(i);
        }
    }

    fn set_status(&mut self, text: &str)
        ensures
            final(self)@ == (SessionView { status: text@, ..old(self)@ }),
            old(self).wf() ==> final(self).wf(),
    {
        self.status = String::from_str(text);
    }

    /// Sets the status and goes back to idle.
    fn settle(&mut self, text: &str)
        ensures
            final(self)@ == settled(old(self)@, text@),
            old(self).wf() ==> final(self).wf(),
    {
        self.status = String::from_str(text);
        self.pending = Pending::Idle;
    }

    /// A session for `user` in `room`, showing `history`, with the rooms
    /// of `joined_rooms` in the sidebar, at the time `now` in microseconds.
    pub fn new(
        user: User,
        room: Room,
        opts: UiOpts,
        history: Vec<MessageView>,
        joined_rooms: Vec<RoomSummary>,
        now: u64,
    ) -> (s: Session)
        ensures
            s.wf(),
            s@ == started(user, room, opts, history@, joined_rooms@, now),
    {
        let bucket = TokenBucket::new(opts.rate_per_min, now);
        let id = room.id;
        let name = room.name.clone();
        let mut s = Session {
            user,
            room,
            opts,
            input: String::new(),
            status: String::from_str("/help for commands"),
            messages: Vec::new(),
            seen_ids: HashSet::new(),
            rooms: Vec::new(),
            running: true,
            bucket,
            pending: Pending::Idle,
        };
        assert(s.seen_ids@ =~= shown_ids(s.messages@));
        s.load_history(&history);
        s.set_rooms(&joined_rooms);
        s.add_room(id, name);
        s
    }

    /// Whether the session goes on.
    pub fn running(&self) -> (r: bool)
        ensures
            r == self@.running,
    {
        self.running
    }

    /// Whether the session awaits no reply.
    pub fn is_idle(&self) -> (r: bool)
        ensures
            r == (self@.pending is Idle),
    {
        match self.pending {
            Pending::Idle => true,
            _ => false,
        }
    }

    pub fn user(&self) -> (r: &User)
        ensures
            *r == self@.user,
    {
        &self.user
    }

    /// The current room.
    pub fn room(&self) -> (r: &Room)
        ensures
            *r == self@.room,
    {
        &self.room
    }

    pub fn opts(&self) -> (r: &UiOpts)
        ensures
            *r == self@.opts,
    {
        &self.opts
    }

    /// The line that is being typed.
    pub fn input(&self) -> (r: &str)
        ensures
            r@ == self@.input,
    {
        self.input.as_str()
    }

    /// The status line.
    pub fn status(&self) -> (r: &str)
        ensures
            r@ == self@.status,
    {
        self.status.as_str()
    }

    /// The messages of the current room, oldest first.
    pub fn messages(&self) -> (r: &Vec<MessageView>)
        ensures
            r@ == self@.messages,
    {
        &self.messages
    }

    /// The joined rooms, as the sidebar shows them.
    pub fn rooms(&self) -> (r: &Vec<RoomEntry>)
        ensures
            r@ == self@.rooms,
    {
        &self.rooms
    }

    /// Brings the rate governor up to date and returns the whole tokens
    /// that are left.
    pub fn tokens_left(&mut self, now: u64) -> (tokens: u32)
        requires
            old(self).wf(),
        ensures
            final(self).wf(),
            final(self)@ == (SessionView {
                bucket: refilled(old(self)@.bucket, now as nat),
                ..old(self)@
            }),
            tokens as nat == final(self)@.bucket.level / UNITS_PER_TOKEN as nat,
    {
        self.bucket.peek_tokens(now)
    }

    /// The most tokens that the rate governor holds.
    pub fn tokens_cap(&self) -> (cap: u32)
        ensures
            cap as nat == self@.bucket.rate,
    {
        self.bucket.capacity()
    }
}

/// The characters of each string of `items`.
pub open spec fn texts_of(items: Seq<String>) -> Seq<Seq<char>> {
    Seq::new(items.len(), |i: int| items[i]@)
}

fn append_joined(out: &mut String, items: &Vec<String>, sep: &str)
    ensures
        final(out)@ == old(out)@ + joined(texts_of(items@), sep@),
{
    let mut i: usize = 0;
    assert(texts_of(items@).take(0) =~= Seq::<Seq<char>>::empty());
    assert(out@ =~= old(out)@ + joined(texts_of(items@).take(0), sep@));
    while i < items.len()
        invariant
            i <= items.len(),
            out@ == old(out)@ + joined(texts_of(items@).take(i as int), sep@),
        decreases items.len() - i,
    {
        let ghost all = texts_of(items@);
        if i > 0 {
            out.append(sep);
        }
        out.append(items[i].as_str());
        proof {
            assert(all.take(i + 1).drop_last() == all.take(i as int));
            assert(all.take(i + 1).last() == items@[i as int]@);
            assert(out@ =~= old(out)@ + joined(all.take(i + 1), sep@));
        }
        i += 1;
    }
    assert(texts_of(items@).take(items.len() as int) == texts_of(items@));
}

fn room_item_of(r: &JoinedRoom, current: i64) -> (out: String)
    ensures
        out@ == room_item(*r, current),
{
    let mut out = if r.id == current {
        String::from_str("> ")
    } else {
        String::new()
    };
    out.append(r.name.as_str());
    out.append(" [");
    out.append(clock_hh_mm(r.last_joined_at).as_str());
    out.append("]");
    assert(out@ =~= room_item(*r, current));
    out
}

fn rooms_status_of(list: &Vec<JoinedRoom>, current: i64) -> (out: String)
    ensures
        out@ == rooms_status(list@, current),
{
    if list.len() == 0 {
        return String::from_str("rooms: (none)");
    }
    let mut items: Vec<String> = Vec::new();
    let mut i: usize = 0;
    while i < list.len()
        invariant
            i <= list.len(),
            items@.len() == i,
            forall|j: int| 0 <= j < i ==> (#[trigger] items@[j])@ == room_item(list@[j], current),
        decreases list.len() - i,
    {
        items.push(room_item_of(&list[i], current));
        i += 1;
    }
    let mut out = String::from_str("rooms: ");
    append_joined(&mut out, &items, ", ");
    assert(texts_of(items@) =~= Seq::new(list@.len(), |i: int| room_item(list@[i], current)));
    out
}

fn who_status_of(list: &Vec<WhoSummary>) -> (out: String)
    ensures
        out@ == who_status(list@),
{
    let mut items: Vec<String> = Vec::new();
    let mut i: usize = 0;
    while i < list.len()
        invariant
            i <= list.len(),
            items@.len() == i,
            forall|j: int| 0 <= j < i ==> (#[trigger] items@[j])@ == list@[j].handle@,
        decreases list.len() - i,
    {
        items.push(list[i].handle.clone());
        i += 1;
    }
    let mut out = String::from_str("who: ");
    append_joined(&mut out, &items, ", ");
    assert(texts_of(items@) =~= Seq::new(list@.len(), |i: int| list@[i].handle@));
    out
}

impl Session {
    fn seek(&mut self, name: String, entry: Entry) -> (r: Request)
        requires
            old(self).wf(),
        ensures
            final(self).wf(),
            (final(self)@, r@) == seeking(old(self)@, name@, entry@),
    {
        let asked = name.clone();
        self.pending = Pending::Finding { name, entry };
        Request::FindRoom { name: asked }
    }

    fn join(&mut self, room: Room, entry: Entry) -> (r: Request)
        requires
            old(self).wf(),
        ensures
            final(self).wf(),
            (final(self)@, r@) == joining(old(self)@, room, entry@),
    {
        let room_id = room.id;
        self.pending = Pending::Joining { room, entry };
        Request::UpsertMembership { room_id, user_id: self.user.id }
    }

    fn fail(&mut self, error: &str)
        requires
            old(self).wf(),
        ensures
            final(self).wf(),
            final(self)@ == failed(old(self)@, error@),
    {
        self.status = concat2("store error: ", error);
        self.pending = Pending::Idle;
    }

    fn confuse(&mut self)
        requires
            old(self).wf(),
        ensures
            final(self).wf(),
            final(self)@ == confused(old(self)@),
    {
        self.settle("store error: unexpected reply");
    }

    fn switch_next(&mut self) -> (r: Request)
        requires
            old(self).wf(),
        ensures
            final(self).wf(),
            (final(self)@, r@) == after_switch(old(self)@),
    {
        let i = self.find_room_by_id(self.room.id);
        if i < self.rooms.len() {
            let next = (i + 1) % self.rooms.len();
            let name = self.rooms[next].name.clone();
            let target = self.rooms[next].id;
            self.seek(name, Entry::Switch { target })
        } else {
            Request::Nothing
        }
    }

    fn send(&mut self, text: String, now: u64) -> (r: Request)
        requires
            old(self).wf(),
        ensures
            final(self).wf(),
            (final(self)@, r@) == after_send(old(self)@, text@, now),
    {
        if text.as_str().as_bytes().len() > self.opts.msg_max_len {
            self.set_status("message too long");
            return Request::Nothing;
        }
        let body = normalize_message(text.as_str());
        if !self.bucket.try_consume(1, now) {
            self.status = String::from_str("rate limited (client)");
            self.input = String::new();
            return Request::Nothing;
        }
        self.pending = Pending::Writing { me: false };
        Request::InsertMessage {
            room_id: self.room.id,
            user_id: self.user.id,
            body,
            limit: self.opts.rate_per_min as i64,
        }
    }

    fn leave(&mut self, arg: Option<String>) -> (r: Request)
        requires
            old(self).wf(),
        ensures
            final(self).wf(),
            (final(self)@, r@) == after_leave(
                old(self)@,
                match arg {
                    Some(name) => Some(name@),
                    None => None,
                },
            ),
    {
        let target = match &arg {
            Some(name) => trim(name.as_str()),
            None => trim(self.room.name.as_str()),
        };
        if target.as_str().is_empty() {
            self.set_status("usage: /leave [room]");
            return Request::Nothing;
        }
        let i = self.find_room_by_name(target.as_str());
        if i >= self.rooms.len() {
            self.set_status("room not in sidebar");
            return Request::Nothing;
        }
        let left = self.rooms[i].id;
        if left == self.room.id && self.rooms.len() <= 1 {
            self.set_status("cannot leave the last room");
            return Request::Nothing;
        }
        self.pending = Pending::Dropping { left, name: target };
        Request::DeleteMembership { room_id: left, user_id: self.user.id }
    }

    /// Applies a command. Commands are ignored while a reply is awaited.
    pub fn handle_command(&mut self, cmd: Command) -> (r: Request)
        requires
            old(self).wf(),
        ensures
            final(self).wf(),
            (final(self)@, r@) == after_command(old(self)@, cmd@),
    {
        if !self.is_idle() {
            return Request::Nothing;
        }
        match cmd {
            Command::Help => {
                self.set_status("/help /quit /nick /join /rooms /who /me");
                Request::Nothing
            },
            Command::Quit => {
                self.running = false;
                Request::Nothing
            },
            Command::Me(action) => {
                let text = trim(action.as_str());
                if text.as_str().is_empty() {
                    self.set_status("usage: /me <action>");
                    return Request::Nothing;
                }
                let mut body = concat3("* ", self.user.handle.as_str(), " ");
                body.append(normalize_message(text.as_str()).as_str());
                assert(body@ =~= action_body(self.user.handle@, text@));
                self.pending = Pending::Writing { me: true };
                Request::InsertMessage {
                    room_id: self.room.id,
                    user_id: self.user.id,
                    body,
                    limit: self.opts.rate_per_min as i64,
                }
            },
            Command::Nick(new) => {
                if !valid_nick(new.as_str()) {
                    self.set_status("invalid nick [a-z0-9_-]{2,16}");
                    return Request::Nothing;
                }
                self.pending = Pending::Renaming;
                Request::RenameUser { user_id: self.user.id, new_handle: trim(new.as_str()) }
            },
            Command::Join(name) => {
                if !valid_room_name(name.as_str()) {
                    self.set_status("invalid room [a-z0-9_-]{1,24}");
                    return Request::Nothing;
                }
                self.seek(trim(name.as_str()), Entry::Join)
            },
            Command::RoomDel(name) => {
                if !valid_room_name(name.as_str()) {
                    self.set_status("usage: /roomdel <name> (a-z0-9_-){1,24}");
                    return Request::Nothing;
                }
                let target = trim(name.as_str());
                let asked = target.clone();
                self.pending = Pending::Deleting { name: target };
                Request::SoftDeleteRoom { name: asked, user_id: self.user.id }
            },
            Command::Leave(arg) => self.leave(arg),
            Command::Rooms => {
                self.pending = Pending::ListingRooms;
                Request::JoinedRoomsWithTimes { user_id: self.user.id }
            },
            Command::Who(_) => {
                self.pending = Pending::ListingMembers;
                Request::RecentMembers { room_id: self.room.id, limit: WHO_LIMIT }
            },
        }
    }

    fn enter_pressed(&mut self, now: u64) -> (r: Request)
        requires
            old(self).wf(),
            old(self)@.pending is Idle,
        ensures
            final(self).wf(),
            (final(self)@, r@) == after_enter(old(self)@, now),
    {
        let text = trim(self.input.as_str());
        if text.as_str().is_empty() {
            self.status = String::from_str("empty");
            self.input = String::new();
            return Request::Nothing;
        }
        match parse_command(self.input.as_str()) {
            Some(cmd) => {
                self.input = String::new();
                self.handle_command(cmd)
            },
            None => self.send(text, now),
        }
    }

    /// Applies a key press at the time `now`, in microseconds. Keys are
    /// ignored while a reply is awaited.
    pub fn handle_key(&mut self, key: Key, now: u64) -> (r: Request)
        requires
            old(self).wf(),
        ensures
            final(self).wf(),
            (final(self)@, r@) == after_key(old(self)@, key, now),
    {
        if !self.is_idle() {
            return Request::Nothing;
        }
        match key {
            Key::CtrlC => {
                self.running = false;
                Request::Nothing
            },
            Key::Esc => {
                self.input = String::new();
                Request::Nothing
            },
            Key::Backspace => {
                self.input = without_last(self.input.as_str());
                Request::Nothing
            },
            Key::Char(c) => {
                self.input.push(c);
                Request::Nothing
            },
            Key::Tab => self.switch_next(),
            Key::Enter => self.enter_pressed(now),
            Key::Other => Request::Nothing,
        }
    }

    /// Applies an event from the notifier. Events are ignored while a
    /// reply is awaited.
    pub fn handle_event(&mut self, ev: Event) -> (r: Request)
        requires
            old(self).wf(),
        ensures
            final(self).wf(),
            (final(self)@, r@) == after_event(old(self)@, ev),
    {
        broadcast use vstd::std_specs::hash::group_hash_axioms;

        if !self.is_idle() {
            return Request::Nothing;
        }
        match ev {
            Event::Message { id, room_id } => {
                if room_id == self.room.id {
                    if self.seen_ids.contains(&id) {
                        Request::Nothing
                    } else {
                        self.pending = Pending::Fetching { id };
                        Request::MessageById { id }
                    }
                } else {
                    self.bump_unread(room_id);
                    Request::Nothing
                }
            },
        }
    }

    fn written(&mut self, me: bool, reply: Reply)
        requires
            old(self).wf(),
        ensures
            final(self).wf(),
            final(self)@ == after_written(
                SessionView { pending: PendingView::Writing { me }, ..old(self)@ },
                me,
                reply,
            ),
    {
        match reply {
            Reply::Written(Some(m)) => {
                let shown = MessageView {
                    id: m.id,
                    room_id: m.room_id,
                    user_id: m.user_id,
                    user_handle: self.user.handle.clone(),
                    body: m.body,
                    created_at: m.created_at,
                };
                self.append_message(shown);
                if me {
                    self.settle("me");
                } else {
                    self.settle("sent");
                    self.input = String::new();
                }
            },
            Reply::Written(None) => self.settle("rate limited (server)"),
            Reply::Failed(e) => self.fail(e.as_str()),
            _ => self.confuse(),
        }
    }

    fn renamed(&mut self, reply: Reply)
        requires
            old(self).wf(),
        ensures
            final(self).wf(),
            final(self)@ == after_renamed(
                SessionView { pending: PendingView::Renaming, ..old(self)@ },
                reply,
            ),
    {
        match reply {
            Reply::Renamed(u) => {
                self.user = u;
                self.settle("nick changed");
            },
            Reply::Refused(_) => self.settle("nick taken"),
            Reply::Failed(e) => {
                self.status = concat2("nick error: ", e.as_str());
                self.pending = Pending::Idle;
            },
            _ => self.confuse(),
        }
    }

    fn found(&mut self, name: String, entry: Entry, reply: Reply) -> (r: Request)
        requires
            old(self).wf(),
        ensures
            final(self).wf(),
            (final(self)@, r@) == after_found(
                SessionView { pending: PendingView::Finding { name: name@, entry: entry@ }, ..old(self)@ },
                name@,
                entry@,
                reply,
            ),
    {
        match reply {
            Reply::RoomFound(found) => match choose_room(found) {
                RoomChoice::Deleted => {
                    self.settle("room is deleted");
                    Request::Nothing
                },
                RoomChoice::Use(room) => self.join(room, entry),
                RoomChoice::Create => {
                    let asked = name.clone();
                    self.pending = Pending::Creating { name, entry };
                    Request::CreateRoom { name: asked, user_id: self.user.id }
                },
            },
            Reply::Failed(e) => {
                self.fail(e.as_str());
                Request::Nothing
            },
            _ => {
                self.confuse();
                Request::Nothing
            },
        }
    }

    fn created(&mut self, name: String, entry: Entry, reply: Reply) -> (r: Request)
        requires
            old(self).wf(),
        ensures
            final(self).wf(),
            (final(self)@, r@) == after_created(
                SessionView { pending: PendingView::Creating { name: name@, entry: entry@ }, ..old(self)@ },
                name@,
                entry@,
                reply,
            ),
    {
        match reply {
            Reply::RoomCreated(room) => self.join(room, entry),
            Reply::Refused(_) => self.seek(name, entry),
            Reply::Failed(e) => {
                self.fail(e.as_str());
                Request::Nothing
            },
            _ => {
                self.confuse();
                Request::Nothing
            },
        }
    }

    fn joined(&mut self, room: Room, entry: Entry, reply: Reply) -> (r: Request)
        requires
            old(self).wf(),
        ensures
            final(self).wf(),
            (final(self)@, r@) == after_joined(
                SessionView { pending: PendingView::Joining { room, entry: entry@ }, ..old(self)@ },
                room,
                entry@,
                reply,
            ),
    {
        match reply {
            Reply::MembershipSet => {
                let room_id = room.id;
                self.pending = Pending::Loading { room, entry };
                Request::RecentMessages { room_id, limit: self.opts.history_load as i64 }
            },
            Reply::Failed(e) => {
                self.fail(e.as_str());
                Request::Nothing
            },
            _ => {
                self.confuse();
                Request::Nothing
            },
        }
    }

    fn enter(&mut self, room: Room, history: &Vec<MessageView>, entry: Entry)
        requires
            old(self).wf(),
        ensures
            final(self).wf(),
            final(self)@ == entered(old(self)@, room, history@, entry@),
    {
        let id = room.id;
        let name = room.name.clone();
        self.load_history(history);
        self.pending = Pending::Idle;
        match entry {
            Entry::Join => {
                self.set_unread(id, 0);
                self.add_room(id, name);
                self.status = String::from_str("joined");
            },
            Entry::Switch { target } => {
                self.set_unread(target, 0);
                self.status = concat2("joined ", name.as_str());
            },
            Entry::AfterLeave { left, name } => {
                self.remove_room(left);
                self.status = concat3("left '", name.as_str(), "'");
            },
        }
        self.room = room;
    }

    fn history(&mut self, room: Room, entry: Entry, reply: Reply)
        requires
            old(self).wf(),
        ensures
            final(self).wf(),
            final(self)@ == after_history(
                SessionView { pending: PendingView::Loading { room, entry: entry@ }, ..old(self)@ },
                room,
                entry@,
                reply,
            ),
    {
        match reply {
            Reply::Messages(list) => self.enter(room, &list, entry),
            Reply::Failed(e) => self.fail(e.as_str()),
            _ => self.confuse(),
        }
    }

    fn dropped(&mut self, left: i64, name: String, reply: Reply) -> (r: Request)
        requires
            old(self).wf(),
        ensures
            final(self).wf(),
            (final(self)@, r@) == after_dropped(
                SessionView { pending: PendingView::Dropping { left, name: name@ }, ..old(self)@ },
                left,
                name@,
                reply,
            ),
    {
        match reply {
            Reply::MembershipDropped(_) => {
                let i = self.find_room_by_id(left);
                if left == self.room.id && i < self.rooms.len() {
                    let next = (i + 1) % self.rooms.len();
                    if self.rooms[next].id != left {
                        let next_name = self.rooms[next].name.clone();
                        return self.seek(next_name, Entry::AfterLeave { left, name });
                    }
                }
                self.remove_room(left);
                self.status = concat3("left '", name.as_str(), "'");
                self.pending = Pending::Idle;
                Request::Nothing
            },
            Reply::Failed(e) => {
                self.fail(e.as_str());
                Request::Nothing
            },
            _ => {
                self.confuse();
                Request::Nothing
            },
        }
    }

    fn deleted(&mut self, name: String, reply: Reply) -> (r: Request)
        requires
            old(self).wf(),
        ensures
            final(self).wf(),
            (final(self)@, r@) == after_deleted(
                SessionView { pending: PendingView::Deleting { name: name@ }, ..old(self)@ },
                name@,
                reply,
            ),
    {
        match reply {
            Reply::RoomDeleted(done) => {
                if done {
                    self.status = concat3("room '", name.as_str(), "' deleted");
                    self.pending = Pending::Refreshing;
                    Request::JoinedRooms { user_id: self.user.id }
                } else {
                    self.settle("not room creator or already deleted");
                    Request::Nothing
                }
            },
            Reply::Failed(e) => {
                self.fail(e.as_str());
                Request::Nothing
            },
            _ => {
                self.confuse();
                Request::Nothing
            },
        }
    }

    fn refreshed(&mut self, reply: Reply)
        requires
            old(self).wf(),
        ensures
            final(self).wf(),
            final(self)@ == after_refreshed(
                SessionView { pending: PendingView::Refreshing, ..old(self)@ },
                reply,
            ),
    {
        match reply {
            Reply::Rooms(list) => {
                self.set_rooms(&list);
                self.pending = Pending::Idle;
            },
            Reply::Failed(e) => self.fail(e.as_str()),
            _ => self.confuse(),
        }
    }

    fn listed(&mut self, members: bool, reply: Reply)
        requires
            old(self).wf(),
        ensures
            final(self).wf(),
            members ==> final(self)@ == after_members_listed(
                SessionView { pending: PendingView::ListingMembers, ..old(self)@ },
                reply,
            ),
            !members ==> final(self)@ == after_rooms_listed(
                SessionView { pending: PendingView::ListingRooms, ..old(self)@ },
                reply,
            ),
    {
        match reply {
            Reply::RoomsWithTimes(list) => {
                if members {
                    self.confuse();
                } else {
                    self.status = rooms_status_of(&list, self.room.id);
                    self.pending = Pending::Idle;
                }
            },
            Reply::Members(list) => {
                if members {
                    self.status = who_status_of(&list);
                    self.pending = Pending::Idle;
                } else {
                    self.confuse();
                }
            },
            Reply::Failed(e) => self.fail(e.as_str()),
            _ => self.confuse(),
        }
    }

    fn fetched(&mut self, reply: Reply)
        requires
            old(self).wf(),
        ensures
            final(self).wf(),
            final(self)@ == after_fetched(
                SessionView { pending: PendingView::Idle, ..old(self)@ },
                reply,
            ),
    {
        match reply {
            Reply::Message(Some(shown)) => {
                self.append_message(shown);
                self.pending = Pending::Idle;
            },
            Reply::Message(None) => {
                self.pending = Pending::Idle;
            },
            Reply::Failed(e) => self.fail(e.as_str()),
            _ => self.confuse(),
        }
    }

    /// Applies the store's reply to the last request and returns the next
    /// request, or `Nothing` when the intent is complete.
    pub fn handle_reply(&mut self, reply: Reply) -> (r: Request)
        requires
            old(self).wf(),
        ensures
            final(self).wf(),
            (final(self)@, r@) == after_reply(old(self)@, reply),
    {
        let mut pending = Pending::Idle;
        core::mem::swap(&mut self.pending, &mut pending);
        match pending {
            Pending::Idle => Request::Nothing,
            Pending::Writing { me } => {
                self.written(me, reply);
                Request::Nothing
            },
            Pending::Renaming => {
                self.renamed(reply);
                Request::Nothing
            },
            Pending::Finding { name, entry } => self.found(name, entry, reply),
            Pending::Creating { name, entry } => self.created(name, entry, reply),
            Pending::Joining { room, entry } => self.joined(room, entry, reply),
            Pending::Loading { room, entry } => {
                self.history(room, entry, reply);
                Request::Nothing
            },
            Pending::Dropping { left, name } => self.dropped(left, name, reply),
            Pending::Deleting { name } => self.deleted(name, reply),
            Pending::Refreshing => {
                self.refreshed(reply);
                Request::Nothing
            },
            Pending::ListingRooms => {
                self.listed(false, reply);
                Request::Nothing
            },
            Pending::ListingMembers => {
                self.listed(true, reply);
                Request::Nothing
            },
            Pending::Fetching { id } => {
                self.fetched(reply);
                Request::Nothing
            },
        }
    }
}


} // verus!
