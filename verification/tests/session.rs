use bbs_tui::data::{JoinedRoom, Message, MessageView, Room, RoomSummary, User, WhoSummary};
use bbs_tui::data::Conflict;
use bbs_tui::realtime::Event;
use bbs_tui::clock::{clock_hh_mm, clock_hh_mm_ss};
use bbs_tui::session::Session;
use bbs_tui::ui::{Key, Reply, Request, UiOpts};

const SECOND: u64 = 1_000_000;

/// A store in memory that answers the session's requests as the real one
/// is meant to: unique room names, one membership per room and user, and a
/// rate gate over the author's messages of the last minute.
struct Store {
    now: i64,
    rooms: Vec<Room>,
    members: Vec<(i64, i64, i64)>,
    messages: Vec<Message>,
    users: Vec<User>,
    asked: Vec<Request>,
}

impl Store {
    fn new() -> Store {
        Store { now: 0, rooms: vec![], members: vec![], messages: vec![], users: vec![], asked: vec![] }
    }

    fn add_user(&mut self, fp: &str, handle: &str) -> User {
        let u = User {
            id: self.users.len() as i64 + 1,
            fingerprint_sha256: fp.to_string(),
            pubkey_type: "ed25519".to_string(),
            handle: handle.to_string(),
            created_at: self.now,
            last_seen_at: self.now,
        };
        self.users.push(u.clone());
        u
    }

    fn add_room(&mut self, name: &str, created_by: i64) -> Room {
        let r = Room {
            id: self.rooms.len() as i64 + 1,
            name: name.to_string(),
            created_by,
            is_deleted: false,
            created_at: self.now,
            deleted_at: None,
        };
        self.rooms.push(r.clone());
        r
    }

    fn join(&mut self, room_id: i64, user_id: i64) {
        let now = self.now;
        match self.members.iter_mut().find(|m| m.0 == room_id && m.1 == user_id) {
            Some(m) => m.2 = now,
            None => self.members.push((room_id, user_id, now)),
        }
    }

    fn view(&self, m: &Message) -> MessageView {
        MessageView {
            id: m.id,
            room_id: m.room_id,
            user_id: m.user_id,
            user_handle: self.users.iter().find(|u| u.id == m.user_id).unwrap().handle.clone(),
            body: m.body.clone(),
            created_at: m.created_at,
        }
    }

    fn history(&self, room_id: i64, limit: i64) -> Vec<MessageView> {
        let mut all: Vec<&Message> = self.messages.iter().filter(|m| m.room_id == room_id).collect();
        all.sort_by_key(|m| (m.created_at, m.id));
        let skip = all.len().saturating_sub(limit as usize);
        all[skip..].iter().map(|m| self.view(m)).collect()
    }

    fn joined(&self, user_id: i64) -> Vec<JoinedRoom> {
        let mut mine: Vec<&(i64, i64, i64)> = self.members.iter().filter(|m| m.1 == user_id).collect();
        mine.sort_by_key(|m| std::cmp::Reverse(m.2));
        mine.iter()
            .filter_map(|m| self.rooms.iter().find(|r| r.id == m.0 && !r.is_deleted).map(|r| (r, m.2)))
            .map(|(r, at)| JoinedRoom { id: r.id, name: r.name.clone(), last_joined_at: at })
            .collect()
    }

    fn summaries(&self, user_id: i64) -> Vec<RoomSummary> {
        self.joined(user_id).into_iter().map(|r| RoomSummary { id: r.id, name: r.name }).collect()
    }

    fn perform(&mut self, request: Request) -> Reply {
        self.asked.push(request.clone());
        match request {
            Request::Nothing => panic!("nothing was asked"),
            Request::InsertMessage { room_id, user_id, body, limit } => {
                let recent = self
                    .messages
                    .iter()
                    .filter(|m| m.user_id == user_id && m.created_at > self.now - 60_000_000)
                    .count() as i64;
                if recent < limit {
                    let m = Message {
                        id: self.messages.len() as i64 + 1,
                        room_id,
                        user_id,
                        body,
                        created_at: self.now,
                        deleted_at: None,
                    };
                    self.messages.push(m.clone());
                    Reply::Written(Some(m))
                } else {
                    Reply::Written(None)
                }
            }
            Request::FindRoom { name } => {
                Reply::RoomFound(self.rooms.iter().find(|r| r.name == name).cloned())
            }
            Request::CreateRoom { name, user_id } => {
                if self.rooms.iter().any(|r| r.name == name) {
                    Reply::Refused(Conflict::Taken)
                } else {
                    Reply::RoomCreated(self.add_room(&name, user_id))
                }
            }
            Request::UpsertMembership { room_id, user_id } => {
                self.join(room_id, user_id);
                Reply::MembershipSet
            }
            Request::DeleteMembership { room_id, user_id } => {
                let before = self.members.len();
                self.members.retain(|m| !(m.0 == room_id && m.1 == user_id));
                Reply::MembershipDropped(self.members.len() < before)
            }
            Request::RecentMessages { room_id, limit } => Reply::Messages(self.history(room_id, limit)),
            Request::MessageById { id } => {
                Reply::Message(self.messages.iter().find(|m| m.id == id).map(|m| self.view(m)))
            }
            Request::RenameUser { user_id, new_handle } => {
                if self.users.iter().any(|u| u.handle == new_handle) {
                    Reply::Refused(Conflict::Taken)
                } else {
                    let u = self.users.iter_mut().find(|u| u.id == user_id).unwrap();
                    u.handle = new_handle;
                    Reply::Renamed(u.clone())
                }
            }
            Request::SoftDeleteRoom { name, user_id } => {
                let now = self.now;
                match self
                    .rooms
                    .iter_mut()
                    .find(|r| r.name == name && r.created_by == user_id && !r.is_deleted)
                {
                    Some(r) => {
                        r.is_deleted = true;
                        r.deleted_at = Some(now);
                        Reply::RoomDeleted(true)
                    }
                    None => Reply::RoomDeleted(false),
                }
            }
            Request::JoinedRooms { user_id } => Reply::Rooms(self.summaries(user_id)),
            Request::JoinedRoomsWithTimes { user_id } => Reply::RoomsWithTimes(self.joined(user_id)),
            Request::RecentMembers { room_id, limit } => {
                let mut there: Vec<&(i64, i64, i64)> =
                    self.members.iter().filter(|m| m.0 == room_id).collect();
                there.sort_by_key(|m| std::cmp::Reverse(m.2));
                Reply::Members(
                    there
                        .iter()
                        .take(limit as usize)
                        .map(|m| {
                            let u = self.users.iter().find(|u| u.id == m.1).unwrap();
                            WhoSummary { id: u.id, handle: u.handle.clone() }
                        })
                        .collect(),
                )
            }
        }
    }
}

fn opts(rate_per_min: u32) -> UiOpts {
    UiOpts { history_load: 200, msg_max_len: 1000, fp_short: "fp-A".to_string(), rate_per_min }
}

/// A user with the fingerprint `fp-A` in the room `lobby`.
fn lobby(store: &mut Store, rate_per_min: u32) -> Session {
    let user = store.add_user("fp-A", "alice");
    let room = match store.rooms.iter().find(|r| r.name == "lobby") {
        Some(r) => r.clone(),
        None => store.add_room("lobby", user.id),
    };
    store.join(room.id, user.id);
    let history = store.history(room.id, 200);
    let joined = store.summaries(user.id);
    Session::new(user, room, opts(rate_per_min), history, joined, 0)
}

/// Carries requests out until the session asks nothing more.
fn settle(session: &mut Session, store: &mut Store, first: Request) {
    let mut request = first;
    let mut steps = 0;
    while !matches!(request, Request::Nothing) {
        let reply = store.perform(request);
        request = session.handle_reply(reply);
        steps += 1;
        assert!(steps < 20);
    }
    assert!(session.is_idle());
}

fn enter(session: &mut Session, store: &mut Store, line: &str, now: u64) {
    for c in line.chars() {
        assert!(matches!(session.handle_key(Key::Char(c), now), Request::Nothing));
    }
    let request = session.handle_key(Key::Enter, now);
    settle(session, store, request);
}

fn bodies(session: &Session) -> Vec<String> {
    session.messages().iter().map(|m| m.body.clone()).collect()
}

fn sidebar(session: &Session) -> Vec<(String, usize)> {
    session.rooms().iter().map(|r| (r.name.clone(), r.unread)).collect()
}

#[test]
fn a_new_session_shows_its_room_and_the_help_hint() {
    let mut store = Store::new();
    let session = lobby(&mut store, 10);
    assert_eq!(session.status(), "/help for commands");
    assert_eq!(session.input(), "");
    assert!(session.running());
    assert!(session.is_idle());
    assert_eq!(session.room().name, "lobby");
    assert_eq!(session.user().handle, "alice");
    assert_eq!(sidebar(&session), vec![("lobby".to_string(), 0)]);
    assert_eq!(session.tokens_cap(), 10);
    assert_eq!(session.opts().history_load, 200);
}

#[test]
fn the_current_room_is_added_to_the_sidebar_once() {
    let user = User {
        id: 1,
        fingerprint_sha256: "fp".into(),
        pubkey_type: "dev".into(),
        handle: "u".into(),
        created_at: 0,
        last_seen_at: 0,
    };
    let room = Room { id: 9, name: "nine".into(), created_by: 1, is_deleted: false, created_at: 0, deleted_at: None };
    let joined = vec![
        RoomSummary { id: 3, name: "three".into() },
        RoomSummary { id: 3, name: "three again".into() },
        RoomSummary { id: 4, name: "four".into() },
    ];
    let m = |id: i64, body: &str| MessageView {
        id,
        room_id: 9,
        user_id: 1,
        user_handle: "u".into(),
        body: body.into(),
        created_at: id,
    };
    let history = vec![m(1, "a"), m(2, "b"), m(1, "a again")];
    let session = Session::new(user, room, opts(10), history, joined, 0);
    assert_eq!(
        sidebar(&session),
        vec![("three".to_string(), 0), ("four".to_string(), 0), ("nine".to_string(), 0)]
    );
    assert_eq!(bodies(&session), vec!["a", "b"]);
}

#[test]
fn hello_appears_once_and_the_eleventh_message_is_rate_limited() {
    let mut store = Store::new();
    let mut session = lobby(&mut store, 10);
    enter(&mut session, &mut store, "hello", 0);
    assert_eq!(session.status(), "sent");
    assert_eq!(session.input(), "");
    assert_eq!(bodies(&session), vec!["hello"]);
    assert_eq!(store.history(session.room().id, 200).len(), 1);
    assert_eq!(store.history(session.room().id, 200)[0].body, "hello");

    for i in 1..10 {
        store.now = i * 100_000;
        enter(&mut session, &mut store, &format!("m{}", i), i as u64 * 100_000);
        assert_eq!(session.status(), "sent");
    }
    assert_eq!(store.messages.len(), 10);

    // at once, the client's own bucket refuses, and the store is not asked
    let asked = store.asked.len();
    enter(&mut session, &mut store, "too fast", SECOND);
    assert_eq!(session.status(), "rate limited (client)");
    assert_eq!(session.input(), "");
    assert_eq!(store.asked.len(), asked);

    // seven seconds on the bucket holds a token again, but the store still
    // counts ten messages in the last minute: the eleventh is refused there
    store.now = 7_000_000;
    enter(&mut session, &mut store, "eleventh", 7 * SECOND);
    assert_eq!(session.status(), "rate limited (server)");
    assert_eq!(store.asked.len(), asked + 1);
    assert_eq!(store.messages.len(), 10);
    assert_eq!(store.history(session.room().id, 200).len(), 10);
    assert_eq!(session.messages().len(), 10);
    // the line is offered again
    assert_eq!(session.input(), "eleventh");

    // a minute after the first ten, the same line goes through
    store.now = 61_000_000;
    let request = session.handle_key(Key::Enter, 61 * SECOND);
    settle(&mut session, &mut store, request);
    assert_eq!(session.status(), "sent");
    assert_eq!(store.messages.len(), 11);
}

#[test]
fn a_second_client_of_the_same_user_meets_the_server_gate() {
    let mut store = Store::new();
    let mut first = lobby(&mut store, 3);
    for i in 0..3 {
        enter(&mut first, &mut store, &format!("a{}", i), 0);
    }
    let user = store.users[0].clone();
    let room = store.rooms[0].clone();
    let mut second = Session::new(user, room, opts(3), store.history(1, 200), store.summaries(1), 0);
    enter(&mut second, &mut store, "fourth", 0);
    assert_eq!(second.status(), "rate limited (server)");
    assert_eq!(store.messages.len(), 3);
    assert_eq!(second.messages().len(), 3);
}

#[test]
fn an_own_message_is_not_appended_again_by_its_notification() {
    let mut store = Store::new();
    let mut session = lobby(&mut store, 10);
    enter(&mut session, &mut store, "hello", 0);
    let id = session.messages()[0].id;
    let room_id = session.room().id;
    let asked = store.asked.len();
    let request = session.handle_event(Event::Message { id, room_id });
    assert!(matches!(request, Request::Nothing));
    assert_eq!(store.asked.len(), asked);
    assert_eq!(bodies(&session), vec!["hello"]);
}

#[test]
fn a_message_of_someone_else_is_fetched_and_shown_once() {
    let mut store = Store::new();
    let mut session = lobby(&mut store, 10);
    let bob = store.add_user("fp-B", "bob");
    store.messages.push(Message { id: 1, room_id: 1, user_id: bob.id, body: "hi".into(), created_at: 5, deleted_at: None });
    for _ in 0..2 {
        let request = session.handle_event(Event::Message { id: 1, room_id: 1 });
        settle(&mut session, &mut store, request);
    }
    assert_eq!(bodies(&session), vec!["hi"]);
    assert_eq!(session.messages()[0].user_handle, "bob");
    assert_eq!(store.asked.len(), 1);
    // a message that is gone by the time it is fetched is ignored
    let request = session.handle_event(Event::Message { id: 77, room_id: 1 });
    assert!(matches!(request, Request::MessageById { id: 77 }));
    settle(&mut session, &mut store, request);
    assert_eq!(session.messages().len(), 1);
}

#[test]
fn events_for_other_rooms_count_as_unread_or_are_ignored() {
    let mut store = Store::new();
    let mut session = lobby(&mut store, 10);
    enter(&mut session, &mut store, "/join dev", 0);
    enter(&mut session, &mut store, "/join lobby", 0);
    assert_eq!(session.room().name, "lobby");
    let dev = store.rooms.iter().find(|r| r.name == "dev").unwrap().id;
    for _ in 0..3 {
        assert!(matches!(session.handle_event(Event::Message { id: 50, room_id: dev }), Request::Nothing));
    }
    assert!(matches!(session.handle_event(Event::Message { id: 51, room_id: 999 }), Request::Nothing));
    assert_eq!(sidebar(&session), vec![("lobby".to_string(), 0), ("dev".to_string(), 3)]);
    assert!(session.messages().is_empty());
    // entering the room resets its count
    enter(&mut session, &mut store, "/join dev", 0);
    assert_eq!(sidebar(&session), vec![("lobby".to_string(), 0), ("dev".to_string(), 0)]);
}

#[test]
fn joining_twice_leaves_one_membership_and_one_sidebar_entry() {
    let mut store = Store::new();
    let mut session = lobby(&mut store, 10);
    enter(&mut session, &mut store, "/join dev", 0);
    assert_eq!(session.status(), "joined");
    assert_eq!(session.room().name, "dev");
    store.now = 5;
    enter(&mut session, &mut store, "/join dev", 0);
    assert_eq!(session.status(), "joined");
    let dev = session.room().id;
    assert_eq!(store.members.iter().filter(|m| m.0 == dev && m.1 == 1).count(), 1);
    assert_eq!(store.members.iter().find(|m| m.0 == dev).unwrap().2, 5);
    assert_eq!(store.rooms.iter().filter(|r| r.name == "dev").count(), 1);
    assert_eq!(sidebar(&session), vec![("lobby".to_string(), 0), ("dev".to_string(), 0)]);
}

#[test]
fn an_invalid_room_name_never_reaches_the_store() {
    let mut store = Store::new();
    let mut session = lobby(&mut store, 10);
    enter(&mut session, &mut store, "/join Bad*Name", 0);
    assert_eq!(session.status(), "invalid room [a-z0-9_-]{1,24}");
    enter(&mut session, &mut store, "/join", 0);
    assert_eq!(session.status(), "invalid room [a-z0-9_-]{1,24}");
    enter(&mut session, &mut store, "/roomdel", 0);
    assert_eq!(session.status(), "usage: /roomdel <name> (a-z0-9_-){1,24}");
    enter(&mut session, &mut store, "/nick x", 0);
    assert_eq!(session.status(), "invalid nick [a-z0-9_-]{2,16}");
    enter(&mut session, &mut store, "/me", 0);
    assert_eq!(session.status(), "usage: /me <action>");
    enter(&mut session, &mut store, "   ", 0);
    assert_eq!(session.status(), "empty");
    assert!(store.asked.is_empty());
    assert_eq!(session.room().name, "lobby");
}

#[test]
fn a_deleted_room_cannot_be_joined_again() {
    let mut store = Store::new();
    let mut session = lobby(&mut store, 10);
    enter(&mut session, &mut store, "/join temp", 0);
    assert_eq!(session.room().name, "temp");
    enter(&mut session, &mut store, "/roomdel temp", 0);
    assert_eq!(session.status(), "room 'temp' deleted");
    assert_eq!(sidebar(&session), vec![("lobby".to_string(), 0)]);
    enter(&mut session, &mut store, "/roomdel temp", 0);
    assert_eq!(session.status(), "not room creator or already deleted");

    enter(&mut session, &mut store, "/join temp", 0);
    assert_eq!(session.status(), "room is deleted");
    assert_eq!(store.rooms.iter().filter(|r| r.name == "temp").count(), 1);
    assert!(store.rooms.iter().find(|r| r.name == "temp").unwrap().is_deleted);

    // any other user meets the same refusal
    let bob = store.add_user("fp-B", "bob");
    let room = store.rooms[0].clone();
    store.join(room.id, bob.id);
    let mut other = Session::new(bob, room, opts(10), vec![], store.summaries(2), 0);
    enter(&mut other, &mut store, "/join temp", 0);
    assert_eq!(other.status(), "room is deleted");
    assert_eq!(other.room().name, "lobby");
    assert_eq!(sidebar(&other), vec![("lobby".to_string(), 0)]);
}

#[test]
fn only_the_creator_deletes_a_room() {
    let mut store = Store::new();
    let mut session = lobby(&mut store, 10);
    let bob = store.add_user("fp-B", "bob");
    store.add_room("bobs", bob.id);
    enter(&mut session, &mut store, "/roomdel bobs", 0);
    assert_eq!(session.status(), "not room creator or already deleted");
    assert!(!store.rooms[1].is_deleted);
}

#[test]
fn the_only_room_cannot_be_left() {
    let mut store = Store::new();
    let mut session = lobby(&mut store, 10);
    enter(&mut session, &mut store, "/leave", 0);
    assert_eq!(session.status(), "cannot leave the last room");
    enter(&mut session, &mut store, "/leave lobby", 0);
    assert_eq!(session.status(), "cannot leave the last room");
    assert!(store.asked.is_empty());
    assert_eq!(store.members.len(), 1);
    assert_eq!(sidebar(&session), vec![("lobby".to_string(), 0)]);
    enter(&mut session, &mut store, "/leave nowhere", 0);
    assert_eq!(session.status(), "room not in sidebar");
}

#[test]
fn leaving_another_room_keeps_the_current_one() {
    let mut store = Store::new();
    let mut session = lobby(&mut store, 10);
    enter(&mut session, &mut store, "/join dev", 0);
    enter(&mut session, &mut store, "hi dev", 0);
    enter(&mut session, &mut store, "/leave lobby", 0);
    assert_eq!(session.status(), "left 'lobby'");
    assert_eq!(session.room().name, "dev");
    assert_eq!(bodies(&session), vec!["hi dev"]);
    assert_eq!(sidebar(&session), vec![("dev".to_string(), 0)]);
    assert_eq!(store.members.len(), 1);
    assert_eq!(store.members[0].0, session.room().id);
}

#[test]
fn leaving_the_current_room_moves_to_the_next_one() {
    let mut store = Store::new();
    let mut session = lobby(&mut store, 10);
    enter(&mut session, &mut store, "in lobby", 0);
    enter(&mut session, &mut store, "/join dev", 0);
    enter(&mut session, &mut store, "/join ops", 0);
    assert_eq!(session.room().name, "ops");
    // ops is last in the sidebar: the next room, cyclically, is lobby
    enter(&mut session, &mut store, "/leave", 0);
    assert_eq!(session.status(), "left 'ops'");
    assert_eq!(session.room().name, "lobby");
    assert_eq!(bodies(&session), vec!["in lobby"]);
    assert_eq!(sidebar(&session), vec![("lobby".to_string(), 0), ("dev".to_string(), 0)]);
    assert_eq!(store.members.iter().filter(|m| m.0 == 3).count(), 0);
}

#[test]
fn the_tab_key_walks_the_sidebar_in_a_cycle() {
    let mut store = Store::new();
    let mut session = lobby(&mut store, 10);
    enter(&mut session, &mut store, "/join dev", 0);
    enter(&mut session, &mut store, "/join lobby", 0);
    let dev = store.rooms[1].id;
    session.handle_event(Event::Message { id: 9, room_id: dev });
    assert_eq!(sidebar(&session), vec![("lobby".to_string(), 0), ("dev".to_string(), 1)]);
    let request = session.handle_key(Key::Tab, 0);
    assert!(matches!(&request, Request::FindRoom { name } if name == "dev"));
    settle(&mut session, &mut store, request);
    assert_eq!(session.room().name, "dev");
    assert_eq!(session.status(), "joined dev");
    assert_eq!(sidebar(&session), vec![("lobby".to_string(), 0), ("dev".to_string(), 0)]);
    let request = session.handle_key(Key::Tab, 0);
    settle(&mut session, &mut store, request);
    assert_eq!(session.room().name, "lobby");
    assert_eq!(session.status(), "joined lobby");
}

#[test]
fn a_taken_handle_is_reported_and_a_free_one_is_taken() {
    let mut store = Store::new();
    let mut session = lobby(&mut store, 10);
    store.add_user("fp-B", "bob");
    enter(&mut session, &mut store, "/nick bob", 0);
    assert_eq!(session.status(), "nick taken");
    assert_eq!(session.user().handle, "alice");
    enter(&mut session, &mut store, "/nick  carol ", 0);
    assert_eq!(session.status(), "nick changed");
    assert_eq!(session.user().handle, "carol");
    enter(&mut session, &mut store, "/me waves", 0);
    assert_eq!(session.status(), "me");
    assert_eq!(bodies(&session), vec!["* carol waves"]);
}

#[test]
fn rooms_and_who_are_listed_in_the_status() {
    let mut store = Store::new();
    let mut session = lobby(&mut store, 10);
    store.now = (13 * 3600 + 5 * 60) * 1_000_000;
    enter(&mut session, &mut store, "/join dev", 0);
    let bob = store.add_user("fp-B", "bob");
    store.now += 60_000_000;
    store.join(2, bob.id);
    enter(&mut session, &mut store, "/rooms", 0);
    assert_eq!(session.status(), "rooms: > dev [13:05], lobby [00:00]");
    enter(&mut session, &mut store, "/who", 0);
    assert_eq!(session.status(), "who: bob, alice");
    enter(&mut session, &mut store, "/help", 0);
    assert_eq!(session.status(), "/help /quit /nick /join /rooms /who /me");
    enter(&mut session, &mut store, "/nonsense", 0);
    assert_eq!(session.status(), "/help /quit /nick /join /rooms /who /me");
    let request = session.handle_reply(Reply::RoomsWithTimes(vec![]));
    assert!(matches!(request, Request::Nothing));
    let request = session.handle_key(Key::Char('x'), 0);
    assert!(matches!(request, Request::Nothing));
    session.handle_key(Key::Esc, 0);
    session.handle_command(bbs_tui::input::Command::Rooms);
    session.handle_reply(Reply::RoomsWithTimes(vec![]));
    assert_eq!(session.status(), "rooms: (none)");
}

#[test]
fn keys_edit_the_line_and_quit_ends_the_session() {
    let mut store = Store::new();
    let mut session = lobby(&mut store, 10);
    for c in "héy".chars() {
        session.handle_key(Key::Char(c), 0);
    }
    assert_eq!(session.input(), "héy");
    session.handle_key(Key::Backspace, 0);
    session.handle_key(Key::Backspace, 0);
    assert_eq!(session.input(), "h");
    session.handle_key(Key::Other, 0);
    session.handle_key(Key::Backspace, 0);
    session.handle_key(Key::Backspace, 0);
    assert_eq!(session.input(), "");
    session.handle_key(Key::Char('a'), 0);
    session.handle_key(Key::Esc, 0);
    assert_eq!(session.input(), "");
    assert!(session.running());
    enter(&mut session, &mut store, "/quit", 0);
    assert!(!session.running());
    let mut session = lobby(&mut store, 10);
    session.handle_key(Key::CtrlC, 0);
    assert!(!session.running());
}

#[test]
fn a_message_is_measured_in_bytes_and_normalised_before_it_is_sent() {
    let mut store = Store::new();
    let user = store.add_user("fp-A", "alice");
    let room = store.add_room("lobby", user.id);
    let mut o = opts(10);
    o.msg_max_len = 5;
    let mut session = Session::new(user, room, o, vec![], vec![], 0);
    enter(&mut session, &mut store, "  abcdef  ", 0);
    assert_eq!(session.status(), "message too long");
    assert_eq!(session.input(), "  abcdef  ");
    assert!(store.asked.is_empty());
    assert_eq!(session.tokens_left(0), 10);
    session.handle_key(Key::Esc, 0);
    // three characters, six bytes
    enter(&mut session, &mut store, "äöü", 0);
    assert_eq!(session.status(), "message too long");
    session.handle_key(Key::Esc, 0);
    enter(&mut session, &mut store, " \u{fb01}x\u{7} ", 0);
    assert_eq!(session.status(), "sent");
    assert_eq!(bodies(&session), vec!["fix"]);
    assert_eq!(session.tokens_left(0), 9);
}

#[test]
fn a_store_failure_is_shown_and_leaves_the_session_as_it_was() {
    let mut store = Store::new();
    let mut session = lobby(&mut store, 10);
    for c in "/join dev".chars() {
        session.handle_key(Key::Char(c), 0);
    }
    let request = session.handle_key(Key::Enter, 0);
    assert!(matches!(request, Request::FindRoom { .. }));
    assert!(!session.is_idle());
    // while a reply is awaited, keys and events are ignored
    assert!(matches!(session.handle_key(Key::Char('z'), 0), Request::Nothing));
    assert!(matches!(session.handle_event(Event::Message { id: 1, room_id: 1 }), Request::Nothing));
    assert_eq!(session.input(), "");
    let request = session.handle_reply(Reply::Failed("connection lost".to_string()));
    assert!(matches!(request, Request::Nothing));
    assert!(session.is_idle());
    assert!(session.running());
    assert_eq!(session.status(), "store error: connection lost");
    assert_eq!(session.room().name, "lobby");
    assert_eq!(sidebar(&session), vec![("lobby".to_string(), 0)]);

    enter(&mut session, &mut store, "/nick carol2", 0);
    session.handle_command(bbs_tui::input::Command::Nick("dave".to_string()));
    session.handle_reply(Reply::Failed("timeout".to_string()));
    assert_eq!(session.status(), "nick error: timeout");
    assert_eq!(session.user().handle, "carol2");

    session.handle_command(bbs_tui::input::Command::Rooms);
    session.handle_reply(Reply::MembershipSet);
    assert_eq!(session.status(), "store error: unexpected reply");
    assert!(session.is_idle());
}

#[test]
fn a_room_created_by_someone_else_in_the_meantime_is_joined() {
    let mut store = Store::new();
    let mut session = lobby(&mut store, 10);
    let request = session.handle_command(bbs_tui::input::Command::Join("dev".to_string()));
    let reply = store.perform(request);
    let request = session.handle_reply(reply);
    assert!(matches!(&request, Request::CreateRoom { name, user_id: 1 } if name == "dev"));
    // another client creates the room first
    let bob = store.add_user("fp-B", "bob");
    store.add_room("dev", bob.id);
    settle(&mut session, &mut store, request);
    assert_eq!(session.status(), "joined");
    assert_eq!(session.room().name, "dev");
    assert_eq!(session.room().created_by, bob.id);
    assert_eq!(store.rooms.iter().filter(|r| r.name == "dev").count(), 1);
}

#[test]
fn clock_labels_are_in_utc() {
    assert_eq!(clock_hh_mm(0), "00:00");
    assert_eq!(clock_hh_mm_ss(0), "00:00:00");
    assert_eq!(clock_hh_mm_ss(3_723_000_000), "01:02:03");
    assert_eq!(clock_hh_mm_ss(86_399_999_999), "23:59:59");
    assert_eq!(clock_hh_mm_ss(86_400_000_000), "00:00:00");
    assert_eq!(clock_hh_mm_ss(-1), "23:59:59");
    assert_eq!(clock_hh_mm_ss(-1_000_000), "23:59:59");
    assert_eq!(clock_hh_mm_ss(-1_000_001), "23:59:58");
    assert_eq!(clock_hh_mm(i64::MIN), "19:59");
    assert_eq!(clock_hh_mm(i64::MAX), "04:00");
    // 2026-10-28 22:10:05 UTC
    assert_eq!(clock_hh_mm_ss(1_793_225_405_000_000), "22:10:05");
}
