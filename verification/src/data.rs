//! The records that the store keeps, and the decisions that surround the
//! store's operations: how a unique violation is read, when a room found by
//! name may be entered, how a first handle is made, and the identity
//! resolver's retry logic.
//!
//! Nothing here talks to a store. Times are microseconds since the Unix
//! epoch.

use crate::text::{chars_of, range_is, same_text};
use rand::Rng;
use vstd::prelude::*;

verus! {

#[derive(Debug, Clone)]
pub struct User {
    pub id: i64,
    pub fingerprint_sha256: String,
    pub pubkey_type: String,
    pub handle: String,
    pub created_at: i64,
    pub last_seen_at: i64,
}

#[derive(Debug, Clone)]
pub struct Room {
    pub id: i64,
    pub name: String,
    pub created_by: i64,
    pub is_deleted: bool,
    pub created_at: i64,
    pub deleted_at: Option<i64>,
}

#[derive(Debug, Clone)]
pub struct Message {
    pub id: i64,
    pub room_id: i64,
    pub user_id: i64,
    pub body: String,
    pub created_at: i64,
    pub deleted_at: Option<i64>,
}

/// A message as it is shown: with its author's handle.
#[derive(Debug, Clone)]
pub struct MessageView {
    pub id: i64,
    pub room_id: i64,
    pub user_id: i64,
    pub user_handle: String,
    pub body: String,
    pub created_at: i64,
}

#[derive(Debug, Clone)]
pub struct RoomSummary {
    pub id: i64,
    pub name: String,
}

/// A joined room with the time of the last join.
#[derive(Debug, Clone)]
pub struct JoinedRoom {
    pub id: i64,
    pub name: String,
    pub last_joined_at: i64,
}

#[derive(Debug, Clone)]
pub struct WhoSummary {
    pub id: i64,
    pub handle: String,
}

/// How often the resolver asks the store to insert a user before it gives up.
pub const MAX_HANDLE_TRIES: u32 = 10;

/// What a refused write ran into.
#[derive(Debug, Clone, Copy, PartialEq, Eq)]
pub enum Conflict {
    /// A uniqueness constraint on the fingerprint: the user exists already.
    Fingerprint,
    /// Any other uniqueness constraint: the handle, or the name, is taken.
    Taken,
}

/// Whether `needle` occurs in `hay` as a run of consecutive characters.
pub open spec fn occurs_in(hay: Seq<char>, needle: Seq<char>) -> bool {
    exists|i: int|
        0 <= i <= hay.len() - needle.len() && #[trigger] hay.subrange(i, i + needle.len())
            == needle
}

/// How a store error with this SQLSTATE code and constraint name is read:
/// code `23505` is a unique violation, on the fingerprint if the
/// constraint's name says so; anything else is no conflict.
pub open spec fn conflict_of(code: Option<Seq<char>>, constraint: Option<Seq<char>>) -> Option<
    Conflict,
> {
    if code == Some("23505"@) {
        if constraint.is_some() && occurs_in(constraint.unwrap(), "fingerprint"@) {
            Some(Conflict::Fingerprint)
        } else {
            Some(Conflict::Taken)
        }
    } else {
        None
    }
}

/// Whether `needle` occurs in `hay`.
pub fn contains_text(hay: &str, needle: &str) -> (found: bool)
    ensures
        found == occurs_in(hay@, needle@),
{
    let h = chars_of(hay);
    let n = needle.unicode_len();
    if n > h.len() {
        return false;
    }
    let last = h.len() - n;
    let mut i: usize = 0;
    loop
        invariant
            n == needle@.len(),
            h@ == hay@,
            last == h.len() - n,
            i <= last,
            forall|j: int| 0 <= j < i ==> #[trigger] h@.subrange(j, j + n) != needle@,
        decreases last - i,
    {
        if range_is(&h, i, i + n, needle) {
            return true;
        }
        if i == last {
            return false;
        }
        i += 1;
    }
}

/// Reads a store error by its SQLSTATE code and the name of the constraint
/// it names, if any.
pub fn classify_conflict(code: Option<&str>, constraint: Option<&str>) -> (r: Option<Conflict>)
    ensures
        r == conflict_of(
            match code {
                Some(c) => Some(c@),
                None => None,
            },
            match constraint {
                Some(c) => Some(c@),
                None => None,
            },
        ),
{
    match code {
        Some(c) => {
            if same_text(c, "23505") {
                match constraint {
                    Some(name) => {
                        if contains_text(name, "fingerprint") {
                            Some(Conflict::Fingerprint)
                        } else {
                            Some(Conflict::Taken)
                        }
                    },
                    None => Some(Conflict::Taken),
                }
            } else {
                None
            }
        },
        None => None,
    }
}

/// What to do with the answer to a lookup of a room by name.
#[derive(Debug, Clone)]
pub enum RoomChoice {
    /// The room exists and is live: use it, unchanged.
    Use(Room),
    /// The room exists but was soft-deleted: it cannot be entered again.
    Deleted,
    /// No such room: create it.
    Create,
}

/// A room found by name is used as it is unless it was soft-deleted; a name
/// that finds nothing asks for the room to be created.
pub fn choose_room(found: Option<Room>) -> (c: RoomChoice)
    ensures
        c == match found {
            Some(r) => if r.is_deleted {
                RoomChoice::Deleted
            } else {
                RoomChoice::Use(r)
            },
            None => RoomChoice::Create,
        },
{
    match found {
        Some(r) => {
            if r.is_deleted {
                RoomChoice::Deleted
            } else {
                RoomChoice::Use(r)
            }
        },
        None => RoomChoice::Create,
    }
}

/// The lower-case hexadecimal digit for `d`, which is below sixteen.
pub open spec fn hex_digit(d: u32) -> char {
    if d < 10 {
        (48 + d) as char
    } else {
        (87 + d) as char
    }
}

/// The eight lower-case hexadecimal digits of `n`, most significant first.
pub open spec fn hex8(n: u32) -> Seq<char> {
    seq![
        hex_digit(n / 0x1000_0000 % 16),
        hex_digit(n / 0x100_0000 % 16),
        hex_digit(n / 0x10_0000 % 16),
        hex_digit(n / 0x1_0000 % 16),
        hex_digit(n / 0x1000 % 16),
        hex_digit(n / 0x100 % 16),
        hex_digit(n / 0x10 % 16),
        hex_digit(n % 16),
    ]
}

/// The handle made from the number `n`: `usr-` and the eight hexadecimal
/// digits of `n`.
pub open spec fn handle_text(n: u32) -> Seq<char> {
    "usr-"@ + hex8(n)
}

fn hex_char(d: u32) -> (c: char)
    requires
        d < 16,
    ensures
        c == hex_digit(d),
{
    if d < 10 {
        (48u8 + d as u8) as char
    } else {
        (87u8 + d as u8) as char
    }
}

/// The handle for the number `n`.
pub fn handle_from(n: u32) -> (h: String)
    ensures
        h@ == handle_text(n),
{
    let mut h = String::from_str("usr-");
    h.push(hex_char(n / 0x1000_0000 % 16));
    h.push(hex_char(n / 0x100_0000 % 16));
    h.push(hex_char(n / 0x10_0000 % 16));
    h.push(hex_char(n / 0x1_0000 % 16));
    h.push(hex_char(n / 0x1000 % 16));
    h.push(hex_char(n / 0x100 % 16));
    h.push(hex_char(n / 0x10 % 16));
    h.push(hex_char(n % 16));
    assert(h@ =~= handle_text(n));
    h
}

/// Draws a `u32` from `rand::thread_rng()` with `Rng::gen`. Nothing is
/// claimed of the number. The generator panics if the operating system
/// gives it no seed.
#[verifier::external_body]
fn random_u32() -> u32 {
    rand::thread_rng().gen()
}

/// A candidate handle made from a random number.
pub fn random_handle() -> (h: String)
    ensures
        exists|n: u32| h@ == handle_text(n),
{
    let n = random_u32();
    handle_from(n)
}

/// Where the identity resolver stands.
#[derive(Debug, Clone, Copy, PartialEq, Eq)]
pub enum ResolverPhase {
    /// The lookup by fingerprint is awaited.
    LookingUp,
    /// The user was found; the refresh of its last-seen time is awaited.
    Touching,
    /// The insert of a new user is awaited.
    Inserting,
    /// The resolution is over.
    Finished,
}

/// The identity resolver: given a fingerprint, find its user or create one
/// under a fresh handle, trying again when the handle is taken.
#[derive(Debug, Clone)]
pub struct Resolver {
    pub phase: ResolverPhase,
    /// Inserts that the store has refused so far.
    pub tries: u32,
    /// The user that the lookup found.
    pub found: Option<User>,
}

/// The store's answer to what the resolver asked for.
#[derive(Debug, Clone)]
pub enum ResolverInput {
    /// The lookup by fingerprint found this user, or none.
    Found(Option<User>),
    /// The last-seen time was refreshed.
    Touched,
    /// The insert created this user.
    Inserted(User),
    /// The insert ran into a uniqueness constraint.
    Refused(Conflict),
    /// The store failed otherwise.
    Failed(String),
}

/// What the resolver asks for next, or how it ended.
#[derive(Debug, Clone)]
pub enum ResolverOutput {
    /// Look the user up by fingerprint.
    Lookup,
    /// Refresh the last-seen time of this user.
    Touch { user_id: i64 },
    /// Insert a user with the fingerprint, the key type and this handle.
    Insert { handle: String },
    /// The fingerprint belongs to this user.
    Done(User),
    /// No free handle was found within the bound: a fatal setup error.
    Exhausted,
    /// The store failed: a fatal setup error.
    Failed(String),
    /// The input answers nothing that was asked; nothing changed.
    Unexpected,
}

/// A `ResolverOutput` with each string replaced by its characters.
pub enum ResolverOutputView {
    Lookup,
    Touch { user_id: i64 },
    Insert { handle: Seq<char> },
    Done(User),
    Exhausted,
    Failed(Seq<char>),
    Unexpected,
}

impl View for ResolverOutput {
    type V = ResolverOutputView;

    open spec fn view(&self) -> ResolverOutputView {
        match self {
            ResolverOutput::Lookup => ResolverOutputView::Lookup,
            ResolverOutput::Touch { user_id } => ResolverOutputView::Touch { user_id: *user_id },
            ResolverOutput::Insert { handle } => ResolverOutputView::Insert { handle: handle@ },
            ResolverOutput::Done(u) => ResolverOutputView::Done(*u),
            ResolverOutput::Exhausted => ResolverOutputView::Exhausted,
            ResolverOutput::Failed(e) => ResolverOutputView::Failed(e@),
            ResolverOutput::Unexpected => ResolverOutputView::Unexpected,
        }
    }
}

/// The resolver once it is over.
pub open spec fn finished(r: Resolver) -> Resolver {
    Resolver { phase: ResolverPhase::Finished, ..r }
}

/// One more refused insert, counted up to the bound.
pub open spec fn bumped(tries: u32) -> u32 {
    if tries < MAX_HANDLE_TRIES {
        (tries + 1) as u32
    } else {
        tries
    }
}

/// Another insert under the handle made from `candidate`, or the end of the
/// resolution if the bound is reached.
pub open spec fn insert_or_give_up(r: Resolver, candidate: u32) -> (Resolver, ResolverOutputView) {
    if r.tries < MAX_HANDLE_TRIES {
        (
            Resolver { phase: ResolverPhase::Inserting, ..r },
            ResolverOutputView::Insert { handle: handle_text(candidate) },
        )
    } else {
        (finished(r), ResolverOutputView::Exhausted)
    }
}

/// The resolver's next state and output on `input`, where `candidate` is the
/// number from which a new handle is made if one is needed.
pub open spec fn resolved(r: Resolver, input: ResolverInput, candidate: u32) -> (
    Resolver,
    ResolverOutputView,
) {
    match (r.phase, input) {
        (ResolverPhase::Finished, _) => (r, ResolverOutputView::Unexpected),
        (_, ResolverInput::Failed(e)) => (finished(r), ResolverOutputView::Failed(e@)),
        (ResolverPhase::LookingUp, ResolverInput::Found(Some(u))) => (
            Resolver { phase: ResolverPhase::Touching, found: Some(u), ..r },
            ResolverOutputView::Touch { user_id: u.id },
        ),
        (ResolverPhase::LookingUp, ResolverInput::Found(None)) => insert_or_give_up(r, candidate),
        (ResolverPhase::Touching, ResolverInput::Touched) => match r.found {
            Some(u) => (finished(r), ResolverOutputView::Done(u)),
            None => (r, ResolverOutputView::Unexpected),
        },
        (ResolverPhase::Inserting, ResolverInput::Inserted(u)) => (
            finished(r),
            ResolverOutputView::Done(u),
        ),
        (ResolverPhase::Inserting, ResolverInput::Refused(Conflict::Taken)) => insert_or_give_up(
            Resolver { tries: bumped(r.tries), ..r },
            candidate,
        ),
        (ResolverPhase::Inserting, ResolverInput::Refused(Conflict::Fingerprint)) => (
            Resolver { phase: ResolverPhase::LookingUp, tries: bumped(r.tries), ..r },
            ResolverOutputView::Lookup,
        ),
        _ => (r, ResolverOutputView::Unexpected),
    }
}

impl Resolver {
    /// A resolver that awaits the lookup of its fingerprint.
    pub fn new() -> (r: Resolver)
        ensures
            r == (Resolver { phase: ResolverPhase::LookingUp, tries: 0, found: None }),
    {
        Resolver { phase: ResolverPhase::LookingUp, tries: 0, found: None }
    }

    fn insert_or_give_up(&mut self, candidate: u32) -> (out: ResolverOutput)
        ensures
            (*final(self), out@) == insert_or_give_up(*old(self), candidate),
    {
        if self.tries < MAX_HANDLE_TRIES {
            self.phase = ResolverPhase::Inserting;
            ResolverOutput::Insert { handle: handle_from(candidate) }
        } else {
            self.phase = ResolverPhase::Finished;
            ResolverOutput::Exhausted
        }
    }

    fn bump(&mut self)
        ensures
            *final(self) == (Resolver { tries: bumped(old(self).tries), ..*old(self) }),
    {
        if self.tries < MAX_HANDLE_TRIES {
            self.tries = self.tries + 1;
        }
    }

    /// Takes the store's answer and says what to ask next. A new handle, if
    /// one is needed, is made from `candidate`.
    pub fn step_with(&mut self, input: ResolverInput, candidate: u32) -> (out: ResolverOutput)
        ensures
            (*final(self), out@) == resolved(*old(self), input, candidate),
    {
        match self.phase {
            ResolverPhase::Finished => {
                return ResolverOutput::Unexpected;
            },
            _ => {},
        }
        match input {
            ResolverInput::Failed(e) => {
                self.phase = ResolverPhase::Finished;
                ResolverOutput::Failed(e)
            },
            ResolverInput::Found(found) => match self.phase {
                ResolverPhase::LookingUp => match found {
                    Some(u) => {
                        let user_id = u.id;
                        self.found = Some(u);
                        self.phase = ResolverPhase::Touching;
                        ResolverOutput::Touch { user_id }
                    },
                    None => self.insert_or_give_up(candidate),
                },
                _ => ResolverOutput::Unexpected,
            },
            ResolverInput::Touched => match self.phase {
                ResolverPhase::Touching => match &self.found {
                    Some(u) => {
                        let user = clone_user(u);
                        self.phase = ResolverPhase::Finished;
                        ResolverOutput::Done(user)
                    },
                    None => ResolverOutput::Unexpected,
                },
                _ => ResolverOutput::Unexpected,
            },
            ResolverInput::Inserted(u) => match self.phase {
                ResolverPhase::Inserting => {
                    self.phase = ResolverPhase::Finished;
                    ResolverOutput::Done(u)
                },
                _ => ResolverOutput::Unexpected,
            },
            ResolverInput::Refused(conflict) => match self.phase {
                ResolverPhase::Inserting => match conflict {
                    Conflict::Taken => {
                        self.bump();
                        self.insert_or_give_up(candidate)
                    },
                    Conflict::Fingerprint => {
                        self.bump();
                        self.phase = ResolverPhase::LookingUp;
                        ResolverOutput::Lookup
                    },
                },
                _ => ResolverOutput::Unexpected,
            },
        }
    }

    /// Takes the store's answer and says what to ask next, making a new
    /// handle from a random number if one is needed.
    pub fn step(&mut self, input: ResolverInput) -> (out: ResolverOutput)
        ensures
            exists|candidate: u32| (*final(self), out@) == resolved(*old(self), input, candidate),
    {
        let candidate = random_u32();
        self.step_with(input, candidate)
    }
}

/// A copy of `u`.
pub fn clone_user(u: &User) -> (c: User)
    ensures
        c == *u,
{
    User {
        id: u.id,
        fingerprint_sha256: u.fingerprint_sha256.clone(),
        pubkey_type: u.pubkey_type.clone(),
        handle: u.handle.clone(),
        created_at: u.created_at,
        last_seen_at: u.last_seen_at,
    }
}

/// A copy of `r`.
pub fn clone_room(r: &Room) -> (c: Room)
    ensures
        c == *r,
{
    Room {
        id: r.id,
        name: r.name.clone(),
        created_by: r.created_by,
        is_deleted: r.is_deleted,
        created_at: r.created_at,
        deleted_at: r.deleted_at,
    }
}

/// A copy of `m`.
pub fn clone_message_view(m: &MessageView) -> (c: MessageView)
    ensures
        c == *m,
{
    MessageView {
        id: m.id,
        room_id: m.room_id,
        user_id: m.user_id,
        user_handle: m.user_handle.clone(),
        body: m.body.clone(),
        created_at: m.created_at,
    }
}

/// A resolver that loses the race for its fingerprint does not insert
/// again: it reads the row that the winner wrote, refreshes it, and ends
/// with that user.
pub proof fn lemma_race_loser_adopts_winner(r: Resolver, winner: User, c1: u32, c2: u32, c3: u32)
    requires
        r.phase == ResolverPhase::Inserting,
    ensures
        ({
            let (r1, out1) = resolved(r, ResolverInput::Refused(Conflict::Fingerprint), c1);
            let (r2, out2) = resolved(r1, ResolverInput::Found(Some(winner)), c2);
            let (r3, out3) = resolved(r2, ResolverInput::Touched, c3);
            &&& out1 == ResolverOutputView::Lookup
            &&& out2 == ResolverOutputView::Touch { user_id: winner.id }
            &&& out3 == ResolverOutputView::Done(winner)
            &&& r3.phase == ResolverPhase::Finished
        }),
{
}

/// A user that exists is never inserted again: a lookup that finds the
/// fingerprint leads to that user and to no insert.
pub proof fn lemma_existing_user_is_returned(existing: User, c1: u32, c2: u32)
    ensures
        ({
            let r0 = Resolver { phase: ResolverPhase::LookingUp, tries: 0, found: None };
            let (r1, out1) = resolved(r0, ResolverInput::Found(Some(existing)), c1);
            let (r2, out2) = resolved(r1, ResolverInput::Touched, c2);
            &&& out1 == ResolverOutputView::Touch { user_id: existing.id }
            &&& out2 == ResolverOutputView::Done(existing)
        }),
{
}

/// Every refused insert is counted, an insert is asked for only while fewer
/// than ten were refused, and the tenth refusal for a taken handle ends the
/// resolution.
pub proof fn lemma_inserts_are_bounded(r: Resolver, input: ResolverInput, candidate: u32)
    ensures
        resolved(r, input, candidate).1 is Insert ==> resolved(r, input, candidate).0.tries
            < MAX_HANDLE_TRIES,
        r.phase == ResolverPhase::Inserting && input is Refused && r.tries < MAX_HANDLE_TRIES
            ==> resolved(r, input, candidate).0.tries == r.tries + 1,
        r.phase == ResolverPhase::Inserting && input == ResolverInput::Refused(Conflict::Taken)
            && r.tries + 1 >= MAX_HANDLE_TRIES ==> resolved(r, input, candidate).1
            == ResolverOutputView::Exhausted,
{
}

/// No two rows of a users table share a fingerprint.
pub open spec fn unique_fingerprints(users: Seq<User>) -> bool {
    forall|i: int, j: int|
        0 <= i < j < users.len() ==> (#[trigger] users[i]).fingerprint_sha256@ != (
        #[trigger] users[j]).fingerprint_sha256@
}

/// The position of the first row with this fingerprint, or the number of
/// rows if there is none.
pub open spec fn row_of(users: Seq<User>, fp: Seq<char>) -> int
    decreases users.len(),
{
    if users.len() == 0 || users[0].fingerprint_sha256@ == fp {
        0
    } else {
        1 + row_of(users.drop_first(), fp)
    }
}

/// Whether a row of the table has this handle.
pub open spec fn holds_handle(users: Seq<User>, handle: Seq<char>) -> bool {
    exists|i: int| 0 <= i < users.len() && (#[trigger] users[i]).handle@ == handle
}

/// Whether `u` is a row of the table.
pub open spec fn in_table(users: Seq<User>, u: User) -> bool {
    exists|i: int| 0 <= i < users.len() && #[trigger] users[i] == u
}

/// What a store that keeps fingerprints and handles unique does with a
/// resolver's request for the fingerprint `fp`, and what it answers:
/// a lookup finds the row of the fingerprint; an insert is refused if the
/// fingerprint or the handle is there, and adds the row `created`
/// otherwise. A resolver that is over asks nothing.
pub open spec fn store_answer(
    users: Seq<User>,
    fp: Seq<char>,
    out: ResolverOutputView,
    created: User,
) -> (Seq<User>, Option<ResolverInput>) {
    match out {
        ResolverOutputView::Lookup => (
            users,
            Some(
                ResolverInput::Found(
                    if row_of(users, fp) < users.len() {
                        Some(users[row_of(users, fp)])
                    } else {
                        None
                    },
                ),
            ),
        ),
        ResolverOutputView::Touch { user_id } => (users, Some(ResolverInput::Touched)),
        ResolverOutputView::Insert { handle } => if row_of(users, fp) < users.len() {
            (users, Some(ResolverInput::Refused(Conflict::Fingerprint)))
        } else if holds_handle(users, handle) {
            (users, Some(ResolverInput::Refused(Conflict::Taken)))
        } else {
            (users.push(created), Some(ResolverInput::Inserted(created)))
        },
        _ => (users, None),
    }
}

/// One turn of a race: which resolver moves, the number for its next
/// handle, and the row that the store makes if it inserts.
pub struct Turn {
    pub who: int,
    pub candidate: u32,
    pub created: User,
}

/// A users table and the resolvers that race for one fingerprint, each
/// with the request that it made last.
pub struct Race {
    pub users: Seq<User>,
    pub resolvers: Seq<Resolver>,
    pub asked: Seq<ResolverOutputView>,
}

/// The race after one turn: the store answers the request of the resolver
/// whose turn it is, and the resolver takes its next step.
pub open spec fn after_turn(race: Race, fp: Seq<char>, turn: Turn) -> Race {
    if 0 <= turn.who < race.resolvers.len() && turn.who < race.asked.len() {
        match store_answer(race.users, fp, race.asked[turn.who], turn.created) {
            (users, Some(input)) => {
                let (resolver, out) = resolved(race.resolvers[turn.who], input, turn.candidate);
                Race {
                    users,
                    resolvers: race.resolvers.update(turn.who, resolver),
                    asked: race.asked.update(turn.who, out),
                }
            },
            (_, None) => race,
        }
    } else {
        race
    }
}

/// The race after a sequence of turns.
pub open spec fn after_turns(race: Race, fp: Seq<char>, turns: Seq<Turn>) -> Race
    decreases turns.len(),
{
    if turns.len() == 0 {
        race
    } else {
        after_turn(after_turns(race, fp, turns.drop_last()), fp, turns.last())
    }
}

/// `n` resolvers at their start, each about to look the fingerprint up.
pub open spec fn first_contact(users: Seq<User>, n: nat) -> Race {
    Race {
        users,
        resolvers: Seq::new(
            n,
            |i: int| Resolver { phase: ResolverPhase::LookingUp, tries: 0, found: None },
        ),
        asked: Seq::new(n, |i: int| ResolverOutputView::Lookup),
    }
}

/// What holds throughout a race for `fp`: the table keeps its fingerprints
/// unique, and every user that a resolver holds or has ended with is the
/// table's row for `fp`.
pub open spec fn race_is_sound(race: Race, fp: Seq<char>) -> bool {
    &&& race.resolvers.len() == race.asked.len()
    &&& unique_fingerprints(race.users)
    &&& forall|i: int|
        0 <= i < race.resolvers.len() ==> match (#[trigger] race.resolvers[i]).found {
            Some(u) => in_table(race.users, u) && u.fingerprint_sha256@ == fp,
            None => true,
        }
    &&& forall|i: int|
        0 <= i < race.asked.len() ==> match #[trigger] race.asked[i] {
            ResolverOutputView::Done(u) => in_table(race.users, u) && u.fingerprint_sha256@ == fp,
            _ => true,
        }
}

/// `row_of` is a position in the table or its length; no row before it
/// has the fingerprint, and the row at it has.
proof fn lemma_row_of(users: Seq<User>, fp: Seq<char>)
    ensures
        0 <= row_of(users, fp) <= users.len(),
        forall|i: int| 0 <= i < row_of(users, fp) ==> (#[trigger] users[i]).fingerprint_sha256@ != fp,
        row_of(users, fp) < users.len() ==> users[row_of(users, fp)].fingerprint_sha256@ == fp,
    decreases users.len(),
{
    if users.len() > 0 && users[0].fingerprint_sha256@ != fp {
        let rest = users.drop_first();
        lemma_row_of(rest, fp);
        let k = row_of(users, fp);
        assert forall|i: int| 0 <= i < k implies (#[trigger] users[i]).fingerprint_sha256@ != fp by {
            if i > 0 {
                assert(users[i] == rest[i - 1]);
            }
        }
        if k < users.len() {
            assert(users[k] == rest[k - 1]);
        }
    }
}

/// A turn keeps a race sound, if the row that the store would make has the
/// fingerprint that the race is for.
proof fn lemma_turn_keeps_race_sound(race: Race, fp: Seq<char>, turn: Turn)
    requires
        race_is_sound(race, fp),
        turn.created.fingerprint_sha256@ == fp,
    ensures
        race_is_sound(after_turn(race, fp, turn), fp),
{
    let next = after_turn(race, fp, turn);
    lemma_row_of(race.users, fp);
    if 0 <= turn.who < race.resolvers.len() {
        let asked = race.asked[turn.who];
        let answer = store_answer(race.users, fp, asked, turn.created);
        if answer.1 is Some {
            let input = answer.1->0;
            let before = race.resolvers[turn.who];
            let (resolver, out) = resolved(before, input, turn.candidate);
            assert forall|u: User| in_table(race.users, u) implies in_table(next.users, u) by {
                let k = choose|k: int| 0 <= k < race.users.len() && #[trigger] race.users[k] == u;
                assert(next.users[k] == u);
            }
            if next.users.len() > race.users.len() {
                assert(next.users == race.users.push(turn.created));
                assert(next.users[race.users.len() as int] == turn.created);
                assert forall|i: int, j: int| 0 <= i < j < next.users.len() implies (
                #[trigger] next.users[i]).fingerprint_sha256@ != (
                #[trigger] next.users[j]).fingerprint_sha256@ by {
                    if j == race.users.len() {
                        assert(race.users[i].fingerprint_sha256@ != fp);
                    }
                }
            }
            match race.resolvers[turn.who].found {
                Some(u) => {
                    assert(in_table(race.users, u));
                },
                None => {},
            }
            if row_of(race.users, fp) < race.users.len() {
                assert(in_table(race.users, race.users[row_of(race.users, fp)]));
            }
            assert forall|i: int| 0 <= i < next.resolvers.len() implies match (
            #[trigger] next.resolvers[i]).found {
                Some(u) => in_table(next.users, u) && u.fingerprint_sha256@ == fp,
                None => true,
            } by {
                if i != turn.who {
                    assert(next.resolvers[i] == race.resolvers[i]);
                }
            }
            assert forall|i: int| 0 <= i < next.asked.len() implies match #[trigger] next.asked[i] {
                ResolverOutputView::Done(u) => in_table(next.users, u) && u.fingerprint_sha256@
                    == fp,
                _ => true,
            } by {
                if i != turn.who {
                    assert(next.asked[i] == race.asked[i]);
                }
            }
        }
    }
}

/// However the steps of any number of resolvers for one fingerprint are
/// interleaved, against a store that keeps fingerprints unique: the table
/// never holds two rows for the fingerprint, every resolver that ends
/// with a user ends with the table's row for the fingerprint, and so all
/// of them end with the same user.
pub proof fn lemma_first_contacts_share_one_user(
    users: Seq<User>,
    fp: Seq<char>,
    n: nat,
    turns: Seq<Turn>,
)
    requires
        unique_fingerprints(users),
        forall|k: int| 0 <= k < turns.len() ==> (#[trigger] turns[k]).created.fingerprint_sha256@ == fp,
    ensures
        race_is_sound(after_turns(first_contact(users, n), fp, turns), fp),
        ({
            let race = after_turns(first_contact(users, n), fp, turns);
            forall|i: int, j: int|
                0 <= i < race.asked.len() && 0 <= j < race.asked.len() && (
                #[trigger] race.asked[i]) is Done && (#[trigger] race.asked[j]) is Done
                    ==> race.asked[i] == race.asked[j]
        }),
    decreases turns.len(),
{
    let race = after_turns(first_contact(users, n), fp, turns);
    if turns.len() > 0 {
        let earlier = turns.drop_last();
        assert forall|k: int| 0 <= k < earlier.len() implies (
        #[trigger] earlier[k]).created.fingerprint_sha256@ == fp by {
            assert(earlier[k] == turns[k]);
        }
        lemma_first_contacts_share_one_user(users, fp, n, earlier);
        lemma_turn_keeps_race_sound(after_turns(first_contact(users, n), fp, earlier), fp, turns.last());
    }
    assert forall|i: int, j: int|
        0 <= i < race.asked.len() && 0 <= j < race.asked.len() && (#[trigger] race.asked[i]) is Done
            && (#[trigger] race.asked[j]) is Done implies race.asked[i] == race.asked[j] by {
        let u = race.asked[i]->Done_0;
        let v = race.asked[j]->Done_0;
        assert(in_table(race.users, u) && in_table(race.users, v));
        let a = choose|a: int| 0 <= a < race.users.len() && #[trigger] race.users[a] == u;
        let b = choose|b: int| 0 <= b < race.users.len() && #[trigger] race.users[b] == v;
        if a < b {
            assert(race.users[a].fingerprint_sha256@ != race.users[b].fingerprint_sha256@);
        } else if b < a {
            assert(race.users[b].fingerprint_sha256@ != race.users[a].fingerprint_sha256@);
        }
    }
}

} // verus!
