//! The room session: the relay actor that runs one room from creation to
//! teardown.
//!
//! The session owns the room's state — name, capacity, whether it accepts
//! players, the set of member ids, and the room code once one is reserved.
//! The event loop that multiplexes the host socket and the room's inbound
//! channel lives with the caller; it hands every event to [`step`], which
//! mutates the state and returns the list of [`Effect`]s the caller must
//! apply to the sockets it owns, together with whether the room goes on
//! running. Commands are processed strictly one at a time, so every `State`
//! snapshot reflects a consistent view of the room.

use vstd::prelude::*;

use crate::codes::{gen_room_code, is_code};
use crate::comm::{Command, HostComm};
use crate::registry::Registry;

verus! {

/// An event a room session consumes: something from the room's inbound
/// channel, a decoded command from the host socket, a malformed host frame,
/// or the host socket closing or failing.
#[derive(Debug, PartialEq, Eq)]
pub enum RoomEvent {
    Channel(HostComm),
    Host(Command),
    HostInvalid,
    HostGone,
}

/// An opaque payload on its way to a player, in the encoding the host chose.
#[derive(Debug, PartialEq, Eq)]
pub enum Payload {
    Binary(Vec<u8>),
    Text(String),
}

/// One action the caller must apply to the sockets it owns, in list order:
/// encode and send a command to the host, write a payload to one member,
/// close the socket offered by a rejected join, close a removed member's
/// socket, or close the host socket with a going-away notice.
#[derive(Debug, PartialEq, Eq)]
pub enum Effect {
    ToHost(Command),
    ToPlayer { id: u32, payload: Payload },
    RejectJoin { id: u32 },
    ClosePlayer { id: u32 },
    CloseHost,
}

/// The state of one room. Only its own session task ever mutates it, so no
/// lock guards it; the registry is the only state shared across rooms.
pub struct RoomSession {
    /// Game-supplied label, empty until the room is prepared.
    pub name: String,
    /// Upper bound on membership, zero until the room is prepared.
    pub max_players: u32,
    /// Whether new players are admitted: false before the room is prepared
    /// and permanently false once `Start` is processed.
    pub accepting: bool,
    /// Server-assigned ids of the current members, in admission order.
    pub members: Vec<u32>,
    /// The reserved room code, assigned at most once.
    pub code: Option<String>,
    /// The token under which the room's inbound channel is registered.
    pub handle: u64,
}

/// No id occurs twice.
pub open spec fn unique_ids(s: Seq<u32>) -> bool {
    forall|i: int, j: int| 0 <= i < j < s.len() ==> s[i] != s[j]
}

impl RoomSession {
    /// The room code as a character sequence, if one is assigned.
    pub open spec fn code_view(self) -> Option<Seq<char>> {
        match self.code {
            Some(c) => Some(c@),
            None => None,
        }
    }

    /// Session invariant: member ids are unique and within capacity, an
    /// assigned code is four uppercase letters, and before a code exists the
    /// room has no members and admits none.
    pub open spec fn wf(self) -> bool {
        &&& unique_ids(self.members@)
        &&& self.members@.len() <= self.max_players
        &&& (self.code matches Some(c) ==> is_code(c@))
        &&& (self.code is None ==> self.members@.len() == 0 && !self.accepting)
    }

    /// Whether a join request would be admitted right now.
    pub open spec fn admits(self, id: u32) -> bool {
        self.accepting && self.members@.len() < self.max_players && !self.members@.contains(id)
    }

    /// Name, capacity, code and handle unchanged between two states.
    pub open spec fn same_shape(self, pre: RoomSession) -> bool {
        &&& self.name@ == pre.name@
        &&& self.max_players == pre.max_players
        &&& self.code_view() == pre.code_view()
        &&& self.handle == pre.handle
    }

    /// `same_shape` and the admission flag unchanged as well.
    pub open spec fn same_config(self, pre: RoomSession) -> bool {
        self.same_shape(pre) && self.accepting == pre.accepting
    }

    /// Everything unchanged.
    pub open spec fn same_state(self, pre: RoomSession) -> bool {
        self.same_config(pre) && self.members@ == pre.members@
    }

    /// A new session for a room that is not yet prepared: nameless, zero
    /// capacity, not accepting, no members, no code.
    pub fn new(handle: u64) -> (s: RoomSession)
        ensures
            s.wf(),
            s.members@.len() == 0,
            !s.accepting,
            s.code is None,
            s.name@ == Seq::<char>::empty(),
            s.max_players == 0,
            s.handle == handle,
    {
        RoomSession {
            name: String::new(),
            max_players: 0,
            accepting: false,
            members: Vec::new(),
            code: None,
            handle,
        }
    }

    /// The full membership snapshot sent to the host after every change.
    /// Its `accept_conns` field reports whether a join would be admitted:
    /// the flag and the capacity check together, not the raw flag.
    pub fn to_state(&self) -> (c: Command)
        ensures
            is_snapshot(c, *self),
    {
        let players = copy_ids(&self.members);
        let accept_connections = self.accepting && self.members.len() < (self.max_players as usize);
        Command::State {
            name: self.name.clone(),
            players,
            max_players: self.max_players,
            accept_conns: accept_connections,
        }
    }
}

/// `c` is the membership snapshot of state `s`.
pub open spec fn is_snapshot(c: Command, s: RoomSession) -> bool {
    &&& c matches Command::State { name, players, max_players, accept_conns }
    &&& name@ == s.name@
    &&& players@ == s.members@
    &&& max_players == s.max_players
    &&& accept_conns == (s.accepting && s.members@.len() < s.max_players)
}

/// `e` sends the membership snapshot of state `s` to the host.
pub open spec fn is_snapshot_effect(e: Effect, s: RoomSession) -> bool {
    e matches Effect::ToHost(c) && is_snapshot(c, s)
}

/// `e` reports an error with this reason to the host.
pub open spec fn is_error_effect(e: Effect, why: Seq<char>) -> bool {
    e matches Effect::ToHost(c) && (c matches Command::Error { reason } && reason@ == why)
}

/// A join either admits the player and appends its id, or rejects the
/// offered connection; either way the host gets a fresh snapshot.
pub open spec fn join_step(pre: RoomSession, post: RoomSession, id: u32, eff: Seq<Effect>) -> bool {
    &&& post.same_config(pre)
    &&& if pre.admits(id) {
        &&& post.members@ == pre.members@.push(id)
        &&& eff.len() == 1
        &&& is_snapshot_effect(eff[0], post)
    } else {
        &&& post.members@ == pre.members@
        &&& eff.len() == 2
        &&& eff[0] == (Effect::RejectJoin { id: id })
        &&& is_snapshot_effect(eff[1], post)
    }
}

/// A departure removes the id if present and snapshots; the departed socket
/// is already gone, so nothing is closed.
pub open spec fn leave_step(pre: RoomSession, post: RoomSession, id: u32, eff: Seq<Effect>) -> bool {
    &&& post.same_config(pre)
    &&& post.members@ == pre.members@.remove_value(id)
    &&& eff.len() == 1
    &&& is_snapshot_effect(eff[0], post)
}

/// A kick removes the id if present, closing that member's socket; absent or
/// not, the host gets a fresh snapshot.
pub open spec fn kick_step(pre: RoomSession, post: RoomSession, id: u32, eff: Seq<Effect>) -> bool {
    &&& post.same_config(pre)
    &&& post.members@ == pre.members@.remove_value(id)
    &&& if pre.members@.contains(id) {
        &&& eff.len() == 2
        &&& eff[0] == (Effect::ClosePlayer { id: id })
        &&& is_snapshot_effect(eff[1], post)
    } else {
        &&& eff.len() == 1
        &&& is_snapshot_effect(eff[0], post)
    }
}

/// `Start` turns admission off — idempotently: sending it again leaves the
/// flag off and raises no error — and snapshots.
pub open spec fn start_step(pre: RoomSession, post: RoomSession, eff: Seq<Effect>) -> bool {
    &&& post.same_shape(pre)
    &&& !post.accepting
    &&& post.members@ == pre.members@
    &&& eff.len() == 1
    &&& is_snapshot_effect(eff[0], post)
}

/// A command a player's adapter forwarded is re-emitted to the host
/// verbatim; the room state does not change.
pub open spec fn forward_step(pre: RoomSession, post: RoomSession, cmd: Command, eff: Seq<
    Effect,
>) -> bool {
    &&& post.same_state(pre)
    &&& eff.len() == 1
    &&& eff[0] == Effect::ToHost(cmd)
}

/// Copy a member id list.
fn copy_ids(v: &Vec<u32>) -> (r: Vec<u32>)
    ensures
        r@ == v@,
{
    let mut r: Vec<u32> = Vec::new();
    let mut i: usize = 0;
    while i < v.len()
        invariant
            i <= v@.len(),
            r@ == v@.take(i as int),
        decreases v@.len() - i,
    {
        r.push(v[i]);
        proof {
            assert(r@ =~= v@.take(i + 1 as int));
        }
        i = i + 1;
    }
    proof {
        assert(r@ =~= v@);
    }
    r
}

/// Whether an id is in a member list.
fn contains_id(v: &Vec<u32>, id: u32) -> (found: bool)
    ensures
        found == v@.contains(id),
{
    let mut i: usize = 0;
    while i < v.len()
        invariant
            i <= v@.len(),
            forall|k: int| 0 <= k < i ==> v@[k] != id,
        decreases v@.len() - i,
    {
        if v[i] == id {
            assert(v@[i as int] == id);
            return true;
        }
        i = i + 1;
    }
    false
}

/// Remove the first occurrence of an id from a member list, reporting
/// whether it was there.
fn remove_id(v: &mut Vec<u32>, id: u32) -> (was: bool)
    ensures
        was == old(v)@.contains(id),
        final(v)@ == old(v)@.remove_value(id),
{
    let ghost orig = v@;
    let mut i: usize = 0;
    while i < v.len()
        invariant
            orig == old(v)@,
            v@ == orig,
            i <= orig.len(),
            forall|k: int| 0 <= k < i ==> orig[k] != id,
        decreases orig.len() - i,
    {
        if v[i] == id {
            v.remove(i);
            proof {
                orig.index_of_first_ensures(id);
                assert(orig.contains(id));
                let fi = orig.index_of_first(id)->0;
                assert(orig[fi] == id);
                assert(fi == i as int);
            }
            return true;
        }
        i = i + 1;
    }
    proof {
        orig.index_of_first_ensures(id);
    }
    false
}

impl RoomSession {
    /// Admit or reject one joining player. The offered connection is
    /// admitted exactly when the room is accepting and below capacity (a
    /// join can never raise membership past `max_players` or while admission
    /// is off); otherwise the offered socket is closed.
    pub fn apply_join(&mut self, id: u32) -> (eff: Vec<Effect>)
        requires
            old(self).wf(),
        ensures
            final(self).wf(),
            join_step(*old(self), *final(self), id, eff@),
    {
        let admitted = self.accepting && self.members.len() < (self.max_players as usize)
            && !contains_id(&self.members, id);
        let mut eff: Vec<Effect> = Vec::new();
        if admitted {
            self.members.push(id);
            proof {
                assert forall|i: int, j: int|
                    0 <= i < j < self.members@.len() implies self.members@[i]
                    != self.members@[j] by {
                    if j == self.members@.len() - 1 {
                        assert(!old(self).members@.contains(self.members@[j]));
                    }
                }
            }
        } else {
            eff.push(Effect::RejectJoin { id });
        }
        eff.push(Effect::ToHost(self.to_state()));
        eff
    }

    /// Process one player's departure: drop the id if present, snapshot.
    pub fn apply_leave(&mut self, id: u32) -> (eff: Vec<Effect>)
        requires
            old(self).wf(),
        ensures
            final(self).wf(),
            leave_step(*old(self), *final(self), id, eff@),
    {
        remove_id(&mut self.members, id);
        proof {
            lemma_remove_value_unique(old(self).members@, id);
        }
        let mut eff: Vec<Effect> = Vec::new();
        eff.push(Effect::ToHost(self.to_state()));
        eff
    }

    /// Force-remove a player at the host's request. Kicking an id that is
    /// not a member is a no-op that still broadcasts a snapshot.
    pub fn apply_kick(&mut self, player: u32) -> (eff: Vec<Effect>)
        requires
            old(self).wf(),
        ensures
            final(self).wf(),
            kick_step(*old(self), *final(self), player, eff@),
    {
        let was = remove_id(&mut self.members, player);
        proof {
            lemma_remove_value_unique(old(self).members@, player);
        }
        let mut eff: Vec<Effect> = Vec::new();
        if was {
            eff.push(Effect::ClosePlayer { id: player });
        }
        eff.push(Effect::ToHost(self.to_state()));
        eff
    }

    /// Stop accepting new players. Under the session invariant membership
    /// never exceeds capacity, so the flag always ends up off; a second
    /// `Start` changes nothing and raises no error.
    pub fn apply_start(&mut self) -> (eff: Vec<Effect>)
        requires
            old(self).wf(),
        ensures
            final(self).wf(),
            start_step(*old(self), *final(self), eff@),
    {
        if self.members.len() <= (self.max_players as usize) {
            self.accepting = false;
        }
        let mut eff: Vec<Effect> = Vec::new();
        eff.push(Effect::ToHost(self.to_state()));
        eff
    }

    /// Re-emit a command forwarded from a player to the host, verbatim. The
    /// adapter already stamped the sender id; the session neither interprets
    /// nor re-derives it.
    pub fn apply_forward(&mut self, cmd: Command) -> (eff: Vec<Effect>)
        requires
            old(self).wf(),
        ensures
            final(self).wf(),
            forward_step(*old(self), *final(self), cmd, eff@),
    {
        let mut eff: Vec<Effect> = Vec::new();
        eff.push(Effect::ToHost(cmd));
        eff
    }
}

/// The candidate code strings as character sequences.
pub open spec fn code_views(cands: Seq<String>) -> Seq<Seq<char>> {
    cands.map_values(|s: String| s@)
}

/// The sublist of `dest` whose ids are members, in order.
pub open spec fn members_among(dest: Seq<u32>, members: Seq<u32>) -> Seq<u32>
    decreases dest.len(),
{
    if dest.len() == 0 {
        Seq::empty()
    } else {
        let rest = members_among(dest.drop_last(), members);
        if members.contains(dest.last()) {
            rest.push(dest.last())
        } else {
            rest
        }
    }
}

/// The ids a host payload directive reaches: an empty list addresses every
/// current member, any other list the listed ids that are members, in list
/// order; unknown ids are silently skipped.
pub open spec fn resolved(dest: Seq<u32>, members: Seq<u32>) -> Seq<u32> {
    if dest.len() == 0 {
        members
    } else {
        members_among(dest, members)
    }
}

/// Two payloads carry the same content.
pub open spec fn payload_eq(a: Payload, b: Payload) -> bool {
    match (a, b) {
        (Payload::Binary(x), Payload::Binary(y)) => x@ == y@,
        (Payload::Text(x), Payload::Text(y)) => x@ == y@,
        (_, _) => false,
    }
}

/// `e` writes this payload to this member.
pub open spec fn is_delivery(e: Effect, id: u32, payload: Payload) -> bool {
    &&& e matches Effect::ToPlayer { id: to, payload: p }
    &&& to == id
    &&& payload_eq(payload, p)
}

/// A `To`/`ToStr` directive delivers the payload to each resolved member in
/// order and to no one else; the room state does not change.
pub open spec fn to_step(
    pre: RoomSession,
    post: RoomSession,
    dest: Seq<u32>,
    payload: Payload,
    eff: Seq<Effect>,
) -> bool {
    &&& post.same_state(pre)
    &&& eff.len() == resolved(dest, pre.members@).len()
    &&& forall|k: int|
        0 <= k < eff.len() ==> is_delivery(
            #[trigger] eff[k],
            resolved(dest, pre.members@)[k],
            payload,
        )
}

/// Re-sending `Prepare` once a code exists is an idempotent re-query: the
/// assigned code is re-sent and nothing changes.
pub open spec fn prepare_requery_step(pre: RoomSession, post: RoomSession, eff: Seq<
    Effect,
>) -> bool {
    &&& post.same_state(pre)
    &&& eff.len() == 1
    &&& (eff[0] matches Effect::ToHost(c) && (c matches Command::PrepareReply { key } && Some(key@)
        == pre.code_view()))
}

/// A first `Prepare` that found a reservable code: the room takes its name
/// and capacity, opens admission, assigns the code, registers itself, and
/// replies with the code and a fresh snapshot.
pub open spec fn prepare_success_step(
    pre: RoomSession,
    post: RoomSession,
    rpre: Registry,
    rpost: Registry,
    max_players: u32,
    name: Seq<char>,
    code: Seq<char>,
    eff: Seq<Effect>,
) -> bool {
    &&& is_code(code)
    &&& !rpre.has_code(code)
    &&& post.name@ == name
    &&& post.max_players == max_players
    &&& post.accepting
    &&& post.members@ == pre.members@
    &&& post.code_view() == Some(code)
    &&& post.handle == pre.handle
    &&& rpost.has_code(code)
    &&& rpost.name_of(code) == name
    &&& rpost.handle_of(code) == pre.handle
    &&& forall|other: Seq<char>| other != code ==> rpost.has_code(other) == rpre.has_code(other)
    &&& forall|other: Seq<char>|
        other != code && rpre.has_code(other) ==> rpost.entry_for(other) == rpre.entry_for(other)
    &&& eff.len() == 2
    &&& (eff[0] matches Effect::ToHost(c) && (c matches Command::PrepareReply { key } && key@
        == code))
    &&& is_snapshot_effect(eff[1], post)
}

/// A first `Prepare` with every candidate code taken: the host learns of
/// the failure, the room is never registered, and the session ends.
pub open spec fn prepare_failure_step(
    pre: RoomSession,
    post: RoomSession,
    rpre: Registry,
    rpost: Registry,
    eff: Seq<Effect>,
) -> bool {
    &&& post.same_state(pre)
    &&& rpost.entries@ == rpre.entries@
    &&& eff.len() == 2
    &&& is_error_effect(eff[0], "Failed to find a unique room key"@)
    &&& eff[1] == Effect::CloseHost
}

/// Teardown: the host socket and every member socket are closed, membership
/// empties, and the room's code — if one was assigned — leaves the registry.
pub open spec fn stop_step(
    pre: RoomSession,
    post: RoomSession,
    rpre: Registry,
    rpost: Registry,
    eff: Seq<Effect>,
) -> bool {
    &&& post.same_config(pre)
    &&& post.members@.len() == 0
    &&& eff.len() == 1 + pre.members@.len()
    &&& eff[0] == Effect::CloseHost
    &&& forall|k: int|
        1 <= k < eff.len() ==> eff[k] == (Effect::ClosePlayer { id: pre.members@[k - 1] })
    &&& match pre.code_view() {
        Some(code) => {
            &&& !rpost.has_code(code)
            &&& forall|other: Seq<char>|
                other != code ==> rpost.has_code(other) == rpre.has_code(other)
            &&& forall|other: Seq<char>|
                other != code && rpre.has_code(other) ==> rpost.entry_for(other)
                    == rpre.entry_for(other)
        },
        None => rpost.entries@ == rpre.entries@,
    }
}

/// A command from the host in a server-to-peer direction (`From`,
/// `FromStr`, `State`, `PrepareReply`, `Error`) is a protocol violation:
/// the host is told so and nothing else happens.
pub open spec fn unhandled_step(pre: RoomSession, post: RoomSession, eff: Seq<Effect>) -> bool {
    &&& post.same_state(pre)
    &&& eff.len() == 1
    &&& is_error_effect(eff[0], "Unhandled message"@)
}

/// A malformed host frame draws an error reply; the room keeps running.
pub open spec fn invalid_step(pre: RoomSession, post: RoomSession, eff: Seq<Effect>) -> bool {
    &&& post.same_state(pre)
    &&& eff.len() == 1
    &&& is_error_effect(eff[0], "Invalid message."@)
}

/// The registry kept exactly its entries.
pub open spec fn registry_unchanged(rpre: Registry, rpost: Registry) -> bool {
    rpost.entries@ == rpre.entries@
}

/// Removing a value from a duplicate-free sequence removes every occurrence
/// of it and keeps everything else.
pub proof fn lemma_remove_value_unique(s: Seq<u32>, id: u32)
    requires
        unique_ids(s),
    ensures
        unique_ids(s.remove_value(id)),
        !s.remove_value(id).contains(id),
        forall|x: u32| x != id ==> s.remove_value(id).contains(x) == s.contains(x),
        s.contains(id) ==> s.remove_value(id).len() == s.len() - 1,
        !s.contains(id) ==> s.remove_value(id) == s,
{
    s.index_of_first_ensures(id);
    if s.contains(id) {
        let fi = s.index_of_first(id)->0;
        s.remove_ensures(fi);
        let r = s.remove(fi);
        assert forall|i: int, j: int| 0 <= i < j < r.len() implies r[i] != r[j] by {
            let i2 = if i < fi {
                i
            } else {
                i + 1
            };
            let j2 = if j < fi {
                j
            } else {
                j + 1
            };
            assert(r[i] == s[i2] && r[j] == s[j2]);
        }
        assert forall|k: int| 0 <= k < r.len() implies r[k] != id by {
            let k2 = if k < fi {
                k
            } else {
                k + 1
            };
            assert(r[k] == s[k2]);
        }
        assert forall|x: u32| x != id && s.contains(x) implies r.contains(x) by {
            let k = choose|k: int| 0 <= k < s.len() && s[k] == x;
            let k2 = if k < fi {
                k
            } else {
                k - 1
            };
            assert(r[k2] == s[k]);
        }
        assert forall|x: u32| x != id && r.contains(x) implies s.contains(x) by {
            let k = choose|k: int| 0 <= k < r.len() && r[k] == x;
            let k2 = if k < fi {
                k
            } else {
                k + 1
            };
            assert(r[k] == s[k2]);
        }
    }
}

/// Copy a byte payload.
fn copy_bytes(v: &Vec<u8>) -> (r: Vec<u8>)
    ensures
        r@ == v@,
{
    let mut r: Vec<u8> = Vec::new();
    let mut i: usize = 0;
    while i < v.len()
        invariant
            i <= v@.len(),
            r@ == v@.take(i as int),
        decreases v@.len() - i,
    {
        r.push(v[i]);
        proof {
            assert(r@ =~= v@.take(i + 1 as int));
        }
        i = i + 1;
    }
    proof {
        assert(r@ =~= v@);
    }
    r
}

/// Copy a payload for one more recipient.
fn clone_payload(p: &Payload) -> (r: Payload)
    ensures
        payload_eq(*p, r),
{
    match p {
        Payload::Binary(d) => Payload::Binary(copy_bytes(d)),
        Payload::Text(s) => Payload::Text(s.clone()),
    }
}

/// There is at most one first reservable candidate.
proof fn lemma_first_free_unique(cands: Seq<Seq<char>>, reg: Registry, i: int, j: int)
    requires
        is_first_free(cands, reg, i),
        is_first_free(cands, reg, j),
    ensures
        i == j,
{
}

/// Index of the first candidate code the registry does not hold.
pub open spec fn is_first_free(cands: Seq<Seq<char>>, reg: Registry, i: int) -> bool {
    &&& 0 <= i < cands.len()
    &&& !reg.has_code(cands[i])
    &&& forall|j: int| 0 <= j < i ==> reg.has_code(cands[j])
}

impl RoomSession {
    /// Deliver one host payload directive: resolve the destination list —
    /// empty means every current member — and emit one write per resolved
    /// member, skipping ids that are not members.
    pub fn apply_to(&self, to: &Vec<u32>, payload: &Payload) -> (eff: Vec<Effect>)
        ensures
            to_step(*self, *self, to@, *payload, eff@),
    {
        let mut eff: Vec<Effect> = Vec::new();
        if to.len() == 0 {
            let mut i: usize = 0;
            while i < self.members.len()
                invariant
                    i <= self.members@.len(),
                    eff@.len() == i,
                    forall|k: int|
                        0 <= k < i ==> is_delivery(#[trigger] eff@[k], self.members@[k], *payload),
                decreases self.members@.len() - i,
            {
                eff.push(
                    Effect::ToPlayer { id: self.members[i], payload: clone_payload(payload) },
                );
                i = i + 1;
            }
        } else {
            let mut i: usize = 0;
            while i < to.len()
                invariant
                    i <= to@.len(),
                    eff@.len() == members_among(to@.take(i as int), self.members@).len(),
                    forall|k: int|
                        0 <= k < eff@.len() ==> is_delivery(
                            #[trigger] eff@[k],
                            members_among(to@.take(i as int), self.members@)[k],
                            *payload,
                        ),
                decreases to@.len() - i,
            {
                let ghost before = members_among(to@.take(i as int), self.members@);
                proof {
                    assert(to@.take(i + 1 as int).drop_last() =~= to@.take(i as int));
                    assert(to@.take(i + 1 as int).last() == to@[i as int]);
                }
                if contains_id(&self.members, to[i]) {
                    eff.push(Effect::ToPlayer { id: to[i], payload: clone_payload(payload) });
                    proof {
                        assert(members_among(to@.take(i + 1 as int), self.members@) == before.push(
                            to@[i as int],
                        ));
                    }
                } else {
                    proof {
                        assert(members_among(to@.take(i + 1 as int), self.members@) == before);
                    }
                }
                i = i + 1;
            }
            proof {
                assert(to@.take(to@.len() as int) =~= to@);
            }
        }
        eff
    }

    /// Process `Prepare`. The first time — before a code exists — the room
    /// takes its name and capacity, opens admission, and reserves the first
    /// of the candidate codes that the registry does not yet hold; with no
    /// reservable candidate the host gets an error and the session ends,
    /// never having been registered. Once a code exists, `Prepare` is an
    /// idempotent re-query answered with the assigned code.
    pub fn apply_prepare(
        &mut self,
        reg: &mut Registry,
        max_players: u32,
        name: String,
        candidates: &Vec<String>,
    ) -> (r: (Vec<Effect>, bool))
        requires
            old(self).wf(),
            old(reg).wf(),
            forall|i: int| 0 <= i < candidates@.len() ==> is_code(#[trigger] candidates@[i]@),
        ensures
            final(self).wf(),
            final(reg).wf(),
            old(self).code is Some ==> prepare_requery_step(*old(self), *final(self), r.0@)
                && registry_unchanged(*old(reg), *final(reg)) && r.1,
            old(self).code is None ==> {
                let cands = code_views(candidates@);
                &&& (exists|i: int| is_first_free(cands, *old(reg), i)) ==> prepare_success_step(
                    *old(self),
                    *final(self),
                    *old(reg),
                    *final(reg),
                    max_players,
                    name@,
                    cands[choose|i: int| is_first_free(cands, *old(reg), i)],
                    r.0@,
                ) && r.1
                &&& (forall|i: int| !is_first_free(cands, *old(reg), i)) ==> prepare_failure_step(
                    *old(self),
                    *final(self),
                    *old(reg),
                    *final(reg),
                    r.0@,
                ) && !r.1
            },
    {
        let mut eff: Vec<Effect> = Vec::new();
        let has_room_code = match &self.code {
            Some(_) => true,
            None => false,
        };
        if has_room_code {
            let key = match &self.code {
                Some(room) => room.clone(),
                None => String::new(),
            };
            eff.push(Effect::ToHost(Command::PrepareReply { key }));
            return (eff, true);
        }
        let ghost cands = code_views(candidates@);
        let mut found: bool = false;
        let mut idx: usize = 0;
        let mut i: usize = 0;
        while i < candidates.len()
            invariant
                old(reg).wf(),
                reg.entries@ == old(reg).entries@,
                cands == code_views(candidates@),
                i <= candidates@.len(),
                found ==> idx < i && is_first_free(cands, *old(reg), idx as int),
                !found ==> forall|j: int| 0 <= j < i ==> old(reg).has_code(cands[j]),
            decreases candidates@.len() - i,
        {
            proof {
                assert(cands[i as int] == candidates@[i as int]@);
            }
            if !found && !reg.contains(&candidates[i]) {
                found = true;
                idx = i;
            }
            i = i + 1;
        }
        if found {
            let code = candidates[idx].clone();
            let key = code.clone();
            self.code = Some(code.clone());
            self.name = name;
            self.max_players = max_players;
            self.accepting = true;
            let ok = reg.reserve(code, self.name.clone(), self.handle);
            proof {
                assert(cands[idx as int] == candidates@[idx as int]@);
                lemma_first_free_unique(
                    cands,
                    *old(reg),
                    idx as int,
                    choose|i: int| is_first_free(cands, *old(reg), i),
                );
            }
            eff.push(Effect::ToHost(Command::PrepareReply { key }));
            eff.push(Effect::ToHost(self.to_state()));
            (eff, true)
        } else {
            eff.push(
                Effect::ToHost(
                    Command::Error { reason: "Failed to find a unique room key".to_owned() },
                ),
            );
            eff.push(Effect::CloseHost);
            proof {
                assert forall|i2: int| !is_first_free(cands, *old(reg), i2) by {}
            }
            (eff, false)
        }
    }

    /// Tear the room down: close the host socket, close every member's
    /// socket, empty the membership, and drop the room's registry entry if a
    /// code was ever assigned.
    pub fn apply_stop(&mut self, reg: &mut Registry) -> (eff: Vec<Effect>)
        requires
            old(self).wf(),
            old(reg).wf(),
        ensures
            final(self).wf(),
            final(reg).wf(),
            stop_step(*old(self), *final(self), *old(reg), *final(reg), eff@),
    {
        let mut eff: Vec<Effect> = Vec::new();
        eff.push(Effect::CloseHost);
        let mut i: usize = 0;
        while i < self.members.len()
            invariant
                *self == *old(self),
                i <= self.members@.len(),
                eff@.len() == 1 + i,
                eff@[0] == Effect::CloseHost,
                forall|k: int|
                    1 <= k < eff@.len() ==> eff@[k] == (Effect::ClosePlayer {
                        id: old(self).members@[k - 1],
                    }),
            decreases self.members@.len() - i,
        {
            eff.push(Effect::ClosePlayer { id: self.members[i] });
            i = i + 1;
        }
        self.members = Vec::new();
        match &self.code {
            Some(code) => {
                reg.remove(code);
            },
            None => {},
        }
        eff
    }
}

/// What one host command does to the room, to the registry, to the sockets,
/// and to whether the room keeps running.
pub open spec fn host_command_step(
    pre: RoomSession,
    post: RoomSession,
    rpre: Registry,
    rpost: Registry,
    cmd: Command,
    eff: Seq<Effect>,
    cont: bool,
) -> bool {
    match cmd {
        Command::Prepare { max_players, name } => {
            if pre.code is Some {
                prepare_requery_step(pre, post, eff) && registry_unchanged(rpre, rpost) && cont
            } else {
                ||| (exists|code: Seq<char>|
                    prepare_success_step(
                        pre,
                        post,
                        rpre,
                        rpost,
                        max_players,
                        name@,
                        code,
                        eff,
                    )) && cont
                ||| prepare_failure_step(pre, post, rpre, rpost, eff) && !cont
            }
        },
        Command::Start => start_step(pre, post, eff) && registry_unchanged(rpre, rpost) && cont,
        Command::Kick { player } => kick_step(pre, post, player, eff) && registry_unchanged(
            rpre,
            rpost,
        ) && cont,
        Command::Stop => stop_step(pre, post, rpre, rpost, eff) && !cont,
        Command::To { to, data } => to_step(pre, post, to@, Payload::Binary(data), eff)
            && registry_unchanged(rpre, rpost) && cont,
        Command::ToStr { to, data } => to_step(pre, post, to@, Payload::Text(data), eff)
            && registry_unchanged(rpre, rpost) && cont,
        _ => unhandled_step(pre, post, eff) && registry_unchanged(rpre, rpost) && cont,
    }
}

/// The room session transition relation: what one event does to the room
/// and everything around it. Exactly one of the listed outcomes holds for
/// each event shape.
pub open spec fn step_spec(
    pre: RoomSession,
    post: RoomSession,
    rpre: Registry,
    rpost: Registry,
    event: RoomEvent,
    eff: Seq<Effect>,
    cont: bool,
) -> bool {
    match event {
        RoomEvent::Channel(HostComm::Join(id)) => join_step(pre, post, id, eff)
            && registry_unchanged(rpre, rpost) && cont,
        RoomEvent::Channel(HostComm::Leave(id)) => leave_step(pre, post, id, eff)
            && registry_unchanged(rpre, rpost) && cont,
        RoomEvent::Channel(HostComm::Command(cmd)) => forward_step(pre, post, cmd, eff)
            && registry_unchanged(rpre, rpost) && cont,
        RoomEvent::Host(cmd) => host_command_step(pre, post, rpre, rpost, cmd, eff, cont),
        RoomEvent::HostInvalid => invalid_step(pre, post, eff) && registry_unchanged(rpre, rpost)
            && cont,
        RoomEvent::HostGone => stop_step(pre, post, rpre, rpost, eff) && !cont,
    }
}

/// Feed one event to a room session. Returns the effects the caller must
/// apply to its sockets, in order, and whether the room keeps running; a
/// `false` means the session is torn down and must not be stepped again.
/// The host socket closing is handled exactly like an explicit `Stop`.
pub fn step(s: &mut RoomSession, reg: &mut Registry, event: RoomEvent) -> (r: (Vec<Effect>, bool))
    requires
        old(s).wf(),
        old(reg).wf(),
    ensures
        final(s).wf(),
        final(reg).wf(),
        step_spec(*old(s), *final(s), *old(reg), *final(reg), event, r.0@, r.1),
{
    match event {
        RoomEvent::Channel(comm) => {
            match comm {
                HostComm::Join(id) => (s.apply_join(id), true),
                HostComm::Leave(id) => (s.apply_leave(id), true),
                HostComm::Command(cmd) => (s.apply_forward(cmd), true),
            }
        },
        RoomEvent::Host(cmd) => {
            match cmd {
                Command::Prepare { max_players, name } => {
                    let mut cands: Vec<String> = Vec::new();
                    let mut k: usize = 0;
                    while k < 4
                        invariant
                            k <= 4,
                            cands@.len() == k,
                            forall|j: int| 0 <= j < k ==> is_code(#[trigger] cands@[j]@),
                        decreases 4 - k,
                    {
                        cands.push(gen_room_code());
                        k = k + 1;
                    }
                    let r = s.apply_prepare(reg, max_players, name, &cands);
                    proof {
                        let cv = code_views(cands@);
                        if old(s).code is None {
                            if exists|i: int| is_first_free(cv, *old(reg), i) {
                                let i = choose|i: int| is_first_free(cv, *old(reg), i);
                                assert(cv[i] == cands@[i]@);
                            } else {
                                assert(forall|i: int| !is_first_free(cv, *old(reg), i));
                            }
                        }
                    }
                    r
                },
                Command::Start => (s.apply_start(), true),
                Command::Kick { player } => (s.apply_kick(player), true),
                Command::Stop => (s.apply_stop(reg), false),
                Command::To { to, data } => {
                    let payload = Payload::Binary(data);
                    (s.apply_to(&to, &payload), true)
                },
                Command::ToStr { to, data } => {
                    let payload = Payload::Text(data);
                    (s.apply_to(&to, &payload), true)
                },
                _ => {
                    let mut eff: Vec<Effect> = Vec::new();
                    eff.push(
                        Effect::ToHost(Command::Error { reason: "Unhandled message".to_owned() }),
                    );
                    (eff, true)
                },
            }
        },
        RoomEvent::HostInvalid => {
            let mut eff: Vec<Effect> = Vec::new();
            eff.push(Effect::ToHost(Command::Error { reason: "Invalid message.".to_owned() }));
            (eff, true)
        },
        RoomEvent::HostGone => (s.apply_stop(reg), false),
    }
}

} // verus!
