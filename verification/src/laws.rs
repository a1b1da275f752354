//! The relay's cross-cutting guarantees, stated and proved over the
//! transition relations of the session and the registry.

use vstd::prelude::*;

use crate::registry::Registry;
use crate::session::{
    is_delivery, is_error_effect, is_snapshot_effect, join_step, kick_step, members_among,
    resolved, start_step, stop_step, to_step, Effect, Payload, RoomSession,
};

verus! {

/// Uniqueness: no two live rooms hold the same code at the same time. A
/// well-formed registry holds pairwise distinct codes, and every operation
/// preserves well-formedness; `reserve` refuses the collision that would
/// break it.
pub proof fn lemma_code_uniqueness(reg: Registry, i: int, j: int)
    requires
        reg.wf(),
        0 <= i < reg.entries@.len(),
        0 <= j < reg.entries@.len(),
        i != j,
    ensures
        reg.entries@[i].code@ != reg.entries@[j].code@,
{
}

/// Admission control: a join attempt while the room is not accepting, or
/// while membership stands at `max_players`, never increases membership.
pub proof fn lemma_admission_control(
    pre: RoomSession,
    post: RoomSession,
    id: u32,
    eff: Seq<Effect>,
)
    requires
        join_step(pre, post, id, eff),
        !pre.accepting || pre.members@.len() >= pre.max_players,
    ensures
        post.members@ == pre.members@,
{
}

/// Idempotent start: processing `Start` twice leaves `accepting` false both
/// times, and neither processing reports any error.
pub proof fn lemma_start_idempotent(
    s0: RoomSession,
    s1: RoomSession,
    s2: RoomSession,
    e1: Seq<Effect>,
    e2: Seq<Effect>,
)
    requires
        start_step(s0, s1, e1),
        start_step(s1, s2, e2),
    ensures
        !s1.accepting,
        !s2.accepting,
        forall|k: int, why: Seq<char>| 0 <= k < e1.len() ==> !#[trigger] is_error_effect(e1[k], why),
        forall|k: int, why: Seq<char>| 0 <= k < e2.len() ==> !#[trigger] is_error_effect(e2[k], why),
{
}

/// Kick of an absent player: kicking an id that is not a member changes no
/// membership and still broadcasts a snapshot.
pub proof fn lemma_kick_absent(pre: RoomSession, post: RoomSession, x: u32, eff: Seq<Effect>)
    requires
        kick_step(pre, post, x, eff),
        !pre.members@.contains(x),
    ensures
        post.members@ == pre.members@,
        eff.len() == 1,
        is_snapshot_effect(eff[0], post),
{
    pre.members@.index_of_first_ensures(x);
}

/// The resolved recipients of an explicit destination list are members and
/// are listed.
proof fn lemma_members_among_sound(dest: Seq<u32>, members: Seq<u32>)
    ensures
        members_among(dest, members).len() <= dest.len(),
        forall|k: int|
            0 <= k < members_among(dest, members).len() ==> members.contains(
                #[trigger] members_among(dest, members)[k],
            ) && dest.contains(members_among(dest, members)[k]),
    decreases dest.len(),
{
    if dest.len() > 0 {
        let prefix = dest.drop_last();
        lemma_members_among_sound(prefix, members);
        assert forall|x: u32| prefix.contains(x) implies dest.contains(x) by {
            let k = choose|k: int| 0 <= k < prefix.len() && prefix[k] == x;
            assert(dest[k] == x);
        }
        if members.contains(dest.last()) {
            assert(dest.contains(dest.last()));
        }
    }
}

/// Broadcast semantics: a directive with an empty destination list delivers
/// the payload to every current member, in membership order, and to no one
/// else; a directive with an explicit list delivers only to listed ids that
/// are members — a listed id that is not a member receives nothing.
pub proof fn lemma_broadcast_semantics(
    pre: RoomSession,
    post: RoomSession,
    dest: Seq<u32>,
    payload: Payload,
    eff: Seq<Effect>,
)
    requires
        to_step(pre, post, dest, payload, eff),
    ensures
        dest.len() == 0 ==> eff.len() == pre.members@.len() && forall|k: int|
            0 <= k < eff.len() ==> is_delivery(#[trigger] eff[k], pre.members@[k], payload),
        forall|k: int|
            0 <= k < eff.len() ==> ((#[trigger] eff[k]) matches Effect::ToPlayer { id, .. }
                && pre.members@.contains(id) && (dest.len() > 0 ==> dest.contains(id))),
{
    lemma_members_among_sound(dest, pre.members@);
    assert forall|k: int| 0 <= k < eff.len() implies (#[trigger] eff[k]) matches Effect::ToPlayer {
        id,
        ..
    } && pre.members@.contains(id) && (dest.len() > 0 ==> dest.contains(id)) by {
        assert(is_delivery(eff[k], resolved(dest, pre.members@)[k], payload));
        if dest.len() == 0 {
            assert(pre.members@.contains(pre.members@[k]));
        }
    }
}

/// Teardown completeness: after a stop, the room's code is absent from the
/// registry, the host socket is closed, every member's connection is
/// closed, and no member remains.
pub proof fn lemma_teardown_complete(
    pre: RoomSession,
    post: RoomSession,
    rpre: Registry,
    rpost: Registry,
    eff: Seq<Effect>,
)
    requires
        stop_step(pre, post, rpre, rpost, eff),
    ensures
        pre.code_view() matches Some(code) ==> !rpost.has_code(code),
        eff.contains(Effect::CloseHost),
        forall|id: u32|
            pre.members@.contains(id) ==> eff.contains(Effect::ClosePlayer { id: id }),
        post.members@.len() == 0,
{
    assert(eff[0] == Effect::CloseHost);
    assert forall|id: u32| pre.members@.contains(id) implies eff.contains(
        Effect::ClosePlayer { id: id },
    ) by {
        let k = choose|k: int| 0 <= k < pre.members@.len() && pre.members@[k] == id;
        assert(eff[k + 1] == (Effect::ClosePlayer { id: id }));
    }
}

} // verus!
