//! Documents written with the legacy member names decode like those written
//! with the current names, and give the sessions panel the same entries.

use vstd::prelude::*;
use crate::decode::{
    client_is, client_list_is, client_list_ok, client_ok, queue_is, queue_ok, request_is,
    request_list_is, request_list_ok, request_ok, session_is, session_list_is, session_list_ok,
    session_ok, turn_is, turn_list_is, turn_list_ok, turn_ok,
};
use crate::json::{aliased, array_items, field, members, text_is, JsonValue};
use crate::sessions::{
    item_keys, lemma_same_ids_select_alike, same_client_ids, same_ids, same_session_ids,
    selectable_items,
};
use crate::model::{ClientGroup, CompletedTurn, QueueRequest, QueueResponse, SessionGroup};

verus! {

/// Two array members whose items are pairwise `turn_legacy`; both absent counts too.
pub open spec fn turn_list_legacy(fa: Option<JsonValue>, fb: Option<JsonValue>) -> bool {
    match (fa, fb) {
        (None, None) => true,
        (Some(JsonValue::Array(xa)), Some(JsonValue::Array(xb))) => xa@.len() == xb@.len() && forall|k: int|
            0 <= k < xa@.len() ==> turn_legacy(#[trigger] xa@[k], xb@[k]),
        _ => false,
    }
}

/// Two array members whose items are pairwise `session_legacy`; both absent counts too.
pub open spec fn session_list_legacy(fa: Option<JsonValue>, fb: Option<JsonValue>) -> bool {
    match (fa, fb) {
        (None, None) => true,
        (Some(JsonValue::Array(xa)), Some(JsonValue::Array(xb))) => xa@.len() == xb@.len() && forall|k: int|
            0 <= k < xa@.len() ==> session_legacy(#[trigger] xa@[k], xb@[k]),
        _ => false,
    }
}

/// Two array members whose items are pairwise `client_legacy`; both absent counts too.
pub open spec fn client_list_legacy(fa: Option<JsonValue>, fb: Option<JsonValue>) -> bool {
    match (fa, fb) {
        (None, None) => true,
        (Some(JsonValue::Array(xa)), Some(JsonValue::Array(xb))) => xa@.len() == xb@.len() && forall|k: int|
            0 <= k < xa@.len() ==> client_legacy(#[trigger] xa@[k], xb@[k]),
        _ => false,
    }
}

/// Two array members whose items are pairwise `request_legacy`; both absent counts too.
pub open spec fn request_list_legacy(fa: Option<JsonValue>, fb: Option<JsonValue>) -> bool {
    match (fa, fb) {
        (None, None) => true,
        (Some(JsonValue::Array(xa)), Some(JsonValue::Array(xb))) => xa@.len() == xb@.len() && forall|k: int|
            0 <= k < xa@.len() ==> request_legacy(#[trigger] xa@[k], xb@[k]),
        _ => false,
    }
}

/// `a` is the object `b` with its members under their legacy names.
pub open spec fn turn_legacy(a: JsonValue, b: JsonValue) -> bool {
    match (members(a), members(b)) {
        (Some(ea), Some(eb)) => {
            &&& field(ea, "request_id"@) == field(eb, "request_id"@)
            &&& field(ea, "backend"@) == field(eb, "backend"@)
            &&& field(ea, "request_summary"@) == field(eb, "request_summary"@)
            &&& field(ea, "response_summary"@) == field(eb, "response_summary"@)
            &&& field(ea, "submitted_at"@) == field(eb, "submitted_at"@)
            &&& field(ea, "completed_at"@) == field(eb, "completed_at"@)
            &&& field(ea, "total_time_ms"@) == field(eb, "total_time_ms"@)
            &&& field(ea, "wait_time_ms"@) == field(eb, "wait_time_ms"@)
            &&& field(ea, "processing_time_ms"@) == field(eb, "processing_time_ms"@)
            &&& field(ea, "backend_time_ms"@) == field(eb, "backend_time_ms"@)
            &&& field(ea, "agent_obs_ms"@) is None
            &&& field(eb, "agent_pre_ms"@) is None
            &&& field(ea, "agent_pre_ms"@) == field(eb, "agent_obs_ms"@)
            &&& field(ea, "agent_act_ms"@) is None
            &&& field(eb, "agent_post_ms"@) is None
            &&& field(ea, "agent_post_ms"@) == field(eb, "agent_act_ms"@)
            &&& field(ea, "turn_number"@) == field(eb, "turn_number"@)
        },
        _ => false,
    }
}

proof fn lemma_turn_legacy(a: JsonValue, b: JsonValue)
    requires
        turn_legacy(a, b),
    ensures
        turn_ok(a) == turn_ok(b),
        forall|x: CompletedTurn| #[trigger] turn_is(a, x) == turn_is(b, x),
{
    let ea = members(a)->Some_0;
    let eb = members(b)->Some_0;
    assert(aliased(ea, "agent_obs_ms"@, "agent_pre_ms"@) == aliased(eb, "agent_obs_ms"@, "agent_pre_ms"@));
    assert(aliased(ea, "agent_act_ms"@, "agent_post_ms"@) == aliased(eb, "agent_act_ms"@, "agent_post_ms"@));
}

/// `a` is the object `b` with its members under their legacy names.
pub open spec fn session_legacy(a: JsonValue, b: JsonValue) -> bool {
    match (members(a), members(b)) {
        (Some(ea), Some(eb)) => {
            &&& field(ea, "session_id"@) is None
            &&& field(eb, "episode_id"@) is None
            &&& field(ea, "episode_id"@) == field(eb, "session_id"@)
            &&& field(ea, "task_id"@) is None
            &&& field(eb, "instruction_id"@) is None
            &&& field(ea, "instruction_id"@) == field(eb, "task_id"@)
            &&& field(ea, "model"@) == field(eb, "model"@)
            &&& field(ea, "source"@) == field(eb, "source"@)
            &&& field(ea, "total_requests"@) == field(eb, "total_requests"@)
            &&& field(ea, "completed_requests"@) == field(eb, "completed_requests"@)
            &&& field(ea, "pending_requests"@) == field(eb, "pending_requests"@)
            &&& field(ea, "in_flight_requests"@) == field(eb, "in_flight_requests"@)
            &&& field(ea, "failed_requests"@) == field(eb, "failed_requests"@)
            &&& turn_list_legacy(field(ea, "completed_turns"@), field(eb, "completed_turns"@))
            &&& field(ea, "total_turns"@) == field(eb, "total_turns"@)
        },
        _ => false,
    }
}

proof fn lemma_session_legacy(a: JsonValue, b: JsonValue)
    requires
        session_legacy(a, b),
    ensures
        session_ok(a) == session_ok(b),
        forall|x: SessionGroup| #[trigger] session_is(a, x) == session_is(b, x),
{
    let ea = members(a)->Some_0;
    let eb = members(b)->Some_0;
    assert(aliased(ea, "session_id"@, "episode_id"@) == aliased(eb, "session_id"@, "episode_id"@));
    assert(aliased(ea, "task_id"@, "instruction_id"@) == aliased(eb, "task_id"@, "instruction_id"@));
    lemma_turn_list_legacy(field(ea, "completed_turns"@), field(eb, "completed_turns"@));
}

/// `a` is the object `b` with its members under their legacy names.
pub open spec fn client_legacy(a: JsonValue, b: JsonValue) -> bool {
    match (members(a), members(b)) {
        (Some(ea), Some(eb)) => {
            &&& field(ea, "client_id"@) is None
            &&& field(eb, "process_id"@) is None
            &&& field(ea, "process_id"@) == field(eb, "client_id"@)
            &&& field(ea, "client_command"@) is None
            &&& field(eb, "process_command"@) is None
            &&& field(ea, "process_command"@) == field(eb, "client_command"@)
            &&& field(ea, "sessions"@) is None
            &&& field(eb, "episodes"@) is None
            &&& session_list_legacy(field(ea, "episodes"@), field(eb, "sessions"@))
        },
        _ => false,
    }
}

proof fn lemma_client_legacy(a: JsonValue, b: JsonValue)
    requires
        client_legacy(a, b),
    ensures
        client_ok(a) == client_ok(b),
        forall|x: ClientGroup| #[trigger] client_is(a, x) == client_is(b, x),
{
    let ea = members(a)->Some_0;
    let eb = members(b)->Some_0;
    assert(aliased(ea, "client_id"@, "process_id"@) == aliased(eb, "client_id"@, "process_id"@));
    assert(aliased(ea, "client_command"@, "process_command"@) == aliased(eb, "client_command"@, "process_command"@));
    lemma_session_list_legacy(field(ea, "episodes"@), field(eb, "sessions"@));
    assert(aliased(ea, "sessions"@, "episodes"@) == field(ea, "episodes"@));
    assert(aliased(eb, "sessions"@, "episodes"@) == field(eb, "sessions"@));
}

/// `a` is the object `b` with its members under their legacy names.
pub open spec fn request_legacy(a: JsonValue, b: JsonValue) -> bool {
    match (members(a), members(b)) {
        (Some(ea), Some(eb)) => {
            &&& field(ea, "request_id"@) == field(eb, "request_id"@)
            &&& field(ea, "source"@) == field(eb, "source"@)
            &&& field(ea, "model"@) == field(eb, "model"@)
            &&& field(ea, "status"@) == field(eb, "status"@)
            &&& field(ea, "backend"@) == field(eb, "backend"@)
            &&& field(ea, "wait_time_ms"@) == field(eb, "wait_time_ms"@)
            &&& field(ea, "processing_time_ms"@) == field(eb, "processing_time_ms"@)
            &&& field(ea, "session_id"@) is None
            &&& field(eb, "episode_id"@) is None
            &&& field(ea, "episode_id"@) == field(eb, "session_id"@)
            &&& field(ea, "task_id"@) is None
            &&& field(eb, "instruction_id"@) is None
            &&& field(ea, "instruction_id"@) == field(eb, "task_id"@)
        },
        _ => false,
    }
}

proof fn lemma_request_legacy(a: JsonValue, b: JsonValue)
    requires
        request_legacy(a, b),
    ensures
        request_ok(a) == request_ok(b),
        forall|x: QueueRequest| #[trigger] request_is(a, x) == request_is(b, x),
{
    let ea = members(a)->Some_0;
    let eb = members(b)->Some_0;
    assert(aliased(ea, "session_id"@, "episode_id"@) == aliased(eb, "session_id"@, "episode_id"@));
    assert(aliased(ea, "task_id"@, "instruction_id"@) == aliased(eb, "task_id"@, "instruction_id"@));
}

/// `a` is the object `b` with its members under their legacy names.
pub open spec fn queue_legacy(a: JsonValue, b: JsonValue) -> bool {
    match (members(a), members(b)) {
        (Some(ea), Some(eb)) => {
            &&& field(ea, "summary"@) == field(eb, "summary"@)
            &&& request_list_legacy(field(ea, "pending"@), field(eb, "pending"@))
            &&& request_list_legacy(field(ea, "in_flight"@), field(eb, "in_flight"@))
            &&& field(ea, "backends"@) == field(eb, "backends"@)
            &&& field(ea, "sessions"@) is None
            &&& field(eb, "episodes"@) is None
            &&& session_list_legacy(field(ea, "episodes"@), field(eb, "sessions"@))
            &&& field(ea, "clients"@) is None
            &&& field(eb, "processes"@) is None
            &&& client_list_legacy(field(ea, "processes"@), field(eb, "clients"@))
            &&& field(ea, "orphan_sessions"@) is None
            &&& field(eb, "orphan_episodes"@) is None
            &&& session_list_legacy(field(ea, "orphan_episodes"@), field(eb, "orphan_sessions"@))
        },
        _ => false,
    }
}

proof fn lemma_queue_legacy(a: JsonValue, b: JsonValue)
    requires
        queue_legacy(a, b),
    ensures
        queue_ok(a) == queue_ok(b),
        forall|x: QueueResponse| #[trigger] queue_is(a, x) == queue_is(b, x),
{
    let ea = members(a)->Some_0;
    let eb = members(b)->Some_0;
    lemma_request_list_legacy(field(ea, "pending"@), field(eb, "pending"@));
    lemma_request_list_legacy(field(ea, "in_flight"@), field(eb, "in_flight"@));
    lemma_session_list_legacy(field(ea, "episodes"@), field(eb, "sessions"@));
    assert(aliased(ea, "sessions"@, "episodes"@) == field(ea, "episodes"@));
    assert(aliased(eb, "sessions"@, "episodes"@) == field(eb, "sessions"@));
    lemma_client_list_legacy(field(ea, "processes"@), field(eb, "clients"@));
    assert(aliased(ea, "clients"@, "processes"@) == field(ea, "processes"@));
    assert(aliased(eb, "clients"@, "processes"@) == field(eb, "clients"@));
    lemma_session_list_legacy(field(ea, "orphan_episodes"@), field(eb, "orphan_sessions"@));
    assert(aliased(ea, "orphan_sessions"@, "orphan_episodes"@) == field(ea, "orphan_episodes"@));
    assert(aliased(eb, "orphan_sessions"@, "orphan_episodes"@) == field(eb, "orphan_sessions"@));
}

proof fn lemma_turn_list_legacy(fa: Option<JsonValue>, fb: Option<JsonValue>)
    requires
        turn_list_legacy(fa, fb),
    ensures
        turn_list_ok(fa) == turn_list_ok(fb),
        forall|ts: Seq<CompletedTurn>| #[trigger] turn_list_is(fa, ts) == turn_list_is(fb, ts),
{
    match (fa, fb) {
        (Some(JsonValue::Array(xa)), Some(JsonValue::Array(xb))) => {
            assert forall|k: int| 0 <= k < xa@.len() implies
                #[trigger] turn_ok(xa@[k]) == turn_ok(xb@[k]) && forall|x: CompletedTurn|
                    #[trigger] turn_is(xa@[k], x) == turn_is(xb@[k], x) by {
                lemma_turn_legacy(xa@[k], xb@[k]);
            }
            assert(array_items(fa) == Some(xa@));
            assert(array_items(fb) == Some(xb@));
            assert(fa == Some(JsonValue::Array(xa)));
            let sa = array_items(fa)->Some_0;
            let sb = array_items(fb)->Some_0;
            assert(turn_list_ok(fa) == (forall|k: int| 0 <= k < sa.len() ==> turn_ok(#[trigger] sa[k])));
            assert(turn_list_ok(fb) == (forall|k: int| 0 <= k < sb.len() ==> turn_ok(#[trigger] sb[k])));
            assert(turn_list_ok(fa) == turn_list_ok(fb)) by {
                if turn_list_ok(fa) {
                    assert forall|k: int| 0 <= k < sb.len() implies turn_ok(#[trigger] sb[k]) by {
                        assert(turn_ok(sa[k]));
                    }
                }
                if turn_list_ok(fb) {
                    assert forall|k: int| 0 <= k < sa.len() implies turn_ok(#[trigger] sa[k]) by {
                        assert(turn_ok(sb[k]));
                    }
                }
            }
            assert forall|ts: Seq<CompletedTurn>| #[trigger] turn_list_is(fa, ts) == turn_list_is(fb, ts) by {
                if turn_list_is(fa, ts) {
                    assert forall|k: int| 0 <= k < xb@.len() implies turn_is(#[trigger] xb@[k], ts[k]) by {
                        assert(turn_is(xa@[k], ts[k]));
                    }
                }
                if turn_list_is(fb, ts) {
                    assert forall|k: int| 0 <= k < xa@.len() implies turn_is(#[trigger] xa@[k], ts[k]) by {
                        assert(turn_is(xb@[k], ts[k]));
                    }
                }
            }
        },
        _ => {},
    }
}

proof fn lemma_session_list_legacy(fa: Option<JsonValue>, fb: Option<JsonValue>)
    requires
        session_list_legacy(fa, fb),
    ensures
        session_list_ok(fa) == session_list_ok(fb),
        forall|ts: Seq<SessionGroup>| #[trigger] session_list_is(fa, ts) == session_list_is(fb, ts),
{
    match (fa, fb) {
        (Some(JsonValue::Array(xa)), Some(JsonValue::Array(xb))) => {
            assert forall|k: int| 0 <= k < xa@.len() implies
                #[trigger] session_ok(xa@[k]) == session_ok(xb@[k]) && forall|x: SessionGroup|
                    #[trigger] session_is(xa@[k], x) == session_is(xb@[k], x) by {
                lemma_session_legacy(xa@[k], xb@[k]);
            }
            assert(array_items(fa) == Some(xa@));
            assert(array_items(fb) == Some(xb@));
            assert(fa == Some(JsonValue::Array(xa)));
            let sa = array_items(fa)->Some_0;
            let sb = array_items(fb)->Some_0;
            assert(session_list_ok(fa) == (forall|k: int| 0 <= k < sa.len() ==> session_ok(#[trigger] sa[k])));
            assert(session_list_ok(fb) == (forall|k: int| 0 <= k < sb.len() ==> session_ok(#[trigger] sb[k])));
            assert(session_list_ok(fa) == session_list_ok(fb)) by {
                if session_list_ok(fa) {
                    assert forall|k: int| 0 <= k < sb.len() implies session_ok(#[trigger] sb[k]) by {
                        assert(session_ok(sa[k]));
                    }
                }
                if session_list_ok(fb) {
                    assert forall|k: int| 0 <= k < sa.len() implies session_ok(#[trigger] sa[k]) by {
                        assert(session_ok(sb[k]));
                    }
                }
            }
            assert forall|ts: Seq<SessionGroup>| #[trigger] session_list_is(fa, ts) == session_list_is(fb, ts) by {
                if session_list_is(fa, ts) {
                    assert forall|k: int| 0 <= k < xb@.len() implies session_is(#[trigger] xb@[k], ts[k]) by {
                        assert(session_is(xa@[k], ts[k]));
                    }
                }
                if session_list_is(fb, ts) {
                    assert forall|k: int| 0 <= k < xa@.len() implies session_is(#[trigger] xa@[k], ts[k]) by {
                        assert(session_is(xb@[k], ts[k]));
                    }
                }
            }
        },
        _ => {},
    }
}

proof fn lemma_client_list_legacy(fa: Option<JsonValue>, fb: Option<JsonValue>)
    requires
        client_list_legacy(fa, fb),
    ensures
        client_list_ok(fa) == client_list_ok(fb),
        forall|ts: Seq<ClientGroup>| #[trigger] client_list_is(fa, ts) == client_list_is(fb, ts),
{
    match (fa, fb) {
        (Some(JsonValue::Array(xa)), Some(JsonValue::Array(xb))) => {
            assert forall|k: int| 0 <= k < xa@.len() implies
                #[trigger] client_ok(xa@[k]) == client_ok(xb@[k]) && forall|x: ClientGroup|
                    #[trigger] client_is(xa@[k], x) == client_is(xb@[k], x) by {
                lemma_client_legacy(xa@[k], xb@[k]);
            }
            assert(array_items(fa) == Some(xa@));
            assert(array_items(fb) == Some(xb@));
            assert(fa == Some(JsonValue::Array(xa)));
            let sa = array_items(fa)->Some_0;
            let sb = array_items(fb)->Some_0;
            assert(client_list_ok(fa) == (forall|k: int| 0 <= k < sa.len() ==> client_ok(#[trigger] sa[k])));
            assert(client_list_ok(fb) == (forall|k: int| 0 <= k < sb.len() ==> client_ok(#[trigger] sb[k])));
            assert(client_list_ok(fa) == client_list_ok(fb)) by {
                if client_list_ok(fa) {
                    assert forall|k: int| 0 <= k < sb.len() implies client_ok(#[trigger] sb[k]) by {
                        assert(client_ok(sa[k]));
                    }
                }
                if client_list_ok(fb) {
                    assert forall|k: int| 0 <= k < sa.len() implies client_ok(#[trigger] sa[k]) by {
                        assert(client_ok(sb[k]));
                    }
                }
            }
            assert forall|ts: Seq<ClientGroup>| #[trigger] client_list_is(fa, ts) == client_list_is(fb, ts) by {
                if client_list_is(fa, ts) {
                    assert forall|k: int| 0 <= k < xb@.len() implies client_is(#[trigger] xb@[k], ts[k]) by {
                        assert(client_is(xa@[k], ts[k]));
                    }
                }
                if client_list_is(fb, ts) {
                    assert forall|k: int| 0 <= k < xa@.len() implies client_is(#[trigger] xa@[k], ts[k]) by {
                        assert(client_is(xb@[k], ts[k]));
                    }
                }
            }
        },
        _ => {},
    }
}

proof fn lemma_request_list_legacy(fa: Option<JsonValue>, fb: Option<JsonValue>)
    requires
        request_list_legacy(fa, fb),
    ensures
        request_list_ok(fa) == request_list_ok(fb),
        forall|ts: Seq<QueueRequest>| #[trigger] request_list_is(fa, ts) == request_list_is(fb, ts),
{
    match (fa, fb) {
        (Some(JsonValue::Array(xa)), Some(JsonValue::Array(xb))) => {
            assert forall|k: int| 0 <= k < xa@.len() implies
                #[trigger] request_ok(xa@[k]) == request_ok(xb@[k]) && forall|x: QueueRequest|
                    #[trigger] request_is(xa@[k], x) == request_is(xb@[k], x) by {
                lemma_request_legacy(xa@[k], xb@[k]);
            }
            assert(array_items(fa) == Some(xa@));
            assert(array_items(fb) == Some(xb@));
            assert(fa == Some(JsonValue::Array(xa)));
            let sa = array_items(fa)->Some_0;
            let sb = array_items(fb)->Some_0;
            assert(request_list_ok(fa) == (forall|k: int| 0 <= k < sa.len() ==> request_ok(#[trigger] sa[k])));
            assert(request_list_ok(fb) == (forall|k: int| 0 <= k < sb.len() ==> request_ok(#[trigger] sb[k])));
            assert(request_list_ok(fa) == request_list_ok(fb)) by {
                if request_list_ok(fa) {
                    assert forall|k: int| 0 <= k < sb.len() implies request_ok(#[trigger] sb[k]) by {
                        assert(request_ok(sa[k]));
                    }
                }
                if request_list_ok(fb) {
                    assert forall|k: int| 0 <= k < sa.len() implies request_ok(#[trigger] sa[k]) by {
                        assert(request_ok(sb[k]));
                    }
                }
            }
            assert forall|ts: Seq<QueueRequest>| #[trigger] request_list_is(fa, ts) == request_list_is(fb, ts) by {
                if request_list_is(fa, ts) {
                    assert forall|k: int| 0 <= k < xb@.len() implies request_is(#[trigger] xb@[k], ts[k]) by {
                        assert(request_is(xa@[k], ts[k]));
                    }
                }
                if request_list_is(fb, ts) {
                    assert forall|k: int| 0 <= k < xa@.len() implies request_is(#[trigger] xa@[k], ts[k]) by {
                        assert(request_is(xb@[k], ts[k]));
                    }
                }
            }
        },
        _ => {},
    }
}

/// A queue document whose members use the legacy names (`episodes`,
/// `processes`, `orphan_episodes`, `episode_id`, `instruction_id`,
/// `process_id`, `process_command`, `agent_pre_ms`, `agent_post_ms`) at every
/// level, and otherwise agrees with a document that uses the current names,
/// is valid exactly when that one is and decodes to the same values.
pub proof fn lemma_legacy_names_decode_alike(legacy: JsonValue, current: JsonValue)
    requires
        queue_legacy(legacy, current),
    ensures
        queue_ok(legacy) == queue_ok(current),
        forall|q: QueueResponse| #[trigger] queue_is(legacy, q) == queue_is(current, q),
{
    lemma_queue_legacy(legacy, current);
}

proof fn lemma_text_views(f: Option<JsonValue>, a: String, b: String)
    requires
        text_is(f, a),
        text_is(f, b),
    ensures
        a@ == b@,
{
    if f is None {
        assert(a@ =~= b@);
    }
}

proof fn lemma_session_ids(v: JsonValue, a: SessionGroup, b: SessionGroup)
    requires
        session_is(v, a),
        session_is(v, b),
    ensures
        a.session_id@ == b.session_id@,
{
    let es = members(v)->Some_0;
    lemma_text_views(aliased(es, "session_id"@, "episode_id"@), a.session_id, b.session_id);
}

proof fn lemma_session_list_ids(f: Option<JsonValue>, a: Seq<SessionGroup>, b: Seq<SessionGroup>)
    requires
        session_list_is(f, a),
        session_list_is(f, b),
    ensures
        same_session_ids(a, b),
{
    let xs = array_items(f)->Some_0;
    assert forall|k: int| 0 <= k < a.len() implies (#[trigger] a[k]).session_id@ == b[k].session_id@ by {
        assert(session_is(xs[k], a[k]));
        assert(session_is(xs[k], b[k]));
        lemma_session_ids(xs[k], a[k], b[k]);
    }
}

proof fn lemma_client_ids(v: JsonValue, a: ClientGroup, b: ClientGroup)
    requires
        client_is(v, a),
        client_is(v, b),
    ensures
        a.client_id@ == b.client_id@,
        same_session_ids(a.sessions@, b.sessions@),
{
    let es = members(v)->Some_0;
    lemma_text_views(aliased(es, "client_id"@, "process_id"@), a.client_id, b.client_id);
    lemma_session_list_ids(aliased(es, "sessions"@, "episodes"@), a.sessions@, b.sessions@);
}

proof fn lemma_client_list_ids(f: Option<JsonValue>, a: Seq<ClientGroup>, b: Seq<ClientGroup>)
    requires
        client_list_is(f, a),
        client_list_is(f, b),
    ensures
        same_client_ids(a, b),
{
    let xs = array_items(f)->Some_0;
    assert forall|k: int| 0 <= k < a.len() implies (#[trigger] a[k]).client_id@ == b[k].client_id@
        && same_session_ids(a[k].sessions@, b[k].sessions@) by {
        assert(client_is(xs[k], a[k]));
        assert(client_is(xs[k], b[k]));
        lemma_client_ids(xs[k], a[k], b[k]);
    }
}

/// Two decodings of one queue document name the same clients and sessions
/// in the same places.
proof fn lemma_queue_ids(v: JsonValue, a: QueueResponse, b: QueueResponse)
    requires
        queue_is(v, a),
        queue_is(v, b),
    ensures
        same_ids(a, b),
{
    let es = members(v)->Some_0;
    lemma_client_list_ids(aliased(es, "clients"@, "processes"@), a.clients@, b.clients@);
    lemma_session_list_ids(
        aliased(es, "orphan_sessions"@, "orphan_episodes"@),
        a.orphan_sessions@,
        b.orphan_sessions@,
    );
    lemma_session_list_ids(aliased(es, "sessions"@, "episodes"@), a.sessions@, b.sessions@);
}

/// The sessions panel shows the same entries (the same clients and
/// sessions, by id, in the same order) for a queue document written with the
/// legacy member names as for the same document written with the current
/// names, whatever is expanded.
pub proof fn lemma_legacy_names_select_alike(
    legacy: JsonValue,
    current: JsonValue,
    q_old: QueueResponse,
    q_new: QueueResponse,
    expanded: Seq<String>,
)
    requires
        queue_legacy(legacy, current),
        queue_is(legacy, q_old),
        queue_is(current, q_new),
    ensures
        item_keys(selectable_items(q_old, expanded)) == item_keys(selectable_items(q_new, expanded)),
{
    lemma_queue_legacy(legacy, current);
    assert(queue_is(current, q_old));
    lemma_queue_ids(current, q_old, q_new);
    lemma_same_ids_select_alike(q_old, q_new, expanded);
}

} // verus!
