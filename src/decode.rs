//! Decoding of the proxy's stats and queue documents into the data model.
//!
//! Every member may be missing and then takes its default (zero, false,
//! empty); a member of the wrong type makes the whole document invalid.
//! Members renamed over time are read under the current name, or else under
//! the earlier one.

use vstd::prelude::*;
use crate::json::{
    aliased, array_items, bool_member, field, get_aliased, get_field, members, opt_deref,
    opt_scaled_member, opt_text_is, opt_text_ok, opt_u64_member, read_bool, read_opt_scaled,
    read_opt_text, read_opt_u64, read_scaled, read_text, read_u64, parse_json,
    parsed_json, scaled_member, text_is, text_ok, u64_member, JsonValue,
};
use crate::model::{
    BackendStats, ClientGroup, CompletedTurn, PoolStats, QueueBackend, QueueRequest,
    QueueResponse, QueueSummary, SessionGroup, StatsResponse,
};

verus! {

/// Whether `v` is an object whose members decode as a `QueueSummary`.
pub open spec fn summary_ok(v: JsonValue) -> bool {
    match members(v) {
        Some(es) => {
            &&& u64_member(field(es, "pending"@)) is Some
            &&& u64_member(field(es, "in_flight"@)) is Some
            &&& u64_member(field(es, "completed_last_minute"@)) is Some
            &&& u64_member(field(es, "total_tracked"@)) is Some
        },
        None => false,
    }
}

/// Whether `x` is what the members of `v` say, member by member.
pub open spec fn summary_is(v: JsonValue, x: QueueSummary) -> bool {
    match members(v) {
        Some(es) => {
            &&& u64_member(field(es, "pending"@)) == Some(x.pending)
            &&& u64_member(field(es, "in_flight"@)) == Some(x.in_flight)
            &&& u64_member(field(es, "completed_last_minute"@)) == Some(x.completed_last_minute)
            &&& u64_member(field(es, "total_tracked"@)) == Some(x.total_tracked)
        },
        None => false,
    }
}

/// Decodes a `QueueSummary`; `None` when a member has the wrong type.
pub fn decode_summary(v: &JsonValue) -> (r: Option<QueueSummary>)
    ensures
        summary_ok(*v) <==> r is Some,
        r matches Some(x) ==> summary_is(*v, x),
{
    match v {
        JsonValue::Object(keys, values) => {
            let pending = match read_u64(get_field(keys, values, "pending")) {
                Some(x) => x,
                None => {
                    return None;
                },
            };
            let in_flight = match read_u64(get_field(keys, values, "in_flight")) {
                Some(x) => x,
                None => {
                    return None;
                },
            };
            let completed_last_minute = match read_u64(get_field(keys, values, "completed_last_minute")) {
                Some(x) => x,
                None => {
                    return None;
                },
            };
            let total_tracked = match read_u64(get_field(keys, values, "total_tracked")) {
                Some(x) => x,
                None => {
                    return None;
                },
            };
            Some(QueueSummary { pending, in_flight, completed_last_minute, total_tracked })
        },
        _ => None,
    }
}

/// Whether `v` is an object whose members decode as a `QueueRequest`.
pub open spec fn request_ok(v: JsonValue) -> bool {
    match members(v) {
        Some(es) => {
            &&& text_ok(field(es, "request_id"@))
            &&& text_ok(field(es, "source"@))
            &&& text_ok(field(es, "model"@))
            &&& text_ok(field(es, "status"@))
            &&& opt_text_ok(field(es, "backend"@))
            &&& scaled_member(field(es, "wait_time_ms"@), 3) is Some
            &&& opt_scaled_member(field(es, "processing_time_ms"@), 3) is Some
            &&& opt_text_ok(aliased(es, "session_id"@, "episode_id"@))
            &&& opt_text_ok(aliased(es, "task_id"@, "instruction_id"@))
        },
        None => false,
    }
}

/// Whether `x` is what the members of `v` say, member by member.
pub open spec fn request_is(v: JsonValue, x: QueueRequest) -> bool {
    match members(v) {
        Some(es) => {
            &&& text_is(field(es, "request_id"@), x.request_id)
            &&& text_is(field(es, "source"@), x.source)
            &&& text_is(field(es, "model"@), x.model)
            &&& text_is(field(es, "status"@), x.status)
            &&& opt_text_is(field(es, "backend"@), x.backend)
            &&& scaled_member(field(es, "wait_time_ms"@), 3) == Some(x.wait_time_us)
            &&& opt_scaled_member(field(es, "processing_time_ms"@), 3) == Some(x.processing_time_us)
            &&& opt_text_is(aliased(es, "session_id"@, "episode_id"@), x.session_id)
            &&& opt_text_is(aliased(es, "task_id"@, "instruction_id"@), x.task_id)
        },
        None => false,
    }
}

/// Decodes a `QueueRequest`; `None` when a member has the wrong type.
pub fn decode_request(v: &JsonValue) -> (r: Option<QueueRequest>)
    ensures
        request_ok(*v) <==> r is Some,
        r matches Some(x) ==> request_is(*v, x),
{
    match v {
        JsonValue::Object(keys, values) => {
            let request_id = match read_text(get_field(keys, values, "request_id")) {
                Some(x) => x,
                None => {
                    return None;
                },
            };
            let source = match read_text(get_field(keys, values, "source")) {
                Some(x) => x,
                None => {
                    return None;
                },
            };
            let model = match read_text(get_field(keys, values, "model")) {
                Some(x) => x,
                None => {
                    return None;
                },
            };
            let status = match read_text(get_field(keys, values, "status")) {
                Some(x) => x,
                None => {
                    return None;
                },
            };
            let backend = match read_opt_text(get_field(keys, values, "backend")) {
                Some(x) => x,
                None => {
                    return None;
                },
            };
            let wait_time_us = match read_scaled(get_field(keys, values, "wait_time_ms"), 3) {
                Some(x) => x,
                None => {
                    return None;
                },
            };
            let processing_time_us = match read_opt_scaled(get_field(keys, values, "processing_time_ms"), 3) {
                Some(x) => x,
                None => {
                    return None;
                },
            };
            let session_id = match read_opt_text(get_aliased(keys, values, "session_id", "episode_id")) {
                Some(x) => x,
                None => {
                    return None;
                },
            };
            let task_id = match read_opt_text(get_aliased(keys, values, "task_id", "instruction_id")) {
                Some(x) => x,
                None => {
                    return None;
                },
            };
            Some(QueueRequest { request_id, source, model, status, backend, wait_time_us, processing_time_us, session_id, task_id })
        },
        _ => None,
    }
}

/// Whether `v` is an object whose members decode as a `QueueBackend`.
pub open spec fn queue_backend_ok(v: JsonValue) -> bool {
    match members(v) {
        Some(es) => {
            &&& text_ok(field(es, "url"@))
            &&& bool_member(field(es, "healthy"@)) is Some
            &&& u64_member(field(es, "gpu_load"@)) is Some
            &&& u64_member(field(es, "inflight"@)) is Some
            &&& scaled_member(field(es, "avg_latency_ms"@), 3) is Some
            &&& text_ok(field(es, "partition"@))
        },
        None => false,
    }
}

/// Whether `x` is what the members of `v` say, member by member.
pub open spec fn queue_backend_is(v: JsonValue, x: QueueBackend) -> bool {
    match members(v) {
        Some(es) => {
            &&& text_is(field(es, "url"@), x.url)
            &&& bool_member(field(es, "healthy"@)) == Some(x.healthy)
            &&& u64_member(field(es, "gpu_load"@)) == Some(x.gpu_load)
            &&& u64_member(field(es, "inflight"@)) == Some(x.inflight)
            &&& scaled_member(field(es, "avg_latency_ms"@), 3) == Some(x.avg_latency_us)
            &&& text_is(field(es, "partition"@), x.partition)
        },
        None => false,
    }
}

/// Decodes a `QueueBackend`; `None` when a member has the wrong type.
pub fn decode_queue_backend(v: &JsonValue) -> (r: Option<QueueBackend>)
    ensures
        queue_backend_ok(*v) <==> r is Some,
        r matches Some(x) ==> queue_backend_is(*v, x),
{
    match v {
        JsonValue::Object(keys, values) => {
            let url = match read_text(get_field(keys, values, "url")) {
                Some(x) => x,
                None => {
                    return None;
                },
            };
            let healthy = match read_bool(get_field(keys, values, "healthy")) {
                Some(x) => x,
                None => {
                    return None;
                },
            };
            let gpu_load = match read_u64(get_field(keys, values, "gpu_load")) {
                Some(x) => x,
                None => {
                    return None;
                },
            };
            let inflight = match read_u64(get_field(keys, values, "inflight")) {
                Some(x) => x,
                None => {
                    return None;
                },
            };
            let avg_latency_us = match read_scaled(get_field(keys, values, "avg_latency_ms"), 3) {
                Some(x) => x,
                None => {
                    return None;
                },
            };
            let partition = match read_text(get_field(keys, values, "partition")) {
                Some(x) => x,
                None => {
                    return None;
                },
            };
            Some(QueueBackend { url, healthy, gpu_load, inflight, avg_latency_us, partition })
        },
        _ => None,
    }
}

/// Whether `v` is an object whose members decode as a `CompletedTurn`.
pub open spec fn turn_ok(v: JsonValue) -> bool {
    match members(v) {
        Some(es) => {
            &&& text_ok(field(es, "request_id"@))
            &&& opt_text_ok(field(es, "backend"@))
            &&& opt_text_ok(field(es, "request_summary"@))
            &&& opt_text_ok(field(es, "response_summary"@))
            &&& scaled_member(field(es, "submitted_at"@), 6) is Some
            &&& scaled_member(field(es, "completed_at"@), 6) is Some
            &&& scaled_member(field(es, "total_time_ms"@), 3) is Some
            &&& scaled_member(field(es, "wait_time_ms"@), 3) is Some
            &&& scaled_member(field(es, "processing_time_ms"@), 3) is Some
            &&& opt_scaled_member(field(es, "backend_time_ms"@), 3) is Some
            &&& opt_scaled_member(aliased(es, "agent_obs_ms"@, "agent_pre_ms"@), 3) is Some
            &&& opt_scaled_member(aliased(es, "agent_act_ms"@, "agent_post_ms"@), 3) is Some
            &&& opt_u64_member(field(es, "turn_number"@)) is Some
        },
        None => false,
    }
}

/// Whether `x` is what the members of `v` say, member by member.
pub open spec fn turn_is(v: JsonValue, x: CompletedTurn) -> bool {
    match members(v) {
        Some(es) => {
            &&& text_is(field(es, "request_id"@), x.request_id)
            &&& opt_text_is(field(es, "backend"@), x.backend)
            &&& opt_text_is(field(es, "request_summary"@), x.request_summary)
            &&& opt_text_is(field(es, "response_summary"@), x.response_summary)
            &&& scaled_member(field(es, "submitted_at"@), 6) == Some(x.submitted_at_us)
            &&& scaled_member(field(es, "completed_at"@), 6) == Some(x.completed_at_us)
            &&& scaled_member(field(es, "total_time_ms"@), 3) == Some(x.total_time_us)
            &&& scaled_member(field(es, "wait_time_ms"@), 3) == Some(x.wait_time_us)
            &&& scaled_member(field(es, "processing_time_ms"@), 3) == Some(x.processing_time_us)
            &&& opt_scaled_member(field(es, "backend_time_ms"@), 3) == Some(x.backend_time_us)
            &&& opt_scaled_member(aliased(es, "agent_obs_ms"@, "agent_pre_ms"@), 3) == Some(x.agent_obs_us)
            &&& opt_scaled_member(aliased(es, "agent_act_ms"@, "agent_post_ms"@), 3) == Some(x.agent_act_us)
            &&& opt_u64_member(field(es, "turn_number"@)) == Some(x.turn_number)
        },
        None => false,
    }
}

/// Decodes a `CompletedTurn`; `None` when a member has the wrong type.
pub fn decode_turn(v: &JsonValue) -> (r: Option<CompletedTurn>)
    ensures
        turn_ok(*v) <==> r is Some,
        r matches Some(x) ==> turn_is(*v, x),
{
    match v {
        JsonValue::Object(keys, values) => {
            let request_id = match read_text(get_field(keys, values, "request_id")) {
                Some(x) => x,
                None => {
                    return None;
                },
            };
            let backend = match read_opt_text(get_field(keys, values, "backend")) {
                Some(x) => x,
                None => {
                    return None;
                },
            };
            let request_summary = match read_opt_text(get_field(keys, values, "request_summary")) {
                Some(x) => x,
                None => {
                    return None;
                },
            };
            let response_summary = match read_opt_text(get_field(keys, values, "response_summary")) {
                Some(x) => x,
                None => {
                    return None;
                },
            };
            let submitted_at_us = match read_scaled(get_field(keys, values, "submitted_at"), 6) {
                Some(x) => x,
                None => {
                    return None;
                },
            };
            let completed_at_us = match read_scaled(get_field(keys, values, "completed_at"), 6) {
                Some(x) => x,
                None => {
                    return None;
                },
            };
            let total_time_us = match read_scaled(get_field(keys, values, "total_time_ms"), 3) {
                Some(x) => x,
                None => {
                    return None;
                },
            };
            let wait_time_us = match read_scaled(get_field(keys, values, "wait_time_ms"), 3) {
                Some(x) => x,
                None => {
                    return None;
                },
            };
            let processing_time_us = match read_scaled(get_field(keys, values, "processing_time_ms"), 3) {
                Some(x) => x,
                None => {
                    return None;
                },
            };
            let backend_time_us = match read_opt_scaled(get_field(keys, values, "backend_time_ms"), 3) {
                Some(x) => x,
                None => {
                    return None;
                },
            };
            let agent_obs_us = match read_opt_scaled(get_aliased(keys, values, "agent_obs_ms", "agent_pre_ms"), 3) {
                Some(x) => x,
                None => {
                    return None;
                },
            };
            let agent_act_us = match read_opt_scaled(get_aliased(keys, values, "agent_act_ms", "agent_post_ms"), 3) {
                Some(x) => x,
                None => {
                    return None;
                },
            };
            let turn_number = match read_opt_u64(get_field(keys, values, "turn_number")) {
                Some(x) => x,
                None => {
                    return None;
                },
            };
            Some(CompletedTurn { request_id, backend, request_summary, response_summary, submitted_at_us, completed_at_us, total_time_us, wait_time_us, processing_time_us, backend_time_us, agent_obs_us, agent_act_us, turn_number })
        },
        _ => None,
    }
}

/// Whether `v` is an object whose members decode as a `SessionGroup`.
pub open spec fn session_ok(v: JsonValue) -> bool {
    match members(v) {
        Some(es) => {
            &&& text_ok(aliased(es, "session_id"@, "episode_id"@))
            &&& text_ok(aliased(es, "task_id"@, "instruction_id"@))
            &&& text_ok(field(es, "model"@))
            &&& text_ok(field(es, "source"@))
            &&& u64_member(field(es, "total_requests"@)) is Some
            &&& u64_member(field(es, "completed_requests"@)) is Some
            &&& u64_member(field(es, "pending_requests"@)) is Some
            &&& u64_member(field(es, "in_flight_requests"@)) is Some
            &&& u64_member(field(es, "failed_requests"@)) is Some
            &&& turn_list_ok(field(es, "completed_turns"@))
            &&& u64_member(field(es, "total_turns"@)) is Some
        },
        None => false,
    }
}

/// Whether `x` is what the members of `v` say, member by member.
pub open spec fn session_is(v: JsonValue, x: SessionGroup) -> bool {
    match members(v) {
        Some(es) => {
            &&& text_is(aliased(es, "session_id"@, "episode_id"@), x.session_id)
            &&& text_is(aliased(es, "task_id"@, "instruction_id"@), x.task_id)
            &&& text_is(field(es, "model"@), x.model)
            &&& text_is(field(es, "source"@), x.source)
            &&& u64_member(field(es, "total_requests"@)) == Some(x.total_requests)
            &&& u64_member(field(es, "completed_requests"@)) == Some(x.completed_requests)
            &&& u64_member(field(es, "pending_requests"@)) == Some(x.pending_requests)
            &&& u64_member(field(es, "in_flight_requests"@)) == Some(x.in_flight_requests)
            &&& u64_member(field(es, "failed_requests"@)) == Some(x.failed_requests)
            &&& turn_list_is(field(es, "completed_turns"@), x.completed_turns@)
            &&& u64_member(field(es, "total_turns"@)) == Some(x.total_turns)
        },
        None => false,
    }
}

/// Decodes a `SessionGroup`; `None` when a member has the wrong type.
pub fn decode_session(v: &JsonValue) -> (r: Option<SessionGroup>)
    ensures
        session_ok(*v) <==> r is Some,
        r matches Some(x) ==> session_is(*v, x),
{
    match v {
        JsonValue::Object(keys, values) => {
            let session_id = match read_text(get_aliased(keys, values, "session_id", "episode_id")) {
                Some(x) => x,
                None => {
                    return None;
                },
            };
            let task_id = match read_text(get_aliased(keys, values, "task_id", "instruction_id")) {
                Some(x) => x,
                None => {
                    return None;
                },
            };
            let model = match read_text(get_field(keys, values, "model")) {
                Some(x) => x,
                None => {
                    return None;
                },
            };
            let source = match read_text(get_field(keys, values, "source")) {
                Some(x) => x,
                None => {
                    return None;
                },
            };
            let total_requests = match read_u64(get_field(keys, values, "total_requests")) {
                Some(x) => x,
                None => {
                    return None;
                },
            };
            let completed_requests = match read_u64(get_field(keys, values, "completed_requests")) {
                Some(x) => x,
                None => {
                    return None;
                },
            };
            let pending_requests = match read_u64(get_field(keys, values, "pending_requests")) {
                Some(x) => x,
                None => {
                    return None;
                },
            };
            let in_flight_requests = match read_u64(get_field(keys, values, "in_flight_requests")) {
                Some(x) => x,
                None => {
                    return None;
                },
            };
            let failed_requests = match read_u64(get_field(keys, values, "failed_requests")) {
                Some(x) => x,
                None => {
                    return None;
                },
            };
            let completed_turns = match decode_turn_list(get_field(keys, values, "completed_turns")) {
                Some(x) => x,
                None => {
                    return None;
                },
            };
            let total_turns = match read_u64(get_field(keys, values, "total_turns")) {
                Some(x) => x,
                None => {
                    return None;
                },
            };
            Some(SessionGroup { session_id, task_id, model, source, total_requests, completed_requests, pending_requests, in_flight_requests, failed_requests, completed_turns, total_turns })
        },
        _ => None,
    }
}

/// Whether `v` is an object whose members decode as a `ClientGroup`.
pub open spec fn client_ok(v: JsonValue) -> bool {
    match members(v) {
        Some(es) => {
            &&& text_ok(aliased(es, "client_id"@, "process_id"@))
            &&& text_ok(aliased(es, "client_command"@, "process_command"@))
            &&& session_list_ok(aliased(es, "sessions"@, "episodes"@))
        },
        None => false,
    }
}

/// Whether `x` is what the members of `v` say, member by member.
pub open spec fn client_is(v: JsonValue, x: ClientGroup) -> bool {
    match members(v) {
        Some(es) => {
            &&& text_is(aliased(es, "client_id"@, "process_id"@), x.client_id)
            &&& text_is(aliased(es, "client_command"@, "process_command"@), x.client_command)
            &&& session_list_is(aliased(es, "sessions"@, "episodes"@), x.sessions@)
        },
        None => false,
    }
}

/// Decodes a `ClientGroup`; `None` when a member has the wrong type.
pub fn decode_client(v: &JsonValue) -> (r: Option<ClientGroup>)
    ensures
        client_ok(*v) <==> r is Some,
        r matches Some(x) ==> client_is(*v, x),
{
    match v {
        JsonValue::Object(keys, values) => {
            let client_id = match read_text(get_aliased(keys, values, "client_id", "process_id")) {
                Some(x) => x,
                None => {
                    return None;
                },
            };
            let client_command = match read_text(get_aliased(keys, values, "client_command", "process_command")) {
                Some(x) => x,
                None => {
                    return None;
                },
            };
            let sessions = match decode_session_list(get_aliased(keys, values, "sessions", "episodes")) {
                Some(x) => x,
                None => {
                    return None;
                },
            };
            Some(ClientGroup { client_id, client_command, sessions })
        },
        _ => None,
    }
}

/// Whether `v` is an object whose members decode as a `QueueResponse`.
pub open spec fn queue_ok(v: JsonValue) -> bool {
    match members(v) {
        Some(es) => {
            &&& summary_member_ok(field(es, "summary"@))
            &&& request_list_ok(field(es, "pending"@))
            &&& request_list_ok(field(es, "in_flight"@))
            &&& queue_backend_list_ok(field(es, "backends"@))
            &&& session_list_ok(aliased(es, "sessions"@, "episodes"@))
            &&& client_list_ok(aliased(es, "clients"@, "processes"@))
            &&& session_list_ok(aliased(es, "orphan_sessions"@, "orphan_episodes"@))
        },
        None => false,
    }
}

/// Whether `x` is what the members of `v` say, member by member.
pub open spec fn queue_is(v: JsonValue, x: QueueResponse) -> bool {
    match members(v) {
        Some(es) => {
            &&& summary_member_is(field(es, "summary"@), x.summary)
            &&& request_list_is(field(es, "pending"@), x.pending@)
            &&& request_list_is(field(es, "in_flight"@), x.in_flight@)
            &&& queue_backend_list_is(field(es, "backends"@), x.backends@)
            &&& session_list_is(aliased(es, "sessions"@, "episodes"@), x.sessions@)
            &&& client_list_is(aliased(es, "clients"@, "processes"@), x.clients@)
            &&& session_list_is(aliased(es, "orphan_sessions"@, "orphan_episodes"@), x.orphan_sessions@)
        },
        None => false,
    }
}

/// Decodes a `QueueResponse`; `None` when a member has the wrong type.
pub fn decode_queue(v: &JsonValue) -> (r: Option<QueueResponse>)
    ensures
        queue_ok(*v) <==> r is Some,
        r matches Some(x) ==> queue_is(*v, x),
{
    match v {
        JsonValue::Object(keys, values) => {
            let summary = match decode_summary_member(get_field(keys, values, "summary")) {
                Some(x) => x,
                None => {
                    return None;
                },
            };
            let pending = match decode_request_list(get_field(keys, values, "pending")) {
                Some(x) => x,
                None => {
                    return None;
                },
            };
            let in_flight = match decode_request_list(get_field(keys, values, "in_flight")) {
                Some(x) => x,
                None => {
                    return None;
                },
            };
            let backends = match decode_queue_backend_list(get_field(keys, values, "backends")) {
                Some(x) => x,
                None => {
                    return None;
                },
            };
            let sessions = match decode_session_list(get_aliased(keys, values, "sessions", "episodes")) {
                Some(x) => x,
                None => {
                    return None;
                },
            };
            let clients = match decode_client_list(get_aliased(keys, values, "clients", "processes")) {
                Some(x) => x,
                None => {
                    return None;
                },
            };
            let orphan_sessions = match decode_session_list(get_aliased(keys, values, "orphan_sessions", "orphan_episodes")) {
                Some(x) => x,
                None => {
                    return None;
                },
            };
            Some(QueueResponse { summary, pending, in_flight, backends, sessions, clients, orphan_sessions })
        },
        _ => None,
    }
}

/// Whether `v` is an object whose members decode as a `BackendStats`.
pub open spec fn backend_stats_ok(v: JsonValue) -> bool {
    match members(v) {
        Some(es) => {
            &&& text_ok(field(es, "url"@))
            &&& bool_member(field(es, "healthy"@)) is Some
            &&& u64_member(field(es, "requests"@)) is Some
            &&& u64_member(field(es, "errors"@)) is Some
            &&& scaled_member(field(es, "avg_latency_ms"@), 3) is Some
            &&& u64_member(field(es, "inflight"@)) is Some
            &&& text_ok(field(es, "partition"@))
        },
        None => false,
    }
}

/// Whether `x` is what the members of `v` say, member by member.
pub open spec fn backend_stats_is(v: JsonValue, x: BackendStats) -> bool {
    match members(v) {
        Some(es) => {
            &&& text_is(field(es, "url"@), x.url)
            &&& bool_member(field(es, "healthy"@)) == Some(x.healthy)
            &&& u64_member(field(es, "requests"@)) == Some(x.requests)
            &&& u64_member(field(es, "errors"@)) == Some(x.errors)
            &&& scaled_member(field(es, "avg_latency_ms"@), 3) == Some(x.avg_latency_us)
            &&& u64_member(field(es, "inflight"@)) == Some(x.inflight)
            &&& text_is(field(es, "partition"@), x.partition)
        },
        None => false,
    }
}

/// Decodes a `BackendStats`; `None` when a member has the wrong type.
pub fn decode_backend_stats(v: &JsonValue) -> (r: Option<BackendStats>)
    ensures
        backend_stats_ok(*v) <==> r is Some,
        r matches Some(x) ==> backend_stats_is(*v, x),
{
    match v {
        JsonValue::Object(keys, values) => {
            let url = match read_text(get_field(keys, values, "url")) {
                Some(x) => x,
                None => {
                    return None;
                },
            };
            let healthy = match read_bool(get_field(keys, values, "healthy")) {
                Some(x) => x,
                None => {
                    return None;
                },
            };
            let requests = match read_u64(get_field(keys, values, "requests")) {
                Some(x) => x,
                None => {
                    return None;
                },
            };
            let errors = match read_u64(get_field(keys, values, "errors")) {
                Some(x) => x,
                None => {
                    return None;
                },
            };
            let avg_latency_us = match read_scaled(get_field(keys, values, "avg_latency_ms"), 3) {
                Some(x) => x,
                None => {
                    return None;
                },
            };
            let inflight = match read_u64(get_field(keys, values, "inflight")) {
                Some(x) => x,
                None => {
                    return None;
                },
            };
            let partition = match read_text(get_field(keys, values, "partition")) {
                Some(x) => x,
                None => {
                    return None;
                },
            };
            Some(BackendStats { url, healthy, requests, errors, avg_latency_us, inflight, partition })
        },
        _ => None,
    }
}

/// Whether `v` is an object whose members decode as a `PoolStats`.
pub open spec fn pool_ok(v: JsonValue) -> bool {
    match members(v) {
        Some(es) => {
            &&& text_ok(field(es, "model"@))
            &&& backend_stats_list_ok(field(es, "backends"@))
        },
        None => false,
    }
}

/// Whether `x` is what the members of `v` say, member by member.
pub open spec fn pool_is(v: JsonValue, x: PoolStats) -> bool {
    match members(v) {
        Some(es) => {
            &&& text_is(field(es, "model"@), x.model)
            &&& backend_stats_list_is(field(es, "backends"@), x.backends@)
        },
        None => false,
    }
}

/// Decodes a `PoolStats`; `None` when a member has the wrong type.
pub fn decode_pool(v: &JsonValue) -> (r: Option<PoolStats>)
    ensures
        pool_ok(*v) <==> r is Some,
        r matches Some(x) ==> pool_is(*v, x),
{
    match v {
        JsonValue::Object(keys, values) => {
            let model = match read_text(get_field(keys, values, "model")) {
                Some(x) => x,
                None => {
                    return None;
                },
            };
            let backends = match decode_backend_stats_list(get_field(keys, values, "backends")) {
                Some(x) => x,
                None => {
                    return None;
                },
            };
            Some(PoolStats { model, backends })
        },
        _ => None,
    }
}

/// Whether `v` is an object whose members decode as a `StatsResponse`.
pub open spec fn stats_ok(v: JsonValue) -> bool {
    match members(v) {
        Some(es) => {
            &&& scaled_member(field(es, "uptime_seconds"@), 6) is Some
            &&& u64_member(field(es, "total_requests"@)) is Some
            &&& u64_member(field(es, "total_errors"@)) is Some
            &&& scaled_member(field(es, "error_rate"@), 6) is Some
            &&& scaled_member(field(es, "requests_per_minute"@), 3) is Some
            &&& text_ok(field(es, "strategy"@))
            &&& text_list_ok(field(es, "models"@))
            &&& pool_list_ok(field(es, "pools"@))
        },
        None => false,
    }
}

/// Whether `x` is what the members of `v` say, member by member.
pub open spec fn stats_is(v: JsonValue, x: StatsResponse) -> bool {
    match members(v) {
        Some(es) => {
            &&& scaled_member(field(es, "uptime_seconds"@), 6) == Some(x.uptime_us)
            &&& u64_member(field(es, "total_requests"@)) == Some(x.total_requests)
            &&& u64_member(field(es, "total_errors"@)) == Some(x.total_errors)
            &&& scaled_member(field(es, "error_rate"@), 6) == Some(x.error_rate_ppm)
            &&& scaled_member(field(es, "requests_per_minute"@), 3) == Some(x.requests_per_kilominute)
            &&& text_is(field(es, "strategy"@), x.strategy)
            &&& text_list_is(field(es, "models"@), x.models@)
            &&& pool_list_is(field(es, "pools"@), x.pools@)
        },
        None => false,
    }
}

/// Decodes a `StatsResponse`; `None` when a member has the wrong type.
pub fn decode_stats(v: &JsonValue) -> (r: Option<StatsResponse>)
    ensures
        stats_ok(*v) <==> r is Some,
        r matches Some(x) ==> stats_is(*v, x),
{
    match v {
        JsonValue::Object(keys, values) => {
            let uptime_us = match read_scaled(get_field(keys, values, "uptime_seconds"), 6) {
                Some(x) => x,
                None => {
                    return None;
                },
            };
            let total_requests = match read_u64(get_field(keys, values, "total_requests")) {
                Some(x) => x,
                None => {
                    return None;
                },
            };
            let total_errors = match read_u64(get_field(keys, values, "total_errors")) {
                Some(x) => x,
                None => {
                    return None;
                },
            };
            let error_rate_ppm = match read_scaled(get_field(keys, values, "error_rate"), 6) {
                Some(x) => x,
                None => {
                    return None;
                },
            };
            let requests_per_kilominute = match read_scaled(get_field(keys, values, "requests_per_minute"), 3) {
                Some(x) => x,
                None => {
                    return None;
                },
            };
            let strategy = match read_text(get_field(keys, values, "strategy")) {
                Some(x) => x,
                None => {
                    return None;
                },
            };
            let models = match decode_text_list(get_field(keys, values, "models")) {
                Some(x) => x,
                None => {
                    return None;
                },
            };
            let pools = match decode_pool_list(get_field(keys, values, "pools")) {
                Some(x) => x,
                None => {
                    return None;
                },
            };
            Some(StatsResponse { uptime_us, total_requests, total_errors, error_rate_ppm, requests_per_kilominute, strategy, models, pools })
        },
        _ => None,
    }
}

/// Whether an array member holds only items that decode as `CompletedTurn`; absent counts as empty.
pub open spec fn turn_list_ok(f: Option<JsonValue>) -> bool {
    match array_items(f) {
        Some(xs) => forall|k: int| 0 <= k < xs.len() ==> turn_ok(#[trigger] xs[k]),
        None => false,
    }
}

/// Whether `ts` is what an array member's items say, item by item.
pub open spec fn turn_list_is(f: Option<JsonValue>, ts: Seq<CompletedTurn>) -> bool {
    match array_items(f) {
        Some(xs) => xs.len() == ts.len() && forall|k: int|
            0 <= k < xs.len() ==> turn_is(#[trigger] xs[k], ts[k]),
        None => false,
    }
}

fn decode_turn_list(f: Option<&JsonValue>) -> (r: Option<Vec<CompletedTurn>>)
    ensures
        turn_list_ok(opt_deref(f)) <==> r is Some,
        r matches Some(ts) ==> turn_list_is(opt_deref(f), ts@),
{
    match f {
        None => Some(Vec::new()),
        Some(JsonValue::Array(items)) => {
            let mut out: Vec<CompletedTurn> = Vec::new();
            let mut i: usize = 0;
            while i < items.len()
                invariant
                    0 <= i <= items@.len(),
                    out@.len() == i,
                    array_items(opt_deref(f)) == Some(items@),
                    forall|k: int| 0 <= k < i ==> turn_ok(#[trigger] items@[k]) && turn_is(items@[k], out@[k]),
                decreases items@.len() - i,
            {
                match decode_turn(&items[i]) {
                    Some(x) => out.push(x),
                    None => {
                        assert(!turn_ok(items@[i as int]));
                        assert(!turn_list_ok(opt_deref(f))) by {
                            if turn_list_ok(opt_deref(f)) {
                                let xs = array_items(opt_deref(f))->Some_0;
                                assert(xs == items@);
                                assert(turn_ok(xs[i as int]));
                            }
                        }
                        return None;
                    },
                }
                i += 1;
            }
            Some(out)
        },
        Some(_) => None,
    }
}

/// Whether an array member holds only items that decode as `SessionGroup`; absent counts as empty.
pub open spec fn session_list_ok(f: Option<JsonValue>) -> bool {
    match array_items(f) {
        Some(xs) => forall|k: int| 0 <= k < xs.len() ==> session_ok(#[trigger] xs[k]),
        None => false,
    }
}

/// Whether `ts` is what an array member's items say, item by item.
pub open spec fn session_list_is(f: Option<JsonValue>, ts: Seq<SessionGroup>) -> bool {
    match array_items(f) {
        Some(xs) => xs.len() == ts.len() && forall|k: int|
            0 <= k < xs.len() ==> session_is(#[trigger] xs[k], ts[k]),
        None => false,
    }
}

fn decode_session_list(f: Option<&JsonValue>) -> (r: Option<Vec<SessionGroup>>)
    ensures
        session_list_ok(opt_deref(f)) <==> r is Some,
        r matches Some(ts) ==> session_list_is(opt_deref(f), ts@),
{
    match f {
        None => Some(Vec::new()),
        Some(JsonValue::Array(items)) => {
            let mut out: Vec<SessionGroup> = Vec::new();
            let mut i: usize = 0;
            while i < items.len()
                invariant
                    0 <= i <= items@.len(),
                    out@.len() == i,
                    array_items(opt_deref(f)) == Some(items@),
                    forall|k: int| 0 <= k < i ==> session_ok(#[trigger] items@[k]) && session_is(items@[k], out@[k]),
                decreases items@.len() - i,
            {
                match decode_session(&items[i]) {
                    Some(x) => out.push(x),
                    None => {
                        assert(!session_ok(items@[i as int]));
                        assert(!session_list_ok(opt_deref(f))) by {
                            if session_list_ok(opt_deref(f)) {
                                let xs = array_items(opt_deref(f))->Some_0;
                                assert(xs == items@);
                                assert(session_ok(xs[i as int]));
                            }
                        }
                        return None;
                    },
                }
                i += 1;
            }
            Some(out)
        },
        Some(_) => None,
    }
}

/// Whether an array member holds only items that decode as `QueueRequest`; absent counts as empty.
pub open spec fn request_list_ok(f: Option<JsonValue>) -> bool {
    match array_items(f) {
        Some(xs) => forall|k: int| 0 <= k < xs.len() ==> request_ok(#[trigger] xs[k]),
        None => false,
    }
}

/// Whether `ts` is what an array member's items say, item by item.
pub open spec fn request_list_is(f: Option<JsonValue>, ts: Seq<QueueRequest>) -> bool {
    match array_items(f) {
        Some(xs) => xs.len() == ts.len() && forall|k: int|
            0 <= k < xs.len() ==> request_is(#[trigger] xs[k], ts[k]),
        None => false,
    }
}

fn decode_request_list(f: Option<&JsonValue>) -> (r: Option<Vec<QueueRequest>>)
    ensures
        request_list_ok(opt_deref(f)) <==> r is Some,
        r matches Some(ts) ==> request_list_is(opt_deref(f), ts@),
{
    match f {
        None => Some(Vec::new()),
        Some(JsonValue::Array(items)) => {
            let mut out: Vec<QueueRequest> = Vec::new();
            let mut i: usize = 0;
            while i < items.len()
                invariant
                    0 <= i <= items@.len(),
                    out@.len() == i,
                    array_items(opt_deref(f)) == Some(items@),
                    forall|k: int| 0 <= k < i ==> request_ok(#[trigger] items@[k]) && request_is(items@[k], out@[k]),
                decreases items@.len() - i,
            {
                match decode_request(&items[i]) {
                    Some(x) => out.push(x),
                    None => {
                        assert(!request_ok(items@[i as int]));
                        assert(!request_list_ok(opt_deref(f))) by {
                            if request_list_ok(opt_deref(f)) {
                                let xs = array_items(opt_deref(f))->Some_0;
                                assert(xs == items@);
                                assert(request_ok(xs[i as int]));
                            }
                        }
                        return None;
                    },
                }
                i += 1;
            }
            Some(out)
        },
        Some(_) => None,
    }
}

/// Whether an array member holds only items that decode as `QueueBackend`; absent counts as empty.
pub open spec fn queue_backend_list_ok(f: Option<JsonValue>) -> bool {
    match array_items(f) {
        Some(xs) => forall|k: int| 0 <= k < xs.len() ==> queue_backend_ok(#[trigger] xs[k]),
        None => false,
    }
}

/// Whether `ts` is what an array member's items say, item by item.
pub open spec fn queue_backend_list_is(f: Option<JsonValue>, ts: Seq<QueueBackend>) -> bool {
    match array_items(f) {
        Some(xs) => xs.len() == ts.len() && forall|k: int|
            0 <= k < xs.len() ==> queue_backend_is(#[trigger] xs[k], ts[k]),
        None => false,
    }
}

fn decode_queue_backend_list(f: Option<&JsonValue>) -> (r: Option<Vec<QueueBackend>>)
    ensures
        queue_backend_list_ok(opt_deref(f)) <==> r is Some,
        r matches Some(ts) ==> queue_backend_list_is(opt_deref(f), ts@),
{
    match f {
        None => Some(Vec::new()),
        Some(JsonValue::Array(items)) => {
            let mut out: Vec<QueueBackend> = Vec::new();
            let mut i: usize = 0;
            while i < items.len()
                invariant
                    0 <= i <= items@.len(),
                    out@.len() == i,
                    array_items(opt_deref(f)) == Some(items@),
                    forall|k: int| 0 <= k < i ==> queue_backend_ok(#[trigger] items@[k]) && queue_backend_is(items@[k], out@[k]),
                decreases items@.len() - i,
            {
                match decode_queue_backend(&items[i]) {
                    Some(x) => out.push(x),
                    None => {
                        assert(!queue_backend_ok(items@[i as int]));
                        assert(!queue_backend_list_ok(opt_deref(f))) by {
                            if queue_backend_list_ok(opt_deref(f)) {
                                let xs = array_items(opt_deref(f))->Some_0;
                                assert(xs == items@);
                                assert(queue_backend_ok(xs[i as int]));
                            }
                        }
                        return None;
                    },
                }
                i += 1;
            }
            Some(out)
        },
        Some(_) => None,
    }
}

/// Whether an array member holds only items that decode as `ClientGroup`; absent counts as empty.
pub open spec fn client_list_ok(f: Option<JsonValue>) -> bool {
    match array_items(f) {
        Some(xs) => forall|k: int| 0 <= k < xs.len() ==> client_ok(#[trigger] xs[k]),
        None => false,
    }
}

/// Whether `ts` is what an array member's items say, item by item.
pub open spec fn client_list_is(f: Option<JsonValue>, ts: Seq<ClientGroup>) -> bool {
    match array_items(f) {
        Some(xs) => xs.len() == ts.len() && forall|k: int|
            0 <= k < xs.len() ==> client_is(#[trigger] xs[k], ts[k]),
        None => false,
    }
}

fn decode_client_list(f: Option<&JsonValue>) -> (r: Option<Vec<ClientGroup>>)
    ensures
        client_list_ok(opt_deref(f)) <==> r is Some,
        r matches Some(ts) ==> client_list_is(opt_deref(f), ts@),
{
    match f {
        None => Some(Vec::new()),
        Some(JsonValue::Array(items)) => {
            let mut out: Vec<ClientGroup> = Vec::new();
            let mut i: usize = 0;
            while i < items.len()
                invariant
                    0 <= i <= items@.len(),
                    out@.len() == i,
                    array_items(opt_deref(f)) == Some(items@),
                    forall|k: int| 0 <= k < i ==> client_ok(#[trigger] items@[k]) && client_is(items@[k], out@[k]),
                decreases items@.len() - i,
            {
                match decode_client(&items[i]) {
                    Some(x) => out.push(x),
                    None => {
                        assert(!client_ok(items@[i as int]));
                        assert(!client_list_ok(opt_deref(f))) by {
                            if client_list_ok(opt_deref(f)) {
                                let xs = array_items(opt_deref(f))->Some_0;
                                assert(xs == items@);
                                assert(client_ok(xs[i as int]));
                            }
                        }
                        return None;
                    },
                }
                i += 1;
            }
            Some(out)
        },
        Some(_) => None,
    }
}

/// Whether an array member holds only items that decode as `BackendStats`; absent counts as empty.
pub open spec fn backend_stats_list_ok(f: Option<JsonValue>) -> bool {
    match array_items(f) {
        Some(xs) => forall|k: int| 0 <= k < xs.len() ==> backend_stats_ok(#[trigger] xs[k]),
        None => false,
    }
}

/// Whether `ts` is what an array member's items say, item by item.
pub open spec fn backend_stats_list_is(f: Option<JsonValue>, ts: Seq<BackendStats>) -> bool {
    match array_items(f) {
        Some(xs) => xs.len() == ts.len() && forall|k: int|
            0 <= k < xs.len() ==> backend_stats_is(#[trigger] xs[k], ts[k]),
        None => false,
    }
}

fn decode_backend_stats_list(f: Option<&JsonValue>) -> (r: Option<Vec<BackendStats>>)
    ensures
        backend_stats_list_ok(opt_deref(f)) <==> r is Some,
        r matches Some(ts) ==> backend_stats_list_is(opt_deref(f), ts@),
{
    match f {
        None => Some(Vec::new()),
        Some(JsonValue::Array(items)) => {
            let mut out: Vec<BackendStats> = Vec::new();
            let mut i: usize = 0;
            while i < items.len()
                invariant
                    0 <= i <= items@.len(),
                    out@.len() == i,
                    array_items(opt_deref(f)) == Some(items@),
                    forall|k: int| 0 <= k < i ==> backend_stats_ok(#[trigger] items@[k]) && backend_stats_is(items@[k], out@[k]),
                decreases items@.len() - i,
            {
                match decode_backend_stats(&items[i]) {
                    Some(x) => out.push(x),
                    None => {
                        assert(!backend_stats_ok(items@[i as int]));
                        assert(!backend_stats_list_ok(opt_deref(f))) by {
                            if backend_stats_list_ok(opt_deref(f)) {
                                let xs = array_items(opt_deref(f))->Some_0;
                                assert(xs == items@);
                                assert(backend_stats_ok(xs[i as int]));
                            }
                        }
                        return None;
                    },
                }
                i += 1;
            }
            Some(out)
        },
        Some(_) => None,
    }
}

pub open spec fn text_ok_item(v: JsonValue) -> bool {
    v matches JsonValue::Text(_)
}

pub open spec fn text_is_item(v: JsonValue, x: String) -> bool {
    v == JsonValue::Text(x)
}

/// Whether an array member holds only items that decode as `String`; absent counts as empty.
pub open spec fn text_list_ok(f: Option<JsonValue>) -> bool {
    match array_items(f) {
        Some(xs) => forall|k: int| 0 <= k < xs.len() ==> text_ok_item(#[trigger] xs[k]),
        None => false,
    }
}

/// Whether `ts` is what an array member's items say, item by item.
pub open spec fn text_list_is(f: Option<JsonValue>, ts: Seq<String>) -> bool {
    match array_items(f) {
        Some(xs) => xs.len() == ts.len() && forall|k: int|
            0 <= k < xs.len() ==> text_is_item(#[trigger] xs[k], ts[k]),
        None => false,
    }
}

fn decode_text_list(f: Option<&JsonValue>) -> (r: Option<Vec<String>>)
    ensures
        text_list_ok(opt_deref(f)) <==> r is Some,
        r matches Some(ts) ==> text_list_is(opt_deref(f), ts@),
{
    match f {
        None => Some(Vec::new()),
        Some(JsonValue::Array(items)) => {
            let mut out: Vec<String> = Vec::new();
            let mut i: usize = 0;
            while i < items.len()
                invariant
                    0 <= i <= items@.len(),
                    out@.len() == i,
                    array_items(opt_deref(f)) == Some(items@),
                    forall|k: int| 0 <= k < i ==> text_ok_item(#[trigger] items@[k]) && text_is_item(items@[k], out@[k]),
                decreases items@.len() - i,
            {
                match &items[i] {
                    JsonValue::Text(s) => out.push(s.clone()),
                    _ => {
                        assert(!text_ok_item(items@[i as int]));
                        assert(!text_list_ok(opt_deref(f))) by {
                            if text_list_ok(opt_deref(f)) {
                                let xs = array_items(opt_deref(f))->Some_0;
                                assert(xs == items@);
                                assert(text_ok_item(xs[i as int]));
                            }
                        }
                        return None;
                    },
                }
                i += 1;
            }
            Some(out)
        },
        Some(_) => None,
    }
}

/// Whether an array member holds only items that decode as `PoolStats`; absent counts as empty.
pub open spec fn pool_list_ok(f: Option<JsonValue>) -> bool {
    match array_items(f) {
        Some(xs) => forall|k: int| 0 <= k < xs.len() ==> pool_ok(#[trigger] xs[k]),
        None => false,
    }
}

/// Whether `ts` is what an array member's items say, item by item.
pub open spec fn pool_list_is(f: Option<JsonValue>, ts: Seq<PoolStats>) -> bool {
    match array_items(f) {
        Some(xs) => xs.len() == ts.len() && forall|k: int|
            0 <= k < xs.len() ==> pool_is(#[trigger] xs[k], ts[k]),
        None => false,
    }
}

fn decode_pool_list(f: Option<&JsonValue>) -> (r: Option<Vec<PoolStats>>)
    ensures
        pool_list_ok(opt_deref(f)) <==> r is Some,
        r matches Some(ts) ==> pool_list_is(opt_deref(f), ts@),
{
    match f {
        None => Some(Vec::new()),
        Some(JsonValue::Array(items)) => {
            let mut out: Vec<PoolStats> = Vec::new();
            let mut i: usize = 0;
            while i < items.len()
                invariant
                    0 <= i <= items@.len(),
                    out@.len() == i,
                    array_items(opt_deref(f)) == Some(items@),
                    forall|k: int| 0 <= k < i ==> pool_ok(#[trigger] items@[k]) && pool_is(items@[k], out@[k]),
                decreases items@.len() - i,
            {
                match decode_pool(&items[i]) {
                    Some(x) => out.push(x),
                    None => {
                        assert(!pool_ok(items@[i as int]));
                        assert(!pool_list_ok(opt_deref(f))) by {
                            if pool_list_ok(opt_deref(f)) {
                                let xs = array_items(opt_deref(f))->Some_0;
                                assert(xs == items@);
                                assert(pool_ok(xs[i as int]));
                            }
                        }
                        return None;
                    },
                }
                i += 1;
            }
            Some(out)
        },
        Some(_) => None,
    }
}

/// Whether an object member is absent or decodes as a `QueueSummary`.
pub open spec fn summary_member_ok(f: Option<JsonValue>) -> bool {
    match f {
        None => true,
        Some(v) => summary_ok(v),
    }
}

/// Whether `x` is what an object member says; all zero when absent.
pub open spec fn summary_member_is(f: Option<JsonValue>, x: QueueSummary) -> bool {
    match f {
        None => x == QueueSummary { pending: 0, in_flight: 0, completed_last_minute: 0, total_tracked: 0 },
        Some(v) => summary_is(v, x),
    }
}

fn decode_summary_member(f: Option<&JsonValue>) -> (r: Option<QueueSummary>)
    ensures
        summary_member_ok(opt_deref(f)) <==> r is Some,
        r matches Some(x) ==> summary_member_is(opt_deref(f), x),
{
    match f {
        None => Some(QueueSummary { pending: 0, in_flight: 0, completed_last_minute: 0, total_tracked: 0 }),
        Some(v) => decode_summary(v),
    }
}

/// Decodes the queue document `text`; `None` when it is not JSON or a member
/// has the wrong type.
pub fn parse_queue(text: &str) -> (r: Option<QueueResponse>)
    ensures
        match parsed_json(text@) {
            Some(v) => (queue_ok(v) <==> r is Some) && (r matches Some(q) ==> queue_is(v, q)),
            None => r is None,
        },
{
    match parse_json(text) {
        Some(v) => decode_queue(&v),
        None => None,
    }
}

/// Decodes the stats document `text`; `None` when it is not JSON or a member
/// has the wrong type.
pub fn parse_stats(text: &str) -> (r: Option<StatsResponse>)
    ensures
        match parsed_json(text@) {
            Some(v) => (stats_ok(v) <==> r is Some) && (r matches Some(s) ==> stats_is(v, s)),
            None => r is None,
        },
{
    match parse_json(text) {
        Some(v) => decode_stats(&v),
        None => None,
    }
}

/// Whether a verification marker reports success: an object whose
/// `overall_success` member is `true`.
pub open spec fn marker_passed(v: JsonValue) -> bool {
    match members(v) {
        Some(es) => field(es, "overall_success"@) == Some(JsonValue::Bool(true)),
        None => false,
    }
}

/// Whether the verification marker `v` reports success.
pub fn verification_passed(v: &JsonValue) -> (r: bool)
    ensures
        r == marker_passed(*v),
{
    match v {
        JsonValue::Object(keys, values) => match get_field(keys, values, "overall_success") {
            Some(JsonValue::Bool(b)) => *b,
            _ => false,
        },
        _ => false,
    }
}

/// Whether an artifact succeeded, given the text of its verification marker
/// (`None` when the marker is missing or unreadable): only a marker that
/// parses and says `overall_success: true` counts.
pub fn check_success(marker: Option<&str>) -> (r: bool)
    ensures
        r == match marker {
            Some(t) => match parsed_json(t@) {
                Some(v) => marker_passed(v),
                None => false,
            },
            None => false,
        },
{
    match marker {
        Some(t) => match parse_json(t) {
            Some(v) => verification_passed(&v),
            None => false,
        },
        None => false,
    }
}

} // verus!
