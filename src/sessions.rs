//! The sessions of a queue document, whichever way the proxy grouped them.

use vstd::prelude::*;
use crate::model::{ClientGroup, QueueResponse, SelectableItem, SessionGroup};
use crate::analysis::Severity;

verus! {

/// The sessions owned by `clients`, client by client, in order.
pub open spec fn client_sessions(clients: Seq<ClientGroup>) -> Seq<SessionGroup>
    decreases clients.len(),
{
    if clients.len() == 0 {
        Seq::empty()
    } else {
        client_sessions(clients.drop_last()) + clients.last().sessions@
    }
}

/// Whether the document groups sessions by client (or lists orphans).
pub open spec fn is_hierarchical(q: QueueResponse) -> bool {
    q.clients@.len() > 0 || q.orphan_sessions@.len() > 0
}

/// Every session of the document: those under clients, then the orphans;
/// the flat list when the document has neither.
pub open spec fn all_sessions(q: QueueResponse) -> Seq<SessionGroup> {
    if is_hierarchical(q) {
        client_sessions(q.clients@) + q.orphan_sessions@
    } else {
        q.sessions@
    }
}

/// Appends a reference to each of `src`'s sessions to `dst`.
fn push_all<'a>(dst: &mut Vec<&'a SessionGroup>, src: &'a Vec<SessionGroup>)
    ensures
        final(dst)@.len() == old(dst)@.len() + src@.len(),
        forall|k: int| 0 <= k < old(dst)@.len() ==> *final(dst)@[k] == *old(dst)@[k],
        forall|k: int|
            0 <= k < src@.len() ==> *final(dst)@[old(dst)@.len() + k] == src@[k],
{
    let mut j: usize = 0;
    while j < src.len()
        invariant
            0 <= j <= src@.len(),
            dst@.len() == old(dst)@.len() + j,
            forall|k: int| 0 <= k < old(dst)@.len() ==> *dst@[k] == *old(dst)@[k],
            forall|k: int| 0 <= k < j ==> *dst@[old(dst)@.len() + k] == src@[k],
        decreases src@.len() - j,
    {
        dst.push(&src[j]);
        j += 1;
    }
}

/// Every session of the queue document, as `all_sessions` orders them.
pub fn collect_all_sessions(queue: &QueueResponse) -> (r: Vec<&SessionGroup>)
    ensures
        r@.len() == all_sessions(*queue).len(),
        forall|k: int| 0 <= k < r@.len() ==> *r@[k] == all_sessions(*queue)[k],
{
    let mut sessions: Vec<&SessionGroup> = Vec::new();
    let mut i: usize = 0;
    while i < queue.clients.len()
        invariant
            0 <= i <= queue.clients@.len(),
            sessions@.len() == client_sessions(queue.clients@.take(i as int)).len(),
            forall|k: int|
                0 <= k < sessions@.len() ==> *sessions@[k] == client_sessions(
                    queue.clients@.take(i as int),
                )[k],
        decreases queue.clients@.len() - i,
    {
        assert(queue.clients@.take(i + 1).drop_last() =~= queue.clients@.take(i as int));
        push_all(&mut sessions, &queue.clients[i].sessions);
        i += 1;
    }
    assert(queue.clients@.take(i as int) =~= queue.clients@);
    if queue.clients.len() == 0 && queue.orphan_sessions.len() == 0 {
        push_all(&mut sessions, &queue.sessions);
    } else {
        push_all(&mut sessions, &queue.orphan_sessions);
    }
    sessions
}

/// What a session, or the sessions of a client, are doing.
#[derive(Clone, Copy, Debug, PartialEq, Eq, Structural)]
pub enum ActivityStatus {
    InFlight,
    Pending,
    Failed,
    Idle,
}

impl ActivityStatus {
    /// Fixed-width label of the status column.
    pub fn label(&self) -> (r: &'static str)
        ensures
            r@ == match *self {
                ActivityStatus::InFlight => "IN-FLGT"@,
                ActivityStatus::Pending => "PENDING"@,
                ActivityStatus::Failed => "FAILED"@,
                ActivityStatus::Idle => "IDLE"@,
            },
    {
        match self {
            ActivityStatus::InFlight => "IN-FLGT",
            ActivityStatus::Pending => "PENDING",
            ActivityStatus::Failed => "FAILED",
            ActivityStatus::Idle => "IDLE",
        }
    }

    /// The colour class in which the label is shown.
    pub fn severity(&self) -> (r: Severity)
        ensures
            r == match *self {
                ActivityStatus::InFlight => Severity::Accent,
                ActivityStatus::Pending => Severity::Warn,
                ActivityStatus::Failed => Severity::Error,
                ActivityStatus::Idle => Severity::Good,
            },
    {
        match self {
            ActivityStatus::InFlight => Severity::Accent,
            ActivityStatus::Pending => Severity::Warn,
            ActivityStatus::Failed => Severity::Error,
            ActivityStatus::Idle => Severity::Good,
        }
    }
}

/// In-flight work outranks pending work, which outranks failures.
pub open spec fn status_of(in_flight: bool, pending: bool, failed: bool) -> ActivityStatus {
    if in_flight {
        ActivityStatus::InFlight
    } else if pending {
        ActivityStatus::Pending
    } else if failed {
        ActivityStatus::Failed
    } else {
        ActivityStatus::Idle
    }
}

/// Status of a single session.
pub fn session_status(sess: &SessionGroup) -> (r: ActivityStatus)
    ensures
        r == status_of(
            sess.in_flight_requests > 0,
            sess.pending_requests > 0,
            sess.failed_requests > 0,
        ),
{
    if sess.in_flight_requests > 0 {
        ActivityStatus::InFlight
    } else if sess.pending_requests > 0 {
        ActivityStatus::Pending
    } else if sess.failed_requests > 0 {
        ActivityStatus::Failed
    } else {
        ActivityStatus::Idle
    }
}

/// Status of a client: the most urgent condition found in any of its sessions.
pub fn client_aggregate_status(client: &ClientGroup) -> (r: ActivityStatus)
    ensures
        r == status_of(
            exists|k: int|
                0 <= k < client.sessions@.len() && client.sessions@[k].in_flight_requests > 0,
            exists|k: int|
                0 <= k < client.sessions@.len() && client.sessions@[k].pending_requests > 0,
            exists|k: int|
                0 <= k < client.sessions@.len() && client.sessions@[k].failed_requests > 0,
        ),
{
    let ss = &client.sessions;
    let mut has_inflight = false;
    let mut has_pending = false;
    let mut has_failed = false;
    let mut i: usize = 0;
    while i < ss.len()
        invariant
            0 <= i <= ss@.len(),
            has_inflight == exists|k: int| 0 <= k < i && ss@[k].in_flight_requests > 0,
            has_pending == exists|k: int| 0 <= k < i && ss@[k].pending_requests > 0,
            has_failed == exists|k: int| 0 <= k < i && ss@[k].failed_requests > 0,
        decreases ss@.len() - i,
    {
        if ss[i].in_flight_requests > 0 {
            has_inflight = true;
        }
        if ss[i].pending_requests > 0 {
            has_pending = true;
        }
        if ss[i].failed_requests > 0 {
            has_failed = true;
        }
        i += 1;
    }
    if has_inflight {
        ActivityStatus::InFlight
    } else if has_pending {
        ActivityStatus::Pending
    } else if has_failed {
        ActivityStatus::Failed
    } else {
        ActivityStatus::Idle
    }
}

/// Whether `id` is among `ids`.
pub open spec fn listed(ids: Seq<String>, id: Seq<char>) -> bool {
    exists|k: int| 0 <= k < ids.len() && ids[k]@ == id
}

/// Whether `id` is among `ids`.
pub fn contains_id(ids: &Vec<String>, id: &String) -> (r: bool)
    ensures
        r == listed(ids@, id@),
{
    let mut i: usize = 0;
    while i < ids.len()
        invariant
            0 <= i <= ids@.len(),
            forall|k: int| 0 <= k < i ==> ids@[k]@ != id@,
        decreases ids@.len() - i,
    {
        if ids[i] == *id {
            return true;
        }
        i += 1;
    }
    false
}

/// One `Session` entry per session, in order.
pub open spec fn session_items(ss: Seq<SessionGroup>) -> Seq<SelectableItem> {
    ss.map_values(|s: SessionGroup| SelectableItem::Session(s.session_id))
}

/// Each client's entry, followed by its sessions' entries when it is expanded.
pub open spec fn client_items(cs: Seq<ClientGroup>, expanded: Seq<String>) -> Seq<SelectableItem>
    decreases cs.len(),
{
    if cs.len() == 0 {
        Seq::empty()
    } else {
        let c = cs.last();
        client_items(cs.drop_last(), expanded) + seq![SelectableItem::Client(c.client_id)] + if listed(
            expanded,
            c.client_id@,
        ) {
            session_items(c.sessions@)
        } else {
            Seq::empty()
        }
    }
}

/// The entries the sessions panel lets the cursor visit: clients (with the
/// sessions of expanded ones) then orphans; the flat list when the document
/// has no clients and no orphans.
pub open spec fn selectable_items(q: QueueResponse, expanded: Seq<String>) -> Seq<SelectableItem> {
    if is_hierarchical(q) {
        client_items(q.clients@, expanded) + session_items(q.orphan_sessions@)
    } else {
        session_items(q.sessions@)
    }
}

fn push_session_items(items: &mut Vec<SelectableItem>, ss: &Vec<SessionGroup>)
    ensures
        final(items)@ == old(items)@ + session_items(ss@),
{
    let mut j: usize = 0;
    while j < ss.len()
        invariant
            0 <= j <= ss@.len(),
            items@ == old(items)@ + session_items(ss@.take(j as int)),
        decreases ss@.len() - j,
    {
        assert(session_items(ss@.take(j + 1)) =~= session_items(ss@.take(j as int)) + seq![
            SelectableItem::Session(ss@[j as int].session_id),
        ]);
        items.push(SelectableItem::Session(ss[j].session_id.clone()));
        j += 1;
    }
    assert(ss@.take(j as int) =~= ss@);
}

/// The selectable entries of `queue` with the clients of `expanded` open.
pub fn selectable_items_for(queue: &QueueResponse, expanded: &Vec<String>) -> (r: Vec<SelectableItem>)
    ensures
        r@ == selectable_items(*queue, expanded@),
{
    let mut items: Vec<SelectableItem> = Vec::new();
    if queue.clients.len() > 0 || queue.orphan_sessions.len() > 0 {
        let cs = &queue.clients;
        let mut i: usize = 0;
        while i < cs.len()
            invariant
                0 <= i <= cs@.len(),
                items@ == client_items(cs@.take(i as int), expanded@),
            decreases cs@.len() - i,
        {
            assert(cs@.take(i + 1).drop_last() =~= cs@.take(i as int));
            items.push(SelectableItem::Client(cs[i].client_id.clone()));
            if contains_id(expanded, &cs[i].client_id) {
                push_session_items(&mut items, &cs[i].sessions);
            }
            proof {
                let t = cs@.take(i + 1);
                assert(t.last() == cs@[i as int]);
                if listed(expanded@, cs@[i as int].client_id@) {
                    assert(items@ =~= client_items(t, expanded@));
                } else {
                    assert(items@ =~= client_items(t, expanded@));
                }
            }
            i += 1;
        }
        assert(cs@.take(i as int) =~= cs@);
        push_session_items(&mut items, &queue.orphan_sessions);
    } else {
        push_session_items(&mut items, &queue.sessions);
    }
    items
}

/// The `Session` entries of `items`, in order.
pub open spec fn session_entries(items: Seq<SelectableItem>) -> Seq<SelectableItem>
    decreases items.len(),
{
    if items.len() == 0 {
        Seq::empty()
    } else {
        session_entries(items.drop_last()) + match items.last() {
            SelectableItem::Session(_) => seq![items.last()],
            SelectableItem::Client(_) => Seq::empty(),
        }
    }
}

proof fn lemma_session_entries_concat(a: Seq<SelectableItem>, b: Seq<SelectableItem>)
    ensures
        session_entries(a + b) == session_entries(a) + session_entries(b),
    decreases b.len(),
{
    if b.len() == 0 {
        assert(a + b =~= a);
        assert(session_entries(a) + session_entries(b) =~= session_entries(a));
    } else {
        assert((a + b).drop_last() =~= a + b.drop_last());
        lemma_session_entries_concat(a, b.drop_last());
        assert(session_entries(a + b) =~= session_entries(a) + session_entries(b));
    }
}

proof fn lemma_session_entries_of_sessions(ss: Seq<SessionGroup>)
    ensures
        session_entries(session_items(ss)) == session_items(ss),
    decreases ss.len(),
{
    if ss.len() > 0 {
        assert(session_items(ss).drop_last() =~= session_items(ss.drop_last()));
        lemma_session_entries_of_sessions(ss.drop_last());
        assert(session_entries(session_items(ss)) =~= session_items(ss));
    }
}

proof fn lemma_expanded_clients(cs: Seq<ClientGroup>, expanded: Seq<String>)
    requires
        forall|i: int| 0 <= i < cs.len() ==> listed(expanded, #[trigger] cs[i].client_id@),
    ensures
        session_entries(client_items(cs, expanded)) == session_items(client_sessions(cs)),
    decreases cs.len(),
{
    if cs.len() > 0 {
        let c = cs.last();
        assert(listed(expanded, cs[cs.len() - 1].client_id@));
        lemma_expanded_clients(cs.drop_last(), expanded);
        let head = client_items(cs.drop_last(), expanded);
        let one = seq![SelectableItem::Client(c.client_id)];
        lemma_session_entries_concat(head + one, session_items(c.sessions@));
        lemma_session_entries_concat(head, one);
        assert(session_entries(one) =~= Seq::<SelectableItem>::empty()) by {
            assert(one.drop_last() =~= Seq::<SelectableItem>::empty());
            assert(session_entries(one.drop_last()) =~= Seq::<SelectableItem>::empty());
            assert(one.last() == SelectableItem::Client(c.client_id));
        }
        lemma_session_entries_of_sessions(c.sessions@);
        assert(session_items(client_sessions(cs.drop_last()) + c.sessions@) =~= session_items(
            client_sessions(cs.drop_last()),
        ) + session_items(c.sessions@));
        assert(session_entries(client_items(cs, expanded)) =~= session_items(client_sessions(cs)));
    }
}

/// When every client is expanded, the session entries of the selectable list
/// are exactly the sessions that the diagnosis reads (`all_sessions`), in
/// the same order: the two traversals agree on which sessions exist.
pub proof fn lemma_traversals_agree(q: QueueResponse, expanded: Seq<String>)
    requires
        forall|i: int|
            0 <= i < q.clients@.len() ==> listed(expanded, #[trigger] q.clients@[i].client_id@),
    ensures
        session_entries(selectable_items(q, expanded)) == session_items(all_sessions(q)),
{
    if is_hierarchical(q) {
        lemma_expanded_clients(q.clients@, expanded);
        lemma_session_entries_concat(
            client_items(q.clients@, expanded),
            session_items(q.orphan_sessions@),
        );
        lemma_session_entries_of_sessions(q.orphan_sessions@);
        assert(session_items(client_sessions(q.clients@) + q.orphan_sessions@) =~= session_items(
            client_sessions(q.clients@),
        ) + session_items(q.orphan_sessions@));
    } else {
        lemma_session_entries_of_sessions(q.sessions@);
    }
}

/// The number of selectable entries: one per client, one per session of an
/// expanded client, one per orphan; one per session in a flat document.
pub open spec fn expanded_session_count(cs: Seq<ClientGroup>, expanded: Seq<String>) -> int
    decreases cs.len(),
{
    if cs.len() == 0 {
        0
    } else {
        expanded_session_count(cs.drop_last(), expanded) + if listed(
            expanded,
            cs.last().client_id@,
        ) {
            cs.last().sessions@.len() as int
        } else {
            0
        }
    }
}

proof fn lemma_client_items_len(cs: Seq<ClientGroup>, expanded: Seq<String>)
    ensures
        client_items(cs, expanded).len() == cs.len() + expanded_session_count(cs, expanded),
    decreases cs.len(),
{
    if cs.len() > 0 {
        lemma_client_items_len(cs.drop_last(), expanded);
    }
}

/// The length of the selectable list: clients, plus the sessions of the
/// expanded clients, plus the orphans; the flat list's length otherwise.
pub proof fn lemma_selectable_count(q: QueueResponse, expanded: Seq<String>)
    ensures
        selectable_items(q, expanded).len() == if is_hierarchical(q) {
            q.clients@.len() + expanded_session_count(q.clients@, expanded)
                + q.orphan_sessions@.len()
        } else {
            q.sessions@.len() as int
        },
{
    lemma_client_items_len(q.clients@, expanded);
}

/// What identifies an entry: whether it is a client, and its id's characters.
pub open spec fn item_key(i: SelectableItem) -> (bool, Seq<char>) {
    match i {
        SelectableItem::Client(c) => (true, c@),
        SelectableItem::Session(s) => (false, s@),
    }
}

/// The keys of a list of entries, in order.
pub open spec fn item_keys(items: Seq<SelectableItem>) -> Seq<(bool, Seq<char>)> {
    items.map_values(|i: SelectableItem| item_key(i))
}

/// Two session lists with the same ids, position by position.
pub open spec fn same_session_ids(a: Seq<SessionGroup>, b: Seq<SessionGroup>) -> bool {
    a.len() == b.len() && forall|k: int|
        #![trigger a[k]]
        0 <= k < a.len() ==> a[k].session_id@ == b[k].session_id@
}

/// Two client lists with the same ids, and the same session ids under each.
pub open spec fn same_client_ids(a: Seq<ClientGroup>, b: Seq<ClientGroup>) -> bool {
    a.len() == b.len() && forall|k: int|
        #![trigger a[k]]
        0 <= k < a.len() ==> a[k].client_id@ == b[k].client_id@ && same_session_ids(
            a[k].sessions@,
            b[k].sessions@,
        )
}

/// Two queue documents that name the same clients and sessions in the same places.
pub open spec fn same_ids(a: QueueResponse, b: QueueResponse) -> bool {
    &&& same_client_ids(a.clients@, b.clients@)
    &&& same_session_ids(a.orphan_sessions@, b.orphan_sessions@)
    &&& same_session_ids(a.sessions@, b.sessions@)
}

proof fn lemma_session_items_keys(a: Seq<SessionGroup>, b: Seq<SessionGroup>)
    requires
        same_session_ids(a, b),
    ensures
        item_keys(session_items(a)) == item_keys(session_items(b)),
{
    assert(item_keys(session_items(a)) =~= item_keys(session_items(b)));
}

proof fn lemma_client_items_keys(a: Seq<ClientGroup>, b: Seq<ClientGroup>, expanded: Seq<String>)
    requires
        same_client_ids(a, b),
    ensures
        item_keys(client_items(a, expanded)) == item_keys(client_items(b, expanded)),
    decreases a.len(),
{
    if a.len() > 0 {
        let n = a.len() - 1;
        assert(a[n].client_id@ == b[n].client_id@ && same_session_ids(a[n].sessions@, b[n].sessions@));
        assert(same_client_ids(a.drop_last(), b.drop_last())) by {
            assert forall|k: int| 0 <= k < a.drop_last().len() implies (#[trigger] a.drop_last()[k]).client_id@
                == b.drop_last()[k].client_id@ && same_session_ids(
                a.drop_last()[k].sessions@,
                b.drop_last()[k].sessions@,
            ) by {
                assert(a[k].client_id@ == b[k].client_id@);
            }
        }
        lemma_client_items_keys(a.drop_last(), b.drop_last(), expanded);
        lemma_session_items_keys(a[n].sessions@, b[n].sessions@);
        let ha = client_items(a.drop_last(), expanded);
        let hb = client_items(b.drop_last(), expanded);
        let oa = seq![SelectableItem::Client(a[n].client_id)];
        let ob = seq![SelectableItem::Client(b[n].client_id)];
        let ta = if listed(expanded, a[n].client_id@) { session_items(a[n].sessions@) } else { Seq::empty() };
        let tb = if listed(expanded, b[n].client_id@) { session_items(b[n].sessions@) } else { Seq::empty() };
        assert(client_items(a, expanded) == ha + oa + ta);
        assert(client_items(b, expanded) == hb + ob + tb);
        assert(item_keys(ha + oa + ta) =~= item_keys(ha) + item_keys(oa) + item_keys(ta));
        assert(item_keys(hb + ob + tb) =~= item_keys(hb) + item_keys(ob) + item_keys(tb));
        assert(item_keys(oa) =~= item_keys(ob));
        assert(item_keys(ta) =~= item_keys(tb));
    }
}

/// Documents that name the same clients and sessions in the same places
/// give selectable lists with the same entries, whatever is expanded.
pub proof fn lemma_same_ids_select_alike(a: QueueResponse, b: QueueResponse, expanded: Seq<String>)
    requires
        same_ids(a, b),
    ensures
        item_keys(selectable_items(a, expanded)) == item_keys(selectable_items(b, expanded)),
{
    lemma_client_items_keys(a.clients@, b.clients@, expanded);
    lemma_session_items_keys(a.orphan_sessions@, b.orphan_sessions@);
    lemma_session_items_keys(a.sessions@, b.sessions@);
    let ca = client_items(a.clients@, expanded);
    let cb = client_items(b.clients@, expanded);
    assert(item_keys(ca + session_items(a.orphan_sessions@)) =~= item_keys(ca) + item_keys(
        session_items(a.orphan_sessions@),
    ));
    assert(item_keys(cb + session_items(b.orphan_sessions@)) =~= item_keys(cb) + item_keys(
        session_items(b.orphan_sessions@),
    ));
}

} // verus!
