//! All sessions of the program, each under its number.
use std::collections::HashMap;

use vstd::prelude::*;

use crate::claude::{Assistant, AssistantView};
use crate::session::{ClaudeSession, SessionView};
use crate::session_keys::KeyReply;
use crate::text;
use crate::text::{cat2, decimal_of};

verus! {

broadcast use vstd::std_specs::hash::group_hash_axioms;

/// The sessions of the program.
pub struct Sessions {
    /// The number of the next session.
    pub next_id: usize,
    /// Who the sessions talk to.
    pub assistant: Assistant,
    pub table: HashMap<usize, ClaudeSession>,
}

#[verifier::ext_equal]
pub struct SessionsView {
    pub next_id: int,
    pub assistant: AssistantView,
    pub table: Map<usize, SessionView>,
}

impl View for Sessions {
    type V = SessionsView;

    open spec fn view(&self) -> SessionsView {
        SessionsView {
            next_id: self.next_id as int,
            assistant: self.assistant@,
            table: Map::new(
                |id: usize| self.table@.contains_key(id),
                |id: usize| self.table@[id]@,
            ),
        }
    }
}

/// Whether these are the members of a set of numbers, in ascending order.
pub open spec fn ascending(ids: Seq<usize>, members: Set<usize>) -> bool {
    &&& forall|i: int, j: int| 0 <= i < j < ids.len() ==> ids[i] < ids[j]
    &&& forall|id: usize| #[trigger] members.contains(id) <==> ids.contains(id)
}

impl SessionsView {
    /// Every session stands under its own number, which was handed out before.
    pub open spec fn wf(self) -> bool {
        forall|id: usize| #[trigger]
            self.table.contains_key(id) ==> self.table[id].wf() && self.table[id].id == id && id
                < self.next_id
    }

    pub open spec fn created(self) -> SessionsView {
        let id = self.next_id as usize;
        SessionsView {
            next_id: self.next_id + 1,
            table: self.table.insert(id, SessionView::new(id, self.assistant)),
            ..self
        }
    }

    pub open spec fn removed(self, id: usize) -> SessionsView {
        SessionsView { table: self.table.remove(id), ..self }
    }

    /// One session replaced.
    pub open spec fn updated(self, id: usize, session: SessionView) -> SessionsView {
        SessionsView { table: self.table.insert(id, session), ..self }
    }

    pub open spec fn killed(self, id: usize) -> SessionsView {
        if self.table.contains_key(id) {
            self.updated(id, self.table[id].forced_idle().said("  [ws] session killed"@))
        } else {
            self
        }
    }

    /// Whether a session waits for the user.
    pub open spec fn waits(self, id: usize) -> bool {
        self.table.contains_key(id) && self.table[id].state is AwaitingPermission
    }
}

/// No sessions yet; the first will be number one.
pub fn sessions(assistant: Assistant) -> (r: Sessions)
    ensures
        r@ == (SessionsView { next_id: 1, assistant: assistant@, table: Map::empty() }),
        r@.wf(),
{
    let r = Sessions { next_id: 1, assistant, table: HashMap::new() };
    assert(r@.table =~= Map::<usize, SessionView>::empty());
    r
}

/// Puts a number where it belongs among ascending ones.
fn place(ids: &mut Vec<usize>, id: usize)
    requires
        forall|i: int, j: int| 0 <= i < j < old(ids)@.len() ==> old(ids)@[i] < old(ids)@[j],
        !old(ids)@.contains(id),
    ensures
        forall|i: int, j: int| 0 <= i < j < final(ids)@.len() ==> final(ids)@[i] < final(ids)@[j],
        forall|x: usize| #[trigger] final(ids)@.contains(x) <==> old(ids)@.contains(x) || x == id,
{
    let ghost before = ids@;
    let mut at: usize = 0;
    while at < ids.len() && ids[at] < id
        invariant
            at <= ids@.len(),
            ids@ == before,
            forall|i: int| 0 <= i < at ==> ids@[i] < id,
        decreases ids@.len() - at,
    {
        at += 1;
    }
    proof {
        assert forall|i: int| at <= i < before.len() implies id < before[i] by {
            assert(before.contains(before[at as int]));
            assert(before.contains(before[i]));
        }
    }
    ids.insert(at, id);
    let ghost after = before.insert(at as int, id);
    proof {
        assert(ids@ == after);
        assert forall|x: usize| #[trigger] after.contains(x) <==> before.contains(x) || x == id by {
            if before.contains(x) {
                let i = choose|i: int| 0 <= i < before.len() && before[i] == x;
                if i < at {
                    assert(after[i] == x);
                } else {
                    assert(after[i + 1] == x);
                }
            }
            if x == id {
                assert(after[at as int] == x);
            }
            if after.contains(x) {
                let i = choose|i: int| 0 <= i < after.len() && after[i] == x;
                if i < at {
                    assert(before[i] == x);
                } else if i > at {
                    assert(before[i - 1] == x);
                }
            }
        }
    }
}

impl Sessions {
    /// A new session, and what the debug log says of it.
    pub fn create_session(&mut self) -> (r: (usize, String))
        requires
            old(self).next_id < usize::MAX,
        ensures
            final(self)@ == old(self)@.created(),
            r.0 == old(self)@.next_id,
            r.1@ == "[session] Created session "@ + text::decimal(r.0 as nat),
            old(self)@.wf() ==> final(self)@.wf(),
    {
        let id = self.next_id;
        self.next_id += 1;
        let assistant = self.assistant.copy();
        self.table.insert(id, ClaudeSession::new(id, assistant));
        let log = cat2("[session] Created session ", decimal_of(id as u64).as_str());
        assert(self@.table =~= old(self)@.created().table);
        proof {
            law_new_session_is_wf(id, self@.assistant);
        }
        (id, log)
    }

    /// Remove a session (prevents leak from WS connections)
    pub fn remove_session(&mut self, id: usize)
        ensures
            final(self)@ == old(self)@.removed(id),
            old(self)@.wf() ==> final(self)@.wf(),
    {
        self.table.remove(&id);
        assert(self@.table =~= old(self)@.removed(id).table);
    }

    /// Takes a session out of the table.
    pub fn take(&mut self, id: usize) -> (r: Option<ClaudeSession>)
        ensures
            match r {
                Some(session) => old(self)@.table.contains_key(id) && session@
                    == old(self)@.table[id] && final(self)@ == old(self)@.removed(id),
                None => !old(self)@.table.contains_key(id) && final(self)@ == old(self)@,
            },
    {
        let r = self.table.remove(&id);
        assert(r is Some ==> self@.table =~= old(self)@.removed(id).table);
        assert(r is None ==> self@.table =~= old(self)@.table);
        r
    }

    /// Puts a session into the table, in place of one under the same number.
    pub fn put(&mut self, id: usize, session: ClaudeSession)
        ensures
            final(self)@ == old(self)@.updated(id, session@),
    {
        self.table.insert(id, session);
        assert(self@.table =~= old(self)@.updated(id, session@).table);
    }

    /// Stops a session, where it is there.
    pub fn kill_session(&mut self, id: usize)
        ensures
            final(self)@ == old(self)@.killed(id),
            old(self)@.wf() ==> final(self)@.wf(),
    {
        if let Some(session) = self.take(id) {
            let mut session = session;
            session.force_idle();
            session.say("  [ws] session killed".to_string());
            self.put(id, session);
            assert(self@.table =~= old(self)@.killed(id).table);
        }
    }

    /// The numbers of all sessions, in ascending order.
    pub fn session_ids(&self) -> (ids: Vec<usize>)
        ensures
            ascending(ids@, self@.table.dom()),
    {
        let mut ids: Vec<usize> = Vec::new();
        for id in it: self.table.keys()
            invariant
                it.seq() == vstd::std_specs::iter::IteratorSpec::remaining(&self.table.keys()),
                forall|i: int, j: int| 0 <= i < j < ids@.len() ==> ids@[i] < ids@[j],
                forall|x: usize| #[trigger]
                    ids@.contains(x) <==> it.seq().unref().take(it.index() as int).contains(x),
        {
            let ghost keys = it.seq().unref();
            let ghost n = it.index() as int;
            proof {
                assert(keys.no_duplicates()) by {
                    assert(it.seq().no_duplicates());
                }
                assert(keys[n] == *id);
                assert(!keys.take(n).contains(*id));
            }
            let ghost before = ids@;
            place(&mut ids, *id);
            proof {
                assert(keys.take(n + 1) == keys.take(n).push(*id));
                assert forall|x: usize| #[trigger]
                    ids@.contains(x) <==> keys.take(n + 1).contains(x) by {
                    if keys.take(n).contains(x) {
                        let i = choose|i: int| 0 <= i < n && keys.take(n)[i] == x;
                        assert(keys.take(n + 1)[i] == x);
                    }
                    if x == *id {
                        assert(keys.take(n + 1)[n] == x);
                    }
                    assert(before.contains(x) <==> keys.take(n).contains(x));
                }
            }
        }
        proof {
            let keys = vstd::std_specs::iter::IteratorSpec::remaining(&self.table.keys()).unref();
            assert(keys.take(keys.len() as int) == keys);
            assert forall|id: usize| #[trigger] self@.table.dom().contains(id) <==> ids@.contains(
                id,
            ) by {
                assert(self@.table.dom().contains(id) <==> self.table@.dom().contains(id));
                assert(keys.to_set().contains(id) <==> keys.contains(id));
            }
        }
        ids
    }

    /// Find any session that is awaiting permission and dismiss it; of several, the one with the
    /// lowest number.
    pub fn dismiss_any_awaiting_permission(&mut self, now: u64) -> (r: Option<(usize, KeyReply)>)
        ensures
            match r {
                Some((id, reply)) => {
                    &&& old(self)@.waits(id)
                    &&& forall|other: usize| other < id ==> !#[trigger] old(self)@.waits(other)
                    &&& final(self)@.table.contains_key(id)
                    &&& final(self)@ == old(self)@.updated(id, final(self)@.table[id])
                    &&& reply.is(
                        final(self)@.table[id],
                        old(self)@.table[id].dismiss_step(
                            old(self)@.table[id].state->AwaitingPermission_0,
                            now,
                        ),
                    )
                },
                None => {
                    &&& final(self)@ == old(self)@
                    &&& forall|id: usize| !#[trigger] old(self)@.waits(id)
                },
            },
            old(self)@.wf() ==> final(self)@.wf(),
    {
        let ids = self.session_ids();
        let mut i: usize = 0;
        while i < ids.len()
            invariant
                i <= ids@.len(),
                self@ == old(self)@,
                ascending(ids@, self@.table.dom()),
                forall|j: int| 0 <= j < i ==> !#[trigger] self@.waits(ids@[j]),
            decreases ids@.len() - i,
        {
            let id = ids[i];
            assert(ids@.contains(id));
            assert(self@.table.dom().contains(id));
            let waits = match self.table.get(&id) {
                Some(session) => session.is_awaiting_permission(),
                None => false,
            };
            assert(waits == self@.waits(id));
            if waits {
                proof {
                    assert forall|other: usize| other < id implies !#[trigger] self@.waits(other) by {
                        if self@.table.dom().contains(other) {
                            let j = choose|j: int| 0 <= j < ids@.len() && ids@[j] == other;
                            assert(j < i);
                        }
                    }
                }
                if let Some(session) = self.take(id) {
                    let mut session = session;
                    let reply = session.dismiss_permission(now);
                    self.put(id, session);
                    assert(self@.table =~= old(self)@.updated(id, self@.table[id]).table);
                    return Some((id, reply));
                }
            }
            i += 1;
        }
        proof {
            assert forall|id: usize| !#[trigger] self@.waits(id) by {
                if self@.table.dom().contains(id) {
                    let j = choose|j: int| 0 <= j < ids@.len() && ids@[j] == id;
                    assert(!self@.waits(ids@[j]));
                }
            }
        }
        None
    }
}

// ── Laws ──

/// A new session is well formed, idle and without a process.
pub proof fn law_new_session_is_wf(id: usize, assistant: AssistantView)
    ensures
        SessionView::new(id, assistant).wf(),
        !SessionView::new(id, assistant).is_running(),
        !SessionView::new(id, assistant).process_child,
{
    crate::cursor::lemma_joint_on_boundary(Seq::empty(), Seq::empty());
    assert(Seq::<char>::empty() + Seq::<char>::empty() == Seq::<char>::empty());
}

/// No two sessions ever get the same number, and a new session leaves the others alone.
pub proof fn law_numbers_are_fresh(s: SessionsView)
    requires
        s.wf(),
        0 <= s.next_id < usize::MAX,
    ensures
        !s.table.contains_key(s.next_id as usize),
        s.created().next_id > s.next_id,
        forall|id: usize| #[trigger]
            s.table.contains_key(id) ==> s.created().table.contains_key(id)
                && s.created().table[id] == s.table[id],
        s.created().wf(),
{
    law_new_session_is_wf(s.next_id as usize, s.assistant);
}

/// Removing what was just created gives back the table; its number stays used up.
pub proof fn law_create_then_remove(s: SessionsView)
    requires
        s.wf(),
        0 <= s.next_id < usize::MAX,
    ensures
        s.created().removed(s.next_id as usize).table == s.table,
        s.created().removed(s.next_id as usize).next_id == s.next_id + 1,
{
    assert(!s.table.contains_key(s.next_id as usize));
    assert(s.created().removed(s.next_id as usize).table =~= s.table);
}

/// Stopping a session touches no other.
pub proof fn law_kill_touches_one(s: SessionsView, id: usize, other: usize)
    requires
        other != id,
    ensures
        s.killed(id).table.contains_key(other) == s.table.contains_key(other),
        s.table.contains_key(other) ==> s.killed(id).table[other] == s.table[other],
        s.table.contains_key(id) ==> !s.killed(id).table[id].is_running(),
{
}

/// A new session stands under the next number, as a new session of the assistant; a session that
/// is removed is gone, and the others stay; one that is replaced is what it was replaced with.
pub proof fn law_the_table(s: SessionsView, id: usize, session: SessionView, other: usize)
    requires
        0 <= s.next_id <= usize::MAX,
    ensures
        s.created().table.contains_key(s.next_id as usize),
        s.created().table[s.next_id as usize].id == s.next_id,
        s.created().table[s.next_id as usize].assistant == s.assistant,
        s.created().table[s.next_id as usize].state is Idle,
        s.created().next_id == s.next_id + 1,
        !s.removed(id).table.contains_key(id),
        other != id ==> s.removed(id).table.contains_key(other) == s.table.contains_key(other),
        other != id && s.table.contains_key(other) ==> s.removed(id).table[other]
            == s.table[other],
        s.removed(id).next_id == s.next_id,
        s.updated(id, session).table.contains_key(id) && s.updated(id, session).table[id]
            == session,
        other != id ==> s.updated(id, session).table.contains_key(other) == s.table.contains_key(
            other,
        ),
        other != id && s.table.contains_key(other) ==> s.updated(id, session).table[other]
            == s.table[other],
        s.updated(id, session).next_id == s.next_id,
{
}

/// A session that is killed is idle, has nothing left of its process and says so; what else was
/// said and set stays.
pub proof fn law_a_killed_session(s: SessionsView, id: usize)
    requires
        s.table.contains_key(id),
    ensures
        ({
            let before = s.table[id];
            let after = s.killed(id).table[id];
            &&& after == (SessionView {
                state: crate::session::StateView::Idle,
                last_event_time: None,
                process_stdin: false,
                process_child: false,
                event_rx: false,
                output_lines: before.output_lines.push("  [ws] session killed"@),
                ..before
            })
            &&& s.killed(id).next_id == s.next_id
        }),
{
}

/// The numbers of the sessions are listed once each, from the least to the greatest, and all of
/// them are.
pub proof fn law_numbers_are_listed(ids: Seq<usize>, members: Set<usize>, i: int, j: int, id: usize)
    requires
        ascending(ids, members),
    ensures
        0 <= i < j < ids.len() ==> ids[i] < ids[j],
        members.contains(id) ==> ids.contains(id),
        0 <= i < ids.len() ==> members.contains(ids[i]),
{
    if 0 <= i < ids.len() {
        assert(ids.contains(ids[i]));
    }
}

}
