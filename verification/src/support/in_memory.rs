//! The contents of the in-memory storages: sessions with their events and latest summary,
//! and memories by namespace and id.
//!
//! Listings come in a fixed order. Sessions are listed by recency (the most recently
//! updated first, ties by session key); a search takes the first matches by key, up to
//! the limit, and lists those by recency. Memories are listed by recency (ties by id), or
//! by id.

use vstd::prelude::*;
use vstd::relations::sorted_by;
use crate::domain::error::{AgentError, AgentErrorCode};
use crate::domain::ledger::{LedgerEvent, LedgerEventView};
use crate::domain::memory::{Memory, MemoryView};
use crate::domain::session::{SessionListQuery, SessionPage, SessionSearchQuery, SessionSummary};
use crate::support::ranking::{distinct_keys, rank_order, sort_ranked, Ranked};
use crate::text::{has_prefix, has_substring, lowercase, str_contains, str_eq, str_starts_with, to_lowercase};

verus! {

broadcast use {
    vstd::seq_lib::group_to_multiset_ensures,
    vstd::multiset::group_multiset_axioms,
};

/// A stored session: its key, its events and its latest summary.
#[derive(Debug)]
pub struct StoredSession {
    pub session_id: String,
    pub events: Vec<LedgerEvent>,
    pub summary: SessionSummary,
}

/// The mathematical model of a stored session.
pub struct StoredSessionView {
    pub session_id: Seq<char>,
    pub events: Seq<LedgerEventView>,
    pub summary: SessionSummary,
}

impl View for StoredSession {
    type V = StoredSessionView;

    open spec fn view(&self) -> StoredSessionView {
        StoredSessionView {
            session_id: self.session_id@,
            events: self.events@.map_values(|e: LedgerEvent| e@),
            summary: self.summary,
        }
    }
}

/// The stored sessions, each key once.
#[derive(Debug)]
pub struct SessionStore {
    sessions: Vec<StoredSession>,
}

/// The position of the session stored under `key`, if any.
pub open spec fn session_index(ss: Seq<StoredSessionView>, key: Seq<char>) -> Option<int> {
    if exists|i: int| 0 <= i < ss.len() && ss[i].session_id == key {
        Some(choose|i: int| 0 <= i < ss.len() && ss[i].session_id == key)
    } else {
        None
    }
}

/// Whether no two stored sessions share a key.
pub open spec fn unique_keys(ss: Seq<StoredSessionView>) -> bool {
    forall|i: int, j: int| 0 <= i < j < ss.len() ==> (#[trigger] ss[i]).session_id != (#[trigger] ss[j]).session_id
}

/// The events stored under `key`; none when no session has that key.
pub open spec fn events_of(ss: Seq<StoredSessionView>, key: Seq<char>) -> Seq<LedgerEventView> {
    match session_index(ss, key) {
        Some(i) => ss[i].events,
        None => Seq::empty(),
    }
}

/// The stored sessions after `event` is appended under `key` with `summary`.
pub open spec fn after_append(ss: Seq<StoredSessionView>, key: Seq<char>, event: LedgerEventView, summary: SessionSummary) -> Seq<StoredSessionView> {
    match session_index(ss, key) {
        Some(i) => ss.update(i, StoredSessionView { session_id: key, events: ss[i].events.push(event), summary }),
        None => ss.push(StoredSessionView { session_id: key, events: seq![event], summary }),
    }
}

/// A session gives back, in order, the events appended to it: after an append under
/// `key`, the session stored under `key` holds the events it had (none for a new session)
/// followed by the new one, with the new summary; the keys stay unique.
pub proof fn lemma_load_after_append(ss: Seq<StoredSessionView>, key: Seq<char>, event: LedgerEventView, summary: SessionSummary)
    requires
        unique_keys(ss),
    ensures
        unique_keys(after_append(ss, key, event, summary)),
        events_of(after_append(ss, key, event, summary), key) == events_of(ss, key).push(event),
        session_index(after_append(ss, key, event, summary), key) matches Some(i) && after_append(
            ss,
            key,
            event,
            summary,
        )[i].summary == summary,
{
    let after = after_append(ss, key, event, summary);
    match session_index(ss, key) {
        Some(i) => {
            assert(ss[i].session_id == key);
            assert forall|a: int, b: int| 0 <= a < b < after.len() implies (#[trigger] after[a]).session_id != (
            #[trigger] after[b]).session_id by {
                assert(ss[a].session_id != ss[b].session_id);
            }
            assert(after[i].session_id == key);
            let k = choose|k: int| 0 <= k < after.len() && after[k].session_id == key;
            if k != i {
                if k < i {
                    assert(after[k].session_id != after[i].session_id);
                } else {
                    assert(after[i].session_id != after[k].session_id);
                }
            }
        },
        None => {
            assert forall|a: int| 0 <= a < ss.len() implies ss[a].session_id != key by {
            }
            assert forall|a: int, b: int| 0 <= a < b < after.len() implies (#[trigger] after[a]).session_id != (
            #[trigger] after[b]).session_id by {
                if b < ss.len() {
                    assert(ss[a].session_id != ss[b].session_id);
                } else {
                    assert(after[a] == ss[a]);
                }
            }
            let n = ss.len() as int;
            assert(after[n].session_id == key);
            let k = choose|k: int| 0 <= k < after.len() && after[k].session_id == key;
            if k != n {
                assert(after[k] == ss[k]);
            }
            assert(seq![event] =~= Seq::<LedgerEventView>::empty().push(event));
        },
    }
}

/// The summaries of the sessions, each under its key.
pub open spec fn keyed_summaries(ss: Seq<StoredSessionView>) -> Seq<(Seq<char>, SessionSummary)> {
    ss.map_values(|s: StoredSessionView| (s.session_id, s.summary))
}

/// The keyed summaries of exec pairs.
pub open spec fn pair_views(v: Seq<(String, SessionSummary)>) -> Seq<(Seq<char>, SessionSummary)> {
    v.map_values(|p: (String, SessionSummary)| (p.0@, p.1))
}

/// Whether `k` is the first position whose summary has the session id `id`.
pub open spec fn first_with_id(sorted: Seq<(String, SessionSummary)>, id: Seq<char>, k: int) -> bool {
    &&& 0 <= k < sorted.len()
    &&& sorted[k].1.session_id@ == id
    &&& forall|j: int| 0 <= j < k ==> sorted[j].1.session_id@ != id
}

/// The position just after the first summary whose session id is `cursor`, or 0.
pub open spec fn page_start(sorted: Seq<(String, SessionSummary)>, cursor: Option<String>) -> int {
    match cursor {
        Some(c) => if exists|k: int| first_with_id(sorted, c@, k) {
            (choose|k: int| first_with_id(sorted, c@, k)) + 1
        } else {
            0
        },
        None => 0,
    }
}

/// The page of `sorted` that `query` asks for.
pub open spec fn page_of(sorted: Seq<(String, SessionSummary)>, query: SessionListQuery, page: SessionPage) -> bool {
    let start = page_start(sorted, query.cursor);
    let n = if start + query.limit <= sorted.len() {
        query.limit as int
    } else {
        sorted.len() - start
    };
    &&& page.items@ == sorted.subrange(start, start + n).map_values(|p: (String, SessionSummary)| p.1)
    &&& if n == query.limit && n > 0 {
        page.next_cursor matches Some(c) && c@ == page.items@.last().session_id@
    } else {
        page.next_cursor is None
    }
}

/// Whether a summary matches a search; the needle and the compared text are lowercased.
pub open spec fn summary_matches(query: SessionSearchQuery, s: SessionSummary) -> bool {
    match query {
        SessionSearchQuery::IdPrefix(v) => has_prefix(lowercase(s.session_id@), lowercase(v@)),
        SessionSearchQuery::TitleContains(v) => has_substring(lowercase(s.title@), lowercase(v@)),
        SessionSearchQuery::IdPrefixOrTitle(v) => has_prefix(lowercase(s.session_id@), lowercase(v@)) || has_substring(
            lowercase(s.title@),
            lowercase(v@),
        ),
    }
}

/// The pairs whose summary matches `query`, in order.
pub open spec fn matching(v: Seq<(String, SessionSummary)>, query: SessionSearchQuery) -> Seq<(String, SessionSummary)>
    decreases v.len(),
{
    if v.len() == 0 {
        v
    } else if summary_matches(query, v.last().1) {
        matching(v.drop_last(), query).push(v.last())
    } else {
        matching(v.drop_last(), query)
    }
}

fn needle_of(query: &SessionSearchQuery) -> (r: String)
    ensures
        r@ == match *query {
            SessionSearchQuery::IdPrefix(v) => lowercase(v@),
            SessionSearchQuery::TitleContains(v) => lowercase(v@),
            SessionSearchQuery::IdPrefixOrTitle(v) => lowercase(v@),
        },
{
    match query {
        SessionSearchQuery::IdPrefix(v) => to_lowercase(v.as_str()),
        SessionSearchQuery::TitleContains(v) => to_lowercase(v.as_str()),
        SessionSearchQuery::IdPrefixOrTitle(v) => to_lowercase(v.as_str()),
    }
}

fn summary_matches_exec(query: &SessionSearchQuery, needle: &String, s: &SessionSummary) -> (r: bool)
    requires
        needle@ == match *query {
            SessionSearchQuery::IdPrefix(v) => lowercase(v@),
            SessionSearchQuery::TitleContains(v) => lowercase(v@),
            SessionSearchQuery::IdPrefixOrTitle(v) => lowercase(v@),
        },
    ensures
        r == summary_matches(*query, *s),
{
    match query {
        SessionSearchQuery::IdPrefix(_) => str_starts_with(to_lowercase(s.session_id.as_str()).as_str(), needle.as_str()),
        SessionSearchQuery::TitleContains(_) => str_contains(to_lowercase(s.title.as_str()).as_str(), needle.as_str()),
        SessionSearchQuery::IdPrefixOrTitle(_) => str_starts_with(
            to_lowercase(s.session_id.as_str()).as_str(),
            needle.as_str(),
        ) || str_contains(to_lowercase(s.title.as_str()).as_str(), needle.as_str()),
    }
}

impl SessionStore {
    /// The stored sessions.
    pub closed spec fn sessions(&self) -> Seq<StoredSessionView> {
        self.sessions@.map_values(|s: StoredSession| s@)
    }

    /// Each key is stored once.
    pub closed spec fn wf(&self) -> bool {
        forall|i: int, j: int|
            0 <= i < j < self.sessions@.len() ==> (#[trigger] self.sessions@[i]).session_id@ != (
            #[trigger] self.sessions@[j]).session_id@
    }

    /// An empty store.
    pub fn new() -> (r: Self)
        ensures
            r.wf(),
            r.sessions().len() == 0,
    {
        SessionStore { sessions: Vec::new() }
    }

    /// A consistent store has unique keys.
    pub proof fn lemma_wf_unique_keys(&self)
        requires
            self.wf(),
        ensures
            unique_keys(self.sessions()),
    {
        assert forall|i: int, j: int| 0 <= i < j < self.sessions().len() implies (#[trigger] self.sessions()[i]).session_id
            != (#[trigger] self.sessions()[j]).session_id by {
            assert(self.sessions@[i].session_id@ != self.sessions@[j].session_id@);
        }
    }

    fn index_of(&self, key: &str) -> (r: Option<usize>)
        requires
            self.wf(),
        ensures
            match r {
                Some(i) => i < self.sessions().len() && self.sessions()[i as int].session_id == key@ && session_index(
                    self.sessions(),
                    key@,
                ) == Some(i as int),
                None => session_index(self.sessions(), key@) is None,
            },
    {
        let mut i: usize = 0;
        while i < self.sessions.len()
            invariant
                self.wf(),
                i <= self.sessions.len(),
                forall|j: int| 0 <= j < i ==> (#[trigger] self.sessions@[j]).session_id@ != key@,
            decreases self.sessions.len() - i,
        {
            if str_eq(self.sessions[i].session_id.as_str(), key) {
                proof {
                    let ss = self.sessions();
                    assert(ss[i as int].session_id == key@);
                    let k = choose|k: int| 0 <= k < ss.len() && ss[k].session_id == key@;
                    if k != i {
                        if k < i {
                            assert(self.sessions@[k].session_id@ != key@);
                        } else {
                            assert(self.sessions@[i as int].session_id@ != self.sessions@[k].session_id@);
                        }
                    }
                }
                return Some(i);
            }
            i += 1;
        }
        proof {
            let ss = self.sessions();
            if exists|k: int| 0 <= k < ss.len() && ss[k].session_id == key@ {
                let k = choose|k: int| 0 <= k < ss.len() && ss[k].session_id == key@;
                assert(self.sessions@[k].session_id@ != key@);
            }
        }
        None
    }

    /// Appends `event` to the session `session_id` and records `summary` as its latest
    /// summary; a session not stored yet is added.
    pub fn append_event(&mut self, session_id: &str, event: &LedgerEvent, summary: &SessionSummary)
        requires
            old(self).wf(),
        ensures
            final(self).wf(),
            final(self).sessions() == after_append(old(self).sessions(), session_id@, event@, *summary),
            match session_index(old(self).sessions(), session_id@) {
                Some(i) => final(self).sessions() == old(self).sessions().update(
                    i,
                    StoredSessionView {
                        session_id: session_id@,
                        events: old(self).sessions()[i].events.push(event@),
                        summary: *summary,
                    },
                ),
                None => final(self).sessions() == old(self).sessions().push(
                    StoredSessionView { session_id: session_id@, events: seq![event@], summary: *summary },
                ),
            },
    {
        let ghost before = self.sessions();
        match self.index_of(session_id) {
            Some(i) => {
                let mut events: Vec<LedgerEvent> = Vec::new();
                std::mem::swap(&mut events, &mut self.sessions[i].events);
                let ghost old_events = events@;
                events.push(event.clone());
                let stored = StoredSession { session_id: session_id.to_owned(), events, summary: summary.clone() };
                self.sessions.set(i, stored);
                proof {
                    assert(events@.map_values(|e: LedgerEvent| e@) =~= old_events.map_values(|e: LedgerEvent| e@).push(
                        event@,
                    ));
                    assert(self.sessions() =~= before.update(
                        i as int,
                        StoredSessionView {
                            session_id: session_id@,
                            events: before[i as int].events.push(event@),
                            summary: *summary,
                        },
                    ));
                }
            },
            None => {
                let mut events: Vec<LedgerEvent> = Vec::new();
                events.push(event.clone());
                let stored = StoredSession { session_id: session_id.to_owned(), events, summary: summary.clone() };
                self.sessions.push(stored);
                proof {
                    assert(events@.map_values(|e: LedgerEvent| e@) =~= seq![event@]);
                    assert(self.sessions() =~= before.push(
                        StoredSessionView { session_id: session_id@, events: seq![event@], summary: *summary },
                    ));
                    assert forall|a: int| 0 <= a < before.len() implies self.sessions@[a].session_id@ != session_id@ by {
                        assert(before[a].session_id != session_id@);
                    }
                }
            },
        }
    }

    /// The events of the session `session_id`, or `SessionNotFound` when it is not stored.
    pub fn load_events(&self, session_id: &str) -> (r: Result<Vec<LedgerEvent>, AgentError>)
        requires
            self.wf(),
        ensures
            match session_index(self.sessions(), session_id@) {
                Some(i) => r matches Ok(events) && events@.map_values(|e: LedgerEvent| e@) == self.sessions()[i].events,
                None => r matches Err(e) && e.code == AgentErrorCode::SessionNotFound && e.message@ == "session not found"@
                    && !e.retryable,
            },
    {
        match self.index_of(session_id) {
            Some(i) => {
                let stored = &self.sessions[i].events;
                let mut out: Vec<LedgerEvent> = Vec::new();
                let mut k: usize = 0;
                while k < stored.len()
                    invariant
                        k <= stored.len(),
                        out@.map_values(|e: LedgerEvent| e@) == stored@.take(k as int).map_values(|e: LedgerEvent| e@),
                    decreases stored.len() - k,
                {
                    let ghost before = out@;
                    let e = stored[k].clone();
                    out.push(e);
                    proof {
                        assert(out@ =~= before.push(e));
                        assert(stored@.take(k + 1) =~= stored@.take(k as int).push(stored@[k as int]));
                        assert(out@.map_values(|e: LedgerEvent| e@) =~= before.map_values(|e: LedgerEvent| e@).push(e@));
                        assert(out@.map_values(|e: LedgerEvent| e@) =~= stored@.take(k + 1).map_values(|e: LedgerEvent| e@));
                    }
                    k += 1;
                }
                assert(stored@.take(k as int) =~= stored@);
                Ok(out)
            },
            None => Err(AgentError::new(AgentErrorCode::SessionNotFound, "session not found".to_owned())),
        }
    }

    /// The summaries of the stored sessions, each with its key, in storage order.
    pub closed spec fn keyed_pairs(&self) -> Seq<(String, SessionSummary)> {
        self.sessions@.map_values(|s: StoredSession| (s.session_id, s.summary))
    }

    /// The keys of the stored sessions are distinct, so a listing by recency or by key is
    /// one arrangement (see `lemma_sorted_arrangement_unique`).
    pub proof fn lemma_keyed_pairs_distinct(&self)
        requires
            self.wf(),
        ensures
            distinct_keys(self.keyed_pairs()),
    {
        assert forall|i: int, j: int| 0 <= i < j < self.keyed_pairs().len() implies (#[trigger] self.keyed_pairs()[i]).rank_key()
            != (#[trigger] self.keyed_pairs()[j]).rank_key() by {
            assert(self.sessions@[i].session_id@ != self.sessions@[j].session_id@);
        }
    }

    fn keyed(&self) -> (r: Vec<(String, SessionSummary)>)
        ensures
            r@ == self.keyed_pairs(),
            pair_views(r@) == keyed_summaries(self.sessions()),
    {
        let mut out: Vec<(String, SessionSummary)> = Vec::new();
        let mut i: usize = 0;
        while i < self.sessions.len()
            invariant
                i <= self.sessions.len(),
                out@ == self.keyed_pairs().take(i as int),
            decreases self.sessions.len() - i,
        {
            let s = &self.sessions[i];
            out.push((s.session_id.clone(), s.summary.clone()));
            proof {
                assert(out@ =~= self.keyed_pairs().take(i + 1));
            }
            i += 1;
        }
        assert(self.keyed_pairs().take(i as int) =~= self.keyed_pairs());
        assert(pair_views(out@) =~= keyed_summaries(self.sessions()));
        out
    }

    /// One page of the stored sessions by recency: after the first session whose id is
    /// the cursor (from the start when there is no cursor, or no such session), at most
    /// `limit` summaries; the next cursor is the last summary's session id when the page
    /// is full and not empty.
    pub fn list_sessions(&self, query: &SessionListQuery) -> (r: SessionPage)
        ensures
            exists|sorted: Seq<(String, SessionSummary)>|
                {
                    &&& sorted_by(sorted, rank_order::<(String, SessionSummary)>(true))
                    &&& sorted.to_multiset() == self.keyed_pairs().to_multiset()
                    &&& page_of(sorted, *query, r)
                },
    {
        let pairs = self.keyed();
        let sorted = sort_ranked(pairs, true);
        let start = cursor_start(&sorted, &query.cursor);
        let n = if query.limit <= sorted.len() - start {
            query.limit
        } else {
            sorted.len() - start
        };
        let mut items: Vec<SessionSummary> = Vec::new();
        let mut k: usize = 0;
        while k < n
            invariant
                start + n <= sorted.len(),
                k <= n,
                items@ == sorted@.subrange(start as int, start + k).map_values(|p: (String, SessionSummary)| p.1),
            decreases n - k,
        {
            items.push(sorted[start + k].1.clone());
            proof {
                assert(items@ =~= sorted@.subrange(start as int, start + k + 1).map_values(
                    |p: (String, SessionSummary)| p.1,
                ));
            }
            k += 1;
        }
        let next_cursor = if n == query.limit && n > 0 {
            Some(items[n - 1].session_id.clone())
        } else {
            None
        };
        let r = SessionPage { items, next_cursor };
        assert(page_of(sorted@, *query, r));
        r
    }

    /// The sessions whose summary matches the search: the first `limit` matches by key,
    /// listed by recency.
    pub fn find_sessions(&self, query: &SessionSearchQuery, limit: usize) -> (r: Vec<SessionSummary>)
        ensures
            exists|by_key: Seq<(String, SessionSummary)>, by_recency: Seq<(String, SessionSummary)>|
                {
                    &&& sorted_by(by_key, rank_order::<(String, SessionSummary)>(false))
                    &&& by_key.to_multiset() == self.keyed_pairs().to_multiset()
                    &&& sorted_by(by_recency, rank_order::<(String, SessionSummary)>(true))
                    &&& by_recency.to_multiset() == first_n(matching(by_key, *query), limit).to_multiset()
                    &&& r@ == by_recency.map_values(|p: (String, SessionSummary)| p.1)
                },
    {
        let needle = needle_of(query);
        let by_key = sort_ranked(self.keyed(), false);
        let mut found: Vec<(String, SessionSummary)> = Vec::new();
        let mut i: usize = 0;
        while i < by_key.len() && found.len() < limit
            invariant
                i <= by_key.len(),
                needle@ == match *query {
                    SessionSearchQuery::IdPrefix(v) => lowercase(v@),
                    SessionSearchQuery::TitleContains(v) => lowercase(v@),
                    SessionSearchQuery::IdPrefixOrTitle(v) => lowercase(v@),
                },
                found@ == matching(by_key@.take(i as int), *query),
                found@.len() <= limit,
            decreases by_key.len() - i,
        {
            proof {
                assert(by_key@.take(i + 1).drop_last() =~= by_key@.take(i as int));
            }
            if summary_matches_exec(query, &needle, &by_key[i].1) {
                found.push((by_key[i].0.clone(), by_key[i].1.clone()));
            }
            i += 1;
        }
        proof {
            lemma_first_matches(by_key@, *query, i as int, limit);
        }
        let by_recency = sort_ranked(found, true);
        let mut out: Vec<SessionSummary> = Vec::new();
        let mut k: usize = 0;
        while k < by_recency.len()
            invariant
                k <= by_recency.len(),
                out@ == by_recency@.take(k as int).map_values(|p: (String, SessionSummary)| p.1),
            decreases by_recency.len() - k,
        {
            out.push(by_recency[k].1.clone());
            proof {
                assert(out@ =~= by_recency@.take(k + 1).map_values(|p: (String, SessionSummary)| p.1));
            }
            k += 1;
        }
        assert(by_recency@.take(k as int) =~= by_recency@);
        out
    }

    /// Removes the session `session_id`, if it is stored.
    pub fn delete_session(&mut self, session_id: &str)
        requires
            old(self).wf(),
        ensures
            final(self).wf(),
            match session_index(old(self).sessions(), session_id@) {
                Some(i) => final(self).sessions() == old(self).sessions().remove(i),
                None => final(self).sessions() == old(self).sessions(),
            },
    {
        let ghost before = self.sessions@;
        if let Some(i) = self.index_of(session_id) {
            self.sessions.remove(i);
            proof {
                assert(self.sessions@ =~= before.remove(i as int));
                assert(self.sessions() =~= before.map_values(|s: StoredSession| s@).remove(i as int));
                assert forall|a: int, b: int| 0 <= a < b < self.sessions@.len() implies (#[trigger] self.sessions@[a]).session_id@
                    != (#[trigger] self.sessions@[b]).session_id@ by {
                    let a0 = if a < i { a } else { a + 1 };
                    let b0 = if b < i { b } else { b + 1 };
                    assert(self.sessions@[a] == before[a0]);
                    assert(self.sessions@[b] == before[b0]);
                }
            }
        }
    }
}

/// The first `n` entries of `s`, or all of them when there are fewer.
pub open spec fn first_n<T>(s: Seq<T>, n: usize) -> Seq<T> {
    if n <= s.len() {
        s.take(n as int)
    } else {
        s
    }
}

proof fn lemma_matching_prefix(v: Seq<(String, SessionSummary)>, query: SessionSearchQuery, i: int, j: int)
    requires
        0 <= i <= j <= v.len(),
    ensures
        matching(v.take(i), query).len() <= matching(v.take(j), query).len(),
        matching(v.take(j), query).take(matching(v.take(i), query).len() as int) == matching(v.take(i), query),
    decreases j - i,
{
    if i < j {
        lemma_matching_prefix(v, query, i, j - 1);
        assert(v.take(j).drop_last() =~= v.take(j - 1));
        let a = matching(v.take(i), query);
        let b = matching(v.take(j - 1), query);
        let c = matching(v.take(j), query);
        assert(c.take(a.len() as int) =~= b.take(a.len() as int));
    } else {
        assert(matching(v.take(j), query).take(matching(v.take(i), query).len() as int) =~= matching(v.take(i), query));
    }
}

proof fn lemma_first_matches(v: Seq<(String, SessionSummary)>, query: SessionSearchQuery, i: int, limit: usize)
    requires
        0 <= i <= v.len(),
        matching(v.take(i), query).len() <= limit,
        i == v.len() || matching(v.take(i), query).len() == limit,
    ensures
        matching(v.take(i), query) == first_n(matching(v, query), limit),
{
    assert(v.take(v.len() as int) =~= v);
    lemma_matching_prefix(v, query, i, v.len() as int);
    if i == v.len() {
    } else {
        assert(matching(v, query).take(limit as int) =~= matching(v.take(i), query));
    }
}

/// The position just after the first summary whose session id is the cursor, or 0.
fn cursor_start(sorted: &Vec<(String, SessionSummary)>, cursor: &Option<String>) -> (r: usize)
    ensures
        r == page_start(sorted@, *cursor),
        r <= sorted@.len(),
{
    match cursor {
        Some(c) => {
            let mut i: usize = 0;
            while i < sorted.len()
                invariant
                    *cursor == Some(*c),
                    i <= sorted.len(),
                    forall|j: int| 0 <= j < i ==> sorted@[j].1.session_id@ != c@,
                decreases sorted.len() - i,
            {
                if str_eq(sorted[i].1.session_id.as_str(), c.as_str()) {
                    proof {
                        assert(first_with_id(sorted@, c@, i as int));
                        let k = choose|k: int| first_with_id(sorted@, c@, k);
                        if k < i {
                            assert(sorted@[k].1.session_id@ != c@);
                        } else if k > i {
                            assert(sorted@[i as int].1.session_id@ != c@);
                        }
                        assert(k == i);
                    }
                    return i + 1;
                }
                i += 1;
            }
            proof {
                if exists|k: int| first_with_id(sorted@, c@, k) {
                    let k = choose|k: int| first_with_id(sorted@, c@, k);
                    assert(sorted@[k].1.session_id@ != c@);
                }
            }
            0
        },
        None => 0,
    }
}

/// The stored memories, each namespace and id once.
#[derive(Debug)]
pub struct MemoryStore {
    memories: Vec<Memory>,
}

/// The position of the memory `id` of `namespace`, if any.
pub open spec fn memory_index(ms: Seq<MemoryView>, namespace: Seq<char>, id: Seq<char>) -> Option<int> {
    if exists|i: int| 0 <= i < ms.len() && ms[i].namespace@ == namespace && ms[i].id@ == id {
        Some(choose|i: int| 0 <= i < ms.len() && ms[i].namespace@ == namespace && ms[i].id@ == id)
    } else {
        None
    }
}

/// Whether a memory is in `namespace` and, with a query, holds it, both lowercased.
pub open spec fn memory_selected(m: MemoryView, namespace: Seq<char>, query: Option<Seq<char>>) -> bool {
    &&& m.namespace@ == namespace
    &&& match query {
        Some(q) => has_substring(lowercase(m.content@), lowercase(q)),
        None => true,
    }
}

/// The memories that `memory_selected` keeps, in order.
pub open spec fn selected(ms: Seq<MemoryView>, namespace: Seq<char>, query: Option<Seq<char>>) -> Seq<MemoryView>
    decreases ms.len(),
{
    if ms.len() == 0 {
        ms
    } else if memory_selected(ms.last(), namespace, query) {
        selected(ms.drop_last(), namespace, query).push(ms.last())
    } else {
        selected(ms.drop_last(), namespace, query)
    }
}

/// The views of some memories.
pub open spec fn memory_views(v: Seq<Memory>) -> Seq<MemoryView> {
    v.map_values(|m: Memory| m@)
}

impl MemoryStore {
    /// The stored memories.
    pub closed spec fn memories(&self) -> Seq<MemoryView> {
        memory_views(self.memories@)
    }

    /// Each namespace and id is stored once.
    pub closed spec fn wf(&self) -> bool {
        forall|i: int, j: int|
            0 <= i < j < self.memories@.len() ==> !((#[trigger] self.memories@[i]).namespace@ == (
            #[trigger] self.memories@[j]).namespace@ && self.memories@[i].id@ == self.memories@[j].id@)
    }

    /// An empty store.
    pub fn new() -> (r: Self)
        ensures
            r.wf(),
            r.memories().len() == 0,
    {
        MemoryStore { memories: Vec::new() }
    }

    fn index_of(&self, namespace: &str, id: &str) -> (r: Option<usize>)
        requires
            self.wf(),
        ensures
            match r {
                Some(i) => i < self.memories().len() && memory_index(self.memories(), namespace@, id@) == Some(i as int),
                None => memory_index(self.memories(), namespace@, id@) is None,
            },
    {
        let mut i: usize = 0;
        while i < self.memories.len()
            invariant
                self.wf(),
                i <= self.memories.len(),
                forall|j: int|
                    0 <= j < i ==> !((#[trigger] self.memories@[j]).namespace@ == namespace@ && self.memories@[j].id@ == id@),
            decreases self.memories.len() - i,
        {
            if str_eq(self.memories[i].namespace.as_str(), namespace) && str_eq(self.memories[i].id.as_str(), id) {
                proof {
                    let ms = self.memories();
                    assert(ms[i as int].namespace@ == namespace@ && ms[i as int].id@ == id@);
                    let k = choose|k: int| 0 <= k < ms.len() && ms[k].namespace@ == namespace@ && ms[k].id@ == id@;
                    if k < i {
                        assert(!(self.memories@[k].namespace@ == namespace@ && self.memories@[k].id@ == id@));
                    } else if k > i {
                        assert(!(self.memories@[i as int].namespace@ == self.memories@[k].namespace@
                            && self.memories@[i as int].id@ == self.memories@[k].id@));
                    }
                }
                return Some(i);
            }
            i += 1;
        }
        proof {
            let ms = self.memories();
            if exists|k: int| 0 <= k < ms.len() && ms[k].namespace@ == namespace@ && ms[k].id@ == id@ {
                let k = choose|k: int| 0 <= k < ms.len() && ms[k].namespace@ == namespace@ && ms[k].id@ == id@;
                assert(!(self.memories@[k].namespace@ == namespace@ && self.memories@[k].id@ == id@));
            }
        }
        None
    }

    /// Stores `memory` under its namespace and id, replacing the memory stored there.
    pub fn upsert(&mut self, memory: Memory)
        requires
            old(self).wf(),
        ensures
            final(self).wf(),
            match memory_index(old(self).memories(), memory.namespace@, memory.id@) {
                Some(i) => final(self).memories() == old(self).memories().update(i, memory@),
                None => final(self).memories() == old(self).memories().push(memory@),
            },
    {
        let ghost before = self.memories@;
        let ghost m = memory@;
        match self.index_of(memory.namespace.as_str(), memory.id.as_str()) {
            Some(i) => {
                self.memories.set(i, memory);
                proof {
                    assert(memory_views(self.memories@) =~= memory_views(before).update(i as int, m));
                    assert forall|a: int, b: int| 0 <= a < b < self.memories@.len() implies !((
                    #[trigger] self.memories@[a]).namespace@ == (#[trigger] self.memories@[b]).namespace@
                        && self.memories@[a].id@ == self.memories@[b].id@) by {
                        if a == i {
                            assert(before[a].namespace@ == m.namespace@ && before[a].id@ == m.id@);
                        } else if b == i {
                            assert(before[b].namespace@ == m.namespace@ && before[b].id@ == m.id@);
                        }
                    }
                }
            },
            None => {
                self.memories.push(memory);
                proof {
                    assert(memory_views(self.memories@) =~= memory_views(before).push(m));
                    assert forall|a: int| 0 <= a < before.len() implies !(self.memories@[a].namespace@ == m.namespace@
                        && self.memories@[a].id@ == m.id@) by {
                        assert(memory_views(before)[a] == before[a]@);
                    }
                }
            },
        }
    }

    /// Removes the memory `id` of `namespace`, if it is stored.
    pub fn delete(&mut self, namespace: &str, id: &str)
        requires
            old(self).wf(),
        ensures
            final(self).wf(),
            match memory_index(old(self).memories(), namespace@, id@) {
                Some(i) => final(self).memories() == old(self).memories().remove(i),
                None => final(self).memories() == old(self).memories(),
            },
    {
        let ghost before = self.memories@;
        if let Some(i) = self.index_of(namespace, id) {
            self.memories.remove(i);
            proof {
                assert(self.memories@ =~= before.remove(i as int));
                assert(memory_views(self.memories@) =~= memory_views(before).remove(i as int));
                assert forall|a: int, b: int| 0 <= a < b < self.memories@.len() implies !((
                #[trigger] self.memories@[a]).namespace@ == (#[trigger] self.memories@[b]).namespace@
                    && self.memories@[a].id@ == self.memories@[b].id@) by {
                    let a0 = if a < i { a } else { a + 1 };
                    let b0 = if b < i { b } else { b + 1 };
                    assert(self.memories@[a] == before[a0]);
                    assert(self.memories@[b] == before[b0]);
                }
            }
        }
    }

    /// Copies of the memories of `namespace` (that hold `query`, when there is one), in
    /// storage order.
    fn pick(&self, namespace: &str, query: Option<&str>) -> (r: Vec<Memory>)
        ensures
            memory_views(r@) == selected(
                self.memories(),
                namespace@,
                match query {
                    Some(q) => Some(q@),
                    None => None,
                },
            ),
    {
        let ghost q = match query {
            Some(q) => Some(q@),
            None => None::<Seq<char>>,
        };
        let lowered = match query {
            Some(q) => Some(to_lowercase(q)),
            None => None,
        };
        let mut out: Vec<Memory> = Vec::new();
        let mut i: usize = 0;
        while i < self.memories.len()
            invariant
                i <= self.memories.len(),
                q == match query {
                    Some(q) => Some(q@),
                    None => None::<Seq<char>>,
                },
                match lowered {
                    Some(l) => q matches Some(qq) && l@ == lowercase(qq),
                    None => q is None,
                },
                memory_views(out@) == selected(self.memories().take(i as int), namespace@, q),
            decreases self.memories.len() - i,
        {
            let m = &self.memories[i];
            let keep = str_eq(m.namespace.as_str(), namespace) && match &lowered {
                Some(l) => str_contains(to_lowercase(m.content.as_str()).as_str(), l.as_str()),
                None => true,
            };
            proof {
                assert(self.memories().take(i + 1).drop_last() =~= self.memories().take(i as int));
                assert(self.memories().take(i + 1).last() == m@);
                assert(keep == memory_selected(m@, namespace@, q));
            }
            if keep {
                let ghost before = out@;
                let c = m.clone();
                out.push(c);
                assert(memory_views(out@) =~= memory_views(before).push(c@));
            }
            i += 1;
        }
        assert(self.memories().take(i as int) =~= self.memories());
        out
    }

    /// The memories of `namespace` whose content holds `query` (both lowercased), the most
    /// recently updated first (ties by id), at most `top_k` of them.
    pub fn search(&self, namespace: &str, query: &str, top_k: usize) -> (r: Vec<Memory>)
        ensures
            exists|picked: Seq<Memory>, sorted: Seq<Memory>|
                {
                    &&& memory_views(picked) == selected(self.memories(), namespace@, Some(query@))
                    &&& sorted_by(sorted, rank_order::<Memory>(true))
                    &&& sorted.to_multiset() == picked.to_multiset()
                    &&& r@ == first_n(sorted, top_k)
                },
    {
        let picked = self.pick(namespace, Some(query));
        let mut sorted = sort_ranked(picked, true);
        if top_k < sorted.len() {
            sorted.truncate(top_k);
        }
        sorted
    }

    /// The memories of `namespace`, the most recently updated first (ties by id), at most
    /// `limit` of them.
    pub fn list_recent(&self, namespace: &str, limit: usize) -> (r: Vec<Memory>)
        ensures
            exists|picked: Seq<Memory>, sorted: Seq<Memory>|
                {
                    &&& memory_views(picked) == selected(self.memories(), namespace@, None)
                    &&& sorted_by(sorted, rank_order::<Memory>(true))
                    &&& sorted.to_multiset() == picked.to_multiset()
                    &&& r@ == first_n(sorted, limit)
                },
    {
        let picked = self.pick(namespace, None);
        let mut sorted = sort_ranked(picked, true);
        if limit < sorted.len() {
            sorted.truncate(limit);
        }
        sorted
    }

    /// The memories of `namespace`, by id.
    pub fn list_all(&self, namespace: &str) -> (r: Vec<Memory>)
        ensures
            exists|picked: Seq<Memory>|
                {
                    &&& memory_views(picked) == selected(self.memories(), namespace@, None)
                    &&& sorted_by(r@, rank_order::<Memory>(false))
                    &&& r@.to_multiset() == picked.to_multiset()
                },
    {
        let picked = self.pick(namespace, None);
        sort_ranked(picked, false)
    }
}

/// Whether no two memories share a namespace and an id.
pub open spec fn unique_memory_keys(ms: Seq<MemoryView>) -> bool {
    forall|i: int, j: int|
        0 <= i < j < ms.len() ==> !((#[trigger] ms[i]).namespace@ == (#[trigger] ms[j]).namespace@ && ms[i].id@ == ms[j].id@)
}

proof fn lemma_selected_from(ms: Seq<MemoryView>, namespace: Seq<char>, query: Option<Seq<char>>)
    ensures
        forall|k: int| 0 <= k < selected(ms, namespace, query).len() ==> {
            &&& ms.contains(#[trigger] selected(ms, namespace, query)[k])
            &&& selected(ms, namespace, query)[k].namespace@ == namespace
        },
    decreases ms.len(),
{
    if ms.len() > 0 {
        lemma_selected_from(ms.drop_last(), namespace, query);
        let front = selected(ms.drop_last(), namespace, query);
        assert forall|k: int| 0 <= k < front.len() implies ms.contains(#[trigger] front[k]) by {
            let w = choose|w: int| 0 <= w < ms.drop_last().len() && ms.drop_last()[w] == front[k];
            assert(ms[w] == front[k]);
        }
        assert(ms[ms.len() - 1] == ms.last());
    }
}

/// The memories of one namespace have distinct ids, so a listing of them by recency or by
/// id is one arrangement (see `lemma_sorted_arrangement_unique`).
pub proof fn lemma_selected_ids_distinct(ms: Seq<MemoryView>, namespace: Seq<char>, query: Option<Seq<char>>)
    requires
        unique_memory_keys(ms),
    ensures
        forall|i: int, j: int|
            0 <= i < j < selected(ms, namespace, query).len() ==> (#[trigger] selected(ms, namespace, query)[i]).id@ != (
            #[trigger] selected(ms, namespace, query)[j]).id@,
    decreases ms.len(),
{
    if ms.len() > 0 {
        let front_ms = ms.drop_last();
        assert forall|i: int, j: int| 0 <= i < j < front_ms.len() implies !((#[trigger] front_ms[i]).namespace@ == (
        #[trigger] front_ms[j]).namespace@ && front_ms[i].id@ == front_ms[j].id@) by {
            assert(front_ms[i] == ms[i] && front_ms[j] == ms[j]);
        }
        lemma_selected_ids_distinct(front_ms, namespace, query);
        lemma_selected_from(front_ms, namespace, query);
        let front = selected(front_ms, namespace, query);
        if memory_selected(ms.last(), namespace, query) {
            let all = selected(ms, namespace, query);
            assert(all == front.push(ms.last()));
            assert forall|i: int, j: int| 0 <= i < j < all.len() implies (#[trigger] all[i]).id@ != (#[trigger] all[j]).id@ by {
                if j == front.len() {
                    assert(all[i] == front[i]);
                    assert(front_ms.contains(front[i]));
                    let w = choose|w: int| 0 <= w < front_ms.len() && front_ms[w] == front[i];
                    assert(ms[w] == front[i]);
                    let n = ms.len() - 1;
                    assert(!(ms[w].namespace@ == ms[n].namespace@ && ms[w].id@ == ms[n].id@));
                    if front[i].id@ == ms.last().id@ {
                        assert(front[i].namespace@ == ms.last().namespace@);
                    }
                } else {
                    assert(all[i] == front[i] && all[j] == front[j]);
                }
            }
        }
    }
}

impl MemoryStore {
    /// A consistent store has unique namespace and id pairs.
    pub proof fn lemma_wf_unique_keys(&self)
        requires
            self.wf(),
        ensures
            unique_memory_keys(self.memories()),
    {
        assert forall|i: int, j: int| 0 <= i < j < self.memories().len() implies !((#[trigger] self.memories()[i]).namespace@
            == (#[trigger] self.memories()[j]).namespace@ && self.memories()[i].id@ == self.memories()[j].id@) by {
            assert(!(self.memories@[i].namespace@ == self.memories@[j].namespace@ && self.memories@[i].id@
                == self.memories@[j].id@));
        }
    }
}

} // verus!
