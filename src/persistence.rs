//! The record store. A `PersistenceManager` holds what the two stored files
//! hold, the finished work sessions and the timer configuration, and notes
//! which of the two an operation has rewritten, so that the files are written
//! back exactly when their content changed.
use vstd::prelude::*;
use crate::model::{
    belongs_to, default_config, sessions_view, SessionView, TimerConfig, WorkSession,
};

verus! {

/// The record store as a mathematical value.
pub struct StoreView {
    pub sessions: Seq<SessionView>,
    pub config: Option<TimerConfig>,
    pub sessions_written: bool,
    pub config_written: bool,
}

/// The stored sessions and configuration.
pub struct PersistenceManager {
    sessions: Vec<WorkSession>,
    config: Option<TimerConfig>,
    sessions_written: bool,
    config_written: bool,
}

impl View for PersistenceManager {
    type V = StoreView;

    closed spec fn view(&self) -> StoreView {
        StoreView {
            sessions: sessions_view(self.sessions@),
            config: self.config,
            sessions_written: self.sessions_written,
            config_written: self.config_written,
        }
    }
}

/// Some record of `s` has identifier `id`.
pub open spec fn has_id(s: Seq<SessionView>, id: u128) -> bool {
    exists|i: int| 0 <= i < s.len() && s[i].id == id
}

/// `i` is the first position of `s` that holds a record with identifier `id`.
pub open spec fn is_first_with_id(s: Seq<SessionView>, id: u128, i: int) -> bool {
    &&& 0 <= i < s.len()
    &&& s[i].id == id
    &&& forall|j: int| 0 <= j < i ==> s[j].id != id
}

/// The first position of `s` that holds a record with identifier `id`.
pub open spec fn first_with_id(s: Seq<SessionView>, id: u128) -> int {
    choose|i: int| is_first_with_id(s, id, i)
}

/// Insert-or-replace by identifier: the first record with the id of `x`
/// becomes `x`; without such a record, `x` is appended.
pub open spec fn upserted(s: Seq<SessionView>, x: SessionView) -> Seq<SessionView>
    decreases s.len(),
{
    if s.len() == 0 {
        seq![x]
    } else if s[0].id == x.id {
        s.update(0, x)
    } else {
        seq![s[0]] + upserted(s.drop_first(), x)
    }
}

/// The records of `s` that are not finished stopwatch sessions of project `p`.
pub open spec fn without_project(s: Seq<SessionView>, p: Seq<char>) -> Seq<SessionView> {
    s.filter(|r: SessionView| !belongs_to(r, p))
}

/// The store of a first run: nothing stored, nothing written.
pub open spec fn fresh_store() -> StoreView {
    StoreView {
        sessions: Seq::empty(),
        config: None,
        sessions_written: false,
        config_written: false,
    }
}

/// The configuration that loading from `st` returns: the stored one, or the
/// default one where none is stored.
pub open spec fn loaded_config(st: StoreView) -> TimerConfig {
    match st.config {
        Some(c) => c,
        None => default_config(),
    }
}

/// The store after loading its configuration: where none was stored, the
/// default one has been stored.
pub open spec fn after_config_load(st: StoreView) -> StoreView {
    match st.config {
        Some(_) => st,
        None => StoreView { config: Some(default_config()), config_written: true, ..st },
    }
}

/// The number of records of `s` with identifier `id`.
pub open spec fn count_id(s: Seq<SessionView>, id: u128) -> nat
    decreases s.len(),
{
    if s.len() == 0 {
        0
    } else {
        count_id(s.drop_last(), id) + if s.last().id == id {
            1nat
        } else {
            0nat
        }
    }
}

/// A position that holds `id` is the first one exactly when no earlier one does.
proof fn lemma_first_with_id(s: Seq<SessionView>, id: u128, i: int)
    requires
        is_first_with_id(s, id, i),
    ensures
        has_id(s, id),
        first_with_id(s, id) == i,
{
    let k = first_with_id(s, id);
    assert(is_first_with_id(s, id, k));
    if k < i {
        assert(s[k].id != id);
    } else if i < k {
        assert(s[i].id != id);
    }
}

/// Some position holds `id` exactly when a first such position exists.
proof fn lemma_has_first(s: Seq<SessionView>, id: u128)
    requires
        has_id(s, id),
    ensures
        is_first_with_id(s, id, first_with_id(s, id)),
    decreases s.len(),
{
    if s.last().id == id && !has_id(s.drop_last(), id) {
        let n = s.len() - 1;
        assert forall|j: int| 0 <= j < n implies s[j].id != id by {
            assert(s.drop_last()[j] == s[j]);
        }
        lemma_first_with_id(s, id, n);
    } else {
        if !has_id(s.drop_last(), id) {
            let i = choose|i: int| 0 <= i < s.len() && s[i].id == id;
            assert(s.drop_last()[i] == s[i]);
        }
        lemma_has_first(s.drop_last(), id);
        let k = first_with_id(s.drop_last(), id);
        assert forall|j: int| 0 <= j < k implies s[j].id != id by {
            assert(s.drop_last()[j] == s[j]);
        }
        lemma_first_with_id(s, id, k);
    }
}

/// Saving over the first record with the saved identifier replaces it there.
proof fn lemma_upsert_at(s: Seq<SessionView>, x: SessionView, i: int)
    requires
        is_first_with_id(s, x.id, i),
    ensures
        upserted(s, x) == s.update(i, x),
    decreases s.len(),
{
    if i > 0 {
        let t = s.drop_first();
        assert forall|j: int| 0 <= j < i - 1 implies t[j].id != x.id by {
            assert(t[j] == s[j + 1]);
        }
        lemma_upsert_at(t, x, i - 1);
        assert(seq![s[0]] + t.update(i - 1, x) =~= s.update(i, x));
    }
}

/// Saving a record whose identifier is not stored appends it.
proof fn lemma_upsert_absent(s: Seq<SessionView>, x: SessionView)
    requires
        !has_id(s, x.id),
    ensures
        upserted(s, x) == s.push(x),
    decreases s.len(),
{
    if s.len() == 0 {
        assert(seq![x] =~= s.push(x));
    } else {
        let t = s.drop_first();
        assert(s[0].id != x.id);
        assert(!has_id(t, x.id)) by {
            if has_id(t, x.id) {
                let j = choose|j: int| 0 <= j < t.len() && t[j].id == x.id;
                assert(t[j] == s[j + 1]);
            }
        }
        lemma_upsert_absent(t, x);
        assert(seq![s[0]] + t.push(x) =~= s.push(x));
    }
}

/// Saving replaces the first record with the saved identifier, or appends.
proof fn lemma_upsert_cases(s: Seq<SessionView>, x: SessionView)
    ensures
        has_id(s, x.id) ==> is_first_with_id(s, x.id, first_with_id(s, x.id)) && upserted(s, x)
            == s.update(first_with_id(s, x.id), x),
        !has_id(s, x.id) ==> upserted(s, x) == s.push(x),
{
    if has_id(s, x.id) {
        lemma_has_first(s, x.id);
        lemma_upsert_at(s, x, first_with_id(s, x.id));
    } else {
        lemma_upsert_absent(s, x);
    }
}

/// Replacing one record changes the count of an id by what left and what came.
proof fn lemma_count_update(s: Seq<SessionView>, k: int, x: SessionView, id: u128)
    requires
        0 <= k < s.len(),
    ensures
        count_id(s.update(k, x), id) + (if s[k].id == id {
            1int
        } else {
            0int
        }) == count_id(s, id) + (if x.id == id {
            1int
        } else {
            0int
        }),
    decreases s.len(),
{
    let t = s.update(k, x);
    if k == s.len() - 1 {
        assert(t.drop_last() =~= s.drop_last());
    } else {
        assert(t.drop_last() =~= s.drop_last().update(k, x));
        lemma_count_update(s.drop_last(), k, x, id);
    }
}

/// The count of an id is positive exactly when some record holds it.
proof fn lemma_count_positive(s: Seq<SessionView>, id: u128)
    ensures
        has_id(s, id) <==> count_id(s, id) > 0,
    decreases s.len(),
{
    if s.len() > 0 {
        lemma_count_positive(s.drop_last(), id);
        if has_id(s.drop_last(), id) {
            let i = choose|i: int| 0 <= i < s.drop_last().len() && s.drop_last()[i].id == id;
            assert(s[i] == s.drop_last()[i]);
        }
        if has_id(s, id) && s.last().id != id {
            let i = choose|i: int| 0 <= i < s.len() && s[i].id == id;
            assert(s.drop_last()[i] == s[i]);
        }
    }
}

/// Saving two records with the same identifier leaves the store as saving the
/// second alone would: one record with that identifier, the second one, where
/// the store held at most one before.
pub proof fn lemma_upsert_same_id(s: Seq<SessionView>, a: SessionView, b: SessionView)
    requires
        a.id == b.id,
    ensures
        upserted(upserted(s, a), b) == upserted(s, b),
        count_id(s, b.id) <= 1 ==> count_id(upserted(s, b), b.id) == 1,
        upserted(s, b).contains(b),
{
    let id = a.id;
    lemma_count_positive(s, id);
    lemma_upsert_cases(s, a);
    lemma_upsert_cases(s, b);
    if has_id(s, id) {
        let k = first_with_id(s, id);
        let s1 = s.update(k, a);
        assert forall|j: int| 0 <= j < k implies s1[j].id != id by {
            assert(s1[j] == s[j]);
        }
        lemma_upsert_at(s1, b, k);
        assert(s1.update(k, b) =~= s.update(k, b));
        lemma_count_update(s, k, b, id);
        assert(upserted(s, b)[k] == b);
    } else {
        let s1 = s.push(a);
        let n = s.len() as int;
        assert forall|j: int| 0 <= j < n implies s1[j].id != id by {
            assert(s1[j] == s[j]);
        }
        lemma_upsert_at(s1, b, n);
        assert(s1.update(n, b) =~= s.push(b));
        assert(s.push(b).drop_last() =~= s);
        assert(upserted(s, b)[n] == b);
    }
}

/// On a fresh store, loading the sessions gives none, and loading the
/// configuration gives the default one and stores it.
pub proof fn lemma_fresh_store()
    ensures
        fresh_store().sessions.len() == 0,
        loaded_config(fresh_store()) == default_config(),
        after_config_load(fresh_store()).config == Some(default_config()),
        after_config_load(fresh_store()).config_written,
        loaded_config(after_config_load(fresh_store())) == default_config(),
{
}

/// Saving a record leaves an identifier absent that was absent and is not
/// the saved record's.
pub proof fn lemma_upsert_keeps_absent(s: Seq<SessionView>, x: SessionView, id: u128)
    requires
        !has_id(s, id),
        x.id != id,
    ensures
        !has_id(upserted(s, x), id),
{
    let u = upserted(s, x);
    lemma_upsert_cases(s, x);
    assert forall|i: int| 0 <= i < u.len() implies u[i].id != id by {
        if i < s.len() && u[i] != x {
            assert(u[i] == s[i]);
        }
    }
}

impl PersistenceManager {
    /// A store with no stored sessions and no stored configuration, as on a
    /// first run.
    pub fn new() -> (r: PersistenceManager)
        ensures
            r@ == fresh_store(),
    {
        let r = PersistenceManager {
            sessions: Vec::new(),
            config: None,
            sessions_written: false,
            config_written: false,
        };
        assert(r@.sessions =~= fresh_store().sessions);
        r
    }

    /// A store that holds the given sessions and configuration, as read from
    /// storage; `None` where no configuration is stored.
    pub fn from_stored(sessions: Vec<WorkSession>, config: Option<TimerConfig>) -> (r:
        PersistenceManager)
        ensures
            r@.sessions == sessions_view(sessions@),
            r@.config == config,
            !r@.sessions_written,
            !r@.config_written,
    {
        PersistenceManager { sessions, config, sessions_written: false, config_written: false }
    }

    /// The stored sessions, in stored order.
    pub fn stored_sessions(&self) -> (r: &Vec<WorkSession>)
        ensures
            sessions_view(r@) == self@.sessions,
    {
        &self.sessions
    }

    /// The stored configuration, if one is stored.
    pub fn stored_config(&self) -> (r: Option<TimerConfig>)
        ensures
            r == self@.config,
    {
        self.config
    }

    /// Whether an operation has changed the stored sessions.
    pub fn sessions_changed(&self) -> (r: bool)
        ensures
            r == self@.sessions_written,
    {
        self.sessions_written
    }

    /// Whether an operation has changed the stored configuration.
    pub fn config_changed(&self) -> (r: bool)
        ensures
            r == self@.config_written,
    {
        self.config_written
    }

    /// The position of the first stored session with identifier `id`.
    fn find_session(&self, id: u128) -> (r: Option<usize>)
        ensures
            r matches Some(i) ==> is_first_with_id(self@.sessions, id, i as int),
            r is None ==> !has_id(self@.sessions, id),
    {
        let n = self.sessions.len();
        let mut i: usize = 0;
        while i < n
            invariant
                n == self.sessions@.len(),
                i <= n,
                forall|j: int| 0 <= j < i ==> self@.sessions[j].id != id,
            decreases n - i,
        {
            if self.sessions[i].id == id {
                return Some(i);
            }
            i += 1;
        }
        None
    }

    /// Saves `session`: it replaces the stored session with the same
    /// identifier, or is appended when there is none.
    pub fn save_session(&mut self, session: WorkSession)
        ensures
            final(self)@ == (StoreView {
                sessions: upserted(old(self)@.sessions, session@),
                sessions_written: true,
                ..old(self)@
            }),
    {
        let ghost before = self@.sessions;
        let ghost x = session@;
        match self.find_session(session.id) {
            Some(i) => {
                proof {
                    lemma_upsert_at(before, x, i as int);
                }
                self.sessions.set(i, session);
                assert(self@.sessions =~= upserted(before, x));
            },
            None => {
                proof {
                    lemma_upsert_absent(before, x);
                }
                self.sessions.push(session);
                assert(self@.sessions =~= upserted(before, x));
            },
        }
        self.sessions_written = true;
    }

    /// All stored sessions; none where nothing has been stored yet.
    pub fn load_sessions(&self) -> (r: Vec<WorkSession>)
        ensures
            sessions_view(r@) == self@.sessions,
    {
        let r = self.sessions.clone();
        assert forall|i: int| 0 <= i < r@.len() implies r@[i]@ == self.sessions@[i]@ by {
            assert(cloned(self.sessions@[i], r@[i]));
        }
        assert(sessions_view(r@) =~= self@.sessions);
        r
    }

    /// Stores `config` in place of the stored configuration.
    pub fn save_config(&mut self, config: TimerConfig)
        ensures
            final(self)@ == (StoreView {
                config: Some(config),
                config_written: true,
                ..old(self)@
            }),
    {
        self.config = Some(config);
        self.config_written = true;
    }

    /// The stored configuration; where none is stored, the default one, which
    /// is then stored too.
    pub fn load_config(&mut self) -> (r: TimerConfig)
        ensures
            r == loaded_config(old(self)@),
            final(self)@ == after_config_load(old(self)@),
    {
        match self.config {
            Some(c) => c,
            None => {
                let c = TimerConfig::default();
                self.save_config(c);
                c
            },
        }
    }

    /// Removes every finished stopwatch session whose project is `project`
    /// and returns how many were removed; the stored sessions are rewritten
    /// only when at least one was.
    pub fn delete_sessions_for_project(&mut self, project: &str) -> (r: usize)
        ensures
            final(self)@.sessions == without_project(old(self)@.sessions, project@),
            r == old(self)@.sessions.len() - final(self)@.sessions.len(),
            final(self)@.sessions_written == (old(self)@.sessions_written || r > 0),
            final(self)@.config == old(self)@.config,
            final(self)@.config_written == old(self)@.config_written,
            r == 0 ==> final(self)@ == old(self)@,
    {
        let project = project.to_owned();
        let ghost all = self@.sessions;
        let ghost p = project@;
        let n = self.sessions.len();
        let mut kept: Vec<WorkSession> = Vec::new();
        let mut i: usize = 0;
        while i < n
            invariant
                n == self.sessions@.len(),
                all == self@.sessions,
                p == project@,
                i <= n,
                kept@.len() <= i,
                sessions_view(kept@) == without_project(all.take(i as int), p),
            decreases n - i,
        {
            proof {
                assert(all.take(i + 1) =~= all.take(i as int).push(all[i as int]));
                all.take(i as int).lemma_filter_push(all[i as int], |r: SessionView| !belongs_to(r, p));
            }
            if !self.sessions[i].belongs_to_project(&project) {
                let s = self.sessions[i].clone();
                kept.push(s);
                assert(sessions_view(kept@) =~= without_project(all.take(i + 1), p));
            }
            i += 1;
        }
        assert(all.take(n as int) =~= all);
        let removed = n - kept.len();
        if removed > 0 {
            self.sessions = kept;
            self.sessions_written = true;
        } else {
            proof {
                all.lemma_filter_len(|r: SessionView| !belongs_to(r, p));
                lemma_filter_all(all, p);
            }
        }
        removed
    }
}

/// Deleting a project's sessions leaves none of them: a second deletion of
/// the same project removes nothing, so it returns 0 and rewrites nothing.
pub proof fn lemma_delete_twice(s: Seq<SessionView>, p: Seq<char>)
    ensures
        without_project(without_project(s, p), p) == without_project(s, p),
        forall|i: int|
            0 <= i < without_project(s, p).len() ==> !belongs_to(
                #[trigger] without_project(s, p)[i],
                p,
            ),
    decreases s.len(),
{
    broadcast use vstd::seq_lib::group_filter_ensures;

    let f = |r: SessionView| !belongs_to(r, p);
    if s.len() > 0 {
        let t = s.drop_last();
        let x = s.last();
        assert(s =~= t.push(x));
        t.lemma_filter_push(x, f);
        lemma_delete_twice(t, p);
        without_project(t, p).lemma_filter_push(x, f);
    }
}

/// Filtering keeps every record when it keeps as many records as there are.
proof fn lemma_filter_all(s: Seq<SessionView>, p: Seq<char>)
    requires
        without_project(s, p).len() == s.len(),
    ensures
        without_project(s, p) == s,
    decreases s.len(),
{
    if s.len() > 0 {
        let f = |r: SessionView| !belongs_to(r, p);
        assert(s =~= s.drop_last().push(s.last()));
        s.drop_last().lemma_filter_push(s.last(), f);
        s.drop_last().lemma_filter_len(f);
        lemma_filter_all(s.drop_last(), p);
    }
}

} // verus!
