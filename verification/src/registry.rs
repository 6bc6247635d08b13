//! The session registry: an ordered collection of named session entries,
//! owned by the dispatch loop. It supports creation (names are unique),
//! removal with teardown, lookup by name, and a periodic reconciliation pass
//! that starts exactly one fresh worker for every entry that lacks a live
//! one, up to a bounded number of attempts per entry.

use vstd::prelude::*;

use crate::protocol::{BackendError, ConfigView, SessionConfig};

verus! {

/// How often reconciliation will try to start a worker for one entry before
/// giving the entry up.
pub const MAX_SPAWN_ATTEMPTS: u64 = 5;

/// One registered session: its unique name, the configuration its model
/// session is built from, whether a worker is currently live for it, and how
/// many times reconciliation has tried to start one.
pub struct SessionEntry {
    pub name: String,
    pub config: SessionConfig,
    pub live: bool,
    pub attempts: u64,
}

/// Mathematical value of a `SessionEntry`.
pub struct EntryView {
    pub name: Seq<char>,
    pub config: ConfigView,
    pub live: bool,
    pub attempts: u64,
}

impl View for SessionEntry {
    type V = EntryView;

    open spec fn view(&self) -> EntryView {
        EntryView {
            name: self.name@,
            config: self.config@,
            live: self.live,
            attempts: self.attempts,
        }
    }
}

/// The registry itself. All mutation goes through the methods below, which
/// preserve `distinct_names`.
pub struct Registry {
    pub entries: Vec<SessionEntry>,
}

impl View for Registry {
    type V = Seq<EntryView>;

    open spec fn view(&self) -> Seq<EntryView> {
        self.entries@.map_values(|e: SessionEntry| e@)
    }
}

/// The registry's invariant: no two entries share a name, so a name denotes
/// at most one session and at most one live worker.
pub open spec fn distinct_names(s: Seq<EntryView>) -> bool {
    forall|i: int, j: int| 0 <= i < j < s.len() ==> s[i].name != s[j].name
}

/// Whether some entry carries this name.
pub open spec fn contains_name(s: Seq<EntryView>, name: Seq<char>) -> bool {
    exists|i: int| 0 <= i < s.len() && s[i].name == name
}

/// Whether some entry carries this name and has a live worker.
pub open spec fn live_lookup(s: Seq<EntryView>, name: Seq<char>) -> bool {
    exists|i: int| 0 <= i < s.len() && s[i].name == name && s[i].live
}

/// How many entries carry this name (with distinct names: zero or one).
pub open spec fn count_name(s: Seq<EntryView>, name: Seq<char>) -> nat
    decreases s.len(),
{
    if s.len() == 0 {
        0
    } else {
        count_name(s.drop_last(), name) + if s.last().name == name {
            1nat
        } else {
            0nat
        }
    }
}

/// How many entries carry this name and a live worker.
pub open spec fn live_count(s: Seq<EntryView>, name: Seq<char>) -> nat
    decreases s.len(),
{
    if s.len() == 0 {
        0
    } else {
        live_count(s.drop_last(), name) + if s.last().name == name && s.last().live {
            1nat
        } else {
            0nat
        }
    }
}

/// The entry a successful creation stores: not yet live, no attempts spent.
pub open spec fn fresh_entry(name: Seq<char>, config: ConfigView) -> EntryView {
    EntryView { name: name, config: config, live: false, attempts: 0 }
}

/// What creation does to the registry: append a fresh entry, unless the name
/// is already taken, in which case nothing changes.
pub open spec fn create_spec(s: Seq<EntryView>, name: Seq<char>, config: ConfigView) -> Seq<
    EntryView,
> {
    if contains_name(s, name) {
        s
    } else {
        s.push(fresh_entry(name, config))
    }
}

/// What removal does to the registry: drop the entry with this name, if any.
pub open spec fn remove_spec(s: Seq<EntryView>, name: Seq<char>) -> Seq<EntryView> {
    if contains_name(s, name) {
        let i = choose|i: int| 0 <= i < s.len() && s[i].name == name;
        s.remove(i)
    } else {
        s
    }
}

/// Whether reconciliation must start a worker for this entry: it has none,
/// and the entry has not used up its attempts.
pub open spec fn needs_spawn(e: EntryView) -> bool {
    !e.live && e.attempts < MAX_SPAWN_ATTEMPTS
}

/// One entry after a reconciliation pass: a worker is started for it exactly
/// when `needs_spawn` holds; a live entry is left alone.
pub open spec fn reconciled_entry(e: EntryView) -> EntryView {
    if needs_spawn(e) {
        EntryView { live: true, attempts: (e.attempts + 1) as u64, ..e }
    } else {
        e
    }
}

/// The registry after one reconciliation pass.
pub open spec fn reconcile_spec(s: Seq<EntryView>) -> Seq<EntryView> {
    s.map_values(|e: EntryView| reconciled_entry(e))
}

/// The names reconciliation starts a worker for, in registry order.
pub open spec fn spawn_names(s: Seq<EntryView>) -> Seq<Seq<char>>
    decreases s.len(),
{
    if s.len() == 0 {
        Seq::empty()
    } else if needs_spawn(s.last()) {
        spawn_names(s.drop_last()).push(s.last().name)
    } else {
        spawn_names(s.drop_last())
    }
}

/// What marking a session dead does: clear the live flag of the entry with
/// this name, if any.
pub open spec fn mark_dead_spec(s: Seq<EntryView>, name: Seq<char>) -> Seq<EntryView> {
    if contains_name(s, name) {
        let i = choose|i: int| 0 <= i < s.len() && s[i].name == name;
        s.update(i, EntryView { live: false, ..s[i] })
    } else {
        s
    }
}

impl Registry {
    /// An empty registry.
    pub fn new() -> (r: Registry)
        ensures
            r@ == Seq::<EntryView>::empty(),
            distinct_names(r@),
    {
        let r = Registry { entries: Vec::new() };
        proof {
            assert(r@ =~= Seq::<EntryView>::empty());
        }
        r
    }

    /// Whether a session with this name is registered.
    pub fn contains(&self, name: &String) -> (r: bool)
        ensures
            r == contains_name(self@, name@),
    {
        let mut i: usize = 0;
        while i < self.entries.len()
            invariant
                i <= self.entries.len(),
                forall|j: int| 0 <= j < i ==> self@[j].name != name@,
            decreases self.entries.len() - i,
        {
            if self.entries[i].name == *name {
                proof {
                    assert(self@[i as int].name == name@);
                }
                return true;
            }
            i = i + 1;
        }
        false
    }

    /// The position of the entry with this name, if any.
    pub fn find(&self, name: &String) -> (r: Option<usize>)
        ensures
            match r {
                Some(i) => i < self@.len() && self@[i as int].name == name@,
                None => !contains_name(self@, name@),
            },
    {
        let mut i: usize = 0;
        while i < self.entries.len()
            invariant
                i <= self.entries.len(),
                forall|j: int| 0 <= j < i ==> self@[j].name != name@,
            decreases self.entries.len() - i,
        {
            if self.entries[i].name == *name {
                return Some(i);
            }
            i = i + 1;
        }
        None
    }

    /// The mailbox lookup of the dispatch loop: the position of the entry
    /// with this name, provided it is live; `None` for a name that is not
    /// registered or whose worker is down.
    pub fn lookup(&self, name: &String) -> (r: Option<usize>)
        ensures
            match r {
                Some(i) => i < self@.len() && self@[i as int].name == name@ && self@[
                    i as int
                ].live,
                None => !live_lookup(self@, name@),
            },
    {
        let mut i: usize = 0;
        while i < self.entries.len()
            invariant
                i <= self.entries.len(),
                forall|j: int| 0 <= j < i ==> !(self@[j].name == name@ && self@[j].live),
            decreases self.entries.len() - i,
        {
            if self.entries[i].live && self.entries[i].name == *name {
                return Some(i);
            }
            i = i + 1;
        }
        None
    }

    /// The configuration of the entry at a known position.
    pub fn config_at(&self, i: usize) -> (c: &SessionConfig)
        requires
            i < self@.len(),
        ensures
            c@ == self@[i as int].config,
    {
        &self.entries[i].config
    }

    /// Registers a new session under `name`: fails with `NameTaken` and
    /// changes nothing if the name is already present, else appends a fresh,
    /// not yet live entry. The worker itself is started by a later
    /// reconciliation pass.
    pub fn create(&mut self, name: String, config: SessionConfig) -> (r: Result<(), BackendError>)
        requires
            distinct_names(old(self)@),
        ensures
            distinct_names(final(self)@),
            final(self)@ == create_spec(old(self)@, name@, config@),
            r is Ok <==> !contains_name(old(self)@, name@),
            r matches Err(e) ==> e == BackendError::NameTaken && final(self)@ == old(self)@,
            r is Ok ==> final(self)@ == old(self)@.push(fresh_entry(name@, config@)),
    {
        if self.contains(&name) {
            Err(BackendError::NameTaken)
        } else {
            let ghost s0 = self@;
            self.entries.push(
                SessionEntry { name: name, config: config, live: false, attempts: 0 },
            );
            proof {
                assert(self@ =~= s0.push(self@.last()));
            }
            Ok(())
        }
    }

    /// Tears a session down: fails with `UnknownSession` and changes nothing
    /// if the name is not present, else drops its entry. Subsequent commands
    /// referencing the name fail until it is created again.
    pub fn remove(&mut self, name: &String) -> (r: Result<(), BackendError>)
        requires
            distinct_names(old(self)@),
        ensures
            distinct_names(final(self)@),
            final(self)@ == remove_spec(old(self)@, name@),
            r is Ok <==> contains_name(old(self)@, name@),
            r matches Err(e) ==> e == BackendError::UnknownSession && final(self)@ == old(self)@,
            !contains_name(final(self)@, name@),
    {
        match self.find(name) {
            Some(i) => {
                let ghost s0 = self@;
                let ghost e0 = self.entries@;
                let _removed = self.entries.remove(i);
                proof {
                    e0.remove_ensures(i as int);
                    s0.remove_ensures(i as int);
                    assert(self@ =~= s0.remove(i as int));
                    let j = choose|j: int| 0 <= j < s0.len() && s0[j].name == name@;
                    assert(j == i) by {
                        if j < i {
                            assert(s0[j].name != s0[i as int].name);
                        } else if j > i {
                            assert(s0[i as int].name != s0[j].name);
                        }
                    }
                    assert forall|k: int| 0 <= k < self@.len() implies self@[k].name
                        != name@ by {
                        if k < i {
                            assert(self@[k] == s0[k]);
                        } else {
                            assert(self@[k] == s0[k + 1]);
                        }
                    }
                }
                Ok(())
            },
            None => Err(BackendError::UnknownSession),
        }
    }

    /// The reconciliation pass of the dispatch loop: for every entry that has
    /// no live worker and attempts to spare, it marks the entry live, spends
    /// one attempt, and returns the name, in registry order, so the runtime
    /// can start exactly one fresh worker per returned name. Live entries and
    /// entries that used up their attempts are left alone.
    pub fn reconcile(&mut self) -> (spawned: Vec<String>)
        ensures
            final(self)@ == reconcile_spec(old(self)@),
            spawned@.map_values(|n: String| n@) == spawn_names(old(self)@),
            distinct_names(old(self)@) ==> distinct_names(final(self)@),
    {
        let ghost s0 = self@;
        let mut spawned: Vec<String> = Vec::new();
        proof {
            assert(spawned@.map_values(|n: String| n@) =~= spawn_names(s0.take(0)));
        }
        let mut i: usize = 0;
        while i < self.entries.len()
            invariant
                i <= self.entries.len(),
                self.entries@.len() == s0.len(),
                forall|j: int| 0 <= j < i ==> self@[j] == reconciled_entry(#[trigger] s0[j]),
                forall|j: int| i <= j < s0.len() ==> self@[j] == #[trigger] s0[j],
                spawned@.map_values(|n: String| n@) == spawn_names(s0.take(i as int)),
            decreases self.entries.len() - i,
        {
            let ghost pre = self@;
            if !self.entries[i].live && self.entries[i].attempts < MAX_SPAWN_ATTEMPTS {
                let nm = self.entries[i].name.clone();
                let e = &mut self.entries[i];
                e.live = true;
                e.attempts = e.attempts + 1;
                spawned.push(nm);
            }
            proof {
                assert forall|j: int| 0 <= j < s0.len() && j != i implies self@[j] == pre[j] by {
                    assert(self.entries@[j]@ == pre[j]);
                }
                if needs_spawn(s0[i as int]) {
                    assert(self@[i as int].name == s0[i as int].name);
                    assert(self@[i as int].config == s0[i as int].config);
                    assert(self@[i as int].live);
                    assert(self@[i as int].attempts == s0[i as int].attempts + 1);
                    assert(self@[i as int] == reconciled_entry(s0[i as int]));
                } else {
                    assert(self@[i as int] == s0[i as int]);
                    assert(self@[i as int] == reconciled_entry(s0[i as int]));
                }
                assert forall|j: int| 0 <= j < i + 1 implies self@[j] == reconciled_entry(
                    s0[j],
                ) by {
                    if j < i {
                        assert(self@[j] == reconciled_entry(s0[j]));
                    }
                }
                assert(s0.take(i + 1).drop_last() =~= s0.take(i as int));
                assert(s0.take(i + 1).last() == s0[i as int]);
                if needs_spawn(s0[i as int]) {
                    assert(spawned@.map_values(|n: String| n@) =~= spawn_names(
                        s0.take(i as int),
                    ).push(s0[i as int].name));
                }
            }
            i = i + 1;
        }
        proof {
            assert(s0.take(s0.len() as int) =~= s0);
            assert(self@ =~= reconcile_spec(s0));
        }
        spawned
    }

    /// Records that the worker for `name` is gone (its task exited, or the
    /// model session failed to build): the entry stays registered, loses its
    /// live flag, and a later reconciliation pass may start a fresh worker
    /// for it.
    pub fn mark_dead(&mut self, name: &String)
        requires
            distinct_names(old(self)@),
        ensures
            distinct_names(final(self)@),
            final(self)@ == mark_dead_spec(old(self)@, name@),
    {
        match self.find(name) {
            Some(i) => {
                let ghost s0 = self@;
                let e = &mut self.entries[i];
                e.live = false;
                proof {
                    let j = choose|j: int| 0 <= j < s0.len() && s0[j].name == name@;
                    assert(j == i) by {
                        if j < i {
                            assert(s0[j].name != s0[i as int].name);
                        } else if j > i {
                            assert(s0[i as int].name != s0[j].name);
                        }
                    }
                    assert(self@ =~= s0.update(i as int, EntryView { live: false, ..s0[i as int] }));
                }
            },
            None => {},
        }
    }
}

/// The registry after `n` consecutive reconciliation passes.
pub open spec fn reconcile_iter(s: Seq<EntryView>, n: nat) -> Seq<EntryView>
    decreases n,
{
    if n == 0 {
        s
    } else {
        reconcile_spec(reconcile_iter(s, (n - 1) as nat))
    }
}

proof fn lemma_count_zero_iff_absent(s: Seq<EntryView>, name: Seq<char>)
    ensures
        count_name(s, name) == 0 <==> !contains_name(s, name),
    decreases s.len(),
{
    if s.len() == 0 {
    } else {
        lemma_count_zero_iff_absent(s.drop_last(), name);
        if s.last().name == name {
            assert(s[s.len() - 1].name == name);
        } else {
            assert forall|i: int| 0 <= i < s.len() && s[i].name == name implies contains_name(
                s.drop_last(),
                name,
            ) by {
                assert(s.drop_last()[i] == s[i]);
            }
            assert forall|i: int|
                0 <= i < s.drop_last().len() && s.drop_last()[i].name
                    == name implies contains_name(s, name) by {
                assert(s.drop_last()[i] == s[i]);
            }
        }
    }
}

proof fn lemma_distinct_count_le_one(s: Seq<EntryView>, name: Seq<char>)
    requires
        distinct_names(s),
    ensures
        count_name(s, name) <= 1,
    decreases s.len(),
{
    if s.len() == 0 {
    } else {
        let d = s.drop_last();
        assert forall|i: int, j: int| 0 <= i < j < d.len() implies d[i].name != d[j].name by {
            assert(d[i] == s[i] && d[j] == s[j]);
        }
        lemma_distinct_count_le_one(d, name);
        if s.last().name == name {
            assert forall|i: int| 0 <= i < d.len() implies d[i].name != name by {
                assert(d[i] == s[i]);
                assert(s[i].name != s[s.len() - 1].name);
            }
            lemma_count_zero_iff_absent(d, name);
        }
    }
}

proof fn lemma_live_le_count(s: Seq<EntryView>, name: Seq<char>)
    ensures
        live_count(s, name) <= count_name(s, name),
    decreases s.len(),
{
    if s.len() == 0 {
    } else {
        lemma_live_le_count(s.drop_last(), name);
    }
}

proof fn lemma_no_spawn_names(s: Seq<EntryView>)
    requires
        forall|i: int| 0 <= i < s.len() ==> !needs_spawn(#[trigger] s[i]),
    ensures
        spawn_names(s) == Seq::<Seq<char>>::empty(),
    decreases s.len(),
{
    if s.len() == 0 {
        assert(spawn_names(s) =~= Seq::<Seq<char>>::empty());
    } else {
        let d = s.drop_last();
        assert forall|i: int| 0 <= i < d.len() implies !needs_spawn(#[trigger] d[i]) by {
            assert(d[i] == s[i]);
        }
        lemma_no_spawn_names(d);
        assert(!needs_spawn(s[s.len() - 1]));
    }
}

/// Some entry of the registry lacks a live worker under this name and still
/// has attempts to spare.
pub open spec fn spawn_witnessed(s: Seq<EntryView>, nm: Seq<char>) -> bool {
    exists|i: int| 0 <= i < s.len() && s[i].name == nm && needs_spawn(s[i])
}

proof fn lemma_spawn_names_membership(s: Seq<EntryView>)
    ensures
        forall|k: int|
            0 <= k < spawn_names(s).len() ==> spawn_witnessed(s, #[trigger] spawn_names(s)[k]),
    decreases s.len(),
{
    if s.len() == 0 {
        assert(spawn_names(s).len() == 0);
    } else {
        let d = s.drop_last();
        lemma_spawn_names_membership(d);
        assert forall|k: int| 0 <= k < spawn_names(s).len() implies spawn_witnessed(
            s,
            #[trigger] spawn_names(s)[k],
        ) by {
            if k < spawn_names(d).len() {
                assert(spawn_names(s)[k] == spawn_names(d)[k]);
                assert(spawn_witnessed(d, spawn_names(d)[k]));
                let i = choose|i: int|
                    0 <= i < d.len() && d[i].name == spawn_names(d)[k] && needs_spawn(d[i]);
                assert(d[i] == s[i]);
                assert(0 <= i < s.len() && s[i].name == spawn_names(s)[k] && needs_spawn(s[i]));
            } else {
                assert(needs_spawn(s.last()));
                assert(spawn_names(s)[k] == s.last().name);
                let i = s.len() - 1;
                assert(0 <= i < s.len() && s[i].name == spawn_names(s)[k] && needs_spawn(s[i]));
            }
        }
    }
}

/// Reconciliation changes nothing once every entry is live or has used up
/// its attempts: a second pass is a no-op.
pub proof fn lemma_reconcile_idempotent(s: Seq<EntryView>)
    ensures
        reconcile_spec(reconcile_spec(s)) == reconcile_spec(s),
{
    let s1 = reconcile_spec(s);
    assert forall|i: int| 0 <= i < s1.len() implies reconciled_entry(#[trigger] s1[i])
        == s1[i] by {
        assert(s1[i] == reconciled_entry(s[i]));
    }
    assert(reconcile_spec(s1) =~= s1);
}

/// No-duplicate-workers law: however many consecutive reconciliation passes
/// run with no intervening create or remove, the registry equals the result
/// of a single pass; for any name the live workers number zero or one, never
/// more; no pass after the first starts anything; and no pass ever starts a
/// worker for a name that already has a live one.
pub proof fn lemma_reconcile_no_duplicates(s: Seq<EntryView>, name: Seq<char>, n: nat)
    requires
        distinct_names(s),
        n >= 1,
    ensures
        reconcile_iter(s, n) == reconcile_spec(s),
        live_count(reconcile_spec(s), name) <= 1,
        spawn_names(reconcile_spec(s)) == Seq::<Seq<char>>::empty(),
        forall|k: int|
            0 <= k < spawn_names(s).len() ==> !live_lookup(s, #[trigger] spawn_names(s)[k]),
    decreases n,
{
    let s1 = reconcile_spec(s);
    if n == 1 {
        assert(reconcile_iter(s, 0) == s);
    } else {
        lemma_reconcile_no_duplicates(s, name, (n - 1) as nat);
        lemma_reconcile_idempotent(s);
    }
    // names are untouched by reconciliation, so distinctness carries over
    assert forall|i: int, j: int| 0 <= i < j < s1.len() implies s1[i].name != s1[j].name by {
        assert(s1[i] == reconciled_entry(s[i]) && s1[j] == reconciled_entry(s[j]));
    }
    lemma_distinct_count_le_one(s1, name);
    lemma_live_le_count(s1, name);
    assert forall|i: int| 0 <= i < s1.len() implies !needs_spawn(#[trigger] s1[i]) by {
        assert(s1[i] == reconciled_entry(s[i]));
    }
    lemma_no_spawn_names(s1);
    lemma_spawn_names_membership(s);
    assert forall|k: int| 0 <= k < spawn_names(s).len() implies !live_lookup(
        s,
        #[trigger] spawn_names(s)[k],
    ) by {
        let nm = spawn_names(s)[k];
        assert(spawn_witnessed(s, nm));
        let i = choose|i: int| 0 <= i < s.len() && s[i].name == nm && needs_spawn(s[i]);
        if live_lookup(s, nm) {
            let j = choose|j: int| 0 <= j < s.len() && s[j].name == nm && s[j].live;
            assert(j != i);
            if i < j {
                assert(s[i].name != s[j].name);
            } else {
                assert(s[j].name != s[i].name);
            }
        }
    }
}

/// Name uniqueness law: creating a fresh name registers exactly one entry
/// under it, and a second creation under the same name is rejected and
/// leaves that one entry as it is.
pub proof fn lemma_create_name_unique(
    s: Seq<EntryView>,
    name: Seq<char>,
    c1: ConfigView,
    c2: ConfigView,
)
    requires
        distinct_names(s),
        !contains_name(s, name),
    ensures
        ({
            let s1 = create_spec(s, name, c1);
            &&& contains_name(s1, name)
            &&& count_name(s1, name) == 1
            &&& create_spec(s1, name, c2) == s1
        }),
{
    let s1 = s.push(fresh_entry(name, c1));
    assert(s1[s.len() as int].name == name);
    assert(s1.drop_last() =~= s);
    lemma_count_zero_iff_absent(s, name);
}

/// Removal idempotence law: after a removal the name is gone, and a second
/// removal of the same name finds nothing and changes nothing.
pub proof fn lemma_remove_idempotent(s: Seq<EntryView>, name: Seq<char>)
    requires
        distinct_names(s),
    ensures
        ({
            let s1 = remove_spec(s, name);
            &&& !contains_name(s1, name)
            &&& remove_spec(s1, name) == s1
        }),
{
    if contains_name(s, name) {
        let i = choose|i: int| 0 <= i < s.len() && s[i].name == name;
        s.remove_ensures(i);
        let s1 = s.remove(i);
        assert forall|k: int| 0 <= k < s1.len() implies s1[k].name != name by {
            if k < i {
                assert(s1[k] == s[k]);
                if s[k].name == name {
                    assert(s[k].name != s[i].name);
                }
            } else {
                assert(s1[k] == s[k + 1]);
                if s[k + 1].name == name {
                    assert(s[i].name != s[k + 1].name);
                }
            }
        }
    }
}

} // verus!
