//! The process registry: per-identifier version counters, the store of
//! process records keyed by (identifier, version), the event log, and the
//! validation facade over the restriction engine.

use crate::restrictions::{
    all_within_depth, clone_restriction_list, eval, validate_depths, validate_restriction_list,
    AccountId, ProcessIO, Restriction,
};
use vstd::prelude::*;

verus! {

/// The name of a process family.
pub type ProcessIdentifier = u32;

/// A version of a process; versions start at 1 and only ever grow.
pub type ProcessVersion = u32;

/// Whether a process may admit transitions at all.
#[derive(Clone, Copy, PartialEq, Eq, Structural, Debug)]
pub enum ProcessStatus {
    Disabled,
    Enabled,
}

impl Default for ProcessStatus {
    /// The default status is `Disabled`: an absent record admits nothing.
    fn default() -> (s: Self)
        ensures
            s == ProcessStatus::Disabled,
    {
        ProcessStatus::Disabled
    }
}

/// A versioned policy definition: a status and the restrictions a transition
/// must satisfy (all of them, in order).
#[derive(PartialEq, Debug)]
pub struct Process {
    pub status: ProcessStatus,
    pub restrictions: Vec<Restriction>,
}

/// The mathematical content of a `Process`.
pub struct ProcessView {
    pub status: ProcessStatus,
    pub restrictions: Seq<Restriction>,
}

impl View for Process {
    type V = ProcessView;

    open spec fn view(&self) -> ProcessView {
        ProcessView { status: self.status, restrictions: self.restrictions@ }
    }
}

impl Default for Process {
    /// The default process is disabled with no restrictions; it is what a
    /// lookup of an absent slot reports.
    fn default() -> (p: Self)
        ensures
            p@ == (ProcessView { status: ProcessStatus::Disabled, restrictions: Seq::empty() }),
    {
        let p = Process { status: ProcessStatus::Disabled, restrictions: Vec::new() };
        assert(p@.restrictions =~= Seq::<Restriction>::empty());
        p
    }
}

/// The exact coordinate a transition claims to be validated against.
#[derive(Clone, Copy, PartialEq, Eq, Structural, Debug)]
pub struct ProcessFullyQualifiedId {
    pub id: ProcessIdentifier,
    pub version: ProcessVersion,
}

/// A notification the registry asks the host to emit.
#[derive(PartialEq, Debug)]
pub enum Event {
    /// A process was created: its identifier, the version it received, its
    /// restrictions, and whether this was the first version ever issued for
    /// the identifier.
    ProcessCreated(ProcessIdentifier, ProcessVersion, Vec<Restriction>, bool),
    /// A process was disabled: its identifier and version.
    ProcessDisabled(ProcessIdentifier, ProcessVersion),
}

/// The mathematical content of an `Event`.
pub enum EventView {
    ProcessCreated(ProcessIdentifier, ProcessVersion, Seq<Restriction>, bool),
    ProcessDisabled(ProcessIdentifier, ProcessVersion),
}

impl View for Event {
    type V = EventView;

    open spec fn view(&self) -> EventView {
        match *self {
            Event::ProcessCreated(id, version, restrictions, was_first) => EventView::ProcessCreated(
                id,
                version,
                restrictions@,
                was_first,
            ),
            Event::ProcessDisabled(id, version) => EventView::ProcessDisabled(id, version),
        }
    }
}

/// Why a lifecycle operation failed. Validation never fails: it returns
/// `false` instead.
#[derive(Clone, Copy, PartialEq, Eq, Structural, Debug)]
pub enum Error {
    /// The restriction tree is deeper than `MAX_DEPTH`.
    RestrictionsTooDeep,
    /// The target (identifier, version) slot is already populated.
    AlreadyExists,
    /// No process exists at the target (identifier, version).
    NotFound,
}

/// One stored process record, keyed by identifier and version.
pub struct ProcessEntry {
    pub id: ProcessIdentifier,
    pub version: ProcessVersion,
    pub process: Process,
}

/// The version counter recorded for `id`: the value of the latest entry for
/// `id`, or 0 when no entry exists.
pub open spec fn lookup_version(s: Seq<(ProcessIdentifier, ProcessVersion)>, id: ProcessIdentifier) -> ProcessVersion
    decreases s.len(),
{
    if s.len() == 0 {
        0
    } else if s.last().0 == id {
        s.last().1
    } else {
        lookup_version(s.drop_last(), id)
    }
}

/// The process recorded at `(id, version)`: the latest entry with that key,
/// or nothing.
pub open spec fn lookup_process(
    s: Seq<ProcessEntry>,
    id: ProcessIdentifier,
    version: ProcessVersion,
) -> Option<ProcessView>
    decreases s.len(),
{
    if s.len() == 0 {
        Option::None
    } else if s.last().id == id && s.last().version == version {
        Option::Some(s.last().process@)
    } else {
        lookup_process(s.drop_last(), id, version)
    }
}

/// When an entry with key `id` stands at `p` and no later entry has that
/// key, the counter for `id` is exactly that entry's value.
proof fn lemma_lookup_version_found(
    s: Seq<(ProcessIdentifier, ProcessVersion)>,
    p: int,
    id: ProcessIdentifier,
)
    requires
        0 <= p < s.len(),
        s[p].0 == id,
        forall|t: int| p < t < s.len() ==> (#[trigger] s[t]).0 != id,
    ensures
        lookup_version(s, id) == s[p].1,
    decreases s.len(),
{
    if p == s.len() - 1 {
    } else {
        lemma_lookup_version_found(s.drop_last(), p, id);
    }
}

/// When no entry has key `id`, the counter for `id` is 0.
proof fn lemma_lookup_version_absent(s: Seq<(ProcessIdentifier, ProcessVersion)>, id: ProcessIdentifier)
    requires
        forall|t: int| 0 <= t < s.len() ==> (#[trigger] s[t]).0 != id,
    ensures
        lookup_version(s, id) == 0,
    decreases s.len(),
{
    if s.len() > 0 {
        lemma_lookup_version_absent(s.drop_last(), id);
    }
}

/// Overwriting the entry at `p` with one carrying the same key leaves the
/// counters of all other keys unchanged.
proof fn lemma_lookup_version_update(
    s: Seq<(ProcessIdentifier, ProcessVersion)>,
    p: int,
    e: (ProcessIdentifier, ProcessVersion),
    k: ProcessIdentifier,
)
    requires
        0 <= p < s.len(),
        s[p].0 == e.0,
        k != e.0,
    ensures
        lookup_version(s.update(p, e), k) == lookup_version(s, k),
    decreases s.len(),
{
    let t = s.update(p, e);
    if p == s.len() - 1 {
        assert(t.drop_last() =~= s.drop_last());
    } else {
        assert(t.last() == s.last());
        if s.last().0 == k {
        } else {
            assert(t.drop_last() =~= s.drop_last().update(p, e));
            lemma_lookup_version_update(s.drop_last(), p, e, k);
        }
    }
}

/// When an entry with key `(id, version)` stands at `p` and no later entry
/// has that key, the store reports exactly that entry's process.
proof fn lemma_lookup_process_found(
    s: Seq<ProcessEntry>,
    p: int,
    id: ProcessIdentifier,
    version: ProcessVersion,
)
    requires
        0 <= p < s.len(),
        s[p].id == id && s[p].version == version,
        forall|t: int|
            p < t < s.len() ==> !((#[trigger] s[t]).id == id && s[t].version == version),
    ensures
        lookup_process(s, id, version) == Option::Some(s[p].process@),
    decreases s.len(),
{
    if p == s.len() - 1 {
    } else {
        lemma_lookup_process_found(s.drop_last(), p, id, version);
    }
}

/// When no entry has key `(id, version)`, the store reports nothing there.
proof fn lemma_lookup_process_absent(s: Seq<ProcessEntry>, id: ProcessIdentifier, version: ProcessVersion)
    requires
        forall|t: int|
            0 <= t < s.len() ==> !((#[trigger] s[t]).id == id && s[t].version == version),
    ensures
        lookup_process(s, id, version) is None,
    decreases s.len(),
{
    if s.len() > 0 {
        lemma_lookup_process_absent(s.drop_last(), id, version);
    }
}

/// Overwriting the entry at `p` with one carrying the same key leaves every
/// other slot of the store unchanged.
proof fn lemma_lookup_process_update(
    s: Seq<ProcessEntry>,
    p: int,
    e: ProcessEntry,
    id: ProcessIdentifier,
    version: ProcessVersion,
)
    requires
        0 <= p < s.len(),
        s[p].id == e.id && s[p].version == e.version,
        !(id == e.id && version == e.version),
    ensures
        lookup_process(s.update(p, e), id, version) == lookup_process(s, id, version),
    decreases s.len(),
{
    let t = s.update(p, e);
    if p == s.len() - 1 {
        assert(t.drop_last() =~= s.drop_last());
    } else {
        assert(t.last() == s.last());
        if s.last().id == id && s.last().version == version {
        } else {
            assert(t.drop_last() =~= s.drop_last().update(p, e));
            lemma_lookup_process_update(s.drop_last(), p, e, id, version);
        }
    }
}

/// The registry: the version counters, the process store and the log of
/// requested notifications, all owned as one explicit store object.
pub struct Pallet {
    version_model: Vec<(ProcessIdentifier, ProcessVersion)>,
    process_model: Vec<ProcessEntry>,
    events: Vec<Event>,
}

impl Pallet {
    /// Each identifier has at most one counter entry, and each
    /// (identifier, version) pair at most one process entry.
    pub closed spec fn wf(&self) -> bool {
        &&& forall|i: int, j: int|
            0 <= i < j < self.version_model@.len() ==> (#[trigger] self.version_model@[i]).0 != (
            #[trigger] self.version_model@[j]).0
        &&& forall|i: int, j: int|
            0 <= i < j < self.process_model@.len() ==> !((#[trigger] self.process_model@[i]).id == (
            #[trigger] self.process_model@[j]).id && self.process_model@[i].version
                == self.process_model@[j].version)
    }

    /// The last version issued for `id`; 0 when none ever was.
    pub closed spec fn version_of(&self, id: ProcessIdentifier) -> ProcessVersion {
        lookup_version(self.version_model@, id)
    }

    /// The process stored at `(id, version)`, if any.
    pub closed spec fn process_at(&self, id: ProcessIdentifier, version: ProcessVersion) -> Option<
        ProcessView,
    > {
        lookup_process(self.process_model@, id, version)
    }

    /// Whether `id` has a counter entry at all (even one holding 0).
    pub closed spec fn has_counter(&self, id: ProcessIdentifier) -> bool {
        exists|j: int| 0 <= j < self.version_model@.len() && (#[trigger] self.version_model@[j]).0 == id
    }

    /// How many identifiers have a counter entry.
    pub closed spec fn version_entry_count(&self) -> nat {
        self.version_model@.len()
    }

    /// How many process records are stored.
    pub closed spec fn process_entry_count(&self) -> nat {
        self.process_model@.len()
    }

    /// The notifications requested so far, oldest first.
    pub closed spec fn event_log(&self) -> Seq<EventView> {
        self.events@.map_values(|e: Event| e@)
    }

    /// An empty registry: no counters, no processes, no events.
    pub fn new() -> (p: Pallet)
        ensures
            p.wf(),
            forall|id: ProcessIdentifier| #[trigger] p.version_of(id) == 0,
            forall|id: ProcessIdentifier, v: ProcessVersion| #[trigger] p.process_at(id, v) is None,
            forall|id: ProcessIdentifier| !#[trigger] p.has_counter(id),
            p.version_entry_count() == 0,
            p.process_entry_count() == 0,
            p.event_log() == Seq::<EventView>::empty(),
    {
        let p = Pallet { version_model: Vec::new(), process_model: Vec::new(), events: Vec::new() };
        assert(p.event_log() =~= Seq::<EventView>::empty());
        p
    }

    /// The position of the counter entry for `id`, if one exists. No entry
    /// after the reported one carries `id`.
    fn find_version_index(&self, id: ProcessIdentifier) -> (r: Option<usize>)
        ensures
            match r {
                Option::Some(j) => j < self.version_model@.len() && self.version_model@[j as int].0
                    == id && (forall|t: int|
                    j < t < self.version_model@.len() ==> (#[trigger] self.version_model@[t]).0
                        != id),
                Option::None => forall|t: int|
                    0 <= t < self.version_model@.len() ==> (#[trigger] self.version_model@[t]).0
                        != id,
            },
    {
        let mut i: usize = self.version_model.len();
        while i > 0
            invariant
                i <= self.version_model@.len(),
                forall|t: int|
                    i <= t < self.version_model@.len() ==> (#[trigger] self.version_model@[t]).0
                        != id,
            decreases i,
        {
            if self.version_model[i - 1].0 == id {
                return Option::Some(i - 1);
            }
            i = i - 1;
        }
        Option::None
    }

    /// The version counter for `id`: the last version issued, or 0 when the
    /// identifier was never seen.
    pub fn get_version(&self, id: ProcessIdentifier) -> (v: ProcessVersion)
        ensures
            v == self.version_of(id),
    {
        match self.find_version_index(id) {
            Option::Some(j) => {
                proof {
                    lemma_lookup_version_found(self.version_model@, j as int, id);
                }
                self.version_model[j].1
            },
            Option::None => {
                proof {
                    lemma_lookup_version_absent(self.version_model@, id);
                }
                0
            },
        }
    }

    /// Set the counter for `id` to `version`, leaving every other counter,
    /// the process store and the event log unchanged.
    pub fn insert_version(&mut self, id: ProcessIdentifier, version: ProcessVersion)
        requires
            old(self).wf(),
        ensures
            final(self).wf(),
            final(self).version_of(id) == version,
            forall|k: ProcessIdentifier|
                k != id ==> #[trigger] final(self).version_of(k) == old(self).version_of(k),
            final(self).has_counter(id),
            forall|k: ProcessIdentifier|
                k != id ==> #[trigger] final(self).has_counter(k) == old(self).has_counter(k),
            final(self).version_entry_count() == old(self).version_entry_count() + (if old(
                self,
            ).has_counter(id) {
                0int
            } else {
                1int
            }),
            forall|i: ProcessIdentifier, v: ProcessVersion| #[trigger]
                final(self).process_at(i, v) == old(self).process_at(i, v),
            final(self).process_entry_count() == old(self).process_entry_count(),
            final(self).event_log() == old(self).event_log(),
    {
        let ghost s0 = self.version_model@;
        match self.find_version_index(id) {
            Option::Some(j) => {
                self.version_model[j] = (id, version);
                proof {
                    let s1 = self.version_model@;
                    assert(s1 =~= s0.update(j as int, (id, version)));
                    lemma_lookup_version_found(s1, j as int, id);
                    assert forall|k: ProcessIdentifier| k != id implies #[trigger] self.version_of(
                        k,
                    ) == old(self).version_of(k) by {
                        lemma_lookup_version_update(s0, j as int, (id, version), k);
                    }
                    assert(old(self).has_counter(id));
                    assert forall|k: ProcessIdentifier| k != id implies #[trigger] self.has_counter(
                        k,
                    ) == old(self).has_counter(k) by {
                        if old(self).has_counter(k) {
                            let w = choose|t: int| 0 <= t < s0.len() && (#[trigger] s0[t]).0 == k;
                            assert(s1[w].0 == k);
                        }
                        if self.has_counter(k) {
                            let w = choose|t: int| 0 <= t < s1.len() && (#[trigger] s1[t]).0 == k;
                            assert(s0[w].0 == k);
                        }
                    }
                }
            },
            Option::None => {
                self.version_model.push((id, version));
                proof {
                    let s1 = self.version_model@;
                    assert(s1.last() == (id, version));
                    assert(s1.drop_last() =~= s0);
                    assert(!old(self).has_counter(id));
                    assert(self.has_counter(id)) by {
                        assert(s1[s1.len() - 1].0 == id);
                    }
                    assert forall|k: ProcessIdentifier| k != id implies #[trigger] self.has_counter(
                        k,
                    ) == old(self).has_counter(k) by {
                        if old(self).has_counter(k) {
                            let w = choose|t: int| 0 <= t < s0.len() && (#[trigger] s0[t]).0 == k;
                            assert(s1[w].0 == k);
                        }
                        if self.has_counter(k) {
                            let w = choose|t: int| 0 <= t < s1.len() && (#[trigger] s1[t]).0 == k;
                            assert(s0[w].0 == k);
                        }
                    }
                }
            },
        }
    }

    /// Increment the counter for `id` and report the new value, creating no
    /// process record and emitting no event. The first call for a fresh
    /// identifier yields 1.
    pub fn update_version(&mut self, id: ProcessIdentifier) -> (r: Result<ProcessVersion, Error>)
        requires
            old(self).wf(),
            old(self).version_of(id) < ProcessVersion::MAX,
        ensures
            final(self).wf(),
            r == Ok::<ProcessVersion, Error>((old(self).version_of(id) + 1) as ProcessVersion),
            final(self).version_of(id) == old(self).version_of(id) + 1,
            forall|k: ProcessIdentifier|
                k != id ==> #[trigger] final(self).version_of(k) == old(self).version_of(k),
            final(self).has_counter(id),
            forall|k: ProcessIdentifier|
                k != id ==> #[trigger] final(self).has_counter(k) == old(self).has_counter(k),
            final(self).version_entry_count() == old(self).version_entry_count() + (if old(
                self,
            ).has_counter(id) {
                0int
            } else {
                1int
            }),
            forall|i: ProcessIdentifier, v: ProcessVersion| #[trigger]
                final(self).process_at(i, v) == old(self).process_at(i, v),
            final(self).process_entry_count() == old(self).process_entry_count(),
            final(self).event_log() == old(self).event_log(),
    {
        let current = self.get_version(id);
        let next = current + 1;
        self.insert_version(id, next);
        Ok(next)
    }

    /// The position of the process entry at `(id, version)`, if one exists.
    /// No entry after the reported one carries that key.
    fn find_process_index(&self, id: ProcessIdentifier, version: ProcessVersion) -> (r: Option<
        usize,
    >)
        ensures
            match r {
                Option::Some(j) => j < self.process_model@.len() && self.process_model@[j as int].id
                    == id && self.process_model@[j as int].version == version && (forall|t: int|
                    j < t < self.process_model@.len() ==> !((#[trigger] self.process_model@[t]).id
                        == id && self.process_model@[t].version == version)),
                Option::None => forall|t: int|
                    0 <= t < self.process_model@.len() ==> !((#[trigger] self.process_model@[t]).id
                        == id && self.process_model@[t].version == version),
            },
    {
        let mut i: usize = self.process_model.len();
        while i > 0
            invariant
                i <= self.process_model@.len(),
                forall|t: int|
                    i <= t < self.process_model@.len() ==> !((#[trigger] self.process_model@[t]).id
                        == id && self.process_model@[t].version == version),
            decreases i,
        {
            if self.process_model[i - 1].id == id && self.process_model[i - 1].version == version {
                return Option::Some(i - 1);
            }
            i = i - 1;
        }
        Option::None
    }

    /// Write `process` at `(id, version)`, overwriting any record already
    /// there and leaving every other slot, the counters and the event log
    /// unchanged.
    pub fn insert_process(&mut self, id: ProcessIdentifier, version: ProcessVersion, process: Process)
        requires
            old(self).wf(),
        ensures
            final(self).wf(),
            final(self).process_at(id, version) == Option::Some(process@),
            forall|i: ProcessIdentifier, v: ProcessVersion|
                !(i == id && v == version) ==> #[trigger] final(self).process_at(i, v) == old(
                    self,
                ).process_at(i, v),
            final(self).process_entry_count() == old(self).process_entry_count() + (if old(
                self,
            ).process_at(id, version) is Some {
                0int
            } else {
                1int
            }),
            forall|k: ProcessIdentifier| #[trigger]
                final(self).version_of(k) == old(self).version_of(k),
            forall|k: ProcessIdentifier| #[trigger]
                final(self).has_counter(k) == old(self).has_counter(k),
            final(self).version_entry_count() == old(self).version_entry_count(),
            final(self).event_log() == old(self).event_log(),
    {
        let ghost s0 = self.process_model@;
        match self.find_process_index(id, version) {
            Option::Some(j) => {
                let entry = ProcessEntry { id, version, process };
                self.process_model[j] = entry;
                proof {
                    let s1 = self.process_model@;
                    assert(s1 =~= s0.update(j as int, entry));
                    assert(lookup_process(s0, id, version) is Some) by {
                        lemma_lookup_process_found(s0, j as int, id, version);
                    }
                    lemma_lookup_process_found(s1, j as int, id, version);
                    assert forall|i: ProcessIdentifier, v: ProcessVersion|
                        !(i == id && v == version) implies #[trigger] self.process_at(i, v) == old(
                        self,
                    ).process_at(i, v) by {
                        lemma_lookup_process_update(s0, j as int, entry, i, v);
                    }
                }
            },
            Option::None => {
                let entry = ProcessEntry { id, version, process };
                self.process_model.push(entry);
                proof {
                    let s1 = self.process_model@;
                    assert(s1.drop_last() =~= s0);
                    assert(lookup_process(s0, id, version) is None) by {
                        lemma_lookup_process_absent(s0, id, version);
                    }
                    assert(s1.last() == entry);
                    assert forall|i: ProcessIdentifier, v: ProcessVersion|
                        !(i == id && v == version) implies #[trigger] self.process_at(i, v) == old(
                        self,
                    ).process_at(i, v) by {
                        assert(lookup_process(s1, i, v) == lookup_process(s0, i, v));
                    }
                }
            },
        }
    }

    /// The process stored at `(id, version)`; an absent slot reads as the
    /// default process (disabled, no restrictions).
    pub fn get_process(&self, id: ProcessIdentifier, version: ProcessVersion) -> (p: Process)
        ensures
            match self.process_at(id, version) {
                Option::Some(pv) => p@ == pv,
                Option::None => p@ == (ProcessView {
                    status: ProcessStatus::Disabled,
                    restrictions: Seq::empty(),
                }),
            },
    {
        match self.find_process_index(id, version) {
            Option::Some(j) => {
                proof {
                    lemma_lookup_process_found(self.process_model@, j as int, id, version);
                }
                let entry = &self.process_model[j];
                Process {
                    status: entry.process.status,
                    restrictions: clone_restriction_list(&entry.process.restrictions),
                }
            },
            Option::None => {
                proof {
                    lemma_lookup_process_absent(self.process_model@, id, version);
                }
                Process::default()
            },
        }
    }

    /// Disable the process at `(id, version)` in place, keeping its
    /// restrictions, and request a `ProcessDisabled` notification. Fails
    /// with `NotFound`, changing nothing, when no process is stored there.
    /// Disabling an already disabled process is not an error.
    pub fn disable_process(&mut self, id: ProcessIdentifier, version: ProcessVersion) -> (r: Result<
        (),
        Error,
    >)
        requires
            old(self).wf(),
        ensures
            final(self).wf(),
            r is Ok <==> old(self).process_at(id, version) is Some,
            old(self).process_at(id, version) is None ==> r == Err::<(), Error>(Error::NotFound)
                && final(self).event_log() == old(self).event_log() && (forall|
                i: ProcessIdentifier,
                v: ProcessVersion,
            | #[trigger] final(self).process_at(i, v) == old(self).process_at(i, v)),
            old(self).process_at(id, version) matches Option::Some(pv) ==> r == Ok::<(), Error>(
                (),
            ) && final(self).process_at(id, version) == Option::Some(
                ProcessView { status: ProcessStatus::Disabled, restrictions: pv.restrictions },
            ) && (forall|i: ProcessIdentifier, v: ProcessVersion|
                !(i == id && v == version) ==> #[trigger] final(self).process_at(i, v) == old(
                    self,
                ).process_at(i, v)) && final(self).event_log() == old(self).event_log().push(
                EventView::ProcessDisabled(id, version),
            ),
            forall|k: ProcessIdentifier| #[trigger]
                final(self).version_of(k) == old(self).version_of(k),
            forall|k: ProcessIdentifier| #[trigger]
                final(self).has_counter(k) == old(self).has_counter(k),
            final(self).version_entry_count() == old(self).version_entry_count(),
            final(self).process_entry_count() == old(self).process_entry_count(),
    {
        let ghost s0 = self.process_model@;
        match self.find_process_index(id, version) {
            Option::Some(j) => {
                proof {
                    lemma_lookup_process_found(s0, j as int, id, version);
                }
                let entry = self.process_model.remove(j);
                let disabled = ProcessEntry {
                    id: entry.id,
                    version: entry.version,
                    process: Process {
                        status: ProcessStatus::Disabled,
                        restrictions: entry.process.restrictions,
                    },
                };
                self.process_model.insert(j, disabled);
                self.events.push(Event::ProcessDisabled(id, version));
                proof {
                    let s1 = self.process_model@;
                    assert(s1 =~= s0.update(j as int, disabled));
                    lemma_lookup_process_found(s1, j as int, id, version);
                    assert forall|i: ProcessIdentifier, v: ProcessVersion|
                        !(i == id && v == version) implies #[trigger] self.process_at(i, v) == old(
                        self,
                    ).process_at(i, v) by {
                        lemma_lookup_process_update(s0, j as int, disabled, i, v);
                    }
                    assert(self.event_log() =~= old(self).event_log().push(
                        EventView::ProcessDisabled(id, version),
                    ));
                }
                Ok(())
            },
            Option::None => {
                proof {
                    lemma_lookup_process_absent(s0, id, version);
                }
                Err(Error::NotFound)
            },
        }
    }

    /// Create the next version of the process family `id` with the given
    /// restrictions. Every restriction must keep within `MAX_DEPTH`, checked
    /// before any mutation. The counter is then advanced; if the resulting
    /// slot is already populated the call fails with `AlreadyExists` and the
    /// counter advance is deliberately not rolled back. Otherwise the
    /// process is stored enabled, a `ProcessCreated` notification is
    /// requested, and the call reports the new version together with whether
    /// it is the first ever issued for `id`.
    pub fn create_process(
        &mut self,
        id: ProcessIdentifier,
        restrictions: Vec<Restriction>,
    ) -> (r: Result<(ProcessVersion, bool), Error>)
        requires
            old(self).wf(),
            old(self).version_of(id) < ProcessVersion::MAX,
        ensures
            final(self).wf(),
            !all_within_depth(restrictions@) ==> r == Err::<(ProcessVersion, bool), Error>(
                Error::RestrictionsTooDeep,
            ) && final(self).version_of(id) == old(self).version_of(id) && final(self).event_log()
                == old(self).event_log() && final(self).version_entry_count() == old(
                self,
            ).version_entry_count() && final(self).process_entry_count() == old(
                self,
            ).process_entry_count(),
            all_within_depth(restrictions@) ==> final(self).version_of(id) == old(self).version_of(
                id,
            ) + 1 && final(self).version_entry_count() == old(self).version_entry_count() + (if old(
                self,
            ).has_counter(id) {
                0int
            } else {
                1int
            }),
            all_within_depth(restrictions@) && old(self).process_at(
                id,
                (old(self).version_of(id) + 1) as ProcessVersion,
            ) is Some ==> r == Err::<(ProcessVersion, bool), Error>(Error::AlreadyExists)
                && final(self).event_log() == old(self).event_log()
                && final(self).process_entry_count() == old(self).process_entry_count(),
            all_within_depth(restrictions@) && old(self).process_at(
                id,
                (old(self).version_of(id) + 1) as ProcessVersion,
            ) is None ==> r == Ok::<(ProcessVersion, bool), Error>(
                ((old(self).version_of(id) + 1) as ProcessVersion, old(self).version_of(id) == 0),
            ) && final(self).process_at(id, (old(self).version_of(id) + 1) as ProcessVersion)
                == Option::Some(
                ProcessView { status: ProcessStatus::Enabled, restrictions: restrictions@ },
            ) && final(self).event_log() == old(self).event_log().push(
                EventView::ProcessCreated(
                    id,
                    (old(self).version_of(id) + 1) as ProcessVersion,
                    restrictions@,
                    old(self).version_of(id) == 0,
                ),
            ) && final(self).process_entry_count() == old(self).process_entry_count() + 1,
            r is Err ==> forall|i: ProcessIdentifier, v: ProcessVersion| #[trigger]
                final(self).process_at(i, v) == old(self).process_at(i, v),
            r is Err && !all_within_depth(restrictions@) ==> forall|k: ProcessIdentifier|
                #[trigger] final(self).version_of(k) == old(self).version_of(k),
            !all_within_depth(restrictions@) ==> forall|k: ProcessIdentifier|
                #[trigger] final(self).has_counter(k) == old(self).has_counter(k),
            all_within_depth(restrictions@) ==> final(self).has_counter(id) && (forall|
                k: ProcessIdentifier,
            |
                k != id ==> #[trigger] final(self).has_counter(k) == old(self).has_counter(k)),
            forall|i: ProcessIdentifier, v: ProcessVersion|
                !(i == id && v == old(self).version_of(id) + 1) ==> #[trigger] final(self).process_at(
                    i,
                    v,
                ) == old(self).process_at(i, v),
            forall|k: ProcessIdentifier|
                k != id ==> #[trigger] final(self).version_of(k) == old(self).version_of(k),
    {
        if !validate_depths(&restrictions) {
            return Err(Error::RestrictionsTooDeep);
        }
        let current = self.get_version(id);
        let was_first = current == 0;
        let version = current + 1;
        self.insert_version(id, version);
        let ghost after_bump = *self;
        match self.find_process_index(id, version) {
            Option::Some(j) => {
                proof {
                    lemma_lookup_process_found(self.process_model@, j as int, id, version);
                    assert(self.process_at(id, version) is Some);
                    assert(old(self).process_at(id, version) is Some);
                    assert(self.version_of(id) == old(self).version_of(id) + 1);
                }
                Err(Error::AlreadyExists)
            },
            Option::None => {
                proof {
                    lemma_lookup_process_absent(self.process_model@, id, version);
                    assert(self.process_at(id, version) is None);
                    assert(old(self).process_at(id, version) is None);
                    assert(self.version_of(id) == old(self).version_of(id) + 1);
                }
                let restrictions_for_event = clone_restriction_list(&restrictions);
                let stored = Process { status: ProcessStatus::Enabled, restrictions };
                self.insert_process(id, version, stored);
                let ghost after_store = *self;
                self.events.push(
                    Event::ProcessCreated(id, version, restrictions_for_event, was_first),
                );
                proof {
                    assert(self.event_log() =~= after_store.event_log().push(
                        EventView::ProcessCreated(id, version, restrictions@, was_first),
                    ));
                    assert(after_store.version_of(id) == after_bump.version_of(id));
                    assert(self.version_of(id) == old(self).version_of(id) + 1);
                    assert forall|i: ProcessIdentifier, v: ProcessVersion|
                        !(i == id && v == version) implies #[trigger] self.process_at(i, v) == old(
                        self,
                    ).process_at(i, v) by {
                        assert(after_store.process_at(i, v) == after_bump.process_at(i, v));
                        assert(after_bump.process_at(i, v) == old(self).process_at(i, v));
                    }
                    assert forall|k: ProcessIdentifier| k != id implies #[trigger] self.version_of(
                        k,
                    ) == old(self).version_of(k) by {
                        assert(after_store.version_of(k) == after_bump.version_of(k));
                        assert(after_bump.version_of(k) == old(self).version_of(k));
                    }
                    assert(after_store.has_counter(id));
                    assert forall|k: ProcessIdentifier| k != id implies #[trigger] self.has_counter(
                        k,
                    ) == old(self).has_counter(k) by {
                        assert(after_store.has_counter(k) == after_bump.has_counter(k));
                        assert(after_bump.has_counter(k) == old(self).has_counter(k));
                    }
                }
                Ok((version, was_first))
            },
        }
    }

    /// Whether a transition is admitted: the process at the claimed
    /// coordinate must exist, be enabled, and every one of its restrictions
    /// must admit the transition. Any ambiguity resolves to `false`.
    pub open spec fn spec_validate(
        &self,
        id: ProcessIdentifier,
        version: ProcessVersion,
        sender: AccountId,
        inputs: Seq<ProcessIO>,
        outputs: Seq<ProcessIO>,
    ) -> bool {
        match self.process_at(id, version) {
            Option::Some(p) => p.status == ProcessStatus::Enabled && (forall|i: int|
                0 <= i < p.restrictions.len() ==> eval(
                    #[trigger] p.restrictions[i],
                    sender,
                    inputs,
                    outputs,
                )),
            Option::None => false,
        }
    }

    /// The validation facade: read-only, never fails, and returns exactly
    /// what `spec_validate` says of the current state and arguments.
    pub fn validate_process(
        &self,
        id: ProcessFullyQualifiedId,
        sender: &AccountId,
        inputs: &Vec<ProcessIO>,
        outputs: &Vec<ProcessIO>,
    ) -> (b: bool)
        ensures
            b == self.spec_validate(id.id, id.version, *sender, inputs@, outputs@),
    {
        match self.find_process_index(id.id, id.version) {
            Option::Some(j) => {
                proof {
                    lemma_lookup_process_found(self.process_model@, j as int, id.id, id.version);
                }
                let process = &self.process_model[j].process;
                proof {
                    assert(self.process_at(id.id, id.version) == Option::Some(process@));
                }
                match process.status {
                    ProcessStatus::Disabled => false,
                    ProcessStatus::Enabled => {
                        let b = validate_restriction_list(
                            &process.restrictions,
                            sender,
                            inputs,
                            outputs,
                        );
                        proof {
                            assert(process@.restrictions == process.restrictions@);
                            if b {
                                assert forall|i: int|
                                    0 <= i < process@.restrictions.len() implies eval(
                                    #[trigger] process@.restrictions[i],
                                    *sender,
                                    inputs@,
                                    outputs@,
                                ) by {
                                    assert(eval(
                                        process.restrictions@[i],
                                        *sender,
                                        inputs@,
                                        outputs@,
                                    ));
                                }
                            }
                        }
                        b
                    },
                }
            },
            Option::None => {
                proof {
                    lemma_lookup_process_absent(self.process_model@, id.id, id.version);
                }
                false
            },
        }
    }

    /// The notifications requested so far, oldest first.
    pub fn events(&self) -> (r: &Vec<Event>)
        ensures
            r@.map_values(|e: Event| e@) == self.event_log(),
    {
        &self.events
    }

    /// How many identifiers have a version counter entry.
    pub fn version_count(&self) -> (n: usize)
        ensures
            n == self.version_entry_count(),
    {
        self.version_model.len()
    }

    /// How many process records are stored.
    pub fn process_count(&self) -> (n: usize)
        ensures
            n == self.process_entry_count(),
    {
        self.process_model.len()
    }
}

/// An identifier with no counter entry reads as version 0: an identifier no
/// operation ever touched keeps the default counter.
pub proof fn lemma_untracked_version_is_zero(p: &Pallet, id: ProcessIdentifier)
    requires
        !p.has_counter(id),
    ensures
        p.version_of(id) == 0,
{
    assert forall|t: int| 0 <= t < p.version_model@.len() implies (#[trigger] p.version_model@[t]).0
        != id by {
        if p.version_model@[t].0 == id {
            assert(p.has_counter(id));
        }
    }
    lemma_lookup_version_absent(p.version_model@, id);
}

/// A coordinate with no stored process never validates: absence of data
/// resolves to deny, never to allow.
pub proof fn lemma_unregistered_never_validates(
    p: &Pallet,
    id: ProcessIdentifier,
    version: ProcessVersion,
    sender: AccountId,
    inputs: Seq<ProcessIO>,
    outputs: Seq<ProcessIO>,
)
    requires
        p.process_at(id, version) is None,
    ensures
        !p.spec_validate(id, version, sender, inputs, outputs),
{
}

/// A disabled process never validates, whatever its restrictions say and
/// whatever the transition is.
pub proof fn lemma_disabled_never_validates(
    p: &Pallet,
    id: ProcessIdentifier,
    version: ProcessVersion,
    sender: AccountId,
    inputs: Seq<ProcessIO>,
    outputs: Seq<ProcessIO>,
)
    requires
        p.process_at(id, version) is Some,
        p.process_at(id, version)->0.status == ProcessStatus::Disabled,
    ensures
        !p.spec_validate(id, version, sender, inputs, outputs),
{
}

/// An enabled process whose only restriction is the always-admitting leaf
/// validates every transition, whoever sends it and whatever its records.
pub proof fn lemma_no_restriction_always_validates(
    p: &Pallet,
    id: ProcessIdentifier,
    version: ProcessVersion,
    sender: AccountId,
    inputs: Seq<ProcessIO>,
    outputs: Seq<ProcessIO>,
)
    requires
        p.process_at(id, version) is Some,
        p.process_at(id, version)->0.status == ProcessStatus::Enabled,
        p.process_at(id, version)->0.restrictions =~= seq![Restriction::NoRestriction],
    ensures
        p.spec_validate(id, version, sender, inputs, outputs),
{
    let pv = p.process_at(id, version)->0;
    assert forall|i: int| 0 <= i < pv.restrictions.len() implies eval(
        #[trigger] pv.restrictions[i],
        sender,
        inputs,
        outputs,
    ) by {
        assert(pv.restrictions[i] == Restriction::NoRestriction);
    }
}

/// Validation is idempotent and read-only: against equal registry states,
/// checking the same transition twice gives the same outcome.
pub proof fn lemma_validate_idempotent(
    p1: &Pallet,
    p2: &Pallet,
    id: ProcessIdentifier,
    version: ProcessVersion,
    sender: AccountId,
    inputs: Seq<ProcessIO>,
    outputs: Seq<ProcessIO>,
)
    requires
        p1 == p2,
    ensures
        p1.spec_validate(id, version, sender, inputs, outputs) == p2.spec_validate(
            id,
            version,
            sender,
            inputs,
            outputs,
        ),
{
}

} // verus!
