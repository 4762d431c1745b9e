//! Small collections of identifiers, keyed by their text.
//!
//! The state machines of this crate remember which ids are open, which were
//! dropped and who owns what. Each collection here is specified by a sequence
//! of the ids' texts, so that the machines' contracts can speak of them
//! directly.

use vstd::prelude::*;

use crate::ids::text_eq;

verus! {

/// `set` with `x` added, unless it is already there.
pub open spec fn set_insert(set: Seq<Seq<char>>, x: Seq<char>) -> Seq<Seq<char>> {
    if set.contains(x) {
        set
    } else {
        set.push(x)
    }
}

/// `set` with `x` taken out, if it was there.
pub open spec fn set_remove(set: Seq<Seq<char>>, x: Seq<char>) -> Seq<Seq<char>> {
    match set.index_of_first(x) {
        Some(i) => set.remove(i),
        None => set,
    }
}


/// Taking one id out of a collection keeps every other id in it.
pub proof fn lemma_set_remove_keeps(set: Seq<Seq<char>>, x: Seq<char>, other: Seq<char>)
    requires
        set.contains(other),
        other != x,
    ensures
        set_remove(set, x).contains(other),
{
    set.index_of_first_ensures(x);
    let j = choose|j: int| 0 <= j < set.len() && set[j] == other;
    match set.index_of_first(x) {
        Some(i) => {
            let rest = set.remove(i);
            if j < i {
                assert(rest[j] == other);
            } else {
                assert(rest[j - 1] == other);
            }
        },
        None => {},
    }
}

/// Adding an id keeps every id already there.
pub proof fn lemma_set_insert_keeps(set: Seq<Seq<char>>, x: Seq<char>, other: Seq<char>)
    requires
        set.contains(other),
    ensures
        set_insert(set, x).contains(other),
{
    let j = choose|j: int| 0 <= j < set.len() && set[j] == other;
    if !set.contains(x) {
        assert(set.push(x)[j] == other);
    }
}

/// After an id is added, it is there.
pub proof fn lemma_set_insert_has(set: Seq<Seq<char>>, x: Seq<char>)
    ensures
        set_insert(set, x).contains(x),
{
    if !set.contains(x) {
        assert(set.push(x)[set.len() as int] == x);
    }
}

/// Taking an id out adds nothing.
pub proof fn lemma_set_remove_within(set: Seq<Seq<char>>, x: Seq<char>, other: Seq<char>)
    requires
        set_remove(set, x).contains(other),
    ensures
        set.contains(other),
{
    set.index_of_first_ensures(x);
    match set.index_of_first(x) {
        Some(i) => {
            let rest = set.remove(i);
            let j = choose|j: int| 0 <= j < rest.len() && rest[j] == other;
            if j < i {
                assert(set[j] == other);
            } else {
                assert(set[j + 1] == other);
            }
        },
        None => {},
    }
}

/// A collection of ids, in arrival order, without repeats.
#[derive(Debug, Default)]
pub(crate) struct IdSet {
    ids: Vec<String>,
}

impl View for IdSet {
    type V = Seq<Seq<char>>;

    closed spec fn view(&self) -> Seq<Seq<char>> {
        self.ids@.map_values(|s: String| s@)
    }
}

impl IdSet {
    pub(crate) fn new() -> (set: Self)
        ensures
            set@ == Seq::<Seq<char>>::empty(),
    {
        let set = IdSet { ids: Vec::new() };
        assert(set@ =~= Seq::<Seq<char>>::empty());
        set
    }

    pub(crate) fn position(&self, id: &str) -> (found: Option<usize>)
        ensures
            found is None <==> !self@.contains(id@),
            found matches Some(i) ==> self@.index_of_first(id@) == Some(i as int),
    {
        let mut i: usize = 0;
        while i < self.ids.len()
            invariant
                i <= self.ids@.len(),
                forall|j: int| 0 <= j < i ==> self@[j] != id@,
            decreases self.ids@.len() - i,
        {
            if text_eq(self.ids[i].as_str(), id) {
                proof {
                    assert(self@[i as int] == id@);
                    self@.index_of_first_ensures(id@);
                }
                return Some(i);
            }
            i = i + 1;
        }
        proof {
            self@.index_of_first_ensures(id@);
            if self@.contains(id@) {
                let j = choose|j: int| 0 <= j < self@.len() && self@[j] == id@;
                assert(self@[j] != id@);
            }
        }
        None
    }

    pub(crate) fn contains(&self, id: &str) -> (present: bool)
        ensures
            present == self@.contains(id@),
    {
        self.position(id).is_some()
    }

    /// Adds `id`, which must not be there yet.
    pub(crate) fn push(&mut self, id: &str)
        ensures
            final(self)@ == old(self)@.push(id@),
    {
        self.ids.push(id.to_owned());
        assert(self@ =~= old(self)@.push(id@));
    }

    pub(crate) fn insert(&mut self, id: &str)
        ensures
            final(self)@ == set_insert(old(self)@, id@),
    {
        if !self.contains(id) {
            self.push(id);
        }
    }

    /// Takes `id` out, reporting whether it was there.
    pub(crate) fn remove(&mut self, id: &str) -> (was_there: bool)
        ensures
            was_there == old(self)@.contains(id@),
            final(self)@ == set_remove(old(self)@, id@),
    {
        proof {
            self@.index_of_first_ensures(id@);
        }
        match self.position(id) {
            Some(i) => {
                let ghost before = self.ids@;
                self.ids.remove(i);
                assert(self@ =~= before.map_values(|s: String| s@).remove(i as int));
                true
            },
            None => false,
        }
    }

    pub(crate) fn first(&self) -> (first: Option<&str>)
        ensures
            match first {
                Some(f) => self@.len() > 0 && f@ == self@[0],
                None => self@.len() == 0,
            },
    {
        if self.ids.len() > 0 {
            Some(self.ids[0].as_str())
        } else {
            None
        }
    }

    pub(crate) fn len(&self) -> (n: usize)
        ensures
            n == self@.len(),
    {
        self.ids.len()
    }

    pub(crate) fn get(&self, i: usize) -> (id: &str)
        requires
            i < self@.len(),
        ensures
            id@ == self@[i as int],
    {
        self.ids[i].as_str()
    }
}

/// The text of an optional string.
pub open spec fn opt_text(s: Option<String>) -> Option<Seq<char>> {
    match s {
        Some(t) => Some(t@),
        None => None,
    }
}

/// The latest value recorded for `key` in a log of assignments: `None` when
/// the key was never assigned.
pub open spec fn lookup(log: Seq<(Seq<char>, Option<Seq<char>>)>, key: Seq<char>) -> Option<Option<Seq<char>>>
    decreases log.len(),
{
    if log.len() == 0 {
        None
    } else if log.last().0 == key {
        Some(log.last().1)
    } else {
        lookup(log.drop_last(), key)
    }
}

/// The log with `key` assigned `value`; an assignment that changes nothing
/// is not recorded.
pub open spec fn assign(
    log: Seq<(Seq<char>, Option<Seq<char>>)>,
    key: Seq<char>,
    value: Option<Seq<char>>,
) -> Seq<(Seq<char>, Option<Seq<char>>)> {
    if lookup(log, key) == Some(value) {
        log
    } else {
        log.push((key, value))
    }
}

/// What an assignment does to every lookup.
pub proof fn lemma_lookup_assign(
    log: Seq<(Seq<char>, Option<Seq<char>>)>,
    key: Seq<char>,
    value: Option<Seq<char>>,
    other: Seq<char>,
)
    ensures
        lookup(assign(log, key, value), other) == if other == key {
            Some(value)
        } else {
            lookup(log, other)
        },
{
    let pushed = log.push((key, value));
    assert(pushed.drop_last() =~= log);
}

/// Who owns each id: `None` for the parent, or the subagent run that does.
/// A log of assignments in which the latest one for an id holds.
#[derive(Debug, Default)]
pub(crate) struct OwnerLog {
    entries: Vec<(String, Option<String>)>,
}

impl View for OwnerLog {
    type V = Seq<(Seq<char>, Option<Seq<char>>)>;

    closed spec fn view(&self) -> Seq<(Seq<char>, Option<Seq<char>>)> {
        self.entries@.map_values(|e: (String, Option<String>)| (e.0@, opt_text(e.1)))
    }
}

impl OwnerLog {
    pub(crate) fn new() -> (log: Self)
        ensures
            log@ == Seq::<(Seq<char>, Option<Seq<char>>)>::empty(),
    {
        let log = OwnerLog { entries: Vec::new() };
        assert(log@ =~= Seq::<(Seq<char>, Option<Seq<char>>)>::empty());
        log
    }

    /// The owner recorded for `key`, if any was.
    pub(crate) fn get(&self, key: &str) -> (found: Option<Option<String>>)
        ensures
            match found {
                Some(owner) => lookup(self@, key@) == Some(opt_text(owner)),
                None => lookup(self@, key@) is None,
            },
    {
        let mut i: usize = self.entries.len();
        assert(self@.subrange(0, i as int) =~= self@);
        while i > 0
            invariant
                i <= self.entries@.len(),
                lookup(self@, key@) == lookup(self@.subrange(0, i as int), key@),
            decreases i,
        {
            let part = Ghost(self@.subrange(0, i as int));
            proof {
                assert(part@.drop_last() =~= self@.subrange(0, i as int - 1));
                assert(part@.last() == self@[i as int - 1]);
            }
            let entry = &self.entries[i - 1];
            if text_eq(entry.0.as_str(), key) {
                let owner = match &entry.1 {
                    Some(run) => Some(run.clone()),
                    None => None,
                };
                return Some(owner);
            }
            i = i - 1;
        }
        None
    }

    /// Records `owner` for `key`.
    pub(crate) fn assign(&mut self, key: &str, owner: Option<&str>)
        ensures
            final(self)@ == assign(old(self)@, key@, match owner { Some(r) => Some(r@), None => None }),
    {
        let ghost value: Option<Seq<char>> = match owner { Some(r) => Some(r@), None => None };
        let current = self.get(key);
        let same = match (&current, owner) {
            (Some(Some(a)), Some(b)) => text_eq(a.as_str(), b),
            (Some(None), None) => true,
            _ => false,
        };
        if same {
            return;
        }
        let entry = (key.to_owned(), match owner { Some(r) => Some(r.to_owned()), None => None });
        self.entries.push(entry);
        assert(self@ =~= old(self)@.push((key@, value)));
    }
}

} // verus!
