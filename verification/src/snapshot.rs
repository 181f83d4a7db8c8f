//! The last known state of every tracked crate.
use vstd::prelude::*;

use crate::report::{CrateReport, CrateReportView};
use crate::text::{
    ascending, comes_before, law_ascending_is_determined, law_text_less_irreflexive,
    law_text_less_total, law_text_less_transitive, same_text, text_less, texts,
};

verus! {

/// What is known of one crate: its version, what the scan of that version
/// found, and when.
#[derive(Clone, Debug)]
pub struct CrateSnapshot {
    pub version: String,
    pub report: CrateReport,
    pub last_checked: String,
}

/// A crate's state as a mathematical value.
pub struct CrateSnapshotView {
    pub version: Seq<char>,
    pub report: CrateReportView,
    pub last_checked: Seq<char>,
}

impl View for CrateSnapshot {
    type V = CrateSnapshotView;

    open spec fn view(&self) -> CrateSnapshotView {
        CrateSnapshotView {
            version: self.version@,
            report: self.report@,
            last_checked: self.last_checked@,
        }
    }
}

/// The crates by name, kept in the order of their names, each name once.
#[derive(Debug)]
pub struct Snapshot {
    entries: Vec<(String, CrateSnapshot)>,
}

/// The names of a list of named values.
pub open spec fn names_of<V>(pairs: Seq<(Seq<char>, V)>) -> Seq<Seq<char>> {
    pairs.map_values(|pair: (Seq<char>, V)| pair.0)
}

/// The list holds a value under this name.
pub open spec fn has_name<V>(pairs: Seq<(Seq<char>, V)>, name: Seq<char>) -> bool {
    exists|i: int| 0 <= i < pairs.len() && (#[trigger] pairs[i]).0 == name
}

/// The map that a list of named values stands for.
pub open spec fn map_of<V>(pairs: Seq<(Seq<char>, V)>) -> Map<Seq<char>, V>
    decreases pairs.len(),
{
    if pairs.len() == 0 {
        Map::empty()
    } else {
        map_of(pairs.drop_last()).insert(pairs.last().0, pairs.last().1)
    }
}

proof fn lemma_map_of_dom<V>(pairs: Seq<(Seq<char>, V)>, name: Seq<char>)
    ensures
        map_of(pairs).contains_key(name) <==> has_name(pairs, name),
    decreases pairs.len(),
{
    if pairs.len() > 0 {
        let front = pairs.drop_last();
        lemma_map_of_dom(front, name);
        if has_name(front, name) {
            let i = choose|i: int| 0 <= i < front.len() && (#[trigger] front[i]).0 == name;
            assert(pairs[i].0 == name);
        }
        if has_name(pairs, name) && pairs.last().0 != name {
            let i = choose|i: int| 0 <= i < pairs.len() && (#[trigger] pairs[i]).0 == name;
            assert(front[i].0 == name);
        }
        if pairs.last().0 == name {
            assert(pairs[pairs.len() - 1].0 == name);
        }
    }
}

proof fn lemma_map_of_value<V>(pairs: Seq<(Seq<char>, V)>, i: int)
    requires
        ascending(names_of(pairs)),
        0 <= i < pairs.len(),
    ensures
        map_of(pairs).contains_key(pairs[i].0),
        map_of(pairs)[pairs[i].0] == pairs[i].1,
    decreases pairs.len(),
{
    let names = names_of(pairs);
    if i < pairs.len() - 1 {
        let front = pairs.drop_last();
        assert(names_of(front) == names.drop_last());
        lemma_map_of_value(front, i);
        assert(text_less(names[i], names[pairs.len() - 1]));
        law_text_less_irreflexive(names[i]);
    }
}

/// The position of a name among ascending names is the only one it can have.
proof fn lemma_names_differ<V>(pairs: Seq<(Seq<char>, V)>, i: int, j: int)
    requires
        ascending(names_of(pairs)),
        0 <= i < pairs.len(),
        0 <= j < pairs.len(),
        pairs[i].0 == pairs[j].0,
    ensures
        i == j,
{
    let names = names_of(pairs);
    law_text_less_irreflexive(names[i]);
    if i < j {
        assert(text_less(names[i], names[j]));
    } else if j < i {
        assert(text_less(names[j], names[i]));
    }
}

/// A list with ascending names and the same entries as a map stands for it.
proof fn lemma_map_of_is<V>(pairs: Seq<(Seq<char>, V)>, m: Map<Seq<char>, V>)
    requires
        ascending(names_of(pairs)),
        forall|name: Seq<char>| #[trigger] m.contains_key(name) <==> has_name(pairs, name),
        forall|i: int| 0 <= i < pairs.len() ==> m[(#[trigger] pairs[i]).0] == pairs[i].1,
    ensures
        map_of(pairs) == m,
{
    assert forall|name: Seq<char>| #[trigger] map_of(pairs).contains_key(name) <==> m.contains_key(
        name,
    ) by {
        lemma_map_of_dom(pairs, name);
    }
    assert forall|name: Seq<char>| #[trigger] map_of(pairs).contains_key(name) implies map_of(
        pairs,
    )[name] == m[name] by {
        lemma_map_of_dom(pairs, name);
        let i = choose|i: int| 0 <= i < pairs.len() && (#[trigger] pairs[i]).0 == name;
        lemma_map_of_value(pairs, i);
    }
    assert(map_of(pairs) =~= m);
}

/// A list with ascending names stands for a finite map with one key per entry.
pub proof fn law_map_of_len<V>(pairs: Seq<(Seq<char>, V)>)
    requires
        ascending(names_of(pairs)),
    ensures
        map_of(pairs).dom().finite(),
        map_of(pairs).len() == pairs.len(),
    decreases pairs.len(),
{
    if pairs.len() > 0 {
        let front = pairs.drop_last();
        let names = names_of(pairs);
        assert(names_of(front) == names.drop_last());
        law_map_of_len(front);
        let name = pairs.last().0;
        lemma_map_of_dom(front, name);
        if has_name(front, name) {
            let i = choose|i: int| 0 <= i < front.len() && (#[trigger] front[i]).0 == name;
            lemma_names_differ(pairs, i, pairs.len() - 1);
        }
        assert(map_of(pairs).dom() == map_of(front).dom().insert(name));
    }
}

/// A map can be listed with ascending names in one way only.
pub proof fn law_map_determines_list<V>(one: Seq<(Seq<char>, V)>, other: Seq<(Seq<char>, V)>)
    requires
        ascending(names_of(one)),
        ascending(names_of(other)),
        map_of(one) == map_of(other),
    ensures
        one == other,
{
    let (a, b) = (names_of(one), names_of(other));
    assert forall|name: Seq<char>| #[trigger] a.to_set().contains(name) <==> b.to_set().contains(
        name,
    ) by {
        lemma_map_of_dom(one, name);
        lemma_map_of_dom(other, name);
        if a.contains(name) {
            let i = choose|i: int| 0 <= i < a.len() && a[i] == name;
            assert(one[i].0 == name);
            let j = choose|j: int| 0 <= j < other.len() && (#[trigger] other[j]).0 == name;
            assert(b[j] == name);
        }
        if b.contains(name) {
            let j = choose|j: int| 0 <= j < b.len() && b[j] == name;
            assert(other[j].0 == name);
            let i = choose|i: int| 0 <= i < one.len() && (#[trigger] one[i]).0 == name;
            assert(a[i] == name);
        }
    }
    assert(a.to_set() =~= b.to_set());
    law_ascending_is_determined(a, b);
    assert forall|i: int| 0 <= i < one.len() implies one[i] == other[i] by {
        assert(a[i] == b[i]);
        lemma_map_of_value(one, i);
        lemma_map_of_value(other, i);
    }
    assert(a.len() == one.len() && b.len() == other.len());
    assert(one =~= other);
}

proof fn lemma_insert_new<V>(pairs: Seq<(Seq<char>, V)>, at: int, name: Seq<char>, value: V)
    requires
        ascending(names_of(pairs)),
        0 <= at <= pairs.len(),
        forall|i: int| 0 <= i < at ==> text_less((#[trigger] pairs[i]).0, name),
        forall|i: int| at <= i < pairs.len() ==> text_less(name, (#[trigger] pairs[i]).0),
    ensures
        ascending(names_of(pairs.insert(at, (name, value)))),
        map_of(pairs.insert(at, (name, value))) == map_of(pairs).insert(name, value),
{
    let more = pairs.insert(at, (name, value));
    let names = names_of(pairs);
    assert forall|i: int, j: int| 0 <= i < j < names_of(more).len() implies text_less(
        #[trigger] names_of(more)[i],
        #[trigger] names_of(more)[j],
    ) by {
        let a = if i < at { i } else { i - 1 };
        let b = if j < at { j } else { j - 1 };
        if i != at && j != at {
            assert(more[i] == pairs[a]);
            assert(more[j] == pairs[b]);
            assert(text_less(names[a], names[b]));
        } else if i == at {
            assert(more[j] == pairs[b]);
        } else {
            assert(more[i] == pairs[a]);
        }
    }
    let m = map_of(pairs).insert(name, value);
    assert forall|n: Seq<char>| #[trigger] m.contains_key(n) <==> has_name(more, n) by {
        lemma_map_of_dom(pairs, n);
        if has_name(pairs, n) {
            let i = choose|i: int| 0 <= i < pairs.len() && (#[trigger] pairs[i]).0 == n;
            assert(more[if i < at { i } else { i + 1 }].0 == n);
        }
        if n == name {
            assert(more[at].0 == n);
        }
        if has_name(more, n) && n != name {
            let i = choose|i: int| 0 <= i < more.len() && (#[trigger] more[i]).0 == n;
            assert(pairs[if i < at { i } else { i - 1 }].0 == n);
        }
    }
    assert forall|i: int| 0 <= i < more.len() implies m[(#[trigger] more[i]).0] == more[i].1 by {
        if i != at {
            let a = if i < at { i } else { i - 1 };
            assert(more[i] == pairs[a]);
            lemma_map_of_value(pairs, a);
            law_text_less_irreflexive(name);
        }
    }
    lemma_map_of_is(more, m);
}

proof fn lemma_update<V>(pairs: Seq<(Seq<char>, V)>, at: int, value: V)
    requires
        ascending(names_of(pairs)),
        0 <= at < pairs.len(),
    ensures
        ascending(names_of(pairs.update(at, (pairs[at].0, value)))),
        map_of(pairs.update(at, (pairs[at].0, value))) == map_of(pairs).insert(pairs[at].0, value),
{
    let name = pairs[at].0;
    let more = pairs.update(at, (name, value));
    assert(names_of(more) == names_of(pairs));
    let m = map_of(pairs).insert(name, value);
    assert forall|n: Seq<char>| #[trigger] m.contains_key(n) <==> has_name(more, n) by {
        lemma_map_of_dom(pairs, n);
        if has_name(pairs, n) {
            let i = choose|i: int| 0 <= i < pairs.len() && (#[trigger] pairs[i]).0 == n;
            assert(more[i].0 == n);
        }
        if has_name(more, n) {
            let i = choose|i: int| 0 <= i < more.len() && (#[trigger] more[i]).0 == n;
            assert(pairs[i].0 == n);
        }
    }
    assert forall|i: int| 0 <= i < more.len() implies m[(#[trigger] more[i]).0] == more[i].1 by {
        lemma_map_of_value(pairs, i);
        if i != at && pairs[i].0 == name {
            lemma_names_differ(pairs, i, at);
        }
    }
    lemma_map_of_is(more, m);
}

proof fn lemma_remove<V>(pairs: Seq<(Seq<char>, V)>, at: int)
    requires
        ascending(names_of(pairs)),
        0 <= at < pairs.len(),
    ensures
        ascending(names_of(pairs.remove(at))),
        map_of(pairs.remove(at)) == map_of(pairs).remove(pairs[at].0),
{
    let name = pairs[at].0;
    let fewer = pairs.remove(at);
    let names = names_of(pairs);
    assert forall|i: int, j: int| 0 <= i < j < names_of(fewer).len() implies text_less(
        #[trigger] names_of(fewer)[i],
        #[trigger] names_of(fewer)[j],
    ) by {
        let a = if i < at { i } else { i + 1 };
        let b = if j < at { j } else { j + 1 };
        assert(fewer[i] == pairs[a]);
        assert(fewer[j] == pairs[b]);
        assert(text_less(names[a], names[b]));
    }
    let m = map_of(pairs).remove(name);
    assert forall|n: Seq<char>| #[trigger] m.contains_key(n) <==> has_name(fewer, n) by {
        lemma_map_of_dom(pairs, n);
        if has_name(pairs, n) && n != name {
            let i = choose|i: int| 0 <= i < pairs.len() && (#[trigger] pairs[i]).0 == n;
            assert(fewer[if i < at { i } else { i - 1 }].0 == n);
        }
        if has_name(fewer, n) {
            let i = choose|i: int| 0 <= i < fewer.len() && (#[trigger] fewer[i]).0 == n;
            let a = if i < at { i } else { i + 1 };
            assert(pairs[a].0 == n);
            if n == name {
                lemma_names_differ(pairs, a, at);
            }
        }
    }
    assert forall|i: int| 0 <= i < fewer.len() implies m[(#[trigger] fewer[i]).0] == fewer[i].1 by {
        let a = if i < at { i } else { i + 1 };
        assert(fewer[i] == pairs[a]);
        lemma_map_of_value(pairs, a);
        if pairs[a].0 == name {
            lemma_names_differ(pairs, a, at);
        }
    }
    lemma_map_of_is(fewer, m);
}

/// The named values that a list of owned entries holds.
spec fn pairs_of(entries: Seq<(String, CrateSnapshot)>) -> Seq<(Seq<char>, CrateSnapshotView)> {
    entries.map_values(|entry: (String, CrateSnapshot)| (entry.0@, entry.1@))
}

impl View for Snapshot {
    type V = Map<Seq<char>, CrateSnapshotView>;

    open spec fn view(&self) -> Map<Seq<char>, CrateSnapshotView> {
        map_of(self.pairs())
    }
}

impl Snapshot {
    /// The crates in the order of their names.
    pub closed spec fn pairs(&self) -> Seq<(Seq<char>, CrateSnapshotView)> {
        pairs_of(self.entries@)
    }

    #[verifier::type_invariant]
    spec fn is_ordered(&self) -> bool {
        ascending(names_of(pairs_of(self.entries@)))
    }

    /// A snapshot of no crates.
    pub fn new() -> (snapshot: Snapshot)
        ensures
            snapshot@ == Map::<Seq<char>, CrateSnapshotView>::empty(),
            snapshot.pairs().len() == 0,
    {
        Snapshot { entries: Vec::new() }
    }

    /// How many crates there are. Their names stand in ascending order.
    pub fn len(&self) -> (n: usize)
        ensures
            n == self.pairs().len(),
            n == self@.len(),
            ascending(names_of(self.pairs())),
    {
        proof {
            use_type_invariant(self);
            law_map_of_len(self.pairs());
        }
        self.entries.len()
    }

    /// Whether there are no crates.
    pub fn is_empty(&self) -> (empty: bool)
        ensures
            empty == (self@.len() == 0),
    {
        self.len() == 0
    }

    /// The crate at a place in the order of names, with its name.
    pub fn nth(&self, i: usize) -> (entry: (&str, &CrateSnapshot))
        requires
            i < self.pairs().len(),
        ensures
            (entry.0@, entry.1@) == self.pairs()[i as int],
    {
        let entry = &self.entries[i];
        (entry.0.as_str(), &entry.1)
    }

    /// How many names come before the given one.
    fn place(&self, name: &str) -> (at: usize)
        ensures
            at <= self.pairs().len(),
            forall|i: int| 0 <= i < at ==> text_less((#[trigger] self.pairs()[i]).0, name@),
            at < self.pairs().len() && self.pairs()[at as int].0 == name@
                || forall|i: int|
                at <= i < self.pairs().len() ==> text_less(name@, (#[trigger] self.pairs()[i]).0),
            self@.contains_key(name@) <==> at < self.pairs().len() && self.pairs()[at as int].0
                == name@,
    {
        proof {
            use_type_invariant(self);
        }
        let ghost pairs = self.pairs();
        let ghost names = names_of(pairs);
        let mut at: usize = 0;
        while at < self.entries.len() && comes_before(self.entries[at].0.as_str(), name)
            invariant
                pairs == self.pairs(),
                at <= pairs.len(),
                forall|i: int| 0 <= i < at ==> text_less((#[trigger] pairs[i]).0, name@),
            decreases self.entries.len() - at,
        {
            assert(pairs[at as int].0 == self.entries@[at as int].0@);
            at = at + 1;
        }
        proof {
            lemma_map_of_dom(pairs, name@);
            if at < pairs.len() {
                assert(pairs[at as int].0 == self.entries@[at as int].0@);
                law_text_less_total(name@, pairs[at as int].0);
                if pairs[at as int].0 != name@ {
                    assert forall|i: int| at <= i < pairs.len() implies text_less(
                        name@,
                        (#[trigger] pairs[i]).0,
                    ) by {
                        if i > at {
                            assert(text_less(names[at as int], names[i]));
                            law_text_less_transitive(name@, names[at as int], names[i]);
                        }
                    }
                }
            }
            law_text_less_irreflexive(name@);
            if has_name(pairs, name@) {
                let i = choose|i: int| 0 <= i < pairs.len() && (#[trigger] pairs[i]).0 == name@;
                assert(i >= at);
            }
        }
        at
    }

    /// What is known of a crate.
    pub fn get(&self, name: &str) -> (found: Option<&CrateSnapshot>)
        ensures
            match found {
                Some(state) => self@.contains_key(name@) && state@ == self@[name@],
                None => !self@.contains_key(name@),
            },
    {
        let at: usize = self.place(name);
        if at < self.entries.len() && same_text(self.entries[at].0.as_str(), name) {
            proof {
                use_type_invariant(self);
                assert(self.pairs()[at as int].0 == self.entries@[at as int].0@);
                lemma_map_of_value(self.pairs(), at as int);
            }
            Some(&self.entries[at].1)
        } else {
            None
        }
    }

    /// Whether anything is known of a crate.
    pub fn contains_key(&self, name: &str) -> (known: bool)
        ensures
            known == self@.contains_key(name@),
    {
        self.get(name).is_some()
    }

    /// Records what is known of a crate, in place of what was known before.
    pub fn insert(&mut self, name: String, state: CrateSnapshot)
        ensures
            final(self)@ == old(self)@.insert(name@, state@),
    {
        let at: usize = self.place(name.as_str());
        proof {
            use_type_invariant(&*self);
        }
        let ghost pairs = self.pairs();
        let mut entries: Vec<(String, CrateSnapshot)> = Vec::new();
        std::mem::swap(&mut self.entries, &mut entries);
        let ghost pair = (name@, state@);
        if at < entries.len() && same_text(entries[at].0.as_str(), name.as_str()) {
            proof {
                assert(pairs[at as int].0 == entries@[at as int].0@);
                lemma_update(pairs, at as int, state@);
            }
            entries.set(at, (name, state));
            assert(pairs_of(entries@) == pairs.update(at as int, pair));
        } else {
            proof {
                lemma_insert_new(pairs, at as int, name@, state@);
            }
            entries.insert(at, (name, state));
            assert(pairs_of(entries@) == pairs.insert(at as int, pair));
        }
        self.entries = entries;
    }
}

/// Whether a name is in a list.
fn is_listed(names: &[String], name: &str) -> (listed: bool)
    ensures
        listed == texts(names@).contains(name@),
{
    for i in 0..names.len()
        invariant
            forall|j: int| 0 <= j < i ==> texts(names@)[j] != name@,
    {
        if same_text(names[i].as_str(), name) {
            assert(texts(names@)[i as int] == name@);
            return true;
        }
    }
    false
}

/// What remains known of the listed crates.
pub open spec fn pruned(
    known: Map<Seq<char>, CrateSnapshotView>,
    listed: Seq<Seq<char>>,
) -> Map<Seq<char>, CrateSnapshotView> {
    known.restrict(listed.to_set())
}

/// Forgets every crate that is no longer tracked. What is known of the others
/// stays as it is.
pub fn prune_untracked(snapshot: &mut Snapshot, tracked_names: &[String])
    ensures
        final(snapshot)@ == old(snapshot)@.restrict(texts(tracked_names@).to_set()),
        final(snapshot)@ == pruned(old(snapshot)@, texts(tracked_names@)),
        forall|name: Seq<char>| #[trigger]
            final(snapshot)@.contains_key(name) <==> old(snapshot)@.contains_key(name) && texts(
                tracked_names@,
            ).contains(name),
{
    proof {
        use_type_invariant(&*snapshot);
    }
    let mut entries: Vec<(String, CrateSnapshot)> = Vec::new();
    std::mem::swap(&mut snapshot.entries, &mut entries);
    let ghost before = map_of(pairs_of(entries@));
    let ghost wanted = texts(tracked_names@);
    let mut i: usize = 0;
    while i < entries.len()
        invariant
            wanted == texts(tracked_names@),
            i <= entries.len(),
            ascending(names_of(pairs_of(entries@))),
            forall|j: int| 0 <= j < i ==> wanted.contains((#[trigger] pairs_of(entries@)[j]).0),
            map_of(pairs_of(entries@)).restrict(wanted.to_set()) == before.restrict(
                wanted.to_set(),
            ),
        decreases entries.len() - i,
    {
        if is_listed(tracked_names, entries[i].0.as_str()) {
            i = i + 1;
        } else {
            let ghost pairs = pairs_of(entries@);
            proof {
                lemma_remove(pairs, i as int);
            }
            entries.remove(i);
            proof {
                assert(pairs_of(entries@) == pairs.remove(i as int));
                assert(map_of(pairs_of(entries@)).restrict(wanted.to_set()) == map_of(
                    pairs,
                ).restrict(wanted.to_set()));
                assert forall|j: int| 0 <= j < i implies wanted.contains(
                    (#[trigger] pairs_of(entries@)[j]).0,
                ) by {
                    assert(pairs_of(entries@)[j] == pairs[j]);
                }
            }
        }
    }
    proof {
        let pairs = pairs_of(entries@);
        assert forall|name: Seq<char>| #[trigger] map_of(pairs).contains_key(name) implies wanted.contains(
            name,
        ) by {
            lemma_map_of_dom(pairs, name);
        }
        assert(map_of(pairs) == map_of(pairs).restrict(wanted.to_set()));
    }
    snapshot.entries = entries;
}

/// After pruning exactly those crates are left that were known and are listed,
/// each with what was known of it.
pub proof fn law_pruning_keeps_listed_crates(
    known: Map<Seq<char>, CrateSnapshotView>,
    listed: Seq<Seq<char>>,
    name: Seq<char>,
)
    ensures
        known.restrict(listed.to_set()).contains_key(name) <==> known.contains_key(name)
            && listed.contains(name),
        known.restrict(listed.to_set()).contains_key(name) ==> known.restrict(
            listed.to_set(),
        )[name] == known[name],
{
}

/// Pruning a second time with the same list changes nothing.
pub proof fn law_pruning_is_idempotent(
    known: Map<Seq<char>, CrateSnapshotView>,
    listed: Seq<Seq<char>>,
)
    ensures
        known.restrict(listed.to_set()).restrict(listed.to_set()) == known.restrict(
            listed.to_set(),
        ),
{
    assert(known.restrict(listed.to_set()).restrict(listed.to_set()) =~= known.restrict(
        listed.to_set(),
    ));
}

/// A crate's value shows every field of its state.
pub proof fn law_state_view_shows_every_field(state: CrateSnapshot)
    ensures
        state@.version == state.version@,
        state@.report == state.report@,
        state@.last_checked == state.last_checked@,
{
}

/// A list with ascending names stands for the map that holds each of its values
/// under its name, and no other name.
pub proof fn law_map_holds_every_pair<V>(pairs: Seq<(Seq<char>, V)>, i: int, name: Seq<char>)
    requires
        ascending(names_of(pairs)),
        0 <= i < pairs.len(),
    ensures
        map_of(pairs).contains_key(pairs[i].0),
        map_of(pairs)[pairs[i].0] == pairs[i].1,
        map_of(pairs).contains_key(name) <==> exists|j: int|
            0 <= j < pairs.len() && (#[trigger] pairs[j]).0 == name,
{
    lemma_map_of_value(pairs, i);
    lemma_map_of_dom(pairs, name);
}

/// What is left after pruning: every crate that was known and is listed, with
/// what was known of it, and no other.
pub proof fn law_pruning_forgets_unlisted_crates_only(
    known: Map<Seq<char>, CrateSnapshotView>,
    listed: Seq<Seq<char>>,
    name: Seq<char>,
)
    ensures
        known.contains_key(name) && listed.contains(name) ==> pruned(known, listed).contains_key(
            name,
        ) && pruned(known, listed)[name] == known[name],
        !listed.contains(name) ==> !pruned(known, listed).contains_key(name),
        !known.contains_key(name) ==> !pruned(known, listed).contains_key(name),
{
}


/// The names of a list of named values are the values' own, one for one.
pub proof fn law_names_are_those_of_the_pairs<V>(pairs: Seq<(Seq<char>, V)>, i: int)
    requires
        0 <= i < pairs.len(),
    ensures
        names_of(pairs).len() == pairs.len(),
        names_of(pairs)[i] == pairs[i].0,
{
}


} // verus!
