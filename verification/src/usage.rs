//! The usage map: for each dependency name, the files that refer to it.
//!
//! Names are kept in the order of names and each once; the files of a name
//! are a set. Merging the names of files is therefore independent of the
//! order in which the files arrive.

use crate::text::{
    compare_names, lemma_name_before_irreflexive, lemma_name_before_transitive, name_before,
    same_text, NameOrder,
};
use vstd::prelude::*;
use vstd::string::StringExecFns;

verus! {

/// The set of the texts in `texts`.
pub open spec fn text_set(texts: Seq<String>) -> Set<Seq<char>> {
    Set::new(|t: Seq<char>| exists|i: int| 0 <= i < texts.len() && (#[trigger] texts[i])@ == t)
}

/// The files that `usage` has for `name`; none where it does not know the
/// name.
pub open spec fn files_of(usage: Map<Seq<char>, Set<Seq<char>>>, name: Seq<char>) -> Set<
    Seq<char>,
> {
    if usage.dom().contains(name) {
        usage[name]
    } else {
        Set::empty()
    }
}

/// `usage` after `file` was found to refer to `name`.
pub open spec fn add_usage(
    usage: Map<Seq<char>, Set<Seq<char>>>,
    name: Seq<char>,
    file: Seq<char>,
) -> Map<Seq<char>, Set<Seq<char>>> {
    usage.insert(name, files_of(usage, name).insert(file))
}

/// `usage` after `file` was found to refer to each of `names`.
pub open spec fn record_usage(
    usage: Map<Seq<char>, Set<Seq<char>>>,
    file: Seq<char>,
    names: Set<Seq<char>>,
) -> Map<Seq<char>, Set<Seq<char>>> {
    Map::new(
        |n: Seq<char>| usage.dom().contains(n) || names.contains(n),
        |n: Seq<char>|
            if names.contains(n) {
                files_of(usage, n).insert(file)
            } else {
                files_of(usage, n)
            },
    )
}

/// Recording no name changes nothing, and recording one name more is
/// adding that name after the others.
pub proof fn lemma_record_usage_step(
    usage: Map<Seq<char>, Set<Seq<char>>>,
    file: Seq<char>,
    names: Set<Seq<char>>,
    name: Seq<char>,
)
    ensures
        record_usage(usage, file, Set::empty()) == usage,
        record_usage(usage, file, names.insert(name)) == add_usage(
            record_usage(usage, file, names),
            name,
            file,
        ),
{
    assert(record_usage(usage, file, Set::empty()) =~~= usage);
    assert(record_usage(usage, file, names.insert(name)) =~~= add_usage(
        record_usage(usage, file, names),
        name,
        file,
    ));
}

/// Merging is commutative: the names of two files give the same usage in
/// either order.
pub proof fn lemma_record_usage_commutes(
    usage: Map<Seq<char>, Set<Seq<char>>>,
    file_a: Seq<char>,
    names_a: Set<Seq<char>>,
    file_b: Seq<char>,
    names_b: Set<Seq<char>>,
)
    ensures
        record_usage(record_usage(usage, file_a, names_a), file_b, names_b) == record_usage(
            record_usage(usage, file_b, names_b),
            file_a,
            names_a,
        ),
{
    assert(record_usage(record_usage(usage, file_a, names_a), file_b, names_b) =~~= record_usage(
        record_usage(usage, file_b, names_b),
        file_a,
        names_a,
    ));
}

/// Merging is idempotent: the names of a file recorded twice count once.
pub proof fn lemma_record_usage_idempotent(
    usage: Map<Seq<char>, Set<Seq<char>>>,
    file: Seq<char>,
    names: Set<Seq<char>>,
)
    ensures
        record_usage(record_usage(usage, file, names), file, names) == record_usage(
            usage,
            file,
            names,
        ),
{
    assert(record_usage(record_usage(usage, file, names), file, names) =~~= record_usage(
        usage,
        file,
        names,
    ));
}

/// Whether `texts` holds `text`.
pub fn has_text(texts: &Vec<String>, text: &str) -> (found: bool)
    ensures
        found == text_set(texts@).contains(text@),
{
    let mut i: usize = 0;
    while i < texts.len()
        invariant
            i <= texts@.len(),
            forall|j: int| 0 <= j < i ==> (#[trigger] texts@[j])@ != text@,
        decreases texts.len() - i,
    {
        if same_text(texts[i].as_str(), text) {
            return true;
        }
        i += 1;
    }
    false
}

/// Whether no text occurs twice in `texts`.
pub open spec fn distinct_texts(texts: Seq<String>) -> bool {
    forall|i: int, j: int|
        0 <= i < j < texts.len() ==> (#[trigger] texts[i])@ != (#[trigger] texts[j])@
}

/// A dependency name and the files that refer to it.
#[derive(Debug)]
pub struct UsageEntry {
    /// The dependency name.
    pub name: String,
    /// The files that refer to it.
    pub files: Vec<String>,
}

/// The usage map.
#[derive(Debug)]
pub struct UsageMap {
    pub(crate) entries: Vec<UsageEntry>,
}

/// The index of the entry of `entries` for `name`.
pub open spec fn entry_index(entries: Seq<UsageEntry>, name: Seq<char>) -> int {
    choose|i: int| 0 <= i < entries.len() && (#[trigger] entries[i]).name@ == name
}

/// Whether `entries` has an entry for `name`.
pub open spec fn has_usage_entry(entries: Seq<UsageEntry>, name: Seq<char>) -> bool {
    exists|i: int| 0 <= i < entries.len() && (#[trigger] entries[i]).name@ == name
}

/// Whether the names of `entries` ascend strictly and each entry has files,
/// none of them twice.
pub open spec fn entries_wf(entries: Seq<UsageEntry>) -> bool {
    &&& forall|i: int, j: int|
        0 <= i < j < entries.len() ==> name_before(
            (#[trigger] entries[i]).name@,
            (#[trigger] entries[j]).name@,
        )
    &&& forall|i: int|
        0 <= i < entries.len() ==> (#[trigger] entries[i]).files@.len() > 0 && distinct_texts(
            entries[i].files@,
        )
}

/// The mapping that `entries` stand for.
pub open spec fn entries_view(entries: Seq<UsageEntry>) -> Map<Seq<char>, Set<Seq<char>>> {
    Map::new(
        |n: Seq<char>| has_usage_entry(entries, n),
        |n: Seq<char>| text_set(entries[entry_index(entries, n)].files@),
    )
}

/// In well-formed entries a name is found at one index only, and the view
/// has the files of that entry for it.
pub proof fn lemma_entry_at(entries: Seq<UsageEntry>, i: int)
    requires
        entries_wf(entries),
        0 <= i < entries.len(),
    ensures
        has_usage_entry(entries, entries[i].name@),
        entry_index(entries, entries[i].name@) == i,
        entries_view(entries).dom().contains(entries[i].name@),
        entries_view(entries)[entries[i].name@] == text_set(entries[i].files@),
{
    let n = entries[i].name@;
    let k = entry_index(entries, n);
    lemma_name_before_irreflexive(n);
    if k < i {
        assert(name_before(entries[k].name@, entries[i].name@));
    }
    if i < k {
        assert(name_before(entries[i].name@, entries[k].name@));
    }
}

impl UsageMap {
    /// The names ascend strictly and each has at least one file, none twice.
    pub closed spec fn wf(&self) -> bool {
        entries_wf(self.entries@)
    }

    /// The mapping from names to sets of files.
    pub closed spec fn view(&self) -> Map<Seq<char>, Set<Seq<char>>> {
        entries_view(self.entries@)
    }

    /// The names in the order in which they are handed out.
    pub closed spec fn keys(&self) -> Seq<Seq<char>> {
        Seq::new(self.entries@.len(), |i: int| self.entries@[i].name@)
    }

    /// The map without names.
    pub fn new() -> (usage: UsageMap)
        ensures
            usage.wf(),
            usage@ == Map::<Seq<char>, Set<Seq<char>>>::empty(),
            usage.keys() == Seq::<Seq<char>>::empty(),
    {
        let usage = UsageMap { entries: Vec::new() };
        assert(usage@ =~= Map::<Seq<char>, Set<Seq<char>>>::empty());
        assert(usage.keys() =~= Seq::<Seq<char>>::empty());
        usage
    }

    /// The names are exactly the keys of the mapping, in ascending order.
    pub proof fn lemma_keys(&self)
        requires
            self.wf(),
        ensures
            forall|i: int, j: int|
                0 <= i < j < self.keys().len() ==> name_before(
                    #[trigger] self.keys()[i],
                    #[trigger] self.keys()[j],
                ),
            forall|i: int| 0 <= i < self.keys().len() ==> self@.dom().contains(#[trigger] self.keys()[i]),
            forall|n: Seq<char>| self@.dom().contains(n) ==> self.keys().contains(n),
    {
        assert forall|i: int| 0 <= i < self.keys().len() implies self@.dom().contains(
            #[trigger] self.keys()[i],
        ) by {
            lemma_entry_at(self.entries@, i);
        }
        assert forall|n: Seq<char>| self@.dom().contains(n) implies self.keys().contains(n) by {
            let k = entry_index(self.entries@, n);
            assert(self.keys()[k] == n);
        }
    }

    /// The number of names.
    pub fn len(&self) -> (n: usize)
        ensures
            n == self.keys().len(),
    {
        self.entries.len()
    }

    /// Where `name` stands or would stand among the entries.
    fn locate(&self, name: &str) -> (at: (usize, bool))
        requires
            self.wf(),
        ensures
            at.0 <= self.entries@.len(),
            forall|i: int| 0 <= i < at.0 ==> name_before((#[trigger] self.entries@[i]).name@, name@),
            forall|i: int|
                at.0 + (if at.1 { 1int } else { 0int }) <= i < self.entries@.len() ==> name_before(
                    name@,
                    (#[trigger] self.entries@[i]).name@,
                ),
            at.1 ==> at.0 < self.entries@.len() && self.entries@[at.0 as int].name@ == name@,
            at.1 == has_usage_entry(self.entries@, name@),
    {
        let mut i: usize = 0;
        while i < self.entries.len()
            invariant
                self.wf(),
                i <= self.entries@.len(),
                forall|j: int| 0 <= j < i ==> name_before((#[trigger] self.entries@[j]).name@, name@),
            decreases self.entries.len() - i,
        {
            match compare_names(self.entries[i].name.as_str(), name) {
                NameOrder::Before => {
                    i += 1;
                },
                NameOrder::Same => {
                    proof {
                        assert forall|j: int| i < j < self.entries@.len() implies name_before(
                            name@,
                            (#[trigger] self.entries@[j]).name@,
                        ) by {
                            assert(name_before(self.entries@[i as int].name@, self.entries@[j].name@));
                        }
                    }
                    return (i, true);
                },
                NameOrder::After => {
                    proof {
                        assert forall|j: int| i <= j < self.entries@.len() implies name_before(
                            name@,
                            (#[trigger] self.entries@[j]).name@,
                        ) by {
                            if i < j {
                                assert(name_before(
                                    self.entries@[i as int].name@,
                                    self.entries@[j].name@,
                                ));
                                lemma_name_before_transitive(
                                    name@,
                                    self.entries@[i as int].name@,
                                    self.entries@[j].name@,
                                );
                            }
                        }
                        self.lemma_absent(name@, i as int);
                    }
                    return (i, false);
                },
            }
        }
        proof {
            self.lemma_absent(name@, i as int);
        }
        (i, false)
    }

    /// A name that stands strictly between the entries before `at` and
    /// those from `at` on has no entry.
    proof fn lemma_absent(&self, name: Seq<char>, at: int)
        requires
            0 <= at <= self.entries@.len(),
            forall|i: int| 0 <= i < at ==> name_before((#[trigger] self.entries@[i]).name@, name),
            forall|i: int|
                at <= i < self.entries@.len() ==> name_before(
                    name,
                    (#[trigger] self.entries@[i]).name@,
                ),
        ensures
            !has_usage_entry(self.entries@, name),
    {
        lemma_name_before_irreflexive(name);
    }

    /// Whether some file refers to `name`.
    pub fn contains_key(&self, name: &str) -> (found: bool)
        requires
            self.wf(),
        ensures
            found == self@.dom().contains(name@),
    {
        self.locate(name).1
    }

    /// The name at position `i` in ascending order.
    pub fn name_at(&self, i: usize) -> (name: &String)
        requires
            i < self.keys().len(),
        ensures
            name@ == self.keys()[i as int],
    {
        &self.entries[i].name
    }

    /// The files that refer to the name at position `i`, each once.
    pub fn files_at(&self, i: usize) -> (files: &Vec<String>)
        requires
            self.wf(),
            i < self.keys().len(),
        ensures
            text_set(files@) == self@[self.keys()[i as int]],
            distinct_texts(files@),
            files@.len() > 0,
    {
        proof {
            lemma_entry_at(self.entries@, i as int);
        }
        &self.entries[i].files
    }

    /// Notes that `file` refers to `name`.
    pub fn insert(&mut self, name: &str, file: &str)
        requires
            old(self).wf(),
        ensures
            final(self).wf(),
            final(self)@ == add_usage(old(self)@, name@, file@),
    {
        let ghost before = self.entries@;
        let (at, found) = self.locate(name);
        if found {
            let mut entry = self.entries.remove(at);
            let ghost old_files = entry.files@;
            if !has_text(&entry.files, file) {
                entry.files.push(String::from_str(file));
            }
            proof {
                assert(distinct_texts(old_files));
                assert(distinct_texts(entry.files@));
                assert(text_set(entry.files@) =~= text_set(old_files).insert(file@)) by {
                    assert forall|t: Seq<char>| text_set(old_files).insert(file@).contains(t)
                        implies text_set(entry.files@).contains(t) by {
                        if text_set(old_files).contains(t) {
                            let k = choose|k: int|
                                0 <= k < old_files.len() && (#[trigger] old_files[k])@ == t;
                            assert(entry.files@[k]@ == t);
                        } else {
                            assert(entry.files@[entry.files@.len() - 1]@ == t);
                        }
                    }
                    assert forall|t: Seq<char>| text_set(entry.files@).contains(t)
                        implies text_set(old_files).insert(file@).contains(t) by {
                        let k = choose|k: int|
                            0 <= k < entry.files@.len() && (#[trigger] entry.files@[k])@ == t;
                        if k < old_files.len() {
                            assert(old_files[k]@ == t);
                        }
                    }
                }
            }
            self.entries.insert(at, entry);
            proof {
                let after = self.entries@;
                assert(after.len() == before.len());
                assert forall|i: int| 0 <= i < after.len() implies (#[trigger] after[i]).name@
                    == before[i].name@ by {}
                assert forall|i: int| 0 <= i < after.len() && i != at implies #[trigger] after[i]
                    == before[i] by {}
                assert(entries_wf(after)) by {
                    assert forall|i: int, j: int| 0 <= i < j < after.len() implies name_before(
                        (#[trigger] after[i]).name@,
                        (#[trigger] after[j]).name@,
                    ) by {
                        assert(name_before(before[i].name@, before[j].name@));
                    }
                    assert forall|i: int| 0 <= i < after.len() implies (#[trigger] after[i]).files@.len()
                        > 0 && distinct_texts(after[i].files@) by {
                        if i != at {
                            assert(after[i] == before[i]);
                            assert(before[i].files@.len() > 0);
                        }
                    }
                }
                lemma_entry_at(before, at as int);
                assert forall|n: Seq<char>| has_usage_entry(after, n) == has_usage_entry(before, n) by {
                    if has_usage_entry(after, n) {
                        let k = entry_index(after, n);
                        assert(before[k].name@ == n);
                    }
                    if has_usage_entry(before, n) {
                        let k = entry_index(before, n);
                        assert(after[k].name@ == n);
                    }
                }
                assert forall|n: Seq<char>| has_usage_entry(after, n) implies entries_view(after)[n]
                    == add_usage(entries_view(before), name@, file@)[n] by {
                    let k = entry_index(after, n);
                    lemma_entry_at(after, k);
                    lemma_entry_at(before, k);
                    if n == name@ {
                        lemma_entry_at(after, at as int);
                    }
                }
                assert(entries_view(after) =~= add_usage(entries_view(before), name@, file@));
            }
        } else {
            let mut files: Vec<String> = Vec::new();
            files.push(String::from_str(file));
            let entry = UsageEntry { name: String::from_str(name), files };
            proof {
                assert(text_set(entry.files@) =~= Set::<Seq<char>>::empty().insert(file@)) by {
                    assert(entry.files@[0]@ == file@);
                }
            }
            self.entries.insert(at, entry);
            proof {
                let after = self.entries@;
                assert(after.len() == before.len() + 1);
                assert(after[at as int].name@ == name@);
                assert forall|i: int| 0 <= i < at implies #[trigger] after[i] == before[i] by {}
                assert forall|i: int| at < i < after.len() implies #[trigger] after[i] == before[i
                    - 1] by {}
                assert(entries_wf(after)) by {
                    assert forall|i: int, j: int| 0 <= i < j < after.len() implies name_before(
                        (#[trigger] after[i]).name@,
                        (#[trigger] after[j]).name@,
                    ) by {
                        if i < at && j > at {
                            assert(name_before(before[i].name@, before[j - 1].name@));
                        } else if i < at && j < at {
                            assert(name_before(before[i].name@, before[j].name@));
                        } else if i > at {
                            assert(name_before(before[i - 1].name@, before[j - 1].name@));
                        } else if i == at {
                            assert(name_before(name@, before[j - 1].name@));
                        } else {
                            assert(name_before(before[i].name@, name@));
                        }
                    }
                    assert forall|i: int| 0 <= i < after.len() implies (#[trigger] after[i]).files@.len()
                        > 0 && distinct_texts(after[i].files@) by {
                        if i < at {
                            assert(before[i].files@.len() > 0);
                        } else if i > at {
                            assert(before[i - 1].files@.len() > 0);
                        }
                    }
                }
                assert forall|n: Seq<char>| has_usage_entry(after, n) == (has_usage_entry(before, n)
                    || n == name@) by {
                    if has_usage_entry(after, n) {
                        let k = entry_index(after, n);
                        if k < at {
                            assert(before[k].name@ == n);
                        } else if k > at {
                            assert(before[k - 1].name@ == n);
                        }
                    }
                    if has_usage_entry(before, n) {
                        let k = entry_index(before, n);
                        if k < at {
                            assert(after[k].name@ == n);
                        } else {
                            assert(after[k + 1].name@ == n);
                        }
                    }
                }
                assert forall|n: Seq<char>| has_usage_entry(after, n) implies entries_view(after)[n]
                    == add_usage(entries_view(before), name@, file@)[n] by {
                    let k = entry_index(after, n);
                    lemma_entry_at(after, k);
                    if k < at {
                        lemma_entry_at(before, k);
                    } else if k > at {
                        lemma_entry_at(before, k - 1);
                    }
                }
                assert(entries_view(after) =~= add_usage(entries_view(before), name@, file@));
            }
        }
    }

    /// Merges the names that `file` refers to into the map.
    pub fn record(&mut self, file: &str, names: &Vec<String>)
        requires
            old(self).wf(),
        ensures
            final(self).wf(),
            final(self)@ == record_usage(old(self)@, file@, text_set(names@)),
    {
        let ghost before = self@;
        let mut i: usize = 0;
        proof {
            lemma_record_usage_step(before, file@, Set::empty(), file@);
            assert(text_set(names@.take(0)) =~= Set::<Seq<char>>::empty());
        }
        while i < names.len()
            invariant
                i <= names@.len(),
                self.wf(),
                self@ == record_usage(before, file@, text_set(names@.take(i as int))),
            decreases names.len() - i,
        {
            self.insert(names[i].as_str(), file);
            proof {
                let done = text_set(names@.take(i as int));
                lemma_record_usage_step(before, file@, done, names@[i as int]@);
                assert(text_set(names@.take(i + 1)) =~= done.insert(names@[i as int]@)) by {
                    assert forall|t: Seq<char>| done.insert(names@[i as int]@).contains(t)
                        implies text_set(names@.take(i + 1)).contains(t) by {
                        if done.contains(t) {
                            let k = choose|k: int|
                                0 <= k < names@.take(i as int).len() && (#[trigger] names@.take(
                                    i as int,
                                )[k])@ == t;
                            assert(names@.take(i + 1)[k]@ == t);
                        } else {
                            assert(names@.take(i + 1)[i as int]@ == t);
                        }
                    }
                    assert forall|t: Seq<char>| text_set(names@.take(i + 1)).contains(t)
                        implies done.insert(names@[i as int]@).contains(t) by {
                        let k = choose|k: int|
                            0 <= k < names@.take(i + 1).len() && (#[trigger] names@.take(i + 1)[k])@
                                == t;
                        if k < i {
                            assert(names@.take(i as int)[k]@ == t);
                        }
                    }
                }
            }
            i += 1;
        }
        proof {
            assert(names@.take(i as int) =~= names@);
        }
    }

    /// The part of the map whose names are marked in `keep`, which has one
    /// mark for each name, in ascending order of the names.
    pub fn retain(&self, keep: &Vec<bool>) -> (kept: UsageMap)
        requires
            self.wf(),
            keep@.len() == self.keys().len(),
        ensures
            kept.wf(),
            kept@ == self@.restrict(
                Set::new(
                    |n: Seq<char>|
                        exists|i: int|
                            0 <= i < keep@.len() && #[trigger] self.keys()[i] == n && keep@[i],
                ),
            ),
    {
        let mut kept = UsageMap { entries: Vec::new() };
        let ghost mut source: Seq<int> = Seq::empty();
        let mut i: usize = 0;
        while i < self.entries.len()
            invariant
                self.wf(),
                keep@.len() == self.entries@.len(),
                i <= self.entries@.len(),
                source.len() == kept.entries@.len(),
                forall|k: int| 0 <= k < source.len() ==> 0 <= #[trigger] source[k] < i && keep@[source[k]],
                forall|k: int, l: int| 0 <= k < l < source.len() ==> source[k] < source[l],
                forall|k: int|
                    0 <= k < source.len() ==> (#[trigger] kept.entries@[k]).name@
                        == self.entries@[source[k]].name@ && text_set(kept.entries@[k].files@)
                        == text_set(self.entries@[source[k]].files@) && distinct_texts(
                        kept.entries@[k].files@,
                    ) && kept.entries@[k].files@.len() > 0,
                forall|j: int| 0 <= j < i && keep@[j] ==> source.contains(j),
            decreases self.entries.len() - i,
        {
            if keep[i] {
                let files = clone_texts(&self.entries[i].files);
                let ghost from = self.entries@[i as int].files@;
                proof {
                    assert(from.len() > 0 && distinct_texts(from));
                    assert(text_set(files@) =~= text_set(from)) by {
                        assert forall|t: Seq<char>| text_set(from).contains(t) implies text_set(
                            files@,
                        ).contains(t) by {
                            let k = choose|k: int| 0 <= k < from.len() && (#[trigger] from[k])@ == t;
                            assert(files@[k]@ == t);
                        }
                        assert forall|t: Seq<char>| text_set(files@).contains(t) implies text_set(
                            from,
                        ).contains(t) by {
                            let k = choose|k: int|
                                0 <= k < files@.len() && (#[trigger] files@[k])@ == t;
                            assert(from[k]@ == t);
                        }
                    }
                    assert(distinct_texts(files@)) by {
                        assert forall|a: int, b: int| 0 <= a < b < files@.len() implies (
                        #[trigger] files@[a])@ != (#[trigger] files@[b])@ by {
                            assert(from[a]@ != from[b]@);
                        }
                    }
                }
                let ghost old_source = source;
                kept.entries.push(UsageEntry { name: self.entries[i].name.clone(), files });
                proof {
                    source = source.push(i as int);
                    assert forall|j: int| 0 <= j < i + 1 && keep@[j] implies source.contains(j) by {
                        if j < i {
                            assert(old_source.contains(j));
                            let k = choose|k: int| 0 <= k < old_source.len() && old_source[k] == j;
                            assert(source[k] == j);
                        } else {
                            assert(source[old_source.len() as int] == j);
                        }
                    }
                }
            }
            i += 1;
        }
        proof {
            let mine = self.entries@;
            let theirs = kept.entries@;
            assert(entries_wf(theirs)) by {
                assert forall|k: int, l: int| 0 <= k < l < theirs.len() implies name_before(
                    (#[trigger] theirs[k]).name@,
                    (#[trigger] theirs[l]).name@,
                ) by {
                    assert(name_before(mine[source[k]].name@, mine[source[l]].name@));
                }
            }
            let marked = Set::new(
                |n: Seq<char>|
                    exists|i: int| 0 <= i < keep@.len() && #[trigger] self.keys()[i] == n && keep@[i],
            );
            assert forall|n: Seq<char>| kept@.dom().contains(n) == self@.restrict(
                marked,
            ).dom().contains(n) by {
                if has_usage_entry(theirs, n) {
                    let k = entry_index(theirs, n);
                    assert(self.keys()[source[k]] == n);
                    lemma_entry_at(mine, source[k]);
                }
                if self@.dom().contains(n) && marked.contains(n) {
                    let j = choose|j: int|
                        0 <= j < keep@.len() && #[trigger] self.keys()[j] == n && keep@[j];
                    assert(source.contains(j));
                    let k = choose|k: int| 0 <= k < source.len() && source[k] == j;
                    assert(theirs[k].name@ == n);
                }
            }
            assert forall|n: Seq<char>| kept@.dom().contains(n) implies kept@[n] == self@.restrict(
                marked,
            )[n] by {
                let k = entry_index(theirs, n);
                lemma_entry_at(theirs, k);
                lemma_entry_at(mine, source[k]);
            }
            assert(kept@ =~= self@.restrict(marked));
        }
        kept
    }
}

/// A copy of `texts`.
pub fn clone_texts(texts: &Vec<String>) -> (copy: Vec<String>)
    ensures
        copy@.len() == texts@.len(),
        forall|i: int| 0 <= i < copy@.len() ==> (#[trigger] copy@[i])@ == texts@[i]@,
{
    let mut copy: Vec<String> = Vec::new();
    let mut i: usize = 0;
    while i < texts.len()
        invariant
            i <= texts@.len(),
            copy@.len() == i,
            forall|j: int| 0 <= j < i ==> (#[trigger] copy@[j])@ == texts@[j]@,
        decreases texts.len() - i,
    {
        copy.push(texts[i].clone());
        i += 1;
    }
    copy
}

} // verus!
