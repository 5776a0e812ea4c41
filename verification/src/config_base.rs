//! A configuration: options by name, kept in the order of their names.

use vstd::prelude::*;
use crate::config_option::{ConfigOption, ConfigOptionModel, ToConfig};
use crate::text::{
    concat2,
    strip_prefix,
    lemma_precedes_irreflexive,
    lemma_precedes_total,
    lemma_precedes_transitive,
    precedes,
    text_precedes,
};

verus! {

/// An option under its name.
#[derive(PartialEq)]
struct Entry {
    name: String,
    option: ConfigOption,
}

impl Entry {
    fn duplicate(&self) -> (r: Entry)
        ensures
            r.name@ == self.name@,
            r.option@ == self.option@,
    {
        Entry { name: self.name.clone(), option: self.option.clone() }
    }
}

/// The names of the entries, in order.
spec fn entry_names(entries: Seq<Entry>) -> Seq<Seq<char>> {
    entries.map_values(|entry: Entry| entry.name@)
}

/// Whether each name comes before all that follow it.
pub open spec fn ascending(names: Seq<Seq<char>>) -> bool {
    forall|i: int, j: int| 0 <= i < j < names.len() ==> precedes(names[i], names[j])
}

/// The options of the entries by their names.
spec fn entries_map(entries: Seq<Entry>) -> Map<Seq<char>, ConfigOptionModel> {
    Map::new(
        |name: Seq<char>| entry_names(entries).contains(name),
        |name: Seq<char>| entries[entry_names(entries).index_of(name)].option@,
    )
}

/// How the names of the options of a sub-configuration begin: with the name
/// of the sub-configuration and a colon.
pub open spec fn sub_prefix(prefix: Seq<char>) -> Seq<char> {
    prefix + ":"@
}

/// Whether an option of the given name belongs to the sub-configuration.
pub open spec fn in_sub_config(name: Seq<char>, prefix: Seq<char>) -> bool {
    sub_prefix(prefix).is_prefix_of(name)
}

/// The names that do not belong to the sub-configuration.
pub open spec fn outside_sub_config(prefix: Seq<char>) -> Set<Seq<char>> {
    Set::new(|name: Seq<char>| !in_sub_config(name, prefix))
}

/// The options of a sub-configuration under the names that they have in it.
pub open spec fn sub_config_of(
    options: Map<Seq<char>, ConfigOptionModel>,
    prefix: Seq<char>,
) -> Map<Seq<char>, ConfigOptionModel> {
    Map::new(
        |name: Seq<char>| options.contains_key(sub_prefix(prefix) + name),
        |name: Seq<char>| options[sub_prefix(prefix) + name],
    )
}

/// The options of a configuration under the names that they have as a
/// sub-configuration of another.
pub open spec fn as_sub_config(
    options: Map<Seq<char>, ConfigOptionModel>,
    prefix: Seq<char>,
) -> Map<Seq<char>, ConfigOptionModel> {
    Map::new(
        |name: Seq<char>|
            in_sub_config(name, prefix) && options.contains_key(
                name.skip(sub_prefix(prefix).len() as int),
            ),
        |name: Seq<char>| options[name.skip(sub_prefix(prefix).len() as int)],
    )
}

/// The first entries of entries with ascending names have ascending names, and
/// one more entry adds its option to their map.
proof fn lemma_first_entries(entries: Seq<Entry>, count: int)
    requires
        ascending(entry_names(entries)),
        0 <= count < entries.len(),
    ensures
        ascending(entry_names(entries.take(count))),
        ascending(entry_names(entries.take(count + 1))),
        entries_map(entries.take(count + 1)) == entries_map(entries.take(count)).insert(
            entries[count].name@,
            entries[count].option@,
        ),
        !entries_map(entries.take(count)).contains_key(entries[count].name@),
{
    let fewer = entries.take(count);
    let more = entries.take(count + 1);
    assert forall|i: int, j: int| 0 <= i < j < fewer.len() implies precedes(
        entry_names(fewer)[i],
        entry_names(fewer)[j],
    ) by {
        assert(precedes(entry_names(entries)[i], entry_names(entries)[j]));
    }
    assert forall|i: int, j: int| 0 <= i < j < more.len() implies precedes(
        entry_names(more)[i],
        entry_names(more)[j],
    ) by {
        assert(precedes(entry_names(entries)[i], entry_names(entries)[j]));
    }
    assert(more =~= fewer.insert(count, entries[count]));
    lemma_inserted(fewer, count, entries[count]);
    lemma_precedes_irreflexive(entries[count].name@);
    assert forall|i: int| 0 <= i < fewer.len() implies fewer[i].name@ != entries[count].name@ by {
        assert(precedes(entry_names(entries)[i], entry_names(entries)[count]));
    }
    lemma_absent(fewer, entries[count].name@);
}

/// In entries with ascending names, a name is found where it stands.
proof fn lemma_lookup(entries: Seq<Entry>, at: int)
    requires
        ascending(entry_names(entries)),
        0 <= at < entries.len(),
    ensures
        entry_names(entries).contains(entries[at].name@),
        entry_names(entries).index_of(entries[at].name@) == at,
        entries_map(entries).contains_key(entries[at].name@),
        entries_map(entries)[entries[at].name@] == entries[at].option@,
{
    let names = entry_names(entries);
    let name = entries[at].name@;
    assert(names[at] == name);
    let found = names.index_of(name);
    lemma_precedes_irreflexive(name);
    if found < at {
        assert(precedes(names[found], names[at]));
    } else if at < found {
        assert(precedes(names[at], names[found]));
    }
}

/// A name that the entries do not have is not in their map.
proof fn lemma_absent(entries: Seq<Entry>, name: Seq<char>)
    requires
        forall|i: int| 0 <= i < entries.len() ==> entries[i].name@ != name,
    ensures
        !entries_map(entries).contains_key(name),
{
    let names = entry_names(entries);
    if names.contains(name) {
        let i = choose|i: int| 0 <= i < names.len() && names[i] == name;
        assert(entries[i].name@ == name);
    }
}

/// An entry put in at its place adds its option to the map.
proof fn lemma_inserted(entries: Seq<Entry>, at: int, entry: Entry)
    requires
        0 <= at <= entries.len(),
        ascending(entry_names(entries)),
        ascending(entry_names(entries.insert(at, entry))),
    ensures
        entries_map(entries.insert(at, entry)) == entries_map(entries).insert(
            entry.name@,
            entry.option@,
        ),
{
    let after = entries.insert(at, entry);
    let wanted = entries_map(entries).insert(entry.name@, entry.option@);
    assert forall|name: Seq<char>| #[trigger]
        entries_map(after).dom().contains(name) implies wanted.dom().contains(name) && wanted[name]
        == entries_map(after)[name] by {
        let i = entry_names(after).index_of(name);
        assert(entry_names(after)[i] == name);
        lemma_lookup(after, i);
        lemma_lookup(after, at);
        if i < at {
            assert(after[i] == entries[i]);
            lemma_lookup(entries, i);
        } else if i > at {
            assert(after[i] == entries[i - 1]);
            lemma_lookup(entries, i - 1);
        }
    }
    assert forall|name: Seq<char>| #[trigger] wanted.dom().contains(name) implies entries_map(
        after,
    ).dom().contains(name) by {
        if name == entry.name@ {
            lemma_lookup(after, at);
        } else {
            let i = entry_names(entries).index_of(name);
            assert(entry_names(entries)[i] == name);
            if i < at {
                assert(after[i] == entries[i]);
                lemma_lookup(after, i);
            } else {
                assert(after[i + 1] == entries[i]);
                lemma_lookup(after, i + 1);
            }
        }
    }
    assert(entries_map(after).dom() =~= wanted.dom());
    assert(entries_map(after) =~= wanted);
}

/// An entry put in the place of one with its name replaces the option in the map.
proof fn lemma_replaced(entries: Seq<Entry>, at: int, entry: Entry)
    requires
        0 <= at < entries.len(),
        ascending(entry_names(entries)),
        entries[at].name@ == entry.name@,
    ensures
        entry_names(entries.update(at, entry)) == entry_names(entries),
        entries_map(entries.update(at, entry)) == entries_map(entries).insert(
            entry.name@,
            entry.option@,
        ),
{
    let after = entries.update(at, entry);
    let wanted = entries_map(entries).insert(entry.name@, entry.option@);
    assert(entry_names(after) =~= entry_names(entries));
    assert forall|name: Seq<char>| entries_map(after).contains_key(name) implies wanted[name]
        == entries_map(after)[name] by {
        let i = entry_names(after).index_of(name);
        assert(entry_names(after)[i] == name);
        lemma_lookup(after, i);
        lemma_lookup(after, at);
        lemma_lookup(entries, i);
    }
    lemma_lookup(entries, at);
    assert(entries_map(after) =~= wanted);
}

/// An entry taken out takes its option out of the map.
proof fn lemma_removed(entries: Seq<Entry>, at: int)
    requires
        0 <= at < entries.len(),
        ascending(entry_names(entries)),
    ensures
        ascending(entry_names(entries.remove(at))),
        entries_map(entries.remove(at)) == entries_map(entries).remove(entries[at].name@),
{
    let after = entries.remove(at);
    let wanted = entries_map(entries).remove(entries[at].name@);
    assert forall|i: int, j: int| 0 <= i < j < after.len() implies precedes(
        entry_names(after)[i],
        entry_names(after)[j],
    ) by {
        let before_i = if i < at {
            i
        } else {
            i + 1
        };
        let before_j = if j < at {
            j
        } else {
            j + 1
        };
        assert(entry_names(entries)[before_i] == entry_names(after)[i]);
        assert(entry_names(entries)[before_j] == entry_names(after)[j]);
    }
    assert forall|name: Seq<char>| #[trigger]
        entries_map(after).dom().contains(name) implies wanted.dom().contains(name) && wanted[name]
        == entries_map(after)[name] by {
        let i = entry_names(after).index_of(name);
        assert(entry_names(after)[i] == name);
        lemma_lookup(after, i);
        let before = if i < at {
            i
        } else {
            i + 1
        };
        assert(after[i] == entries[before]);
        lemma_lookup(entries, before);
        lemma_lookup(entries, at);
    }
    assert forall|name: Seq<char>| #[trigger] wanted.dom().contains(name) implies entries_map(
        after,
    ).dom().contains(name) by {
        let i = entry_names(entries).index_of(name);
        assert(entry_names(entries)[i] == name);
        lemma_lookup(entries, i);
        if i < at {
            assert(after[i] == entries[i]);
            lemma_lookup(after, i);
        } else {
            assert(after[i - 1] == entries[i]);
            lemma_lookup(after, i - 1);
        }
    }
    assert(entries_map(after).dom() =~= wanted.dom());
    assert(entries_map(after) =~= wanted);
}

/// Entries with ascending names have as many options as there are entries.
proof fn lemma_counted(entries: Seq<Entry>)
    requires
        ascending(entry_names(entries)),
    ensures
        entries_map(entries).dom().finite(),
        entries_map(entries).len() == entries.len(),
    decreases entries.len(),
{
    if entries.len() == 0 {
        assert(entries_map(entries) =~= Map::empty());
    } else {
        let last = entries.len() - 1;
        let init = entries.remove(last);
        lemma_removed(entries, last);
        lemma_counted(init);
        lemma_lookup(entries, last);
        assert(entries_map(entries) =~= entries_map(init).insert(
            entries[last].name@,
            entries[last].option@,
        ));
    }
}

/// Options by name. Its view is the map from the names to the options; the
/// names are kept in ascending order, and in that order the options are
/// handed out.
#[derive(PartialEq)]
pub struct Config {
    options: Vec<Entry>,
}

impl Clone for Config {
    fn clone(&self) -> (r: Self)
        ensures
            r@ == self@,
    {
        proof {
            use_type_invariant(self);
        }
        let mut options: Vec<Entry> = Vec::new();
        let mut i: usize = 0;
        while i < self.options.len()
            invariant
                i <= self.options@.len(),
                options@.len() == i,
                forall|j: int|
                    0 <= j < i ==> options@[j].name@ == self.options@[j].name@ && options@[j].option@
                        == self.options@[j].option@,
            decreases self.options@.len() - i,
        {
            options.push(self.options[i].duplicate());
            i += 1;
        }
        proof {
            assert(entry_names(options@) =~= entry_names(self.options@));
            assert forall|name: Seq<char>| entries_map(options@).contains_key(name) implies entries_map(
                options@,
            )[name] == entries_map(self.options@)[name] by {
                let at = entry_names(options@).index_of(name);
                assert(entry_names(options@)[at] == name);
            }
            assert(entries_map(options@) =~= entries_map(self.options@));
        }
        Config { options }
    }
}

impl View for Config {
    type V = Map<Seq<char>, ConfigOptionModel>;

    closed spec fn view(&self) -> Map<Seq<char>, ConfigOptionModel> {
        entries_map(self.options@)
    }
}

impl Default for Config {
    fn default() -> (r: Self)
        ensures
            r@ == Map::<Seq<char>, ConfigOptionModel>::empty(),
    {
        let r = Config { options: Vec::new() };
        assert(r@ =~= Map::empty());
        r
    }
}

impl Config {
    #[verifier::type_invariant]
    spec fn in_order(self) -> bool {
        ascending(entry_names(self.options@))
    }

    /// The names of the options, in ascending order.
    pub closed spec fn names(&self) -> Seq<Seq<char>> {
        entry_names(self.options@)
    }

    /// Where the option of the given name stands, or would have to stand.
    fn find(&self, name: &str) -> (r: (usize, bool))
        ensures
            r.0 <= self.options@.len(),
            forall|i: int| 0 <= i < r.0 ==> precedes(self.options@[i].name@, name@),
            r.1 ==> r.0 < self.options@.len() && self.options@[r.0 as int].name@ == name@,
            !r.1 ==> forall|i: int| r.0 <= i < self.options@.len() ==> precedes(
                name@,
                self.options@[i].name@,
            ),
    {
        proof {
            use_type_invariant(self);
        }
        let mut i: usize = 0;
        while i < self.options.len()
            invariant
                i <= self.options@.len(),
                ascending(entry_names(self.options@)),
                forall|j: int| 0 <= j < i ==> precedes(self.options@[j].name@, name@),
            decreases self.options@.len() - i,
        {
            let current = self.options[i].name.as_str();
            if !text_precedes(current, name) {
                proof {
                    lemma_precedes_total(current@, name@);
                    if current@ != name@ {
                        assert forall|j: int| i <= j < self.options@.len() implies precedes(
                            name@,
                            self.options@[j].name@,
                        ) by {
                            if j > i {
                                assert(precedes(
                                    entry_names(self.options@)[i as int],
                                    entry_names(self.options@)[j],
                                ));
                                lemma_precedes_transitive(
                                    name@,
                                    current@,
                                    self.options@[j].name@,
                                );
                            }
                        }
                    }
                }
                return (i, !text_precedes(name, current));
            }
            i += 1;
        }
        (i, false)
    }

    /// The number of options.
    pub fn len(&self) -> (r: usize)
        ensures
            r == self@.len(),
    {
        proof {
            use_type_invariant(self);
            lemma_counted(self.options@);
        }
        self.options.len()
    }

    /// Whether there is no option.
    pub fn is_empty(&self) -> (r: bool)
        ensures
            r == (self@.len() == 0),
    {
        proof {
            use_type_invariant(self);
            lemma_counted(self.options@);
        }
        self.options.len() == 0
    }

    /// The options with their names, in the ascending order of the names:
    /// every option once.
    pub fn iter(&self) -> (r: Vec<(&String, &ConfigOption)>)
        ensures
            r@.len() == self.names().len(),
            forall|i: int|
                0 <= i < r@.len() ==> r@[i].0@ == self.names()[i] && r@[i].1@ == self@[self.names()[i]],
            ascending(self.names()),
            self.names().len() == self@.len(),
            forall|name: Seq<char>| self@.contains_key(name) <==> self.names().contains(name),
    {
        proof {
            use_type_invariant(self);
            lemma_counted(self.options@);
        }
        let mut r: Vec<(&String, &ConfigOption)> = Vec::new();
        let mut i: usize = 0;
        while i < self.options.len()
            invariant
                i <= self.options@.len(),
                r@.len() == i,
                ascending(entry_names(self.options@)),
                forall|j: int|
                    0 <= j < i ==> r@[j].0@ == self.names()[j] && r@[j].1@ == self@[self.names()[j]],
            decreases self.options@.len() - i,
        {
            proof {
                lemma_lookup(self.options@, i as int);
            }
            r.push((&self.options[i].name, &self.options[i].option));
            i += 1;
        }
        r
    }

    /// The option of the given name, if there is one.
    pub fn get(&self, name: &str) -> (r: Option<&ConfigOption>)
        ensures
            match r {
                Some(option) => self@.contains_key(name@) && option@ == self@[name@],
                None => !self@.contains_key(name@),
            },
    {
        proof {
            use_type_invariant(self);
        }
        let (at, found) = self.find(name);
        if found {
            proof {
                lemma_lookup(self.options@, at as int);
            }
            Some(&self.options[at].option)
        } else {
            proof {
                lemma_precedes_irreflexive(name@);
                lemma_absent(self.options@, name@);
            }
            None
        }
    }

    /// The configuration with the given value under the given name, in the
    /// place of what was under that name.
    pub fn with<T: ToConfig>(self, name: &str, value: T, display_options: &str) -> (r: Config)
        ensures
            r@ == self@.insert(
                name@,
                ConfigOptionModel { value: value.config_text(), display_options: display_options@ },
            ),
    {
        proof {
            use_type_invariant(&self);
        }
        let (at, found) = self.find(name);
        let entry = Entry {
            name: name.to_string(),
            option: ConfigOption::new(value.to_config(), display_options.to_string()),
        };
        let Config { options } = self;
        let mut options = options;
        let ghost before = options@;
        if found {
            options.set(at, entry);
            proof {
                lemma_replaced(before, at as int, entry);
            }
        } else {
            options.insert(at, entry);
            proof {
                assert forall|i: int, j: int| 0 <= i < j < options@.len() implies precedes(
                    entry_names(options@)[i],
                    entry_names(options@)[j],
                ) by {
                    let before_i = if i < at {
                        i
                    } else {
                        i - 1
                    };
                    let before_j = if j < at {
                        j
                    } else {
                        j - 1
                    };
                    if i != at && j != at {
                        assert(precedes(
                            entry_names(before)[before_i],
                            entry_names(before)[before_j],
                        ));
                    }
                }
                lemma_inserted(before, at as int, entry);
            }
        }
        Config { options }
    }

    /// Puts the given value under the given name, in the place of what was under that name.
    pub fn put<T: ToConfig>(&mut self, name: &str, value: T, display_options: &str)
        ensures
            final(self)@ == old(self)@.insert(
                name@,
                ConfigOptionModel { value: value.config_text(), display_options: display_options@ },
            ),
    {
        let mut current = Config::default();
        core::mem::swap(self, &mut current);
        *self = current.with(name, value, display_options);
    }

    /// The option of the given name, which is first set to the given value
    /// where there is none.
    pub fn get_or_default<T: ToConfig>(&mut self, name: &str, value: T, display_options: &str) -> (r:
        &ConfigOption)
        ensures
            final(self)@ == if old(self)@.contains_key(name@) {
                old(self)@
            } else {
                old(self)@.insert(
                    name@,
                    ConfigOptionModel {
                        value: value.config_text(),
                        display_options: display_options@,
                    },
                )
            },
            r@ == final(self)@[name@],
    {
        if self.get(name).is_none() {
            self.put(name, value, display_options);
        }
        self.get(name).unwrap()
    }

    /// The configuration without the option at the given place.
    fn without(self, at: usize) -> (r: Config)
        requires
            at < self.options@.len(),
        ensures
            r@ == self@.remove(self.options@[at as int].name@),
            r.options@ == self.options@.remove(at as int),
    {
        proof {
            use_type_invariant(&self);
            lemma_removed(self.options@, at as int);
        }
        let Config { options } = self;
        let mut options = options;
        options.remove(at);
        Config { options }
    }

    /// The configuration without the options of a sub-configuration, and how
    /// many those were.
    fn without_sub_config(self, prefix: &str) -> (r: (Config, u32))
        requires
            self.options@.len() <= u32::MAX,
        ensures
            r.0@ == self@.restrict(outside_sub_config(prefix@)),
            r.1 == self.options@.len() - r.0.options@.len(),
    {
        proof {
            use_type_invariant(&self);
        }
        let marker = concat2(prefix, ":");
        let Config { options } = self;
        let mut options = options;
        let ghost before = options@;
        let ghost outside = outside_sub_config(prefix@);
        let mut removed: u32 = 0;
        let mut i: usize = 0;
        proof {
            assert(entries_map(options@.take(0)) =~= entries_map(before.take(0)).restrict(outside));
        }
        while i < options.len()
            invariant
                i <= options@.len(),
                marker@ == sub_prefix(prefix@),
                outside == outside_sub_config(prefix@),
                before.len() <= u32::MAX,
                ascending(entry_names(before)),
                ascending(entry_names(options@)),
                i + removed <= before.len(),
                options@.len() + removed == before.len(),
                options@.skip(i as int) == before.skip(i + removed),
                entries_map(options@.take(i as int)) == entries_map(
                    before.take(i + removed),
                ).restrict(outside),
            decreases options@.len() - i,
        {
            let ghost current = options@;
            proof {
                assert(options@.skip(i as int)[0] == before.skip(i + removed)[0]);
                lemma_first_entries(before, i + removed);
                lemma_first_entries(current, i as int);
            }
            if strip_prefix(options[i].name.as_str(), marker.as_str()).is_some() {
                options.remove(i);
                proof {
                    lemma_removed(current, i as int);
                    assert(options@.take(i as int) =~= current.take(i as int));
                    assert(options@.skip(i as int) =~= current.skip(i as int).skip(1));
                    assert(before.skip(i + removed).skip(1) =~= before.skip(i + removed + 1));
                    assert(entries_map(before.take(i + removed + 1)).restrict(outside)
                        =~= entries_map(before.take(i + removed)).restrict(outside));
                }
                removed += 1;
            } else {
                proof {
                    assert(current.skip(i as int).skip(1) =~= current.skip(i + 1));
                    assert(before.skip(i + removed).skip(1) =~= before.skip(i + removed + 1));
                    assert(entries_map(before.take(i + removed + 1)).restrict(outside)
                        =~= entries_map(before.take(i + removed)).restrict(outside).insert(
                        current[i as int].name@,
                        current[i as int].option@,
                    ));
                }
                i += 1;
            }
        }
        proof {
            assert(options@.take(i as int) =~= options@);
            assert(before.take(i + removed) =~= before);
        }
        (Config { options }, removed)
    }

    /// Takes out the options of a sub-configuration, those whose names begin
    /// with the given prefix and a colon, and says how many they were.
    pub fn drop_sub_config(&mut self, prefix: &str) -> (removed_elements: u32)
        requires
            old(self)@.len() <= u32::MAX,
        ensures
            final(self)@ == old(self)@.restrict(outside_sub_config(prefix@)),
            removed_elements == old(self)@.len() - final(self)@.len(),
    {
        proof {
            use_type_invariant(&*self);
            lemma_counted(self.options@);
        }
        let mut current = Config::default();
        core::mem::swap(self, &mut current);
        let (remaining, removed_elements) = current.without_sub_config(prefix);
        proof {
            use_type_invariant(&remaining);
            lemma_counted(remaining.options@);
        }
        *self = remaining;
        removed_elements
    }

    /// The options of a sub-configuration, those whose names begin with the
    /// given prefix and a colon, under their names without that beginning.
    pub fn get_sub_config(&self, prefix: &str) -> (sub_config: Config)
        ensures
            sub_config@ == sub_config_of(self@, prefix@),
    {
        proof {
            use_type_invariant(self);
        }
        let marker = concat2(prefix, ":");
        let mut sub_config = Config::default();
        let mut i: usize = 0;
        proof {
            assert(sub_config@ =~= sub_config_of(entries_map(self.options@.take(0)), prefix@));
        }
        while i < self.options.len()
            invariant
                i <= self.options@.len(),
                marker@ == sub_prefix(prefix@),
                ascending(entry_names(self.options@)),
                sub_config@ == sub_config_of(entries_map(self.options@.take(i as int)), prefix@),
            decreases self.options@.len() - i,
        {
            let ghost seen = entries_map(self.options@.take(i as int));
            let ghost entry = self.options@[i as int];
            proof {
                lemma_first_entries(self.options@, i as int);
            }
            match strip_prefix(self.options[i].name.as_str(), marker.as_str()) {
                Some(entry_name) => {
                    let ghost found = sub_config@;
                    sub_config.put(
                        entry_name,
                        self.options[i].option.raw().clone(),
                        self.options[i].option.display_options().as_str(),
                    );
                    proof {
                        assert(marker@ + entry_name@ =~= entry.name@);
                        assert forall|name: Seq<char>| marker@ + name == entry.name@ implies name
                            == entry_name@ by {
                            assert((marker@ + name).skip(marker@.len() as int) =~= name);
                        }
                        assert(sub_config@ =~= sub_config_of(
                            seen.insert(entry.name@, entry.option@),
                            prefix@,
                        ));
                    }
                },
                None => {
                    proof {
                        assert forall|name: Seq<char>| marker@ + name != entry.name@ by {
                            assert((marker@ + name).subrange(0, marker@.len() as int) =~= marker@);
                        }
                        assert(sub_config@ =~= sub_config_of(
                            seen.insert(entry.name@, entry.option@),
                            prefix@,
                        ));
                    }
                },
            }
            i += 1;
        }
        proof {
            assert(self.options@.take(i as int) =~= self.options@);
        }
        sub_config
    }

    /// Puts in the options of another configuration as a sub-configuration:
    /// each under the given prefix, a colon and its name, in the place of
    /// what was under that name.
    pub fn put_sub_config(&mut self, other: &Config, prefix: &str)
        ensures
            final(self)@ == old(self)@.union_prefer_right(as_sub_config(other@, prefix@)),
    {
        proof {
            use_type_invariant(other);
        }
        let marker = concat2(prefix, ":");
        let mut i: usize = 0;
        proof {
            assert(self@ =~= self@.union_prefer_right(
                as_sub_config(entries_map(other.options@.take(0)), prefix@),
            ));
        }
        while i < other.options.len()
            invariant
                i <= other.options@.len(),
                marker@ == sub_prefix(prefix@),
                ascending(entry_names(other.options@)),
                self@ == old(self)@.union_prefer_right(
                    as_sub_config(entries_map(other.options@.take(i as int)), prefix@),
                ),
            decreases other.options@.len() - i,
        {
            let ghost seen = entries_map(other.options@.take(i as int));
            let ghost entry = other.options@[i as int];
            proof {
                lemma_first_entries(other.options@, i as int);
            }
            let entry_name = concat2(marker.as_str(), other.options[i].name.as_str());
            self.put(
                entry_name.as_str(),
                other.options[i].option.raw().as_str(),
                other.options[i].option.display_options().as_str(),
            );
            proof {
                assert(entry_name@.skip(marker@.len() as int) =~= entry.name@);
                assert(entry_name@.subrange(0, marker@.len() as int) =~= marker@);
                assert forall|name: Seq<char>|
                    in_sub_config(name, prefix@) && name.skip(marker@.len() as int)
                        == entry.name@ implies name == entry_name@ by {
                    assert(name =~= name.subrange(0, marker@.len() as int) + name.skip(
                        marker@.len() as int,
                    ));
                }
                assert(self@ =~= old(self)@.union_prefer_right(
                    as_sub_config(seen.insert(entry.name@, entry.option@), prefix@),
                ));
            }
            i += 1;
        }
        proof {
            assert(other.options@.take(i as int) =~= other.options@);
        }
    }

    /// Takes out the option of the given name and says whether there was one.
    pub fn drop_entry(&mut self, name: &str) -> (contains: bool)
        ensures
            contains == old(self)@.contains_key(name@),
            final(self)@ == old(self)@.remove(name@),
    {
        proof {
            use_type_invariant(&*self);
        }
        let (at, found) = self.find(name);
        if found {
            proof {
                lemma_lookup(self.options@, at as int);
            }
            let mut current = Config::default();
            core::mem::swap(self, &mut current);
            *self = current.without(at);
            true
        } else {
            proof {
                lemma_precedes_irreflexive(name@);
                lemma_absent(self.options@, name@);
                assert(self@ =~= self@.remove(name@));
            }
            false
        }
    }
}

} // verus!
