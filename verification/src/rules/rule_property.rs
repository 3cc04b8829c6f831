//! The properties that configure a rule: values by name.
use vstd::prelude::*;

verus! {

/// Where a resolver finds what a library depends on.
#[derive(Clone, Debug, PartialEq, Eq)]
pub enum ExternalDependencies {
    Service { service: String, path: String },
    RelativePath { relative_path: String },
}

/// The configuration of a resolver, by its type.
#[derive(Clone, Debug, PartialEq, Eq)]
pub enum ResolverConfiguration {
    RobloxLibrary { library_root: String, external_dependencies: ExternalDependencies },
}

/// The value of a property.
///
/// A floating-point number is held by the bits of its 64-bit form.
#[derive(Clone, Debug, PartialEq, Eq)]
pub enum RulePropertyValue {
    Bool(bool),
    String(String),
    Usize(usize),
    Float(u64),
    StringList(Vec<String>),
    Resolver(ResolverConfiguration),
    /// No value.
    Nothing,
}

/// What a value is, whatever memory holds it.
pub ghost enum PropertyData {
    Bool(bool),
    String(Seq<char>),
    Usize(usize),
    Float(u64),
    StringList(Seq<Seq<char>>),
    /// The type of the resolver, by a number, and its paths and names.
    Resolver(nat, Seq<Seq<char>>),
    Nothing,
}

impl View for ExternalDependencies {
    type V = (nat, Seq<Seq<char>>);

    open spec fn view(&self) -> (nat, Seq<Seq<char>>) {
        match self {
            ExternalDependencies::Service { service, path } => (0, seq![service@, path@]),
            ExternalDependencies::RelativePath { relative_path } => (1, seq![relative_path@]),
        }
    }
}

impl ExternalDependencies {
    /// The same dependencies once more.
    pub fn duplicate(&self) -> (copy: Self)
        ensures
            copy@ == self@,
    {
        match self {
            ExternalDependencies::Service { service, path } => ExternalDependencies::Service {
                service: service.clone(),
                path: path.clone(),
            },
            ExternalDependencies::RelativePath { relative_path } => ExternalDependencies::RelativePath {
                relative_path: relative_path.clone(),
            },
        }
    }
}

impl View for ResolverConfiguration {
    type V = PropertyData;

    open spec fn view(&self) -> PropertyData {
        match self {
            ResolverConfiguration::RobloxLibrary { library_root, external_dependencies } => PropertyData::Resolver(
                external_dependencies@.0,
                seq![library_root@] + external_dependencies@.1,
            ),
        }
    }
}

impl ResolverConfiguration {
    /// The same configuration once more.
    pub fn duplicate(&self) -> (copy: Self)
        ensures
            copy@ == self@,
    {
        match self {
            ResolverConfiguration::RobloxLibrary { library_root, external_dependencies } => ResolverConfiguration::RobloxLibrary {
                library_root: library_root.clone(),
                external_dependencies: external_dependencies.duplicate(),
            },
        }
    }
}

impl View for RulePropertyValue {
    type V = PropertyData;

    open spec fn view(&self) -> PropertyData {
        match self {
            RulePropertyValue::Bool(value) => PropertyData::Bool(*value),
            RulePropertyValue::String(value) => PropertyData::String(value@),
            RulePropertyValue::Usize(value) => PropertyData::Usize(*value),
            RulePropertyValue::Float(bits) => PropertyData::Float(*bits),
            RulePropertyValue::StringList(list) => PropertyData::StringList(list@.map_values(|text: String| text@)),
            RulePropertyValue::Resolver(resolver) => resolver@,
            RulePropertyValue::Nothing => PropertyData::Nothing,
        }
    }
}

/// The same strings once more.
pub fn duplicate_strings(list: &Vec<String>) -> (copy: Vec<String>)
    ensures
        copy@ == list@,
{
    let mut copy: Vec<String> = Vec::new();
    let mut i: usize = 0;
    while i < list.len()
        invariant
            i <= list@.len(),
            copy@ == list@.take(i as int),
        decreases list@.len() - i,
    {
        copy.push(list[i].clone());
        assert(list@.take(i + 1) =~= list@.take(i as int).push(list@[i as int]));
        i += 1;
    }
    assert(list@.take(list@.len() as int) =~= list@);
    copy
}

impl RulePropertyValue {
    /// The same value once more.
    pub fn duplicate(&self) -> (copy: Self)
        ensures
            copy@ == self@,
    {
        match self {
            RulePropertyValue::Bool(value) => RulePropertyValue::Bool(*value),
            RulePropertyValue::String(value) => RulePropertyValue::String(value.clone()),
            RulePropertyValue::Usize(value) => RulePropertyValue::Usize(*value),
            RulePropertyValue::Float(bits) => RulePropertyValue::Float(*bits),
            RulePropertyValue::StringList(list) => RulePropertyValue::StringList(duplicate_strings(list)),
            RulePropertyValue::Resolver(resolver) => RulePropertyValue::Resolver(resolver.duplicate()),
            RulePropertyValue::Nothing => RulePropertyValue::Nothing,
        }
    }
}

/// What entries are, whatever memory holds them: each name with what its value is.
pub open spec fn entries_data(entries: Seq<(String, RulePropertyValue)>) -> Seq<(Seq<char>, PropertyData)> {
    entries.map_values(|entry: (String, RulePropertyValue)| (entry.0@, entry.1@))
}

/// The place of the property named `key` among `entries`: the first entry of that name.
pub open spec fn position(entries: Seq<(String, RulePropertyValue)>, key: Seq<char>) -> Option<int> {
    if exists|i: int| 0 <= i < entries.len() && (#[trigger] entries[i]).0@ == key {
        Some(choose|i: int| 0 <= i < entries.len() && (#[trigger] entries[i]).0@ == key)
    } else {
        None
    }
}

/// No two entries have the same name.
pub open spec fn distinct_names(entries: Seq<(String, RulePropertyValue)>) -> bool {
    forall|i: int, j: int|
        0 <= i < j < entries.len() ==> (#[trigger] entries[i]).0@ != (#[trigger] entries[j]).0@
}

/// Properties by name. A name has at most one value.
#[derive(Debug, PartialEq, Eq)]
pub struct RuleProperties {
    entries: Vec<(String, RulePropertyValue)>,
}

impl RuleProperties {
    #[verifier::type_invariant]
    spec fn names_are_distinct(self) -> bool {
        distinct_names(self.entries@)
    }

    /// The properties, each with its name, in the order in which they came.
    pub closed spec fn entries(self) -> Seq<(String, RulePropertyValue)> {
        self.entries@
    }

    /// The value of the property named `key`, if there is one.
    pub open spec fn value_of(self, key: Seq<char>) -> Option<RulePropertyValue> {
        match position(self.entries(), key) {
            Some(i) => Some(self.entries()[i].1),
            None => None,
        }
    }

    /// No property.
    pub fn new() -> (properties: Self)
        ensures
            properties.entries().len() == 0,
    {
        Self { entries: Vec::new() }
    }

    pub fn len(&self) -> (count: usize)
        ensures
            count == self.entries().len(),
    {
        self.entries.len()
    }

    pub fn is_empty(&self) -> (empty: bool)
        ensures
            empty == (self.entries().len() == 0),
    {
        self.entries.len() == 0
    }

    /// Where the property named `key` stands.
    fn find(&self, key: &str) -> (found: Option<usize>)
        ensures
            match found {
                Some(i) => i < self.entries@.len() && self.entries@[i as int].0@ == key@ && position(
                    self.entries@,
                    key@,
                ) == Some(i as int),
                None => position(self.entries@, key@) is None,
            },
    {
        proof {
            use_type_invariant(self);
        }
        let wanted = key.to_owned();
        let mut i: usize = 0;
        while i < self.entries.len()
            invariant
                i <= self.entries@.len(),
                wanted@ == key@,
                distinct_names(self.entries@),
                forall|k: int| 0 <= k < i ==> (#[trigger] self.entries@[k]).0@ != key@,
            decreases self.entries@.len() - i,
        {
            if self.entries[i].0 == wanted {
                proof {
                    let at = choose|k: int| 0 <= k < self.entries@.len() && (#[trigger] self.entries@[k]).0@ == key@;
                    assert(at == i) by {
                        if at < i {
                            assert(self.entries@[at].0@ != key@);
                        } else if at > i {
                            assert(self.entries@[i as int].0@ != self.entries@[at].0@);
                        }
                    }
                }
                return Some(i);
            }
            i += 1;
        }
        None
    }

    /// The value of the property named `key`, if there is one.
    pub fn get(&self, key: &str) -> (value: Option<&RulePropertyValue>)
        ensures
            match self.value_of(key@) {
                Some(held) => value == Some(&held),
                None => value is None,
            },
    {
        match self.find(key) {
            Some(i) => Some(&self.entries[i].1),
            None => None,
        }
    }

    pub fn contains_key(&self, key: &str) -> (contains: bool)
        ensures
            contains == self.value_of(key@).is_some(),
    {
        self.find(key).is_some()
    }

    /// Gives the property named `key` the value `value`, and hands back the
    /// value that it had, if it had one. A property that is new comes last.
    pub fn insert(&mut self, key: String, value: RulePropertyValue) -> (previous: Option<RulePropertyValue>)
        ensures
            previous == old(self).value_of(key@),
            match position(old(self).entries(), key@) {
                Some(i) => final(self).entries() == old(self).entries().update(i, (old(self).entries()[i].0, value)),
                None => final(self).entries() == old(self).entries().push((key, value)),
            },
            final(self).value_of(key@) == Some(value),
            forall|other: Seq<char>| other != key@ ==> final(self).value_of(other) == old(self).value_of(other),
    {
        proof {
            use_type_invariant(&*self);
        }
        let ghost before = self.entries@;
        let found = self.find(key.as_str());
        let mut taken = RuleProperties::new();
        std::mem::swap(self, &mut taken);
        let mut entries = taken.entries;
        let previous = match found {
            Some(i) => {
                let mut given = value;
                std::mem::swap(&mut entries[i].1, &mut given);
                proof {
                    let after = entries@;
                    assert(after =~= before.update(i as int, (before[i as int].0, value)));
                    assert forall|k: int| 0 <= k < after.len() implies (#[trigger] after[k]).0@ == before[k].0@ by {}
                    lemma_same_names(before, after);
                }
                Some(given)
            },
            None => {
                entries.push((key, value));
                proof {
                    let after = entries@;
                    assert forall|a: int, b: int| 0 <= a < b < after.len() implies (#[trigger] after[a]).0@ != (
                    #[trigger] after[b]).0@ by {
                        if b == before.len() {
                            assert(before[a].0@ != key@);
                        } else {
                            assert(before[a].0@ != before[b].0@);
                        }
                    }
                    lemma_pushed(before, key, value);
                }
                None
            },
        };
        *self = RuleProperties { entries };
        previous
    }

    /// The property at a place, with its name.
    pub fn entry_at(&self, index: usize) -> (entry: (&String, &RulePropertyValue))
        requires
            index < self.entries().len(),
        ensures
            *entry.0 == self.entries()[index as int].0,
            *entry.1 == self.entries()[index as int].1,
    {
        (&self.entries[index].0, &self.entries[index].1)
    }

    /// The name of the property that came first, if there is a property.
    pub fn first_key(&self) -> (key: Option<&String>)
        ensures
            match key {
                Some(key) => self.entries().len() > 0 && *key == self.entries()[0].0,
                None => self.entries().len() == 0,
            },
    {
        if self.entries.len() > 0 {
            Some(&self.entries[0].0)
        } else {
            None
        }
    }

    /// The same properties once more.
    pub fn duplicate(&self) -> (copy: Self)
        ensures
            entries_data(copy.entries()) == entries_data(self.entries()),
    {
        proof {
            use_type_invariant(self);
        }
        let mut entries: Vec<(String, RulePropertyValue)> = Vec::new();
        let mut i: usize = 0;
        while i < self.entries.len()
            invariant
                i <= self.entries@.len(),
                entries_data(entries@) == entries_data(self.entries@.take(i as int)),
            decreases self.entries@.len() - i,
        {
            let ghost before = entries@;
            entries.push((self.entries[i].0.clone(), self.entries[i].1.duplicate()));
            proof {
                let given = self.entries@;
                assert(given.take(i + 1) =~= given.take(i as int).push(given[i as int]));
                assert(entries_data(entries@) =~= entries_data(before).push(
                    (given[i as int].0@, given[i as int].1@),
                ));
                assert(entries_data(given.take(i + 1)) =~= entries_data(given.take(i as int)).push(
                    (given[i as int].0@, given[i as int].1@),
                ));
            }
            i += 1;
        }
        proof {
            assert(self.entries@.take(self.entries@.len() as int) =~= self.entries@);
            let data = entries_data(entries@);
            assert forall|a: int, b: int| 0 <= a < b < entries@.len() implies (#[trigger] entries@[a]).0@ != (
            #[trigger] entries@[b]).0@ by {
                assert(data[a] == entries_data(self.entries@)[a]);
                assert(data[b] == entries_data(self.entries@)[b]);
                assert(self.entries@[a].0@ != self.entries@[b].0@);
            }
        }
        RuleProperties { entries }
    }

    /// The properties, each with its name, given away in the order in which they came.
    pub fn into_entries(self) -> (entries: Vec<(String, RulePropertyValue)>)
        ensures
            entries@ == self.entries(),
            distinct_names(entries@),
    {
        proof {
            use_type_invariant(&self);
        }
        self.entries
    }
}

/// Entries with the same names in the same places hold each name at the same place.
pub proof fn lemma_same_names(before: Seq<(String, RulePropertyValue)>, after: Seq<(String, RulePropertyValue)>)
    requires
        before.len() == after.len(),
        forall|k: int| 0 <= k < after.len() ==> (#[trigger] after[k]).0@ == before[k].0@,
        distinct_names(before),
    ensures
        distinct_names(after),
        forall|key: Seq<char>| position(after, key) == position(before, key),
{
    assert forall|a: int, b: int| 0 <= a < b < after.len() implies (#[trigger] after[a]).0@ != (#[trigger] after[b]).0@ by {
        assert(before[a].0@ != before[b].0@);
    }
    assert forall|key: Seq<char>| position(after, key) == position(before, key) by {
        if exists|i: int| 0 <= i < before.len() && (#[trigger] before[i]).0@ == key {
            let i = choose|i: int| 0 <= i < before.len() && (#[trigger] before[i]).0@ == key;
            assert(after[i].0@ == key);
            let j = choose|j: int| 0 <= j < after.len() && (#[trigger] after[j]).0@ == key;
            if i < j {
                assert(after[i].0@ != after[j].0@);
            } else if j < i {
                assert(after[j].0@ != after[i].0@);
            }
        } else {
            if exists|j: int| 0 <= j < after.len() && (#[trigger] after[j]).0@ == key {
                let j = choose|j: int| 0 <= j < after.len() && (#[trigger] after[j]).0@ == key;
                assert(before[j].0@ == key);
            }
        }
    }
}

/// An entry with a new name, put last, is found at the last place, and the others where they were.
pub proof fn lemma_pushed(before: Seq<(String, RulePropertyValue)>, key: String, value: RulePropertyValue)
    requires
        distinct_names(before),
        position(before, key@) is None,
    ensures
        position(before.push((key, value)), key@) == Some(before.len() as int),
        forall|other: Seq<char>| other != key@ ==> position(before.push((key, value)), other) == position(before, other),
{
    let after = before.push((key, value));
    assert(after[before.len() as int].0@ == key@);
    let at = choose|i: int| 0 <= i < after.len() && (#[trigger] after[i]).0@ == key@;
    if at < before.len() {
        assert(before[at].0@ == key@);
    }
    assert forall|other: Seq<char>| other != key@ implies position(after, other) == position(before, other) by {
        if exists|i: int| 0 <= i < before.len() && (#[trigger] before[i]).0@ == other {
            let i = choose|i: int| 0 <= i < before.len() && (#[trigger] before[i]).0@ == other;
            assert(after[i].0@ == other);
            let j = choose|j: int| 0 <= j < after.len() && (#[trigger] after[j]).0@ == other;
            assert(j < before.len());
            assert(before[j].0@ == other);
            if i < j {
                assert(before[i].0@ != before[j].0@);
            } else if j < i {
                assert(before[j].0@ != before[i].0@);
            }
        } else {
            if exists|j: int| 0 <= j < after.len() && (#[trigger] after[j]).0@ == other {
                let j = choose|j: int| 0 <= j < after.len() && (#[trigger] after[j]).0@ == other;
                assert(j < before.len());
                assert(before[j].0@ == other);
            }
        }
    }
}

impl Default for RuleProperties {
    fn default() -> (properties: Self)
        ensures
            properties.entries().len() == 0,
    {
        Self::new()
    }
}

} // verus!
