//! The registry of fields with their rules, and the record of one evaluation.
use crate::check::{
    outcomes_of, resolve, uniform, CheckError, Checker, Flatten, FlattenError, IntoFlat,
};
use crate::notice::{Notice, NoticeView};
use crate::value::{Value, ValueKind, ValueView};
use vstd::prelude::*;
use vstd::std_specs::cmp::PartialEqSpecImpl;

verus! {

/// The record of one evaluation: the field, the value that was evaluated, and
/// what the rules of the field came to.
#[derive(Debug)]
pub struct Commit {
    key: String,
    value: Value,
    notice: Notice,
}

/// What a [`Commit`] is to a contract.
pub struct CommitView {
    pub key: Seq<char>,
    pub value: ValueView,
    pub notice: NoticeView,
}

impl View for Commit {
    type V = CommitView;

    closed spec fn view(&self) -> CommitView {
        CommitView { key: self.key@, value: self.value@, notice: self.notice@ }
    }
}

impl PartialEqSpecImpl for Commit {
    open spec fn obeys_eq_spec() -> bool {
        true
    }

    open spec fn eq_spec(&self, other: &Commit) -> bool {
        self@ == other@
    }
}

impl PartialEq for Commit {
    /// Two records are equal where field, value and outcome are.
    fn eq(&self, other: &Commit) -> (r: bool) {
        self.key == other.key && self.value == other.value && self.notice == other.notice
    }
}

impl Eq for Commit {}

impl Commit {
    /// The name of the field.
    pub fn key(&self) -> (r: &String)
        ensures
            r@ == self@.key,
    {
        &self.key
    }

    /// The value that was evaluated.
    pub fn value(&self) -> (r: &Value)
        ensures
            r@ == self@.value,
    {
        &self.value
    }

    /// What the rules of the field came to.
    pub fn notice(&self) -> (r: &Notice)
        ensures
            r@ == self@.notice,
    {
        &self.notice
    }
}

/// The result of a commit as contracts see it.
pub open spec fn commit_view(r: Result<Option<Commit>, CheckError>) -> Result<
    Option<CommitView>,
    CheckError,
> {
    match r {
        Ok(Some(commit)) => Ok(Some(commit@)),
        Ok(None) => Ok(None),
        Err(e) => Err(e),
    }
}

/// The list names every field of `fields` once, each with its signature, and
/// nothing else.
pub open spec fn lists_fields(
    items: Seq<(String, Vec<ValueKind>)>,
    fields: Map<Seq<char>, Seq<ValueKind>>,
) -> bool {
    &&& forall|i: int|
        0 <= i < items.len() ==> fields.contains_key((#[trigger] items[i]).0@) && fields[items[i].0@]
            == items[i].1@
    &&& forall|i: int, j: int|
        0 <= i < j < items.len() ==> (#[trigger] items[i]).0@ != (#[trigger] items[j]).0@
    &&& forall|key: Seq<char>| #[trigger]
        fields.contains_key(key) ==> exists|i: int|
            0 <= i < items.len() && (#[trigger] items[i]).0@ == key
}

/// A set of fields, each with the rules that a value for it has to face.
pub trait CheckList {
    /// The signature of each registered field, by the field's name.
    spec fn fields(&self) -> Map<Seq<char>, Seq<ValueKind>>;

    /// What the rules of the registered field `key` come to on `value`.
    spec fn verdict(&self, key: Seq<char>, value: ValueView) -> Result<NoticeView, CheckError>;

    /// Evaluates `value` for the field `key`. A name that is not registered
    /// gives `None`: no failure and no record. A registered one gives the
    /// record of the evaluation, or the failure of its rules.
    fn commit(&self, key: &str, value: Value) -> (r: Result<Option<Commit>, CheckError>)
        ensures
            commit_view(r) == if self.fields().contains_key(key@) {
                match self.verdict(key@, value@) {
                    Ok(notice) => Ok(Some(CommitView { key: key@, value: value@, notice })),
                    Err(e) => Err(e),
                }
            } else {
                Ok(None)
            },
    ;

    /// Every registered field with its signature.
    fn items(&self) -> (r: Vec<(String, Vec<ValueKind>)>)
        ensures
            lists_fields(r@, self.fields()),
    ;
}

/// The names of the entries, in order.
pub open spec fn names_of<V>(entries: Seq<(String, V)>) -> Seq<Seq<char>> {
    Seq::new(entries.len(), |i: int| entries[i].0@)
}

/// The first entry under the name `key`, if there is one.
fn position<V>(entries: &Vec<(String, V)>, key: &str) -> (r: Option<usize>)
    ensures
        match r {
            Some(j) => j < entries.len() && names_of(entries@)[j as int] == key@,
            None => !names_of(entries@).contains(key@),
        },
{
    let wanted = key.to_owned();
    let mut i: usize = 0;
    while i < entries.len()
        invariant
            i <= entries.len(),
            wanted@ == key@,
            forall|j: int| 0 <= j < i ==> #[trigger] names_of(entries@)[j] != key@,
        decreases entries.len() - i,
    {
        if entries[i].0 == wanted {
            return Some(i);
        }
        i = i + 1;
    }
    None
}

/// The fields of a rule set, each with its merged rule, in the order in which
/// the names first occurred. No name occurs twice.
pub struct Registry<T: Checker> {
    entries: Vec<(String, Flatten<T>)>,
}

impl<T: Checker> Registry<T> {
    /// The names of the fields, in the order in which they first occurred.
    pub closed spec fn names(&self) -> Seq<Seq<char>> {
        names_of(self.entries@)
    }

    /// The merged rules of the fields, in the order of the names.
    pub closed spec fn composers(&self) -> Seq<Flatten<T>> {
        Seq::new(self.entries@.len(), |i: int| self.entries@[i].1)
    }

    /// Every name has its merged rule, and no name occurs twice.
    pub open spec fn well_formed(&self) -> bool {
        &&& self.names().len() == self.composers().len()
        &&& self.names().no_duplicates()
    }

    /// The merged rule of the field `key`, where `key` is registered.
    pub open spec fn composer(&self, key: Seq<char>) -> Flatten<T> {
        self.composers()[self.names().index_of(key)]
    }

    #[verifier::type_invariant]
    spec fn inv(self) -> bool {
        self.well_formed()
    }

    /// Merges the rules of each group into one.
    fn compose(groups: Vec<(String, Vec<T>)>, Ghost(pairs): Ghost<Seq<(String, T)>>) -> (r: Result<
        Registry<T>,
        FlattenError,
    >)
        requires
            names_of(groups@) == field_names(pairs),
            forall|j: int|
                0 <= j < groups.len() ==> (#[trigger] groups[j]).1@ == rules_for(
                    pairs,
                    groups[j].0@,
                ),
        ensures
            r is Ok <==> mergeable(pairs),
            r matches Ok(list) ==> {
                &&& list.well_formed()
                &&& list.names() == field_names(pairs)
                &&& forall|j: int|
                    0 <= j < list.composers().len() ==> (#[trigger] list.composers()[j]).members()
                        == rules_for(pairs, list.names()[j])
            },
    {
        let ghost all = groups@;
        let mut entries: Vec<(String, Flatten<T>)> = Vec::new();
        for group in it: groups
            invariant
                it.seq() == all,
                names_of(all) == field_names(pairs),
                forall|j: int|
                    0 <= j < all.len() ==> (#[trigger] all[j]).1@ == rules_for(pairs, all[j].0@),
                entries.len() == it.index(),
                forall|j: int| 0 <= j < it.index() ==> (#[trigger] entries[j]).0@ == all[j].0@,
                forall|j: int|
                    0 <= j < it.index() ==> (#[trigger] entries[j]).1.members() == all[j].1@,
                forall|j: int| 0 <= j < it.index() ==> uniform((#[trigger] all[j]).1@),
        {
            let ghost k = it.index();
            assert(group == all[k]);
            let (name, rules) = group;
            match rules.into_flat() {
                Err(e) => {
                    assert(!uniform(rules_for(pairs, name@))) by {
                        assert(names_of(all)[k] == name@);
                        lemma_field_names(pairs, name@);
                    }
                    return Err(e);
                },
                Ok(flat) => {
                    entries.push((name, flat));
                },
            }
        }
        proof {
            assert(names_of(entries@) =~= field_names(pairs));
            assert forall|key: Seq<char>| uniform(#[trigger] rules_for(pairs, key)) by {
                lemma_field_names(pairs, key);
                if field_names(pairs).contains(key) {
                    let j = choose|j: int| 0 <= j < all.len() && names_of(all)[j] == key;
                    assert(all[j].1@ == rules_for(pairs, key));
                }
            }
            lemma_field_names(pairs, Seq::empty());
        }
        Ok(Registry { entries })
    }
}

impl<T: Checker> CheckList for Registry<T> {
    open spec fn fields(&self) -> Map<Seq<char>, Seq<ValueKind>> {
        Map::new(
            |key: Seq<char>| self.names().contains(key),
            |key: Seq<char>| self.composer(key).signature(),
        )
    }

    open spec fn verdict(&self, key: Seq<char>, value: ValueView) -> Result<
        NoticeView,
        CheckError,
    > {
        self.composer(key).outcome(value)
    }

    fn commit(&self, key: &str, value: Value) -> (r: Result<Option<Commit>, CheckError>) {
        proof {
            use_type_invariant(self);
        }
        match position(&self.entries, key) {
            None => Ok(None),
            Some(j) => {
                assert(self.names()[j as int] == key@);
                assert(self.names().index_of(key@) == j);
                let notice = self.entries[j].1.check(&value)?;
                Ok(Some(Commit { key: key.to_owned(), value, notice }))
            },
        }
    }

    /// Every registered field with its signature, in the order in which the
    /// names first occurred.
    fn items(&self) -> (r: Vec<(String, Vec<ValueKind>)>)
        ensures
            names_of(r@) == self.names(),
    {
        proof {
            use_type_invariant(self);
        }
        let mut list: Vec<(String, Vec<ValueKind>)> = Vec::new();
        let mut i: usize = 0;
        while i < self.entries.len()
            invariant
                i <= self.entries.len(),
                list.len() == i,
                self.well_formed(),
                self.names() == names_of(self.entries@),
                self.composers() == Seq::new(self.entries@.len(), |i: int| self.entries@[i].1),
                forall|j: int| 0 <= j < i ==> (#[trigger] list[j]).0@ == self.names()[j],
                forall|j: int|
                    0 <= j < i ==> (#[trigger] list[j]).1@ == self.composers()[j].signature(),
            decreases self.entries.len() - i,
        {
            let name = self.entries[i].0.clone();
            let signature = self.entries[i].1.expecting();
            list.push((name, signature));
            i = i + 1;
        }
        proof {
            assert(names_of(list@) =~= self.names());
            assert forall|j: int| 0 <= j < list.len() implies self.fields().contains_key(
                (#[trigger] list@[j]).0@,
            ) && self.fields()[list@[j].0@] == list@[j].1@ by {
                assert(self.names()[j] == list@[j].0@);
                assert(self.names().index_of(list@[j].0@) == j);
            }
            assert forall|key: Seq<char>| #[trigger] self.fields().contains_key(key) implies exists|
                j: int,
            |
                0 <= j < list.len() && (#[trigger] list@[j]).0@ == key by {
                let j = self.names().index_of(key);
                assert(list@[j].0@ == key);
            }
            assert forall|a: int, b: int| 0 <= a < b < list.len() implies (#[trigger] list@[a]).0@ != (
            #[trigger] list@[b]).0@ by {
                assert(self.names()[a] != self.names()[b]);
            }
        }
        list
    }
}

/// The rules that the pairs give for the field `key`, in the order of the
/// pairs.
pub open spec fn rules_for<T>(pairs: Seq<(String, T)>, key: Seq<char>) -> Seq<T>
    decreases pairs.len(),
{
    if pairs.len() == 0 {
        Seq::empty()
    } else if pairs.last().0@ == key {
        rules_for(pairs.drop_last(), key).push(pairs.last().1)
    } else {
        rules_for(pairs.drop_last(), key)
    }
}

/// The names of the fields that the pairs speak of, each once, in the order
/// in which they first occur.
pub open spec fn field_names<T>(pairs: Seq<(String, T)>) -> Seq<Seq<char>>
    decreases pairs.len(),
{
    if pairs.len() == 0 {
        Seq::empty()
    } else if field_names(pairs.drop_last()).contains(pairs.last().0@) {
        field_names(pairs.drop_last())
    } else {
        field_names(pairs.drop_last()).push(pairs.last().0@)
    }
}

/// The rules of every field share one signature.
pub open spec fn mergeable<T: Checker>(pairs: Seq<(String, T)>) -> bool {
    forall|key: Seq<char>| uniform(#[trigger] rules_for(pairs, key))
}

/// A field has rules exactly where its name is among the field names, and no
/// field name occurs twice.
pub proof fn lemma_field_names<T>(pairs: Seq<(String, T)>, key: Seq<char>)
    ensures
        field_names(pairs).contains(key) <==> rules_for(pairs, key).len() > 0,
        field_names(pairs).contains(key) <==> exists|i: int|
            0 <= i < pairs.len() && (#[trigger] pairs[i]).0@ == key,
        field_names(pairs).no_duplicates(),
    decreases pairs.len(),
{
    if pairs.len() > 0 {
        let front = pairs.drop_last();
        let last = pairs.last();
        lemma_field_names(front, key);
        lemma_field_names(front, last.0@);
        let before = field_names(front);
        if before.contains(last.0@) {
        } else {
            let after = before.push(last.0@);
            assert(after[before.len() as int] == last.0@);
            assert forall|i: int| 0 <= i < before.len() implies after[i] == before[i] by {}
            if before.contains(key) {
                let i = choose|i: int| 0 <= i < before.len() && before[i] == key;
                assert(after[i] == key);
            }
        }
        if exists|i: int| 0 <= i < front.len() && (#[trigger] front[i]).0@ == key {
            let i = choose|i: int| 0 <= i < front.len() && (#[trigger] front[i]).0@ == key;
            assert(pairs[i] == front[i]);
        }
        if exists|i: int| 0 <= i < pairs.len() && (#[trigger] pairs[i]).0@ == key {
            let i = choose|i: int| 0 <= i < pairs.len() && (#[trigger] pairs[i]).0@ == key;
            if i < front.len() {
                assert(front[i] == pairs[i]);
            }
        }
    }
}

/// The fields of a rule set are exactly the names that its pairs give: a name
/// is a field where some pair carries that very name, and nowhere else.
pub proof fn lemma_fields_are_the_names_given<T: Checker>(pairs: Vec<(String, T)>, key: Seq<char>)
    ensures
        pairs.fields().contains_key(key) <==> exists|i: int|
            0 <= i < pairs.len() && (#[trigger] pairs@[i]).0@ == key,
{
    lemma_field_names(pairs@, key);
}

/// What can be made into a registry of fields.
pub trait IntoCheckList: Sized {
    /// The registry that it is made into.
    type List: CheckList;

    /// Whether a registry can be made: the rules of each field agree on their
    /// signature.
    spec fn consistent(&self) -> bool;

    /// The signature of each field, by the field's name.
    spec fn fields(&self) -> Map<Seq<char>, Seq<ValueKind>>;

    /// What the rules given for the field `key` come to on `value`.
    spec fn verdict(&self, key: Seq<char>, value: ValueView) -> Result<NoticeView, CheckError>;

    /// Groups the rules by field and merges those of each field into one.
    /// Fails where the rules of some field disagree on their signature.
    fn into_checklist(self) -> (r: Result<Self::List, FlattenError>)
        ensures
            r is Ok <==> self.consistent(),
            r matches Ok(list) ==> {
                &&& list.fields() == self.fields()
                &&& forall|key: Seq<char>, value: ValueView|
                    self.fields().contains_key(key) ==> #[trigger] list.verdict(key, value)
                        == self.verdict(key, value)
            },
    ;
}

/// Adds one rule to the groups so far: to the group of its field, or as the
/// first rule of a new group behind the others.
fn file_rule<T>(groups: &mut Vec<(String, Vec<T>)>, name: String, rule: T)
    requires
        names_of(old(groups)@).no_duplicates(),
    ensures
        names_of(final(groups)@).no_duplicates(),
        names_of(old(groups)@).contains(name@) ==> names_of(final(groups)@) == names_of(
            old(groups)@,
        ),
        !names_of(old(groups)@).contains(name@) ==> {
            &&& names_of(final(groups)@) == names_of(old(groups)@).push(name@)
            &&& final(groups).len() == old(groups).len() + 1
            &&& final(groups)[old(groups).len() as int].1@ == seq![rule]
        },
        final(groups).len() >= old(groups).len(),
        forall|j: int|
            0 <= j < old(groups).len() ==> (#[trigger] final(groups)[j]).1@ == if old(groups)[j].0@
                == name@ {
                old(groups)[j].1@.push(rule)
            } else {
                old(groups)[j].1@
            },
{
    let ghost before = groups@;
    match position(groups, name.as_str()) {
        Some(j) => {
            groups[j].1.push(rule);
            assert(names_of(groups@) =~= names_of(before));
            assert forall|i: int| 0 <= i < before.len() implies (#[trigger] groups[i]).1@ == if before[i].0@
                == name@ {
                before[i].1@.push(rule)
            } else {
                before[i].1@
            } by {
                if i != j {
                    assert(names_of(before)[i] != names_of(before)[j as int]);
                }
            }
        },
        None => {
            let mut rules: Vec<T> = Vec::new();
            rules.push(rule);
            groups.push((name, rules));
            assert(names_of(groups@) =~= names_of(before).push(name@));
            assert(groups[before.len() as int].1@ =~= seq![rule]);
            assert forall|i: int| 0 <= i < before.len() implies (#[trigger] groups[i]).1@
                == before[i].1@ && before[i].0@ != name@ by {
                assert(names_of(before)[i] != name@);
            }
        },
    }
}

impl<T: Checker> IntoCheckList for Vec<(String, T)> {
    type List = Registry<T>;

    open spec fn consistent(&self) -> bool {
        mergeable(self@)
    }

    open spec fn fields(&self) -> Map<Seq<char>, Seq<ValueKind>> {
        Map::new(
            |key: Seq<char>| field_names(self@).contains(key),
            |key: Seq<char>| rules_for(self@, key)[0].signature(),
        )
    }

    open spec fn verdict(&self, key: Seq<char>, value: ValueView) -> Result<
        NoticeView,
        CheckError,
    > {
        resolve(outcomes_of(rules_for(self@, key), value))
    }

    /// The registry names the fields in the order in which they first occur,
    /// and the merged rule of each field holds the field's rules in the order
    /// in which they were given.
    fn into_checklist(self) -> (r: Result<Registry<T>, FlattenError>)
        ensures
            r matches Ok(list) ==> {
                &&& list.well_formed()
                &&& list.names() == field_names(self@)
                &&& forall|key: Seq<char>|
                    field_names(self@).contains(key) ==> (#[trigger] list.composer(key)).members()
                        == rules_for(self@, key)
            },
    {
        let ghost pairs = self@;
        let mut groups: Vec<(String, Vec<T>)> = Vec::new();
        for pair in it: self
            invariant
                it.seq() == pairs,
                names_of(groups@) == field_names(pairs.take(it.index())),
                names_of(groups@).no_duplicates(),
                forall|j: int|
                    0 <= j < groups.len() ==> (#[trigger] groups[j]).1@ == rules_for(
                        pairs.take(it.index()),
                        groups[j].0@,
                    ),
        {
            let ghost seen = pairs.take(it.index());
            let ghost next = pairs.take(it.index() + 1);
            let ghost before = groups@;
            proof {
                assert(next.drop_last() =~= seen);
                assert(next.last() == pair);
                lemma_field_names(seen, pair.0@);
            }
            let (name, rule) = pair;
            file_rule(&mut groups, name, rule);
            proof {
                assert forall|j: int| 0 <= j < groups.len() implies (#[trigger] groups[j]).1@
                    == rules_for(next, groups[j].0@) by {
                    assert(names_of(groups@)[j] == groups[j].0@);
                    if j < before.len() {
                        assert(names_of(before)[j] == before[j].0@);
                        assert(names_of(groups@)[j] == names_of(before)[j]);
                    } else {
                        assert(names_of(groups@).len() == groups.len());
                        assert(names_of(before).len() == before.len());
                        assert(rules_for(seen, name@) =~= Seq::<T>::empty());
                        assert(groups[j].1@ =~= Seq::<T>::empty().push(rule));
                    }
                }
            }
        }
        assert(pairs.take(pairs.len() as int) =~= pairs);
        Registry::compose(groups, Ghost(pairs))
    }
}

} // verus!
