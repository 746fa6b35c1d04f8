//! Maps from names, in the order of the names.
use vstd::prelude::*;
use vstd::seq_lib::*;

verus! {

/// Whether one text stands before another in the order of code points: after a common beginning it
/// ends, or goes on with a smaller one.
pub open spec fn stands_before(left: Seq<char>, right: Seq<char>) -> bool {
    exists|i: int| #[trigger] parts_at(left, right, i)
}

/// Whether two texts agree before `i`, and the first ends there or has the smaller code point.
pub open spec fn parts_at(left: Seq<char>, right: Seq<char>, i: int) -> bool {
    &&& 0 <= i <= left.len()
    &&& i < right.len()
    &&& forall|j: int| 0 <= j < i ==> left[j] == right[j]
    &&& i == left.len() || (left[i] as int) < (right[i] as int)
}

/// No text stands before itself.
pub proof fn order_is_irreflexive(text: Seq<char>)
    ensures
        !stands_before(text, text),
{
}

/// What stands before a text stands before all that this text stands before.
pub proof fn order_is_transitive(first: Seq<char>, second: Seq<char>, third: Seq<char>)
    requires
        stands_before(first, second),
        stands_before(second, third),
    ensures
        stands_before(first, third),
{
    let i = choose|i: int| #[trigger] parts_at(first, second, i);
    let j = choose|j: int| #[trigger] parts_at(second, third, j);
    if i <= j {
        assert(parts_at(first, third, i));
    } else {
        assert(parts_at(first, third, j));
    }
}

/// Of two different texts, one stands before the other.
pub proof fn order_is_total(left: Seq<char>, right: Seq<char>)
    ensures
        left == right || stands_before(left, right) || stands_before(right, left),
{
    agreement(left, right, 0);
}

/// Texts that agree before `i` are equal, or one stands before the other.
proof fn agreement(left: Seq<char>, right: Seq<char>, i: int)
    requires
        0 <= i <= left.len(),
        i <= right.len(),
        forall|j: int| 0 <= j < i ==> left[j] == right[j],
    ensures
        left == right || stands_before(left, right) || stands_before(right, left),
    decreases left.len() - i,
{
    if i == left.len() && i == right.len() {
        assert(left =~= right);
    } else if i == left.len() {
        assert(parts_at(left, right, i));
    } else if i == right.len() {
        assert(parts_at(right, left, i));
    } else if left[i] == right[i] {
        agreement(left, right, i + 1);
    } else {
        assert(left[i] as int != right[i] as int);
        if (left[i] as int) < (right[i] as int) {
            assert(parts_at(left, right, i));
        } else {
            assert(parts_at(right, left, i));
        }
    }
}

/// Whether one text stands before another.
///
/// Calls `str::lt`: strings are ordered by their bytes, which orders them by their code points.
#[verifier::external_body]
fn precedes(left: &str, right: &str) -> (result: bool)
    ensures
        result == stands_before(left@, right@),
{
    left < right
}

/// A map from names to values, which is walked in the order of the names.
#[derive(Debug)]
pub struct NameMap<V> {
    entries: Vec<(String, V)>,
}

/// Whether names stand in their order, each once.
pub open spec fn in_order(names: Seq<Seq<char>>) -> bool {
    forall|i: int, j: int| 0 <= i < j < names.len() ==> stands_before(names[i], names[j])
}

/// The names in a list of entries.
spec fn entry_names<V>(entries: Seq<(String, V)>) -> Seq<Seq<char>> {
    entries.map_values(|entry: (String, V)| entry.0@)
}

/// What a list of entries holds.
spec fn entry_map<V>(entries: Seq<(String, V)>) -> Map<Seq<char>, V> {
    Map::new(
        |name: Seq<char>| entry_names(entries).contains(name),
        |name: Seq<char>| entries[entry_names(entries).index_of(name)].1,
    )
}

/// Names in order are all different.
proof fn walk_of_entries<V>(entries: Seq<(String, V)>)
    requires
        in_order(entry_names(entries)),
    ensures
        entry_names(entries).no_duplicates(),
        entry_map(entries).dom() == entry_names(entries).to_set(),
        entry_map(entries).dom().finite(),
{
    broadcast use seq_to_set_is_finite;

    let names = entry_names(entries);
    assert forall|i: int, j: int|
        0 <= i < names.len() && 0 <= j < names.len() && i != j implies names[i] != names[j] by {
        if i < j {
            assert(stands_before(names[i], names[j]));
        } else {
            assert(stands_before(names[j], names[i]));
        }
    }
    assert(entry_map(entries).dom() =~= names.to_set());
}

/// An entry is found by its name.
proof fn found_in_entries<V>(entries: Seq<(String, V)>, i: int)
    requires
        0 <= i < entries.len(),
        entry_names(entries).no_duplicates(),
    ensures
        entry_map(entries).contains_key(entries[i].0@),
        entry_map(entries)[entries[i].0@] == entries[i].1,
{
    let names = entry_names(entries);
    assert(names[i] == entries[i].0@);
    assert(names.contains(names[i]));
    assert(names.index_of(names[i]) == i);
}

/// An entry put where its name belongs, in place of one of the same name.
proof fn placed_entry<V>(
    before: Seq<(String, V)>,
    after: Seq<(String, V)>,
    place: int,
    rest: Seq<(String, V)>,
)
    requires
        in_order(entry_names(before)),
        0 <= place <= before.len(),
        place < after.len(),
        after == before.take(place) + seq![after[place]] + rest,
        forall|j: int| 0 <= j < place ==> stands_before(before[j].0@, after[place].0@),
        place < before.len() && before[place].0@ == after[place].0@ ==> rest == before.skip(
            place + 1,
        ),
        !(place < before.len() && before[place].0@ == after[place].0@) ==> rest == before.skip(
            place,
        ),
        place < before.len() ==> !stands_before(before[place].0@, after[place].0@),
    ensures
        in_order(entry_names(after)),
        entry_map(after) == entry_map(before).insert(after[place].0@, after[place].1),
{
    let name = after[place].0@;
    let olds = entry_names(before);
    let news = entry_names(after);
    let kept = if place < before.len() && before[place].0@ == name { 0int } else { -1int };
    assert forall|j: int| 0 <= j < place implies news[j] == olds[j] && after[j] == before[j] by {
    }
    assert forall|j: int| place < j < after.len() implies news[j] == olds[j + kept] && after[j]
        == before[j + kept] by {
    }
    assert forall|j: int| place < j < after.len() implies stands_before(name, news[j]) by {
        order_is_total(olds[place], name);
        if kept == 0 {
            assert(stands_before(olds[place], olds[j]));
        } else if j - 1 > place {
            assert(stands_before(olds[place], olds[j - 1]));
            order_is_transitive(name, olds[place], olds[j - 1]);
        }
    }
    assert forall|i: int, j: int| 0 <= i < j < news.len() implies stands_before(
        news[i],
        news[j],
    ) by {
        if i < place && j > place {
            order_is_transitive(news[i], name, news[j]);
        } else if i > place {
            assert(stands_before(olds[i + kept], olds[j + kept]));
        } else if j < place {
            assert(stands_before(olds[i], olds[j]));
        }
    }
    walk_of_entries(before);
    walk_of_entries(after);
    let target = entry_map(before).insert(name, after[place].1);
    assert forall|n: Seq<char>| entry_map(after).contains_key(n) implies target.contains_key(n)
        && entry_map(after)[n] == target[n] by {
        let k = news.index_of(n);
        found_in_entries(after, k);
        if k < place {
            found_in_entries(before, k);
        } else if k > place {
            found_in_entries(before, k + kept);
        }
    }
    assert forall|n: Seq<char>| target.contains_key(n) implies entry_map(after).contains_key(n) by {
        if n == name {
            found_in_entries(after, place);
        } else {
            let k = olds.index_of(n);
            if k < place {
                found_in_entries(after, k);
            } else {
                found_in_entries(after, k - kept);
            }
        }
    }
    assert(entry_map(after) =~= target);
}

impl<V> View for NameMap<V> {
    type V = Map<Seq<char>, V>;

    closed spec fn view(&self) -> Map<Seq<char>, V> {
        entry_map(self.entries@)
    }
}

impl<V: Clone> Clone for NameMap<V> {
    fn clone(&self) -> (result: Self)
        ensures
            result.names() == self.names(),
            result@.dom() == self@.dom(),
            forall|name: Seq<char>| #[trigger]
                self@.contains_key(name) ==> call_ensures(
                    V::clone,
                    (&self@[name],),
                    result@[name],
                ),
    {
        proof {
            use_type_invariant(self);
        }
        let mut entries: Vec<(String, V)> = Vec::new();
        let count = self.entries.len();
        for i in 0..count
            invariant
                count == self.entries@.len(),
                entries@.len() == i,
                forall|j: int|
                    0 <= j < i ==> {
                        &&& (#[trigger] entries@[j]).0@ == self.entries@[j].0@
                        &&& call_ensures(V::clone, (&self.entries@[j].1,), entries@[j].1)
                    },
        {
            let (name, value) = &self.entries[i];
            entries.push((name.clone(), value.clone()));
        }
        assert(entry_names(entries@) =~= entry_names(self.entries@));
        let result = NameMap { entries };
        proof {
            walk_of_entries(self.entries@);
            walk_of_entries(result.entries@);
            assert forall|name: Seq<char>| #[trigger] self@.contains_key(name) implies call_ensures(
                V::clone,
                (&self@[name],),
                result@[name],
            ) by {
                let i = entry_names(self.entries@).index_of(name);
                found_in_entries(self.entries@, i);
                found_in_entries(result.entries@, i);
                assert(result.entries@[i].0@ == self.entries@[i].0@);
            }
        }
        result
    }
}

impl<V> NameMap<V> {
    #[verifier::type_invariant]
    spec fn is_ordered(self) -> bool {
        in_order(entry_names(self.entries@))
    }

    /// The names, in their order.
    pub closed spec fn names(self) -> Seq<Seq<char>> {
        entry_names(self.entries@)
    }

    /// No names.
    pub fn new() -> (result: Self)
        ensures
            result@ == Map::<Seq<char>, V>::empty(),
            result.names() == Seq::<Seq<char>>::empty(),
    {
        let result = NameMap { entries: Vec::new() };
        assert(entry_names(result.entries@) =~= Seq::empty());
        assert(result@ =~= Map::empty());
        result
    }

    /// How many names there are.
    pub fn len(&self) -> (result: usize)
        ensures
            result == self.names().len(),
            self.is_walk(),
    {
        proof {
            use_type_invariant(self);
            walk_of_entries(self.entries@);
            entry_names(self.entries@).unique_seq_to_set();
        }
        self.entries.len()
    }

    /// Whether the names are those of the map, in order.
    pub open spec fn is_walk(self) -> bool {
        &&& in_order(self.names())
        &&& self.names().no_duplicates()
        &&& self@.dom() == self.names().to_set()
        &&& self@.dom().finite()
        &&& self@.len() == self.names().len()
    }

    /// The name that comes at a place.
    pub fn name_at(&self, i: usize) -> (result: &str)
        requires
            i < self.names().len(),
        ensures
            result@ == self.names()[i as int],
    {
        self.entries[i].0.as_str()
    }

    /// The value of the name that comes at a place.
    pub fn value_at(&self, i: usize) -> (result: &V)
        requires
            i < self.names().len(),
        ensures
            self@.contains_key(self.names()[i as int]),
            *result == self@[self.names()[i as int]],
    {
        proof {
            use_type_invariant(self);
            walk_of_entries(self.entries@);
            found_in_entries(self.entries@, i as int);
        }
        &self.entries[i].1
    }

    /// The value of a name.
    pub fn get(&self, name: &str) -> (result: Option<&V>)
        ensures
            match self@.get(name@) {
                Some(value) => result matches Some(found) && *found == value,
                None => result is None,
            },
    {
        proof {
            use_type_invariant(self);
            walk_of_entries(self.entries@);
        }
        let wanted = name.to_owned();
        let count = self.entries.len();
        for i in 0..count
            invariant
                count == self.entries@.len(),
                wanted@ == name@,
                in_order(entry_names(self.entries@)),
                forall|j: int| 0 <= j < i ==> self.entries@[j].0@ != name@,
        {
            if self.entries[i].0 == wanted {
                proof {
                    walk_of_entries(self.entries@);
                    found_in_entries(self.entries@, i as int);
                }
                return Some(&self.entries[i].1);
            }
        }
        proof {
            assert(!entry_names(self.entries@).contains(name@));
        }
        None
    }

    /// Sets the value of a name, in place of its former value.
    pub fn insert(&mut self, name: String, value: V)
        ensures
            final(self)@ == old(self)@.insert(name@, value),
    {
        proof {
            use_type_invariant(&*self);
        }
        let mut entries: Vec<(String, V)> = Vec::new();
        std::mem::swap(&mut entries, &mut self.entries);
        let ghost before = entries@;
        let count = entries.len();
        let mut place: usize = 0;
        while place < count && precedes(entries[place].0.as_str(), name.as_str())
            invariant
                place <= count,
                count == entries@.len(),
                entries@ == before,
                forall|j: int| 0 <= j < place ==> stands_before(entries@[j].0@, name@),
            decreases count - place,
        {
            place = place + 1;
        }
        if place < count && entries[place].0 == name {
            let _ = entries.remove(place);
            assert(entries@.skip(place as int) =~= before.skip(place + 1));
        } else if place < count {
            proof {
                order_is_total(before[place as int].0@, name@);
            }
        }
        let ghost rest = entries@.skip(place as int);
        entries.insert(place, (name, value));
        proof {
            assert(entries@ =~= before.take(place as int) + seq![entries@[place as int]] + rest);
            placed_entry(before, entries@, place as int, rest);
        }
        self.entries = entries;
    }
}

/// Names have one order only.
pub proof fn order_is_unique(left: Seq<Seq<char>>, right: Seq<Seq<char>>)
    requires
        in_order(left),
        in_order(right),
        left.to_set() == right.to_set(),
    ensures
        left == right,
    decreases left.len(),
{
    if left.len() == 0 {
        if right.len() > 0 {
            assert(right.to_set().contains(right[0]));
            assert(left.contains(right[0]));
        }
        assert(left =~= right);
    } else {
        assert(left.to_set().contains(left[0]));
        assert(right.contains(left[0]));
        let greatest = left.last();
        assert(left[left.len() - 1] == greatest);
        assert(left.to_set().contains(greatest));
        assert(right.contains(greatest));
        let other = right.last();
        assert(right[right.len() - 1] == other);
        assert(right.to_set().contains(other));
        assert(left.contains(other));
        let i = left.index_of(other);
        let j = right.index_of(greatest);
        if greatest != other {
            assert(stands_before(left[i], left[left.len() - 1]));
            assert(stands_before(right[j], right[right.len() - 1]));
            order_is_transitive(greatest, other, greatest);
            order_is_irreflexive(greatest);
        }
        let shorter = left.drop_last();
        let rest = right.drop_last();
        assert forall|name: Seq<char>| shorter.to_set().contains(name) == rest.to_set().contains(
            name,
        ) by {
            if shorter.contains(name) {
                let k = shorter.index_of(name);
                assert(left[k] == name);
                assert(left.to_set().contains(name));
                assert(right.contains(name));
                let m = right.index_of(name);
                assert(stands_before(left[k], left[left.len() - 1]));
                order_is_irreflexive(name);
                assert(rest[m] == name);
            }
            if rest.contains(name) {
                let k = rest.index_of(name);
                assert(right[k] == name);
                assert(right.to_set().contains(name));
                assert(left.contains(name));
                let m = left.index_of(name);
                assert(stands_before(right[k], right[right.len() - 1]));
                order_is_irreflexive(name);
                assert(shorter[m] == name);
            }
        }
        assert(shorter.to_set() =~= rest.to_set());
        order_is_unique(shorter, rest);
        assert(left =~= shorter.push(greatest));
        assert(right =~= rest.push(other));
    }
}

} // verus!
