//! The query of a request target: `a=1&b=2&c&d=&e===&d=7&d=abc`.

use crate::http::text::{
    cut, lemma_cut_joined, lemma_cut_none, lemma_span_bounds, same_text, spec_cut,
};
use vstd::prelude::*;
use vstd::std_specs::convert::FromSpecImpl;

verus! {

/// What a query holds for one key. Every text in it is borrowed from the
/// query that was parsed.
#[derive(Debug)]
pub enum Value<'buf> {
    /// The key occurred once.
    Single(&'buf str),
    /// The key occurred more than once: its values, first to last.
    Multiple(Vec<&'buf str>),
}

/// What a query holds for one key, as mathematics.
pub enum QueryValue {
    Single(Seq<char>),
    Multiple(Seq<Seq<char>>),
}

impl<'buf> View for Value<'buf> {
    type V = QueryValue;

    open spec fn view(&self) -> QueryValue {
        match self {
            Value::Single(s) => QueryValue::Single(s@),
            Value::Multiple(v) => QueryValue::Multiple(Seq::new(v@.len(), |i: int| v@[i]@)),
        }
    }
}

/// A parsed query: for each key the value or values that it was given.
#[derive(Debug)]
pub struct QueryString<'buf> {
    data: Vec<(&'buf str, Value<'buf>)>,
}

/// The key of one `key=value` piece: what stands before the first `=`, or the
/// whole piece where it has none.
pub open spec fn key_of(piece: Seq<char>) -> Seq<char> {
    match spec_cut(piece, '=', '=') {
        Some((key, _)) => key,
        None => piece,
    }
}

/// The value of one `key=value` piece: what stands after the first `=`,
/// further `=` included, or nothing where the piece has none.
pub open spec fn value_of(piece: Seq<char>) -> Seq<char> {
    match spec_cut(piece, '=', '=') {
        Some((_, value)) => value,
        None => Seq::empty(),
    }
}

/// The pieces of a query: the texts between its `&`, in order. A query
/// without `&` is one piece, and a piece may be empty.
pub open spec fn pieces(query: Seq<char>) -> Seq<Seq<char>>
    decreases query.len(),
    via pieces_decreases
{
    match spec_cut(query, '&', '&') {
        Some((head, tail)) => seq![head] + pieces(tail),
        None => seq![query],
    }
}

#[via_fn]
proof fn pieces_decreases(query: Seq<char>) {
    lemma_span_bounds(query, '&', '&');
}

/// The values that `pieces` give to `key`, in order of occurrence.
pub open spec fn values_for(pieces: Seq<Seq<char>>, key: Seq<char>) -> Seq<Seq<char>>
    decreases pieces.len(),
{
    if pieces.len() == 0 {
        Seq::empty()
    } else {
        let before = values_for(pieces.drop_last(), key);
        if key_of(pieces.last()) == key {
            before.push(value_of(pieces.last()))
        } else {
            before
        }
    }
}

/// The mapping that `pieces` stand for: every key that occurs, with its one
/// value as `Single`, or with all its values in order as `Multiple`.
pub open spec fn collected(pieces: Seq<Seq<char>>) -> Map<Seq<char>, QueryValue> {
    Map::new(
        |key: Seq<char>| values_for(pieces, key).len() > 0,
        |key: Seq<char>|
            {
                let values = values_for(pieces, key);
                if values.len() == 1 {
                    QueryValue::Single(values[0])
                } else {
                    QueryValue::Multiple(values)
                }
            },
    )
}

/// The mapping that a query stands for.
pub open spec fn parse_query(query: Seq<char>) -> Map<Seq<char>, QueryValue> {
    collected(pieces(query))
}

/// The mapping after one more `key=value` piece: a new key gets `Single`, a
/// second value turns `Single` into `Multiple`, a further one is appended.
pub open spec fn merged(map: Map<Seq<char>, QueryValue>, key: Seq<char>, value: Seq<char>) -> Map<
    Seq<char>,
    QueryValue,
> {
    if !map.contains_key(key) {
        map.insert(key, QueryValue::Single(value))
    } else {
        match map[key] {
            QueryValue::Single(prev) => map.insert(key, QueryValue::Multiple(seq![prev, value])),
            QueryValue::Multiple(values) => map.insert(key, QueryValue::Multiple(values.push(value))),
        }
    }
}

/// One more piece changes the mapping as `merged` says.
pub proof fn lemma_collected_push(before: Seq<Seq<char>>, piece: Seq<char>)
    ensures
        collected(before.push(piece)) == merged(collected(before), key_of(piece), value_of(piece)),
{
    let all = before.push(piece);
    let key = key_of(piece);
    let value = value_of(piece);
    assert(all.drop_last() =~= before);
    assert(all.last() == piece);
    let old_values = values_for(before, key);
    assert(values_for(all, key) == old_values.push(value));
    assert forall|k: Seq<char>| k != key implies values_for(all, k) == values_for(before, k) by {}
    if old_values.len() == 1 {
        assert(old_values.push(value) =~= seq![old_values[0], value]);
    }
    assert(collected(all) =~= merged(collected(before), key, value));
}

/// A query without `&` and without `=` is one key, the query itself, with
/// an empty value.
pub proof fn lemma_plain_query(query: Seq<char>)
    requires
        forall|i: int| 0 <= i < query.len() ==> query[i] != '&' && query[i] != '=',
    ensures
        parse_query(query) == Map::<Seq<char>, QueryValue>::empty().insert(
            query,
            QueryValue::Single(Seq::empty()),
        ),
{
    lemma_cut_none(query, '&', '&');
    lemma_cut_none(query, '=', '=');
    let one = seq![query];
    assert(pieces(query) == one);
    assert(one.drop_last() =~= Seq::<Seq<char>>::empty());
    assert forall|key: Seq<char>| #[trigger]
        values_for(one, key) == (if key == query {
            seq![Seq::<char>::empty()]
        } else {
            Seq::<Seq<char>>::empty()
        }) by {
        assert(values_for(one.drop_last(), key) =~= Seq::<Seq<char>>::empty());
        assert(Seq::<Seq<char>>::empty().push(Seq::<char>::empty()) =~= seq![
            Seq::<char>::empty(),
        ]);
    }
    assert(parse_query(query) =~= Map::<Seq<char>, QueryValue>::empty().insert(
        query,
        QueryValue::Single(Seq::empty()),
    ));
}

/// A piece without `&`, followed by `&` and more query, is the first piece of
/// the whole, and the rest is cut as it would be alone.
pub proof fn lemma_pieces_joined(head: Seq<char>, tail: Seq<char>)
    requires
        forall|i: int| 0 <= i < head.len() ==> head[i] != '&',
    ensures
        pieces(head + seq!['&'] + tail) == seq![head] + pieces(tail),
{
    lemma_cut_joined(head, '&', tail, '&', '&');
}

/// A key without `=`, then `=`, then any value, is a piece with that key and
/// that value: further `=` belong to the value.
pub proof fn lemma_piece_joined(key: Seq<char>, value: Seq<char>)
    requires
        forall|i: int| 0 <= i < key.len() ==> key[i] != '=',
    ensures
        key_of(key + seq!['='] + value) == key,
        value_of(key + seq!['='] + value) == value,
{
    lemma_cut_joined(key, '=', value, '=', '=');
}

/// Values keep the order of their pieces: what two runs of pieces give to a
/// key, one run after the other, is what the first gives followed by what the
/// second gives.
pub proof fn lemma_values_in_order(first: Seq<Seq<char>>, second: Seq<Seq<char>>, key: Seq<char>)
    ensures
        values_for(first + second, key) == values_for(first, key) + values_for(second, key),
    decreases second.len(),
{
    if second.len() == 0 {
        assert(first + second =~= first);
        assert(values_for(first, key) + values_for(second, key) =~= values_for(first, key));
    } else {
        let all = first + second;
        assert(all.drop_last() =~= first + second.drop_last());
        assert(all.last() == second.last());
        lemma_values_in_order(first, second.drop_last(), key);
        let before = values_for(first, key) + values_for(second.drop_last(), key);
        if key_of(second.last()) == key {
            assert(before.push(value_of(second.last())) =~= values_for(first, key) + values_for(
                second.drop_last(),
                key,
            ).push(value_of(second.last())));
        }
    }
}

/// Where every piece has the same key, the key is given the values of all
/// pieces, in their order, and no other key is given anything.
pub proof fn lemma_values_of_repeated_key(pieces: Seq<Seq<char>>, key: Seq<char>)
    requires
        forall|i: int| 0 <= i < pieces.len() ==> key_of(#[trigger] pieces[i]) == key,
    ensures
        values_for(pieces, key) == Seq::new(pieces.len(), |i: int| value_of(pieces[i])),
        forall|other: Seq<char>| other != key ==> #[trigger] values_for(pieces, other).len() == 0,
    decreases pieces.len(),
{
    if pieces.len() > 0 {
        let before = pieces.drop_last();
        assert forall|i: int| 0 <= i < before.len() implies key_of(#[trigger] before[i])
            == key by {
            assert(before[i] == pieces[i]);
        }
        lemma_values_of_repeated_key(before, key);
        assert(key_of(pieces.last()) == key) by {
            assert(pieces.last() == pieces[pieces.len() - 1]);
        }
        assert(values_for(pieces, key) =~= Seq::new(pieces.len(), |i: int| value_of(pieces[i])));
        assert forall|other: Seq<char>| other != key implies #[trigger] values_for(
            pieces,
            other,
        ).len() == 0 by {
            assert(values_for(before, other).len() == 0);
        }
    } else {
        assert(values_for(pieces, key) =~= Seq::new(pieces.len(), |i: int| value_of(pieces[i])));
    }
}

/// A key that occurs twice or more, and nothing else: the query holds that
/// key alone, as `Multiple`, with as many values as there are pieces, in the
/// order of the pieces.
pub proof fn lemma_repeated_key(pieces: Seq<Seq<char>>, key: Seq<char>)
    requires
        pieces.len() >= 2,
        forall|i: int| 0 <= i < pieces.len() ==> key_of(#[trigger] pieces[i]) == key,
    ensures
        collected(pieces) == Map::<Seq<char>, QueryValue>::empty().insert(
            key,
            QueryValue::Multiple(Seq::new(pieces.len(), |i: int| value_of(pieces[i]))),
        ),
{
    lemma_values_of_repeated_key(pieces, key);
    assert(collected(pieces) =~= Map::<Seq<char>, QueryValue>::empty().insert(
        key,
        QueryValue::Multiple(Seq::new(pieces.len(), |i: int| value_of(pieces[i]))),
    ));
}

type Entry<'buf> = (&'buf str, Value<'buf>);

spec fn key_at<'buf>(entries: Seq<Entry<'buf>>, i: int) -> Seq<char> {
    entries[i].0@
}

spec fn has_key<'buf>(entries: Seq<Entry<'buf>>, key: Seq<char>) -> bool {
    exists|i: int| 0 <= i < entries.len() && #[trigger] key_at(entries, i) == key
}

spec fn index_of<'buf>(entries: Seq<Entry<'buf>>, key: Seq<char>) -> int {
    choose|i: int| 0 <= i < entries.len() && #[trigger] key_at(entries, i) == key
}

spec fn distinct<'buf>(entries: Seq<Entry<'buf>>) -> bool {
    forall|i: int, j: int|
        0 <= i < j < entries.len() ==> #[trigger] key_at(entries, i) != #[trigger] key_at(
            entries,
            j,
        )
}

spec fn entries_map<'buf>(entries: Seq<Entry<'buf>>) -> Map<Seq<char>, QueryValue> {
    Map::new(
        |key: Seq<char>| has_key(entries, key),
        |key: Seq<char>| entries[index_of(entries, key)].1@,
    )
}

proof fn lemma_entry<'buf>(entries: Seq<Entry<'buf>>, i: int)
    requires
        distinct(entries),
        0 <= i < entries.len(),
    ensures
        entries_map(entries).contains_key(key_at(entries, i)),
        entries_map(entries)[key_at(entries, i)] == entries[i].1@,
{
    let key = key_at(entries, i);
    assert(has_key(entries, key));
    let j = index_of(entries, key);
    assert(key_at(entries, j) == key);
    assert(i == j);
}

fn find<'buf>(data: &Vec<Entry<'buf>>, key: &str) -> (r: Option<usize>)
    ensures
        match r {
            Some(i) => i < data@.len() && key_at(data@, i as int) == key@,
            None => !has_key(data@, key@),
        },
{
    let mut i: usize = 0;
    while i < data.len()
        invariant
            i <= data@.len(),
            forall|j: int| 0 <= j < i ==> key_at(data@, j) != key@,
        decreases data@.len() - i,
    {
        if same_text(data[i].0, key) {
            return Some(i);
        }
        i += 1;
    }
    None
}

proof fn lemma_same_elsewhere<'buf>(
    before: Seq<Entry<'buf>>,
    after: Seq<Entry<'buf>>,
    key: Seq<char>,
)
    requires
        distinct(before),
        distinct(after),
        before.len() <= after.len(),
        forall|j: int| 0 <= j < before.len() ==> key_at(after, j) == #[trigger] key_at(before, j),
        forall|j: int|
            0 <= j < before.len() && key_at(before, j) != key ==> (#[trigger] after[j]).1@
                == before[j].1@,
        forall|j: int| before.len() <= j < after.len() ==> #[trigger] key_at(after, j) == key,
    ensures
        forall|k: Seq<char>|
            k != key ==> (#[trigger] entries_map(after).contains_key(k)) == entries_map(
                before,
            ).contains_key(k),
        forall|k: Seq<char>|
            k != key && entries_map(before).contains_key(k) ==> #[trigger] entries_map(after)[k]
                == entries_map(before)[k],
{
    assert forall|k: Seq<char>| k != key implies (#[trigger] has_key(after, k)) == has_key(
        before,
        k,
    ) && (has_key(before, k) ==> entries_map(after)[k] == entries_map(before)[k]) by {
        if has_key(before, k) {
            let j = index_of(before, k);
            assert(key_at(after, j) == k);
            assert(after[j].1@ == before[j].1@);
            lemma_entry(after, j);
            lemma_entry(before, j);
        }
        if has_key(after, k) {
            let j = index_of(after, k);
            assert(key_at(before, j) == k);
        }
    }
}

proof fn lemma_entry_added<'buf>(before: Seq<Entry<'buf>>, entry: Entry<'buf>)
    requires
        distinct(before),
        !has_key(before, entry.0@),
    ensures
        distinct(before.push(entry)),
        entries_map(before.push(entry)) == entries_map(before).insert(entry.0@, entry.1@),
{
    let after = before.push(entry);
    assert forall|i: int, j: int| 0 <= i < j < after.len() implies key_at(after, i) != key_at(
        after,
        j,
    ) by {
        assert(key_at(after, i) == key_at(before, i));
        if j < before.len() {
            assert(key_at(after, j) == key_at(before, j));
        }
    }
    assert forall|j: int| 0 <= j < before.len() implies key_at(after, j) == #[trigger] key_at(
        before,
        j,
    ) by {}
    lemma_entry(after, before.len() as int);
    lemma_same_elsewhere(before, after, entry.0@);
    assert(entries_map(after) =~= entries_map(before).insert(entry.0@, entry.1@));
}

proof fn lemma_entry_changed<'buf>(before: Seq<Entry<'buf>>, i: int, entry: Entry<'buf>)
    requires
        distinct(before),
        0 <= i < before.len(),
        entry.0@ == key_at(before, i),
    ensures
        distinct(before.update(i, entry)),
        entries_map(before.update(i, entry)) == entries_map(before).insert(entry.0@, entry.1@),
{
    let after = before.update(i, entry);
    assert forall|j: int| 0 <= j < before.len() implies key_at(after, j) == #[trigger] key_at(
        before,
        j,
    ) by {}
    assert forall|j: int, l: int| 0 <= j < l < after.len() implies key_at(after, j) != key_at(
        after,
        l,
    ) by {
        assert(key_at(after, j) == key_at(before, j));
        assert(key_at(after, l) == key_at(before, l));
    }
    lemma_entry(after, i);
    lemma_same_elsewhere(before, after, entry.0@);
    assert(entries_map(after) =~= entries_map(before).insert(entry.0@, entry.1@));
}

fn record<'buf>(data: &mut Vec<Entry<'buf>>, key: &'buf str, value: &'buf str)
    requires
        distinct(old(data)@),
    ensures
        distinct(final(data)@),
        entries_map(final(data)@) == merged(entries_map(old(data)@), key@, value@),
{
    let ghost before = data@;
    match find(data, key) {
        None => {
            data.push((key, Value::Single(value)));
            proof {
                lemma_entry_added(before, (key, Value::Single(value)));
            }
        },
        Some(i) => {
            proof {
                lemma_entry(before, i as int);
            }
            let ghost target = merged(entries_map(before), key@, value@)[key@];
            let entry = &mut data[i];
            match &mut entry.1 {
                Value::Single(prev) => {
                    let first = *prev;
                    let mut values = Vec::new();
                    values.push(first);
                    values.push(value);
                    let both = Value::Multiple(values);
                    assert(both@ == target) by {
                        assert(both@->Multiple_0 =~= seq![first@, value@]);
                    }
                    entry.1 = both;
                },
                Value::Multiple(values) => {
                    let ghost earlier = Value::Multiple(*values)@->Multiple_0;
                    values.push(value);
                    assert(Value::Multiple(*values)@ == target) by {
                        assert(Value::Multiple(*values)@->Multiple_0 =~= earlier.push(value@));
                    }
                },
            }
            proof {
                assert(data@ =~= before.update(i as int, data@[i as int]));
                lemma_entry_changed(before, i as int, data@[i as int]);
            }
        },
    }
}

impl<'buf> View for QueryString<'buf> {
    type V = Map<Seq<char>, QueryValue>;

    closed spec fn view(&self) -> Map<Seq<char>, QueryValue> {
        entries_map(self.data@)
    }
}

impl<'buf> QueryString<'buf> {
    #[verifier::type_invariant]
    spec fn keys_are_distinct(&self) -> bool {
        distinct(self.data@)
    }

    /// What the query holds for `key`, if the key occurs in it.
    pub fn get(&self, key: &str) -> (r: Option<&Value<'buf>>)
        ensures
            match r {
                Some(value) => self@.contains_key(key@) && value@ == self@[key@],
                None => !self@.contains_key(key@),
            },
    {
        proof {
            use_type_invariant(self);
        }
        match find(&self.data, key) {
            Some(i) => {
                proof {
                    lemma_entry(self.data@, i as int);
                }
                Some(&self.data[i].1)
            },
            None => None,
        }
    }
}

fn add_piece<'buf>(data: &mut Vec<Entry<'buf>>, piece: &'buf str)
    requires
        distinct(old(data)@),
    ensures
        distinct(final(data)@),
        entries_map(final(data)@) == merged(
            entries_map(old(data)@),
            key_of(piece@),
            value_of(piece@),
        ),
{
    match cut(piece, '=', '=') {
        Some((key, value)) => record(data, key, value),
        None => {
            proof {
                reveal_strlit("");
                assert(""@ =~= Seq::<char>::empty());
            }
            record(data, piece, "")
        },
    }
}

impl<'buf> From<&'buf str> for QueryString<'buf> {
    /// Parses a query, the text that follows the `?` of a request target.
    /// Every text is a query: nothing is refused.
    fn from(s: &'buf str) -> (r: QueryString<'buf>)
        ensures
            r@ == parse_query(s@),
    {
        let mut data: Vec<Entry<'buf>> = Vec::new();
        let mut rest = s;
        let ghost mut done: Seq<Seq<char>> = Seq::empty();
        proof {
            assert(entries_map(data@) =~= collected(done));
            assert(done + pieces(rest@) =~= pieces(s@));
        }
        loop
            invariant
                distinct(data@),
                entries_map(data@) == collected(done),
                pieces(s@) == done + pieces(rest@),
            decreases rest@.len(),
        {
            match cut(rest, '&', '&') {
                Some((piece, tail)) => {
                    add_piece(&mut data, piece);
                    proof {
                        lemma_span_bounds(rest@, '&', '&');
                        lemma_collected_push(done, piece@);
                        assert(done.push(piece@) + pieces(tail@) =~= done + pieces(rest@));
                        done = done.push(piece@);
                    }
                    rest = tail;
                },
                None => {
                    add_piece(&mut data, rest);
                    proof {
                        lemma_collected_push(done, rest@);
                        assert(done.push(rest@) =~= done + pieces(rest@));
                    }
                    return QueryString { data };
                },
            }
        }
    }
}

impl<'buf> FromSpecImpl<&'buf str> for QueryString<'buf> {
    /// Two parses of one query hold the same mapping, but need not be the
    /// same value: `from_spec` fixes the mapping only.
    open spec fn obeys_from_spec() -> bool {
        false
    }

    open spec fn from_spec(s: &'buf str) -> QueryString<'buf> {
        choose|q: QueryString<'buf>| q@ == parse_query(s@)
    }
}

} // verus!
