//! A JSON document as the printer reports it, and lookups in its objects.
use vstd::prelude::*;
use crate::text::text_eq;

verus! {

/// What the readers of a JSON number give: the number as an `i64` where it
/// is an integer in range, and the bit pattern of the number as an `f64`.
pub struct JsonNumber {
    pub integer: Option<i64>,
    pub float_bits: Option<u64>,
}

/// A JSON value. The members of an object keep their order and their keys
/// are distinct.
pub enum JsonValue {
    Null,
    Bool(bool),
    Number(JsonNumber),
    Text(String),
    Array(Vec<JsonValue>),
    Object(Vec<(String, JsonValue)>),
}

/// The value of the first member with the given key.
pub open spec fn lookup(members: Seq<(String, JsonValue)>, key: Seq<char>) -> Option<JsonValue>
    decreases members.len(),
{
    if members.len() == 0 {
        None
    } else if members[0].0@ == key {
        Some(members[0].1)
    } else {
        lookup(members.drop_first(), key)
    }
}

/// No two members share a key.
pub open spec fn keys_distinct(members: Seq<(String, JsonValue)>) -> bool {
    forall|i: int, j: int|
        0 <= i < j < members.len() ==> #[trigger] members[i].0@ != #[trigger] members[j].0@
}

/// The members read as a map, a later member overriding an earlier one.
pub open spec fn insert_all(
    m: Map<Seq<char>, JsonValue>,
    members: Seq<(String, JsonValue)>,
) -> Map<Seq<char>, JsonValue>
    decreases members.len(),
{
    if members.len() == 0 {
        m
    } else {
        insert_all(m, members.drop_last()).insert(members.last().0@, members.last().1)
    }
}

pub open spec fn members_map(members: Seq<(String, JsonValue)>) -> Map<Seq<char>, JsonValue> {
    insert_all(Map::empty(), members)
}

/// The position of the first member with the given key.
pub fn find_member(members: &Vec<(String, JsonValue)>, key: &str) -> (r: Option<usize>)
    ensures
        match r {
            Some(i) => i < members@.len() && members@[i as int].0@ == key@ && forall|j: int|
                0 <= j < i ==> #[trigger] members@[j].0@ != key@,
            None => forall|j: int| 0 <= j < members@.len() ==> #[trigger] members@[j].0@ != key@,
        },
{
    let n = members.len();
    let mut i: usize = 0;
    while i < n
        invariant
            n == members@.len(),
            i <= n,
            forall|j: int| 0 <= j < i ==> #[trigger] members@[j].0@ != key@,
        decreases n - i,
    {
        if text_eq(members[i].0.as_str(), key) {
            return Some(i);
        }
        i = i + 1;
    }
    None
}

/// The first member with key `key` is at `i`.
pub proof fn lemma_lookup_at(members: Seq<(String, JsonValue)>, key: Seq<char>, i: int)
    requires
        0 <= i < members.len(),
        members[i].0@ == key,
        forall|j: int| 0 <= j < i ==> #[trigger] members[j].0@ != key,
    ensures
        lookup(members, key) == Some(members[i].1),
    decreases i,
{
    if i > 0 {
        lemma_lookup_at(members.drop_first(), key, i - 1);
    }
}

/// No member has key `key`.
pub proof fn lemma_lookup_absent(members: Seq<(String, JsonValue)>, key: Seq<char>)
    requires
        forall|j: int| 0 <= j < members.len() ==> #[trigger] members[j].0@ != key,
    ensures
        lookup(members, key) is None,
    decreases members.len(),
{
    if members.len() > 0 {
        assert(members[0].0@ != key);
        lemma_lookup_absent(members.drop_first(), key);
    }
}

/// With distinct keys, the map of the members gives each member's value.
pub proof fn lemma_members_map_get(
    m: Map<Seq<char>, JsonValue>,
    members: Seq<(String, JsonValue)>,
    i: int,
)
    requires
        keys_distinct(members),
        0 <= i < members.len(),
    ensures
        insert_all(m, members).contains_key(members[i].0@),
        insert_all(m, members)[members[i].0@] == members[i].1,
    decreases members.len(),
{
    if i < members.len() - 1 {
        lemma_members_map_get(m, members.drop_last(), i);
        assert(members[i].0@ != members[members.len() - 1].0@);
    }
}

/// A key that no member has keeps the value the map had.
pub proof fn lemma_insert_all_absent(
    m: Map<Seq<char>, JsonValue>,
    members: Seq<(String, JsonValue)>,
    key: Seq<char>,
)
    requires
        forall|j: int| 0 <= j < members.len() ==> #[trigger] members[j].0@ != key,
    ensures
        insert_all(m, members).contains_key(key) == m.contains_key(key),
        m.contains_key(key) ==> insert_all(m, members)[key] == m[key],
    decreases members.len(),
{
    if members.len() > 0 {
        assert(members[members.len() - 1].0@ != key);
        lemma_insert_all_absent(m, members.drop_last(), key);
    }
}

/// Replacing the value of the member with key `k` inserts `k` into the map.
pub proof fn lemma_insert_all_replace(
    m: Map<Seq<char>, JsonValue>,
    members: Seq<(String, JsonValue)>,
    i: int,
    k: String,
    v: JsonValue,
)
    requires
        keys_distinct(members),
        0 <= i < members.len(),
        members[i].0@ == k@,
    ensures
        insert_all(m, members.update(i, (k, v))) == insert_all(m, members).insert(k@, v),
    decreases members.len(),
{
    let n = members.len() - 1;
    let up = members.update(i, (k, v));
    if i == n {
        assert(up.drop_last() =~= members.drop_last());
        assert(insert_all(m, up) =~= insert_all(m, members).insert(k@, v));
    } else {
        assert(up.drop_last() =~= members.drop_last().update(i, (k, v)));
        lemma_insert_all_replace(m, members.drop_last(), i, k, v);
        assert(members[i].0@ != members[n].0@);
        assert(insert_all(m, up) =~= insert_all(m, members).insert(k@, v));
    }
}

} // verus!
