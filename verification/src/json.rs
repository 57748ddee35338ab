use vstd::prelude::*;

verus! {

/// A JSON number, in the three forms that JSON numbers take in memory:
/// a non-negative integer, a negative integer, or a binary64 float given
/// by its bit pattern.
#[derive(Debug, Clone, Copy, PartialEq, Eq)]
pub enum JsonNumber {
    PosInt(u64),
    NegInt(i64),
    FloatBits(u64),
}

/// A JSON value. An object lists its members in order; an object read from
/// serde_json lists them in its map's order, which is by key.
#[derive(Debug, PartialEq)]
pub enum JsonValue {
    Null,
    Bool(bool),
    Number(JsonNumber),
    String(String),
    Array(Vec<JsonValue>),
    Object(Vec<(String, JsonValue)>),
}

/// The canonical number for a signed integer: non-negative values are
/// stored as unsigned integers, negative ones as signed.
pub open spec fn number_from_i64_spec(i: i64) -> JsonNumber {
    if i < 0 {
        JsonNumber::NegInt(i)
    } else {
        JsonNumber::PosInt(i as u64)
    }
}

impl JsonNumber {
    /// The number for a signed integer (see [`number_from_i64_spec`]).
    pub fn from_i64(i: i64) -> (r: JsonNumber)
        ensures
            r == number_from_i64_spec(i),
    {
        if i < 0 {
            JsonNumber::NegInt(i)
        } else {
            JsonNumber::PosInt(i as u64)
        }
    }
}

/// The names of an object's members, in order.
pub open spec fn member_names(members: Seq<(String, JsonValue)>) -> Seq<Seq<char>> {
    members.map_values(|m: (String, JsonValue)| m.0@)
}

/// The position of the first member named `name`, if there is one.
pub open spec fn member_position(members: Seq<(String, JsonValue)>, name: Seq<char>) -> Option<int>
    decreases members.len(),
{
    if members.len() == 0 {
        None
    } else {
        match member_position(members.drop_last(), name) {
            Some(i) => Some(i),
            None => if members.last().0@ == name {
                Some(members.len() - 1)
            } else {
                None
            },
        }
    }
}

/// The members after `value` is assigned to the member `name`: an existing
/// member keeps its place and takes the new value; otherwise the member is
/// appended.
pub open spec fn set_member(members: Seq<(String, JsonValue)>, name: String, value: JsonValue) -> Seq<(String, JsonValue)> {
    match member_position(members, name@) {
        Some(i) => members.update(i, (members[i].0, value)),
        None => members.push((name, value)),
    }
}

proof fn lemma_member_position(members: Seq<(String, JsonValue)>, name: Seq<char>)
    ensures
        match member_position(members, name) {
            Some(i) => 0 <= i < members.len() && members[i].0@ == name
                && forall|j: int| 0 <= j < i ==> members[j].0@ != name,
            None => forall|j: int| 0 <= j < members.len() ==> members[j].0@ != name,
        },
    decreases members.len(),
{
    if members.len() > 0 {
        let init = members.drop_last();
        lemma_member_position(init, name);
        assert(forall|j: int| 0 <= j < init.len() ==> init[j] == members[j]);
    }
}

/// Assigns `value` to the member `name` of an object's member list.
pub fn set_object_member(members: &mut Vec<(String, JsonValue)>, name: String, value: JsonValue)
    ensures
        final(members)@ == set_member(old(members)@, name, value),
{
    proof {
        lemma_member_position(members@, name@);
    }
    let mut i: usize = 0;
    while i < members.len()
        invariant
            i <= members.len(),
            members@ == old(members)@,
            forall|j: int| 0 <= j < i ==> members@[j].0@ != name@,
            match member_position(members@, name@) {
                Some(p) => 0 <= p < members.len() && members@[p].0@ == name@
                    && forall|j: int| 0 <= j < p ==> members@[j].0@ != name@,
                None => forall|j: int| 0 <= j < members.len() ==> members@[j].0@ != name@,
            },
        decreases members.len() - i,
    {
        if members[i].0 == name {
            let key = members[i].0.clone();
            members.set(i, (key, value));
            return;
        }
        i = i + 1;
    }
    members.push((name, value));
}

/// Assigning a member: afterwards the member `name` holds `value`, every other
/// member keeps its name and value, and no name occurs twice if none did.
pub proof fn law_set_member(members: Seq<(String, JsonValue)>, name: String, value: JsonValue)
    ensures
        ({
            let after = set_member(members, name, value);
            &&& member_position(after, name@) matches Some(p) && after[p].1 == value
            &&& forall|k: Seq<char>| k != name@ ==> #[trigger] member_position(after, k) == member_position(members, k)
            &&& forall|k: Seq<char>| k != name@ ==> match #[trigger] member_position(members, k) {
                Some(q) => after[q] == members[q],
                None => true,
            }
            &&& member_names(members).no_duplicates() ==> member_names(after).no_duplicates()
        }),
{
    let after = set_member(members, name, value);
    lemma_member_position(members, name@);
    match member_position(members, name@) {
        Some(i) => {
            assert forall|k: Seq<char>| #![trigger member_position(after, k)] true implies
                (member_position(after, k) == member_position(members, k)) by {
                lemma_member_position_update(members, i, (members[i].0, value), k);
            }
            assert(member_names(after) =~= member_names(members));
            assert forall|k: Seq<char>| k != name@ implies match #[trigger] member_position(members, k) {
                Some(q) => after[q] == members[q],
                None => true,
            } by {
                lemma_member_position(members, k);
            }
        },
        None => {
            assert forall|k: Seq<char>| #![trigger member_position(after, k)] true implies
                (member_position(after, k) == if k == name@ { Some(members.len() as int) } else { member_position(members, k) }) by {
                assert(after.drop_last() =~= members);
            }
            assert(member_names(after) =~= member_names(members).push(name@));
            assert forall|k: Seq<char>| k != name@ implies match #[trigger] member_position(members, k) {
                Some(q) => after[q] == members[q],
                None => true,
            } by {
                lemma_member_position(members, k);
            }
            if member_names(members).no_duplicates() {
                let an = member_names(after);
                assert forall|a: int, b: int| 0 <= a < an.len() && 0 <= b < an.len() && a != b
                    implies an[a] != an[b] by {
                    if a == members.len() || b == members.len() {
                        let k = if a == members.len() { b } else { a };
                        assert(an[k] == members[k].0@);
                    } else {
                        assert(an[a] == member_names(members)[a]);
                        assert(an[b] == member_names(members)[b]);
                    }
                }
            }
        },
    }
}

proof fn lemma_member_position_update(members: Seq<(String, JsonValue)>, i: int, entry: (String, JsonValue), k: Seq<char>)
    requires
        0 <= i < members.len(),
        entry.0@ == members[i].0@,
    ensures
        member_position(members.update(i, entry), k) == member_position(members, k),
    decreases members.len(),
{
    let updated = members.update(i, entry);
    if i < members.len() - 1 {
        lemma_member_position_update(members.drop_last(), i, entry, k);
        assert(updated.drop_last() =~= members.drop_last().update(i, entry));
    } else {
        assert(updated.drop_last() =~= members.drop_last());
    }
}

/// The names after assigning a member: the name is there, and so is every
/// name that was there before; no other name is.
pub proof fn lemma_set_member_names(members: Seq<(String, JsonValue)>, name: String, value: JsonValue)
    ensures
        forall|k: Seq<char>| #![trigger member_names(set_member(members, name, value)).contains(k)]
            member_names(set_member(members, name, value)).contains(k)
                <==> (k == name@ || member_names(members).contains(k)),
{
    lemma_member_position(members, name@);
    let after = set_member(members, name, value);
    match member_position(members, name@) {
        Some(i) => {
            assert(member_names(after) =~= member_names(members));
            assert(member_names(members)[i] == name@);
        },
        None => {
            assert(member_names(after) =~= member_names(members).push(name@));
            assert(member_names(after)[members.len() as int] == name@);
            assert forall|k: Seq<char>| member_names(members).contains(k) implies #[trigger] member_names(after).contains(k) by {
                let j = choose|j: int| 0 <= j < member_names(members).len() && member_names(members)[j] == k;
                assert(member_names(after)[j] == k);
            }
            assert forall|k: Seq<char>| #[trigger] member_names(after).contains(k) && k != name@ implies member_names(members).contains(k) by {
                let j = choose|j: int| 0 <= j < member_names(after).len() && member_names(after)[j] == k;
                assert(member_names(members)[j] == k);
            }
        },
    }
}

/// Where a member stands, it is in range and carries the name.
pub proof fn lemma_member_position_facts(members: Seq<(String, JsonValue)>, name: Seq<char>)
    ensures
        member_position(members, name) matches Some(p) ==> 0 <= p < members.len() && members[p].0@ == name,
{
    lemma_member_position(members, name);
}

} // verus!
