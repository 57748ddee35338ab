//! Schema inference: the fields that a JSON document asks of an index.
use vstd::prelude::*;
use crate::bindings::{add_text_stored_field, add_u64_stored_field, build_schema, builder_entries, new_schema_builder, schema_entries, valid_field_name};
use crate::error::join3;
use crate::json::JsonValue;

verus! {

/// The kind of a schema field, as far as this engine tells kinds apart.
#[derive(Debug, Clone, Copy, PartialEq, Eq)]
pub enum FieldKind {
    Text,
    U64,
    Other,
}

/// A field entry as the contracts see it: name, kind, whether it is indexed,
/// and whether its values are stored.
pub type FieldEntrySpec = (Seq<char>, FieldKind, bool, bool);

/// A field of a schema, as plain values.
#[derive(Debug)]
pub struct FieldInfo {
    pub id: u32,
    pub name: String,
    pub kind: FieldKind,
    pub indexed: bool,
    pub stored: bool,
}

/// A stored value of a document, as far as search results tell values apart.
#[derive(Debug, PartialEq)]
pub enum StoredValue {
    Str(String),
    U64(u64),
    I64(i64),
    Other,
}

/// A stored value as the contracts see it.
pub enum StoredView {
    Str(Seq<char>),
    U64(u64),
    I64(i64),
    Other,
}

pub open spec fn stored_value_view(v: StoredValue) -> StoredView {
    match v {
        StoredValue::Str(s) => StoredView::Str(s@),
        StoredValue::U64(u) => StoredView::U64(u),
        StoredValue::I64(i) => StoredView::I64(i),
        StoredValue::Other => StoredView::Other,
    }
}

/// The stored field values of a document as the contracts see them.
pub open spec fn stored_view(values: Seq<(String, StoredValue)>) -> Seq<(Seq<char>, StoredView)> {
    values.map_values(|v: (String, StoredValue)| (v.0@, stored_value_view(v.1)))
}

/// The field that a member of this value asks for (kind, indexed, stored): a
/// string becomes a stored, indexed text field, a number or a boolean a
/// stored, unindexed u64 field; any other value has no field.
pub open spec fn field_for(v: JsonValue) -> Option<(FieldKind, bool, bool)> {
    match v {
        JsonValue::String(_) => Some((FieldKind::Text, true, true)),
        JsonValue::Number(_) => Some((FieldKind::U64, false, true)),
        JsonValue::Bool(_) => Some((FieldKind::U64, false, true)),
        _ => None,
    }
}

pub open spec fn unsupported_message(name: Seq<char>) -> Seq<char> {
    "unsupported field type for '"@ + name + "'"@
}

pub open spec fn not_object_message() -> Seq<char> {
    "document must be a json object"@
}

/// The fields inferred from the members of an object, in order, or the
/// message for the first member whose value has no field.
pub open spec fn infer_members(members: Seq<(String, JsonValue)>) -> Result<Seq<FieldEntrySpec>, Seq<char>>
    decreases members.len(),
{
    if members.len() == 0 {
        Ok(Seq::empty())
    } else {
        match infer_members(members.drop_last()) {
            Err(m) => Err(m),
            Ok(fields) => match field_for(members.last().1) {
                Some((kind, indexed, stored)) => Ok(fields.push((members.last().0@, kind, indexed, stored))),
                None => Err(unsupported_message(members.last().0@)),
            },
        }
    }
}

/// The schema inferred from a document: its fields, or the error message.
pub open spec fn infer_schema_spec(doc: JsonValue) -> Result<Seq<FieldEntrySpec>, Seq<char>> {
    match doc {
        JsonValue::Object(members) => infer_members(members@),
        _ => Err(not_object_message()),
    }
}

/// The inputs on which inference does not stop at a tantivy panic: every
/// member that inference reaches with a supported value (all members before
/// it supported too) has a valid field name, unlike those of the members
/// before it.
pub open spec fn inference_defined(doc: JsonValue) -> bool {
    match doc {
        JsonValue::Object(members) => forall|i: int|
            #![trigger members@[i]]
            0 <= i < members@.len()
                && (forall|j: int| 0 <= j <= i ==> (#[trigger] field_for(members@[j].1)) is Some)
                ==> {
                    &&& valid_field_name(members@[i].0@)
                    &&& forall|j: int| 0 <= j < i ==> (#[trigger] members@[j]).0@ != members@[i].0@
                },
        _ => true,
    }
}

proof fn lemma_infer_prefix(members: Seq<(String, JsonValue)>, i: int)
    requires
        0 <= i < members.len(),
        infer_members(members.take(i)) is Ok,
    ensures
        members.take(i + 1).drop_last() == members.take(i),
        infer_members(members.take(i + 1)) == match field_for(members[i].1) {
            Some((kind, indexed, stored)) => Ok(infer_members(members.take(i))->Ok_0.push((members[i].0@, kind, indexed, stored))),
            None => Err::<Seq<FieldEntrySpec>, Seq<char>>(unsupported_message(members[i].0@)),
        },
{
    assert(members.take(i + 1).drop_last() =~= members.take(i));
}

proof fn lemma_infer_err_extends(members: Seq<(String, JsonValue)>, k: int, n: int)
    requires
        0 <= k <= n <= members.len(),
        infer_members(members.take(k)) is Err,
    ensures
        infer_members(members.take(n)) == infer_members(members.take(k)),
    decreases n - k,
{
    if n > k {
        lemma_infer_err_extends(members, k, n - 1);
        assert(members.take(n).drop_last() =~= members.take(n - 1));
    }
}

proof fn lemma_infer_ok_prefix(members: Seq<(String, JsonValue)>, n: int)
    requires
        0 <= n <= members.len(),
        infer_members(members.take(n)) is Ok,
    ensures
        infer_members(members.take(n))->Ok_0.len() == n,
        forall|j: int| 0 <= j < n ==> (#[trigger] field_for(members[j].1)) is Some,
        forall|j: int| 0 <= j < n ==> (#[trigger] infer_members(members.take(n))->Ok_0[j]).0 == members[j].0@,
    decreases n,
{
    if n > 0 {
        assert(members.take(n).drop_last() =~= members.take(n - 1));
        lemma_infer_ok_prefix(members, n - 1);
    }
}

/// Infers a schema from a JSON document: each member of the object becomes a
/// field, in order (strings indexed text, numbers and booleans stored u64).
/// A document that is not an object, or a member of another kind, is refused
/// with a message.
pub fn infer_schema_from_document(doc: &JsonValue) -> (r: Result<tantivy::schema::Schema, String>)
    requires
        inference_defined(*doc),
    ensures
        match infer_schema_spec(*doc) {
            Ok(fields) => r matches Ok(s) && schema_entries(s) == fields,
            Err(m) => r matches Err(e) && e@ == m,
        },
{
    proof {
        reveal_strlit("document must be a json object");
        reveal_strlit("unsupported field type for '");
        reveal_strlit("'");
    }
    match doc {
        JsonValue::Object(members) => {
            let mut builder = new_schema_builder();
            let n = members.len();
            let mut i: usize = 0;
            assert(members@.take(0) =~= Seq::<(String, JsonValue)>::empty());
            while i < n
                invariant
                    n == members@.len(),
                    0 <= i <= n,
                    inference_defined(*doc),
                    *doc == JsonValue::Object(*members),
                    infer_members(members@.take(i as int)) == Ok::<Seq<FieldEntrySpec>, Seq<char>>(builder_entries(builder)),
                decreases n - i,
            {
                proof {
                    lemma_infer_prefix(members@, i as int);
                    lemma_infer_ok_prefix(members@, i as int);
                }
                let name = &members[i].0;
                match &members[i].1 {
                    JsonValue::String(_) => {
                        proof { assert(field_for(members@[i as int].1) is Some); }
                        add_text_stored_field(&mut builder, name.as_str());
                    },
                    JsonValue::Number(_) | JsonValue::Bool(_) => {
                        proof { assert(field_for(members@[i as int].1) is Some); }
                        add_u64_stored_field(&mut builder, name.as_str());
                    },
                    _ => {
                        proof {
                            lemma_infer_err_extends(members@, i + 1, n as int);
                            assert(members@.take(n as int) =~= members@);
                        }
                        return Err(join3("unsupported field type for '", name.as_str(), "'"));
                    },
                }
                i = i + 1;
            }
            assert(members@.take(n as int) =~= members@);
            Ok(build_schema(builder))
        },
        _ => Err(String::from_str("document must be a json object")),
    }
}

/// Whether some entry of a schema is indexed.
pub open spec fn has_indexed_entry(entries: Seq<FieldEntrySpec>) -> bool {
    exists|i: int| 0 <= i < entries.len() && (#[trigger] entries[i]).2
}

/// A schema without fields.
pub fn empty_schema() -> (s: tantivy::schema::Schema)
    ensures
        schema_entries(s) == Seq::<FieldEntrySpec>::empty(),
{
    build_schema(new_schema_builder())
}

/// The ids of the indexed fields, in schema order.
pub open spec fn indexed_field_ids(fields: Seq<FieldInfo>) -> Seq<u32>
    decreases fields.len(),
{
    if fields.len() == 0 {
        Seq::empty()
    } else if fields.last().indexed {
        indexed_field_ids(fields.drop_last()).push(fields.last().id)
    } else {
        indexed_field_ids(fields.drop_last())
    }
}

/// Picks the fields that a search can look into: the indexed ones.
pub fn indexed_fields(fields: &Vec<FieldInfo>) -> (r: Vec<u32>)
    ensures
        r@ == indexed_field_ids(fields@),
{
    let mut r: Vec<u32> = Vec::new();
    let mut i: usize = 0;
    while i < fields.len()
        invariant
            i <= fields.len(),
            r@ == indexed_field_ids(fields@.take(i as int)),
        decreases fields.len() - i,
    {
        assert(fields@.take(i + 1).drop_last() =~= fields@.take(i as int));
        if fields[i].indexed {
            r.push(fields[i].id);
        }
        i = i + 1;
    }
    assert(fields@.take(fields.len() as int) =~= fields@);
    r
}

/// The names of the indexed fields, in schema order.
pub open spec fn indexed_field_names(fields: Seq<FieldInfo>) -> Seq<Seq<char>>
    decreases fields.len(),
{
    if fields.len() == 0 {
        Seq::empty()
    } else if fields.last().indexed {
        indexed_field_names(fields.drop_last()).push(fields.last().name@)
    } else {
        indexed_field_names(fields.drop_last())
    }
}

/// The names of the members whose value is a string, in order.
pub open spec fn string_member_names(members: Seq<(String, JsonValue)>) -> Seq<Seq<char>>
    decreases members.len(),
{
    if members.len() == 0 {
        Seq::empty()
    } else if members.last().1 is String {
        string_member_names(members.drop_last()).push(members.last().0@)
    } else {
        string_member_names(members.drop_last())
    }
}

/// The field records describe the entries one for one, as `Schema::fields` gives them.
pub open spec fn fields_describe(infos: Seq<FieldInfo>, entries: Seq<FieldEntrySpec>) -> bool {
    &&& infos.len() == entries.len()
    &&& forall|i: int| 0 <= i < infos.len() ==> {
        &&& (#[trigger] infos[i]).name@ == entries[i].0
        &&& infos[i].kind == entries[i].1
        &&& infos[i].indexed == entries[i].2
        &&& infos[i].stored == entries[i].3
    }
}

/// An inferred schema has one field per member, in order and under the
/// member's name; the fields that a search looks into (the indexed ones) are
/// exactly the members whose value is a string.
pub proof fn law_inferred_fields(members: Seq<(String, JsonValue)>, infos: Seq<FieldInfo>)
    requires
        infer_members(members) is Ok,
        fields_describe(infos, infer_members(members)->Ok_0),
    ensures
        infos.len() == members.len(),
        forall|i: int| 0 <= i < members.len() ==> (#[trigger] infos[i]).name@ == members[i].0@,
        indexed_field_names(infos) == string_member_names(members),
    decreases members.len(),
{
    if members.len() > 0 {
        let fields = infer_members(members)->Ok_0;
        let init = members.drop_last();
        let fields0 = infer_members(init)->Ok_0;
        assert(fields == fields0.push((members.last().0@, field_for(members.last().1)->Some_0.0, field_for(members.last().1)->Some_0.1, field_for(members.last().1)->Some_0.2)));
        let infos0 = infos.drop_last();
        assert(fields_describe(infos0, fields0)) by {
            assert forall|i: int| 0 <= i < infos0.len() implies {
                &&& (#[trigger] infos0[i]).name@ == fields0[i].0
                &&& infos0[i].kind == fields0[i].1
                &&& infos0[i].indexed == fields0[i].2
                &&& infos0[i].stored == fields0[i].3
            } by {
                assert(infos0[i] == infos[i]);
                assert(fields0[i] == fields[i]);
            }
        }
        law_inferred_fields(init, infos0);
        assert forall|i: int| 0 <= i < members.len() implies (#[trigger] infos[i]).name@ == members[i].0@ by {
            if i < members.len() - 1 {
                assert(infos0[i] == infos[i]);
                assert(init[i] == members[i]);
            } else {
                assert(infos[i].name@ == fields[i].0);
            }
        }
        assert(infos.last().indexed == fields.last().2);
    }
}

/// Each id that `indexed_field_ids` keeps is the id of an indexed field, and
/// it keeps none exactly when no field is indexed.
pub proof fn lemma_indexed_field_ids(fields: Seq<FieldInfo>)
    ensures
        forall|k: int| 0 <= k < indexed_field_ids(fields).len() ==> exists|i: int|
            0 <= i < fields.len() && (#[trigger] fields[i]).indexed && fields[i].id == #[trigger] indexed_field_ids(fields)[k],
        indexed_field_ids(fields).len() == 0 <==> forall|i: int| 0 <= i < fields.len() ==> !(#[trigger] fields[i]).indexed,
    decreases fields.len(),
{
    if fields.len() > 0 {
        let init = fields.drop_last();
        lemma_indexed_field_ids(init);
        let ids = indexed_field_ids(fields);
        let ids0 = indexed_field_ids(init);
        assert forall|k: int| 0 <= k < ids.len() implies exists|i: int|
            0 <= i < fields.len() && (#[trigger] fields[i]).indexed && fields[i].id == #[trigger] ids[k] by {
            if k < ids0.len() {
                let i = choose|i: int| 0 <= i < init.len() && (#[trigger] init[i]).indexed && init[i].id == ids0[k];
                assert(init[i] == fields[i]);
            } else {
                assert(fields[fields.len() - 1].indexed);
            }
        }
        if ids.len() == 0 {
            assert forall|i: int| 0 <= i < fields.len() implies !(#[trigger] fields[i]).indexed by {
                if i < init.len() {
                    assert(init[i] == fields[i]);
                }
            }
        }
        if forall|i: int| 0 <= i < fields.len() ==> !(#[trigger] fields[i]).indexed {
            assert forall|i: int| 0 <= i < init.len() implies !(#[trigger] init[i]).indexed by {
                assert(init[i] == fields[i]);
            }
            assert(!fields[fields.len() - 1].indexed);
        }
    }
}

/// The ids of a schema's indexed fields, in order (the field at position `i`
/// has id `i`).
pub open spec fn indexed_positions(entries: Seq<FieldEntrySpec>) -> Seq<u32>
    decreases entries.len(),
{
    if entries.len() == 0 {
        Seq::empty()
    } else if entries.last().2 {
        indexed_positions(entries.drop_last()).push(((entries.len() - 1) % 0x1_0000_0000) as u32)
    } else {
        indexed_positions(entries.drop_last())
    }
}

/// Field records that describe a schema's entries one for one, with ids as
/// `Schema::fields` gives them, pick the schema's indexed positions.
pub proof fn lemma_indexed_positions(fields: Seq<FieldInfo>, entries: Seq<FieldEntrySpec>)
    requires
        fields.len() == entries.len(),
        forall|i: int| 0 <= i < fields.len() ==> {
            &&& (#[trigger] fields[i]).id as int == i % 0x1_0000_0000
            &&& fields[i].indexed == entries[i].2
        },
    ensures
        indexed_field_ids(fields) == indexed_positions(entries),
    decreases fields.len(),
{
    if fields.len() > 0 {
        let f0 = fields.drop_last();
        let e0 = entries.drop_last();
        assert forall|i: int| 0 <= i < f0.len() implies {
            &&& (#[trigger] f0[i]).id as int == i % 0x1_0000_0000
            &&& f0[i].indexed == e0[i].2
        } by {
            assert(f0[i] == fields[i]);
            assert(e0[i] == entries[i]);
        }
        lemma_indexed_positions(f0, e0);
        let n = fields.len() - 1;
        assert(fields[n].id as int == n % 0x1_0000_0000);
    }
}

/// Inference from an object succeeds exactly when every member's value is a
/// string, a number (of whatever form) or a boolean. Then the schema has one
/// field per member, in order and under the member's name: a string gives an
/// indexed, stored text field; a number or a boolean a stored, unindexed u64
/// field. Otherwise the answer names the first member whose value is null,
/// an array or an object.
pub proof fn law_inference_accepts(members: Seq<(String, JsonValue)>)
    ensures
        (infer_members(members) is Ok) <==> forall|i: int| 0 <= i < members.len() ==> {
            ||| (#[trigger] members[i]).1 is String
            ||| members[i].1 is Number
            ||| members[i].1 is Bool
        },
        infer_members(members) matches Ok(fields) ==> {
            &&& fields.len() == members.len()
            &&& forall|i: int| 0 <= i < members.len() ==> {
                &&& (#[trigger] fields[i]).0 == members[i].0@
                &&& fields[i].3
                &&& (members[i].1 is String ==> fields[i].1 == FieldKind::Text && fields[i].2)
                &&& (!(members[i].1 is String) ==> fields[i].1 == FieldKind::U64 && !fields[i].2)
            }
        },
        infer_members(members) matches Err(m) ==> exists|i: int| {
            &&& 0 <= i < members.len()
            &&& m == "unsupported field type for '"@ + (#[trigger] members[i]).0@ + "'"@
            &&& !(members[i].1 is String || members[i].1 is Number || members[i].1 is Bool)
            &&& forall|j: int| 0 <= j < i ==> ((#[trigger] members[j]).1 is String || members[j].1 is Number || members[j].1 is Bool)
        },
    decreases members.len(),
{
    if members.len() > 0 {
        let init = members.drop_last();
        law_inference_accepts(init);
        let n = members.len() - 1;
        assert forall|i: int| 0 <= i < init.len() implies #[trigger] init[i] == members[i] by {}
        if infer_members(init) is Ok {
            let fields0 = infer_members(init)->Ok_0;
            if infer_members(members) is Ok {
                let fields = infer_members(members)->Ok_0;
                assert forall|k: int| 0 <= k < members.len() implies {
                    ||| (#[trigger] members[k]).1 is String
                    ||| members[k].1 is Number
                    ||| members[k].1 is Bool
                } by {
                    if k < n {
                        assert(init[k] == members[k]);
                    }
                }
                assert forall|i: int| 0 <= i < members.len() implies {
                    &&& (#[trigger] fields[i]).0 == members[i].0@
                    &&& fields[i].3
                    &&& (members[i].1 is String ==> fields[i].1 == FieldKind::Text && fields[i].2)
                    &&& (!(members[i].1 is String) ==> fields[i].1 == FieldKind::U64 && !fields[i].2)
                } by {
                    if i < n {
                        assert(fields[i] == fields0[i]);
                        assert(init[i] == members[i]);
                    }
                }
            } else {
                assert(!(members[n].1 is String || members[n].1 is Number || members[n].1 is Bool));
                assert forall|j: int| 0 <= j < n implies ((#[trigger] members[j]).1 is String || members[j].1 is Number || members[j].1 is Bool) by {
                    assert(init[j] == members[j]);
                }
                assert(!(forall|k: int| 0 <= k < members.len() ==> {
                    ||| (#[trigger] members[k]).1 is String
                    ||| members[k].1 is Number
                    ||| members[k].1 is Bool
                })) by {
                    let k = n;
                    assert(!(members[k].1 is String || members[k].1 is Number || members[k].1 is Bool));
                }
            }
        } else {
            let i = choose|i: int| {
                &&& 0 <= i < init.len()
                &&& infer_members(init)->Err_0 == "unsupported field type for '"@ + (#[trigger] init[i]).0@ + "'"@
                &&& !(init[i].1 is String || init[i].1 is Number || init[i].1 is Bool)
                &&& forall|j: int| 0 <= j < i ==> ((#[trigger] init[j]).1 is String || init[j].1 is Number || init[j].1 is Bool)
            };
            assert(init[i] == members[i]);
            assert forall|j: int| 0 <= j < i implies ((#[trigger] members[j]).1 is String || members[j].1 is Number || members[j].1 is Bool) by {
                assert(init[j] == members[j]);
            }
            assert(!(forall|k: int| 0 <= k < members.len() ==> {
                ||| (#[trigger] members[k]).1 is String
                ||| members[k].1 is Number
                ||| members[k].1 is Bool
            })) by {
                assert(!(members[i].1 is String || members[i].1 is Number || members[i].1 is Bool));
            }
        }
    }
}

} // verus!
