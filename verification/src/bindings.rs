//! The calls into tantivy, each behind a trusted item whose contract states
//! what tantivy's source shows of it.
use vstd::prelude::*;
use crate::schema::{stored_view, FieldEntrySpec, FieldInfo, FieldKind, StoredValue, StoredView};
use crate::search::{first_n, fuzzy_term_fields, term_specs, FuzzyTerm, QueryPlan, RankedMatch};

verus! {

#[verifier::external_type_specification]
#[verifier::external_body]
pub struct ExIndex(tantivy::Index);

#[verifier::external_type_specification]
#[verifier::external_body]
pub struct ExSchema(tantivy::schema::Schema);

#[verifier::external_type_specification]
#[verifier::external_body]
pub struct ExSchemaBuilder(tantivy::schema::SchemaBuilder);

#[verifier::external_type_specification]
#[verifier::external_body]
pub struct ExSearcher(tantivy::Searcher);

/// A query ready to run against a searcher: tantivy's boxed query, held
/// whole and out of sight.
#[verifier::external_body]
pub struct SearchQuery {
    inner: Box<dyn tantivy::query::Query>,
}

/// The field entries that a schema builder holds, in the order they were added.
pub uninterp spec fn builder_entries(b: tantivy::schema::SchemaBuilder) -> Seq<FieldEntrySpec>;

/// The field entries of a schema; the field with id `i` is entry `i`.
pub uninterp spec fn schema_entries(s: tantivy::schema::Schema) -> Seq<FieldEntrySpec>;

/// The field entries of an index's schema (fixed when the index was created).
pub uninterp spec fn index_entries(index: tantivy::Index) -> Seq<FieldEntrySpec>;

/// The field entries of the schema that a searcher reads with.
pub uninterp spec fn searcher_entries(searcher: tantivy::Searcher) -> Seq<FieldEntrySpec>;

/// The number of segments that a searcher holds.
pub uninterp spec fn searcher_segments(searcher: tantivy::Searcher) -> nat;

/// The ids of the fields that a query looks into.
pub uninterp spec fn query_fields(query: SearchQuery) -> Set<u32>;

/// How a query was built: from fuzzy terms (field, word, distance,
/// transposition counted as one edit), or parsed from a text over default fields.
pub uninterp spec fn query_plan(query: SearchQuery) -> QueryPlan;

/// The documents that a query matches in a searcher, best first, each with
/// its score's bit pattern and its address (segment, document). A searcher
/// reads a fixed set of segments, which tantivy never changes once written.
pub uninterp spec fn ranked_matches(searcher: tantivy::Searcher, query: SearchQuery) -> Seq<RankedMatch>;

/// The stored field values, with their fields' names, of the document at
/// (segment, doc) in a searcher.
pub uninterp spec fn stored_doc(searcher: tantivy::Searcher, segment: u32, doc: u32) -> Seq<(Seq<char>, StoredView)>;

/// Unicode's White_Space characters, which `char::is_whitespace` tells apart.
pub open spec fn is_white_space(c: char) -> bool {
    ||| ('\u{9}' <= c && c <= '\u{d}')
    ||| c == ' ' || c == '\u{85}' || c == '\u{a0}' || c == '\u{1680}'
    ||| ('\u{2000}' <= c && c <= '\u{200a}')
    ||| c == '\u{2028}' || c == '\u{2029}' || c == '\u{202f}' || c == '\u{205f}' || c == '\u{3000}'
}

/// The words of a string, as `str::split_whitespace` cuts them: the maximal
/// runs of characters that are not white space, in order.
pub open spec fn whitespace_words(s: Seq<char>) -> Seq<Seq<char>>
    decreases s.len(),
{
    if s.len() == 0 {
        Seq::empty()
    } else {
        let words = whitespace_words(s.drop_last());
        let c = s.last();
        if is_white_space(c) {
            words
        } else if s.len() >= 2 && !is_white_space(s[s.len() - 2]) {
            words.update(words.len() - 1, words.last().push(c))
        } else {
            words.push(seq![c])
        }
    }
}

/// The names that a schema builder already holds.
pub open spec fn entry_names(entries: Seq<FieldEntrySpec>) -> Seq<Seq<char>> {
    entries.map_values(|e: FieldEntrySpec| e.0)
}

/// tantivy accepts a field name that is not empty and does not start with `-`
/// (`schema::is_valid_field_name`); `FieldEntry::new` asserts it.
pub open spec fn valid_field_name(name: Seq<char>) -> bool {
    name.len() > 0 && name[0] != '-'
}

/// `Schema::builder`: a builder that holds no field.
#[verifier::external_body]
pub(crate) fn new_schema_builder() -> (b: tantivy::schema::SchemaBuilder)
    ensures
        builder_entries(b) == Seq::<FieldEntrySpec>::empty(),
{
    tantivy::schema::Schema::builder()
}

/// `SchemaBuilder::add_text_field` with the options `TEXT | STORED`: appends a
/// text field that is indexed (and stored). tantivy panics on an invalid name
/// or a name that the builder already holds, so both are ruled out.
#[verifier::external_body]
pub(crate) fn add_text_stored_field(b: &mut tantivy::schema::SchemaBuilder, name: &str)
    requires
        valid_field_name(name@),
        !entry_names(builder_entries(*old(b))).contains(name@),
    ensures
        builder_entries(*final(b)) == builder_entries(*old(b)).push((name@, FieldKind::Text, true, true)),
{
    b.add_text_field(name, tantivy::schema::TEXT | tantivy::schema::STORED);
}

/// `SchemaBuilder::add_u64_field` with the option `STORED`: appends an unsigned
/// integer field that is stored and not indexed. tantivy panics on an invalid
/// name or a name that the builder already holds, so both are ruled out.
#[verifier::external_body]
pub(crate) fn add_u64_stored_field(b: &mut tantivy::schema::SchemaBuilder, name: &str)
    requires
        valid_field_name(name@),
        !entry_names(builder_entries(*old(b))).contains(name@),
    ensures
        builder_entries(*final(b)) == builder_entries(*old(b)).push((name@, FieldKind::U64, false, true)),
{
    b.add_u64_field(name, tantivy::schema::STORED);
}

/// `SchemaBuilder::build`: the schema holds the builder's entries, in order.
#[verifier::external_body]
pub(crate) fn build_schema(b: tantivy::schema::SchemaBuilder) -> (s: tantivy::schema::Schema)
    ensures
        schema_entries(s) == builder_entries(b),
{
    b.build()
}

/// `Schema::fields`: one record per entry, in order; the field of entry `i`
/// has id `i`.
#[verifier::external_body]
pub(crate) fn schema_fields(s: &tantivy::schema::Schema) -> (r: Vec<FieldInfo>)
    ensures
        r@.len() == schema_entries(*s).len(),
        forall|i: int| 0 <= i < r@.len() ==> {
            &&& (#[trigger] r@[i]).id as int == i % 0x1_0000_0000
            &&& r@[i].name@ == schema_entries(*s)[i].0
            &&& r@[i].kind == schema_entries(*s)[i].1
            &&& r@[i].indexed == schema_entries(*s)[i].2
            &&& r@[i].stored == schema_entries(*s)[i].3
        },
{
    s.fields().map(|(field, entry)| FieldInfo {
        id: field.field_id(),
        name: entry.name().to_string(),
        kind: match entry.field_type() {
            tantivy::schema::FieldType::Str(_) => FieldKind::Text,
            tantivy::schema::FieldType::U64(_) => FieldKind::U64,
            _ => FieldKind::Other,
        },
        indexed: entry.is_indexed(),
        stored: entry.is_stored(),
    }).collect()
}

/// `Index::schema`: the schema the index was created with.
#[verifier::external_body]
pub(crate) fn index_schema(index: &tantivy::Index) -> (s: tantivy::schema::Schema)
    ensures
        schema_entries(s) == index_entries(*index),
{
    index.schema()
}

/// `Index::reader` and then `IndexReader::searcher`: a searcher over the
/// index's committed segments, which reads with the index's schema, or
/// tantivy's error as text. Whether it fails depends on the index's
/// directory, so that is not stated.
#[verifier::external_body]
pub(crate) fn open_searcher(index: &tantivy::Index) -> (r: Result<tantivy::Searcher, String>)
    ensures
        r matches Ok(s) ==> searcher_entries(s) == index_entries(*index),
{
    match index.reader() {
        Ok(reader) => Ok(reader.searcher()),
        Err(e) => Err(e.to_string()),
    }
}

/// `str::split_whitespace`, collected: the words of `s`.
#[verifier::external_body]
pub(crate) fn split_whitespace(s: &str) -> (r: Vec<String>)
    ensures
        r@.map_values(|w: String| w@) == whitespace_words(s@),
{
    s.split_whitespace().map(|w| w.to_string()).collect()
}

/// `BooleanQuery::union` of one `FuzzyTermQuery::new(Term::from_field_text(field,
/// text), distance, transposition_cost_one)` per given term, in order: a query
/// that looks into the terms' fields. Which documents it matches is not
/// stated.
#[verifier::external_body]
pub(crate) fn fuzzy_union_query(terms: &Vec<FuzzyTerm>) -> (q: SearchQuery)
    ensures
        query_fields(q) == fuzzy_term_fields(terms@),
        query_plan(q) == QueryPlan::Fuzzy(term_specs(terms@)),
{
    let queries: Vec<Box<dyn tantivy::query::Query>> = terms.iter().map(|t| {
        let term = tantivy::Term::from_field_text(tantivy::schema::Field::from_field_id(t.field), &t.text);
        Box::new(tantivy::query::FuzzyTermQuery::new(term, t.distance, t.transposition_cost_one))
            as Box<dyn tantivy::query::Query>
    }).collect();
    SearchQuery { inner: Box::new(tantivy::query::BooleanQuery::union(queries)) }
}

/// `QueryParser::for_index(index, fields).parse_query(text)`: the parsed query,
/// or the parser's error as text. The parser reads the entry of each default
/// field in the index's schema (it panics on an id the schema lacks), and a
/// parsed query looks only into fields that the schema holds. Whether the
/// text parses depends on the index's tokenizers, so that is not stated.
#[verifier::external_body]
pub(crate) fn parse_query(index: &tantivy::Index, fields: &Vec<u32>, text: &str) -> (r: Result<SearchQuery, String>)
    requires
        forall|i: int| 0 <= i < fields@.len() ==> (#[trigger] fields@[i]) < index_entries(*index).len(),
    ensures
        r matches Ok(q) ==> (forall|f: u32| #[trigger] query_fields(q).contains(f) ==> f < index_entries(*index).len())
            && query_plan(q) == QueryPlan::Parsed(fields@, text@),
{
    let fields = fields.iter().map(|f| tantivy::schema::Field::from_field_id(*f)).collect();
    match tantivy::query::QueryParser::for_index(index, fields).parse_query(text) {
        Ok(q) => Ok(SearchQuery { inner: q }),
        Err(e) => Err(e.to_string()),
    }
}

/// Every field that the query looks into is a field of the searcher's schema;
/// tantivy's segment readers panic on any other.
pub open spec fn query_fits(searcher: tantivy::Searcher, query: SearchQuery) -> bool {
    forall|f: u32| #[trigger] query_fields(query).contains(f) ==> f < searcher_entries(searcher).len()
}

/// `Searcher::search` with `TopDocs::with_limit(limit)`: the first `limit`
/// of the query's ranked matches, each with its score (as the bit pattern of
/// the `f32`) and its address (segment ordinal, document id) in this searcher.
/// `with_limit` panics on 0, so 0 is ruled out.
#[verifier::external_body]
pub(crate) fn top_docs(searcher: &tantivy::Searcher, query: &SearchQuery, limit: usize) -> (r: Result<Vec<(u32, (u32, u32))>, String>)
    requires
        limit >= 1,
        query_fits(*searcher, *query),
    ensures
        r matches Ok(v) ==> v@ == first_n(ranked_matches(*searcher, *query), limit as nat)
            && forall|i: int| 0 <= i < v@.len() ==> ((#[trigger] v@[i]).1.0 as nat) < searcher_segments(*searcher),
{
    match searcher.search(query.inner.as_ref(), &tantivy::collector::TopDocs::with_limit(limit)) {
        Ok(v) => Ok(v.into_iter().map(|(score, addr)| (score.to_bits(), (addr.segment_ord, addr.doc_id))).collect()),
        Err(e) => Err(e.to_string()),
    }
}

/// `Searcher::search` with the `Count` collector: the number of documents
/// that the query matches (those that `TopDocs` ranks).
#[verifier::external_body]
pub(crate) fn count_matches(searcher: &tantivy::Searcher, query: &SearchQuery) -> (r: Result<usize, String>)
    requires
        query_fits(*searcher, *query),
    ensures
        r matches Ok(c) ==> c == ranked_matches(*searcher, *query).len(),
{
    searcher.search(query.inner.as_ref(), &tantivy::collector::Count).map_err(|e| e.to_string())
}

/// `Searcher::doc` at (segment, doc), then each stored field value with its
/// field's name in the schema: `Str`, `U64` and `I64` values are kept, any
/// other kind of value is `Other`. The segment must be one of the searcher's
/// (tantivy indexes its segment list with it) and the schema the searcher's
/// (its documents' fields are looked up in it).
#[verifier::external_body]
pub(crate) fn stored_fields(searcher: &tantivy::Searcher, schema: &tantivy::schema::Schema, segment: u32, doc: u32) -> (r: Result<Vec<(String, StoredValue)>, String>)
    requires
        (segment as nat) < searcher_segments(*searcher),
        schema_entries(*schema) == searcher_entries(*searcher),
    ensures
        r matches Ok(v) ==> stored_view(v@) == stored_doc(*searcher, segment, doc),
{
    match searcher.doc::<tantivy::TantivyDocument>(tantivy::DocAddress::new(segment, doc)) {
        Ok(d) => Ok(d.into_iter().map(|fv| (schema.get_field_name(fv.field).to_string(), match fv.value {
            tantivy::schema::OwnedValue::Str(s) => StoredValue::Str(s),
            tantivy::schema::OwnedValue::U64(u) => StoredValue::U64(u),
            tantivy::schema::OwnedValue::I64(i) => StoredValue::I64(i),
            _ => StoredValue::Other,
        })).collect()),
        Err(e) => Err(e.to_string()),
    }
}

} // verus!
