//! Search over an index: query planning, pagination and the assembly of
//! result documents.
use vstd::prelude::*;
use crate::bindings::{count_matches, fuzzy_union_query, index_entries, index_schema, open_searcher,
    parse_query, query_fields, query_fits, query_plan, ranked_matches, schema_entries, schema_fields,
    searcher_entries, searcher_segments, split_whitespace, stored_doc, stored_fields, top_docs,
    whitespace_words, SearchQuery};
use crate::error::{prefixed, starts_with, EnzinError, ErrorView};
use crate::json::{law_set_member, member_names, member_position, number_from_i64_spec, set_member, set_object_member, JsonNumber, JsonValue};
use crate::schema::{has_indexed_entry, indexed_field_ids, indexed_fields, indexed_positions, lemma_indexed_field_ids,
    lemma_indexed_positions, stored_view, FieldEntrySpec, FieldInfo, StoredValue};

verus! {

/// One fuzzy term of a query: the field to look in, the word, and the
/// edit distance that a match may be off by.
#[derive(Debug)]
pub struct FuzzyTerm {
    pub field: u32,
    pub text: String,
    pub distance: u8,
    pub transposition_cost_one: bool,
}

/// A hit: the stored fields of the document as a JSON object, and its score
/// (the bit pattern of the `f32` score).
#[derive(Debug)]
pub struct SearchResult {
    pub document: JsonValue,
    pub score_bits: u32,
}

/// The answer to a search request.
#[derive(Debug)]
pub struct SearchResponse {
    pub query: String,
    pub hits: Vec<SearchResult>,
    pub total: usize,
    pub took_ms: u128,
}

/// The number of hits a search returns when no limit is given.
pub const DEFAULT_LIMIT: usize = 20;

/// The edit distance of a fuzzy term.
pub const FUZZY_DISTANCE: u8 = 1;

// ---------------------------------------------------------------- planning

/// The (field, word) pairs of a fuzzy query: for each word in order, one pair
/// per field in order.
pub open spec fn fuzzy_plan(words: Seq<Seq<char>>, fields: Seq<u32>) -> Seq<(u32, Seq<char>)>
    decreases words.len(),
{
    if words.len() == 0 {
        Seq::empty()
    } else {
        fuzzy_plan(words.drop_last(), fields) + fields.map_values(|f: u32| (f, words.last()))
    }
}

/// The (field, word) pairs of fuzzy terms.
pub open spec fn term_pairs(terms: Seq<FuzzyTerm>) -> Seq<(u32, Seq<char>)> {
    terms.map_values(|t: FuzzyTerm| (t.field, t.text@))
}

/// Fuzzy terms as the contracts see them: field, word, edit distance, and
/// whether a transposition counts as one edit.
pub open spec fn term_specs(terms: Seq<FuzzyTerm>) -> Seq<(u32, Seq<char>, u8, bool)> {
    terms.map_values(|t: FuzzyTerm| (t.field, t.text@, t.distance, t.transposition_cost_one))
}

/// The fuzzy terms planned for these words and fields: each (field, word)
/// pair of `fuzzy_plan`, one edit away, a transposition counted as one edit.
pub open spec fn fuzzy_specs(words: Seq<Seq<char>>, fields: Seq<u32>) -> Seq<(u32, Seq<char>, u8, bool)> {
    fuzzy_plan(words, fields).map_values(|p: (u32, Seq<char>)| (p.0, p.1, FUZZY_DISTANCE, true))
}

/// How a query is built.
pub enum QueryPlan {
    /// The union of fuzzy terms: (field, word, distance, transposition counted as one edit).
    Fuzzy(Seq<(u32, Seq<char>, u8, bool)>),
    /// A text in tantivy's query language, parsed over default fields.
    Parsed(Seq<u32>, Seq<char>),
}

/// The fields that fuzzy terms look into.
pub open spec fn fuzzy_term_fields(terms: Seq<FuzzyTerm>) -> Set<u32> {
    Set::new(|f: u32| exists|i: int| 0 <= i < terms.len() && (#[trigger] terms[i]).field == f)
}

/// Plans a fuzzy query: one term per word and field, each allowing one edit,
/// with a transposition counted as one edit.
pub fn fuzzy_terms(words: &Vec<String>, fields: &Vec<u32>) -> (r: Vec<FuzzyTerm>)
    ensures
        term_pairs(r@) == fuzzy_plan(words@.map_values(|w: String| w@), fields@),
        forall|i: int| 0 <= i < r@.len() ==> (#[trigger] r@[i]).distance == FUZZY_DISTANCE
            && r@[i].transposition_cost_one,
        forall|i: int| 0 <= i < r@.len() ==> fields@.contains((#[trigger] r@[i]).field),
        term_specs(r@) == fuzzy_specs(words@.map_values(|w: String| w@), fields@),
{
    let ghost wv = words@.map_values(|w: String| w@);
    let mut r: Vec<FuzzyTerm> = Vec::new();
    let mut i: usize = 0;
    while i < words.len()
        invariant
            i <= words.len(),
            wv == words@.map_values(|w: String| w@),
            term_pairs(r@) == fuzzy_plan(wv.take(i as int), fields@),
            forall|k: int| 0 <= k < r@.len() ==> (#[trigger] r@[k]).distance == FUZZY_DISTANCE
                && r@[k].transposition_cost_one,
            forall|k: int| 0 <= k < r@.len() ==> fields@.contains((#[trigger] r@[k]).field),
        decreases words.len() - i,
    {
        let ghost before = term_pairs(r@);
        let mut j: usize = 0;
        while j < fields.len()
            invariant
                i < words.len(),
                j <= fields.len(),
                wv == words@.map_values(|w: String| w@),
                term_pairs(r@) == before + fields@.take(j as int).map_values(|f: u32| (f, wv[i as int])),
                forall|k: int| 0 <= k < r@.len() ==> (#[trigger] r@[k]).distance == FUZZY_DISTANCE
                    && r@[k].transposition_cost_one,
                forall|k: int| 0 <= k < r@.len() ==> fields@.contains((#[trigger] r@[k]).field),
            decreases fields.len() - j,
        {
            let ghost prev = r@;
            r.push(FuzzyTerm {
                field: fields[j],
                text: words[i].clone(),
                distance: FUZZY_DISTANCE,
                transposition_cost_one: true,
            });
            assert(term_pairs(r@) =~= term_pairs(prev).push((fields@[j as int], wv[i as int])));
            assert(fields@.take(j + 1).map_values(|f: u32| (f, wv[i as int]))
                =~= fields@.take(j as int).map_values(|f: u32| (f, wv[i as int])).push((fields@[j as int], wv[i as int])));
            j = j + 1;
        }
        assert(fields@.take(fields.len() as int) =~= fields@);
        assert(wv.take(i + 1).drop_last() =~= wv.take(i as int));
        i = i + 1;
    }
    assert(wv.take(words.len() as int) =~= wv);
    assert(term_specs(r@) =~= fuzzy_specs(wv, fields@)) by {
        assert forall|k: int| 0 <= k < r@.len() implies #[trigger] term_specs(r@)[k] == fuzzy_specs(wv, fields@)[k] by {
            assert(term_pairs(r@)[k] == fuzzy_plan(wv, fields@)[k]);
        }
    }
    r
}

// -------------------------------------------------------------- pagination

/// The start of the page: `offset`, or the end of the list.
pub open spec fn page_start(len: nat, offset: nat) -> nat {
    if offset <= len { offset } else { len }
}

/// The end of the page: `offset + limit`, or the end of the list.
pub open spec fn page_end(len: nat, offset: nat, limit: nat) -> nat {
    if offset + limit <= len { offset + limit } else { len }
}

/// The first `n` items, or all of them if there are fewer.
pub open spec fn first_n<T>(items: Seq<T>, n: nat) -> Seq<T> {
    if items.len() <= n { items } else { items.take(n as int) }
}

/// The page of `items` that starts at `offset` and holds at most `limit` items.
pub open spec fn page_of<T>(items: Seq<T>, offset: nat, limit: nat) -> Seq<T> {
    items.subrange(page_start(items.len(), offset) as int, page_end(items.len(), offset, limit) as int)
}

/// The page of `items` that starts at `offset` and holds at most `limit` items.
pub fn paginate<T: Copy>(items: &Vec<T>, offset: usize, limit: usize) -> (r: Vec<T>)
    requires
        offset + limit <= usize::MAX,
    ensures
        r@ == page_of(items@, offset as nat, limit as nat),
{
    let len = items.len();
    let start = if offset <= len { offset } else { len };
    let end = if offset + limit <= len { offset + limit } else { len };
    let mut r: Vec<T> = Vec::new();
    let mut i = start;
    while i < end
        invariant
            start <= i <= end <= len == items@.len(),
            start == page_start(len as nat, offset as nat),
            end == page_end(len as nat, offset as nat, limit as nat),
            r@ == items@.subrange(start as int, i as int),
        decreases end - i,
    {
        r.push(items[i]);
        assert(items@.subrange(start as int, i + 1) =~= items@.subrange(start as int, i as int).push(items@[i as int]));
        i = i + 1;
    }
    r
}

// ---------------------------------------------------------------- documents

/// The JSON value of a stored value: text as a string, integers as numbers,
/// anything else as null.
pub open spec fn stored_json(v: StoredValue) -> JsonValue {
    match v {
        StoredValue::Str(s) => JsonValue::String(s),
        StoredValue::U64(u) => JsonValue::Number(JsonNumber::PosInt(u)),
        StoredValue::I64(i) => JsonValue::Number(number_from_i64_spec(i)),
        StoredValue::Other => JsonValue::Null,
    }
}

/// The members of the object made of stored field values, assigned in order:
/// a field that occurs again overwrites the earlier value in place.
pub open spec fn assemble(values: Seq<(String, StoredValue)>) -> Seq<(String, JsonValue)>
    decreases values.len(),
{
    if values.len() == 0 {
        Seq::empty()
    } else {
        set_member(assemble(values.drop_last()), values.last().0, stored_json(values.last().1))
    }
}

fn stored_to_json(v: &StoredValue) -> (r: JsonValue)
    ensures
        r == stored_json(*v),
{
    match v {
        StoredValue::Str(s) => JsonValue::String(s.clone()),
        StoredValue::U64(u) => JsonValue::Number(JsonNumber::PosInt(*u)),
        StoredValue::I64(i) => JsonValue::Number(JsonNumber::from_i64(*i)),
        StoredValue::Other => JsonValue::Null,
    }
}

/// The JSON object of a document's stored field values.
pub fn document_from_stored(values: &Vec<(String, StoredValue)>) -> (r: JsonValue)
    ensures
        r matches JsonValue::Object(members) && members@ == assemble(values@),
{
    let mut members: Vec<(String, JsonValue)> = Vec::new();
    let mut i: usize = 0;
    while i < values.len()
        invariant
            i <= values.len(),
            members@ == assemble(values@.take(i as int)),
        decreases values.len() - i,
    {
        assert(values@.take(i + 1).drop_last() =~= values@.take(i as int));
        let name = values[i].0.clone();
        let value = stored_to_json(&values[i].1);
        set_object_member(&mut members, name, value);
        i = i + 1;
    }
    assert(values@.take(values.len() as int) =~= values@);
    JsonValue::Object(members)
}

// ------------------------------------------------------------------ search

/// A ranked match as tantivy answers it: the score's bit pattern and the
/// address (segment ordinal, document id).
pub type RankedMatch = (u32, (u32, u32));

/// The hits are the page's matches in order, each with its score kept and
/// its document made of the corresponding stored values.
pub open spec fn hits_from(hits: Seq<SearchResult>, page: Seq<RankedMatch>, docs: Seq<Vec<(String, StoredValue)>>) -> bool {
    &&& hits.len() == page.len()
    &&& docs.len() == page.len()
    &&& forall|k: int| 0 <= k < hits.len() ==> {
        &&& (#[trigger] hits[k]).score_bits == page[k].0
        &&& (hits[k].document matches JsonValue::Object(members) && members@ == assemble(docs[k]@))
    }
}

/// The hits are the given ranked matches of a searcher, in order: each keeps
/// the match's score, and its document is made of the stored values at the
/// match's address; each document names each field once.
pub open spec fn hits_of_matches(hits: Seq<SearchResult>, searcher: tantivy::Searcher, page: Seq<RankedMatch>) -> bool {
    &&& exists|docs: Seq<Vec<(String, StoredValue)>>| #![trigger hits_from(hits, page, docs)]
        hits_from(hits, page, docs)
        && forall|k: int| 0 <= k < docs.len() ==> stored_view((#[trigger] docs[k])@) == stored_doc(searcher, page[k].1.0, page[k].1.1)
    &&& forall|i: int| 0 <= i < hits.len() ==> ((#[trigger] hits[i]).document matches
        JsonValue::Object(members) && member_names(members@).no_duplicates())
}

/// What a page of a query's matches in a searcher is: the page at `offset`,
/// of at most `limit` hits, of the query's ranked matches, with the number of
/// all matches; or an error of the search, the count or a document fetch.
pub open spec fn page_outcome(
    r: Result<(Vec<SearchResult>, usize), EnzinError>,
    searcher: tantivy::Searcher,
    query: SearchQuery,
    offset: usize,
    limit: usize,
) -> bool {
    match r {
        Ok((hits, total)) => {
            &&& total == ranked_matches(searcher, query).len()
            &&& hits_of_matches(hits@, searcher, page_of(ranked_matches(searcher, query), offset as nat, limit as nat))
        },
        Err(e) => e@ matches ErrorView::InternalError(m) && {
            ||| starts_with(m, "search failed: "@)
            ||| starts_with(m, "count failed: "@)
            ||| starts_with(m, "failed to retrieve doc: "@)
        },
    }
}

/// The query that a search of `text` plans over the fields of a schema: the
/// fuzzy terms of its words in the indexed fields, or the text parsed over
/// the indexed fields.
pub open spec fn planned_query(entries: Seq<FieldEntrySpec>, text: Seq<char>, fuzzy: bool) -> QueryPlan {
    if fuzzy {
        QueryPlan::Fuzzy(fuzzy_specs(whitespace_words(text), indexed_positions(entries)))
    } else {
        QueryPlan::Parsed(indexed_positions(entries), text)
    }
}

/// What holds of every search outcome.
/// - On an index with an indexed field, the answer is that of a searcher of
///   the index for the planned query: the page at `offset` of at most
///   `limit` of its ranked matches, with the number of all its matches.
/// - On an index with no indexed field, the answer is no hit and a total of
///   0, unless the index could not be read.
/// - An error is internal (reading, searching, counting or fetching failed),
///   or, for a query that is not fuzzy, a query that does not parse.
pub open spec fn search_outcome(
    r: Result<(Vec<SearchResult>, usize), EnzinError>,
    index: tantivy::Index,
    query_str: Seq<char>,
    fuzzy: bool,
    limit: usize,
    offset: usize,
) -> bool {
    match r {
        Ok((hits, total)) => {
            &&& !has_indexed_entry(index_entries(index)) ==> hits@.len() == 0 && total == 0
            &&& has_indexed_entry(index_entries(index)) ==> exists|searcher: tantivy::Searcher, query: SearchQuery|
                #![trigger page_outcome(r, searcher, query, offset, limit)]
                searcher_entries(searcher) == index_entries(index)
                && query_plan(query) == planned_query(index_entries(index), query_str, fuzzy)
                && page_outcome(r, searcher, query, offset, limit)
        },
        Err(e) => match e@ {
            ErrorView::InternalError(m) => {
                ||| starts_with(m, "failed to create reader: "@)
                ||| has_indexed_entry(index_entries(index)) && {
                    ||| starts_with(m, "search failed: "@)
                    ||| starts_with(m, "count failed: "@)
                    ||| starts_with(m, "failed to retrieve doc: "@)
                }
            },
            ErrorView::InvalidDocument(m) => !fuzzy && has_indexed_entry(index_entries(index))
                && starts_with(m, "invalid query: "@),
            ErrorView::IndexNotFound(_) => false,
        },
    }
}

/// The hit for a document with this score and these stored values.
pub fn hit_from_stored(score_bits: u32, values: &Vec<(String, StoredValue)>) -> (r: SearchResult)
    ensures
        r.score_bits == score_bits,
        r.document matches JsonValue::Object(members) && members@ == assemble(values@),
{
    SearchResult { document: document_from_stored(values), score_bits }
}

/// The hits of a page: one per ranked match, in order, with its score and the
/// document made of its stored values.
pub fn assemble_hits(page: &Vec<RankedMatch>, docs: &Vec<Vec<(String, StoredValue)>>) -> (r: Vec<SearchResult>)
    requires
        docs@.len() == page@.len(),
    ensures
        hits_from(r@, page@, docs@),
        forall|i: int| 0 <= i < r@.len() ==> ((#[trigger] r@[i]).document matches
            JsonValue::Object(members) && member_names(members@).no_duplicates()),
{
    let mut r: Vec<SearchResult> = Vec::new();
    let mut i: usize = 0;
    while i < page.len()
        invariant
            i <= page@.len() == docs@.len(),
            r@.len() == i,
            forall|k: int| 0 <= k < i ==> {
                &&& (#[trigger] r@[k]).score_bits == page@[k].0
                &&& (r@[k].document matches JsonValue::Object(members) && members@ == assemble(docs@[k]@))
            },
            forall|k: int| 0 <= k < r@.len() ==> ((#[trigger] r@[k]).document matches
                JsonValue::Object(members) && member_names(members@).no_duplicates()),
        decreases page.len() - i,
    {
        let hit = hit_from_stored(page[i].0, &docs[i]);
        proof { law_document_members(docs@[i as int]@); }
        r.push(hit);
        i = i + 1;
    }
    r
}

fn internal(prefix: &str, detail: String) -> (e: EnzinError)
    ensures
        e@ matches ErrorView::InternalError(m) && starts_with(m, prefix@),
{
    EnzinError::InternalError(prefixed(prefix, detail.as_str()))
}

/// Whether the index has a field that a search can look into.
pub fn searchable(index: &tantivy::Index) -> (r: bool)
    ensures
        r == has_indexed_entry(index_entries(*index)),
{
    let schema = index_schema(index);
    let fields = schema_fields(&schema);
    let text_fields = indexed_fields(&fields);
    proof { lemma_fields_indexed(fields@, schema_entries(schema)); }
    text_fields.len() > 0
}

proof fn lemma_fields_indexed(fields: Seq<FieldInfo>, entries: Seq<FieldEntrySpec>)
    requires
        fields.len() == entries.len(),
        forall|i: int| 0 <= i < fields.len() ==> {
            &&& (#[trigger] fields[i]).id as int == i % 0x1_0000_0000
            &&& fields[i].indexed == entries[i].2
        },
    ensures
        (indexed_field_ids(fields).len() > 0) == has_indexed_entry(entries),
        forall|k: int| 0 <= k < indexed_field_ids(fields).len() ==> (#[trigger] indexed_field_ids(fields)[k]) < entries.len(),
{
    lemma_indexed_field_ids(fields);
    if indexed_field_ids(fields).len() > 0 {
        let k = 0int;
        let i = choose|i: int| 0 <= i < fields.len() && (#[trigger] fields[i]).indexed && fields[i].id == indexed_field_ids(fields)[k];
        assert(entries[i].2);
    }
    if has_indexed_entry(entries) {
        let i = choose|i: int| 0 <= i < entries.len() && (#[trigger] entries[i]).2;
        assert(fields[i].indexed);
    }
    assert forall|k: int| 0 <= k < indexed_field_ids(fields).len() implies (#[trigger] indexed_field_ids(fields)[k]) < entries.len() by {
        let i = choose|i: int| 0 <= i < fields.len() && (#[trigger] fields[i]).indexed && fields[i].id == indexed_field_ids(fields)[k];
        assert(fields[i].id as int == i % 0x1_0000_0000);
    }
}

/// Runs a query on a searcher and returns the page of hits that starts at
/// `offset` and holds at most `limit` of them, with the number of all
/// matching documents.
pub fn search_page(
    searcher: &tantivy::Searcher,
    schema: &tantivy::schema::Schema,
    query: &SearchQuery,
    offset: usize,
    limit: usize,
) -> (r: Result<(Vec<SearchResult>, usize), EnzinError>)
    requires
        1 <= offset + limit <= usize::MAX,
        query_fits(*searcher, *query),
        schema_entries(*schema) == searcher_entries(*searcher),
    ensures
        page_outcome(r, *searcher, *query, offset, limit),
{
    proof {
        reveal_strlit("search failed: ");
        reveal_strlit("count failed: ");
        reveal_strlit("failed to retrieve doc: ");
    }
    let max_limit = offset + limit;
    let top = match top_docs(searcher, query, max_limit) {
        Ok(t) => t,
        Err(e) => return Err(internal("search failed: ", e)),
    };
    let total = match count_matches(searcher, query) {
        Ok(c) => c,
        Err(e) => return Err(internal("count failed: ", e)),
    };
    let ghost ranked = ranked_matches(*searcher, *query);
    let page = paginate(&top, offset, limit);
    proof {
        law_page_bounds(top@, offset as nat, limit as nat);
        lemma_page_of_first_n(ranked, offset as nat, limit as nat);
    }
    let mut docs: Vec<Vec<(String, StoredValue)>> = Vec::new();
    let mut i: usize = 0;
    while i < page.len()
        invariant
            i <= page@.len(),
            docs@.len() == i,
            page@ == page_of(top@, offset as nat, limit as nat),
            forall|k: int| 0 <= k < top@.len() ==> ((#[trigger] top@[k]).1.0 as nat) < searcher_segments(*searcher),
            forall|k: int| 0 <= k < page@.len() ==> #[trigger] page@[k] == top@[offset + k],
            schema_entries(*schema) == searcher_entries(*searcher),
            forall|k: int| 0 <= k < i ==> stored_view((#[trigger] docs@[k])@) == stored_doc(*searcher, page@[k].1.0, page@[k].1.1),
        decreases page.len() - i,
    {
        let (_score_bits, (segment, doc)) = page[i];
        assert(page@[i as int] == top@[offset + i]);
        let values = match stored_fields(searcher, schema, segment, doc) {
            Ok(v) => v,
            Err(e) => return Err(internal("failed to retrieve doc: ", e)),
        };
        docs.push(values);
        i = i + 1;
    }
    let hits = assemble_hits(&page, &docs);
    proof {
        assert(hits_from(hits@, page@, docs@));
    }
    Ok((hits, total))
}

proof fn lemma_page_of_first_n<T>(items: Seq<T>, offset: nat, limit: nat)
    ensures
        page_of(first_n(items, offset + limit), offset, limit) == page_of(items, offset, limit),
{
    assert(page_of(first_n(items, offset + limit), offset, limit) =~= page_of(items, offset, limit));
}

/// Searches the indexed fields of `index` for `query_str` and returns the
/// page of hits that starts at `offset` and holds at most `limit` of them,
/// with the number of all matching documents. A fuzzy search looks for each
/// word of the query in each indexed field, one edit away at most; otherwise
/// the query is parsed by tantivy's query language. An index without indexed
/// fields gives no hits.
pub fn search_with_options(
    index: &tantivy::Index,
    query_str: &str,
    fuzzy: bool,
    limit: usize,
    offset: usize,
) -> (r: Result<(Vec<SearchResult>, usize), EnzinError>)
    requires
        has_indexed_entry(index_entries(*index)) ==> 1 <= offset + limit <= usize::MAX,
    ensures
        search_outcome(r, *index, query_str@, fuzzy, limit, offset),
{
    proof {
        reveal_strlit("failed to create reader: ");
        reveal_strlit("invalid query: ");
    }
    let schema = index_schema(index);
    let searcher = match open_searcher(index) {
        Ok(s) => s,
        Err(e) => return Err(internal("failed to create reader: ", e)),
    };
    let fields = schema_fields(&schema);
    let text_fields = indexed_fields(&fields);
    proof {
        lemma_fields_indexed(fields@, schema_entries(schema));
        lemma_indexed_positions(fields@, schema_entries(schema));
    }
    if text_fields.len() == 0 {
        return Ok((Vec::new(), 0));
    }
    let query: SearchQuery = if fuzzy {
        let words = split_whitespace(query_str);
        let terms = fuzzy_terms(&words, &text_fields);
        let q = fuzzy_union_query(&terms);
        proof {
            assert forall|f: u32| #[trigger] query_fields(q).contains(f) implies f < searcher_entries(searcher).len() by {
                let i = choose|i: int| 0 <= i < terms@.len() && (#[trigger] terms@[i]).field == f;
                assert(text_fields@.contains(terms@[i].field));
                let k = choose|k: int| 0 <= k < text_fields@.len() && text_fields@[k] == f;
                assert(indexed_field_ids(fields@)[k] < schema_entries(schema).len());
            }
        }
        q
    } else {
        match parse_query(index, &text_fields, query_str) {
            Ok(q) => q,
            Err(e) => return Err(EnzinError::InvalidDocument(prefixed("invalid query: ", e.as_str()))),
        }
    };
    let r = search_page(&searcher, &schema, &query, offset, limit);
    proof {
        assert(searcher_entries(searcher) == index_entries(*index));
        assert(query_plan(query) == planned_query(index_entries(*index), query_str@, fuzzy));
        assert(page_outcome(r, searcher, query, offset, limit));
    }
    r
}

/// A plain (not fuzzy) search for the first page of hits.
pub fn search(index: &tantivy::Index, query_str: &str) -> (r: Result<(Vec<SearchResult>, usize), EnzinError>)
    ensures
        search_outcome(r, *index, query_str@, false, DEFAULT_LIMIT, 0),
{
    search_with_options(index, query_str, false, DEFAULT_LIMIT, 0)
}

/// A search for the first page of hits, fuzzy or not.
pub fn search_with_fuzzy(index: &tantivy::Index, query_str: &str, fuzzy: bool) -> (r: Result<(Vec<SearchResult>, usize), EnzinError>)
    ensures
        search_outcome(r, *index, query_str@, fuzzy, DEFAULT_LIMIT, 0),
{
    search_with_options(index, query_str, fuzzy, DEFAULT_LIMIT, 0)
}

// -------------------------------------------------------------------- laws

/// A page holds at most `limit` items: those of the list from `offset` on,
/// as many as there are up to `limit`.
pub proof fn law_page_bounds<T>(items: Seq<T>, offset: nat, limit: nat)
    ensures
        page_of(items, offset, limit).len() <= limit,
        offset <= items.len() ==> page_of(items, offset, limit).len()
            == if offset + limit <= items.len() { limit } else { (items.len() - offset) as nat },
        forall|i: int| 0 <= i < page_of(items, offset, limit).len()
            ==> #[trigger] page_of(items, offset, limit)[i] == items[offset + i],
{
}

/// Consecutive pages join into the page that spans both.
pub proof fn law_pages_concatenate<T>(items: Seq<T>, offset: nat, first: nat, second: nat)
    ensures
        page_of(items, offset, first) + page_of(items, offset + first, second)
            == page_of(items, offset, first + second),
{
    assert(page_of(items, offset, first) + page_of(items, offset + first, second)
        =~= page_of(items, offset, first + second));
}

/// A fuzzy plan has one term per word and field: the term for word `w` and
/// field `f` stands at `w * fields + f`.
pub proof fn law_fuzzy_plan_shape(words: Seq<Seq<char>>, fields: Seq<u32>)
    ensures
        fuzzy_plan(words, fields).len() == words.len() * fields.len(),
        forall|w: int, f: int| 0 <= w < words.len() && 0 <= f < fields.len()
            ==> #[trigger] fuzzy_plan(words, fields)[w * fields.len() + f] == (fields[f], words[w]),
    decreases words.len(),
{
    if words.len() > 0 {
        let init = words.drop_last();
        law_fuzzy_plan_shape(init, fields);
        let n = fields.len();
        let m = init.len();
        assert((m + 1) * n == m * n + n) by (nonlinear_arith);
        assert forall|w: int, f: int| 0 <= w < words.len() && 0 <= f < fields.len()
            implies #[trigger] fuzzy_plan(words, fields)[w * fields.len() + f] == (fields[f], words[w]) by {
            if w < m {
                assert(w * n + f < m * n) by (nonlinear_arith)
                    requires 0 <= w < m, 0 <= f < n;
                assert(init[w] == words[w]);
            } else {
                assert(w * n == m * n) by (nonlinear_arith) requires w == m;
            }
        }
    }
}

/// The object made of stored values names each member once, and holds a
/// member for each name among the stored values (and no other).
pub proof fn law_document_members(values: Seq<(String, StoredValue)>)
    ensures
        member_names(assemble(values)).no_duplicates(),
        forall|k: Seq<char>| #![trigger member_names(assemble(values)).contains(k)]
            member_names(assemble(values)).contains(k)
                <==> values.map_values(|v: (String, StoredValue)| v.0@).contains(k),
    decreases values.len(),
{
    if values.len() > 0 {
        let init = values.drop_last();
        law_document_members(init);
        let before = assemble(init);
        let last = values.last();
        law_set_member(before, last.0, stored_json(last.1));
        crate::json::lemma_set_member_names(before, last.0, stored_json(last.1));
        let vn = values.map_values(|v: (String, StoredValue)| v.0@);
        let vn0 = init.map_values(|v: (String, StoredValue)| v.0@);
        assert(vn =~= vn0.push(last.0@));
        assert forall|k: Seq<char>| #![trigger member_names(assemble(values)).contains(k)]
            member_names(assemble(values)).contains(k) <==> vn.contains(k) by {
            if vn.contains(k) && k != last.0@ {
                let j = choose|j: int| 0 <= j < vn.len() && vn[j] == k;
                assert(vn0[j] == k);
            }
            if vn0.contains(k) {
                let j = choose|j: int| 0 <= j < vn0.len() && vn0[j] == k;
                assert(vn[j] == k);
            }
            assert(vn[vn.len() - 1] == last.0@);
        }
    }
}

/// The scores of hits, in order.
pub open spec fn hit_scores(hits: Seq<SearchResult>) -> Seq<u32> {
    hits.map_values(|h: SearchResult| h.score_bits)
}

proof fn lemma_hit_scores(hits: Seq<SearchResult>, searcher: tantivy::Searcher, page: Seq<RankedMatch>)
    requires
        hits_of_matches(hits, searcher, page),
    ensures
        hit_scores(hits) == page.map_values(|m: RankedMatch| m.0),
{
    let docs = choose|docs: Seq<Vec<(String, StoredValue)>>| #![trigger hits_from(hits, page, docs)]
        hits_from(hits, page, docs)
        && forall|k: int| 0 <= k < docs.len() ==> stored_view((#[trigger] docs[k])@) == stored_doc(searcher, page[k].1.0, page[k].1.1);
    assert(hit_scores(hits) =~= page.map_values(|m: RankedMatch| m.0));
}

/// Pages of one query on one searcher agree: each gives the number of all
/// matches, and the pages at `offset` of `first` hits and at
/// `offset + first` of `second` hits join, score for score, into the page at
/// `offset` of `first + second` hits.
pub proof fn law_pages_of_one_searcher(
    searcher: tantivy::Searcher,
    query: SearchQuery,
    offset: usize,
    first: usize,
    second: usize,
    hits1: Vec<SearchResult>,
    total1: usize,
    hits2: Vec<SearchResult>,
    total2: usize,
    hits3: Vec<SearchResult>,
    total3: usize,
)
    requires
        offset + first <= usize::MAX,
        first + second <= usize::MAX,
        page_outcome(Ok((hits1, total1)), searcher, query, offset, first),
        page_outcome(Ok((hits2, total2)), searcher, query, (offset + first) as usize, second),
        page_outcome(Ok((hits3, total3)), searcher, query, offset, (first + second) as usize),
    ensures
        total1 == total2 && total2 == total3,
        hit_scores(hits1@) + hit_scores(hits2@) == hit_scores(hits3@),
{
    let ranked = ranked_matches(searcher, query);
    let p1 = page_of(ranked, offset as nat, first as nat);
    let p2 = page_of(ranked, (offset + first) as nat, second as nat);
    let p3 = page_of(ranked, offset as nat, (first + second) as nat);
    lemma_hit_scores(hits1@, searcher, p1);
    lemma_hit_scores(hits2@, searcher, p2);
    lemma_hit_scores(hits3@, searcher, p3);
    law_pages_concatenate(ranked, offset as nat, first as nat, second as nat);
    assert(p1.map_values(|m: RankedMatch| m.0) + p2.map_values(|m: RankedMatch| m.0)
        =~= (p1 + p2).map_values(|m: RankedMatch| m.0));
}

/// The document made of stored values holds, under each stored field's name,
/// the field's last stored value as JSON: text as the same string, an
/// unsigned integer `u` as the number `u`, a signed integer as that number
/// (negative ones as negative integers), anything else as null.
pub proof fn law_document_values(values: Seq<(String, StoredValue)>, i: int)
    requires
        0 <= i < values.len(),
        forall|j: int| i < j < values.len() ==> (#[trigger] values[j]).0@ != values[i].0@,
    ensures
        member_position(assemble(values), values[i].0@) matches Some(p) && ({
            let v = assemble(values)[p].1;
            &&& assemble(values)[p].0@ == values[i].0@
            &&& (values[i].1 matches StoredValue::Str(s) ==> (v matches JsonValue::String(t) && t@ == s@))
            &&& (values[i].1 matches StoredValue::U64(u) ==> v == JsonValue::Number(JsonNumber::PosInt(u)))
            &&& (values[i].1 matches StoredValue::I64(n) ==> v == JsonValue::Number(
                if n < 0 { JsonNumber::NegInt(n) } else { JsonNumber::PosInt(n as u64) }))
            &&& (values[i].1 is Other ==> v == JsonValue::Null)
        }),
    decreases values.len(),
{
    let init = values.drop_last();
    let last = values.last();
    let before = assemble(init);
    law_set_member(before, last.0, stored_json(last.1));
    crate::json::lemma_member_position_facts(assemble(values), values[i].0@);
    if i < values.len() - 1 {
        assert forall|j: int| i < j < init.len() implies (#[trigger] init[j]).0@ != init[i].0@ by {
            assert(init[j] == values[j]);
            assert(values[j].0@ != values[i].0@);
        }
        law_document_values(init, i);
        assert(init[i] == values[i]);
        assert(values[values.len() - 1].0@ != values[i].0@);
    }
}

} // verus!
