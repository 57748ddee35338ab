use enzin::json::{JsonNumber, JsonValue};
use enzin::schema::StoredValue;
use enzin::search::{
    assemble_hits, document_from_stored, fuzzy_terms, hit_from_stored, searchable, paginate, search, search_with_fuzzy, search_with_options,
};
use tantivy::schema::{Schema, STORED, TEXT};
use tantivy::{Index, TantivyDocument};
use tempfile::TempDir;

fn create_test_index() -> (TempDir, Index) {
    let temp_dir = TempDir::new().unwrap();
    let mut schema_builder = Schema::builder();
    schema_builder.add_text_field("title", TEXT | STORED);
    schema_builder.add_text_field("body", TEXT | STORED);

    let schema = schema_builder.build();
    let index = Index::create_in_dir(temp_dir.path(), schema).unwrap();

    (temp_dir, index)
}

fn add_titles(index: &Index, titles: &[&str]) {
    let schema = index.schema();
    let mut writer = index.writer(50_000_000).unwrap();
    let title_field = schema.get_field("title").unwrap();
    for title in titles {
        let mut doc = TantivyDocument::default();
        doc.add_text(title_field, title);
        writer.add_document(doc).unwrap();
    }
    writer.commit().unwrap();
}

#[test]
fn test_basic_search() {
    let (_temp_dir, index) = create_test_index();
    let schema = index.schema();

    let mut writer = index.writer(50_000_000).unwrap();

    let title_field = schema.get_field("title").unwrap();
    let body_field = schema.get_field("body").unwrap();

    let mut doc1 = TantivyDocument::default();
    doc1.add_text(title_field, "hello world");
    doc1.add_text(body_field, "this is a test");
    writer.add_document(doc1).unwrap();

    let mut doc2 = TantivyDocument::default();
    doc2.add_text(title_field, "goodbye world");
    doc2.add_text(body_field, "farewell");
    writer.add_document(doc2).unwrap();

    writer.commit().unwrap();

    let (results, total) = search(&index, "hello").unwrap();

    assert_eq!(total, 1);
    assert_eq!(results.len(), 1);
}

#[test]
fn test_search_multiple_results() {
    let (_temp_dir, index) = create_test_index();
    let schema = index.schema();

    let mut writer = index.writer(50_000_000).unwrap();
    let title_field = schema.get_field("title").unwrap();
    let body_field = schema.get_field("body").unwrap();

    for i in 0..3 {
        let mut doc = TantivyDocument::default();
        doc.add_text(title_field, format!("test document {}", i));
        doc.add_text(body_field, "contains test keyword");
        writer.add_document(doc).unwrap();
    }

    writer.commit().unwrap();

    let (results, total) = search(&index, "test").unwrap();

    assert_eq!(total, 3);
    assert_eq!(results.len(), 3);
}

#[test]
fn test_search_no_results() {
    let (_temp_dir, index) = create_test_index();
    add_titles(&index, &["hello"]);

    let (results, total) = search(&index, "xyz").unwrap();

    assert_eq!(total, 0);
    assert_eq!(results.len(), 0);
}

#[test]
fn test_search_returns_scores() {
    let (_temp_dir, index) = create_test_index();
    add_titles(&index, &["hello hello hello"]);

    let (results, _) = search(&index, "hello").unwrap();

    assert!(!results.is_empty());
    assert!(f32::from_bits(results[0].score_bits) > 0.0);
}

#[test]
fn test_fuzzy_search_typo() {
    let (_temp_dir, index) = create_test_index();
    add_titles(&index, &["hello"]);

    let (exact_results, _) = search(&index, "helo").unwrap();
    assert_eq!(exact_results.len(), 0);

    let (fuzzy_results, _) = search_with_fuzzy(&index, "helo", true).unwrap();
    assert_eq!(fuzzy_results.len(), 1);
}

#[test]
fn test_fuzzy_search_multiple_typos() {
    let (_temp_dir, index) = create_test_index();
    add_titles(&index, &["world", "earth", "globe"]);

    let (results, total) = search_with_fuzzy(&index, "word", true).unwrap();

    assert!(total > 0);
    assert!(!results.is_empty());
}

#[test]
fn test_fuzzy_search_exact_match_still_works() {
    let (_temp_dir, index) = create_test_index();
    add_titles(&index, &["precise"]);

    let (exact_results, exact_total) = search(&index, "precise").unwrap();
    let (fuzzy_results, fuzzy_total) = search_with_fuzzy(&index, "precise", true).unwrap();

    assert_eq!(exact_total, 1);
    assert_eq!(fuzzy_total, 1);
    assert_eq!(exact_results.len(), 1);
    assert_eq!(fuzzy_results.len(), 1);
}

#[test]
fn search_returns_stored_fields_as_json() {
    let (_temp_dir, index) = create_test_index();
    add_titles(&index, &["red shoes"]);
    let (results, total) = search(&index, "shoes").unwrap();
    assert_eq!(total, 1);
    assert_eq!(
        results[0].document,
        JsonValue::Object(vec![("title".to_string(), JsonValue::String("red shoes".to_string()))])
    );
}

#[test]
fn pagination_skips_offset_and_caps_limit() {
    let (_temp_dir, index) = create_test_index();
    add_titles(&index, &["test one", "test two", "test three", "test four", "test five"]);
    let (page, total) = search_with_options(&index, "test", false, 2, 0).unwrap();
    assert_eq!(total, 5);
    assert_eq!(page.len(), 2);
    let (page, total) = search_with_options(&index, "test", false, 2, 4).unwrap();
    assert_eq!(total, 5);
    assert_eq!(page.len(), 1);
    let (page, _) = search_with_options(&index, "test", false, 10, 7).unwrap();
    assert_eq!(page.len(), 0);
}

#[test]
fn invalid_query_is_refused() {
    let (_temp_dir, index) = create_test_index();
    add_titles(&index, &["hello"]);
    match search(&index, "title:(") {
        Err(enzin::error::EnzinError::InvalidDocument(msg)) => assert!(msg.starts_with("invalid query: ")),
        _ => panic!("expected an invalid query"),
    }
}

#[test]
fn index_without_indexed_fields_gives_nothing() {
    let temp_dir = TempDir::new().unwrap();
    let mut builder = Schema::builder();
    builder.add_u64_field("count", STORED);
    let index = Index::create_in_dir(temp_dir.path(), builder.build()).unwrap();
    assert!(!searchable(&index));
    let (results, total) = search_with_options(&index, "anything", true, 5, 0).unwrap();
    assert_eq!(results.len(), 0);
    assert_eq!(total, 0);
    let (results, total) = search_with_options(&index, "title:(", false, 0, 0).unwrap();
    assert_eq!(results.len(), 0);
    assert_eq!(total, 0);
}

#[test]
fn fuzzy_terms_cover_each_word_and_field() {
    let words = vec!["red".to_string(), "shoes".to_string()];
    let fields = vec![0u32, 3u32];
    let terms = fuzzy_terms(&words, &fields);
    let pairs: Vec<(u32, String)> = terms.iter().map(|t| (t.field, t.text.clone())).collect();
    assert_eq!(
        pairs,
        vec![
            (0, "red".to_string()),
            (3, "red".to_string()),
            (0, "shoes".to_string()),
            (3, "shoes".to_string()),
        ]
    );
    assert!(terms.iter().all(|t| t.distance == 1 && t.transposition_cost_one));
    assert!(fuzzy_terms(&vec![], &fields).is_empty());
}

#[test]
fn paginate_pages_join() {
    let items: Vec<u32> = (0..10).collect();
    assert_eq!(paginate(&items, 0, 3), vec![0, 1, 2]);
    assert_eq!(paginate(&items, 3, 4), vec![3, 4, 5, 6]);
    let mut joined = paginate(&items, 0, 3);
    joined.extend(paginate(&items, 3, 4));
    assert_eq!(joined, paginate(&items, 0, 7));
    assert_eq!(paginate(&items, 8, 5), vec![8, 9]);
    assert_eq!(paginate(&items, 12, 5), Vec::<u32>::new());
}

#[test]
fn document_assembly_overwrites_in_place() {
    let values = vec![
        ("title".to_string(), StoredValue::Str("a".to_string())),
        ("count".to_string(), StoredValue::U64(7)),
        ("title".to_string(), StoredValue::Str("b".to_string())),
        ("delta".to_string(), StoredValue::I64(-2)),
        ("pos".to_string(), StoredValue::I64(5)),
        ("other".to_string(), StoredValue::Other),
    ];
    let doc = document_from_stored(&values);
    assert_eq!(
        doc,
        JsonValue::Object(vec![
            ("title".to_string(), JsonValue::String("b".to_string())),
            ("count".to_string(), JsonValue::Number(JsonNumber::PosInt(7))),
            ("delta".to_string(), JsonValue::Number(JsonNumber::NegInt(-2))),
            ("pos".to_string(), JsonValue::Number(JsonNumber::PosInt(5))),
            ("other".to_string(), JsonValue::Null),
        ])
    );
    assert_eq!(document_from_stored(&vec![]), JsonValue::Object(vec![]));
}

#[test]
fn hit_keeps_score_and_document() {
    let values = vec![("title".to_string(), StoredValue::Str("x".to_string()))];
    let hit = hit_from_stored(1.5f32.to_bits(), &values);
    assert_eq!(f32::from_bits(hit.score_bits), 1.5);
    assert_eq!(hit.document, JsonValue::Object(vec![("title".to_string(), JsonValue::String("x".to_string()))]));
}

#[test]
fn last_page_of_three_matches() {
    let (_temp_dir, index) = create_test_index();
    assert!(searchable(&index));
    let schema = index.schema();
    let mut writer = index.writer(50_000_000).unwrap();
    let title_field = schema.get_field("title").unwrap();
    let body_field = schema.get_field("body").unwrap();
    for i in 0..3 {
        let mut doc = TantivyDocument::default();
        doc.add_text(title_field, format!("test document {}", i));
        doc.add_text(body_field, "contains test keyword");
        writer.add_document(doc).unwrap();
    }
    writer.commit().unwrap();
    let (results, total) = search_with_options(&index, "test", false, 2, 2).unwrap();
    assert_eq!(results.len(), 1);
    assert_eq!(total, 3);
    let (all, _) = search_with_options(&index, "test", false, 4, 0).unwrap();
    assert_eq!(all.len(), 3);
    assert_eq!(results[0].score_bits, all[2].score_bits);
    assert_eq!(results[0].document, all[2].document);
}

#[test]
fn assemble_hits_pairs_scores_and_documents() {
    let page = vec![(7u32, (0u32, 1u32)), (5u32, (0u32, 4u32))];
    let docs = vec![
        vec![("title".to_string(), StoredValue::Str("a".to_string()))],
        vec![("n".to_string(), StoredValue::U64(3))],
    ];
    let hits = assemble_hits(&page, &docs);
    assert_eq!(hits.len(), 2);
    assert_eq!(hits[0].score_bits, 7);
    assert_eq!(hits[1].score_bits, 5);
    assert_eq!(hits[1].document, JsonValue::Object(vec![("n".to_string(), JsonValue::Number(JsonNumber::PosInt(3)))]));
}

#[test]
fn consecutive_pages_join() {
    let (_temp_dir, index) = create_test_index();
    add_titles(&index, &["test a", "test b test", "test c test test", "test d", "test e"]);
    let (p1, t1) = search_with_options(&index, "test", false, 2, 1).unwrap();
    let (p2, t2) = search_with_options(&index, "test", false, 2, 3).unwrap();
    let (p3, t3) = search_with_options(&index, "test", false, 4, 1).unwrap();
    assert_eq!((t1, t2, t3), (5, 5, 5));
    let joined: Vec<u32> = p1.iter().chain(p2.iter()).map(|h| h.score_bits).collect();
    let whole: Vec<u32> = p3.iter().map(|h| h.score_bits).collect();
    assert_eq!(joined, whole);
}

#[test]
fn blank_fuzzy_query_matches_nothing() {
    let (_temp_dir, index) = create_test_index();
    add_titles(&index, &["hello"]);
    let (results, total) = search_with_fuzzy(&index, "   ", true).unwrap();
    assert_eq!(results.len(), 0);
    assert_eq!(total, 0);
}
