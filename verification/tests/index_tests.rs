use enzin::error::EnzinError;
use enzin::index::IndexManager;
use tantivy::schema::Schema;
use tantivy::Index;
use tempfile::TempDir;

fn new_manager(temp_dir: &TempDir) -> IndexManager {
    IndexManager::new(temp_dir.path().to_string_lossy().to_string())
}

fn create(manager: &mut IndexManager, name: &str) -> Result<(), EnzinError> {
    manager.check_create(name)?;
    let index = Index::create_in_ram(Schema::builder().build());
    manager.create_index(name, index)
}

#[test]
fn test_create_index() {
    let temp_dir = TempDir::new().unwrap();
    let mut manager = new_manager(&temp_dir);

    let result = create(&mut manager, "test");
    assert!(result.is_ok());

    let indexes = manager.list_indexes();
    assert_eq!(indexes.len(), 1);
    assert!(indexes.contains(&"test".to_string()));
}

#[test]
fn test_create_duplicate_index() {
    let temp_dir = TempDir::new().unwrap();
    let mut manager = new_manager(&temp_dir);

    create(&mut manager, "test").unwrap();
    let result = create(&mut manager, "test");

    assert!(result.is_err());
}

#[test]
fn test_delete_index() {
    let temp_dir = TempDir::new().unwrap();
    let mut manager = new_manager(&temp_dir);

    create(&mut manager, "test").unwrap();
    let result = manager.delete_index("test");

    assert!(result.is_ok());
    let indexes = manager.list_indexes();
    assert_eq!(indexes.len(), 0);
}

#[test]
fn test_delete_nonexistent_index() {
    let temp_dir = TempDir::new().unwrap();
    let mut manager = new_manager(&temp_dir);

    let result = manager.delete_index("nonexistent");
    assert!(result.is_err());
}

#[test]
fn test_get_index() {
    let temp_dir = TempDir::new().unwrap();
    let mut manager = new_manager(&temp_dir);

    create(&mut manager, "test").unwrap();
    let result = manager.get_index("test");

    assert!(result.is_ok());
}

#[test]
fn test_get_nonexistent_index() {
    let temp_dir = TempDir::new().unwrap();
    let manager = new_manager(&temp_dir);

    let result = manager.get_index("nonexistent");
    assert!(result.is_err());
}

#[test]
fn duplicate_create_is_refused_with_message() {
    let mut manager = IndexManager::new("data".to_string());
    create(&mut manager, "products").unwrap();
    match manager.check_create("products") {
        Err(EnzinError::InvalidDocument(msg)) => assert_eq!(msg, "index 'products' already exists"),
        other => panic!("unexpected: {:?}", other),
    }
    let index = Index::create_in_ram(Schema::builder().build());
    match manager.create_index("products", index) {
        Err(EnzinError::InvalidDocument(msg)) => assert_eq!(msg, "index 'products' already exists"),
        other => panic!("unexpected: {:?}", other),
    }
    assert_eq!(manager.list_indexes(), vec!["products".to_string()]);
}

#[test]
fn missing_index_messages() {
    let mut manager = IndexManager::new("data".to_string());
    match manager.get_index("ghost") {
        Err(EnzinError::IndexNotFound(msg)) => assert_eq!(msg, "index 'ghost' not found"),
        _ => panic!("expected IndexNotFound"),
    }
    match manager.delete_index("ghost") {
        Err(EnzinError::IndexNotFound(msg)) => assert_eq!(msg, "index 'ghost' not found"),
        _ => panic!("expected IndexNotFound"),
    }
}

#[test]
fn delete_undoes_create_and_keeps_others() {
    let mut manager = IndexManager::new("data".to_string());
    create(&mut manager, "a").unwrap();
    create(&mut manager, "b").unwrap();
    create(&mut manager, "c").unwrap();
    assert_eq!(manager.list_indexes(), vec!["a".to_string(), "b".to_string(), "c".to_string()]);
    manager.delete_index("b").unwrap();
    assert_eq!(manager.list_indexes(), vec!["a".to_string(), "c".to_string()]);
    assert!(manager.get_index("a").is_ok());
    assert!(manager.get_index("c").is_ok());
    assert!(manager.get_index("b").is_err());
    create(&mut manager, "b").unwrap();
    assert_eq!(manager.list_indexes(), vec!["a".to_string(), "c".to_string(), "b".to_string()]);
    assert_eq!(manager.data_dir(), "data");
}

#[test]
fn get_returns_the_registered_index() {
    let mut manager = IndexManager::new("data".to_string());
    let mut builder = Schema::builder();
    builder.add_text_field("title", tantivy::schema::TEXT);
    let index = Index::create_in_ram(builder.build());
    manager.create_index("books", index).unwrap();
    let found = manager.get_index("books").unwrap();
    assert_eq!(found.schema().num_fields(), 1);
}

#[test]
fn listed_names_are_distinct() {
    let mut manager = IndexManager::new("data".to_string());
    create(&mut manager, "x").unwrap();
    assert!(create(&mut manager, "x").is_err());
    create(&mut manager, "y").unwrap();
    let names = manager.list_indexes();
    assert_eq!(names, vec!["x".to_string(), "y".to_string()]);
}
