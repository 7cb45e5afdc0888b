use std::collections::{BTreeMap, HashMap};

use docs_search::contents::File;
use docs_search::errors::{PromptError, SetupError};
use docs_search::vector::{CollectionRequest, Distance, VectorDB, EMBEDDING_SIZE};
use qdrant_client::prelude::{Payload, QdrantClient, QdrantClientConfig};
use qdrant_client::qdrant::{ScoredPoint, Value};
use shuttle_secrets::SecretStore;

fn store(pairs: &[(&str, &str)]) -> SecretStore {
    let mut secrets = BTreeMap::new();
    for (key, value) in pairs {
        secrets.insert(key.to_string(), value.to_string());
    }
    SecretStore::new(secrets)
}

fn database() -> VectorDB {
    match VectorDB::new(&store(&[("QDRANT_TOKEN", "key"), ("QDRANT_URL", "http://localhost:6334")])) {
        Ok(db) => db,
        Err(error) => panic!("{}", error.message()),
    }
}

fn taken() -> Result<(), anyhow::Error> {
    Ok(())
}

fn refused() -> Result<(), anyhow::Error> {
    Err(anyhow::Error::msg("refused"))
}

fn file(path: &str) -> File {
    File::new(path.to_string(), "text\n".to_string())
}

fn path_payload(path: &str) -> Payload {
    let mut entries = HashMap::new();
    entries.insert("id".to_string(), Value::from(path));
    Payload::new_from_hashmap(entries)
}

fn scored(path: &str, version: u64) -> ScoredPoint {
    let mut payload = HashMap::new();
    payload.insert("id".to_string(), Value::from(path));
    ScoredPoint { id: None, payload, score: 0.5, version, vectors: None }
}

#[test]
fn new_without_token_fails() {
    match VectorDB::new(&store(&[("QDRANT_URL", "http://localhost:6334")])) {
        Err(SetupError::Missing(name)) => assert_eq!(name, "QDRANT_TOKEN"),
        _ => panic!("expected the token to be reported"),
    }
}

#[test]
fn new_without_url_fails() {
    match VectorDB::new(&store(&[("QDRANT_TOKEN", "key")])) {
        Err(SetupError::Missing(name)) => assert_eq!(name, "QDRANT_URL"),
        _ => panic!("expected the address to be reported"),
    }
}

#[test]
fn new_without_secrets_reports_the_token_first() {
    match VectorDB::new(&store(&[])) {
        Err(error) => assert_eq!(error.message(), "QDRANT_TOKEN not available"),
        Ok(_) => panic!("expected a failure"),
    }
}

#[test]
fn new_with_an_unusable_address_fails() {
    match VectorDB::new(&store(&[("QDRANT_TOKEN", "key"), ("QDRANT_URL", "not an address")])) {
        Err(SetupError::Endpoint) => {}
        _ => panic!("expected the address to be refused"),
    }
}

#[test]
fn new_with_both_secrets_succeeds() {
    let db = database();
    assert_eq!(db.id(), 0);
    assert_eq!(db.upsert_embedding(&file("a.mdx")).id, 0);
}

#[test]
fn new_keeps_the_address_and_the_key_in_the_client() {
    let db = database();
    assert_eq!(db.client().cfg.uri, "http://localhost:6334");
    assert_eq!(db.client().cfg.api_key, Some("key".to_string()));
}

#[test]
fn settings_hold_the_address_and_the_key() {
    let config = VectorDB::settings("https://db.example:6334", "secret");
    assert_eq!(config.uri, "https://db.example:6334");
    assert_eq!(config.api_key, Some("secret".to_string()));
}

#[test]
fn setup_error_messages() {
    assert_eq!(SetupError::Missing("QDRANT_URL").message(), "QDRANT_URL not available");
    assert_eq!(SetupError::Missing("QDRANT_TOKEN").message(), "QDRANT_TOKEN not available");
    assert_eq!(SetupError::Endpoint.message(), "QDRANT_URL not usable");
}

#[test]
fn with_client_counts_from_zero() {
    let client = QdrantClient::new(Some(QdrantClientConfig::from_url("http://localhost:6334")));
    let mut db = match VectorDB::with_client(client) {
        Ok(db) => db,
        Err(_) => panic!("expected a database"),
    };
    assert_eq!(db.id(), 0);
    assert_eq!(db.upsert_embedding(&file("a.mdx")).id, 0);
    assert_eq!(db.upserted(taken()), Ok(0));
    assert_eq!(db.upsert_embedding(&file("a.mdx")).id, 1);
}

#[test]
fn with_client_reports_a_failed_client() {
    match VectorDB::with_client(Err(anyhow::Error::msg("no client"))) {
        Err(SetupError::Endpoint) => {}
        _ => panic!("expected a setup error"),
    }
}

#[test]
fn reset_deletes_then_creates() {
    let requests = database().reset_collection();
    assert_eq!(requests.len(), 2);
    match &requests[0] {
        CollectionRequest::Delete { collection_name } => assert_eq!(collection_name, "docs"),
        _ => panic!("expected the collection to be removed first"),
    }
    match &requests[1] {
        CollectionRequest::Create { collection_name, size, distance } => {
            assert_eq!(collection_name, "docs");
            assert_eq!(*size, 1536);
            assert_eq!(*size, EMBEDDING_SIZE);
            assert_eq!(*distance, Distance::Cosine);
        }
        _ => panic!("expected the collection to be made second"),
    }
}

#[test]
fn upsert_builds_the_record() {
    let db = database();
    let point = db.upsert_embedding(&file("docs/intro.mdx"));
    assert_eq!(point.collection_name, "docs");
    assert_eq!(point.id, 0);
    assert_eq!(point.payload, path_payload("docs/intro.mdx"));
    assert_ne!(point.payload, Payload::new());
}

#[test]
fn upsert_alone_uses_up_no_id() {
    let db = database();
    assert_eq!(db.upsert_embedding(&file("a.mdx")).id, 0);
    assert_eq!(db.upsert_embedding(&file("b.mdx")).id, 0);
    assert_eq!(db.id(), 0);
}

#[test]
fn taken_record_uses_up_its_id() {
    let mut db = database();
    let point = db.upsert_embedding(&file("a.mdx"));
    assert_eq!(db.upserted(taken()), Ok(point.id));
    assert_eq!(db.id(), 1);
    assert_eq!(db.upsert_embedding(&file("a.mdx")).id, 1);
}

#[test]
fn refused_record_uses_up_no_id() {
    let mut db = database();
    assert_eq!(db.upserted(taken()), Ok(0));
    assert_eq!(db.upserted(taken()), Ok(1));
    let point = db.upsert_embedding(&file("a.mdx"));
    assert_eq!(point.id, 2);
    assert_eq!(db.upserted(refused()), Err(PromptError::Index));
    assert_eq!(db.id(), 2);
    let again = db.upsert_embedding(&file("a.mdx"));
    assert_eq!(again.id, 2);
    assert_eq!(db.upserted(taken()), Ok(2));
    assert_eq!(db.id(), 3);
}

#[test]
fn upsert_counts_up_by_one() {
    let mut db = database();
    let first = file("a.mdx");
    let second = file("b.mdx");
    let mut ids = Vec::new();
    for round in 0..10 {
        let source = if round % 2 == 0 { &first } else { &second };
        ids.push(db.upsert_embedding(source).id);
        assert_eq!(db.upserted(taken()), Ok(round));
    }
    assert_eq!(ids, vec![0, 1, 2, 3, 4, 5, 6, 7, 8, 9]);
    assert_eq!(db.id(), 10);
}

#[test]
fn records_of_one_document_share_the_payload() {
    let mut db = database();
    let first = db.upsert_embedding(&file("a.mdx"));
    assert_eq!(db.upserted(taken()), Ok(0));
    let second = db.upsert_embedding(&file("a.mdx"));
    assert_eq!(first.payload, second.payload);
    assert_ne!(first.id, second.id);
}

#[test]
fn ids_are_distinct() {
    let mut db = database();
    let mut ids: Vec<u64> = Vec::new();
    for round in 0..20 {
        let point = db.upsert_embedding(&file(if round < 7 { "a.mdx" } else { "b.mdx" }));
        assert!(!ids.contains(&point.id));
        ids.push(point.id);
        assert!(db.upserted(taken()).is_ok());
    }
    assert_eq!(ids.len(), 20);
    assert_eq!(db.id(), 20);
}

#[test]
fn search_request_asks_for_the_nearest_with_payload() {
    let request = database().search_request();
    assert_eq!(request.collection_name, "docs");
    assert_eq!(request.limit, 1);
    assert!(request.with_payload);
}

#[test]
fn search_takes_the_first_result() {
    let db = database();
    let found = vec![scored("a.mdx", 7), scored("b.mdx", 8)];
    match db.search(Ok(found)) {
        Ok(point) => assert_eq!(point, scored("a.mdx", 7)),
        Err(_) => panic!("expected a match"),
    }
}

#[test]
fn search_without_results_is_an_index_error() {
    assert_eq!(database().search(Ok(Vec::new())).err(), Some(PromptError::Index));
}

#[test]
fn search_that_failed_is_an_index_error() {
    let answer = Err(anyhow::Error::msg("collection not found"));
    assert_eq!(database().search(answer).err(), Some(PromptError::Index));
}
