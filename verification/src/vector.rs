//! The vector database: its client, the ids it hands out, and what is sent to it.

use crate::contents::File;
use crate::errors::{PromptError, SetupError};
use qdrant_client::prelude::{Payload, QdrantClient, QdrantClientConfig};
use qdrant_client::qdrant::value::Kind;
use qdrant_client::qdrant::{ScoredPoint, Value};
use shuttle_secrets::SecretStore;
use vstd::prelude::*;
use vstd::string::StringExecFns;

verus! {

/// `shuttle_secrets::SecretStore`, the secrets of a deployment. Nothing is known of
/// one but what `secret_values` names.
#[verifier::external_type_specification]
#[verifier::external_body]
pub struct ExSecretStore(SecretStore);

/// `qdrant_client::prelude::QdrantClientConfig`, the settings of a client. Nothing is
/// known of one.
#[verifier::external_type_specification]
#[verifier::external_body]
pub struct ExQdrantClientConfig(QdrantClientConfig);

/// `qdrant_client::prelude::QdrantClient`, the client that speaks to the database.
/// Nothing is known of one.
#[verifier::external_type_specification]
#[verifier::external_body]
pub struct ExQdrantClient(QdrantClient);

/// `anyhow::Error`, the error of the client's calls. Nothing is known of one.
#[verifier::external_type_specification]
#[verifier::external_body]
pub struct ExError(anyhow::Error);

/// `qdrant_client::prelude::Payload`, what a record carries beside its vector.
/// Nothing is known of one but what `payload_keys` and `payload_texts` name.
#[verifier::external_type_specification]
#[verifier::external_body]
pub struct ExPayload(Payload);

/// `qdrant_client::qdrant::ScoredPoint`, one result of a search. Nothing is known of
/// one but what `point_texts` names.
#[verifier::external_type_specification]
#[verifier::external_body]
pub struct ExScoredPoint(ScoredPoint);

/// The secrets that a store holds, by name.
pub uninterp spec fn secret_values(store: SecretStore) -> Map<Seq<char>, Seq<char>>;

/// `SecretStore::get` looks a secret up by its name and hands out a copy of it, or
/// `None` where the store has no secret of that name.
pub assume_specification[ SecretStore::get ](store: &SecretStore, key: &str) -> (value: Option<
    String,
>)
    ensures
        value is Some == secret_values(*store).contains_key(key@),
        value matches Some(text) ==> text@ == secret_values(*store)[key@],
;

/// The address that the settings of a client hold.
pub uninterp spec fn config_address(config: QdrantClientConfig) -> Seq<char>;

/// The key that the settings of a client hold, if they hold one.
pub uninterp spec fn config_key(config: QdrantClientConfig) -> Option<Seq<char>>;

/// Whether a client can be made for an address: whether the address reads as a URI.
pub uninterp spec fn address_usable(address: Seq<char>) -> bool;

/// The address in the settings that a client was made from and holds.
pub uninterp spec fn client_address(client: QdrantClient) -> Seq<char>;

/// The key in the settings that a client was made from and holds.
pub uninterp spec fn client_key(client: QdrantClient) -> Option<Seq<char>>;

/// `QdrantClientConfig::from_url` makes the settings for a client of the database at
/// an address: they hold the address and no key.
pub assume_specification[ QdrantClientConfig::from_url ](url: &str) -> (config: QdrantClientConfig)
    ensures
        config_address(config) == url@,
        config_key(config) is None,
;

/// `QdrantClientConfig::set_api_key` puts the key into the settings and leaves the
/// address as it is.
pub assume_specification[ QdrantClientConfig::set_api_key ](
    config: &mut QdrantClientConfig,
    api_key: &str,
)
    ensures
        config_address(*final(config)) == config_address(*old(config)),
        config_key(*final(config)) == Some(api_key@),
;

/// `QdrantClient::new` makes a client from settings and keeps them in it. It fails
/// exactly where their address does not read as a URI, and connects to nothing.
pub assume_specification[ QdrantClient::new ](cfg: Option<QdrantClientConfig>) -> (made: Result<
    QdrantClient,
    anyhow::Error,
>)
    ensures
        cfg matches Some(config) ==> (made is Ok <==> address_usable(config_address(config))),
        cfg matches Some(config) ==> (made matches Ok(client) ==> client_address(client)
            == config_address(config) && client_key(client) == config_key(config)),
;

/// The names under which a payload holds a value, of whatever kind.
pub uninterp spec fn payload_keys(payload: Payload) -> Set<Seq<char>>;

/// The texts that a payload holds, by name. A value that is no text is not in it.
pub uninterp spec fn payload_texts(payload: Payload) -> Map<Seq<char>, Seq<char>>;

/// The texts that the payload of a search result holds, by name. A value that is no
/// text is not in it.
pub uninterp spec fn point_texts(point: ScoredPoint) -> Map<Seq<char>, Seq<char>>;

/// `Payload::new` makes a payload that holds nothing.
pub assume_specification[ Payload::new ]() -> (payload: Payload)
    ensures
        payload_keys(payload) == Set::<Seq<char>>::empty(),
        payload_texts(payload) == (Map::<Seq<char>, Seq<char>>::empty()),
;

/// `Payload::insert` puts a value under a name, in place of what stood there. Here
/// the value is a text.
#[verifier::external_body]
fn payload_insert(payload: &mut Payload, key: &str, value: &str)
    ensures
        payload_keys(*final(payload)) == payload_keys(*old(payload)).insert(key@),
        payload_texts(*final(payload)) == payload_texts(*old(payload)).insert(key@, value@),
{
    payload.insert(key, value);
}

/// Reads the payload of a search result: `HashMap::get` on the field `payload`, and
/// the text where the value found is one.
#[verifier::external_body]
pub(crate) fn point_text(point: &ScoredPoint, key: &str) -> (text: Option<String>)
    ensures
        text is Some == point_texts(*point).contains_key(key@),
        text matches Some(found) ==> found@ == point_texts(*point)[key@],
{
    match point.payload.get(key) {
        Some(Value { kind: Some(Kind::StringValue(found)) }) => Some(found.clone()),
        _ => None,
    }
}

/// The name of the secret that holds the database's key.
pub open spec fn token_name() -> Seq<char> {
    "QDRANT_TOKEN"@
}

/// The name of the secret that holds the database's address.
pub open spec fn url_name() -> Seq<char> {
    "QDRANT_URL"@
}

/// The name of the collection that holds the records.
pub open spec fn collection() -> Seq<char> {
    "docs"@
}

/// The name under which a record's payload holds the path of its document.
pub open spec fn path_key() -> Seq<char> {
    "id"@
}

/// How many numbers an embedding has.
pub const EMBEDDING_SIZE: u64 = 1536;

/// How the database measures how far two vectors are apart.
#[derive(Clone, Copy, PartialEq, Eq, Debug, Structural)]
pub enum Distance {
    Cosine,
    Euclid,
    Dot,
}

/// A change to the set of collections.
pub enum CollectionRequest {
    /// Remove the collection of that name, with all its records.
    Delete { collection_name: String },
    /// Make an empty collection for vectors of `size` numbers.
    Create { collection_name: String, size: u64, distance: Distance },
}

/// A record to store, without its vector.
pub struct Point {
    pub collection_name: String,
    pub id: u64,
    pub payload: Payload,
}

impl Point {
    /// The record with this id for an embedding of the document at `path`: it goes to
    /// the collection, and its payload holds the path under the path key and nothing else.
    pub open spec fn is_record(self, id: int, path: Seq<char>) -> bool {
        &&& self.collection_name@ == collection()
        &&& self.id == id
        &&& payload_keys(self.payload) == set![path_key()]
        &&& payload_texts(self.payload) == map![path_key() => path]
    }
}

/// What a search asks for, without the vector to search by.
pub struct SearchRequest {
    pub collection_name: String,
    pub limit: u64,
    pub with_payload: bool,
}

/// The path of the document that a search result belongs to, where its payload names one.
pub open spec fn document_path(point: ScoredPoint) -> Option<Seq<char>> {
    if point_texts(point).contains_key(path_key()) {
        Some(point_texts(point)[path_key()])
    } else {
        None
    }
}

/// The record that matched best in an answer of the database.
pub open spec fn best_match(answer: Result<Vec<ScoredPoint>, anyhow::Error>) -> Result<
    ScoredPoint,
    PromptError,
> {
    match answer {
        Ok(found) => if found@.len() == 0 {
            Err(PromptError::Index)
        } else {
            Ok(found@[0])
        },
        Err(_) => Err(PromptError::Index),
    }
}

/// The ids of a run of records, in their order.
pub open spec fn point_ids(points: Seq<Point>) -> Seq<int> {
    Seq::new(points.len(), |i: int| points[i].id as int)
}

/// Whether `points` are the records of a run of calls that the database all took, and
/// `states` the database before the first call, between the calls and after the
/// last: each record carries the id that was the next before its call, and the next id
/// after the call is one more. That is what `upsert_embedding` and `upserted` ensure
/// of each call, for whatever document.
pub open spec fn stored_in_order(states: Seq<VectorDB>, points: Seq<Point>) -> bool {
    &&& states.len() == points.len() + 1
    &&& forall|i: int|
        0 <= i < points.len() ==> (#[trigger] points[i]).id == states[i].next_id()
            && states[i + 1].next_id() == states[i].next_id() + 1
}

/// Ids are handed out in the order of the calls. From a database that counts from
/// zero, the records of any run of calls that the database all took carry the ids 0,
/// 1, 2 and so on, each one more than the one before; no two are the same, so there are
/// as many ids as calls; and the next id is the number of calls.
pub proof fn lemma_ids_in_call_order(states: Seq<VectorDB>, points: Seq<Point>)
    requires
        stored_in_order(states, points),
        states[0].next_id() == 0,
    ensures
        forall|i: int| 0 <= i < points.len() ==> (#[trigger] points[i]).id == i,
        forall|i: int| 0 <= i <= points.len() ==> (#[trigger] states[i]).next_id() == i,
        point_ids(points).no_duplicates(),
        point_ids(points).to_set().len() == points.len(),
    decreases points.len(),
{
    if points.len() > 0 {
        let earlier = points.drop_last();
        let before = states.drop_last();
        assert forall|i: int| 0 <= i < earlier.len() implies (#[trigger] earlier[i]).id
            == before[i].next_id() && before[i + 1].next_id() == before[i].next_id() + 1 by {
            assert(earlier[i] == points[i]);
        }
        lemma_ids_in_call_order(before, earlier);
        let last = points.len() - 1;
        assert(before[last] == states[last]);
        assert(points[last].id == states[last].next_id());
        assert forall|i: int| 0 <= i < points.len() implies (#[trigger] points[i]).id == i by {
            if i < last {
                assert(earlier[i] == points[i]);
            }
        }
        assert forall|i: int| 0 <= i <= points.len() implies (#[trigger] states[i]).next_id()
            == i by {
            if i <= last {
                assert(before[i] == states[i]);
            }
        }
    }
    let ids = point_ids(points);
    assert forall|i: int, j: int| 0 <= i < ids.len() && 0 <= j < ids.len() && i != j implies ids[i]
        != ids[j] by {
        assert(points[i].id == i && points[j].id == j);
    }
    ids.unique_seq_to_set();
}

/// The vector database as the service holds it: the client that speaks to it, and the
/// id that the next record gets.
pub struct VectorDB {
    client: QdrantClient,
    id: u64,
}

impl VectorDB {
    /// The id that the next record gets.
    pub closed spec fn next_id(&self) -> u64 {
        self.id
    }

    /// The client that speaks to the database.
    pub closed spec fn connection(&self) -> QdrantClient {
        self.client
    }

    /// Sets the database up from the secrets of the deployment. The key is looked up
    /// first, then the address; the first that is missing is reported. With both there,
    /// the database is set up exactly where a client can be made for the address, and
    /// its client then holds that address and that key.
    pub fn new(secrets: &SecretStore) -> (made: Result<Self, SetupError>)
        ensures
            !secret_values(*secrets).contains_key(token_name()) ==> (made matches Err(
                SetupError::Missing(name),
            ) && name@ == token_name()),
            secret_values(*secrets).contains_key(token_name()) && !secret_values(
                *secrets,
            ).contains_key(url_name()) ==> (made matches Err(SetupError::Missing(name)) && name@
                == url_name()),
            secret_values(*secrets).contains_key(token_name()) && secret_values(
                *secrets,
            ).contains_key(url_name()) ==> (made is Ok <==> address_usable(
                secret_values(*secrets)[url_name()],
            )),
            secret_values(*secrets).contains_key(token_name()) && secret_values(
                *secrets,
            ).contains_key(url_name()) ==> (match made {
                Ok(db) => db.next_id() == 0 && client_address(db.connection()) == secret_values(
                    *secrets,
                )[url_name()] && client_key(db.connection()) == Some(
                    secret_values(*secrets)[token_name()],
                ),
                Err(error) => error is Endpoint,
            }),
    {
        let qdrant_token = match secrets.get("QDRANT_TOKEN") {
            Some(token) => token,
            None => {
                return Err(SetupError::Missing("QDRANT_TOKEN"));
            },
        };
        let qdrant_url = match secrets.get("QDRANT_URL") {
            Some(url) => url,
            None => {
                return Err(SetupError::Missing("QDRANT_URL"));
            },
        };
        let qdrant_config = Self::settings(qdrant_url.as_str(), qdrant_token.as_str());
        Self::with_client(QdrantClient::new(Some(qdrant_config)))
    }

    /// The settings of the client: the address of the database, and the key to it.
    pub fn settings(url: &str, api_key: &str) -> (config: QdrantClientConfig)
        ensures
            config_address(config) == url@,
            config_key(config) == Some(api_key@),
    {
        let mut config = QdrantClientConfig::from_url(url);
        config.set_api_key(api_key);
        config
    }

    /// The database with a client that was made for it, counting from zero; or the
    /// setup error where no client could be made.
    pub fn with_client(made: Result<QdrantClient, anyhow::Error>) -> (db: Result<Self, SetupError>)
        ensures
            made matches Ok(client) ==> (db matches Ok(vector_db) && vector_db.connection()
                == client && vector_db.next_id() == 0),
            made is Err ==> (db matches Err(error) && error is Endpoint),
    {
        match made {
            Ok(client) => Ok(Self { client, id: 0 }),
            Err(_) => Err(SetupError::Endpoint),
        }
    }

    /// What to send to empty the collection: remove it, then make it anew for
    /// embeddings compared by cosine.
    pub fn reset_collection(&self) -> (requests: Vec<CollectionRequest>)
        ensures
            requests@.len() == 2,
            requests[0] matches CollectionRequest::Delete { collection_name }
                && collection_name@ == collection(),
            requests[1] matches CollectionRequest::Create { collection_name, size, distance }
                && collection_name@ == collection() && size == EMBEDDING_SIZE && distance
                == Distance::Cosine,
    {
        let mut requests = Vec::new();
        requests.push(CollectionRequest::Delete { collection_name: String::from_str("docs") });
        requests.push(
            CollectionRequest::Create {
                collection_name: String::from_str("docs"),
                size: EMBEDDING_SIZE,
                distance: Distance::Cosine,
            },
        );
        requests
    }

    /// The record to store for one embedding of a document. It carries the next id;
    /// the id is used up only once the database has taken the record (see `upserted`).
    pub fn upsert_embedding(&self, file: &File) -> (point: Point)
        ensures
            point.is_record(self.next_id() as int, file.path@),
    {
        let mut payload = Payload::new();
        payload_insert(&mut payload, "id", file.path.as_str());
        let point = Point { collection_name: String::from_str("docs"), id: self.id, payload };
        proof {
            assert(payload_keys(point.payload) == set![path_key()]);
            assert(payload_texts(point.payload) == map![path_key() => file.path@]);
        }
        point
    }

    /// Takes note of what the database answered to a record. Where it took the
    /// record, the id that the record carried is handed out and the id after it is the
    /// next. Where it refused, that is a failure of the index, and the id stays the next.
    pub fn upserted<T>(&mut self, outcome: Result<T, anyhow::Error>) -> (stored: Result<
        u64,
        PromptError,
    >)
        requires
            outcome is Ok ==> old(self).next_id() < u64::MAX,
        ensures
            outcome is Ok ==> stored == Ok::<u64, PromptError>(old(self).next_id())
                && final(self).next_id() == old(self).next_id() + 1,
            outcome is Err ==> stored == Err::<u64, PromptError>(PromptError::Index)
                && final(self).next_id() == old(self).next_id(),
            final(self).connection() == old(self).connection(),
    {
        match outcome {
            Ok(_) => {
                let id: u64 = self.id;
                self.id = id + 1;
                Ok(id)
            },
            Err(_) => Err(PromptError::Index),
        }
    }

    /// What to ask the database for: the one record that is nearest, with its payload.
    pub fn search_request(&self) -> (request: SearchRequest)
        ensures
            request.collection_name@ == collection(),
            request.limit == 1,
            request.with_payload,
    {
        SearchRequest { collection_name: String::from_str("docs"), limit: 1, with_payload: true }
    }

    /// The record that matched best, from what the database answered. An answer with
    /// no record in it is a failure of the index, as is a call that failed.
    pub fn search(&self, answer: Result<Vec<ScoredPoint>, anyhow::Error>) -> (best: Result<
        ScoredPoint,
        PromptError,
    >)
        ensures
            best == best_match(answer),
    {
        match answer {
            Ok(found) => {
                let mut found = found;
                if found.len() == 0 {
                    Err(PromptError::Index)
                } else {
                    Ok(found.remove(0))
                }
            },
            Err(_) => Err(PromptError::Index),
        }
    }

    /// The id that the next record gets.
    pub fn id(&self) -> (id: u64)
        ensures
            id == self.next_id(),
    {
        self.id
    }

    /// The client, for the calls that go over the network.
    pub fn client(&self) -> (client: &QdrantClient)
        ensures
            *client == self.connection(),
    {
        &self.client
    }
}

} // verus!
