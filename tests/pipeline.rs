use prs_atom::chain::{
    parse_chain_info, parse_start_block, parse_transactions, start_query, transactions_query, ChainError,
};
use prs_atom::content::{
    post_plaintext, process_post_updated, record_fetched_content, ContentError, FetchOutcome,
    PostUpdateError,
};
use prs_atom::crypto::{decrypt_aes_256_cbc, get_iv, DecryptError};
use prs_atom::notifier::{check_webhook, record_delivery, record_failed_delivery, NotifyDecision, NotifyError};
use prs_atom::processor::{process_stored_trx, TrxOutcome};
use prs_atom::protocol::{ActionData, DecodeError, EncPost, Message, NotifyBlock, NotifyPayload, Transaction, UserAction};
use prs_atom::settings::{AtomConf, Settings, TopicConf};
use prs_atom::store::Store;
use prs_atom::sync::{ingest_batch, start_cursor, sync_step};

fn action(id: &str, data: &str, meta: &str) -> ActionData {
    ActionData {
        id: id.to_string(),
        data: data.to_string(),
        hash: format!("hash-{}", id),
        meta: meta.to_string(),
        _type: "PIP:2001".to_string(),
        signature: format!("sig-{}", id),
        user_address: "user1".to_string(),
    }
}

fn trx(block_num: i64, trx_id: &str, data: ActionData) -> Transaction {
    Transaction {
        block_num,
        data_type: "PIP:2001".to_string(),
        hash: data.hash.clone(),
        signature: data.signature.clone(),
        user_address: data.user_address.clone(),
        data,
        trx_id: trx_id.to_string(),
    }
}

fn publish(block_num: i64, trx_id: &str, data_id: &str, file_hash: &str) -> Transaction {
    let data = format!(r#"{{"file_hash":"{}","topic":"T"}}"#, file_hash);
    trx(block_num, trx_id, action(data_id, &data, r#"{"uris":["https://c/1.md"]}"#))
}

fn settings(webhook: Option<&str>) -> Settings {
    Settings {
        atom: AtomConf {
            db_url: String::new(),
            prs_base_url: String::new(),
            bind_address: String::new(),
            sentry_dsn: None,
            xml_output_dir: String::new(),
        },
        topics: vec![TopicConf {
            topic: "T".to_string(),
            webhook: webhook.map(|s| s.to_string()),
            encryption_key: String::new(),
            iv_prefix: String::new(),
        }],
    }
}

#[test]
fn decode_publish_with_default_hash_alg() {
    let a = action("d1", r#"{"file_hash":"fh","topic":"T","updated_tx_id":"old"}"#, r#"{"uris":["u1","u2"]}"#);
    match a.decode() {
        Ok(Message::Publish { file_hash, hash_alg, topic, uri, updated_tx_id }) => {
            assert_eq!(file_hash, "fh");
            assert_eq!(hash_alg, "keccak256");
            assert_eq!(topic, "T");
            assert_eq!(uri, "u1");
            assert_eq!(updated_tx_id, "old");
        }
        _ => panic!("expected a publish"),
    }
    let b = action("d2", r#"{"file_hash":"fh","alg":"sha256"}"#, r#"{"uris":["u"],"hash_alg":"md5"}"#);
    match b.decode() {
        Ok(Message::Publish { hash_alg, topic, updated_tx_id, .. }) => {
            assert_eq!(hash_alg, "sha256");
            assert_eq!(topic, "");
            assert_eq!(updated_tx_id, "");
        }
        _ => panic!("expected a publish"),
    }
}

#[test]
fn decode_errors_and_user_lists() {
    let s = action("d", r#"{"file_hash":"fh"}"#, r#"{"uris":"u"}"#);
    assert_eq!(s.decode().err(), Some(DecodeError::UrisNotList));
    let e = action("d", r#"{"file_hash":"fh"}"#, r#"{"uris":[]}"#);
    assert_eq!(e.decode().err(), Some(DecodeError::MissingUri));
    let m = action("d", "not json", "{}");
    assert_eq!(m.decode().err(), Some(DecodeError::Malformed));
    let allow = action("d", r#"{"allow":"a1,a2","topic":"T"}"#, "{}");
    match allow.decode() {
        Ok(Message::PublishManagement { action, user_list, topic }) => {
            assert_eq!(action, UserAction::Allow);
            assert_eq!(user_list, vec!["a1".to_string(), "a2".to_string()]);
            assert_eq!(topic, "T");
        }
        _ => panic!("expected an allow list"),
    }
    let deny = action("d", r#"{"deny":"a3"}"#, "{}");
    assert!(matches!(deny.decode(), Ok(Message::PublishManagement { action: UserAction::Deny, .. })));
    let other = action("d", r#"{"x":1}"#, "{}");
    assert!(matches!(other.decode(), Ok(Message::Unsupported)));
    assert_eq!(trx(1, "t", other).get_notify_payload().err(), Some(DecodeError::Unsupported));
}

#[test]
fn action_field_getters() {
    let a = action("d", r#"{"file_hash":"fh","topic":"T"}"#, r#"{"encryption":"aes","hash_alg":"h"}"#);
    assert_eq!(a.get_encryption(), "aes");
    assert_eq!(a.get_hash_alg().unwrap(), "h");
    assert_eq!(a.get_file_hash().unwrap(), "fh");
    assert_eq!(a.get_topic().unwrap(), "T");
    let b = action("d", "{", "{");
    assert_eq!(b.get_encryption(), "");
    assert_eq!(b.get_topic().err(), Some(DecodeError::Malformed));
    let t = trx(3, "tx", action("d", r#"{"topic":"T"}"#, "{}"));
    assert_eq!(t.get_topic(), "T");
    assert!(t.has_invalid_topic(&settings(None)));
}

#[test]
fn notify_payload_body_is_exact_json() {
    let p = NotifyPayload {
        block: NotifyBlock { data_id: "d\"1".to_string(), block_num: -5, trx_id: "tx".to_string() },
    };
    assert_eq!(p.to_json(), r#"{"block":{"id":"d\"1","blockNum":-5,"blockTransactionId":"tx"}}"#);
}

#[test]
fn publish_owes_a_notification_and_management_none() {
    let p = publish(7, "tx7", "d7", "fh");
    let payload = p.get_notify_payload().unwrap().unwrap();
    assert_eq!(payload.block.data_id, "d7");
    assert_eq!(payload.block.block_num, 7);
    assert_eq!(payload.block.trx_id, "tx7");
    let m = trx(8, "tx8", action("d8", r#"{"allow":"a"}"#, "{}"));
    assert!(m.get_notify_payload().unwrap().is_none());
}

#[test]
fn iv_is_fnv1a_digest_written_twice() {
    assert_eq!(
        get_iv("", ""),
        vec![0xcb, 0xf2, 0x9c, 0xe4, 0x84, 0x22, 0x23, 0x25, 0xcb, 0xf2, 0x9c, 0xe4, 0x84, 0x22, 0x23, 0x25]
    );
    let a = get_iv("", "a");
    assert_eq!(a, get_iv("a", ""));
    assert_eq!(&a[..8], &0xaf63dc4c8601ec8cu64.to_be_bytes());
    assert_eq!(&a[8..], &0xaf63dc4c8601ec8cu64.to_be_bytes());
}

#[test]
fn decrypts_what_was_encrypted() {
    let key = [7u8; 32];
    let iv = get_iv("prefix", "session-1");
    let ct = openssl::symm::encrypt(openssl::symm::Cipher::aes_256_cbc(), &key, Some(&iv), "# Hello".as_bytes()).unwrap();
    let hextext = hex::encode(&ct);
    assert_eq!(decrypt_aes_256_cbc(&hextext, &key, &iv), Ok("# Hello".to_string()));
    assert_eq!(decrypt_aes_256_cbc("zz", &key, &iv), Err(DecryptError::InvalidHex));
    assert_eq!(decrypt_aes_256_cbc("abc", &key, &iv), Err(DecryptError::InvalidHex));
    assert_eq!(decrypt_aes_256_cbc(&hextext, &key[..16], &iv), Err(DecryptError::KeyLength));
    assert_eq!(decrypt_aes_256_cbc(&hextext, &key, &iv[..8]), Err(DecryptError::IvLength));

    let body = format!(r#"{{"session":"session-1","content":"{}"}}"#, hextext);
    let key_hex = hex::encode(key);
    assert_eq!(post_plaintext("aes", &body, &key_hex, "prefix"), Ok("# Hello".to_string()));
    assert_eq!(post_plaintext("", "plain body", &key_hex, "prefix"), Ok("plain body".to_string()));
    assert_eq!(post_plaintext("aes", "{}", &key_hex, "prefix"), Err(ContentError::NotEnvelope));
    assert_eq!(post_plaintext("aes", &body, "xyz", "prefix"), Err(ContentError::KeyHex));
    let env = EncPost::parse(&body).unwrap();
    assert_eq!(env.session, "session-1");
    assert!(EncPost::parse(r#"{"session":"s"}"#).is_none());
}

#[test]
fn ingesting_a_batch_twice_changes_nothing() {
    let mut store = Store::new();
    let batch = vec![publish(100, "tx1", "d1", "fh1"), publish(105, "tx2", "d2", "fh2"), publish(105, "tx2", "d2", "fh2")];
    ingest_batch(&mut store, "T", &batch);
    assert_eq!(store.trxs.keys().len(), 2);
    assert_eq!(store.notifies.keys().len(), 2);
    assert_eq!(store.get_last_status("t_block_num"), Some(105));
    record_delivery(&mut store, "d1", 500);
    ingest_batch(&mut store, "T", &batch);
    assert_eq!(store.trxs.keys().len(), 2);
    assert_eq!(store.notifies.keys().len(), 2);
    assert_eq!(store.get_last_status("t_block_num"), Some(105));
    assert_eq!(store.notifies.get("d1").unwrap().retries, 1);
}

#[test]
fn checkpoint_follows_blocks_and_resumes_after_crash() {
    let mut store = Store::new();
    assert_eq!(start_cursor(&store, "T"), None);
    ingest_batch(&mut store, "T", &vec![publish(10, "a", "da", "f1"), publish(11, "b", "db", "f2")]);
    assert_eq!(start_cursor(&store, "T"), Some(11));
    prs_atom::sync::persist_transaction(&mut store, "T", &publish(12, "c", "dc", "f3"));
    assert_eq!(start_cursor(&store, "T"), Some(11));
    ingest_batch(&mut store, "T", &vec![publish(11, "b", "db", "f2"), publish(12, "c", "dc", "f3")]);
    assert_eq!(start_cursor(&store, "T"), Some(12));
    assert_eq!(store.trxs.keys().len(), 3);
}

#[test]
fn scenario_first_poll_of_a_topic() {
    let mut store = Store::new();
    assert_eq!(start_cursor(&store, "T"), None);
    let start = parse_start_block(r#"{"data":[{"block_num":"100"}]}"#).unwrap();
    assert_eq!(start, 100);
    assert_eq!(transactions_query("T", start as i64, 20), "/transactions?topic=T&blocknum=100&type=PIP:2001&count=20");
    let batch = vec![publish(100, "tx1", "d1", "fh1"), publish(105, "tx2", "d2", "fh2")];
    assert_eq!(sync_step(&mut store, "T", &batch), Some(105));
    assert_eq!(store.trxs.keys().len(), 2);
    assert_eq!(store.get_last_status("t_block_num"), Some(105));
    for id in ["d1", "d2"] {
        let n = store.notifies.get(id).unwrap();
        assert!(!n.success);
        assert_eq!(n.retries, 0);
    }
    assert_eq!(sync_step(&mut store, "T", &vec![]), None);
}

#[test]
fn start_block_errors() {
    assert_eq!(parse_start_block(r#"{"data":[]}"#), Err(ChainError::NoStartPoint));
    assert_eq!(parse_start_block(r#"{"data":[{"block_num":"0"}]}"#), Err(ChainError::NoStartPoint));
    assert_eq!(parse_start_block(r#"{"data":[{"block_num":"x"}]}"#), Err(ChainError::InvalidBlockNum));
    assert_eq!(parse_start_block("<html>"), Err(ChainError::Malformed));
    assert_eq!(start_query("T"), "/transactions?topic=T&type=PIP:2001&count=1");
}

#[test]
fn chain_answer_to_transactions() {
    let body = r#"{"data":[
      {"block_num":"100","transactions_trx_transaction_actions_data_type":"PIP:2001","transactions_trx_id":"tx1",
       "transactions_trx_transaction_actions_data_user_address":"u1",
       "block":{"transactions":[{"trx":{"transaction":{"actions":[
         {"data":{"id":"d1","data":"{\"file_hash\":\"fh\"}","hash":"h","meta":"{}","type":"PIP:2001","signature":"s","user_address":"u1"}},
         {"data":{"id":"d2"}}
       ]}}}]}},
      {"transactions_trx_id":"skipped"},
      {"block_num":"101","transactions_trx_transaction_actions_data_type":"PIP:2001","transactions_trx_id":"tx2",
       "transactions_trx_transaction_actions_data_user_address":"u2",
       "block":{"transactions":[{"trx":{"transaction":{"actions":[
         {"data":{"id":"d3","data":"{}","hash":"h3","meta":"{}","type":"PIP:2001","signature":"s3","user_address":"u9"}}
       ]}}}]}}
    ]}"#;
    let ts = parse_transactions(body).unwrap();
    assert_eq!(ts.len(), 2);
    assert_eq!(ts[0].block_num, 100);
    assert_eq!(ts[0].trx_id, "tx1");
    assert_eq!(ts[0].data.id, "d1");
    assert_eq!(ts[0].hash, "h");
    assert_eq!(ts[1].block_num, 101);
    assert_eq!(ts[1].user_address, "u2");
    assert_eq!(ts[1].data.user_address, "u9");
    assert_eq!(parse_transactions(r#"{"data":[{"block_num":"x"}]}"#).unwrap().len(), 0);
    assert_eq!(parse_transactions("nope").err(), Some(ChainError::Malformed));
    assert_eq!(parse_transactions(r#"{"other":1}"#).unwrap().len(), 0);
}

#[test]
fn notify_retry_accounting() {
    let mut store = Store::new();
    ingest_batch(&mut store, "T", &vec![publish(1, "tx", "d", "fh")]);
    let s = settings(Some("http://hook"));
    for _ in 0..3 {
        match check_webhook(&store, &s, "d") {
            Ok(NotifyDecision::Send { payload, url }) => {
                assert_eq!(url, "http://hook");
                assert_eq!(payload.block.data_id, "d");
            }
            _ => panic!("expected a delivery"),
        }
        assert!(record_delivery(&mut store, "d", 503));
    }
    let n = store.notifies.get("d").unwrap();
    assert!(!n.success);
    assert_eq!(n.retries, 3);
    assert!(record_delivery(&mut store, "d", 200));
    assert!(store.notifies.get("d").unwrap().success);
    assert_eq!(store.notifies.get("d").unwrap().retries, 4);
    assert!(matches!(check_webhook(&store, &s, "d"), Ok(NotifyDecision::AlreadyDelivered)));
    assert!(matches!(check_webhook(&store, &s, "x"), Err(NotifyError::NotFound)));
    assert!(!record_delivery(&mut store, "x", 200));
    assert!(!record_failed_delivery(&mut store, "x"));
}

#[test]
fn missing_webhook_leaves_notification_pending() {
    let mut store = Store::new();
    ingest_batch(&mut store, "T", &vec![publish(1, "tx", "d", "fh")]);
    assert!(matches!(check_webhook(&store, &settings(None), "d"), Err(NotifyError::NoWebhook)));
    assert_eq!(store.notifies.get("d").unwrap().retries, 0);
}

fn store_with_posts() -> Store {
    let mut store = Store::new();
    store.save_post("p1", "alice", "", "fh1", "keccak256", "T", "http://c/1", "");
    store.save_post("p2", "alice", " p1\t", "fh2", "keccak256", "T", "http://c/2", "");
    store.save_post("p3", "bob", "p1", "fh3", "keccak256", "T", "http://c/3", "");
    store
}

#[test]
fn hash_mismatch_is_fetched_flagged_and_not_stored() {
    let mut store = store_with_posts();
    assert_eq!(record_fetched_content(&mut store, "p1", "body", "other-hash"), Some(FetchOutcome::Mismatch));
    let p = store.posts.get("p1").unwrap();
    assert!(p.fetched);
    assert!(p.review);
    assert!(!p.verify);
    assert!(store.contents.get("fh1").is_none());
    assert!(store.contents.get("other-hash").is_none());
    assert_eq!(store.get_posts(false, 10).len(), 2);
    assert_eq!(record_fetched_content(&mut store, "nope", "body", "h"), None);
}

#[test]
fn matching_content_is_stored_once() {
    let mut store = store_with_posts();
    assert_eq!(record_fetched_content(&mut store, "p1", "body", "fh1"), Some(FetchOutcome::Stored));
    assert_eq!(record_fetched_content(&mut store, "p1", "changed", "fh1"), Some(FetchOutcome::AlreadyStored));
    assert_eq!(store.contents.get("fh1").unwrap().content, "body");
    assert!(store.posts.get("p1").unwrap().verify);
    assert_eq!(store.get_posts(true, 10), vec!["p1".to_string()]);
    assert_eq!(store.get_posts(false, 1).len(), 1);
}

#[test]
fn supersession_by_same_user_deletes_old_post_and_content() {
    let mut store = store_with_posts();
    record_fetched_content(&mut store, "p1", "old body", "fh1");
    assert_eq!(process_post_updated(&mut store, "p2"), Ok(()));
    assert!(store.posts.get("p1").unwrap().deleted);
    assert!(store.contents.get("fh1").unwrap().deleted);
    assert!(!store.posts.get("p2").unwrap().deleted);
}

#[test]
fn supersession_by_other_user_is_refused() {
    let mut store = store_with_posts();
    record_fetched_content(&mut store, "p1", "old body", "fh1");
    assert_eq!(process_post_updated(&mut store, "p3"), Err(PostUpdateError::UserMismatch));
    assert!(!store.posts.get("p1").unwrap().deleted);
    assert!(!store.posts.get("p3").unwrap().deleted);
    assert!(!store.contents.get("fh1").unwrap().deleted);
    assert_eq!(process_post_updated(&mut store, "p1"), Ok(()));
    assert_eq!(process_post_updated(&mut store, "zz"), Err(PostUpdateError::UnknownPost));
    store.save_post("p4", "alice", "missing", "fh4", "keccak256", "T", "http://c/4", "");
    assert_eq!(process_post_updated(&mut store, "p4"), Err(PostUpdateError::UpdatedNotFound));
}

#[test]
fn unnotified_list_needs_a_fetched_verified_post() {
    let mut store = Store::new();
    ingest_batch(&mut store, "T", &vec![publish(1, "tx", "d", "fh")]);
    assert!(store.get_unnotified_list().is_empty());
    store.save_post("d", "alice", "", "fh", "keccak256", "T", "http://c", "");
    record_fetched_content(&mut store, "d", "x", "fh");
    assert_eq!(store.get_unnotified_list(), vec!["d".to_string()]);
    record_delivery(&mut store, "d", 200);
    assert!(store.get_unnotified_list().is_empty());
}

#[test]
fn stored_transactions_are_verified_then_applied() {
    let mut store = Store::new();
    let p = publish(1, "tx1", "d1", "fh1");
    let m = trx(2, "tx2", action("d2", r#"{"allow":"a1,a2","topic":"T"}"#, "{}"));
    let bad = trx(3, "tx3", action("d3", "not json", "{}"));
    ingest_batch(&mut store, "T", &vec![p, m, bad]);
    assert_eq!(store.get_trxs(false).len(), 3);

    let row = store.trxs.get("tx1").unwrap();
    assert_eq!(row.get_file_hash(), Some("fh1".to_string()));
    assert_eq!(store.get_trx_by_trx_id("tx2").unwrap().get_file_hash(), None);
    assert!(row.verify_signature(&Some("hash-d1".to_string()), &Some("user1".to_string())));
    assert!(!row.verify_signature(&Some("hash-x".to_string()), &Some("user1".to_string())));
    assert!(!row.verify_signature(&Some("hash-d1".to_string()), &Some("user2".to_string())));
    assert!(!row.verify_signature(&None, &Some("user1".to_string())));

    assert_eq!(store.trx_table_num("tx1"), Some(1));
    assert_eq!(store.trx_table_num("tx3"), Some(3));
    assert_eq!(process_stored_trx(&mut store, "tx1", true), TrxOutcome::Applied);
    assert_eq!(store.get_last_status("tx_num"), Some(1));
    let post = store.posts.get("d1").unwrap();
    assert_eq!(post.file_hash, "fh1");
    assert_eq!(post.url, "https://c/1.md");
    assert_eq!(post.user_address, "user1");
    assert_eq!(post.hash_alg, "keccak256");
    assert_eq!(process_stored_trx(&mut store, "tx2", true), TrxOutcome::Applied);
    assert_eq!(store.get_last_status("tx_num"), Some(2));
    assert_eq!(store.users.get("a2", "T").unwrap().status, UserAction::Allow);
    assert_eq!(store.users.get("a1", "T").unwrap().tx_id, "d2");
    assert_eq!(process_stored_trx(&mut store, "tx3", true), TrxOutcome::Undecodable);
    assert_eq!(store.get_trxs(false), vec!["tx3".to_string()]);
    assert_eq!(process_stored_trx(&mut store, "tx3", false), TrxOutcome::Rejected);
    assert_eq!(store.get_last_status("tx_num"), Some(2));
    assert!(store.get_trxs(false).is_empty());
    assert_eq!(process_stored_trx(&mut store, "none", true), TrxOutcome::NotFound);
}

#[test]
fn chain_info_answer() {
    let ok = r#"{"success":true,"errors":"none","data":{"head_block_num":120,"last_irreversible_block_num":100}}"#;
    let info = parse_chain_info(ok).unwrap();
    assert!(info.success);
    assert_eq!(info.errors, Some("none".to_string()));
    assert_eq!(info.head_block_num, 120);
    assert_eq!(info.last_irreversible_block_num, 100);
    let no_errors = r#"{"success":true,"data":{"head_block_num":2,"last_irreversible_block_num":1}}"#;
    assert_eq!(parse_chain_info(no_errors).unwrap().errors, None);
    assert_eq!(parse_chain_info(r#"{"success":false}"#).err(), Some(ChainError::Unsuccessful));
    assert_eq!(parse_chain_info(r#"{"success":true}"#).err(), Some(ChainError::InvalidInfo));
    assert_eq!(parse_chain_info(r#"{"data":{}}"#).err(), Some(ChainError::InvalidInfo));
    assert_eq!(
        parse_chain_info(r#"{"success":true,"data":{"head_block_num":5}}"#).err(),
        Some(ChainError::InvalidBlockNum)
    );
    assert_eq!(parse_chain_info("]").err(), Some(ChainError::Malformed));
}

#[test]
fn transport_failure_counts_as_an_attempt() {
    let mut store = Store::new();
    ingest_batch(&mut store, "T", &vec![publish(1, "tx", "d", "fh")]);
    assert!(record_failed_delivery(&mut store, "d"));
    let n = store.get_notify_by_data_id("d").unwrap();
    assert!(!n.success);
    assert_eq!(n.retries, 1);
}

#[test]
fn user_status_is_kept_per_topic() {
    let mut store = Store::new();
    store.save_user("u1", UserAction::Allow, "tx1", "T1");
    store.save_user("u1", UserAction::Deny, "tx2", "T2");
    assert_eq!(store.users.get("u1", "T1").unwrap().status, UserAction::Allow);
    assert_eq!(store.users.get("u1", "T2").unwrap().status, UserAction::Deny);
    store.save_user("u1", UserAction::Deny, "tx3", "T1");
    assert_eq!(store.users.get("u1", "T1").unwrap().tx_id, "tx3");
    assert_eq!(store.users.get("u1", "T2").unwrap().tx_id, "tx2");
}

#[test]
fn webhook_body_escapes_control_characters() {
    let p = NotifyPayload {
        block: NotifyBlock { data_id: "a\u{1}b\n\\".to_string(), block_num: 7, trx_id: "t\u{1f}".to_string() },
    };
    assert_eq!(p.to_json(), r#"{"block":{"id":"a\u0001b\n\\","blockNum":7,"blockTransactionId":"t\u001f"}}"#);
}
