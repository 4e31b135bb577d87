use prs_atom::blocks::{next_block_num, parse_block, sort_blocks, Block, BlockError, Pip2001Action};
use prs_atom::text::contains_str;

const BLOCK: &str = r#"{"success":true,"data":{"block_num":42,"id":"blk42","timestamp":"2019-01-01T00:00:00",
  "transactions":[
    {"trx":{"id":"tx1","transaction":{"actions":[
      {"data":{"id":"d1","user_address":"u","type":"PIP:2001","meta":"{\"uris\":[\"https://c/1\"]}","data":"{\"file_hash\":\"fh\",\"topic\":\"T1\"}","hash":"h","signature":"s"}},
      {"data":{"oracleservice":"o","auth_hash":7,"type":"v","meta":"{}","data":"{}","memo":"m"}},
      {"data":{"id":"bad"}},
      {"data":null}
    ]}}},
    {"trx":null},
    {"trx":{"transaction":{}}},
    {"trx":{"id":"tx2","transaction":{"actions":[
      {"data":{"id":"d2","user_address":"u","type":"PIP:2001","meta":"{\"uris\":[\"https://c/2\"]}","data":"{\"file_hash\":\"fh2\"}","hash":"h","signature":"s"}},
      {"data":{"id":"d3","user_address":"u","type":"PIP:2001","meta":"{}","data":"{\"allow\":\"a\",\"topic\":\"T2\"}","hash":"h","signature":"s"}}
    ]}}}
  ]}}"#;

#[test]
fn block_answer_to_transactions_and_actions() {
    let b = parse_block(BLOCK, 42).unwrap();
    assert_eq!(b.block_id, "blk42");
    assert_eq!(b.timestamp, "2019-01-01T00:00:00");
    assert_eq!(b.trxs.len(), 2);
    assert_eq!(b.trxs[0].trx_id, "tx1");
    assert_eq!(b.trxs[0].actions.len(), 2);
    assert!(matches!(&b.trxs[0].actions[0], Pip2001Action::Data(d) if d.id == "d1"));
    assert!(matches!(&b.trxs[0].actions[1], Pip2001Action::Validation(v) if v.auth_hash == 7 && v.memo == "m"));
    assert_eq!(b.trxs[1].actions.len(), 2);
}

#[test]
fn block_topics_and_payloads() {
    let b = parse_block(BLOCK, 42).unwrap();
    assert_eq!(b.get_topic_by_data_id("d1"), Some("T1".to_string()));
    assert_eq!(b.get_topic_by_data_id("d2"), None);
    assert_eq!(b.get_topic_by_data_id("d3"), Some("T2".to_string()));
    assert!(b.has_topic(&vec!["T2".to_string()]));
    assert!(!b.has_topic(&vec!["T9".to_string()]));
    let payloads = b.get_notify_payloads();
    assert_eq!(payloads.len(), 1);
    assert_eq!(payloads[0].block.data_id, "d1");
    assert_eq!(payloads[0].block.block_num, 42);
    assert_eq!(payloads[0].block.trx_id, "tx1");
}

#[test]
fn block_answer_errors() {
    assert_eq!(parse_block(BLOCK, 43).err(), Some(BlockError::BlockNumMismatch));
    assert_eq!(
        parse_block(r#"{"success":false,"msg":"Could not find block: 99"}"#, 99).err(),
        Some(BlockError::NotGenerated)
    );
    assert_eq!(parse_block(r#"{"success":false}"#, 1).err(), Some(BlockError::Refused));
    assert_eq!(parse_block(r#"{"data":{"block_num":1}}"#, 1).err(), Some(BlockError::NoBlockId));
    assert_eq!(parse_block(r#"{"data":{"id":"x"}}"#, 1).err(), Some(BlockError::NoTimestamp));
    assert_eq!(parse_block(r#"{"data":{"block_num":1.5}}"#, 1).err(), Some(BlockError::NoBlockNum));
    assert_eq!(parse_block("x", 1).err(), Some(BlockError::Malformed));
    let empty = parse_block(r#"{"data":[]}"#, 5).unwrap();
    assert_eq!(empty.block_num, 5);
    assert!(empty.trxs.is_empty());
}

#[test]
fn substring_search_matches_std() {
    for (h, n) in [("abc", "bc"), ("abc", ""), ("", "a"), ("aaa", "aab"), ("x: y", ": ")] {
        assert_eq!(contains_str(h, n), h.contains(n));
    }
}

#[test]
fn cursor_moves_past_the_fetched_run() {
    assert_eq!(next_block_num(&vec![5, 6, 8], 5), 7);
    assert_eq!(next_block_num(&vec![], 3), 3);
    assert_eq!(next_block_num(&vec![4, 3, 5, 5], 3), 6);
    assert_eq!(next_block_num(&vec![10, 11], 3), 3);
}

#[test]
fn batch_blocks_come_sorted_by_number() {
    let mk = |n: i64| Block { block_num: n, block_id: format!("b{}", n), trxs: vec![], timestamp: String::new() };
    let sorted = sort_blocks(vec![mk(7), mk(5), mk(9), mk(5), mk(6)]);
    let nums: Vec<i64> = sorted.iter().map(|b| b.block_num).collect();
    assert_eq!(nums, vec![5, 5, 6, 7, 9]);
    assert!(sort_blocks(vec![]).is_empty());
}
