use prs_atom::settings::{AtomConf, Settings, TopicConf};
use prs_atom::text::{i64_to_decimal, parse_i64, parse_u32, parse_u64, split_char, u64_to_decimal};
use prs_atom::url::{UrlError, URL};
use prs_atom::util::{block_num_key_of, get_last_block_num_by_topic, parse_topics, topic_webhook, TopicListError};

#[test]
fn single_url() {
    let value = "https://prs-bp1.press.one/api/chain";

    let url = URL::from(value);
    assert_eq!(url.get_all_urls(), vec![String::from(value)]);
}

#[test]
fn mutiple_urls() {
    let value = "https://prs-bp[1-2].press.one/api/chain";

    let url = URL::from(value);
    assert_eq!(
        url.get_all_urls(),
        vec![
            String::from("https://prs-bp1.press.one/api/chain"),
            String::from("https://prs-bp2.press.one/api/chain"),
        ]
    );
}

#[test]
fn test_get_topics() {
    // multi topic
    let value = "b6b17424f87ffb8b5b853291f6dbaf0aac661ca2;https://xue-pub.prsdev.club/api/webhook/medium a7b751cc0e2f6c5be01ce95bc80b02d071022af4;https://box-pub.prsdev.club/api/webhook/medium";
    let topics = parse_topics(value).unwrap();

    assert_eq!(topics.len() == 2, true);
    assert_eq!(
        topic_webhook(&topics, "b6b17424f87ffb8b5b853291f6dbaf0aac661ca2"),
        Some("https://xue-pub.prsdev.club/api/webhook/medium".to_string())
    );
    assert_eq!(
        topic_webhook(&topics, "a7b751cc0e2f6c5be01ce95bc80b02d071022af4"),
        Some("https://box-pub.prsdev.club/api/webhook/medium".to_string())
    );

    // single topic
    let value = "b6b17424f87ffb8b5b853291f6dbaf0aac661ca2;https://xue-pub.prsdev.club/api/webhook/medium";
    let topics = parse_topics(value).unwrap();
    assert_eq!(topics.len() == 1, true);
    assert_eq!(
        topic_webhook(&topics, "b6b17424f87ffb8b5b853291f6dbaf0aac661ca2"),
        Some("https://xue-pub.prsdev.club/api/webhook/medium".to_string())
    );
}

#[test]
fn topic_list_rejects_entry_without_webhook() {
    assert_eq!(parse_topics("abc").err(), Some(TopicListError::InvalidEntry));
    assert_eq!(parse_topics("a;b;c").err(), Some(TopicListError::InvalidEntry));
}

#[test]
fn topic_list_later_entry_wins() {
    let topics = parse_topics("t;first t;second").unwrap();
    assert_eq!(topic_webhook(&topics, "t"), Some("second".to_string()));
    assert_eq!(topic_webhook(&topics, "u"), None);
}

#[test]
fn url_range_of_three_and_reversed_range() {
    let url = URL::from("http://h[7-9]/x");
    assert_eq!(
        url.get_all_urls(),
        vec!["http://h7/x".to_string(), "http://h8/x".to_string(), "http://h9/x".to_string()]
    );
    let empty = URL::from("http://h[9-7]/x");
    assert!(empty.get_all_urls().is_empty());
    let not_range = URL::from("http://h[1]/x");
    assert_eq!(not_range.get_all_urls(), vec!["http://h[1]/x".to_string()]);
}

#[test]
fn url_get_url_appends_suffix_to_a_mirror() {
    let url = URL::from("http://h[1-2]");
    let u = url.get_url("/blocks");
    assert!(u == "http://h1/blocks" || u == "http://h2/blocks");
    let base = url.get_base_url();
    assert!(base == "http://h1" || base == "http://h2");
}

#[test]
fn checkpoint_key_is_lowercased_topic() {
    assert_eq!(get_last_block_num_by_topic("ABCdef"), "abcdef_block_num");
    assert_eq!(get_last_block_num_by_topic(""), "_block_num");
    assert_eq!(block_num_key_of("Ab"), "Ab_block_num");
}

#[test]
fn decimal_numbers_parse_as_std_does() {
    assert_eq!(parse_u32("42"), Some(42));
    assert_eq!(parse_u32("+7"), Some(7));
    assert_eq!(parse_u32(""), None);
    assert_eq!(parse_u32("+"), None);
    assert_eq!(parse_u32("4294967295"), Some(u32::MAX));
    assert_eq!(parse_u32("4294967296"), None);
    assert_eq!(parse_u32("1a"), None);
    assert_eq!(parse_u64("18446744073709551615"), Some(u64::MAX));
    assert_eq!(parse_i64("-9223372036854775808"), Some(i64::MIN));
    assert_eq!(parse_i64("9223372036854775807"), Some(i64::MAX));
    assert_eq!(parse_i64("9223372036854775808"), None);
    assert_eq!(parse_i64("-+1"), None);
    assert_eq!(parse_i64("-12"), Some(-12));
    for s in ["0", "17", "-5", "+3", "x", "-", "99999999999999999999"] {
        assert_eq!(parse_i64(s), s.parse::<i64>().ok());
        assert_eq!(parse_u32(s), s.parse::<u32>().ok());
    }
}

#[test]
fn decimal_numbers_print_as_std_does() {
    for n in [0u64, 9, 10, 105, u64::MAX] {
        assert_eq!(u64_to_decimal(n), n.to_string());
    }
    for n in [0i64, -1, 105, i64::MIN, i64::MAX] {
        assert_eq!(i64_to_decimal(n), n.to_string());
    }
}

#[test]
fn split_keeps_empty_pieces() {
    assert_eq!(split_char("a,,b,", ','), vec!["a", "", "b", ""]);
    assert_eq!(split_char("", ','), vec![""]);
}

fn settings() -> Settings {
    Settings {
        atom: AtomConf {
            db_url: "postgres://db".to_string(),
            prs_base_url: "http://h".to_string(),
            bind_address: "0.0.0.0:80".to_string(),
            sentry_dsn: None,
            xml_output_dir: "/tmp".to_string(),
        },
        topics: vec![
            TopicConf {
                topic: "t1".to_string(),
                webhook: Some("http://hook1".to_string()),
                encryption_key: "k".to_string(),
                iv_prefix: "p".to_string(),
            },
            TopicConf {
                topic: "t2".to_string(),
                webhook: None,
                encryption_key: "k2".to_string(),
                iv_prefix: "p2".to_string(),
            },
            TopicConf {
                topic: "t1".to_string(),
                webhook: Some("http://hook-late".to_string()),
                encryption_key: "k3".to_string(),
                iv_prefix: "p3".to_string(),
            },
        ],
    }
}

#[test]
fn settings_lookup_by_topic() {
    let s = settings();
    assert!(s.contains_topic("t1"));
    assert!(s.contains_topic("t2"));
    assert!(!s.contains_topic("t3"));
    assert_eq!(s.get_topic("t2").unwrap().encryption_key, "k2");
    assert_eq!(s.get_webhook_by_topic("t1"), Some("http://hook1".to_string()));
    assert_eq!(s.get_webhook_by_topic("t2"), None);
    assert_eq!(s.get_webhook_by_topic("t3"), None);
}

#[test]
fn url_parse_reports_bad_range() {
    assert_eq!(URL::parse("http://h[a-2]").err(), Some(UrlError::InvalidRange));
    assert_eq!(URL::parse("http://h[1-99999999999]").err(), Some(UrlError::InvalidRange));
    assert_eq!(URL::parse("http://h[3-4]").unwrap().get_all_urls(), vec!["http://h3", "http://h4"]);
}
