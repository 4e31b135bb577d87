//! Checkpoint keys and the topic list of the form `topic;webhook topic;webhook`.
use vstd::prelude::*;

use crate::text::{split_char, split_spec, str_eq, views};

verus! {

/// What `str::to_lowercase` gives for `s`.
pub uninterp spec fn lower_of(s: Seq<char>) -> Seq<char>;

/// Relies on `str::to_lowercase`: its result depends on the characters of
/// `s` alone, and an empty string stays empty.
#[verifier::external_body]
fn lowercase(s: &str) -> (r: String)
    ensures
        r@ == lower_of(s@),
        s@.len() == 0 ==> r@.len() == 0,
{
    s.to_lowercase()
}

pub open spec fn block_num_key(topic: Seq<char>) -> Seq<char> {
    lower_of(topic) + "_block_num"@
}

/// The checkpoint key for a topic already lowercased.
pub fn block_num_key_of(lowered: &str) -> (r: String)
    ensures
        r@ == lowered@ + "_block_num"@,
{
    String::from_str(lowered).concat("_block_num")
}

/// The checkpoint key under which the last synced block of `topic` is kept.
pub fn get_last_block_num_by_topic(topic: &str) -> (r: String)
    ensures
        r@ == block_num_key(topic@),
{
    let lowered = lowercase(topic);
    block_num_key_of(lowered.as_str())
}

/// A topic list entry that is not one `;` between a topic and its webhook.
#[derive(Debug, Clone, Copy, PartialEq, Eq)]
pub enum TopicListError {
    InvalidEntry,
}

/// The (topic, webhook) pairs that a topic list names, in order.
pub open spec fn topic_pairs_spec(s: Seq<char>) -> Option<Seq<(Seq<char>, Seq<char>)>> {
    let items = split_spec(s, ' ');
    if forall|i: int| 0 <= i < items.len() ==> (#[trigger] split_spec(items[i], ';')).len() == 2 {
        Some(
            Seq::new(
                items.len(),
                |i: int| (split_spec(items[i], ';')[0], split_spec(items[i], ';')[1]),
            ),
        )
    } else {
        None
    }
}

pub struct TopicEntry {
    pub topic: String,
    pub webhook: String,
}

pub open spec fn entry_views(v: Seq<TopicEntry>) -> Seq<(Seq<char>, Seq<char>)> {
    v.map_values(|e: TopicEntry| (e.topic@, e.webhook@))
}

/// Reads a topic list: entries apart by single spaces, each a topic and
/// its webhook apart by `;`.
pub fn parse_topics(topic_str: &str) -> (r: Result<Vec<TopicEntry>, TopicListError>)
    ensures
        match r {
            Ok(v) => topic_pairs_spec(topic_str@) == Some(entry_views(v@)),
            Err(_) => topic_pairs_spec(topic_str@) is None,
        },
{
    let items = split_char(topic_str, ' ');
    let ghost items_v = split_spec(topic_str@, ' ');
    let mut res: Vec<TopicEntry> = Vec::new();
    let mut i: usize = 0;
    while i < items.len()
        invariant
            i <= items@.len(),
            views(items@) == items_v,
            items_v == split_spec(topic_str@, ' '),
            forall|k: int| 0 <= k < i ==> (#[trigger] split_spec(items_v[k], ';')).len() == 2,
            entry_views(res@) =~= Seq::new(
                i as nat,
                |k: int| (split_spec(items_v[k], ';')[0], split_spec(items_v[k], ';')[1]),
            ),
        decreases items@.len() - i,
    {
        assert(items@[i as int]@ == items_v[i as int]);
        let pair = split_char(items[i].as_str(), ';');
        if pair.len() != 2 {
            return Err(TopicListError::InvalidEntry);
        }
        assert(pair@[0]@ == views(pair@)[0]);
        assert(pair@[1]@ == views(pair@)[1]);
        let ghost before = res@;
        let e = TopicEntry { topic: pair[0].clone(), webhook: pair[1].clone() };
        res.push(e);
        assert(entry_views(res@) =~= entry_views(before).push((e.topic@, e.webhook@)));
        i = i + 1;
    }
    Ok(res)
}

/// The webhook of the last entry for `topic`.
pub open spec fn topic_webhook_spec(pairs: Seq<(Seq<char>, Seq<char>)>, topic: Seq<char>) -> Option<
    Seq<char>,
>
    decreases pairs.len(),
{
    if pairs.len() == 0 {
        None
    } else if pairs.last().0 == topic {
        Some(pairs.last().1)
    } else {
        topic_webhook_spec(pairs.drop_last(), topic)
    }
}

/// The webhook that a topic list gives `topic`: where a topic comes twice,
/// the later entry wins.
pub fn topic_webhook(entries: &Vec<TopicEntry>, topic: &str) -> (r: Option<String>)
    ensures
        crate::settings::opt_view(r) == topic_webhook_spec(entry_views(entries@), topic@),
{
    let mut i: usize = entries.len();
    assert(entries@.take(i as int) =~= entries@);
    while i > 0
        invariant
            i <= entries@.len(),
            topic_webhook_spec(entry_views(entries@), topic@) == topic_webhook_spec(
                entry_views(entries@.take(i as int)),
                topic@,
            ),
        decreases i,
    {
        let ghost pre = entries@.take(i as int);
        assert(entry_views(pre).drop_last() =~= entry_views(entries@.take(i - 1)));
        assert(entry_views(pre).last() == (entries@[i - 1].topic@, entries@[i - 1].webhook@));
        if str_eq(entries[i - 1].topic.as_str(), topic) {
            return Some(entries[i - 1].webhook.clone());
        }
        i = i - 1;
    }
    assert(entry_views(entries@.take(0)) =~= Seq::<(Seq<char>, Seq<char>)>::empty());
    None
}

} // verus!
