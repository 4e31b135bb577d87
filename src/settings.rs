//! Process configuration: the store and chain addresses, and for each topic
//! its webhook and decryption material.
use vstd::prelude::*;

verus! {

pub open spec fn opt_view(o: Option<String>) -> Option<Seq<char>> {
    match o {
        Some(s) => Some(s@),
        None => None,
    }
}

pub fn clone_opt(o: &Option<String>) -> (r: Option<String>)
    ensures
        opt_view(r) == opt_view(*o),
{
    match o {
        Some(s) => Some(s.clone()),
        None => None,
    }
}

pub struct Settings {
    pub atom: AtomConf,
    pub topics: Vec<TopicConf>,
}

pub struct AtomConf {
    pub db_url: String,
    pub prs_base_url: String,
    pub bind_address: String,
    pub sentry_dsn: Option<String>,
    pub xml_output_dir: String,
}

pub struct TopicConf {
    pub topic: String,
    pub webhook: Option<String>,
    pub encryption_key: String,
    pub iv_prefix: String,
}

pub struct TopicConfView {
    pub topic: Seq<char>,
    pub webhook: Option<Seq<char>>,
    pub encryption_key: Seq<char>,
    pub iv_prefix: Seq<char>,
}

impl View for TopicConf {
    type V = TopicConfView;

    open spec fn view(&self) -> TopicConfView {
        TopicConfView {
            topic: self.topic@,
            webhook: opt_view(self.webhook),
            encryption_key: self.encryption_key@,
            iv_prefix: self.iv_prefix@,
        }
    }
}

impl TopicConf {
    pub fn duplicate(&self) -> (r: TopicConf)
        ensures
            r@ == self@,
    {
        TopicConf {
            topic: self.topic.clone(),
            webhook: clone_opt(&self.webhook),
            encryption_key: self.encryption_key.clone(),
            iv_prefix: self.iv_prefix.clone(),
        }
    }
}

/// The position of the first entry for `topic`.
pub open spec fn topic_index(topics: Seq<TopicConf>, topic: Seq<char>) -> Option<int> {
    if exists|i: int| 0 <= i < topics.len() && topics[i].topic@ == topic {
        Some(
            choose|i: int|
                0 <= i < topics.len() && topics[i].topic@ == topic && forall|j: int|
                    0 <= j < i ==> topics[j].topic@ != topic,
        )
    } else {
        None
    }
}

impl Settings {
    /// The first entry for `topic`.
    pub open spec fn topic_spec(&self, topic: Seq<char>) -> Option<TopicConfView> {
        match topic_index(self.topics@, topic) {
            Some(i) => Some(self.topics@[i]@),
            None => None,
        }
    }

    /// Whether `topic` has an entry.
    pub fn contains_topic(&self, topic: &str) -> (r: bool)
        ensures
            r == (exists|i: int| 0 <= i < self.topics@.len() && self.topics@[i].topic@ == topic@),
    {
        if let Some(_) = self.get_topic(topic) {
            return true;
        }
        false
    }

    /// The first entry for `topic`.
    pub fn get_topic(&self, topic: &str) -> (r: Option<TopicConf>)
        ensures
            match r {
                Some(t) => self.topic_spec(topic@) == Some(t@),
                None => self.topic_spec(topic@) is None,
            },
            r is Some <==> exists|i: int| 0 <= i < self.topics@.len() && self.topics@[i].topic@ == topic@,
    {
        let mut i: usize = 0;
        while i < self.topics.len()
            invariant
                i <= self.topics@.len(),
                forall|j: int| 0 <= j < i ==> self.topics@[j].topic@ != topic@,
            decreases self.topics@.len() - i,
        {
            let item = &self.topics[i];
            if crate::text::str_eq(item.topic.as_str(), topic) {
                proof {
                    let ghost g = choose|k: int|
                        0 <= k < self.topics@.len() && self.topics@[k].topic@ == topic@ && forall|j: int|
                            0 <= j < k ==> self.topics@[j].topic@ != topic@;
                    assert(0 <= i < self.topics@.len() && self.topics@[i as int].topic@ == topic@);
                    if g < i {
                        assert(self.topics@[g].topic@ != topic@);
                    } else if g > i {
                        assert(self.topics@[i as int].topic@ != topic@);
                    }
                }
                return Some(item.duplicate());
            }
            i = i + 1;
        }
        None
    }

    /// The webhook of the first entry for `topic`, where it has one.
    pub fn get_webhook_by_topic(&self, topic: &str) -> (r: Option<String>)
        ensures
            opt_view(r) == match self.topic_spec(topic@) {
                Some(t) => t.webhook,
                None => None,
            },
    {
        if let Some(item) = self.get_topic(topic) {
            match item.webhook {
                Some(v) => return Some(v),
                None => return None,
            };
        }
        None
    }
}

} // verus!
