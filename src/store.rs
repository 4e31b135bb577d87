//! The persisted state: transactions, users, posts, contents, pending
//! notifications and checkpoints, each a table under its natural key.
use vstd::prelude::*;

use crate::protocol::{ActionData, ActionDataView, Transaction, UserAction};
use crate::table::{PairTable, Table};
use crate::text::views;

verus! {

/// A stored chain transaction, keyed by `trx_id`.
pub struct Trx {
    pub block_num: i64,
    pub data_type: String,
    pub data: ActionData,
    pub signature: String,
    pub hash: String,
    pub user_address: String,
    pub processed: bool,
}

pub struct TrxView {
    pub block_num: i64,
    pub data_type: Seq<char>,
    pub data: ActionDataView,
    pub signature: Seq<char>,
    pub hash: Seq<char>,
    pub user_address: Seq<char>,
    pub processed: bool,
}

impl View for Trx {
    type V = TrxView;

    open spec fn view(&self) -> TrxView {
        TrxView {
            block_num: self.block_num,
            data_type: self.data_type@,
            data: self.data@,
            signature: self.signature@,
            hash: self.hash@,
            user_address: self.user_address@,
            processed: self.processed,
        }
    }
}

/// An authorisation, keyed by `user_address` and `topic`.
pub struct User {
    pub status: UserAction,
    pub tx_id: String,
    pub topic: String,
}

pub struct UserView {
    pub status: UserAction,
    pub tx_id: Seq<char>,
    pub topic: Seq<char>,
}

impl View for User {
    type V = UserView;

    open spec fn view(&self) -> UserView {
        UserView { status: self.status, tx_id: self.tx_id@, topic: self.topic@ }
    }
}

/// A published content reference, keyed by `publish_tx_id`.
pub struct Post {
    pub user_address: String,
    pub updated_tx_id: String,
    pub file_hash: String,
    pub hash_alg: String,
    pub topic: String,
    pub url: String,
    pub encryption: String,
    pub fetched: bool,
    pub verify: bool,
    pub review: bool,
    pub deleted: bool,
}

pub struct PostView {
    pub user_address: Seq<char>,
    pub updated_tx_id: Seq<char>,
    pub file_hash: Seq<char>,
    pub hash_alg: Seq<char>,
    pub topic: Seq<char>,
    pub url: Seq<char>,
    pub encryption: Seq<char>,
    pub fetched: bool,
    pub verify: bool,
    pub review: bool,
    pub deleted: bool,
}

impl View for Post {
    type V = PostView;

    open spec fn view(&self) -> PostView {
        PostView {
            user_address: self.user_address@,
            updated_tx_id: self.updated_tx_id@,
            file_hash: self.file_hash@,
            hash_alg: self.hash_alg@,
            topic: self.topic@,
            url: self.url@,
            encryption: self.encryption@,
            fetched: self.fetched,
            verify: self.verify,
            review: self.review,
            deleted: self.deleted,
        }
    }
}

/// A content body, keyed by its `file_hash`.
pub struct Content {
    pub url: String,
    pub content: String,
    pub deleted: bool,
}

pub struct ContentView {
    pub url: Seq<char>,
    pub content: Seq<char>,
    pub deleted: bool,
}

impl View for Content {
    type V = ContentView;

    open spec fn view(&self) -> ContentView {
        ContentView { url: self.url@, content: self.content@, deleted: self.deleted }
    }
}

/// A webhook obligation, keyed by `data_id`.
pub struct Notify {
    pub block_num: i64,
    pub trx_id: String,
    pub topic: String,
    pub success: bool,
    pub retries: u64,
}

pub struct NotifyView {
    pub block_num: i64,
    pub trx_id: Seq<char>,
    pub topic: Seq<char>,
    pub success: bool,
    pub retries: u64,
}

impl View for Notify {
    type V = NotifyView;

    open spec fn view(&self) -> NotifyView {
        NotifyView {
            block_num: self.block_num,
            trx_id: self.trx_id@,
            topic: self.topic@,
            success: self.success,
            retries: self.retries,
        }
    }
}

pub struct Store {
    pub trxs: Table<Trx>,
    pub users: PairTable<User>,
    pub posts: Table<Post>,
    pub contents: Table<Content>,
    pub notifies: Table<Notify>,
    pub last_status: Table<i64>,
}

/// The row that saving `t` writes where `old` was stored before: the
/// processed flag survives a re-save.
pub open spec fn trx_row(t: crate::protocol::TransactionView, old: Option<TrxView>) -> TrxView {
    TrxView {
        block_num: t.block_num,
        data_type: t.data._type,
        data: t.data,
        signature: t.data.signature,
        hash: t.data.hash,
        user_address: t.data.user_address,
        processed: match old {
            Some(o) => o.processed,
            None => false,
        },
    }
}

/// Whether the transaction `k` is stored with processed flag `flag`.
pub open spec fn has_status(m: Map<Seq<char>, TrxView>, k: Seq<char>, flag: bool) -> bool {
    m.contains_key(k) && m[k].processed == flag
}

pub open spec fn get_opt<V>(m: Map<Seq<char>, V>, k: Seq<char>) -> Option<V> {
    if m.contains_key(k) {
        Some(m[k])
    } else {
        None
    }
}

/// The notification row that saving writes where `old` was stored before:
/// delivery state survives a re-save.
pub open spec fn notify_row(
    block_num: i64,
    trx_id: Seq<char>,
    topic: Seq<char>,
    old: Option<NotifyView>,
) -> NotifyView {
    NotifyView {
        block_num,
        trx_id,
        topic,
        success: match old {
            Some(o) => o.success,
            None => false,
        },
        retries: match old {
            Some(o) => o.retries,
            None => 0,
        },
    }
}

impl Store {
    pub open spec fn wf(&self) -> bool {
        &&& self.trxs.wf()
        &&& self.users.wf()
        &&& self.posts.wf()
        &&& self.contents.wf()
        &&& self.notifies.wf()
        &&& self.last_status.wf()
    }

    pub fn new() -> (r: Store)
        ensures
            r.wf(),
            r.trxs@ == Map::<Seq<char>, TrxView>::empty(),
            r.users@ == Map::<(Seq<char>, Seq<char>), UserView>::empty(),
            r.posts@ == Map::<Seq<char>, PostView>::empty(),
            r.contents@ == Map::<Seq<char>, ContentView>::empty(),
            r.notifies@ == Map::<Seq<char>, NotifyView>::empty(),
            r.last_status@ == Map::<Seq<char>, i64>::empty(),
    {
        Store {
            trxs: Table::new(),
            users: PairTable::new(),
            posts: Table::new(),
            contents: Table::new(),
            notifies: Table::new(),
            last_status: Table::new(),
        }
    }

    /// Stores `trx` under its `trx_id`, in place of an earlier row there.
    pub fn save_trx(&mut self, trx: &Transaction)
        requires
            old(self).wf(),
        ensures
            final(self).wf(),
            final(self).trxs@ == old(self).trxs@.insert(
                trx.trx_id@,
                trx_row(trx@, get_opt(old(self).trxs@, trx.trx_id@)),
            ),
            final(self).users@ == old(self).users@,
            final(self).posts@ == old(self).posts@,
            final(self).contents@ == old(self).contents@,
            final(self).notifies@ == old(self).notifies@,
            final(self).last_status@ == old(self).last_status@,
    {
        let processed = match self.trxs.get(trx.trx_id.as_str()) {
            Some(old_row) => old_row.processed,
            None => false,
        };
        let row = Trx {
            block_num: trx.block_num,
            data_type: trx.data._type.clone(),
            data: trx.data.duplicate(),
            signature: trx.data.signature.clone(),
            hash: trx.data.hash.clone(),
            user_address: trx.data.user_address.clone(),
            processed,
        };
        self.trxs.upsert(trx.trx_id.clone(), row);
    }

    /// Sets the processed flag of the transaction `trx_id`, where it is stored.
    pub fn update_trx_status(&mut self, trx_id: &str, processed: bool) -> (r: bool)
        requires
            old(self).wf(),
        ensures
            final(self).wf(),
            r == old(self).trxs@.contains_key(trx_id@),
            final(self).trxs@ == if r {
                old(self).trxs@.insert(
                    trx_id@,
                    TrxView { processed, ..old(self).trxs@[trx_id@] },
                )
            } else {
                old(self).trxs@
            },
            final(self).users@ == old(self).users@,
            final(self).posts@ == old(self).posts@,
            final(self).contents@ == old(self).contents@,
            final(self).notifies@ == old(self).notifies@,
            final(self).last_status@ == old(self).last_status@,
    {
        let row = match self.trxs.get(trx_id) {
            Some(t) => Trx {
                block_num: t.block_num,
                data_type: t.data_type.clone(),
                data: t.data.duplicate(),
                signature: t.signature.clone(),
                hash: t.hash.clone(),
                user_address: t.user_address.clone(),
                processed,
            },
            None => return false,
        };
        self.trxs.upsert(String::from_str(trx_id), row);
        true
    }

    /// The ids of the transactions whose processed flag is `is_processed`.
    pub fn get_trxs(&self, is_processed: bool) -> (r: Vec<String>)
        requires
            self.wf(),
        ensures
            forall|j: int|
                0 <= j < r@.len() ==> #[trigger] has_status(self.trxs@, r@[j]@, is_processed),
            forall|k: Seq<char>|
                #[trigger] has_status(self.trxs@, k, is_processed) ==> exists|j: int|
                    0 <= j < r@.len() && r@[j]@ == k,
    {
        let keys = self.trxs.keys();
        let mut out: Vec<String> = Vec::new();
        let mut i: usize = 0;
        while i < keys.len()
            invariant
                self.wf(),
                i <= keys@.len(),
                forall|k: Seq<char>| #[trigger] views(keys@).contains(k) <==> self.trxs@.contains_key(k),
                forall|j: int|
                    0 <= j < out@.len() ==> #[trigger] has_status(self.trxs@, out@[j]@, is_processed),
                forall|j: int|
                    0 <= j < i && #[trigger] has_status(self.trxs@, keys@[j]@, is_processed) ==> exists|
                        m: int,
                    | 0 <= m < out@.len() && out@[m]@ == keys@[j]@,
            decreases keys@.len() - i,
        {
            let ghost before = out@;
            assert(views(keys@)[i as int] == keys@[i as int]@);
            assert(views(keys@).contains(keys@[i as int]@));
            let ghost k = keys@[i as int]@;
            let keep = match self.trxs.get(keys[i].as_str()) {
                Some(t) => t.processed == is_processed,
                None => false,
            };
            assert(keep ==> has_status(self.trxs@, k, is_processed));
            assert(!keep ==> !has_status(self.trxs@, k, is_processed));
            if keep {
                out.push(keys[i].clone());
            }
            assert(keep ==> out@ == before.push(keys@[i as int]));
            assert(!keep ==> out@ == before);
            proof {
                assert forall|j: int| 0 <= j < out@.len() implies #[trigger] has_status(
                    self.trxs@,
                    out@[j]@,
                    is_processed,
                ) by {
                    if j < before.len() {
                        assert(out@[j] == before[j]);
                    } else {
                        assert(out@[j] == keys@[i as int]);
                    }
                }
                assert forall|j: int|
                    0 <= j < i + 1 && #[trigger] has_status(self.trxs@, keys@[j]@, is_processed) implies exists|
                        m: int,
                    | 0 <= m < out@.len() && out@[m]@ == keys@[j]@ by {
                    if j < i {
                        let m = choose|m: int| 0 <= m < before.len() && before[m]@ == keys@[j]@;
                        assert(out@[m] == before[m]);
                    } else {
                        assert(keep);
                        assert(out@[before.len() as int]@ == keys@[i as int]@);
                    }
                }
            }
            i = i + 1;
        }
        proof {
            assert forall|k: Seq<char>|
                #[trigger] has_status(self.trxs@, k, is_processed) implies exists|j: int|
                    0 <= j < out@.len() && out@[j]@ == k by {
                assert(views(keys@).contains(k));
                let j = choose|j: int| 0 <= j < views(keys@).len() && views(keys@)[j] == k;
                assert(keys@[j]@ == k);
                assert(has_status(self.trxs@, keys@[j]@, is_processed));
            }
        }
        out
    }

    /// Stores an authorisation for `user_address` on `topic`, in place of any
    /// earlier one for that pair; those for other topics stay.
    pub fn save_user(&mut self, user_address: &str, status: UserAction, tx_id: &str, topic: &str)
        requires
            old(self).wf(),
        ensures
            final(self).wf(),
            final(self).users@ == old(self).users@.insert(
                (user_address@, topic@),
                UserView { status, tx_id: tx_id@, topic: topic@ },
            ),
            final(self).trxs@ == old(self).trxs@,
            final(self).posts@ == old(self).posts@,
            final(self).contents@ == old(self).contents@,
            final(self).notifies@ == old(self).notifies@,
            final(self).last_status@ == old(self).last_status@,
    {
        let row = User { status, tx_id: String::from_str(tx_id), topic: String::from_str(topic) };
        self.users.upsert(String::from_str(user_address), String::from_str(topic), row);
    }

    /// The checkpoint under `key`.
    pub fn get_last_status(&self, key: &str) -> (r: Option<i64>)
        requires
            self.wf(),
        ensures
            r == get_opt(self.last_status@, key@),
    {
        match self.last_status.get(key) {
            Some(v) => Some(*v),
            None => None,
        }
    }

    /// Sets the checkpoint under `key`.
    pub fn update_last_status(&mut self, key: &str, val: i64)
        requires
            old(self).wf(),
        ensures
            final(self).wf(),
            final(self).last_status@ == old(self).last_status@.insert(key@, val),
            final(self).trxs@ == old(self).trxs@,
            final(self).users@ == old(self).users@,
            final(self).posts@ == old(self).posts@,
            final(self).contents@ == old(self).contents@,
            final(self).notifies@ == old(self).notifies@,
    {
        self.last_status.upsert(String::from_str(key), val);
    }

    /// Stores the notification owed for `data_id`; one already stored keeps
    /// its delivery state.
    pub fn save_notify(&mut self, data_id: &str, block_num: i64, trx_id: &str, topic: &str)
        requires
            old(self).wf(),
        ensures
            final(self).wf(),
            final(self).notifies@ == old(self).notifies@.insert(
                data_id@,
                notify_row(block_num, trx_id@, topic@, get_opt(old(self).notifies@, data_id@)),
            ),
            final(self).trxs@ == old(self).trxs@,
            final(self).users@ == old(self).users@,
            final(self).posts@ == old(self).posts@,
            final(self).contents@ == old(self).contents@,
            final(self).last_status@ == old(self).last_status@,
    {
        let (success, retries) = match self.notifies.get(data_id) {
            Some(n) => (n.success, n.retries),
            None => (false, 0u64),
        };
        let row = Notify {
            block_num,
            trx_id: String::from_str(trx_id),
            topic: String::from_str(topic),
            success,
            retries,
        };
        self.notifies.upsert(String::from_str(data_id), row);
    }

    /// Records one delivery attempt for `data_id`: its outcome, and one more
    /// attempt counted.
    pub fn update_notify_status(&mut self, data_id: &str, success: bool) -> (r: bool)
        requires
            old(self).wf(),
        ensures
            final(self).wf(),
            r == old(self).notifies@.contains_key(data_id@),
            final(self).notifies@ == if r {
                old(self).notifies@.insert(
                    data_id@,
                    NotifyView {
                        success,
                        retries: if old(self).notifies@[data_id@].retries < u64::MAX {
                            (old(self).notifies@[data_id@].retries + 1) as u64
                        } else {
                            u64::MAX
                        },
                        ..old(self).notifies@[data_id@]
                    },
                )
            } else {
                old(self).notifies@
            },
            final(self).trxs@ == old(self).trxs@,
            final(self).users@ == old(self).users@,
            final(self).posts@ == old(self).posts@,
            final(self).contents@ == old(self).contents@,
            final(self).last_status@ == old(self).last_status@,
    {
        let row = match self.notifies.get(data_id) {
            Some(n) => Notify {
                block_num: n.block_num,
                trx_id: n.trx_id.clone(),
                topic: n.topic.clone(),
                success,
                retries: if n.retries < u64::MAX {
                    n.retries + 1
                } else {
                    u64::MAX
                },
            },
            None => return false,
        };
        self.notifies.upsert(String::from_str(data_id), row);
        true
    }

    /// Stores a post under `publish_tx_id`; one already stored keeps its
    /// fetch, verification, review and deletion state.
    pub fn save_post(
        &mut self,
        publish_tx_id: &str,
        user_address: &str,
        updated_tx_id: &str,
        file_hash: &str,
        hash_alg: &str,
        topic: &str,
        url: &str,
        encryption: &str,
    )
        requires
            old(self).wf(),
        ensures
            final(self).wf(),
            final(self).posts@ == old(self).posts@.insert(
                publish_tx_id@,
                PostView {
                    user_address: user_address@,
                    updated_tx_id: updated_tx_id@,
                    file_hash: file_hash@,
                    hash_alg: hash_alg@,
                    topic: topic@,
                    url: url@,
                    encryption: encryption@,
                    fetched: old(self).posts@.contains_key(publish_tx_id@) && old(self).posts@[publish_tx_id@].fetched,
                    verify: old(self).posts@.contains_key(publish_tx_id@) && old(self).posts@[publish_tx_id@].verify,
                    review: old(self).posts@.contains_key(publish_tx_id@) && old(self).posts@[publish_tx_id@].review,
                    deleted: old(self).posts@.contains_key(publish_tx_id@) && old(self).posts@[publish_tx_id@].deleted,
                },
            ),
            final(self).trxs@ == old(self).trxs@,
            final(self).users@ == old(self).users@,
            final(self).contents@ == old(self).contents@,
            final(self).notifies@ == old(self).notifies@,
            final(self).last_status@ == old(self).last_status@,
    {
        let (fetched, verify, review, deleted) = match self.posts.get(publish_tx_id) {
            Some(p) => (p.fetched, p.verify, p.review, p.deleted),
            None => (false, false, false, false),
        };
        let row = Post {
            user_address: String::from_str(user_address),
            updated_tx_id: String::from_str(updated_tx_id),
            file_hash: String::from_str(file_hash),
            hash_alg: String::from_str(hash_alg),
            topic: String::from_str(topic),
            url: String::from_str(url),
            encryption: String::from_str(encryption),
            fetched,
            verify,
            review,
            deleted,
        };
        self.posts.upsert(String::from_str(publish_tx_id), row);
    }

    /// Sets the state flags of the post `publish_tx_id`, where it is stored.
    pub fn update_post_status(
        &mut self,
        publish_tx_id: &str,
        fetched: bool,
        verify: bool,
        review: bool,
        deleted: bool,
    ) -> (r: bool)
        requires
            old(self).wf(),
        ensures
            final(self).wf(),
            r == old(self).posts@.contains_key(publish_tx_id@),
            final(self).posts@ == if r {
                old(self).posts@.insert(
                    publish_tx_id@,
                    PostView { fetched, verify, review, deleted, ..old(self).posts@[publish_tx_id@] },
                )
            } else {
                old(self).posts@
            },
            final(self).trxs@ == old(self).trxs@,
            final(self).users@ == old(self).users@,
            final(self).contents@ == old(self).contents@,
            final(self).notifies@ == old(self).notifies@,
            final(self).last_status@ == old(self).last_status@,
    {
        let row = match self.posts.get(publish_tx_id) {
            Some(p) => Post {
                user_address: p.user_address.clone(),
                updated_tx_id: p.updated_tx_id.clone(),
                file_hash: p.file_hash.clone(),
                hash_alg: p.hash_alg.clone(),
                topic: p.topic.clone(),
                url: p.url.clone(),
                encryption: p.encryption.clone(),
                fetched,
                verify,
                review,
                deleted,
            },
            None => return false,
        };
        self.posts.upsert(String::from_str(publish_tx_id), row);
        true
    }

    /// Stores a content body under `file_hash` unless one is there already;
    /// `true` when it did.
    pub fn save_content(&mut self, file_hash: &str, url: &str, content: &str) -> (r: bool)
        requires
            old(self).wf(),
        ensures
            final(self).wf(),
            r == !old(self).contents@.contains_key(file_hash@),
            final(self).contents@ == if r {
                old(self).contents@.insert(
                    file_hash@,
                    ContentView { url: url@, content: content@, deleted: false },
                )
            } else {
                old(self).contents@
            },
            final(self).trxs@ == old(self).trxs@,
            final(self).users@ == old(self).users@,
            final(self).posts@ == old(self).posts@,
            final(self).notifies@ == old(self).notifies@,
            final(self).last_status@ == old(self).last_status@,
    {
        let row = Content {
            url: String::from_str(url),
            content: String::from_str(content),
            deleted: false,
        };
        self.contents.insert_if_absent(String::from_str(file_hash), row)
    }

    /// Marks the content under `file_hash` deleted, where one is stored.
    pub fn delete_content(&mut self, file_hash: &str) -> (r: bool)
        requires
            old(self).wf(),
        ensures
            final(self).wf(),
            r == old(self).contents@.contains_key(file_hash@),
            final(self).contents@ == if r {
                old(self).contents@.insert(
                    file_hash@,
                    ContentView { deleted: true, ..old(self).contents@[file_hash@] },
                )
            } else {
                old(self).contents@
            },
            final(self).trxs@ == old(self).trxs@,
            final(self).users@ == old(self).users@,
            final(self).posts@ == old(self).posts@,
            final(self).notifies@ == old(self).notifies@,
            final(self).last_status@ == old(self).last_status@,
    {
        let row = match self.contents.get(file_hash) {
            Some(c) => Content { url: c.url.clone(), content: c.content.clone(), deleted: true },
            None => return false,
        };
        self.contents.upsert(String::from_str(file_hash), row);
        true
    }

    /// Whether the post `k` is stored, not deleted, with fetched flag `flag`.
    pub open spec fn post_pending(&self, k: Seq<char>, flag: bool) -> bool {
        self.posts@.contains_key(k) && self.posts@[k].fetched == flag && !self.posts@[k].deleted
    }

    /// Whether the notification `k` still waits for delivery while its post
    /// is stored, not deleted, fetched and verified.
    pub open spec fn notify_pending(&self, k: Seq<char>) -> bool {
        &&& self.notifies@.contains_key(k)
        &&& !self.notifies@[k].success
        &&& self.posts@.contains_key(k)
        &&& !self.posts@[k].deleted
        &&& self.posts@[k].fetched
        &&& self.posts@[k].verify
    }

    /// Up to `limit` ids of posts that are not deleted and whose fetched
    /// flag is `fetched`; all of them where there are fewer.
    pub fn get_posts(&self, fetched: bool, limit: usize) -> (r: Vec<String>)
        requires
            self.wf(),
        ensures
            r@.len() <= limit,
            forall|j: int| 0 <= j < r@.len() ==> #[trigger] self.post_pending(r@[j]@, fetched),
            r@.len() < limit ==> forall|k: Seq<char>|
                #[trigger] self.post_pending(k, fetched) ==> exists|j: int| 0 <= j < r@.len() && r@[j]@ == k,
    {
        let keys = self.posts.keys();
        let mut out: Vec<String> = Vec::new();
        let mut i: usize = 0;
        while i < keys.len() && out.len() < limit
            invariant
                self.wf(),
                i <= keys@.len(),
                out@.len() <= limit,
                forall|k: Seq<char>| #[trigger] views(keys@).contains(k) <==> self.posts@.contains_key(k),
                forall|j: int| 0 <= j < out@.len() ==> #[trigger] self.post_pending(out@[j]@, fetched),
                forall|j: int|
                    0 <= j < i && #[trigger] self.post_pending(keys@[j]@, fetched) ==> exists|m: int|
                        0 <= m < out@.len() && out@[m]@ == keys@[j]@,
            decreases keys@.len() - i,
        {
            let ghost before = out@;
            let ghost k = keys@[i as int]@;
            let keep = match self.posts.get(keys[i].as_str()) {
                Some(p) => p.fetched == fetched && !p.deleted,
                None => false,
            };
            assert(keep == self.post_pending(k, fetched));
            if keep {
                out.push(keys[i].clone());
            }
            proof {
                assert forall|j: int| 0 <= j < out@.len() implies #[trigger] self.post_pending(
                    out@[j]@,
                    fetched,
                ) by {
                    if j < before.len() {
                        assert(out@[j] == before[j]);
                    } else {
                        assert(out@[j] == keys@[i as int]);
                    }
                }
                assert forall|j: int|
                    0 <= j < i + 1 && #[trigger] self.post_pending(keys@[j]@, fetched) implies exists|m: int|
                        0 <= m < out@.len() && out@[m]@ == keys@[j]@ by {
                    if j < i {
                        let m = choose|m: int| 0 <= m < before.len() && before[m]@ == keys@[j]@;
                        assert(out@[m] == before[m]);
                    } else {
                        assert(out@[before.len() as int]@ == keys@[i as int]@);
                    }
                }
            }
            i = i + 1;
        }
        proof {
            if out@.len() < limit {
                assert forall|k: Seq<char>| #[trigger] self.post_pending(k, fetched) implies exists|j: int|
                    0 <= j < out@.len() && out@[j]@ == k by {
                    assert(views(keys@).contains(k));
                    let j = choose|j: int| 0 <= j < views(keys@).len() && views(keys@)[j] == k;
                    assert(keys@[j]@ == k);
                    assert(self.post_pending(keys@[j]@, fetched));
                }
            }
        }
        out
    }

    /// The ids of the notifications that wait for delivery while their post
    /// is stored, not deleted, fetched and verified.
    pub fn get_unnotified_list(&self) -> (r: Vec<String>)
        requires
            self.wf(),
        ensures
            forall|j: int| 0 <= j < r@.len() ==> #[trigger] self.notify_pending(r@[j]@),
            forall|k: Seq<char>| #[trigger]
                self.notify_pending(k) ==> exists|j: int| 0 <= j < r@.len() && r@[j]@ == k,
    {
        let keys = self.notifies.keys();
        let mut out: Vec<String> = Vec::new();
        let mut i: usize = 0;
        while i < keys.len()
            invariant
                self.wf(),
                i <= keys@.len(),
                forall|k: Seq<char>| #[trigger] views(keys@).contains(k) <==> self.notifies@.contains_key(k),
                forall|j: int| 0 <= j < out@.len() ==> #[trigger] self.notify_pending(out@[j]@),
                forall|j: int|
                    0 <= j < i && #[trigger] self.notify_pending(keys@[j]@) ==> exists|m: int|
                        0 <= m < out@.len() && out@[m]@ == keys@[j]@,
            decreases keys@.len() - i,
        {
            let ghost before = out@;
            let ghost k = keys@[i as int]@;
            let waiting = match self.notifies.get(keys[i].as_str()) {
                Some(n) => !n.success,
                None => false,
            };
            let ready = match self.posts.get(keys[i].as_str()) {
                Some(p) => !p.deleted && p.fetched && p.verify,
                None => false,
            };
            let keep = waiting && ready;
            assert(keep == self.notify_pending(k));
            if keep {
                out.push(keys[i].clone());
            }
            proof {
                assert forall|j: int| 0 <= j < out@.len() implies #[trigger] self.notify_pending(out@[j]@) by {
                    if j < before.len() {
                        assert(out@[j] == before[j]);
                    } else {
                        assert(out@[j] == keys@[i as int]);
                    }
                }
                assert forall|j: int|
                    0 <= j < i + 1 && #[trigger] self.notify_pending(keys@[j]@) implies exists|m: int|
                        0 <= m < out@.len() && out@[m]@ == keys@[j]@ by {
                    if j < i {
                        let m = choose|m: int| 0 <= m < before.len() && before[m]@ == keys@[j]@;
                        assert(out@[m] == before[m]);
                    } else {
                        assert(out@[before.len() as int]@ == keys@[i as int]@);
                    }
                }
            }
            i = i + 1;
        }
        proof {
            assert forall|k: Seq<char>| #[trigger] self.notify_pending(k) implies exists|j: int|
                0 <= j < out@.len() && out@[j]@ == k by {
                assert(views(keys@).contains(k));
                let j = choose|j: int| 0 <= j < views(keys@).len() && views(keys@)[j] == k;
                assert(keys@[j]@ == k);
                assert(self.notify_pending(keys@[j]@));
            }
        }
        out
    }

    /// Marks the post `publish_tx_id` deleted, where it is stored.
    pub fn delete_post(&mut self, publish_tx_id: &str) -> (r: bool)
        requires
            old(self).wf(),
        ensures
            final(self).wf(),
            r == old(self).posts@.contains_key(publish_tx_id@),
            final(self).posts@ == if r {
                old(self).posts@.insert(
                    publish_tx_id@,
                    PostView { deleted: true, ..old(self).posts@[publish_tx_id@] },
                )
            } else {
                old(self).posts@
            },
            final(self).trxs@ == old(self).trxs@,
            final(self).users@ == old(self).users@,
            final(self).contents@ == old(self).contents@,
            final(self).notifies@ == old(self).notifies@,
            final(self).last_status@ == old(self).last_status@,
    {
        let (fetched, verify, review) = match self.posts.get(publish_tx_id) {
            Some(p) => (p.fetched, p.verify, p.review),
            None => return false,
        };
        self.update_post_status(publish_tx_id, fetched, verify, review, true)
    }

    /// The post stored under `publish_tx_id`.
    pub fn get_post_by_publish_tx_id(&self, publish_tx_id: &str) -> (r: Option<&Post>)
        requires
            self.wf(),
        ensures
            match r {
                Some(p) => get_opt(self.posts@, publish_tx_id@) == Some(p@),
                None => get_opt(self.posts@, publish_tx_id@) is None,
            },
    {
        self.posts.get(publish_tx_id)
    }

    /// The content stored under `file_hash`.
    pub fn get_content(&self, file_hash: &str) -> (r: Option<&Content>)
        requires
            self.wf(),
        ensures
            match r {
                Some(c) => get_opt(self.contents@, file_hash@) == Some(c@),
                None => get_opt(self.contents@, file_hash@) is None,
            },
    {
        self.contents.get(file_hash)
    }

    /// The transaction stored under `trx_id`.
    pub fn get_trx_by_trx_id(&self, trx_id: &str) -> (r: Option<&Trx>)
        requires
            self.wf(),
        ensures
            match r {
                Some(t) => get_opt(self.trxs@, trx_id@) == Some(t@),
                None => get_opt(self.trxs@, trx_id@) is None,
            },
    {
        self.trxs.get(trx_id)
    }

    /// The notification stored under `data_id`.
    pub fn get_notify_by_data_id(&self, data_id: &str) -> (r: Option<&Notify>)
        requires
            self.wf(),
        ensures
            match r {
                Some(n) => get_opt(self.notifies@, data_id@) == Some(n@),
                None => get_opt(self.notifies@, data_id@) is None,
            },
    {
        self.notifies.get(data_id)
    }

    /// The sequence number of the stored transaction `k`: its place, from
    /// one, in the order in which transactions were first stored.
    pub open spec fn trx_num_spec(&self, k: Seq<char>) -> i64 {
        let p = self.trxs.position_of(k);
        if p + 1 <= i64::MAX {
            (p + 1) as i64
        } else {
            i64::MAX
        }
    }

    /// The sequence number of the stored transaction `trx_id`.
    pub fn trx_table_num(&self, trx_id: &str) -> (r: Option<i64>)
        requires
            self.wf(),
        ensures
            match r {
                Some(n) => self.trxs@.contains_key(trx_id@) && n == self.trx_num_spec(trx_id@),
                None => !self.trxs@.contains_key(trx_id@),
            },
    {
        match self.trxs.position(trx_id) {
            Some(p) => {
                if (p as u64) < (i64::MAX as u64) {
                    Some(p as i64 + 1)
                } else {
                    Some(i64::MAX)
                }
            },
            None => None,
        }
    }
}

} // verus!
