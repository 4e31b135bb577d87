//! The second pass over stored transactions: the signature verdict, and
//! for an accepted one the users or post that its message writes.
use vstd::prelude::*;

use crate::json::text_field;
use crate::protocol::{decode_spec, or_empty, Message, MessageView};
use crate::settings::opt_view;
use crate::store::{get_opt, PostView, Store, Trx, UserView};
use crate::text::views;

verus! {

/// Whether a signature stands: the hash recomputed from the canonical
/// payload equals the claimed one, and the address recovered from the
/// signature over it is the claimed signer. A missing hash or address (the
/// payload or signature could not be read) is a rejection.
pub open spec fn signature_ok(
    computed_hash: Option<Seq<char>>,
    claimed_hash: Seq<char>,
    recovered: Option<Seq<char>>,
    claimed_address: Seq<char>,
) -> bool {
    computed_hash == Some(claimed_hash) && recovered == Some(claimed_address)
}

impl Trx {
    /// The file hash that this transaction's message names, where it names one.
    pub fn get_file_hash(&self) -> (r: Option<String>)
        ensures
            opt_view(r) == text_field(self.data.data@, "file_hash"@),
    {
        crate::json::text_field_of(self.data.data.as_str(), "file_hash")
    }

    /// The verdict on this transaction's signature, given the hash computed
    /// from its canonical payload and the address recovered from its
    /// signature over that hash.
    pub fn verify_signature(&self, computed_hash: &Option<String>, recovered: &Option<String>) -> (r: bool)
        ensures
            r == signature_ok(
                opt_view(*computed_hash),
                self.data.hash@,
                opt_view(*recovered),
                self.user_address@,
            ),
    {
        let hash_ok = match computed_hash {
            Some(h) => crate::text::str_eq(h.as_str(), self.data.hash.as_str()),
            None => false,
        };
        if !hash_ok {
            return false;
        }
        match recovered {
            Some(a) => crate::text::str_eq(a.as_str(), self.user_address.as_str()),
            None => false,
        }
    }
}

/// Changing the claimed hash or the claimed address of an accepted
/// signature to another value turns the verdict to a rejection.
pub proof fn lemma_signature_mutation(
    computed_hash: Option<Seq<char>>,
    claimed_hash: Seq<char>,
    recovered: Option<Seq<char>>,
    claimed_address: Seq<char>,
    other_hash: Seq<char>,
    other_address: Seq<char>,
)
    requires
        signature_ok(computed_hash, claimed_hash, recovered, claimed_address),
        other_hash != claimed_hash,
        other_address != claimed_address,
    ensures
        !signature_ok(computed_hash, other_hash, recovered, claimed_address),
        !signature_ok(computed_hash, claimed_hash, recovered, other_address),
{
}

/// The users table after each address of `list` is given `u` on its topic,
/// in order.
pub open spec fn users_after(
    m: Map<(Seq<char>, Seq<char>), UserView>,
    list: Seq<Seq<char>>,
    u: UserView,
) -> Map<(Seq<char>, Seq<char>), UserView>
    decreases list.len(),
{
    if list.len() == 0 {
        m
    } else {
        users_after(m, list.drop_last(), u).insert((list.last(), u.topic), u)
    }
}

/// The post row that a publish message writes under its transaction, where
/// `old` was stored before.
pub open spec fn post_row(
    msg: MessageView,
    user_address: Seq<char>,
    encryption: Seq<char>,
    old: Option<PostView>,
) -> PostView {
    match msg {
        MessageView::Publish { file_hash, hash_alg, topic, uri, updated_tx_id } => PostView {
            user_address,
            updated_tx_id,
            file_hash,
            hash_alg,
            topic,
            url: uri,
            encryption,
            fetched: old matches Some(o) && o.fetched,
            verify: old matches Some(o) && o.verify,
            review: old matches Some(o) && o.review,
            deleted: old matches Some(o) && o.deleted,
        },
        _ => arbitrary(),
    }
}

/// Writes what `msg`, sent by `user_address` in transaction `tx_id`, says:
/// each listed user's status, or the published post; for either, the
/// `tx_num` checkpoint then records the sequence number `trx_table_num` of
/// the stored transaction.
pub fn process_pip2001_message(
    store: &mut Store,
    msg: &Message,
    tx_id: &str,
    user_address: &str,
    trx_table_num: i64,
    encryption: &str,
)
    requires
        old(store).wf(),
    ensures
        final(store).wf(),
        final(store).trxs@ == old(store).trxs@,
        final(store).contents@ == old(store).contents@,
        final(store).notifies@ == old(store).notifies@,
        final(store).last_status@ == if msg@ is Unsupported {
            old(store).last_status@
        } else {
            old(store).last_status@.insert("tx_num"@, trx_table_num)
        },
        match msg@ {
            MessageView::PublishManagement { action, user_list, topic } => {
                &&& final(store).users@ == users_after(
                    old(store).users@,
                    user_list,
                    UserView { status: action, tx_id: tx_id@, topic },
                )
                &&& final(store).posts@ == old(store).posts@
            },
            MessageView::Publish { .. } => {
                &&& final(store).posts@ == old(store).posts@.insert(
                    tx_id@,
                    post_row(msg@, user_address@, encryption@, get_opt(old(store).posts@, tx_id@)),
                )
                &&& final(store).users@ == old(store).users@
            },
            MessageView::Unsupported => final(store).users@ == old(store).users@ && final(store).posts@
                == old(store).posts@,
        },
{
    match msg {
        Message::PublishManagement { action, user_list, topic } => {
            let ghost u = UserView { status: *action, tx_id: tx_id@, topic: topic@ };
            let ghost start = store.users@;
            let ghost list = views(user_list@);
            let mut i: usize = 0;
            assert(list.take(0) =~= Seq::<Seq<char>>::empty());
            while i < user_list.len()
                invariant
                    store.wf(),
                    i <= user_list@.len(),
                    list == views(user_list@),
                    u == (UserView { status: *action, tx_id: tx_id@, topic: topic@ }),
                    store.users@ == users_after(start, list.take(i as int), u),
                    store.trxs@ == old(store).trxs@,
                    store.posts@ == old(store).posts@,
                    store.contents@ == old(store).contents@,
                    store.notifies@ == old(store).notifies@,
                    store.last_status@ == old(store).last_status@,
                decreases user_list@.len() - i,
            {
                store.save_user(user_list[i].as_str(), *action, tx_id, topic.as_str());
                assert(list.take(i as int + 1).drop_last() =~= list.take(i as int));
                assert(list[i as int] == user_list@[i as int]@);
                assert(list.take(i as int + 1).last() == list[i as int]);
                assert(users_after(start, list.take(i as int + 1), u) == users_after(
                    start,
                    list.take(i as int),
                    u,
                ).insert((list[i as int], u.topic), u));
                i = i + 1;
            }
            assert(list.take(user_list@.len() as int) =~= list);
            store.update_last_status("tx_num", trx_table_num);
        },
        Message::Publish { file_hash, hash_alg, topic, uri, updated_tx_id } => {
            store.save_post(
                tx_id,
                user_address,
                updated_tx_id.as_str(),
                file_hash.as_str(),
                hash_alg.as_str(),
                topic.as_str(),
                uri.as_str(),
                encryption,
            );
            store.update_last_status("tx_num", trx_table_num);
        },
        Message::Unsupported => {},
    }
}

#[derive(Debug, Clone, Copy, PartialEq, Eq)]
pub enum TrxOutcome {
    /// No transaction is stored under the id.
    NotFound,
    /// The signature did not stand: marked processed, nothing written.
    Rejected,
    /// The message could not be decoded: left for a later pass.
    Undecodable,
    /// The message was written and the transaction marked processed.
    Applied,
}

/// Handles the stored transaction `trx_id` given the verdict on its
/// signature: a rejection is final; an accepted one has its message
/// written, with its sequence number as the `tx_num` checkpoint; either way
/// it is then marked processed, unless its message cannot be decoded.
pub fn process_stored_trx(store: &mut Store, trx_id: &str, verdict: bool) -> (r: TrxOutcome)
    requires
        old(store).wf(),
    ensures
        final(store).wf(),
        final(store).contents@ == old(store).contents@,
        final(store).notifies@ == old(store).notifies@,
        final(store).last_status@ == if old(store).trxs@.contains_key(trx_id@) && verdict && ({
            let t = old(store).trxs@[trx_id@];
            decode_spec(t.data.data, t.data.meta) is Ok && !(decode_spec(t.data.data, t.data.meta) matches Ok(
                MessageView::Unsupported,
            ))
        }) {
            old(store).last_status@.insert("tx_num"@, old(store).trx_num_spec(trx_id@))
        } else {
            old(store).last_status@
        },
        !old(store).trxs@.contains_key(trx_id@) ==> r == TrxOutcome::NotFound && final(store).trxs@
            == old(store).trxs@,
        old(store).trxs@.contains_key(trx_id@) ==> ({
            let t = old(store).trxs@[trx_id@];
            let marked = old(store).trxs@.insert(trx_id@, crate::store::TrxView { processed: true, ..t });
            if !verdict {
                &&& r == TrxOutcome::Rejected
                &&& final(store).trxs@ == marked
                &&& final(store).users@ == old(store).users@
                &&& final(store).posts@ == old(store).posts@
            } else {
                match decode_spec(t.data.data, t.data.meta) {
                    Err(_) => {
                        &&& r == TrxOutcome::Undecodable
                        &&& final(store).trxs@ == old(store).trxs@
                        &&& final(store).users@ == old(store).users@
                        &&& final(store).posts@ == old(store).posts@
                    },
                    Ok(m) => {
                        &&& r == TrxOutcome::Applied
                        &&& final(store).trxs@ == marked
                        &&& match m {
                            MessageView::PublishManagement { action, user_list, topic } => {
                                &&& final(store).users@ == users_after(
                                    old(store).users@,
                                    user_list,
                                    UserView { status: action, tx_id: t.data.id, topic },
                                )
                                &&& final(store).posts@ == old(store).posts@
                            },
                            MessageView::Publish { .. } => {
                                &&& final(store).posts@ == old(store).posts@.insert(
                                    t.data.id,
                                    post_row(
                                        m,
                                        t.user_address,
                                        or_empty(text_field(t.data.meta, "encryption"@)),
                                        get_opt(old(store).posts@, t.data.id),
                                    ),
                                )
                                &&& final(store).users@ == old(store).users@
                            },
                            MessageView::Unsupported => final(store).users@ == old(store).users@
                                && final(store).posts@ == old(store).posts@,
                        }
                    },
                }
            }
        }),
{
    let (data, user_address) = match store.trxs.get(trx_id) {
        Some(t) => (t.data.duplicate(), t.user_address.clone()),
        None => return TrxOutcome::NotFound,
    };
    let trx_table_num = match store.trx_table_num(trx_id) {
        Some(n) => n,
        None => return TrxOutcome::NotFound,
    };
    if !verdict {
        store.update_trx_status(trx_id, true);
        return TrxOutcome::Rejected;
    }
    let msg = match data.decode() {
        Ok(m) => m,
        Err(_) => return TrxOutcome::Undecodable,
    };
    let encryption = data.get_encryption();
    process_pip2001_message(
        store,
        &msg,
        data.id.as_str(),
        user_address.as_str(),
        trx_table_num,
        encryption.as_str(),
    );
    store.update_trx_status(trx_id, true);
    TrxOutcome::Applied
}

} // verus!
