//! Ingestion of a batch of transactions for one topic: each is persisted,
//! a publish leaves a pending notification, and then the topic's
//! checkpoint moves to its block.
use vstd::prelude::*;

use crate::protocol::{decode_spec, MessageView, Transaction, TransactionView, trx_views};
use crate::store::{get_opt, notify_row, trx_row, NotifyView, Store, TrxView};
use crate::util::{block_num_key, get_last_block_num_by_topic};

verus! {

/// `m` after the upserts that the items of `b` for which `applies` holds
/// make, in order: each writes `row(previous, item)` under `key(item)`.
pub open spec fn upsert_fold<T, V>(
    m: Map<Seq<char>, V>,
    b: Seq<T>,
    applies: spec_fn(T) -> bool,
    key: spec_fn(T) -> Seq<char>,
    row: spec_fn(Option<V>, T) -> V,
) -> Map<Seq<char>, V>
    decreases b.len(),
{
    if b.len() == 0 {
        m
    } else {
        let prev = upsert_fold(m, b.drop_last(), applies, key, row);
        let t = b.last();
        if applies(t) {
            prev.insert(key(t), row(get_opt(prev, key(t)), t))
        } else {
            prev
        }
    }
}

/// The last item of `b` that writes under `k`.
pub open spec fn last_with<T>(
    b: Seq<T>,
    applies: spec_fn(T) -> bool,
    key: spec_fn(T) -> Seq<char>,
    k: Seq<char>,
) -> Option<T>
    decreases b.len(),
{
    if b.len() == 0 {
        None
    } else if applies(b.last()) && key(b.last()) == k {
        Some(b.last())
    } else {
        last_with(b.drop_last(), applies, key, k)
    }
}

/// A row that a later write replaces takes nothing from it but what the
/// earlier row took from before.
pub open spec fn absorbing<T, V>(row: spec_fn(Option<V>, T) -> V) -> bool {
    forall|o: Option<V>, t1: T, t2: T| #[trigger] row(Some(row(o, t1)), t2) == row(o, t2)
}

pub proof fn lemma_fold_at<T, V>(
    m: Map<Seq<char>, V>,
    b: Seq<T>,
    applies: spec_fn(T) -> bool,
    key: spec_fn(T) -> Seq<char>,
    row: spec_fn(Option<V>, T) -> V,
    k: Seq<char>,
)
    requires
        absorbing(row),
    ensures
        get_opt(upsert_fold(m, b, applies, key, row), k) == match last_with(b, applies, key, k) {
            Some(t) => Some(row(get_opt(m, k), t)),
            None => get_opt(m, k),
        },
    decreases b.len(),
{
    if b.len() > 0 {
        lemma_fold_at(m, b.drop_last(), applies, key, row, k);
        let prev = upsert_fold(m, b.drop_last(), applies, key, row);
        let t = b.last();
        if applies(t) && key(t) == k {
            match last_with(b.drop_last(), applies, key, k) {
                Some(t1) => {
                    assert(row(Some(row(get_opt(m, k), t1)), t) == row(get_opt(m, k), t));
                },
                None => {},
            }
        }
    }
}

pub proof fn lemma_maps_equal<V>(a: Map<Seq<char>, V>, b: Map<Seq<char>, V>)
    requires
        forall|k: Seq<char>| #[trigger] get_opt(a, k) == get_opt(b, k),
    ensures
        a == b,
{
    assert forall|k: Seq<char>| #[trigger] a.contains_key(k) == b.contains_key(k) by {
        assert(get_opt(a, k) == get_opt(b, k));
    }
    assert forall|k: Seq<char>| #[trigger] a.contains_key(k) implies a[k] == b[k] by {
        assert(get_opt(a, k) == get_opt(b, k));
    }
    assert(a =~= b);
}

/// Applying the same batch of absorbing upserts twice leaves what once does.
pub proof fn lemma_fold_twice<T, V>(
    m: Map<Seq<char>, V>,
    b: Seq<T>,
    applies: spec_fn(T) -> bool,
    key: spec_fn(T) -> Seq<char>,
    row: spec_fn(Option<V>, T) -> V,
)
    requires
        absorbing(row),
    ensures
        upsert_fold(upsert_fold(m, b, applies, key, row), b, applies, key, row) == upsert_fold(
            m,
            b,
            applies,
            key,
            row,
        ),
{
    let once = upsert_fold(m, b, applies, key, row);
    let twice = upsert_fold(once, b, applies, key, row);
    assert forall|k: Seq<char>| #[trigger] get_opt(twice, k) == get_opt(once, k) by {
        lemma_fold_at(m, b, applies, key, row, k);
        lemma_fold_at(once, b, applies, key, row, k);
        match last_with(b, applies, key, k) {
            Some(t) => {
                assert(row(Some(row(get_opt(m, k), t)), t) == row(get_opt(m, k), t));
            },
            None => {},
        }
    }
    lemma_maps_equal(twice, once);
}

pub open spec fn all_items(t: TransactionView) -> bool {
    true
}

pub open spec fn trx_key(t: TransactionView) -> Seq<char> {
    t.trx_id
}

pub open spec fn trx_upsert(o: Option<TrxView>, t: TransactionView) -> TrxView {
    trx_row(t, o)
}

/// Whether `t` carries a publish message.
pub open spec fn is_publish(t: TransactionView) -> bool {
    decode_spec(t.data.data, t.data.meta) matches Ok(MessageView::Publish { .. })
}

pub open spec fn data_key(t: TransactionView) -> Seq<char> {
    t.data.id
}

pub open spec fn every() -> spec_fn(TransactionView) -> bool {
    |t: TransactionView| all_items(t)
}

pub open spec fn by_trx_id() -> spec_fn(TransactionView) -> Seq<char> {
    |t: TransactionView| trx_key(t)
}

pub open spec fn trx_rows() -> spec_fn(Option<TrxView>, TransactionView) -> TrxView {
    |o: Option<TrxView>, t: TransactionView| trx_upsert(o, t)
}

pub open spec fn publishes() -> spec_fn(TransactionView) -> bool {
    |t: TransactionView| is_publish(t)
}

pub open spec fn by_data_id() -> spec_fn(TransactionView) -> Seq<char> {
    |t: TransactionView| data_key(t)
}

pub open spec fn notify_upsert(topic: Seq<char>) -> spec_fn(Option<NotifyView>, TransactionView) -> NotifyView {
    |o: Option<NotifyView>, t: TransactionView| notify_row(t.block_num, t.trx_id, topic, o)
}

/// The transaction table after ingesting `b`.
pub open spec fn ingest_trxs(m: Map<Seq<char>, TrxView>, b: Seq<TransactionView>) -> Map<
    Seq<char>,
    TrxView,
> {
    upsert_fold(m, b, every(), by_trx_id(), trx_rows())
}

/// The notification table after ingesting `b` for `topic`.
pub open spec fn ingest_notifies(
    m: Map<Seq<char>, NotifyView>,
    b: Seq<TransactionView>,
    topic: Seq<char>,
) -> Map<Seq<char>, NotifyView> {
    upsert_fold(m, b, publishes(), by_data_id(), notify_upsert(topic))
}

/// The checkpoints after ingesting `b` for `topic`: the topic's moves to
/// the block of the last transaction.
pub open spec fn ingest_status(m: Map<Seq<char>, i64>, b: Seq<TransactionView>, topic: Seq<char>) -> Map<
    Seq<char>,
    i64,
> {
    if b.len() == 0 {
        m
    } else {
        m.insert(block_num_key(topic), b.last().block_num)
    }
}

/// Persists `trx`: its row, and the pending notification a publish owes.
pub fn persist_transaction(store: &mut Store, topic: &str, trx: &Transaction)
    requires
        old(store).wf(),
    ensures
        final(store).wf(),
        final(store).trxs@ == ingest_trxs(old(store).trxs@, seq![trx@]),
        final(store).notifies@ == ingest_notifies(old(store).notifies@, seq![trx@], topic@),
        final(store).last_status@ == old(store).last_status@,
        final(store).users@ == old(store).users@,
        final(store).posts@ == old(store).posts@,
        final(store).contents@ == old(store).contents@,
{
    proof {
        lemma_fold_single(store.trxs@, trx@, every(), by_trx_id(), trx_rows());
        lemma_fold_single(store.notifies@, trx@, publishes(), by_data_id(), notify_upsert(topic@));
    }
    store.save_trx(trx);
    match trx.get_notify_payload() {
        Ok(Some(payload)) => {
            store.save_notify(
                payload.block.data_id.as_str(),
                payload.block.block_num,
                payload.block.trx_id.as_str(),
                topic,
            );
        },
        _ => {},
    }
}

/// Persists `trx` and then moves the checkpoint of `topic` to its block.
pub fn ingest_transaction(store: &mut Store, topic: &str, trx: &Transaction)
    requires
        old(store).wf(),
    ensures
        final(store).wf(),
        final(store).trxs@ == ingest_trxs(old(store).trxs@, seq![trx@]),
        final(store).notifies@ == ingest_notifies(old(store).notifies@, seq![trx@], topic@),
        final(store).last_status@ == ingest_status(old(store).last_status@, seq![trx@], topic@),
        final(store).users@ == old(store).users@,
        final(store).posts@ == old(store).posts@,
        final(store).contents@ == old(store).contents@,
{
    assert(seq![trx@].last() == trx@);
    persist_transaction(store, topic, trx);
    let key = get_last_block_num_by_topic(topic);
    store.update_last_status(key.as_str(), trx.block_num);
}

proof fn lemma_fold_single<T, V>(
    m: Map<Seq<char>, V>,
    t: T,
    applies: spec_fn(T) -> bool,
    key: spec_fn(T) -> Seq<char>,
    row: spec_fn(Option<V>, T) -> V,
)
    ensures
        upsert_fold(m, seq![t], applies, key, row) == if applies(t) {
            m.insert(key(t), row(get_opt(m, key(t)), t))
        } else {
            m
        },
{
    assert(seq![t].drop_last() =~= Seq::<T>::empty());
    assert(upsert_fold(m, Seq::<T>::empty(), applies, key, row) == m);
    assert(seq![t].last() == t);
}

proof fn lemma_fold_step<T, V>(
    m: Map<Seq<char>, V>,
    b: Seq<T>,
    i: int,
    applies: spec_fn(T) -> bool,
    key: spec_fn(T) -> Seq<char>,
    row: spec_fn(Option<V>, T) -> V,
)
    requires
        0 <= i < b.len(),
    ensures
        upsert_fold(m, b.take(i + 1), applies, key, row) == upsert_fold(
            upsert_fold(m, b.take(i), applies, key, row),
            seq![b[i]],
            applies,
            key,
            row,
        ),
{
    assert(b.take(i + 1).drop_last() =~= b.take(i));
    assert(b.take(i + 1).last() == b[i]);
    lemma_fold_single(upsert_fold(m, b.take(i), applies, key, row), b[i], applies, key, row);
}

/// Ingests a batch in order, each transaction persisted before the
/// checkpoint moves to it.
pub fn ingest_batch(store: &mut Store, topic: &str, batch: &Vec<Transaction>)
    requires
        old(store).wf(),
    ensures
        final(store).wf(),
        final(store).trxs@ == ingest_trxs(old(store).trxs@, trx_views(batch@)),
        final(store).notifies@ == ingest_notifies(old(store).notifies@, trx_views(batch@), topic@),
        final(store).last_status@ == ingest_status(old(store).last_status@, trx_views(batch@), topic@),
        final(store).users@ == old(store).users@,
        final(store).posts@ == old(store).posts@,
        final(store).contents@ == old(store).contents@,
{
    let ghost b = trx_views(batch@);
    let ghost start = *store;
    let mut i: usize = 0;
    assert(b.take(0) =~= Seq::<TransactionView>::empty());
    while i < batch.len()
        invariant
            store.wf(),
            i <= batch@.len(),
            b == trx_views(batch@),
            store.trxs@ == ingest_trxs(start.trxs@, b.take(i as int)),
            store.notifies@ == ingest_notifies(start.notifies@, b.take(i as int), topic@),
            store.last_status@ == ingest_status(start.last_status@, b.take(i as int), topic@),
            store.users@ == start.users@,
            store.posts@ == start.posts@,
            store.contents@ == start.contents@,
        decreases batch@.len() - i,
    {
        assert(b[i as int] == batch@[i as int]@);
        ingest_transaction(store, topic, &batch[i]);
        proof {
            lemma_fold_step(start.trxs@, b, i as int, every(), by_trx_id(), trx_rows());
            lemma_fold_step(start.notifies@, b, i as int, publishes(), by_data_id(), notify_upsert(topic@));
            assert(b.take(i as int + 1).last() == b[i as int]);
        }
        i = i + 1;
    }
    assert(b.take(batch@.len() as int) =~= b);
}

/// The stored checkpoint of `topic`, where there is one; polling resumes
/// from it.
pub fn start_cursor(store: &Store, topic: &str) -> (r: Option<i64>)
    requires
        store.wf(),
    ensures
        r == get_opt(store.last_status@, block_num_key(topic@)),
{
    let key = get_last_block_num_by_topic(topic);
    store.get_last_status(key.as_str())
}

/// One poll of `topic` that fetched `batch`: an empty batch means the
/// topic is caught up (`None`: wait before polling again); otherwise the
/// batch is ingested and polling goes on at once from its last block.
pub fn sync_step(store: &mut Store, topic: &str, batch: &Vec<Transaction>) -> (r: Option<i64>)
    requires
        old(store).wf(),
    ensures
        final(store).wf(),
        final(store).trxs@ == ingest_trxs(old(store).trxs@, trx_views(batch@)),
        final(store).notifies@ == ingest_notifies(old(store).notifies@, trx_views(batch@), topic@),
        final(store).last_status@ == ingest_status(old(store).last_status@, trx_views(batch@), topic@),
        final(store).users@ == old(store).users@,
        final(store).posts@ == old(store).posts@,
        final(store).contents@ == old(store).contents@,
        batch@.len() == 0 ==> r is None,
        batch@.len() > 0 ==> r == Some(batch@.last().block_num),
{
    ingest_batch(store, topic, batch);
    if batch.len() == 0 {
        None
    } else {
        Some(batch[batch.len() - 1].block_num)
    }
}

/// Ingesting the same batch twice leaves exactly what ingesting it once
/// does: one row per transaction id, one pending notification per publish,
/// and the same checkpoints.
pub proof fn lemma_ingest_idempotent(
    trxs: Map<Seq<char>, TrxView>,
    notifies: Map<Seq<char>, NotifyView>,
    status: Map<Seq<char>, i64>,
    b: Seq<TransactionView>,
    topic: Seq<char>,
)
    ensures
        ingest_trxs(ingest_trxs(trxs, b), b) == ingest_trxs(trxs, b),
        ingest_notifies(ingest_notifies(notifies, b, topic), b, topic) == ingest_notifies(
            notifies,
            b,
            topic,
        ),
        ingest_status(ingest_status(status, b, topic), b, topic) == ingest_status(status, b, topic),
{
    assert(absorbing(trx_rows()));
    lemma_fold_twice(trxs, b, every(), by_trx_id(), trx_rows());
    assert(absorbing(notify_upsert(topic)));
    lemma_fold_twice(notifies, b, publishes(), by_data_id(), notify_upsert(topic));
    if b.len() > 0 {
        assert(ingest_status(status, b, topic).insert(block_num_key(topic), b.last().block_num)
            =~= ingest_status(status, b, topic));
    }
}

/// Whether the blocks of `b` strictly increase.
pub open spec fn strictly_increasing(b: Seq<TransactionView>) -> bool {
    forall|i: int, j: int| 0 <= i < j < b.len() ==> b[i].block_num < b[j].block_num
}

/// With blocks strictly increasing from the stored checkpoint on,
/// ingesting never moves the checkpoint back, and leaves it at the last
/// block.
pub proof fn lemma_checkpoint_monotonic(status: Map<Seq<char>, i64>, b: Seq<TransactionView>, topic: Seq<char>)
    requires
        strictly_increasing(b),
        b.len() > 0,
        status.contains_key(block_num_key(topic)) ==> status[block_num_key(topic)] <= b[0].block_num,
    ensures
        ingest_status(status, b, topic)[block_num_key(topic)] == b.last().block_num,
        status.contains_key(block_num_key(topic)) ==> status[block_num_key(topic)] <= ingest_status(
            status,
            b,
            topic,
        )[block_num_key(topic)],
{
    if status.contains_key(block_num_key(topic)) && b.len() > 1 {
        assert(b[0].block_num < b[b.len() - 1].block_num);
    }
}

/// Upserts of `x` then `y` leave what upserts of `x + y` do.
pub proof fn lemma_fold_concat<T, V>(
    m: Map<Seq<char>, V>,
    x: Seq<T>,
    y: Seq<T>,
    applies: spec_fn(T) -> bool,
    key: spec_fn(T) -> Seq<char>,
    row: spec_fn(Option<V>, T) -> V,
)
    ensures
        upsert_fold(m, x + y, applies, key, row) == upsert_fold(
            upsert_fold(m, x, applies, key, row),
            y,
            applies,
            key,
            row,
        ),
    decreases y.len(),
{
    if y.len() > 0 {
        lemma_fold_concat(m, x, y.drop_last(), applies, key, row);
        assert((x + y).drop_last() =~= x + y.drop_last());
        assert((x + y).last() == y.last());
    } else {
        assert(x + y =~= x);
    }
}

proof fn lemma_fold_resume<T, V>(
    m: Map<Seq<char>, V>,
    b: Seq<T>,
    k: int,
    applies: spec_fn(T) -> bool,
    key: spec_fn(T) -> Seq<char>,
    row: spec_fn(Option<V>, T) -> V,
)
    requires
        absorbing(row),
        0 < k < b.len(),
    ensures
        upsert_fold(upsert_fold(m, b.take(k + 1), applies, key, row), b.skip(k - 1), applies, key, row)
            == upsert_fold(m, b, applies, key, row),
{
    let a = b.take(k - 1);
    let bb = b.subrange(k - 1, k + 1);
    let d = b.skip(k + 1);
    assert(b.take(k + 1) =~= a + bb);
    assert(b.skip(k - 1) =~= bb + d);
    assert(b =~= a + bb + d);
    let fa = upsert_fold(m, a, applies, key, row);
    lemma_fold_concat(m, a, bb, applies, key, row);
    let fab = upsert_fold(fa, bb, applies, key, row);
    lemma_fold_concat(fab, bb, d, applies, key, row);
    lemma_fold_twice(fa, bb, applies, key, row);
    lemma_fold_concat(fa, bb, d, applies, key, row);
    lemma_fold_concat(m, a, bb + d, applies, key, row);
    assert(a + (bb + d) =~= a + bb + d);
}

/// A crash after persisting the transaction at `k` but before its
/// checkpoint leaves the checkpoint at the block before it, so polling
/// resumes at or before that transaction; ingesting from there on leaves
/// exactly what an uninterrupted run over the batch does.
pub proof fn lemma_crash_resume(
    trxs: Map<Seq<char>, TrxView>,
    notifies: Map<Seq<char>, NotifyView>,
    status: Map<Seq<char>, i64>,
    b: Seq<TransactionView>,
    topic: Seq<char>,
    k: int,
)
    requires
        strictly_increasing(b),
        0 < k < b.len(),
    ensures
        ingest_status(status, b.take(k), topic)[block_num_key(topic)] == b[k - 1].block_num,
        b[k - 1].block_num < b[k].block_num,
        ingest_trxs(ingest_trxs(trxs, b.take(k + 1)), b.skip(k - 1)) == ingest_trxs(trxs, b),
        ingest_notifies(ingest_notifies(notifies, b.take(k + 1), topic), b.skip(k - 1), topic)
            == ingest_notifies(notifies, b, topic),
        ingest_status(ingest_status(status, b.take(k), topic), b.skip(k - 1), topic) == ingest_status(
            status,
            b,
            topic,
        ),
{
    assert(b.take(k).last() == b[k - 1]);
    assert(b.skip(k - 1).last() == b.last());
    assert(absorbing(trx_rows()));
    lemma_fold_resume(trxs, b, k, every(), by_trx_id(), trx_rows());
    assert(absorbing(notify_upsert(topic)));
    lemma_fold_resume(notifies, b, k, publishes(), by_data_id(), notify_upsert(topic));
    assert(ingest_status(status, b.take(k), topic).insert(block_num_key(topic), b.last().block_num)
        =~= status.insert(block_num_key(topic), b.last().block_num));
}

} // verus!
