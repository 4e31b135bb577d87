//! The chain API: the queries sent to it and the reading of its answers.
use vstd::prelude::*;

use crate::json::{
    is_json, json_at, json_lookup, list_at, list_lookup, parses, step_views, text_at, text_lookup,
    JsonField, JsonFieldView, JsonStep, JsonStepView,
};
use crate::protocol::{ActionData, ActionDataView, Transaction, TransactionView, trx_views};
use crate::settings::opt_view;
use crate::text::{parse_i64, parse_i64_spec, parse_u64, parse_u64_spec};

verus! {

#[derive(Debug, Clone, Copy, PartialEq, Eq)]
pub enum ChainError {
    /// The answer is not JSON.
    Malformed,
    /// An entry's block number is not a number.
    InvalidBlockNum,
    /// The chain holds no transaction to start from.
    NoStartPoint,
    /// The chain reports that it did not succeed.
    Unsuccessful,
    /// The answer lacks its success flag or its data.
    InvalidInfo,
}

pub open spec fn key(k: Seq<char>) -> JsonStepView {
    JsonStepView::Key(k)
}

pub open spec fn index(i: nat) -> JsonStepView {
    JsonStepView::Index(i)
}

pub open spec fn entry_path(i: nat) -> Seq<JsonStepView> {
    seq![key("data"@), index(i)]
}

pub open spec fn trx_list_path(i: nat) -> Seq<JsonStepView> {
    entry_path(i).push(key("block"@)).push(key("transactions"@))
}

pub open spec fn action_list_path(i: nat, j: nat) -> Seq<JsonStepView> {
    trx_list_path(i).push(index(j)).push(key("trx"@)).push(key("transaction"@)).push(key("actions"@))
}

pub open spec fn action_path(i: nat, j: nat, a: nat) -> Seq<JsonStepView> {
    action_list_path(i, j).push(index(a)).push(key("data"@))
}

/// The action data at `p`, where all its fields are strings.
pub open spec fn action_spec(body: Seq<char>, p: Seq<JsonStepView>) -> Option<ActionDataView> {
    match (
        text_at(body, p.push(key("id"@))),
        text_at(body, p.push(key("data"@))),
        text_at(body, p.push(key("hash"@))),
        text_at(body, p.push(key("meta"@))),
        text_at(body, p.push(key("type"@))),
        text_at(body, p.push(key("signature"@))),
        text_at(body, p.push(key("user_address"@))),
    ) {
        (Some(id), Some(data), Some(hash), Some(meta), Some(ty), Some(signature), Some(user_address)) => Some(
            ActionDataView { id, data, hash, meta, _type: ty, signature, user_address },
        ),
        _ => None,
    }
}

/// What an entry gives each of its transactions.
pub struct Header {
    pub block_num: i64,
    pub data_type: Seq<char>,
    pub trx_id: Seq<char>,
    pub user_address: Seq<char>,
}

pub open spec fn make_trx(h: Header, a: ActionDataView) -> TransactionView {
    TransactionView {
        block_num: h.block_num,
        data_type: h.data_type,
        data: a,
        trx_id: h.trx_id,
        signature: a.signature,
        hash: a.hash,
        user_address: h.user_address,
    }
}

/// The transactions of the first `n` actions of transaction `j` of entry `i`.
pub open spec fn actions_spec(body: Seq<char>, i: nat, j: nat, h: Header, n: nat) -> Seq<TransactionView>
    decreases n,
{
    if n == 0 {
        Seq::<TransactionView>::empty()
    } else {
        let prev = actions_spec(body, i, j, h, (n - 1) as nat);
        match action_spec(body, action_path(i, j, (n - 1) as nat)) {
            Some(a) => prev.push(make_trx(h, a)),
            None => prev,
        }
    }
}

/// The transactions of the first `m` chain transactions of entry `i`.
pub open spec fn trxs_spec(body: Seq<char>, i: nat, h: Header, m: nat) -> Seq<TransactionView>
    decreases m,
{
    if m == 0 {
        Seq::<TransactionView>::empty()
    } else {
        let prev = trxs_spec(body, i, h, (m - 1) as nat);
        match list_at(body, action_list_path(i, (m - 1) as nat)) {
            Some(k) => prev + actions_spec(body, i, (m - 1) as nat, h, k),
            None => prev,
        }
    }
}

pub open spec fn entry_text(body: Seq<char>, i: nat, k: Seq<char>) -> Option<Seq<char>> {
    text_at(body, entry_path(i).push(key(k)))
}

/// The transactions of entry `i`: none where one of its fields is missing
/// or its block number is not a number.
pub open spec fn entry_spec(body: Seq<char>, i: nat) -> Seq<TransactionView> {
    match entry_text(body, i, "block_num"@) {
        None => Seq::<TransactionView>::empty(),
        Some(b) => match parse_i64_spec(b) {
            None => Seq::<TransactionView>::empty(),
            Some(block_num) => match (
                entry_text(body, i, "transactions_trx_transaction_actions_data_type"@),
                entry_text(body, i, "transactions_trx_id"@),
                entry_text(body, i, "transactions_trx_transaction_actions_data_user_address"@),
            ) {
                (Some(data_type), Some(trx_id), Some(user_address)) => {
                    let h = Header { block_num, data_type, trx_id, user_address };
                    match list_at(body, trx_list_path(i)) {
                        Some(m) => trxs_spec(body, i, h, m),
                        None => Seq::<TransactionView>::empty(),
                    }
                },
                _ => Seq::<TransactionView>::empty(),
            },
        },
    }
}

/// The transactions of the first `n` entries.
pub open spec fn entries_spec(body: Seq<char>, n: nat) -> Seq<TransactionView>
    decreases n,
{
    if n == 0 {
        Seq::<TransactionView>::empty()
    } else {
        entries_spec(body, (n - 1) as nat) + entry_spec(body, (n - 1) as nat)
    }
}

/// The transactions that an answer of the chain lists, in order.
pub open spec fn transactions_spec(body: Seq<char>) -> Result<Seq<TransactionView>, ChainError> {
    if !is_json(body) {
        Err(ChainError::Malformed)
    } else {
        match list_at(body, seq![key("data"@)]) {
            Some(n) => Ok(entries_spec(body, n)),
            None => Ok(Seq::<TransactionView>::empty()),
        }
    }
}

pub(crate) fn with_key(p: Vec<JsonStep>, k: &str) -> (r: Vec<JsonStep>)
    ensures
        step_views(r@) == step_views(p@).push(key(k@)),
{
    let mut p = p;
    let ghost before = p@;
    p.push(JsonStep::Key(String::from_str(k)));
    assert(step_views(p@) =~= step_views(before).push(key(k@)));
    p
}

pub(crate) fn with_index(p: Vec<JsonStep>, i: usize) -> (r: Vec<JsonStep>)
    ensures
        step_views(r@) == step_views(p@).push(index(i as nat)),
{
    let mut p = p;
    let ghost before = p@;
    p.push(JsonStep::Index(i));
    assert(step_views(p@) =~= step_views(before).push(index(i as nat)));
    p
}

fn entry_prefix(i: usize) -> (r: Vec<JsonStep>)
    ensures
        step_views(r@) == entry_path(i as nat),
{
    let p: Vec<JsonStep> = Vec::new();
    assert(step_views(p@) =~= Seq::<JsonStepView>::empty());
    let p = with_key(p, "data");
    let p = with_index(p, i);
    assert(step_views(p@) =~= entry_path(i as nat));
    p
}

fn trx_list(i: usize) -> (r: Vec<JsonStep>)
    ensures
        step_views(r@) == trx_list_path(i as nat),
{
    with_key(with_key(entry_prefix(i), "block"), "transactions")
}

fn action_list(i: usize, j: usize) -> (r: Vec<JsonStep>)
    ensures
        step_views(r@) == action_list_path(i as nat, j as nat),
{
    with_key(with_key(with_key(with_index(trx_list(i), j), "trx"), "transaction"), "actions")
}

fn action_data_path(i: usize, j: usize, a: usize) -> (r: Vec<JsonStep>)
    ensures
        step_views(r@) == action_path(i as nat, j as nat, a as nat),
{
    with_key(with_index(action_list(i, j), a), "data")
}

fn field_at(body: &str, i: usize, j: usize, a: usize, k: &str) -> (r: Option<String>)
    ensures
        opt_view(r) == text_at(body@, action_path(i as nat, j as nat, a as nat).push(key(k@))),
{
    text_lookup(body, &with_key(action_data_path(i, j, a), k))
}

/// The action data at action `a` of transaction `j` of entry `i`.
fn read_action(body: &str, i: usize, j: usize, a: usize) -> (r: Option<ActionData>)
    ensures
        match r {
            Some(d) => action_spec(body@, action_path(i as nat, j as nat, a as nat)) == Some(d@),
            None => action_spec(body@, action_path(i as nat, j as nat, a as nat)) is None,
        },
{
    let id = field_at(body, i, j, a, "id");
    let data = field_at(body, i, j, a, "data");
    let hash = field_at(body, i, j, a, "hash");
    let meta = field_at(body, i, j, a, "meta");
    let ty = field_at(body, i, j, a, "type");
    let signature = field_at(body, i, j, a, "signature");
    let user_address = field_at(body, i, j, a, "user_address");
    match (id, data, hash, meta, ty, signature, user_address) {
        (Some(id), Some(data), Some(hash), Some(meta), Some(ty), Some(signature), Some(user_address)) => Some(
            ActionData { id, data, hash, meta, _type: ty, signature, user_address },
        ),
        _ => None,
    }
}

pub struct HeaderData {
    pub block_num: i64,
    pub data_type: String,
    pub trx_id: String,
    pub user_address: String,
}

pub open spec fn header_view(h: HeaderData) -> Header {
    Header {
        block_num: h.block_num,
        data_type: h.data_type@,
        trx_id: h.trx_id@,
        user_address: h.user_address@,
    }
}

fn make_transaction(h: &HeaderData, a: ActionData) -> (r: Transaction)
    ensures
        r@ == make_trx(header_view(*h), a@),
{
    let signature = a.signature.clone();
    let hash = a.hash.clone();
    Transaction {
        block_num: h.block_num,
        data_type: h.data_type.clone(),
        data: a,
        trx_id: h.trx_id.clone(),
        signature,
        hash,
        user_address: h.user_address.clone(),
    }
}

/// Appends the transactions of the chain transaction `j` of entry `i`.
fn read_actions(body: &str, i: usize, j: usize, h: &HeaderData, out: &mut Vec<Transaction>)
    ensures
        trx_views(final(out)@) == trx_views(old(out)@) + match list_at(
            body@,
            action_list_path(i as nat, j as nat),
        ) {
            Some(k) => actions_spec(body@, i as nat, j as nat, header_view(*h), k),
            None => Seq::<TransactionView>::empty(),
        },
{
    let n = match list_lookup(body, &action_list(i, j)) {
        Some(n) => n,
        None => {
            assert(trx_views(out@) =~= trx_views(out@) + Seq::<TransactionView>::empty());
            return;
        },
    };
    let ghost start = trx_views(out@);
    let mut a: usize = 0;
    assert(start =~= start + actions_spec(body@, i as nat, j as nat, header_view(*h), 0));
    while a < n
        invariant
            a <= n,
            trx_views(out@) == start + actions_spec(body@, i as nat, j as nat, header_view(*h), a as nat),
        decreases n - a,
    {
        let ghost before = out@;
        match read_action(body, i, j, a) {
            Some(d) => {
                let t = make_transaction(h, d);
                out.push(t);
                assert(trx_views(out@) =~= trx_views(before).push(t@));
            },
            None => {},
        }
        a = a + 1;
        assert(trx_views(out@) =~= start + actions_spec(body@, i as nat, j as nat, header_view(*h), a as nat));
    }
}

fn entry_field(body: &str, i: usize, k: &str) -> (r: Option<String>)
    ensures
        opt_view(r) == entry_text(body@, i as nat, k@),
{
    text_lookup(body, &with_key(entry_prefix(i), k))
}

/// Appends the transactions of entry `i`.
fn read_entry(body: &str, i: usize, out: &mut Vec<Transaction>)
    ensures
        trx_views(final(out)@) == trx_views(old(out)@) + entry_spec(body@, i as nat),
{
    let b = match entry_field(body, i, "block_num") {
        Some(b) => b,
        None => {
            assert(trx_views(out@) =~= trx_views(out@) + Seq::<TransactionView>::empty());
            return;
        },
    };
    let block_num = match parse_i64(b.as_str()) {
        Some(v) => v,
        None => {
            assert(trx_views(out@) =~= trx_views(out@) + Seq::<TransactionView>::empty());
            return;
        },
    };
    let data_type = entry_field(body, i, "transactions_trx_transaction_actions_data_type");
    let trx_id = entry_field(body, i, "transactions_trx_id");
    let user_address = entry_field(body, i, "transactions_trx_transaction_actions_data_user_address");
    let h = match (data_type, trx_id, user_address) {
        (Some(data_type), Some(trx_id), Some(user_address)) => HeaderData {
            block_num,
            data_type,
            trx_id,
            user_address,
        },
        _ => {
            assert(trx_views(out@) =~= trx_views(out@) + Seq::<TransactionView>::empty());
            return;
        },
    };
    let m = match list_lookup(body, &trx_list(i)) {
        Some(m) => m,
        None => {
            assert(trx_views(out@) =~= trx_views(out@) + Seq::<TransactionView>::empty());
            return;
        },
    };
    let ghost start = trx_views(out@);
    let mut j: usize = 0;
    assert(start =~= start + trxs_spec(body@, i as nat, header_view(h), 0));
    while j < m
        invariant
            j <= m,
            trx_views(out@) == start + trxs_spec(body@, i as nat, header_view(h), j as nat),
        decreases m - j,
    {
        let ghost before = trx_views(out@);
        read_actions(body, i, j, &h, out);
        j = j + 1;
        assert(trx_views(out@) =~= start + trxs_spec(body@, i as nat, header_view(h), j as nat));
    }
}

/// Reads the transactions that an answer of the chain lists, in order. An
/// entry without one of its fields, or whose block number is not a number,
/// is skipped, as is an action whose data is not all strings.
pub fn parse_transactions(body: &str) -> (r: Result<Vec<Transaction>, ChainError>)
    ensures
        match transactions_spec(body@) {
            Ok(ts) => r matches Ok(v) && trx_views(v@) == ts,
            Err(e) => r matches Err(x) && x == e,
        },
{
    if !parses(body) {
        return Err(ChainError::Malformed);
    }
    let mut out: Vec<Transaction> = Vec::new();
    let mut top: Vec<JsonStep> = Vec::new();
    assert(step_views(top@) =~= Seq::<JsonStepView>::empty());
    let top = with_key(top, "data");
    assert(step_views(top@) =~= seq![key("data"@)]);
    let n = match list_lookup(body, &top) {
        Some(n) => n,
        None => {
            assert(trx_views(out@) =~= Seq::<TransactionView>::empty());
            return Ok(out);
        },
    };
    let mut i: usize = 0;
    assert(trx_views(out@) =~= Seq::<TransactionView>::empty());
    while i < n
        invariant
            i <= n,
            is_json(body@),
            list_at(body@, seq![key("data"@)]) == Some(n as nat),
            trx_views(out@) == entries_spec(body@, i as nat),
        decreases n - i,
    {
        read_entry(body, i, &mut out);
        i = i + 1;
    }
    Ok(out)
}

/// The head of the chain, as its info answer gives it.
pub struct ChainInfo {
    pub errors: Option<String>,
    pub success: bool,
    pub head_block_num: i64,
    pub last_irreversible_block_num: i64,
}

/// The integer at `p`, zero where none stands there.
pub open spec fn int_or_zero(body: Seq<char>, p: Seq<JsonStepView>) -> i64 {
    match json_at(body, p) {
        Some(JsonFieldView::Int(i)) => i,
        _ => 0,
    }
}

/// The errors text, head block and last irreversible block of an info
/// answer: it must report success, carry data, and give both blocks as
/// non-zero integers.
pub open spec fn chain_info_spec(body: Seq<char>) -> Result<(Option<Seq<char>>, i64, i64), ChainError> {
    if !is_json(body) {
        Err(ChainError::Malformed)
    } else {
        match json_at(body, seq![key("success"@)]) {
            Some(JsonFieldView::Bool(success)) => {
                if !success {
                    Err(ChainError::Unsuccessful)
                } else if json_at(body, seq![key("data"@)]) == Some(JsonFieldView::Missing) {
                    Err(ChainError::InvalidInfo)
                } else {
                    let head = int_or_zero(body, seq![key("data"@), key("head_block_num"@)]);
                    let lib = int_or_zero(body, seq![key("data"@), key("last_irreversible_block_num"@)]);
                    if head == 0 || lib == 0 {
                        Err(ChainError::InvalidBlockNum)
                    } else {
                        Ok((text_at(body, seq![key("errors"@)]), head, lib))
                    }
                }
            },
            _ => Err(ChainError::InvalidInfo),
        }
    }
}

fn int_at(body: &str, p: &Vec<JsonStep>) -> (r: i64)
    ensures
        r == int_or_zero(body@, step_views(p@)),
{
    match json_lookup(body, p) {
        Some(JsonField::Int(i)) => i,
        _ => 0,
    }
}

fn top_path(k: &str) -> (r: Vec<JsonStep>)
    ensures
        step_views(r@) == seq![key(k@)],
{
    let p: Vec<JsonStep> = Vec::new();
    assert(step_views(p@) =~= Seq::<JsonStepView>::empty());
    let r = with_key(p, k);
    assert(step_views(r@) =~= seq![key(k@)]);
    r
}

/// Reads the chain's info answer.
pub fn parse_chain_info(body: &str) -> (r: Result<ChainInfo, ChainError>)
    ensures
        match chain_info_spec(body@) {
            Ok((errors, head, lib)) => r matches Ok(info) && opt_view(info.errors) == errors
                && info.success && info.head_block_num == head && info.last_irreversible_block_num
                == lib,
            Err(e) => r matches Err(x) && x == e,
        },
{
    if !parses(body) {
        return Err(ChainError::Malformed);
    }
    let success = match json_lookup(body, &top_path("success")) {
        Some(JsonField::Bool(b)) => b,
        _ => return Err(ChainError::InvalidInfo),
    };
    if !success {
        return Err(ChainError::Unsuccessful);
    }
    let data = top_path("data");
    if let Some(JsonField::Missing) = json_lookup(body, &data) {
        return Err(ChainError::InvalidInfo);
    }
    let p = with_key(top_path("data"), "head_block_num");
    assert(step_views(p@) =~= seq![key("data"@), key("head_block_num"@)]);
    let head_block_num = int_at(body, &p);
    let q = with_key(top_path("data"), "last_irreversible_block_num");
    assert(step_views(q@) =~= seq![key("data"@), key("last_irreversible_block_num"@)]);
    let last_irreversible_block_num = int_at(body, &q);
    if head_block_num == 0 || last_irreversible_block_num == 0 {
        return Err(ChainError::InvalidBlockNum);
    }
    let errors = text_lookup(body, &top_path("errors"));
    Ok(ChainInfo { errors, success, head_block_num, last_irreversible_block_num })
}

/// The block of the earliest transaction that an answer lists, which
/// must be a positive number.
pub open spec fn start_block_spec(body: Seq<char>) -> Result<u64, ChainError> {
    if !is_json(body) {
        Err(ChainError::Malformed)
    } else {
        match text_at(body, seq![key("data"@), index(0), key("block_num"@)]) {
            None => Err(ChainError::NoStartPoint),
            Some(b) => match parse_u64_spec(b) {
                None => Err(ChainError::InvalidBlockNum),
                Some(v) => if v > 0 {
                    Ok(v)
                } else {
                    Err(ChainError::NoStartPoint)
                },
            },
        }
    }
}

/// Reads the block to start polling a topic from, out of the chain's
/// answer for its earliest transaction.
pub fn parse_start_block(body: &str) -> (r: Result<u64, ChainError>)
    ensures
        r == start_block_spec(body@),
{
    if !parses(body) {
        return Err(ChainError::Malformed);
    }
    let p = with_key(entry_prefix(0), "block_num");
    assert(entry_path(0).push(key("block_num"@)) =~= seq![key("data"@), index(0), key("block_num"@)]);
    let b = match text_lookup(body, &p) {
        Some(b) => b,
        None => return Err(ChainError::NoStartPoint),
    };
    match parse_u64(b.as_str()) {
        None => Err(ChainError::InvalidBlockNum),
        Some(v) => if v > 0 {
            Ok(v)
        } else {
            Err(ChainError::NoStartPoint)
        },
    }
}

/// The query for up to `count` transactions of `topic` from block
/// `block_num` on.
pub fn transactions_query(topic: &str, block_num: i64, count: u64) -> (r: String)
    ensures
        r@ == "/transactions?topic="@ + topic@ + "&blocknum="@ + crate::text::signed_decimal(
            block_num as int,
        ) + "&type=PIP:2001&count="@ + crate::text::decimal(count as nat),
{
    String::from_str("/transactions?topic=").concat(topic).concat("&blocknum=").concat(
        crate::text::i64_to_decimal(block_num).as_str(),
    ).concat("&type=PIP:2001&count=").concat(crate::text::u64_to_decimal(count).as_str())
}

/// The query for the earliest transaction of `topic`.
pub fn start_query(topic: &str) -> (r: String)
    ensures
        r@ == "/transactions?topic="@ + topic@ + "&type=PIP:2001&count=1"@,
{
    String::from_str("/transactions?topic=").concat(topic).concat("&type=PIP:2001&count=1")
}

} // verus!
