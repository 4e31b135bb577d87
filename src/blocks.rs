//! Whole blocks, as the bulk catch-up path reads them one block number at
//! a time: each chain transaction with the PIP:2001 actions it carries.
use vstd::prelude::*;

use crate::chain::{action_spec, index, key, with_index, with_key};
use crate::json::{
    is_json, json_at, json_lookup, list_at, list_lookup, parses, step_views, text_at, text_lookup,
    JsonField, JsonFieldView, JsonStep, JsonStepView,
};
use crate::protocol::{decode_spec, ActionData, ActionDataView, Message, MessageView, NotifyBlock, NotifyPayload};
use crate::settings::opt_view;
use crate::text::{contains_spec, contains_str};
use vstd::multiset::Multiset;
use vstd::set_lib::{lemma_int_range, lemma_len_subset, set_int_range};

verus! {

/// A validation action: an oracle's verdict on an earlier transaction.
pub struct Pip2001ActionValidation {
    pub oracleservice: String,
    pub auth_hash: i64,
    pub _type: String,
    pub meta: String,
    pub data: String,
    pub memo: String,
}

pub struct ValidationView {
    pub oracleservice: Seq<char>,
    pub auth_hash: i64,
    pub _type: Seq<char>,
    pub meta: Seq<char>,
    pub data: Seq<char>,
    pub memo: Seq<char>,
}

/// An action of a block: publish data, or else a validation.
pub enum Pip2001Action {
    Data(ActionData),
    Validation(Pip2001ActionValidation),
}

pub enum ActionView {
    Data(ActionDataView),
    Validation(ValidationView),
}

pub struct Pip2001Trx {
    pub trx_id: String,
    pub actions: Vec<Pip2001Action>,
}

pub struct Block {
    pub block_num: i64,
    pub block_id: String,
    pub trxs: Vec<Pip2001Trx>,
    pub timestamp: String,
}

pub struct TrxView {
    pub trx_id: Seq<char>,
    pub actions: Seq<ActionView>,
}

pub struct BlockView {
    pub block_num: i64,
    pub block_id: Seq<char>,
    pub trxs: Seq<TrxView>,
    pub timestamp: Seq<char>,
}

pub open spec fn action_view(a: Pip2001Action) -> ActionView {
    match a {
        Pip2001Action::Data(d) => ActionView::Data(d@),
        Pip2001Action::Validation(v) => ActionView::Validation(
            ValidationView {
                oracleservice: v.oracleservice@,
                auth_hash: v.auth_hash,
                _type: v._type@,
                meta: v.meta@,
                data: v.data@,
                memo: v.memo@,
            },
        ),
    }
}

pub open spec fn action_views(v: Seq<Pip2001Action>) -> Seq<ActionView> {
    v.map_values(|a: Pip2001Action| action_view(a))
}

pub open spec fn trx_view(t: Pip2001Trx) -> TrxView {
    TrxView { trx_id: t.trx_id@, actions: action_views(t.actions@) }
}

pub open spec fn trx_views(v: Seq<Pip2001Trx>) -> Seq<TrxView> {
    v.map_values(|t: Pip2001Trx| trx_view(t))
}

pub open spec fn block_view(b: Block) -> BlockView {
    BlockView {
        block_num: b.block_num,
        block_id: b.block_id@,
        trxs: trx_views(b.trxs@),
        timestamp: b.timestamp@,
    }
}

#[derive(Debug, Clone, Copy, PartialEq, Eq)]
pub enum BlockError {
    /// The answer is not JSON.
    Malformed,
    /// The block is not produced yet.
    NotGenerated,
    /// The chain refused the request for another reason.
    Refused,
    /// The answer is for another block.
    BlockNumMismatch,
    /// The block number is a number outside `i64`.
    NoBlockNum,
    /// The block has no id.
    NoBlockId,
    /// The block has no timestamp.
    NoTimestamp,
}

/// The integer at `p`, where one stands there.
pub open spec fn int_at(body: Seq<char>, p: Seq<JsonStepView>) -> Option<i64> {
    match json_at(body, p) {
        Some(JsonFieldView::Int(i)) => Some(i),
        _ => None,
    }
}

/// The validation action at `p`, where its fields have their types.
pub open spec fn validation_spec(body: Seq<char>, p: Seq<JsonStepView>) -> Option<ValidationView> {
    match (
        text_at(body, p.push(key("oracleservice"@))),
        int_at(body, p.push(key("auth_hash"@))),
        text_at(body, p.push(key("type"@))),
        text_at(body, p.push(key("meta"@))),
        text_at(body, p.push(key("data"@))),
        text_at(body, p.push(key("memo"@))),
    ) {
        (Some(oracleservice), Some(auth_hash), Some(ty), Some(meta), Some(data), Some(memo)) => Some(
            ValidationView { oracleservice, auth_hash, _type: ty, meta, data, memo },
        ),
        _ => None,
    }
}

/// The action at `p`: publish data where it reads as such, else a validation.
pub open spec fn block_action_spec(body: Seq<char>, p: Seq<JsonStepView>) -> Option<ActionView> {
    match action_spec(body, p) {
        Some(d) => Some(ActionView::Data(d)),
        None => match validation_spec(body, p) {
            Some(v) => Some(ActionView::Validation(v)),
            None => None,
        },
    }
}

pub open spec fn block_trx_path(j: nat) -> Seq<JsonStepView> {
    seq![key("data"@), key("transactions"@), index(j), key("trx"@)]
}

pub open spec fn block_actions_path(j: nat) -> Seq<JsonStepView> {
    block_trx_path(j).push(key("transaction"@)).push(key("actions"@))
}

pub open spec fn block_action_path(j: nat, a: nat) -> Seq<JsonStepView> {
    block_actions_path(j).push(index(a)).push(key("data"@))
}

/// The actions that read, among the first `n` of transaction `j`.
pub open spec fn block_actions_spec(body: Seq<char>, j: nat, n: nat) -> Seq<ActionView>
    decreases n,
{
    if n == 0 {
        Seq::<ActionView>::empty()
    } else {
        let prev = block_actions_spec(body, j, (n - 1) as nat);
        match block_action_spec(body, block_action_path(j, (n - 1) as nat)) {
            Some(a) => prev.push(a),
            None => prev,
        }
    }
}

/// Transaction `j`, where it has a `trx` with an id and a `transaction`.
pub open spec fn block_trx_spec(body: Seq<char>, j: nat) -> Option<TrxView> {
    let t = block_trx_path(j);
    if json_at(body, t) == Some(JsonFieldView::Missing) {
        None
    } else {
        match text_at(body, t.push(key("id"@))) {
            None => None,
            Some(trx_id) => if json_at(body, t.push(key("transaction"@))) == Some(JsonFieldView::Missing) {
                None
            } else {
                let actions = match list_at(body, block_actions_path(j)) {
                    Some(k) => block_actions_spec(body, j, k),
                    None => Seq::<ActionView>::empty(),
                };
                Some(TrxView { trx_id, actions })
            },
        }
    }
}

/// The transactions that read, among the first `m`.
pub open spec fn block_trxs_spec(body: Seq<char>, m: nat) -> Seq<TrxView>
    decreases m,
{
    if m == 0 {
        Seq::<TrxView>::empty()
    } else {
        let prev = block_trxs_spec(body, (m - 1) as nat);
        match block_trx_spec(body, (m - 1) as nat) {
            Some(t) => prev.push(t),
            None => prev,
        }
    }
}

/// The block that the chain's answer for block `block_num` holds.
pub open spec fn block_spec(body: Seq<char>, block_num: i64) -> Result<BlockView, BlockError> {
    if !is_json(body) {
        Err(BlockError::Malformed)
    } else if json_at(body, seq![key("success"@)]) == Some(JsonFieldView::Bool(false)) {
        if contains_spec(body, "Could not find block: "@) {
            Err(BlockError::NotGenerated)
        } else {
            Err(BlockError::Refused)
        }
    } else if json_at(body, seq![key("data"@)]) != Some(JsonFieldView::Object) {
        Ok(
            BlockView {
                block_num,
                block_id: Seq::<char>::empty(),
                trxs: Seq::<TrxView>::empty(),
                timestamp: Seq::<char>::empty(),
            },
        )
    } else {
        match json_at(body, seq![key("data"@), key("block_num"@)]) {
            Some(JsonFieldView::Int(v)) if v != block_num => Err(BlockError::BlockNumMismatch),
            Some(JsonFieldView::Other) => Err(BlockError::NoBlockNum),
            _ => match text_at(body, seq![key("data"@), key("id"@)]) {
                None => Err(BlockError::NoBlockId),
                Some(block_id) => match text_at(body, seq![key("data"@), key("timestamp"@)]) {
                    None => Err(BlockError::NoTimestamp),
                    Some(timestamp) => Ok(
                        BlockView {
                            block_num,
                            block_id,
                            trxs: match list_at(body, seq![key("data"@), key("transactions"@)]) {
                                Some(m) => block_trxs_spec(body, m),
                                None => Seq::<TrxView>::empty(),
                            },
                            timestamp,
                        },
                    ),
                },
            },
        }
    }
}

fn path2(a: &str, b: &str) -> (r: Vec<JsonStep>)
    ensures
        step_views(r@) == seq![key(a@), key(b@)],
{
    let p: Vec<JsonStep> = Vec::new();
    assert(step_views(p@) =~= Seq::<JsonStepView>::empty());
    let r = with_key(with_key(p, a), b);
    assert(step_views(r@) =~= seq![key(a@), key(b@)]);
    r
}

fn trx_prefix(j: usize) -> (r: Vec<JsonStep>)
    ensures
        step_views(r@) == block_trx_path(j as nat),
{
    let r = with_key(with_index(path2("data", "transactions"), j), "trx");
    assert(step_views(r@) =~= block_trx_path(j as nat));
    r
}

fn actions_prefix(j: usize) -> (r: Vec<JsonStep>)
    ensures
        step_views(r@) == block_actions_path(j as nat),
{
    with_key(with_key(trx_prefix(j), "transaction"), "actions")
}

fn text_under(body: &str, p: &Vec<JsonStep>, k: &str) -> (r: Option<String>)
    ensures
        opt_view(r) == text_at(body@, step_views(p@).push(key(k@))),
{
    let mut q: Vec<JsonStep> = Vec::new();
    let mut i: usize = 0;
    while i < p.len()
        invariant
            i <= p@.len(),
            step_views(q@) == step_views(p@.take(i as int)),
        decreases p@.len() - i,
    {
        let ghost before = q@;
        let s = match &p[i] {
            JsonStep::Key(k) => JsonStep::Key(k.clone()),
            JsonStep::Index(n) => JsonStep::Index(*n),
        };
        q.push(s);
        assert(step_views(q@) =~= step_views(before).push(step_views(p@)[i as int]));
        assert(step_views(p@.take(i as int + 1)) =~= step_views(p@.take(i as int)).push(step_views(p@)[i as int]));
        i = i + 1;
    }
    assert(p@.take(p@.len() as int) =~= p@);
    let q = with_key(q, k);
    text_lookup(body, &q)
}

fn read_block_action(body: &str, j: usize, a: usize) -> (r: Option<Pip2001Action>)
    ensures
        match r {
            Some(x) => block_action_spec(body@, block_action_path(j as nat, a as nat)) == Some(action_view(x)),
            None => block_action_spec(body@, block_action_path(j as nat, a as nat)) is None,
        },
{
    let p = with_key(with_index(actions_prefix(j), a), "data");
    let ghost pv = block_action_path(j as nat, a as nat);
    assert(step_views(p@) =~= pv);
    let id = text_under(body, &p, "id");
    let data = text_under(body, &p, "data");
    let hash = text_under(body, &p, "hash");
    let meta = text_under(body, &p, "meta");
    let ty = text_under(body, &p, "type");
    let signature = text_under(body, &p, "signature");
    let user_address = text_under(body, &p, "user_address");
    match (id, data, hash, meta, ty, signature, user_address) {
        (Some(id), Some(data), Some(hash), Some(meta), Some(ty), Some(signature), Some(user_address)) => {
            return Some(
                Pip2001Action::Data(ActionData { id, data, hash, meta, _type: ty, signature, user_address }),
            );
        },
        _ => {},
    }
    let oracleservice = text_under(body, &p, "oracleservice");
    let auth = with_key(with_key(with_index(actions_prefix(j), a), "data"), "auth_hash");
    assert(step_views(auth@) =~= pv.push(key("auth_hash"@)));
    let auth_hash = match json_lookup(body, &auth) {
        Some(JsonField::Int(i)) => Some(i),
        _ => None,
    };
    let ty = text_under(body, &p, "type");
    let meta = text_under(body, &p, "meta");
    let data = text_under(body, &p, "data");
    let memo = text_under(body, &p, "memo");
    match (oracleservice, auth_hash, ty, meta, data, memo) {
        (Some(oracleservice), Some(auth_hash), Some(ty), Some(meta), Some(data), Some(memo)) => Some(
            Pip2001Action::Validation(
                Pip2001ActionValidation { oracleservice, auth_hash, _type: ty, meta, data, memo },
            ),
        ),
        _ => None,
    }
}

fn read_block_trx(body: &str, j: usize) -> (r: Option<Pip2001Trx>)
    ensures
        match r {
            Some(t) => block_trx_spec(body@, j as nat) == Some(trx_view(t)),
            None => block_trx_spec(body@, j as nat) is None,
        },
{
    let t = trx_prefix(j);
    if let Some(JsonField::Missing) = json_lookup(body, &t) {
        return None;
    }
    let trx_id = match text_under(body, &t, "id") {
        Some(v) => v,
        None => return None,
    };
    let tx = with_key(trx_prefix(j), "transaction");
    if let Some(JsonField::Missing) = json_lookup(body, &tx) {
        return None;
    }
    let mut actions: Vec<Pip2001Action> = Vec::new();
    let n = match list_lookup(body, &actions_prefix(j)) {
        Some(n) => n,
        None => {
            assert(action_views(actions@) =~= Seq::<ActionView>::empty());
            return Some(Pip2001Trx { trx_id, actions });
        },
    };
    let mut a: usize = 0;
    assert(action_views(actions@) =~= block_actions_spec(body@, j as nat, 0));
    while a < n
        invariant
            a <= n,
            action_views(actions@) == block_actions_spec(body@, j as nat, a as nat),
        decreases n - a,
    {
        let ghost before = actions@;
        match read_block_action(body, j, a) {
            Some(x) => {
                actions.push(x);
                assert(action_views(actions@) =~= action_views(before).push(action_view(x)));
            },
            None => {},
        }
        a = a + 1;
    }
    Some(Pip2001Trx { trx_id, actions })
}

/// Reads the chain's answer for block `block_num`: its id, timestamp, and
/// each transaction with the actions that read as publish data or as a
/// validation. A transaction without its id is skipped, as is an action
/// that reads as neither.
pub fn parse_block(body: &str, block_num: i64) -> (r: Result<Block, BlockError>)
    ensures
        match block_spec(body@, block_num) {
            Ok(b) => r matches Ok(x) && block_view(x) == b,
            Err(e) => r matches Err(x) && x == e,
        },
{
    if !parses(body) {
        return Err(BlockError::Malformed);
    }
    let top: Vec<JsonStep> = Vec::new();
    assert(step_views(top@) =~= Seq::<JsonStepView>::empty());
    let success = with_key(top, "success");
    assert(step_views(success@) =~= seq![key("success"@)]);
    if let Some(JsonField::Bool(false)) = json_lookup(body, &success) {
        if contains_str(body, "Could not find block: ") {
            return Err(BlockError::NotGenerated);
        }
        return Err(BlockError::Refused);
    }
    let top2: Vec<JsonStep> = Vec::new();
    assert(step_views(top2@) =~= Seq::<JsonStepView>::empty());
    let data = with_key(top2, "data");
    assert(step_views(data@) =~= seq![key("data"@)]);
    match json_lookup(body, &data) {
        Some(JsonField::Object) => {},
        _ => {
            let b = Block { block_num, block_id: String::new(), trxs: Vec::new(), timestamp: String::new() };
            assert(trx_views(b.trxs@) =~= Seq::<TrxView>::empty());
            return Ok(b);
        },
    }
    match json_lookup(body, &path2("data", "block_num")) {
        Some(JsonField::Int(v)) => {
            if v != block_num {
                return Err(BlockError::BlockNumMismatch);
            }
        },
        Some(JsonField::Other) => return Err(BlockError::NoBlockNum),
        _ => {},
    }
    let block_id = match text_lookup(body, &path2("data", "id")) {
        Some(v) => v,
        None => return Err(BlockError::NoBlockId),
    };
    let timestamp = match text_lookup(body, &path2("data", "timestamp")) {
        Some(v) => v,
        None => return Err(BlockError::NoTimestamp),
    };
    let mut trxs: Vec<Pip2001Trx> = Vec::new();
    let m = match list_lookup(body, &path2("data", "transactions")) {
        Some(m) => m,
        None => {
            assert(trx_views(trxs@) =~= Seq::<TrxView>::empty());
            return Ok(Block { block_num, block_id, trxs, timestamp });
        },
    };
    let mut j: usize = 0;
    assert(trx_views(trxs@) =~= block_trxs_spec(body@, 0));
    while j < m
        invariant
            j <= m,
            trx_views(trxs@) == block_trxs_spec(body@, j as nat),
        decreases m - j,
    {
        let ghost before = trxs@;
        match read_block_trx(body, j) {
            Some(t) => {
                trxs.push(t);
                assert(trx_views(trxs@) =~= trx_views(before).push(trx_view(t)));
            },
            None => {},
        }
        j = j + 1;
    }
    Ok(Block { block_num, block_id, trxs, timestamp })
}


/// The publish data actions of one transaction, each with its id.
pub open spec fn trx_data(trx_id: Seq<char>, acts: Seq<ActionView>) -> Seq<(Seq<char>, ActionDataView)>
    decreases acts.len(),
{
    if acts.len() == 0 {
        Seq::empty()
    } else {
        let prev = trx_data(trx_id, acts.drop_last());
        match acts.last() {
            ActionView::Data(d) => prev.push((trx_id, d)),
            _ => prev,
        }
    }
}

/// The publish data actions of a block, in order, each with the id of its
/// transaction.
pub open spec fn block_data(trxs: Seq<TrxView>) -> Seq<(Seq<char>, ActionDataView)>
    decreases trxs.len(),
{
    if trxs.len() == 0 {
        Seq::empty()
    } else {
        block_data(trxs.drop_last()) + trx_data(trxs.last().trx_id, trxs.last().actions)
    }
}

pub open spec fn pair_views(v: Seq<(String, ActionData)>) -> Seq<(Seq<char>, ActionDataView)> {
    v.map_values(|p: (String, ActionData)| (p.0@, p.1@))
}

/// The topic entry of an action: none where its data is not JSON or names
/// no topic; else the topic where it is a string.
pub open spec fn topic_entry(d: ActionDataView) -> Option<Option<Seq<char>>> {
    if !is_json(d.data) {
        None
    } else {
        match json_at(d.data, seq![key("topic"@)]) {
            Some(JsonFieldView::Missing) => None,
            Some(JsonFieldView::Text(t)) => Some(Some(t)),
            _ => Some(None),
        }
    }
}

/// The topic that the last entry for `id` gives.
pub open spec fn topic_of(flat: Seq<(Seq<char>, ActionDataView)>, id: Seq<char>) -> Option<Seq<char>>
    decreases flat.len(),
{
    if flat.len() == 0 {
        None
    } else if flat.last().1.id == id && topic_entry(flat.last().1) is Some {
        topic_entry(flat.last().1).unwrap()
    } else {
        topic_of(flat.drop_last(), id)
    }
}

/// Whether the topic that the id of action `k` resolves to is in `env`.
pub open spec fn topic_hit(flat: Seq<(Seq<char>, ActionDataView)>, k: int, env: Seq<Seq<char>>) -> bool {
    match topic_of(flat, flat[k].1.id) {
        Some(t) => env.contains(t),
        None => false,
    }
}

/// The payloads owed for the publish actions among `part` of a block
/// whose data actions are `all`: those whose id has a topic.
pub open spec fn payloads_spec(
    part: Seq<(Seq<char>, ActionDataView)>,
    all: Seq<(Seq<char>, ActionDataView)>,
    block_num: i64,
) -> Seq<(Seq<char>, i64, Seq<char>)>
    decreases part.len(),
{
    if part.len() == 0 {
        Seq::empty()
    } else {
        let prev = payloads_spec(part.drop_last(), all, block_num);
        let (trx_id, d) = part.last();
        if decode_spec(d.data, d.meta) matches Ok(MessageView::Publish { .. }) && topic_of(all, d.id) is Some {
            prev.push((d.id, block_num, trx_id))
        } else {
            prev
        }
    }
}

pub open spec fn payload_views(v: Seq<NotifyPayload>) -> Seq<(Seq<char>, i64, Seq<char>)> {
    v.map_values(|p: NotifyPayload| (p.block.data_id@, p.block.block_num, p.block.trx_id@))
}

fn topic_entry_of(d: &ActionData) -> (r: Option<Option<String>>)
    ensures
        match r {
            None => topic_entry(d@) is None,
            Some(None) => topic_entry(d@) == Some(None::<Seq<char>>),
            Some(Some(t)) => topic_entry(d@) == Some(Some(t@)),
        },
{
    if !parses(d.data.as_str()) {
        return None;
    }
    let p = with_key(
        {
            let e: Vec<JsonStep> = Vec::new();
            e
        },
        "topic",
    );
    assert(step_views(p@) =~= seq![key("topic"@)]);
    match json_lookup(d.data.as_str(), &p) {
        Some(JsonField::Missing) => None,
        Some(JsonField::Text(t)) => Some(Some(t)),
        _ => Some(None),
    }
}

impl Block {
    /// The publish data actions of this block, each with the id of its
    /// transaction.
    pub fn data_actions(&self) -> (r: Vec<(String, ActionData)>)
        ensures
            pair_views(r@) == block_data(trx_views(self.trxs@)),
    {
        let mut out: Vec<(String, ActionData)> = Vec::new();
        let ghost tv = trx_views(self.trxs@);
        let mut j: usize = 0;
        assert(tv.take(0) =~= Seq::<TrxView>::empty());
        assert(pair_views(out@) =~= block_data(tv.take(0)));
        while j < self.trxs.len()
            invariant
                j <= self.trxs@.len(),
                tv == trx_views(self.trxs@),
                pair_views(out@) == block_data(tv.take(j as int)),
            decreases self.trxs@.len() - j,
        {
            let t = &self.trxs[j];
            let ghost start = pair_views(out@);
            let ghost acts = action_views(t.actions@);
            let mut a: usize = 0;
            assert(acts.take(0) =~= Seq::<ActionView>::empty());
            assert(start =~= start + trx_data(t.trx_id@, acts.take(0)));
            while a < t.actions.len()
                invariant
                    a <= t.actions@.len(),
                    acts == action_views(t.actions@),
                    pair_views(out@) == start + trx_data(t.trx_id@, acts.take(a as int)),
                decreases t.actions@.len() - a,
            {
                let ghost before = out@;
                assert(acts.take(a as int + 1).drop_last() =~= acts.take(a as int));
                assert(acts.take(a as int + 1).last() == action_view(t.actions@[a as int]));
                match &t.actions[a] {
                    Pip2001Action::Data(d) => {
                        let item = (t.trx_id.clone(), d.duplicate());
                        out.push(item);
                        assert(pair_views(out@) =~= pair_views(before).push((item.0@, item.1@)));
                    },
                    Pip2001Action::Validation(_) => {},
                }
                a = a + 1;
            }
            assert(acts.take(t.actions@.len() as int) =~= acts);
            assert(tv.take(j as int + 1).drop_last() =~= tv.take(j as int));
            assert(tv.take(j as int + 1).last() == trx_view(*t));
            j = j + 1;
        }
        assert(tv.take(self.trxs@.len() as int) =~= tv);
        out
    }

    /// The topic that the last publish action with id `data_id` names.
    pub fn get_topic_by_data_id(&self, data_id: &str) -> (r: Option<String>)
        ensures
            opt_view(r) == topic_of(block_data(trx_views(self.trxs@)), data_id@),
    {
        let flat = self.data_actions();
        find_topic(&flat, data_id)
    }

    /// Whether some publish action's topic, as its id resolves, is one of
    /// `env_topics`.
    pub fn has_topic(&self, env_topics: &Vec<String>) -> (r: bool)
        ensures
            r == exists|k: int|
                0 <= k < block_data(trx_views(self.trxs@)).len() && #[trigger] topic_hit(
                    block_data(trx_views(self.trxs@)),
                    k,
                    crate::text::views(env_topics@),
                ),
    {
        let flat = self.data_actions();
        let ghost fv = pair_views(flat@);
        let ghost ev = crate::text::views(env_topics@);
        let mut k: usize = 0;
        while k < flat.len()
            invariant
                k <= flat@.len(),
                fv == pair_views(flat@),
                fv == block_data(trx_views(self.trxs@)),
                ev == crate::text::views(env_topics@),
                forall|i: int| 0 <= i < k ==> !#[trigger] topic_hit(fv, i, ev),
            decreases flat@.len() - k,
        {
            assert(fv[k as int] == (flat@[k as int].0@, flat@[k as int].1@));
            match find_topic(&flat, flat[k].1.id.as_str()) {
                Some(t) => {
                    assert(topic_of(fv, fv[k as int].1.id) == Some(t@));
                    let mut e: usize = 0;
                    while e < env_topics.len()
                        invariant
                            e <= env_topics@.len(),
                            ev == crate::text::views(env_topics@),
                            k < flat@.len(),
                            fv == pair_views(flat@),
                            fv == block_data(trx_views(self.trxs@)),
                            topic_of(fv, fv[k as int].1.id) == Some(t@),
                            forall|x: int| 0 <= x < e ==> ev[x] != t@,
                        decreases env_topics@.len() - e,
                    {
                        assert(ev[e as int] == env_topics@[e as int]@);
                        if crate::text::str_eq(env_topics[e].as_str(), t.as_str()) {
                            assert(topic_hit(fv, k as int, ev));
                            return true;
                        }
                        e = e + 1;
                    }
                    assert(!ev.contains(t@));
                },
                None => {},
            }
            k = k + 1;
        }
        false
    }

    /// The webhook payloads owed for this block: one for each publish
    /// action whose id has a topic.
    pub fn get_notify_payloads(&self) -> (r: Vec<NotifyPayload>)
        ensures
            payload_views(r@) == payloads_spec(
                block_data(trx_views(self.trxs@)),
                block_data(trx_views(self.trxs@)),
                self.block_num,
            ),
    {
        let flat = self.data_actions();
        let ghost fv = pair_views(flat@);
        let mut out: Vec<NotifyPayload> = Vec::new();
        let mut i: usize = 0;
        assert(fv.take(0) =~= Seq::<(Seq<char>, ActionDataView)>::empty());
        assert(payload_views(out@) =~= payloads_spec(fv.take(0), fv, self.block_num));
        while i < flat.len()
            invariant
                i <= flat@.len(),
                fv == pair_views(flat@),
                payload_views(out@) == payloads_spec(fv.take(i as int), fv, self.block_num),
            decreases flat@.len() - i,
        {
            let ghost before = out@;
            let (trx_id, d) = (&flat[i].0, &flat[i].1);
            assert(fv.take(i as int + 1).drop_last() =~= fv.take(i as int));
            assert(fv.take(i as int + 1).last() == (trx_id@, d@));
            let is_publish = match d.decode() {
                Ok(Message::Publish { .. }) => true,
                _ => false,
            };
            if is_publish && find_topic(&flat, d.id.as_str()).is_some() {
                let p = NotifyPayload {
                    block: NotifyBlock { data_id: d.id.clone(), block_num: self.block_num, trx_id: trx_id.clone() },
                };
                out.push(p);
                assert(payload_views(out@) =~= payload_views(before).push((d.id@, self.block_num, trx_id@)));
            }
            i = i + 1;
        }
        assert(fv.take(flat@.len() as int) =~= fv);
        out
    }
}

fn find_topic(flat: &Vec<(String, ActionData)>, data_id: &str) -> (r: Option<String>)
    ensures
        opt_view(r) == topic_of(pair_views(flat@), data_id@),
{
    let ghost fv = pair_views(flat@);
    let mut i: usize = flat.len();
    assert(fv.take(i as int) =~= fv);
    while i > 0
        invariant
            i <= flat@.len(),
            fv == pair_views(flat@),
            topic_of(fv, data_id@) == topic_of(fv.take(i as int), data_id@),
        decreases i,
    {
        let d = &flat[i - 1].1;
        assert(fv.take(i as int).last() == (flat@[i - 1].0@, d@));
        assert(fv.take(i as int).drop_last() =~= fv.take(i - 1));
        if crate::text::str_eq(d.id.as_str(), data_id) {
            match topic_entry_of(d) {
                Some(e) => return e,
                None => {},
            }
        }
        i = i - 1;
    }
    assert(fv.take(0) =~= Seq::<(Seq<char>, ActionDataView)>::empty());
    None
}


pub open spec fn as_ints(nums: Seq<i64>) -> Seq<int> {
    nums.map_values(|x: i64| x as int)
}

/// Whether every number from `start` up to `end`, exclusive, is in `nums`.
pub open spec fn covered(nums: Seq<i64>, start: int, end: int) -> bool {
    forall|m: int| start <= m < end ==> #[trigger] as_ints(nums).contains(m)
}

fn contains_num(nums: &Vec<i64>, x: i64) -> (r: bool)
    ensures
        r == as_ints(nums@).contains(x as int),
{
    let mut i: usize = 0;
    while i < nums.len()
        invariant
            i <= nums@.len(),
            forall|j: int| 0 <= j < i ==> nums@[j] != x,
        decreases nums@.len() - i,
    {
        if nums[i] == x {
            assert(as_ints(nums@)[i as int] == x as int);
            return true;
        }
        i = i + 1;
    }
    assert forall|j: int| 0 <= j < as_ints(nums@).len() implies as_ints(nums@)[j] != x as int by {
        assert(nums@[j] != x);
    }
    false
}

/// Where a batch of block fetches leaves the cursor that started at
/// `next`: the first block number from `next` on that was not fetched.
pub fn next_block_num(fetched: &Vec<i64>, next: i64) -> (r: i64)
    requires
        next + fetched@.len() < i64::MAX,
        fetched@.len() < i64::MAX,
    ensures
        next <= r,
        covered(fetched@, next as int, r as int),
        !as_ints(fetched@).contains(r as int),
{
    let n = fetched.len() as u64;
    let mut k: u64 = 0;
    while k <= n && contains_num(fetched, next + k as i64)
        invariant
            k <= n + 1,
            next + n < i64::MAX,
            n < i64::MAX,
            n == fetched@.len(),
            covered(fetched@, next as int, next + k),
        decreases n + 1 - k,
    {
        k = k + 1;
    }
    if k > n {
        proof {
            let s = as_ints(fetched@).to_set();
            let range = set_int_range(next as int, next + k);
            lemma_int_range(next as int, next + k);
            assert(range.subset_of(s)) by {
                assert forall|m: int| range.contains(m) implies s.contains(m) by {
                    assert(as_ints(fetched@).contains(m));
                }
            }
            as_ints(fetched@).lemma_cardinality_of_set();
            lemma_len_subset(range, s);
        }
    }
    next + k as i64
}


pub open spec fn block_views(v: Seq<Block>) -> Seq<BlockView> {
    v.map_values(|b: Block| block_view(b))
}

/// Whether the blocks of `v` come in ascending order of number.
pub open spec fn sorted_by_num(v: Seq<Block>) -> bool {
    forall|i: int, j: int| 0 <= i < j < v.len() ==> v[i].block_num <= v[j].block_num
}

/// The fetched blocks of a batch in ascending order of number, as they are
/// handed on: the same blocks, sorted.
pub fn sort_blocks(blocks: Vec<Block>) -> (r: Vec<Block>)
    ensures
        sorted_by_num(r@),
        block_views(r@).to_multiset() == block_views(blocks@).to_multiset(),
{
    let ghost all = block_views(blocks@).to_multiset();
    let mut input = blocks;
    let mut out: Vec<Block> = Vec::new();
    proof {
        broadcast use vstd::seq_lib::group_to_multiset_ensures, vstd::multiset::group_multiset_axioms;
        assert(block_views(out@) =~= Seq::<BlockView>::empty());
        assert(block_views(out@).to_multiset() =~= Multiset::<BlockView>::empty());
    }
    while input.len() > 0
        invariant
            sorted_by_num(out@),
            block_views(input@).to_multiset().add(block_views(out@).to_multiset()) == all,
        decreases input@.len(),
    {
        let ghost before_in = input@;
        let ghost before_out = out@;
        let b = match input.pop() {
            Some(b) => b,
            None => {
                assert(false);
                return out;
            },
        };
        let mut p: usize = 0;
        while p < out.len() && out[p].block_num <= b.block_num
            invariant
                p <= out@.len(),
                out@ == before_out,
                forall|k: int| 0 <= k < p ==> out@[k].block_num <= b.block_num,
            decreases out@.len() - p,
        {
            p = p + 1;
        }
        proof {
            assert(before_in =~= input@.push(b));
            assert(block_views(before_in) =~= block_views(input@).push(block_view(b)));
            vstd::seq_lib::to_multiset_build(block_views(input@), block_view(b));
            assert(block_views(before_out.insert(p as int, b)) =~= block_views(before_out).insert(
                p as int,
                block_view(b),
            ));
            vstd::seq_lib::to_multiset_insert(block_views(before_out), p as int, block_view(b));
        }
        out.insert(p, b);
        proof {
            assert(out@ == before_out.insert(p as int, b));
            assert forall|i: int, j: int| 0 <= i < j < out@.len() implies out@[i].block_num
                <= out@[j].block_num by {
                if j < p {
                    assert(out@[i] == before_out[i] && out@[j] == before_out[j]);
                } else if j == p {
                    assert(out@[i] == before_out[i]);
                } else if i > p {
                    assert(out@[i] == before_out[i - 1] && out@[j] == before_out[j - 1]);
                } else if i == p {
                    assert(out@[j] == before_out[j - 1]);
                    assert(p < before_out.len());
                    assert(before_out[p as int].block_num > b.block_num);
                    assert(before_out[p as int].block_num <= before_out[j - 1].block_num);
                } else {
                    assert(out@[i] == before_out[i] && out@[j] == before_out[j - 1]);
                }
            }
            broadcast use vstd::multiset::group_multiset_axioms;
            assert(block_views(input@).to_multiset().add(block_views(out@).to_multiset()) =~= all);
        }
    }
    proof {
        broadcast use vstd::seq_lib::group_to_multiset_ensures, vstd::multiset::group_multiset_axioms;
        assert(block_views(input@) =~= Seq::<BlockView>::empty());
        assert(block_views(input@).to_multiset() =~= Multiset::<BlockView>::empty());
        assert(block_views(out@).to_multiset() =~= all);
    }
    out
}

} // verus!
