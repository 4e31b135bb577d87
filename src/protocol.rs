//! The PIP:2001 messages carried by chain transactions, decoded into a
//! tagged `Message`, and the webhook payload of a publish event.
use vstd::prelude::*;

use crate::json::{
    is_json, json_at, json_quote, json_quoted_of, list_lookup, parses, text_at, text_field,
    text_field_of, text_lookup, JsonStep, JsonStepView, JsonFieldView,
};
use crate::settings::Settings;
use crate::text::{signed_decimal, split_char, split_spec, views};

verus! {

/// The action data of a transaction, as the chain returns it. `data` and
/// `meta` are JSON texts themselves.
pub struct ActionData {
    pub id: String,
    pub data: String,
    pub hash: String,
    pub meta: String,
    pub _type: String,
    pub signature: String,
    pub user_address: String,
}

pub struct ActionDataView {
    pub id: Seq<char>,
    pub data: Seq<char>,
    pub hash: Seq<char>,
    pub meta: Seq<char>,
    pub _type: Seq<char>,
    pub signature: Seq<char>,
    pub user_address: Seq<char>,
}

impl View for ActionData {
    type V = ActionDataView;

    open spec fn view(&self) -> ActionDataView {
        ActionDataView {
            id: self.id@,
            data: self.data@,
            hash: self.hash@,
            meta: self.meta@,
            _type: self._type@,
            signature: self.signature@,
            user_address: self.user_address@,
        }
    }
}

/// One action of a chain transaction, at its block.
pub struct Transaction {
    pub block_num: i64,
    pub data_type: String,
    pub data: ActionData,
    pub trx_id: String,
    pub signature: String,
    pub hash: String,
    pub user_address: String,
}

pub struct TransactionView {
    pub block_num: i64,
    pub data_type: Seq<char>,
    pub data: ActionDataView,
    pub trx_id: Seq<char>,
    pub signature: Seq<char>,
    pub hash: Seq<char>,
    pub user_address: Seq<char>,
}

impl View for Transaction {
    type V = TransactionView;

    open spec fn view(&self) -> TransactionView {
        TransactionView {
            block_num: self.block_num,
            data_type: self.data_type@,
            data: self.data@,
            trx_id: self.trx_id@,
            signature: self.signature@,
            hash: self.hash@,
            user_address: self.user_address@,
        }
    }
}

pub open spec fn trx_views(v: Seq<Transaction>) -> Seq<TransactionView> {
    v.map_values(|t: Transaction| t@)
}

impl ActionData {
    pub fn duplicate(&self) -> (r: ActionData)
        ensures
            r@ == self@,
    {
        ActionData {
            id: self.id.clone(),
            data: self.data.clone(),
            hash: self.hash.clone(),
            meta: self.meta.clone(),
            _type: self._type.clone(),
            signature: self.signature.clone(),
            user_address: self.user_address.clone(),
        }
    }
}

#[derive(Debug, Clone, Copy, PartialEq, Eq)]
pub enum UserAction {
    Allow,
    Deny,
}

/// A decoded message.
pub enum Message {
    Publish {
        file_hash: String,
        hash_alg: String,
        topic: String,
        uri: String,
        updated_tx_id: String,
    },
    PublishManagement { action: UserAction, user_list: Vec<String>, topic: String },
    Unsupported,
}

pub enum MessageView {
    Publish {
        file_hash: Seq<char>,
        hash_alg: Seq<char>,
        topic: Seq<char>,
        uri: Seq<char>,
        updated_tx_id: Seq<char>,
    },
    PublishManagement { action: UserAction, user_list: Seq<Seq<char>>, topic: Seq<char> },
    Unsupported,
}

impl View for Message {
    type V = MessageView;

    open spec fn view(&self) -> MessageView {
        match self {
            Message::Publish { file_hash, hash_alg, topic, uri, updated_tx_id } => MessageView::Publish {
                file_hash: file_hash@,
                hash_alg: hash_alg@,
                topic: topic@,
                uri: uri@,
                updated_tx_id: updated_tx_id@,
            },
            Message::PublishManagement { action, user_list, topic } => MessageView::PublishManagement {
                action: *action,
                user_list: views(user_list@),
                topic: topic@,
            },
            Message::Unsupported => MessageView::Unsupported,
        }
    }
}

#[derive(Debug, Clone, Copy, PartialEq, Eq)]
pub enum DecodeError {
    /// `data` or `meta` is not JSON.
    Malformed,
    /// `uris` is one string where a list was expected.
    UrisNotList,
    /// There is no first address under `uris`.
    MissingUri,
    /// The message is of no known kind.
    Unsupported,
}

pub open spec fn or_empty(o: Option<Seq<char>>) -> Seq<char> {
    match o {
        Some(s) => s,
        None => Seq::<char>::empty(),
    }
}

/// The hash algorithm that the inner `data` declares under `alg`,
/// `keccak256` where it declares none.
pub open spec fn hash_alg_spec(data: Seq<char>) -> Seq<char> {
    match text_field(data, "alg"@) {
        Some(a) => a,
        None => "keccak256"@,
    }
}

/// The first content address under `uris` in `meta`.
pub open spec fn uri_spec(meta: Seq<char>) -> Result<Seq<char>, DecodeError> {
    let uris = seq![JsonStepView::Key("uris"@)];
    match json_at(meta, uris) {
        Some(JsonFieldView::Text(_)) => Err(DecodeError::UrisNotList),
        Some(JsonFieldView::List(n)) => {
            if n > 0 {
                match text_at(meta, uris.push(JsonStepView::Index(0))) {
                    Some(u) => Ok(u),
                    None => Err(DecodeError::MissingUri),
                }
            } else {
                Err(DecodeError::MissingUri)
            }
        },
        _ => Err(DecodeError::MissingUri),
    }
}

/// The message that the inner `data` and the `meta` texts carry: a
/// publish where `data` has a file hash, else an allow or deny list, else
/// nothing known.
pub open spec fn decode_spec(data: Seq<char>, meta: Seq<char>) -> Result<MessageView, DecodeError> {
    if !is_json(data) || !is_json(meta) {
        Err(DecodeError::Malformed)
    } else {
        let topic = or_empty(text_field(data, "topic"@));
        match text_field(data, "file_hash"@) {
            Some(fh) => match uri_spec(meta) {
                Err(e) => Err(e),
                Ok(u) => Ok(
                    MessageView::Publish {
                        file_hash: fh,
                        hash_alg: hash_alg_spec(data),
                        topic: topic,
                        uri: u,
                        updated_tx_id: or_empty(text_field(data, "updated_tx_id"@)),
                    },
                ),
            },
            None => match text_field(data, "allow"@) {
                Some(a) => Ok(
                    MessageView::PublishManagement {
                        action: UserAction::Allow,
                        user_list: split_spec(a, ','),
                        topic: topic,
                    },
                ),
                None => match text_field(data, "deny"@) {
                    Some(d) => Ok(
                        MessageView::PublishManagement {
                            action: UserAction::Deny,
                            user_list: split_spec(d, ','),
                            topic: topic,
                        },
                    ),
                    None => Ok(MessageView::Unsupported),
                },
            },
        }
    }
}

pub open spec fn decoded_view(r: Result<Message, DecodeError>) -> Result<MessageView, DecodeError> {
    match r {
        Ok(m) => Ok(m@),
        Err(e) => Err(e),
    }
}

fn text_or_empty(doc: &str, key: &str) -> (r: String)
    ensures
        r@ == or_empty(text_field(doc@, key@)),
{
    match text_field_of(doc, key) {
        Some(s) => s,
        None => String::new(),
    }
}

fn first_uri(meta: &str) -> (r: Result<String, DecodeError>)
    ensures
        match r {
            Ok(u) => uri_spec(meta@) == Ok::<Seq<char>, DecodeError>(u@),
            Err(e) => uri_spec(meta@) == Err::<Seq<char>, DecodeError>(e),
        },
{
    let mut path: Vec<JsonStep> = Vec::new();
    path.push(JsonStep::Key(String::from_str("uris")));
    let ghost uris = seq![JsonStepView::Key("uris"@)];
    assert(crate::json::step_views(path@) =~= uris);
    if text_lookup(meta, &path).is_some() {
        return Err(DecodeError::UrisNotList);
    }
    match list_lookup(meta, &path) {
        Some(n) => {
            if n == 0 {
                return Err(DecodeError::MissingUri);
            }
            path.push(JsonStep::Index(0));
            assert(crate::json::step_views(path@) =~= uris.push(JsonStepView::Index(0)));
            match text_lookup(meta, &path) {
                Some(u) => Ok(u),
                None => Err(DecodeError::MissingUri),
            }
        },
        None => Err(DecodeError::MissingUri),
    }
}

impl ActionData {
    /// Decodes the message of this action.
    pub fn decode(&self) -> (r: Result<Message, DecodeError>)
        ensures
            decoded_view(r) == decode_spec(self.data@, self.meta@),
    {
        let data = self.data.as_str();
        let meta = self.meta.as_str();
        if !parses(data) || !parses(meta) {
            return Err(DecodeError::Malformed);
        }
        let topic = text_or_empty(data, "topic");
        if let Some(file_hash) = text_field_of(data, "file_hash") {
            let uri = match first_uri(meta) {
                Ok(u) => u,
                Err(e) => return Err(e),
            };
            let hash_alg = match text_field_of(data, "alg") {
                Some(a) => a,
                None => String::from_str("keccak256"),
            };
            let updated_tx_id = text_or_empty(data, "updated_tx_id");
            return Ok(Message::Publish { file_hash, hash_alg, topic, uri, updated_tx_id });
        }
        if let Some(allow) = text_field_of(data, "allow") {
            let user_list = split_char(allow.as_str(), ',');
            return Ok(Message::PublishManagement { action: UserAction::Allow, user_list, topic });
        }
        if let Some(deny) = text_field_of(data, "deny") {
            let user_list = split_char(deny.as_str(), ',');
            return Ok(Message::PublishManagement { action: UserAction::Deny, user_list, topic });
        }
        Ok(Message::Unsupported)
    }

    /// The encryption scheme that `meta` names, empty where it names none.
    pub fn get_encryption(&self) -> (r: String)
        ensures
            r@ == or_empty(text_field(self.meta@, "encryption"@)),
    {
        text_or_empty(self.meta.as_str(), "encryption")
    }

    /// The hash algorithm that `meta` names, empty where it names none.
    pub fn get_hash_alg(&self) -> (r: Result<String, DecodeError>)
        ensures
            match r {
                Ok(s) => is_json(self.meta@) && s@ == or_empty(text_field(self.meta@, "hash_alg"@)),
                Err(e) => !is_json(self.meta@) && e == DecodeError::Malformed,
            },
    {
        if !parses(self.meta.as_str()) {
            return Err(DecodeError::Malformed);
        }
        Ok(text_or_empty(self.meta.as_str(), "hash_alg"))
    }

    /// The file hash that `data` names, empty where it names none.
    pub fn get_file_hash(&self) -> (r: Result<String, DecodeError>)
        ensures
            match r {
                Ok(s) => is_json(self.data@) && s@ == or_empty(text_field(self.data@, "file_hash"@)),
                Err(e) => !is_json(self.data@) && e == DecodeError::Malformed,
            },
    {
        if !parses(self.data.as_str()) {
            return Err(DecodeError::Malformed);
        }
        Ok(text_or_empty(self.data.as_str(), "file_hash"))
    }

    /// The topic that `data` names, empty where it names none.
    pub fn get_topic(&self) -> (r: Result<String, DecodeError>)
        ensures
            match r {
                Ok(s) => is_json(self.data@) && s@ == or_empty(text_field(self.data@, "topic"@)),
                Err(e) => !is_json(self.data@) && e == DecodeError::Malformed,
            },
    {
        if !parses(self.data.as_str()) {
            return Err(DecodeError::Malformed);
        }
        Ok(text_or_empty(self.data.as_str(), "topic"))
    }
}

/// The webhook payload of a publish event.
pub struct NotifyPayload {
    pub block: NotifyBlock,
}

pub struct NotifyBlock {
    pub data_id: String,
    pub block_num: i64,
    pub trx_id: String,
}

/// The JSON body posted to a webhook.
pub open spec fn notify_body_spec(data_id: Seq<char>, block_num: i64, trx_id: Seq<char>) -> Seq<char> {
    "{\"block\":{\"id\":"@ + json_quoted_of(data_id) + ",\"blockNum\":"@ + signed_decimal(
        block_num as int,
    ) + ",\"blockTransactionId\":"@ + json_quoted_of(trx_id) + "}}"@
}

impl NotifyPayload {
    /// The JSON body: `{"block":{"id":..,"blockNum":..,"blockTransactionId":..}}`.
    pub fn to_json(&self) -> (r: String)
        ensures
            r@ == notify_body_spec(self.block.data_id@, self.block.block_num, self.block.trx_id@),
    {
        let id = json_quote(self.block.data_id.as_str());
        let num = crate::text::i64_to_decimal(self.block.block_num);
        let trx = json_quote(self.block.trx_id.as_str());
        String::from_str("{\"block\":{\"id\":").concat(id.as_str()).concat(",\"blockNum\":").concat(
            num.as_str(),
        ).concat(",\"blockTransactionId\":").concat(trx.as_str()).concat("}}")
    }
}

impl Transaction {
    /// The topic of this transaction's message, empty where it has none.
    pub fn get_topic(&self) -> (r: String)
        ensures
            r@ == or_empty(text_field(self.data.data@, "topic"@)),
    {
        text_or_empty(self.data.data.as_str(), "topic")
    }

    /// Whether the topic of this transaction is one that `settings` lists.
    pub fn has_invalid_topic(&self, settings: &Settings) -> (r: bool)
        ensures
            r == (exists|i: int|
                0 <= i < settings.topics@.len() && settings.topics@[i].topic@ == or_empty(
                    text_field(self.data.data@, "topic"@),
                )),
    {
        settings.contains_topic(self.get_topic().as_str())
    }

    /// The webhook payload owed for this transaction: one for a publish,
    /// none for a user list, an error otherwise.
    pub fn get_notify_payload(&self) -> (r: Result<Option<NotifyPayload>, DecodeError>)
        ensures
            match decode_spec(self.data.data@, self.data.meta@) {
                Ok(MessageView::Publish { .. }) => r matches Ok(Some(p)) && p.block.data_id@
                    == self.data.id@ && p.block.block_num == self.block_num && p.block.trx_id@
                    == self.trx_id@,
                Ok(MessageView::PublishManagement { .. }) => r matches Ok(None),
                Ok(MessageView::Unsupported) => r == Err::<Option<NotifyPayload>, DecodeError>(
                    DecodeError::Unsupported,
                ),
                Err(e) => r == Err::<Option<NotifyPayload>, DecodeError>(e),
            },
    {
        match self.data.decode() {
            Ok(Message::Publish { .. }) => Ok(
                Some(
                    NotifyPayload {
                        block: NotifyBlock {
                            data_id: self.data.id.clone(),
                            block_num: self.block_num,
                            trx_id: self.trx_id.clone(),
                        },
                    },
                ),
            ),
            Ok(Message::PublishManagement { .. }) => Ok(None),
            Ok(Message::Unsupported) => Err(DecodeError::Unsupported),
            Err(e) => Err(e),
        }
    }
}

/// The envelope of an encrypted post: a session id and hexadecimal
/// ciphertext.
pub struct EncPost {
    pub session: String,
    pub content: String,
}

impl EncPost {
    /// Reads an envelope `{"session": .., "content": ..}`.
    pub fn parse(body: &str) -> (r: Option<EncPost>)
        ensures
            match r {
                Some(e) => text_field(body@, "session"@) == Some(e.session@) && text_field(
                    body@,
                    "content"@,
                ) == Some(e.content@),
                None => text_field(body@, "session"@) is None || text_field(body@, "content"@) is None,
            },
    {
        let session = match text_field_of(body, "session") {
            Some(s) => s,
            None => return None,
        };
        let content = match text_field_of(body, "content") {
            Some(s) => s,
            None => return None,
        };
        Some(EncPost { session, content })
    }
}

} // verus!
