//! What happens to a post once its content has been downloaded: decryption,
//! the check against its declared hash, storage, and supersession of the
//! post it updates.
use vstd::prelude::*;

use crate::crypto::{
    decrypt_aes_256_cbc, decryption_of, get_iv, hex_decode, hex_decode_spec, iv_spec, DecryptError,
};
use crate::json::text_field;
use crate::protocol::EncPost;
use crate::store::{ContentView, PostView, Store};
use crate::frontmatter::{trim, trim_spec};
use crate::text::str_eq;

verus! {

#[derive(Debug, Clone, Copy, PartialEq, Eq)]
pub enum ContentError {
    /// The body is not a `{session, content}` envelope.
    NotEnvelope,
    /// The configured key is not hexadecimal.
    KeyHex,
    /// Decryption failed.
    Decrypt(DecryptError),
}

/// The text of a post whose body was downloaded: the body itself where the
/// post is not encrypted, else the decryption of its envelope with `key_hex`
/// and the vector for its session under `iv_prefix`.
pub fn post_plaintext(encryption: &str, body: &str, key_hex: &str, iv_prefix: &str) -> (r: Result<
    String,
    ContentError,
>)
    ensures
        encryption@.len() == 0 ==> (r matches Ok(s) && s@ == body@),
        encryption@.len() > 0 ==> match r {
            Err(ContentError::NotEnvelope) => text_field(body@, "session"@) is None || text_field(
                body@,
                "content"@,
            ) is None,
            Err(ContentError::KeyHex) => text_field(body@, "session"@) is Some && text_field(
                body@,
                "content"@,
            ) is Some && hex_decode_spec(key_hex@) is None,
            Err(ContentError::Decrypt(e)) => match (
                text_field(body@, "session"@),
                text_field(body@, "content"@),
                hex_decode_spec(key_hex@),
            ) {
                (Some(session), Some(content), Some(key)) => decryption_of(
                    content,
                    key,
                    iv_spec(iv_prefix@, session),
                    Err(e),
                ),
                _ => false,
            },
            Ok(s) => match (
                text_field(body@, "session"@),
                text_field(body@, "content"@),
                hex_decode_spec(key_hex@),
            ) {
                (Some(session), Some(content), Some(key)) => decryption_of(
                    content,
                    key,
                    iv_spec(iv_prefix@, session),
                    Ok(s@),
                ),
                _ => false,
            },
        },
{
    if encryption.unicode_len() == 0 {
        return Ok(String::from_str(body));
    }
    let env = match EncPost::parse(body) {
        Some(e) => e,
        None => return Err(ContentError::NotEnvelope),
    };
    let key = match hex_decode(key_hex) {
        Some(k) => k,
        None => return Err(ContentError::KeyHex),
    };
    let iv = get_iv(iv_prefix, env.session.as_str());
    match decrypt_aes_256_cbc(env.content.as_str(), key.as_slice(), iv.as_slice()) {
        Ok(s) => Ok(s),
        Err(e) => Err(ContentError::Decrypt(e)),
    }
}

#[derive(Debug, Clone, Copy, PartialEq, Eq)]
pub enum PostUpdateError {
    /// The post is not stored.
    UnknownPost,
    /// The post it names as updated is not stored.
    UpdatedNotFound,
    /// The post it names as updated is by another user.
    UserMismatch,
}

/// Where the post `publish_tx_id` names another as updated (its
/// `updated_tx_id`, trimmed): marks that one and its content deleted,
/// provided both are by the same user.
pub fn process_post_updated(store: &mut Store, publish_tx_id: &str) -> (r: Result<(), PostUpdateError>)
    requires
        old(store).wf(),
    ensures
        final(store).wf(),
        final(store).trxs@ == old(store).trxs@,
        final(store).users@ == old(store).users@,
        final(store).notifies@ == old(store).notifies@,
        final(store).last_status@ == old(store).last_status@,
        !old(store).posts@.contains_key(publish_tx_id@) ==> r == Err::<(), PostUpdateError>(
            PostUpdateError::UnknownPost,
        ) && final(store).posts@ == old(store).posts@ && final(store).contents@ == old(
            store,
        ).contents@,
        old(store).posts@.contains_key(publish_tx_id@) ==> ({
            let post = old(store).posts@[publish_tx_id@];
            let target = trim_spec(post.updated_tx_id);
            if target.len() == 0 {
                r is Ok && final(store).posts@ == old(store).posts@ && final(store).contents@ == old(
                    store,
                ).contents@
            } else if !old(store).posts@.contains_key(target) {
                r == Err::<(), PostUpdateError>(PostUpdateError::UpdatedNotFound) && final(store).posts@
                    == old(store).posts@ && final(store).contents@ == old(store).contents@
            } else if old(store).posts@[target].user_address != post.user_address {
                r == Err::<(), PostUpdateError>(PostUpdateError::UserMismatch) && final(store).posts@
                    == old(store).posts@ && final(store).contents@ == old(store).contents@
            } else {
                let old_post = old(store).posts@[target];
                &&& r is Ok
                &&& final(store).posts@ == old(store).posts@.insert(
                    target,
                    PostView { deleted: true, ..old_post },
                )
                &&& final(store).contents@ == if old(store).contents@.contains_key(old_post.file_hash) {
                    old(store).contents@.insert(
                        old_post.file_hash,
                        ContentView { deleted: true, ..old(store).contents@[old_post.file_hash] },
                    )
                } else {
                    old(store).contents@
                }
            }
        }),
{
    let (target, user_address) = match store.get_post_by_publish_tx_id(publish_tx_id) {
        Some(p) => (trim(p.updated_tx_id.as_str()), p.user_address.clone()),
        None => return Err(PostUpdateError::UnknownPost),
    };
    if target.unicode_len() == 0 {
        return Ok(());
    }
    let (old_user, old_hash) = match store.get_post_by_publish_tx_id(target.as_str()) {
        Some(p) => (p.user_address.clone(), p.file_hash.clone()),
        None => return Err(PostUpdateError::UpdatedNotFound),
    };
    if !str_eq(old_user.as_str(), user_address.as_str()) {
        return Err(PostUpdateError::UserMismatch);
    }
    store.delete_content(old_hash.as_str());
    store.delete_post(target.as_str());
    Ok(())
}

#[derive(Debug, Clone, Copy, PartialEq, Eq)]
pub enum FetchOutcome {
    /// The content matched its hash and is stored.
    Stored,
    /// The content matched its hash; a body was stored under it before.
    AlreadyStored,
    /// The content did not match its hash: the post is marked fetched and
    /// flagged for review, and nothing is stored.
    Mismatch,
}

/// Records the downloaded text of the post `publish_tx_id`, whose hash under
/// the post's algorithm is `computed_hash`. A mismatch is not retried: the
/// post is marked fetched and flagged for review, and no content is stored.
pub fn record_fetched_content(store: &mut Store, publish_tx_id: &str, text: &str, computed_hash: &str)
    -> (r: Option<FetchOutcome>)
    requires
        old(store).wf(),
    ensures
        final(store).wf(),
        final(store).trxs@ == old(store).trxs@,
        final(store).users@ == old(store).users@,
        final(store).notifies@ == old(store).notifies@,
        final(store).last_status@ == old(store).last_status@,
        !old(store).posts@.contains_key(publish_tx_id@) ==> r is None && final(store).posts@ == old(
            store,
        ).posts@ && final(store).contents@ == old(store).contents@,
        old(store).posts@.contains_key(publish_tx_id@) ==> ({
            let post = old(store).posts@[publish_tx_id@];
            if computed_hash@ == post.file_hash {
                &&& r == Some(
                    if old(store).contents@.contains_key(post.file_hash) {
                        FetchOutcome::AlreadyStored
                    } else {
                        FetchOutcome::Stored
                    },
                )
                &&& final(store).posts@ == old(store).posts@.insert(
                    publish_tx_id@,
                    PostView { fetched: true, verify: true, review: false, ..post },
                )
                &&& final(store).contents@ == if old(store).contents@.contains_key(post.file_hash) {
                    old(store).contents@
                } else {
                    old(store).contents@.insert(
                        post.file_hash,
                        ContentView { url: post.url, content: text@, deleted: false },
                    )
                }
            } else {
                &&& r == Some(FetchOutcome::Mismatch)
                &&& final(store).posts@ == old(store).posts@.insert(
                    publish_tx_id@,
                    PostView { fetched: true, verify: false, review: true, ..post },
                )
                &&& final(store).contents@ == old(store).contents@
            }
        }),
{
    let (file_hash, url, deleted) = match store.posts.get(publish_tx_id) {
        Some(p) => (p.file_hash.clone(), p.url.clone(), p.deleted),
        None => return None,
    };
    if !str_eq(computed_hash, file_hash.as_str()) {
        store.update_post_status(publish_tx_id, true, false, true, deleted);
        return Some(FetchOutcome::Mismatch);
    }
    let stored = store.save_content(file_hash.as_str(), url.as_str(), text);
    store.update_post_status(publish_tx_id, true, true, false, deleted);
    if stored {
        Some(FetchOutcome::Stored)
    } else {
        Some(FetchOutcome::AlreadyStored)
    }
}

} // verus!
