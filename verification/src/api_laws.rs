//! What is asked of the Bot API, and what is made of its replies.

use vstd::prelude::*;
use crate::api;
use crate::api::DownloadErrorView;
use crate::api::PollReplyView;
use crate::json::Json;
use crate::redact;
use crate::text;

verus! {

// ---- attachments ----

/// The attachment of a message that has a photo and no file of a named kind: the
/// file id and the size of the last entry of the photo's list, however long
/// that is, and no name.
pub proof fn the_last_photo_size_is_taken(msg: Json, sizes: Seq<Json>, id: Seq<char>)
    requires
        msg.at("document"@).at("file_id"@).as_text() is None,
        msg.at("video"@).at("file_id"@).as_text() is None,
        msg.at("audio"@).at("file_id"@).as_text() is None,
        msg.at("voice"@).at("file_id"@).as_text() is None,
        msg.at("animation"@).at("file_id"@).as_text() is None,
        msg.at("video_note"@).at("file_id"@).as_text() is None,
        msg.at("photo"@) == Json::List(sizes),
        sizes.len() > 0,
        sizes[sizes.len() - 1].at("file_id"@) == Json::Text(id),
    ensures
        ({
            let a = api::attachment_of(msg);
            &&& a is Some
            &&& a->0.file_id == id
            &&& a->0.file_name is None
            &&& sizes[sizes.len() - 1].at("file_size"@) matches Json::Number(Some(n))
                ==> a->0.file_size == n
            &&& sizes[sizes.len() - 1].at("file_size"@).as_integer() is None ==> a->0.file_size == 0
        }),
{
    lemma_no_named_file(msg);
}

proof fn lemma_first_file(msg: Json)
    ensures
        api::first_file(msg, api::named_kinds()) == (if msg.at("document"@).at(
            "file_id"@,
        ).as_text() is Some {
            api::described_file(msg.at("document"@), true)
        } else if msg.at("video"@).at("file_id"@).as_text() is Some {
            api::described_file(msg.at("video"@), true)
        } else if msg.at("audio"@).at("file_id"@).as_text() is Some {
            api::described_file(msg.at("audio"@), true)
        } else if msg.at("voice"@).at("file_id"@).as_text() is Some {
            api::described_file(msg.at("voice"@), true)
        } else if msg.at("animation"@).at("file_id"@).as_text() is Some {
            api::described_file(msg.at("animation"@), true)
        } else {
            api::described_file(msg.at("video_note"@), true)
        }),
{
    reveal_with_fuel(api::first_file, 8);
    let k = api::named_kinds();
    assert(k.drop_first()[0] == "video"@);
    assert(k.drop_first().drop_first()[0] == "audio"@);
    assert(k.drop_first().drop_first().drop_first()[0] == "voice"@);
    assert(k.drop_first().drop_first().drop_first().drop_first()[0] == "animation"@);
    assert(k.drop_first().drop_first().drop_first().drop_first().drop_first()[0] == "video_note"@);
    assert(k.drop_first().drop_first().drop_first().drop_first().drop_first().drop_first()
        =~= Seq::empty());
}

proof fn lemma_no_named_file(msg: Json)
    requires
        msg.at("document"@).at("file_id"@).as_text() is None,
        msg.at("video"@).at("file_id"@).as_text() is None,
        msg.at("audio"@).at("file_id"@).as_text() is None,
        msg.at("voice"@).at("file_id"@).as_text() is None,
        msg.at("animation"@).at("file_id"@).as_text() is None,
        msg.at("video_note"@).at("file_id"@).as_text() is None,
    ensures
        api::first_file(msg, api::named_kinds()) is None,
{
    lemma_first_file(msg);
}

/// A file of a named kind is the attachment where no kind that comes before it
/// has one: documents come first, then videos, audio, voice messages,
/// animations and video notes. Its name is kept where the message has one.
pub proof fn named_files_come_in_their_order(msg: Json, key: Seq<char>, id: Seq<char>)
    requires
        msg.at(key).at("file_id"@) == Json::Text(id),
        ({
            ||| key == "document"@
            ||| {
                &&& key == "video"@
                &&& msg.at("document"@).at("file_id"@).as_text() is None
            }
            ||| {
                &&& key == "audio"@
                &&& msg.at("document"@).at("file_id"@).as_text() is None
                &&& msg.at("video"@).at("file_id"@).as_text() is None
            }
            ||| {
                &&& key == "voice"@
                &&& msg.at("document"@).at("file_id"@).as_text() is None
                &&& msg.at("video"@).at("file_id"@).as_text() is None
                &&& msg.at("audio"@).at("file_id"@).as_text() is None
            }
            ||| {
                &&& key == "animation"@
                &&& msg.at("document"@).at("file_id"@).as_text() is None
                &&& msg.at("video"@).at("file_id"@).as_text() is None
                &&& msg.at("audio"@).at("file_id"@).as_text() is None
                &&& msg.at("voice"@).at("file_id"@).as_text() is None
            }
            ||| {
                &&& key == "video_note"@
                &&& msg.at("document"@).at("file_id"@).as_text() is None
                &&& msg.at("video"@).at("file_id"@).as_text() is None
                &&& msg.at("audio"@).at("file_id"@).as_text() is None
                &&& msg.at("voice"@).at("file_id"@).as_text() is None
                &&& msg.at("animation"@).at("file_id"@).as_text() is None
            }
        }),
    ensures
        ({
            let a = api::attachment_of(msg);
            &&& a is Some
            &&& a->0.file_id == id
            &&& a->0.file_name == msg.at(key).at("file_name"@).as_text()
            &&& msg.at(key).at("file_size"@) matches Json::Number(Some(n)) ==> a->0.file_size == n
            &&& msg.at(key).at("file_size"@).as_integer() is None ==> a->0.file_size == 0
        }),
{
    lemma_first_file(msg);
}

/// A message with neither a named file nor a usable photo has the sticker's file,
/// without a name, and no attachment where there is no sticker either.
pub proof fn stickers_come_last(msg: Json)
    requires
        msg.at("document"@).at("file_id"@).as_text() is None,
        msg.at("video"@).at("file_id"@).as_text() is None,
        msg.at("audio"@).at("file_id"@).as_text() is None,
        msg.at("voice"@).at("file_id"@).as_text() is None,
        msg.at("animation"@).at("file_id"@).as_text() is None,
        msg.at("video_note"@).at("file_id"@).as_text() is None,
        msg.at("photo"@).as_list() matches Some(sizes) ==> sizes.len() == 0 || sizes[sizes.len()
            - 1].at("file_id"@).as_text() is None,
    ensures
        msg.at("sticker"@).at("file_id"@) matches Json::Text(id) ==> {
            let a = api::attachment_of(msg);
            &&& a is Some
            &&& a->0.file_id == id
            &&& a->0.file_name is None
            &&& msg.at("sticker"@).at("file_size"@) matches Json::Number(Some(n))
                ==> a->0.file_size == n
            &&& msg.at("sticker"@).at("file_size"@).as_integer() is None ==> a->0.file_size == 0
        },
        msg.at("sticker"@).at("file_id"@).as_text() is None ==> api::attachment_of(msg) is None,
{
    lemma_no_named_file(msg);
}

// ---- updates ----

/// What an update says is what stands in its document: its own id, and of its
/// message the sender (0 where there is none), the chat (the sender where
/// there is none), the message's id (0 where there is none) and the text.
pub proof fn updates_say_what_they_hold(doc: Json)
    ensures
        ({
            let u = api::update_of(doc);
            let msg = doc.at("message"@);
            let from = msg.at("from"@).at("id"@);
            let chat = msg.at("chat"@).at("id"@);
            let id = msg.at("message_id"@);
            &&& doc.at("update_id"@) matches Json::Number(Some(n)) ==> u.update_id == Some(n)
            &&& doc.at("update_id"@).as_integer() is None ==> u.update_id is None
            &&& from matches Json::Number(Some(n)) ==> u.from_id == n
            &&& from.as_integer() is None ==> u.from_id == 0
            &&& chat matches Json::Number(Some(n)) ==> u.chat_id == n
            &&& chat.as_integer() is None ==> u.chat_id == u.from_id
            &&& id matches Json::Number(Some(n)) ==> u.message_id == n
            &&& id.as_integer() is None ==> u.message_id == 0
            &&& msg.at("text"@) matches Json::Text(t) ==> u.text == Some(t)
            &&& msg.at("text"@).as_text() is None ==> u.text is None
            &&& msg.at("caption"@) matches Json::Text(t) ==> u.caption == text::trimmed(t)
            &&& msg.at("caption"@).as_text() is None ==> u.caption.len() == 0
            &&& u.attachment == api::attachment_of(msg)
        }),
{
    reveal_strlit("");
    let msg = doc.at("message"@);
    if msg.at("caption"@).as_text() is None {
        assert(""@ =~= Seq::<char>::empty());
    }
}

/// The reply to getUpdates is taken as granted only where it says so, and then
/// gives every update of its list, in order. A reply that is none gives none,
/// and a refusal gives Telegram's code and words.
pub proof fn poll_replies_say_what_they_hold(doc: Json)
    ensures
        api::poll_reply_of(None) == PollReplyView::Undecodable,
        doc.at("ok"@) == Json::Bool(true) ==> (match doc.at("result"@) {
            Json::List(list) => api::poll_reply_of(Some(doc)) matches PollReplyView::Accepted(
                Some(updates),
            ) && updates.len() == list.len() && forall|i: int|
                0 <= i < list.len() ==> #[trigger] updates[i] == api::update_of(list[i]),
            _ => api::poll_reply_of(Some(doc)) == PollReplyView::Accepted(None),
        }),
        doc.at("ok"@) != Json::Bool(true) ==> {
            &&& api::poll_reply_of(Some(doc)) matches PollReplyView::Rejected { code, description }
            &&& doc.at("error_code"@) matches Json::Number(Some(n)) ==> code == n
            &&& doc.at("error_code"@).as_integer() is None ==> code == 0
            &&& doc.at("description"@) matches Json::Text(t) ==> description == t
            &&& doc.at("description"@).as_text() is None ==> description == "getUpdates error"@
        },
{
}

/// getMe tells the username where it is granted, and why not where it is not,
/// without the token.
pub proof fn identities_say_what_they_hold(doc: Json, token: Seq<char>)
    ensures
        api::identity_of(None, token) == Err::<Seq<char>, Seq<char>>(
            redact::scrubbed("error decoding response body"@, token),
        ),
        doc.at("ok"@) == Json::Bool(true) ==> {
            let name = doc.at("result"@).at("username"@);
            &&& name matches Json::Text(t) ==> api::identity_of(Some(doc), token) == Ok::<
                Seq<char>,
                Seq<char>,
            >(t)
            &&& name.as_text() is None ==> api::identity_of(Some(doc), token) == Ok::<
                Seq<char>,
                Seq<char>,
            >("unknown"@)
        },
        doc.at("ok"@) != Json::Bool(true) ==> {
            let why = doc.at("description"@);
            &&& why matches Json::Text(t) ==> api::identity_of(Some(doc), token) == Err::<
                Seq<char>,
                Seq<char>,
            >(redact::scrubbed(t, token))
            &&& why.as_text() is None ==> api::identity_of(Some(doc), token) == Err::<
                Seq<char>,
                Seq<char>,
            >(redact::scrubbed("invalid token"@, token))
        },
{
}

/// getFile tells the file's path where it is granted. A refusal, and a reply
/// without a path, stay; a reply that is none may pass.
pub proof fn file_infos_say_what_they_hold(doc: Json, token: Seq<char>)
    ensures
        api::file_info_of(None, token) == Err::<Seq<char>, DownloadErrorView>(
            DownloadErrorView {
                permanent: false,
                msg: redact::scrubbed("error decoding response body"@, token),
            },
        ),
        doc.at("ok"@) == Json::Bool(true) ==> {
            let path = doc.at("result"@).at("file_path"@);
            &&& path matches Json::Text(t) ==> api::file_info_of(Some(doc), token) == Ok::<
                Seq<char>,
                DownloadErrorView,
            >(t)
            &&& path.as_text() is None ==> api::file_info_of(Some(doc), token) == Err::<
                Seq<char>,
                DownloadErrorView,
            >(DownloadErrorView { permanent: true, msg: "getFile returned no file_path"@ })
        },
        doc.at("ok"@) != Json::Bool(true) ==> {
            let why = doc.at("description"@);
            &&& why matches Json::Text(t) ==> api::file_info_of(Some(doc), token) == Err::<
                Seq<char>,
                DownloadErrorView,
            >(DownloadErrorView { permanent: true, msg: redact::scrubbed(t, token) })
            &&& why.as_text() is None ==> api::file_info_of(Some(doc), token) == Err::<
                Seq<char>,
                DownloadErrorView,
            >(DownloadErrorView { permanent: true, msg: redact::scrubbed("getFile failed"@, token) })
        },
{
}

/// A message was accepted exactly where the reply is a document that says so.
pub proof fn acceptance_is_said(doc: Option<Json>)
    ensures
        api::accepted(doc) <==> doc is Some && doc->0.at("ok"@) == Json::Bool(true),
{
}

// ---- requests ----

/// Every request to a method of the API goes to the bot's own address at the
/// base, and asks for what its arguments say.
pub proof fn requests_carry_their_arguments(
    base: Seq<char>,
    token: Seq<char>,
    offset: int,
    file_id: Seq<char>,
    path: Seq<char>,
)
    ensures
        api::get_me_asked(base, token).url == base + "/bot"@ + token + "/"@ + "getMe"@,
        api::get_me_asked(base, token).query.len() == 0,
        api::get_me_asked(base, token).timeout_secs == 15,
        ({
            let r = api::updates_asked(base, token, offset);
            &&& r.url == base + "/bot"@ + token + "/"@ + "getUpdates"@
            &&& r.query.len() == 3
            &&& r.query[0] == ("offset"@, text::dec_int(offset))
            &&& r.query[1] == ("timeout"@, "30"@)
            &&& r.query[2] == ("allowed_updates"@, "[\"message\"]"@)
            &&& r.timeout_secs == 45
        }),
        ({
            let r = api::file_info_asked(base, token, file_id);
            &&& r.url == base + "/bot"@ + token + "/"@ + "getFile"@
            &&& r.query.len() == 1
            &&& r.query[0] == ("file_id"@, file_id)
            &&& r.timeout_secs == 30
        }),
        ({
            let r = api::file_asked(base, token, path);
            &&& r.url == base + "/file/bot"@ + token + "/"@ + path
            &&& r.query.len() == 0
            &&& r.timeout_secs == 300
        }),
{
}

/// A reaction names the chat and the message, and is a thumbs-up. A message
/// names the chat, and its text is what is to be said.
pub proof fn posts_carry_their_arguments(
    base: Seq<char>,
    token: Seq<char>,
    chat_id: i64,
    message_id: i64,
    message: Seq<char>,
    timeout_secs: u64,
)
    ensures
        ({
            let r = api::reaction_asked(base, token, chat_id, message_id);
            &&& r.url == base + "/bot"@ + token + "/"@ + "setMessageReaction"@
            &&& r.timeout_secs == 10
            &&& r.body.at("chat_id"@) == Json::Number(Some(chat_id))
            &&& r.body.at("message_id"@) == Json::Number(Some(message_id))
            &&& r.body.at("reaction"@) matches Json::List(list)
            &&& list.len() == 1
            &&& list[0].at("type"@) == Json::Text("emoji"@)
            &&& list[0].at("emoji"@) == Json::Text("👍"@)
        }),
        ({
            let r = api::message_asked(base, token, chat_id, message, timeout_secs);
            &&& r.url == base + "/bot"@ + token + "/"@ + "sendMessage"@
            &&& r.timeout_secs == timeout_secs
            &&& r.body.at("chat_id"@) == Json::Number(Some(chat_id))
            &&& r.body.at("text"@) == Json::Text(message)
        }),
{
    reveal_strlit("chat_id");
    reveal_strlit("message_id");
    reveal_strlit("reaction");
    reveal_strlit("type");
    reveal_strlit("emoji");
    reveal_strlit("text");
    assert("chat_id"@.len() != "message_id"@.len());
    assert("chat_id"@.len() != "reaction"@.len());
    assert("message_id"@.len() != "reaction"@.len());
    assert("type"@.len() != "emoji"@.len());
    assert("chat_id"@.len() != "text"@.len());
}

// ---- bases ----

/// A configured base is taken as it is, but for white space around it and
/// slashes at its end: what is left is the base, and only slashes are gone.
pub proof fn configured_bases_are_kept(
    before: Seq<char>,
    base: Seq<char>,
    slashes: nat,
    after: Seq<char>,
)
    requires
        forall|i: int| 0 <= i < before.len() ==> text::whitespace(#[trigger] before[i]),
        forall|i: int| 0 <= i < after.len() ==> text::whitespace(#[trigger] after[i]),
        base.len() > 0,
        !text::whitespace(base[0]),
        !text::whitespace(base.last()),
        base.last() != '/',
    ensures
        api::api_base(Some(before + (base + Seq::new(slashes, |i: int| '/')) + after)) == base,
{
    let tail = Seq::new(slashes, |i: int| '/');
    let core = base + tail;
    assert(core[0] == base[0]);
    if slashes > 0 {
        assert(core.last() == tail[slashes - 1]);
    } else {
        assert(core =~= base);
    }
    text::trimming_takes_the_ends_off(before, core, after);
    lemma_slashes(base, slashes);
}

proof fn lemma_slashes(base: Seq<char>, slashes: nat)
    requires
        base.len() > 0,
        base.last() != '/',
    ensures
        text::trim_end_char(base + Seq::new(slashes, |i: int| '/'), '/') == base,
    decreases slashes,
{
    let all = base + Seq::new(slashes, |i: int| '/');
    assert(text::is_one('/')(all.last()) == (all.last() == '/'));
    if slashes > 0 {
        let fewer = (slashes - 1) as nat;
        assert(all.last() == '/');
        assert(all.drop_last() =~= base + Seq::new(fewer, |i: int| '/'));
        lemma_slashes(base, fewer);
    } else {
        assert(all =~= base);
    }
}

/// The public API is at its own address, and serves files of up to twenty
/// million bytes.
pub proof fn the_public_api_serves_twenty_million_bytes()
    ensures
        api::PUBLIC_DOWNLOAD_LIMIT == 20 * 1000 * 1000,
        api::DEFAULT_API_BASE@ == "https://api.telegram.org"@,
{
}

} // verus!
