//! The Telegram Bot API: where it is, what is asked of it, and what its
//! replies say.

use vstd::prelude::*;
use vstd::string::*;
use crate::json;
use crate::json::Json;
use crate::redact;
use crate::text;

verus! {

/// The public Telegram Bot API. Used when a bot has no custom `api_base`.
pub const DEFAULT_API_BASE: &'static str = "https://api.telegram.org";

/// getFile over the public Bot API only serves files up to 20 MB. Telegram
/// documents this as 20 MB in decimal, not 20 MiB. A self-hosted local server
/// has no such limit.
pub const PUBLIC_DOWNLOAD_LIMIT: i64 = 20_000_000;

/// What is reported of a reply that is no JSON document.
pub const UNDECODABLE: &'static str = "error decoding response body";

// ---- where the API is ----

/// The origin that a configured API base stands for.
pub open spec fn api_base(configured: Option<Seq<char>>) -> Seq<char> {
    let given = match configured {
        Some(c) => text::trimmed(c),
        None => Seq::empty(),
    };
    text::trim_end_char(
        if given.len() == 0 {
            DEFAULT_API_BASE@
        } else {
            given
        },
        '/',
    )
}

/// Normalize a configured API base into a usable origin. Falls back to the
/// public API when unset or blank, and trims any trailing slash so URL building
/// can always join with a single `/`.
pub fn resolve_api_base(configured: Option<&str>) -> (r: String)
    ensures
        r@ == api_base(text::opt_str(configured)),
{
    let given = match configured {
        Some(c) => text::trim(c),
        None => String::new(),
    };
    proof {
        assert(configured is None ==> given@ =~= Seq::<char>::empty());
    }
    if given.as_str().is_empty() {
        text::trim_end_matches(DEFAULT_API_BASE, '/')
    } else {
        text::trim_end_matches(given.as_str(), '/')
    }
}

/// Whether downloads from this origin are subject to the public API's limit.
pub fn is_capped(base: &str) -> (r: bool)
    ensures
        r == (base@ == DEFAULT_API_BASE@),
{
    text::same_text(base, DEFAULT_API_BASE)
}

proof fn lemma_trim_end(s: Seq<char>, x: char)
    ensures
        text::trim_end_char(s, x).len() > 0 ==> text::trim_end_char(s, x).last() != x,
        s.len() > 0 && s.last() != x ==> text::trim_end_char(s, x) == s,
    decreases s.len(),
{
    if s.len() > 0 {
        assert(text::is_one(x)(s.last()) == (s.last() == x));
        lemma_trim_end(s.drop_last(), x);
    }
}

/// A resolved origin never ends in a slash.
pub proof fn resolved_bases_end_without_a_slash(configured: Option<Seq<char>>)
    ensures
        api_base(configured).len() > 0 ==> api_base(configured).last() != '/',
{
    let given = match configured {
        Some(c) => text::trimmed(c),
        None => Seq::empty(),
    };
    lemma_trim_end(
        if given.len() == 0 {
            DEFAULT_API_BASE@
        } else {
            given
        },
        '/',
    );
}

/// Without a configured base, or with a blank one, a bot talks to the public
/// API.
pub proof fn the_public_api_is_the_fallback(configured: Option<Seq<char>>)
    requires
        configured is None || text::trimmed(configured->0).len() == 0,
    ensures
        api_base(configured) == DEFAULT_API_BASE@,
{
    reveal_strlit("https://api.telegram.org");
    lemma_trim_end(DEFAULT_API_BASE@, '/');
}

// ---- requests ----

/// The address of a method of the API.
pub open spec fn method_place(base: Seq<char>, token: Seq<char>, method: Seq<char>) -> Seq<char> {
    base + "/bot"@ + token + "/"@ + method
}

/// The address of a file that the API serves.
pub open spec fn file_place(base: Seq<char>, token: Seq<char>, path: Seq<char>) -> Seq<char> {
    base + "/file/bot"@ + token + "/"@ + path
}

/// A GET request.
#[derive(Debug, PartialEq, Eq)]
pub struct Get {
    pub url: String,
    pub query: Vec<(String, String)>,
    pub timeout_secs: u64,
}

/// What a [`Get`] asks.
#[verifier::ext_equal]
pub struct GetView {
    pub url: Seq<char>,
    pub query: Seq<(Seq<char>, Seq<char>)>,
    pub timeout_secs: u64,
}

impl View for Get {
    type V = GetView;

    open spec fn view(&self) -> GetView {
        GetView {
            url: self.url@,
            query: self.query@.map_values(|p: (String, String)| (p.0@, p.1@)),
            timeout_secs: self.timeout_secs,
        }
    }
}

/// A POST request with a JSON body.
pub struct Post {
    pub url: String,
    pub body: serde_json::Value,
    pub timeout_secs: u64,
}

/// What a [`Post`] asks.
pub struct PostView {
    pub url: Seq<char>,
    pub body: Json,
    pub timeout_secs: u64,
}

impl View for Post {
    type V = PostView;

    open spec fn view(&self) -> PostView {
        PostView { url: self.url@, body: json::json_of(self.body), timeout_secs: self.timeout_secs }
    }
}

/// The address of a method of the API.
pub fn method_url(base: &str, token: &str, method: &str) -> (r: String)
    ensures
        r@ == method_place(base@, token@, method@),
{
    let mut url = base.to_owned();
    url.append("/bot");
    url.append(token);
    url.append("/");
    url.append(method);
    url
}

/// Ask who the bot is.
pub open spec fn get_me_asked(base: Seq<char>, token: Seq<char>) -> GetView {
    GetView { url: method_place(base, token, "getMe"@), query: Seq::empty(), timeout_secs: 15 }
}

/// Ask who the bot is.
pub fn get_me_request(base: &str, token: &str) -> (r: Get)
    ensures
        r@ == get_me_asked(base@, token@),
{
    let r = Get { url: method_url(base, token, "getMe"), query: Vec::new(), timeout_secs: 15 };
    proof {
        assert(r@ =~= get_me_asked(base@, token@));
    }
    r
}

/// Ask for the updates from `offset` on, waiting for up to 30 seconds.
pub open spec fn updates_asked(base: Seq<char>, token: Seq<char>, offset: int) -> GetView {
    GetView {
        url: method_place(base, token, "getUpdates"@),
        query: seq![
            ("offset"@, text::dec_int(offset)),
            ("timeout"@, "30"@),
            ("allowed_updates"@, "[\"message\"]"@),
        ],
        timeout_secs: 45,
    }
}

/// Ask for the updates from `offset` on, waiting for up to 30 seconds. Asking
/// confirms the updates before `offset`.
pub fn updates_request(base: &str, token: &str, offset: i64) -> (r: Get)
    ensures
        r@ == updates_asked(base@, token@, offset as int),
{
    let mut query: Vec<(String, String)> = Vec::new();
    query.push(("offset".to_owned(), text::decimal_i64(offset)));
    query.push(("timeout".to_owned(), "30".to_owned()));
    query.push(("allowed_updates".to_owned(), "[\"message\"]".to_owned()));
    let r = Get { url: method_url(base, token, "getUpdates"), query, timeout_secs: 45 };
    proof {
        assert(r@ =~= updates_asked(base@, token@, offset as int));
    }
    r
}

/// Ask where a file can be had.
pub open spec fn file_info_asked(base: Seq<char>, token: Seq<char>, file_id: Seq<char>) -> GetView {
    GetView {
        url: method_place(base, token, "getFile"@),
        query: seq![("file_id"@, file_id)],
        timeout_secs: 30,
    }
}

/// Ask where a file can be had.
pub fn file_info_request(base: &str, token: &str, file_id: &str) -> (r: Get)
    ensures
        r@ == file_info_asked(base@, token@, file_id@),
{
    let mut query: Vec<(String, String)> = Vec::new();
    query.push(("file_id".to_owned(), file_id.to_owned()));
    let r = Get { url: method_url(base, token, "getFile"), query, timeout_secs: 30 };
    proof {
        assert(r@ =~= file_info_asked(base@, token@, file_id@));
    }
    r
}

/// Ask for the bytes of a file.
pub open spec fn file_asked(base: Seq<char>, token: Seq<char>, path: Seq<char>) -> GetView {
    GetView { url: file_place(base, token, path), query: Seq::empty(), timeout_secs: 300 }
}

/// Ask for the bytes of a file.
pub fn file_request(base: &str, token: &str, path: &str) -> (r: Get)
    ensures
        r@ == file_asked(base@, token@, path@),
{
    let mut url = base.to_owned();
    url.append("/file/bot");
    url.append(token);
    url.append("/");
    url.append(path);
    let r = Get { url, query: Vec::new(), timeout_secs: 300 };
    proof {
        assert(r@ =~= file_asked(base@, token@, path@));
    }
    r
}

/// React to a message with a thumbs-up.
pub open spec fn reaction_asked(
    base: Seq<char>,
    token: Seq<char>,
    chat_id: i64,
    message_id: i64,
) -> PostView {
    let thumb = Json::Object(
        map!["type"@ => Json::Text("emoji"@), "emoji"@ => Json::Text("👍"@)],
    );
    PostView {
        url: method_place(base, token, "setMessageReaction"@),
        body: Json::Object(
            map![
                "chat_id"@ => Json::Number(Some(chat_id)),
                "message_id"@ => Json::Number(Some(message_id)),
                "reaction"@ => Json::List(seq![thumb]),
            ],
        ),
        timeout_secs: 10,
    }
}

/// React to a message with a thumbs-up.
pub fn reaction_request(base: &str, token: &str, chat_id: i64, message_id: i64) -> (r: Post)
    ensures
        r@ == reaction_asked(base@, token@, chat_id, message_id),
{
    let mut thumb = json::empty_object();
    json::set_member(&mut thumb, "type", json::text_value("emoji"));
    json::set_member(&mut thumb, "emoji", json::text_value("👍"));
    let ghost thumb_tree = json::json_of(thumb);
    let mut list: Vec<serde_json::Value> = Vec::new();
    list.push(thumb);
    proof {
        assert(json::json_list(list@) =~= seq![thumb_tree]);
    }
    let mut body = json::empty_object();
    json::set_member(&mut body, "chat_id", json::integer_value(chat_id));
    json::set_member(&mut body, "message_id", json::integer_value(message_id));
    json::set_member(&mut body, "reaction", json::list_value(list));
    Post { url: method_url(base, token, "setMessageReaction"), body, timeout_secs: 10 }
}

/// Send a text message.
pub open spec fn message_asked(
    base: Seq<char>,
    token: Seq<char>,
    chat_id: i64,
    message: Seq<char>,
    timeout_secs: u64,
) -> PostView {
    PostView {
        url: method_place(base, token, "sendMessage"@),
        body: Json::Object(
            map!["chat_id"@ => Json::Number(Some(chat_id)), "text"@ => Json::Text(message)],
        ),
        timeout_secs,
    }
}

fn post_message(base: &str, token: &str, chat_id: i64, message: &str, timeout_secs: u64) -> (r:
    Post)
    ensures
        r@ == message_asked(base@, token@, chat_id, message@, timeout_secs),
{
    let mut body = json::empty_object();
    json::set_member(&mut body, "chat_id", json::integer_value(chat_id));
    json::set_member(&mut body, "text", json::text_value(message));
    Post { url: method_url(base, token, "sendMessage"), body, timeout_secs }
}

/// Send a text message whose fate is not watched, such as an acknowledgement.
pub fn message_request(base: &str, token: &str, chat_id: i64, message: &str) -> (r: Post)
    ensures
        r@ == message_asked(base@, token@, chat_id, message@, 10),
{
    post_message(base, token, chat_id, message, 10)
}

/// Send a text message whose reply is read by [`read_accepted`].
pub fn checked_message_request(base: &str, token: &str, chat_id: i64, message: &str) -> (r: Post)
    ensures
        r@ == message_asked(base@, token@, chat_id, message@, 20),
{
    post_message(base, token, chat_id, message, 20)
}

// ---- attachments ----

/// A downloadable attachment pulled from a message.
#[derive(Debug, PartialEq, Eq)]
pub struct Attachment {
    pub file_id: String,
    pub file_name: Option<String>,
    /// Telegram-reported size in bytes, or 0 when the message omits it.
    pub file_size: i64,
}

/// What an [`Attachment`] says.
pub struct AttachmentView {
    pub file_id: Seq<char>,
    pub file_name: Option<Seq<char>>,
    pub file_size: i64,
}

impl View for Attachment {
    type V = AttachmentView;

    open spec fn view(&self) -> AttachmentView {
        AttachmentView {
            file_id: self.file_id@,
            file_name: text::opt_text(self.file_name),
            file_size: self.file_size,
        }
    }
}

/// The number in a document, or `fallback` where it is none.
pub open spec fn integer_or(doc: Json, fallback: i64) -> i64 {
    match doc.as_integer() {
        Some(n) => n,
        None => fallback,
    }
}

/// The text in a document, or `fallback` where it is none.
pub open spec fn text_or(doc: Json, fallback: Seq<char>) -> Seq<char> {
    match doc.as_text() {
        Some(t) => t,
        None => fallback,
    }
}

/// The file that an attachment of a message describes, with its name where
/// such attachments have one.
pub open spec fn described_file(doc: Json, named: bool) -> Option<AttachmentView> {
    match doc.at("file_id"@).as_text() {
        Some(id) => Some(
            AttachmentView {
                file_id: id,
                file_name: if named {
                    doc.at("file_name"@).as_text()
                } else {
                    None
                },
                file_size: integer_or(doc.at("file_size"@), 0),
            },
        ),
        None => None,
    }
}

/// The first of `keys` under which `msg` has a file.
pub open spec fn first_file(msg: Json, keys: Seq<Seq<char>>) -> Option<AttachmentView>
    decreases keys.len(),
{
    if keys.len() == 0 {
        None
    } else if described_file(msg.at(keys[0]), true) is Some {
        described_file(msg.at(keys[0]), true)
    } else {
        first_file(msg, keys.drop_first())
    }
}

/// The kinds of attachments that have a name, in order of priority.
pub open spec fn named_kinds() -> Seq<Seq<char>> {
    seq!["document"@, "video"@, "audio"@, "voice"@, "animation"@, "video_note"@]
}

/// The largest size of a photo: the last one.
pub open spec fn largest_photo(doc: Json) -> Option<AttachmentView> {
    match doc.as_list() {
        Some(sizes) => if sizes.len() > 0 {
            described_file(sizes.last(), false)
        } else {
            None
        },
        None => None,
    }
}

/// The attachment of a message: a file with a name, else the largest size of
/// a photo, else a sticker.
pub open spec fn attachment_of(msg: Json) -> Option<AttachmentView> {
    match first_file(msg, named_kinds()) {
        Some(a) => Some(a),
        None => match largest_photo(msg.at("photo"@)) {
            Some(a) => Some(a),
            None => described_file(msg.at("sticker"@), false),
        },
    }
}

/// The view of an optional attachment.
pub open spec fn opt_attachment(a: Option<Attachment>) -> Option<AttachmentView> {
    match a {
        Some(a) => Some(a@),
        None => None,
    }
}

fn owned_text(doc: &serde_json::Value) -> (r: Option<String>)
    ensures
        text::opt_text(r) == json::json_of(*doc).as_text(),
{
    match json::value_text(doc) {
        Some(t) => Some(t.to_owned()),
        None => None,
    }
}

fn integer_else(doc: &serde_json::Value, fallback: i64) -> (r: i64)
    ensures
        r == integer_or(json::json_of(*doc), fallback),
{
    match json::value_integer(doc) {
        Some(n) => n,
        None => fallback,
    }
}

fn text_else(doc: &serde_json::Value, fallback: &str) -> (r: String)
    ensures
        r@ == text_or(json::json_of(*doc), fallback@),
{
    match json::value_text(doc) {
        Some(t) => t.to_owned(),
        None => fallback.to_owned(),
    }
}

fn read_file_description(doc: &serde_json::Value, named: bool) -> (r: Option<Attachment>)
    ensures
        opt_attachment(r) == described_file(json::json_of(*doc), named),
{
    match json::value_text(json::member(doc, "file_id")) {
        Some(id) => {
            let file_name = if named {
                owned_text(json::member(doc, "file_name"))
            } else {
                None
            };
            let file_size: i64 = integer_else(json::member(doc, "file_size"), 0);
            Some(Attachment { file_id: id.to_owned(), file_name, file_size })
        },
        None => None,
    }
}

/// Pull the first downloadable attachment out of a message, returning its
/// Telegram `file_id`, a suggested filename (when the message provides one) and
/// its reported size. Checks the common attachment kinds in priority order.
pub fn extract_attachment(msg: &serde_json::Value) -> (r: Option<Attachment>)
    ensures
        opt_attachment(r) == attachment_of(json::json_of(*msg)),
{
    let ghost tree = json::json_of(*msg);
    let ghost kinds = named_kinds();
    let keys: [&str; 6] = ["document", "video", "audio", "voice", "animation", "video_note"];
    let mut i: usize = 0;
    proof {
        assert(kinds.skip(0) =~= kinds);
    }
    while i < 6
        invariant
            i <= 6,
            tree == json::json_of(*msg),
            kinds == named_kinds(),
            kinds.len() == 6,
            forall|k: int| 0 <= k < 6 ==> (#[trigger] keys@[k])@ == kinds[k],
            first_file(tree, kinds) == first_file(tree, kinds.skip(i as int)),
        decreases 6 - i,
    {
        let found = read_file_description(json::member(msg, keys[i]), true);
        proof {
            assert(kinds.skip(i as int)[0] == keys@[i as int]@);
            assert(kinds.skip(i as int).drop_first() =~= kinds.skip(i + 1));
        }
        if found.is_some() {
            return found;
        }
        i = i + 1;
    }
    proof {
        assert(first_file(tree, kinds) is None);
    }
    // Photos arrive as an array of sizes; the last entry is the largest.
    match json::value_list(json::member(msg, "photo")) {
        Some(sizes) => {
            if sizes.len() > 0 {
                let largest = read_file_description(&sizes[sizes.len() - 1], false);
                proof {
                    assert(json::json_list(sizes@).last() == json::json_of(sizes@.last()));
                }
                if largest.is_some() {
                    return largest;
                }
            }
        },
        None => {},
    }
    read_file_description(json::member(msg, "sticker"), false)
}

// ---- replies ----

/// One update: a message, and what of it matters here.
#[derive(Debug, PartialEq, Eq)]
pub struct Update {
    pub update_id: Option<i64>,
    pub from_id: i64,
    pub chat_id: i64,
    pub message_id: i64,
    pub caption: String,
    pub attachment: Option<Attachment>,
    pub text: Option<String>,
}

/// What an [`Update`] says.
pub struct UpdateView {
    pub update_id: Option<i64>,
    pub from_id: i64,
    pub chat_id: i64,
    pub message_id: i64,
    pub caption: Seq<char>,
    pub attachment: Option<AttachmentView>,
    pub text: Option<Seq<char>>,
}

impl View for Update {
    type V = UpdateView;

    open spec fn view(&self) -> UpdateView {
        UpdateView {
            update_id: self.update_id,
            from_id: self.from_id,
            chat_id: self.chat_id,
            message_id: self.message_id,
            caption: self.caption@,
            attachment: opt_attachment(self.attachment),
            text: text::opt_text(self.text),
        }
    }
}

/// The views of a list of updates.
pub open spec fn update_views(list: Seq<Update>) -> Seq<UpdateView> {
    list.map_values(|u: Update| u@)
}

/// What an entry of a getUpdates reply says. A sender that is missing counts
/// as 0, and a missing chat is the sender's own.
pub open spec fn update_of(doc: Json) -> UpdateView {
    let msg = doc.at("message"@);
    let from_id = integer_or(msg.at("from"@).at("id"@), 0);
    UpdateView {
        update_id: doc.at("update_id"@).as_integer(),
        from_id,
        chat_id: integer_or(msg.at("chat"@).at("id"@), from_id),
        message_id: integer_or(msg.at("message_id"@), 0),
        caption: text::trimmed(text_or(msg.at("caption"@), ""@)),
        attachment: attachment_of(msg),
        text: msg.at("text"@).as_text(),
    }
}

/// What an entry of a getUpdates reply says.
pub fn read_update(doc: &serde_json::Value) -> (r: Update)
    ensures
        r@ == update_of(json::json_of(*doc)),
{
    let msg = json::member(doc, "message");
    let from_id: i64 = integer_else(json::member(json::member(msg, "from"), "id"), 0);
    let caption = text_else(json::member(msg, "caption"), "");
    Update {
        update_id: json::value_integer(json::member(doc, "update_id")),
        from_id,
        chat_id: integer_else(json::member(json::member(msg, "chat"), "id"), from_id),
        message_id: integer_else(json::member(msg, "message_id"), 0),
        caption: text::trim(caption.as_str()),
        attachment: extract_attachment(msg),
        text: owned_text(json::member(msg, "text")),
    }
}

/// A reply to getUpdates.
#[derive(Debug, PartialEq, Eq)]
pub enum PollReply {
    /// The reply is no JSON document.
    Undecodable,
    /// The API refused.
    Rejected { code: i64, description: String },
    /// The updates, where the reply has a list of them.
    Accepted(Option<Vec<Update>>),
}

/// What a [`PollReply`] says.
pub enum PollReplyView {
    Undecodable,
    Rejected { code: i64, description: Seq<char> },
    Accepted(Option<Seq<UpdateView>>),
}

impl View for PollReply {
    type V = PollReplyView;

    open spec fn view(&self) -> PollReplyView {
        match *self {
            PollReply::Undecodable => PollReplyView::Undecodable,
            PollReply::Rejected { code, description } => PollReplyView::Rejected {
                code,
                description: description@,
            },
            PollReply::Accepted(None) => PollReplyView::Accepted(None),
            PollReply::Accepted(Some(list)) => PollReplyView::Accepted(
                Some(update_views(list@)),
            ),
        }
    }
}

/// Whether the API granted what was asked.
pub open spec fn granted(doc: Json) -> bool {
    doc.at("ok"@).as_bool() == Some(true)
}

/// What the entries of a list of updates say.
pub open spec fn updates_of(list: Seq<Json>) -> Seq<UpdateView> {
    list.map_values(|d: Json| update_of(d))
}

/// What a reply to getUpdates says.
pub open spec fn poll_reply_of(doc: Option<Json>) -> PollReplyView {
    match doc {
        None => PollReplyView::Undecodable,
        Some(d) => if !granted(d) {
            PollReplyView::Rejected {
                code: integer_or(d.at("error_code"@), 0),
                description: text_or(d.at("description"@), "getUpdates error"@),
            }
        } else {
            match d.at("result"@).as_list() {
                Some(list) => PollReplyView::Accepted(Some(updates_of(list))),
                None => PollReplyView::Accepted(None),
            }
        },
    }
}

fn is_granted(doc: &serde_json::Value) -> (r: bool)
    ensures
        r == granted(json::json_of(*doc)),
{
    match json::value_bool(json::member(doc, "ok")) {
        Some(ok) => ok,
        None => false,
    }
}

/// What a reply to getUpdates, parsed already, says.
pub fn poll_reply(doc: &serde_json::Value) -> (r: PollReply)
    ensures
        r@ == poll_reply_of(Some(json::json_of(*doc))),
{
    if !is_granted(doc) {
        return PollReply::Rejected {
            code: integer_else(json::member(doc, "error_code"), 0),
            description: text_else(json::member(doc, "description"), "getUpdates error"),
        };
    }
    match json::value_list(json::member(doc, "result")) {
        Some(list) => {
            let ghost trees = json::json_list(list@);
            let mut updates: Vec<Update> = Vec::new();
            let mut i: usize = 0;
            while i < list.len()
                invariant
                    i <= list@.len(),
                    trees == json::json_list(list@),
                    updates@.len() == i,
                    forall|k: int| 0 <= k < i ==> (#[trigger] updates@[k])@ == update_of(trees[k]),
                decreases list@.len() - i,
            {
                let u = read_update(&list[i]);
                proof {
                    assert(trees[i as int] == json::json_of(list@[i as int]));
                }
                updates.push(u);
                i = i + 1;
            }
            proof {
                assert(update_views(updates@) =~= updates_of(trees));
            }
            PollReply::Accepted(Some(updates))
        },
        None => PollReply::Accepted(None),
    }
}

/// What the body of a reply to getUpdates says.
pub fn read_poll_reply(body: &[u8]) -> (r: PollReply)
    ensures
        r@ == poll_reply_of(json::parsed(body@)),
{
    match json::parse_json(body) {
        Some(doc) => poll_reply(&doc),
        None => PollReply::Undecodable,
    }
}

/// What getMe tells: the bot's username, or why it does not.
pub open spec fn identity_of(doc: Option<Json>, token: Seq<char>) -> Result<Seq<char>, Seq<char>> {
    match doc {
        None => Err(redact::scrubbed(UNDECODABLE@, token)),
        Some(d) => if !granted(d) {
            Err(redact::scrubbed(text_or(d.at("description"@), "invalid token"@), token))
        } else {
            Ok(text_or(d.at("result"@).at("username"@), "unknown"@))
        },
    }
}

/// The view of a result of two texts.
pub open spec fn text_result(r: Result<String, String>) -> Result<Seq<char>, Seq<char>> {
    match r {
        Ok(t) => Ok(t@),
        Err(e) => Err(e@),
    }
}

/// What a reply to getMe, parsed already, tells.
pub fn identity(doc: &serde_json::Value, token: &str) -> (r: Result<String, String>)
    ensures
        text_result(r) == identity_of(Some(json::json_of(*doc)), token@),
{
    if !is_granted(doc) {
        let description = text_else(json::member(doc, "description"), "invalid token");
        return Err(redact::scrub(description, token));
    }
    Ok(text_else(json::member(json::member(doc, "result"), "username"), "unknown"))
}

/// What the body of a reply to getMe tells: the bot's @username, or why the
/// token is no good.
pub fn read_identity(body: &[u8], token: &str) -> (r: Result<String, String>)
    ensures
        text_result(r) == identity_of(json::parsed(body@), token@),
{
    match json::parse_json(body) {
        Some(doc) => identity(&doc, token),
        None => Err(redact::scrub(UNDECODABLE.to_owned(), token)),
    }
}

/// A failed download. `permanent` means Telegram itself rejected the file (e.g.
/// it exceeds getFile's ~20 MB download limit), so retrying can't help and the
/// caller should skip past the message instead of blocking on it.
#[derive(Debug, PartialEq, Eq)]
pub struct DownloadError {
    pub permanent: bool,
    pub msg: String,
}

/// What a [`DownloadError`] says.
pub struct DownloadErrorView {
    pub permanent: bool,
    pub msg: Seq<char>,
}

impl View for DownloadError {
    type V = DownloadErrorView;

    open spec fn view(&self) -> DownloadErrorView {
        DownloadErrorView { permanent: self.permanent, msg: self.msg@ }
    }
}

impl DownloadError {
    /// A failure that may pass.
    pub fn transient(msg: String) -> (r: DownloadError)
        ensures
            r@ == (DownloadErrorView { permanent: false, msg: msg@ }),
    {
        DownloadError { permanent: false, msg }
    }

    /// A failure that stays.
    pub fn permanent(msg: String) -> (r: DownloadError)
        ensures
            r@ == (DownloadErrorView { permanent: true, msg: msg@ }),
    {
        DownloadError { permanent: true, msg }
    }
}

/// The view of the outcome of a download.
pub open spec fn download_result(r: Result<String, DownloadError>) -> Result<
    Seq<char>,
    DownloadErrorView,
> {
    match r {
        Ok(t) => Ok(t@),
        Err(e) => Err(e@),
    }
}

/// What getFile tells: the path of the file, or why it does not.
pub open spec fn file_info_of(doc: Option<Json>, token: Seq<char>) -> Result<
    Seq<char>,
    DownloadErrorView,
> {
    match doc {
        None => Err(
            DownloadErrorView { permanent: false, msg: redact::scrubbed(UNDECODABLE@, token) },
        ),
        Some(d) => if !granted(d) {
            Err(
                DownloadErrorView {
                    permanent: true,
                    msg: redact::scrubbed(text_or(d.at("description"@), "getFile failed"@), token),
                },
            )
        } else {
            match d.at("result"@).at("file_path"@).as_text() {
                Some(path) => Ok(path),
                None => Err(
                    DownloadErrorView { permanent: true, msg: "getFile returned no file_path"@ },
                ),
            }
        },
    }
}

/// What a reply to getFile, parsed already, tells.
pub fn file_info(doc: &serde_json::Value, token: &str) -> (r: Result<String, DownloadError>)
    ensures
        download_result(r) == file_info_of(Some(json::json_of(*doc)), token@),
{
    if !is_granted(doc) {
        let description = text_else(json::member(doc, "description"), "getFile failed");
        return Err(DownloadError::permanent(redact::scrub(description, token)));
    }
    match owned_text(json::member(json::member(doc, "result"), "file_path")) {
        Some(path) => Ok(path),
        None => Err(DownloadError::permanent("getFile returned no file_path".to_owned())),
    }
}

/// What the body of a reply to getFile tells: the path of the file on
/// Telegram's servers, or on disk where the server is a local one.
pub fn read_file_info(body: &[u8], token: &str) -> (r: Result<String, DownloadError>)
    ensures
        download_result(r) == file_info_of(json::parsed(body@), token@),
{
    match json::parse_json(body) {
        Some(doc) => file_info(&doc, token),
        None => Err(DownloadError::transient(redact::scrub(UNDECODABLE.to_owned(), token))),
    }
}

/// Whether a reply says that a message was accepted.
pub open spec fn accepted(doc: Option<Json>) -> bool {
    doc is Some && granted(doc->0)
}

/// Whether a reply, parsed already, says that a message was accepted.
pub fn is_accepted(doc: &serde_json::Value) -> (r: bool)
    ensures
        r == accepted(Some(json::json_of(*doc))),
{
    is_granted(doc)
}

/// Whether the body of a reply says that a message was accepted.
pub fn read_accepted(body: &[u8]) -> (r: bool)
    ensures
        r == accepted(json::parsed(body@)),
{
    match json::parse_json(body) {
        Some(doc) => is_accepted(&doc),
        None => false,
    }
}

// ---- what the replies promise ----

/// No error of getMe holds the token, whatever the reply.
pub proof fn identity_errors_hold_no_token(doc: Option<Json>, token: Seq<char>)
    requires
        token.len() > 0,
        !redact::can_overlap(token, redact::marker()),
    ensures
        identity_of(doc, token) matches Err(e) ==> !redact::contains_text(e, token),
{
    redact::scrubbing_removes_the_token(UNDECODABLE@, token);
    if doc is Some {
        redact::scrubbing_removes_the_token(
            text_or(doc->0.at("description"@), "invalid token"@),
            token,
        );
    }
}

/// No error of getFile holds the token, whatever the reply, as long as the
/// library's own words do not.
pub proof fn file_info_errors_hold_no_token(doc: Option<Json>, token: Seq<char>)
    requires
        token.len() > 0,
        !redact::can_overlap(token, redact::marker()),
        !redact::contains_text("getFile returned no file_path"@, token),
    ensures
        file_info_of(doc, token) matches Err(e) ==> !redact::contains_text(e.msg, token),
{
    redact::scrubbing_removes_the_token(UNDECODABLE@, token);
    if doc is Some {
        redact::scrubbing_removes_the_token(
            text_or(doc->0.at("description"@), "getFile failed"@),
            token,
        );
    }
}

} // verus!
