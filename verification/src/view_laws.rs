//! What a value says is what its fields hold.
//!
//! Contracts speak of views. These laws tie the views to the values that
//! callers hand over and get back.

use vstd::prelude::*;
use crate::api;
use crate::api::Attachment;
use crate::api::DownloadError;
use crate::api::Get;
use crate::api::PollReply;
use crate::api::PollReplyView;
use crate::api::Post;
use crate::api::Update;
use crate::bot::StartPlan;
use crate::config;
use crate::config::BotConfig;
use crate::config::BotView;
use crate::config::Config;
use crate::config::ServerConfig;
use crate::daily;
use crate::download;
use crate::journal;
use crate::journal::PendingDownload;
use crate::json;
use crate::poll;
use crate::secrets;
use crate::secrets::KeychainEntry;
use crate::server::Launch;
use crate::status::BotStatus;
use crate::text;
use crate::worker;

verus! {

/// Whether an optional text is that of an optional string.
pub open spec fn same_words(words: Option<Seq<char>>, s: Option<String>) -> bool {
    match s {
        Some(t) => words == Some(t@),
        None => words is None,
    }
}

/// Optional strings, results and lists say what they hold, each entry in its
/// place.
pub proof fn texts_are_viewed_in_place(
    s: Option<String>,
    r: Option<&str>,
    list: Seq<String>,
    pairs: Seq<(String, String)>,
    result: Result<String, String>,
    told: Result<String, DownloadError>,
)
    ensures
        same_words(text::opt_text(s), s),
        match r {
            Some(t) => text::opt_str(r) == Some(t@),
            None => text::opt_str(r) is None,
        },
        text::texts(list).len() == list.len(),
        forall|i: int| 0 <= i < list.len() ==> #[trigger] text::texts(list)[i] == list[i]@,
        config::pair_views(pairs).len() == pairs.len(),
        forall|i: int|
            0 <= i < pairs.len() ==> (#[trigger] config::pair_views(pairs)[i]).0 == pairs[i].0@
                && config::pair_views(pairs)[i].1 == pairs[i].1@,
        match result {
            Ok(t) => api::text_result(result) == Ok::<Seq<char>, Seq<char>>(t@),
            Err(e) => api::text_result(result) == Err::<Seq<char>, Seq<char>>(e@),
        },
        match told {
            Ok(t) => api::download_result(told) is Ok && api::download_result(told)->Ok_0 == t@,
            Err(e) => api::download_result(told) is Err && api::download_result(told)->Err_0.msg
                == e.msg@ && api::download_result(told)->Err_0.permanent == e.permanent,
        },
{
}

/// A status says what its fields hold.
pub proof fn statuses_say_their_fields(s: BotStatus)
    ensures
        s@.running == s.running,
        same_words(s@.username, s.username),
        same_words(s@.last_error, s.last_error),
        same_words(s@.last_daily_error, s.last_daily_error),
        same_words(s@.last_message_at, s.last_message_at),
        s@.message_count == s.message_count,
        s@.offset == s.offset,
{
}

/// So does a job, and a list of jobs says what each of them does.
pub proof fn jobs_say_their_fields(j: PendingDownload, list: Seq<PendingDownload>)
    ensures
        j@.update_id == j.update_id,
        j@.file_id == j.file_id@,
        same_words(j@.file_name, j.file_name),
        j@.caption == j.caption@,
        j@.chat_id == j.chat_id,
        j@.message_id == j.message_id,
        journal::job_views(list).len() == list.len(),
        forall|i: int| 0 <= i < list.len() ==> #[trigger] journal::job_views(list)[i] == list[i]@,
{
}

/// So do the settings.
pub proof fn settings_say_their_fields(
    b: BotConfig,
    s: ServerConfig,
    c: Config,
    list: Seq<BotConfig>,
    rows: Seq<BotView>,
)
    ensures
        b@.id == b.id@,
        b@.name == b.name@,
        b@.token == b.token@,
        b@.file == b.file@,
        same_words(b@.files_dir, b.files_dir),
        b@.allowed_user_id == b.allowed_user_id,
        same_words(b@.api_base, b.api_base),
        b@.enabled == b.enabled,
        same_words(b@.shortcut, b.shortcut),
        b@.daily_send == b.daily_send,
        b@.daily_time == b.daily_time@,
        s@.enabled == s.enabled,
        same_words(s@.bin_path, s.bin_path),
        s@.port == s.port,
        s@.api_id == s.api_id,
        s@.api_hash == s.api_hash@,
        c@.server == c.server@,
        c@.bots.len() == c.bots@.len(),
        forall|i: int| 0 <= i < c.bots@.len() ==> #[trigger] c@.bots[i] == c.bots@[i]@,
        config::bot_views(list).len() == list.len(),
        forall|i: int| 0 <= i < list.len() ==> #[trigger] config::bot_views(list)[i] == list[i]@,
        config::row_views(rows).len() == rows.len(),
        forall|i: int|
            0 <= i < rows.len() ==> (#[trigger] config::row_views(rows)[i]).0 == rows[i].bot@
                && config::row_views(rows)[i].1 == rows[i].status@,
{
}

/// So do updates, with their attachments, and the replies that bring them.
pub proof fn updates_say_their_fields(u: Update, a: Attachment, r: PollReply, list: Seq<Update>)
    ensures
        u@.update_id == u.update_id,
        u@.from_id == u.from_id,
        u@.chat_id == u.chat_id,
        u@.message_id == u.message_id,
        u@.caption == u.caption@,
        same_words(u@.text, u.text),
        match u.attachment {
            Some(f) => u@.attachment == Some(f@),
            None => u@.attachment is None,
        },
        a@.file_id == a.file_id@,
        same_words(a@.file_name, a.file_name),
        a@.file_size == a.file_size,
        api::update_views(list).len() == list.len(),
        forall|i: int| 0 <= i < list.len() ==> #[trigger] api::update_views(list)[i] == list[i]@,
        match r {
            PollReply::Undecodable => r@ == PollReplyView::Undecodable,
            PollReply::Rejected { code, description } => r@ == PollReplyView::Rejected {
                code,
                description: description@,
            },
            PollReply::Accepted(None) => r@ == PollReplyView::Accepted(None),
            PollReply::Accepted(Some(v)) => r@ == PollReplyView::Accepted(
                Some(api::update_views(v@)),
            ),
        },
{
}

/// So do requests, errors, entries of the Keychain, plans and launches.
pub proof fn requests_and_plans_say_their_fields(
    g: Get,
    p: Post,
    e: DownloadError,
    k: KeychainEntry,
    s: StartPlan,
    l: Launch,
)
    ensures
        g@.url == g.url@,
        g@.timeout_secs == g.timeout_secs,
        g@.query.len() == g.query@.len(),
        forall|i: int|
            0 <= i < g.query@.len() ==> (#[trigger] g@.query[i]).0 == g.query@[i].0@
                && g@.query[i].1 == g.query@[i].1@,
        p@.url == p.url@,
        p@.timeout_secs == p.timeout_secs,
        p@.body == json::json_of(p.body),
        e@.permanent == e.permanent,
        e@.msg == e.msg@,
        k@.service == k.service@,
        k@.account == k.account@,
        s@.base == s.base@,
        s@.save_dir == s.save_dir@,
        s@.journal_file == s.journal_file@,
        s@.daily_chat == s.daily_chat,
        l@.binary == l.binary@,
        l@.temp_dir == l.temp_dir@,
        l@.port == l.port,
        l@.args.len() == l.args@.len(),
        forall|i: int| 0 <= i < l.args@.len() ==> #[trigger] l@.args[i] == l.args@[i]@,
{
}

/// What the poller is told and asks for is what the event and the action hold.
pub proof fn polling_says_its_fields(e: poll::Event, a: poll::Action)
    ensures
        match e {
            poll::Event::Reply(r) => e@ == poll::EventView::Reply(r@),
            poll::Event::Unreachable { timed_out, message } => e@ == poll::EventView::Unreachable {
                timed_out,
                message: message@,
            },
            poll::Event::Done => e@ == poll::EventView::Done,
            poll::Event::Appended { at } => e@ == poll::EventView::Appended { at: at@ },
            poll::Event::AppendFailed { message } => e@ == poll::EventView::AppendFailed {
                message: message@,
            },
        },
        match a {
            poll::Action::Poll { offset } => a@ == poll::ActionView::Poll { offset },
            poll::Action::Rest { secs } => a@ == poll::ActionView::Rest { secs },
            poll::Action::Next => a@ == poll::ActionView::Next,
            poll::Action::Append { note } => a@ == poll::ActionView::Append { note: note@ },
            poll::Action::Queue { job } => a@ == poll::ActionView::Queue { job: job@ },
            poll::Action::React { chat_id, message_id } => a@ == poll::ActionView::React {
                chat_id,
                message_id,
            },
            poll::Action::Send { chat_id, message } => a@ == poll::ActionView::Send {
                chat_id,
                message: message@,
            },
            poll::Action::PersistStatus => a@ == poll::ActionView::PersistStatus,
        },
{
}

/// The same of the worker.
pub proof fn working_says_its_fields(e: worker::Event, a: worker::Action)
    ensures
        match e {
            worker::Event::Job { job } => e@ == worker::EventView::Job { job: job@ },
            worker::Event::Saved { dest, size } => e@ == worker::EventView::Saved {
                dest: dest@,
                size,
            },
            worker::Event::Failed { error } => e@ == worker::EventView::Failed { error: error@ },
            worker::Event::Appended { at } => e@ == worker::EventView::Appended { at: at@ },
            worker::Event::AppendFailed { message } => e@ == worker::EventView::AppendFailed {
                message: message@,
            },
            worker::Event::Done => e@ == worker::EventView::Done,
        },
        match a {
            worker::Action::Receive => a@ == worker::ActionView::Receive,
            worker::Action::Attempt { job } => a@ == worker::ActionView::Attempt { job: job@ },
            worker::Action::Rest { secs } => a@ == worker::ActionView::Rest { secs },
            worker::Action::Append { note } => a@ == worker::ActionView::Append { note: note@ },
            worker::Action::PersistStatus => a@ == worker::ActionView::PersistStatus,
            worker::Action::React { chat_id, message_id } => a@ == worker::ActionView::React {
                chat_id,
                message_id,
            },
            worker::Action::Send { chat_id, message } => a@ == worker::ActionView::Send {
                chat_id,
                message: message@,
            },
            worker::Action::PersistJournal => a@ == worker::ActionView::PersistJournal,
        },
{
}

/// The same of a download.
pub proof fn downloading_says_its_fields(e: download::Event, a: download::Action)
    ensures
        match e {
            download::Event::Unreachable { message } => e@ == download::EventView::Unreachable {
                message: message@,
            },
            download::Event::Info { found } => e@ == download::EventView::Info {
                found: api::download_result(found),
            },
            download::Event::DirReady { now } => e@ == download::EventView::DirReady { now },
            download::Event::DirFailed { message } => e@ == download::EventView::DirFailed {
                message: message@,
            },
            download::Event::Probed { exists } => e@ == download::EventView::Probed { exists },
            download::Event::Copied => e@ == download::EventView::Copied,
            download::Event::CopyFailed { message } => e@ == download::EventView::CopyFailed {
                message: message@,
            },
            download::Event::Removed => e@ == download::EventView::Removed,
            download::Event::Answered { http_status } => e@ == download::EventView::Answered {
                http_status,
            },
            download::Event::Written => e@ == download::EventView::Written,
            download::Event::WriteFailed { message } => e@ == download::EventView::WriteFailed {
                message: message@,
            },
        },
        match a {
            download::Action::Prepare { dir } => a@ == download::ActionView::Prepare { dir: dir@ },
            download::Action::Probe { path } => a@ == download::ActionView::Probe { path: path@ },
            download::Action::Copy { from, to } => a@ == download::ActionView::Copy {
                from: from@,
                to: to@,
            },
            download::Action::Remove { path } => a@ == download::ActionView::Remove { path: path@ },
            download::Action::Fetch { request } => a@ == download::ActionView::Fetch {
                request: request@,
            },
            download::Action::Save { path } => a@ == download::ActionView::Save { path: path@ },
            download::Action::Finish { outcome } => a@ == download::ActionView::Finish {
                outcome: api::download_result(outcome),
            },
        },
{
}

/// The same of the daily send and of the Keychain.
pub proof fn daily_and_secrets_say_their_fields(
    e: daily::Event,
    a: daily::Action,
    f: secrets::Event,
    b: secrets::Action,
)
    ensures
        match e {
            daily::Event::Tick { now } => e@ == daily::EventView::Tick { now },
            daily::Event::Content { content } => e@ == daily::EventView::Content {
                content: content@,
            },
            daily::Event::Unreadable { message } => e@ == daily::EventView::Unreadable {
                message: message@,
            },
            daily::Event::Sent { accepted } => e@ == daily::EventView::Sent { accepted },
        },
        match a {
            daily::Action::Wait => a@ == daily::ActionView::Wait,
            daily::Action::Read => a@ == daily::ActionView::Read,
            daily::Action::Send { message } => a@ == daily::ActionView::Send { message: message@ },
        },
        match f {
            secrets::Event::Found { token } => f@ is Found && same_words(f@->token, token),
            secrets::Event::Stored { accepted } => f@ == secrets::EventView::Stored { accepted },
        },
        match b {
            secrets::Action::Read { entry } => b@ == secrets::ActionView::Read { entry: entry@ },
            secrets::Action::Store { entry, token } => b@ == secrets::ActionView::Store {
                entry: entry@,
                token: token@,
            },
            secrets::Action::Done { migrated } => b@ == secrets::ActionView::Done { migrated },
        },
{
}

} // verus!
