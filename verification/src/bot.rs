//! The start of a bot, and what is done for it locally.

use vstd::prelude::*;
use vstd::string::*;
use crate::config::BotConfig;
use crate::config::BotConfigView;
use crate::daily;
use crate::paths;
use crate::server;
use crate::status::BotStatus;
use crate::status::StatusView;
use crate::text;

verus! {

/// What a bot runs with.
#[derive(Debug, PartialEq, Eq)]
pub struct StartPlan {
    /// The origin of the Bot API.
    pub base: String,
    /// Where received files go.
    pub save_dir: String,
    /// The file of the download journal.
    pub journal_file: String,
    /// The chat that the file is sent to once a day, where it is.
    pub daily_chat: Option<i64>,
}

/// What a [`StartPlan`] says.
pub struct StartPlanView {
    pub base: Seq<char>,
    pub save_dir: Seq<char>,
    pub journal_file: Seq<char>,
    pub daily_chat: Option<i64>,
}

impl View for StartPlan {
    type V = StartPlanView;

    open spec fn view(&self) -> StartPlanView {
        StartPlanView {
            base: self.base@,
            save_dir: self.save_dir@,
            journal_file: self.journal_file@,
            daily_chat: self.daily_chat,
        }
    }
}

/// What a bot runs with, where the local server listens on `server_port` if it
/// is running.
pub open spec fn start_plan(
    bot: BotConfigView,
    status_path: Seq<char>,
    server_port: Option<u16>,
) -> StartPlanView {
    StartPlanView {
        base: server::routed_base(bot.api_base, server_port),
        save_dir: paths::save_dir(bot.file, bot.files_dir),
        journal_file: paths::journal_place(status_path, bot.id),
        daily_chat: if daily::active(bot.daily_send, bot.allowed_user_id) {
            Some(bot.allowed_user_id)
        } else {
            None
        },
    }
}

fn as_str_opt(s: &Option<String>) -> (r: Option<&str>)
    ensures
        text::opt_str(r) == text::opt_text(*s),
{
    match s {
        Some(t) => Some(t.as_str()),
        None => None,
    }
}

/// What a bot runs with, where the local server listens on `server_port` if it
/// is running.
pub fn plan_start(bot: &BotConfig, status_path: &str, server_port: Option<u16>) -> (r: StartPlan)
    ensures
        r@ == start_plan(bot@, status_path@, server_port),
{
    StartPlan {
        base: server::route_api_base(as_str_opt(&bot.api_base), server_port),
        save_dir: paths::resolve_save_dir(bot.file.as_str(), as_str_opt(&bot.files_dir)),
        journal_file: paths::journal_path(status_path, bot.id.as_str()),
        daily_chat: if daily::is_active(bot.daily_send, bot.allowed_user_id) {
            Some(bot.allowed_user_id)
        } else {
            None
        },
    }
}

/// Readies a status for a start: where no daily send is active, an error of an
/// earlier one is forgotten. It would otherwise only be cleared by a successful
/// send, which can't happen any more.
pub fn ready_status(plan: &StartPlan, status: &mut BotStatus)
    ensures
        final(status)@ == (if plan.daily_chat is None {
            StatusView { last_daily_error: None, ..old(status)@ }
        } else {
            old(status)@
        }),
{
    if plan.daily_chat.is_none() {
        status.clear_daily_error();
    }
}

/// What is reported where a bot has no markdown file.
pub const NO_FILE_PATH: &'static str = "no file path set for this bot";

/// Whether a markdown file can be opened: its path must be set.
pub fn check_note_path(file: &str) -> (r: Result<(), String>)
    ensures
        match r {
            Ok(()) => text::trimmed(file@).len() > 0,
            Err(e) => text::trimmed(file@).len() == 0 && e@ == NO_FILE_PATH@,
        },
{
    if text::is_blank(file) {
        Err(NO_FILE_PATH.to_owned())
    } else {
        Ok(())
    }
}

/// A bot without an owner sends no file: leaving the user id at 0 disables the
/// daily send.
pub proof fn without_an_owner_nothing_is_sent(
    bot: BotConfigView,
    status_path: Seq<char>,
    server_port: Option<u16>,
)
    requires
        bot.allowed_user_id == 0,
    ensures
        start_plan(bot, status_path, server_port).daily_chat is None,
{
}

/// The file is sent to nobody but the owner.
pub proof fn files_are_sent_to_the_owner(
    bot: BotConfigView,
    status_path: Seq<char>,
    server_port: Option<u16>,
)
    ensures
        start_plan(bot, status_path, server_port).daily_chat matches Some(chat) ==> chat
            == bot.allowed_user_id && bot.daily_send,
{
}

} // verus!
