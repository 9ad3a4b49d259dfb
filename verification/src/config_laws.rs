//! Lists of bots and jobs, and what changes in them.

use vstd::prelude::*;
use crate::bot;
use crate::config;
use crate::config::BotConfigView;
use crate::config::BotSettings;
use crate::config::ConfigView;
use crate::journal;
use crate::journal::PendingView;
use crate::paths;
use crate::server;
use crate::status::StatusBoard;
use crate::text;

verus! {

// ---- settings ----

/// What the user sets is what the bot has. What was left out of the last four
/// stays as it was, and the id stays in any case.
pub proof fn settings_are_what_was_set(s: BotSettings, bot: BotConfigView)
    ensures
        ({
            let r = s.applied(bot);
            &&& r.id == bot.id
            &&& r.name == s.name@
            &&& r.token == s.token@
            &&& r.file == s.file@
            &&& r.allowed_user_id == s.allowed_user_id
            &&& r.enabled == s.enabled
            &&& s.shortcut matches Some(k) ==> r.shortcut == Some(k@)
            &&& s.shortcut is None ==> r.shortcut is None
            &&& s.files_dir matches Some(d) ==> r.files_dir == Some(d@)
            &&& s.files_dir is None ==> r.files_dir == bot.files_dir
            &&& s.api_base matches Some(a) ==> r.api_base == Some(a@)
            &&& s.api_base is None ==> r.api_base == bot.api_base
            &&& s.daily_send matches Some(d) ==> r.daily_send == d
            &&& s.daily_send is None ==> r.daily_send == bot.daily_send
            &&& s.daily_time matches Some(t) ==> r.daily_time == t@
            &&& s.daily_time is None ==> r.daily_time == bot.daily_time
        }),
{
}

/// A new bot has what was set, and for the rest: no folder of its own, the
/// public API, and no daily send, or one at eight.
pub proof fn new_bots_start_plain(s: BotSettings, id: Seq<char>)
    ensures
        ({
            let r = s.applied(config::unset_bot(id));
            &&& r.id == id
            &&& s.files_dir is None ==> r.files_dir is None
            &&& s.api_base is None ==> r.api_base is None
            &&& s.daily_send is None ==> !r.daily_send
            &&& s.daily_time is None ==> r.daily_time == "08:00"@
        }),
{
}

/// Making the same settings twice is making them once.
pub proof fn settings_are_made_once(s: BotSettings, bot: BotConfigView)
    ensures
        s.applied(s.applied(bot)) == s.applied(bot),
{
}

/// The server's port is the one that was configured, and 8081 where that is 0.
pub proof fn ports_are_kept(port: u16)
    ensures
        port != 0 ==> config::port_used(port) == port,
        config::port_used(0) == 8081,
{
}

/// What goes to disk is everything but the tokens and the server's hash.
pub proof fn all_but_the_secrets_is_stored(c: ConfigView)
    ensures
        ({
            let r = c.without_secrets();
            &&& r.bots.len() == c.bots.len()
            &&& forall|i: int|
                0 <= i < c.bots.len() ==> {
                    let b = c.bots[i];
                    let k = #[trigger] r.bots[i];
                    &&& k.token.len() == 0
                    &&& k.id == b.id
                    &&& k.name == b.name
                    &&& k.file == b.file
                    &&& k.files_dir == b.files_dir
                    &&& k.allowed_user_id == b.allowed_user_id
                    &&& k.api_base == b.api_base
                    &&& k.enabled == b.enabled
                    &&& k.shortcut == b.shortcut
                    &&& k.daily_send == b.daily_send
                    &&& k.daily_time == b.daily_time
                }
            &&& r.server.api_hash.len() == 0
            &&& r.server.enabled == c.server.enabled
            &&& r.server.bin_path == c.server.bin_path
            &&& r.server.port == c.server.port
            &&& r.server.api_id == c.server.api_id
        }),
{
}

// ---- lists ----

/// A bot is found at its first place: nobody in front of it has its id.
pub proof fn bots_are_found_at_their_first_place(
    front: Seq<BotConfigView>,
    bot: BotConfigView,
    rest: Seq<BotConfigView>,
)
    requires
        forall|i: int| 0 <= i < front.len() ==> (#[trigger] front[i]).id != bot.id,
    ensures
        config::index_of(front + seq![bot] + rest, bot.id) == front.len(),
        config::has_bot(front + seq![bot] + rest, bot.id),
        !config::has_bot(front, bot.id),
{
    let all = front + seq![bot] + rest;
    assert(all[front.len() as int].id == bot.id);
    config::lemma_index_of(all, bot.id);
    let k = config::index_of(all, bot.id) as int;
    if k < front.len() {
        assert(all[k] == front[k]);
    }
}

/// Removing takes out the bots of that id and leaves the others in order.
pub proof fn removing_goes_bot_by_bot(
    a: Seq<BotConfigView>,
    b: Seq<BotConfigView>,
    bot: BotConfigView,
    id: Seq<char>,
)
    ensures
        config::without_bot(a + b, id) == config::without_bot(a, id) + config::without_bot(b, id),
        bot.id == id ==> config::without_bot(seq![bot], id).len() == 0,
        bot.id != id ==> config::without_bot(seq![bot], id) == seq![bot],
    decreases b.len(),
{
    reveal_with_fuel(config::without_bot, 2);
    assert(seq![bot].drop_last() =~= Seq::empty());
    assert(Seq::<BotConfigView>::empty().push(bot) =~= seq![bot]);
    if b.len() == 0 {
        assert(a + b =~= a);
        assert(config::without_bot(a, id) + config::without_bot(b, id) =~= config::without_bot(
            a,
            id,
        ));
    } else {
        removing_goes_bot_by_bot(a, b.drop_last(), bot, id);
        assert((a + b).drop_last() =~= a + b.drop_last());
        assert((a + b).last() == b.last());
        assert(config::without_bot(a + b, id) =~= config::without_bot(a, id)
            + config::without_bot(b, id));
    }
}

/// The bots that run are those that are enabled, in their order.
pub proof fn enabled_bots_go_bot_by_bot(
    a: Seq<BotConfigView>,
    b: Seq<BotConfigView>,
    bot: BotConfigView,
)
    ensures
        config::enabled_of(a + b) == config::enabled_of(a) + config::enabled_of(b),
        bot.enabled ==> config::enabled_of(seq![bot]) == seq![bot],
        !bot.enabled ==> config::enabled_of(seq![bot]).len() == 0,
    decreases b.len(),
{
    reveal_with_fuel(config::enabled_of, 2);
    assert(seq![bot].drop_last() =~= Seq::empty());
    assert(Seq::<BotConfigView>::empty().push(bot) =~= seq![bot]);
    if b.len() == 0 {
        assert(a + b =~= a);
        assert(config::enabled_of(a) + config::enabled_of(b) =~= config::enabled_of(a));
    } else {
        enabled_bots_go_bot_by_bot(a, b.drop_last(), bot);
        assert((a + b).drop_last() =~= a + b.drop_last());
        assert((a + b).last() == b.last());
        assert(config::enabled_of(a + b) =~= config::enabled_of(a) + config::enabled_of(b));
    }
}

/// The hotkeys are those that are set and not blank, as they were set, each
/// with its own bot's id, in the bots' order. Disabled bots have theirs, too.
pub proof fn hotkeys_go_bot_by_bot(
    a: Seq<BotConfigView>,
    b: Seq<BotConfigView>,
    bot: BotConfigView,
)
    ensures
        config::hotkeys_of(a + b) == config::hotkeys_of(a) + config::hotkeys_of(b),
        bot.shortcut is None ==> config::hotkeys_of(seq![bot]).len() == 0,
        bot.shortcut matches Some(k) ==> {
            &&& text::trimmed(k).len() == 0 ==> config::hotkeys_of(seq![bot]).len() == 0
            &&& text::trimmed(k).len() > 0 ==> config::hotkeys_of(seq![bot]) == seq![(k, bot.id)]
        },
    decreases b.len(),
{
    reveal_with_fuel(config::hotkeys_of, 2);
    assert(seq![bot].drop_last() =~= Seq::empty());
    if bot.shortcut is Some {
        assert(Seq::<(Seq<char>, Seq<char>)>::empty().push((bot.shortcut->0, bot.id)) =~= seq![
            (bot.shortcut->0, bot.id),
        ]);
    }
    if b.len() == 0 {
        assert(a + b =~= a);
        assert(config::hotkeys_of(a) + config::hotkeys_of(b) =~= config::hotkeys_of(a));
    } else {
        hotkeys_go_bot_by_bot(a, b.drop_last(), bot);
        assert((a + b).drop_last() =~= a + b.drop_last());
        assert((a + b).last() == b.last());
        assert(config::hotkeys_of(a + b) =~= config::hotkeys_of(a) + config::hotkeys_of(b));
    }
}

/// Closing a job takes out the jobs of that update and leaves the others in
/// order.
pub proof fn closing_goes_job_by_job(
    a: Seq<PendingView>,
    b: Seq<PendingView>,
    job: PendingView,
    id: i64,
)
    ensures
        journal::without_job(a + b, id) == journal::without_job(a, id) + journal::without_job(
            b,
            id,
        ),
        job.update_id == id ==> journal::without_job(seq![job], id).len() == 0,
        job.update_id != id ==> journal::without_job(seq![job], id) == seq![job],
        journal::has_job(a + b, id) <==> journal::has_job(a, id) || journal::has_job(b, id),
        journal::has_job(seq![job], id) <==> job.update_id == id,
    decreases b.len(),
{
    reveal_with_fuel(journal::without_job, 2);
    assert(seq![job].drop_last() =~= Seq::empty());
    assert(Seq::<PendingView>::empty().push(job) =~= seq![job]);
    assert(seq![job][0].update_id == job.update_id);
    if journal::has_job(a + b, id) {
        let i = choose|i: int| 0 <= i < (a + b).len() && (#[trigger] (a + b)[i]).update_id == id;
        if i < a.len() {
            assert(a[i].update_id == id);
        } else {
            assert(b[i - a.len()].update_id == id);
        }
    }
    if journal::has_job(a, id) {
        let i = choose|i: int| 0 <= i < a.len() && (#[trigger] a[i]).update_id == id;
        assert((a + b)[i].update_id == id);
    }
    if journal::has_job(b, id) {
        let i = choose|i: int| 0 <= i < b.len() && (#[trigger] b[i]).update_id == id;
        assert((a + b)[i + a.len()].update_id == id);
    }
    if b.len() == 0 {
        assert(a + b =~= a);
        assert(journal::without_job(a, id) + journal::without_job(b, id) =~= journal::without_job(
            a,
            id,
        ));
    } else {
        closing_goes_job_by_job(a, b.drop_last(), job, id);
        assert((a + b).drop_last() =~= a + b.drop_last());
        assert((a + b).last() == b.last());
        assert(journal::without_job(a + b, id) =~= journal::without_job(a, id)
            + journal::without_job(b, id));
    }
}

/// The dashboard has one row for each bot, in their order, with what is known
/// of that bot: nothing yet for a bot that the board does not know.
pub proof fn the_dashboard_shows_every_bot(bots: Seq<BotConfigView>, board: StatusBoard)
    ensures
        ({
            let r = config::rows(bots, board);
            &&& r.len() == bots.len()
            &&& forall|i: int|
                0 <= i < bots.len() ==> (#[trigger] r[i]).0 == bots[i] && (match board.at(
                    bots[i].id,
                ) {
                    Some(s) => r[i].1 == s,
                    None => {
                        &&& !r[i].1.running
                        &&& r[i].1.username is None
                        &&& r[i].1.last_error is None
                        &&& r[i].1.last_daily_error is None
                        &&& r[i].1.last_message_at is None
                        &&& r[i].1.message_count == 0
                        &&& r[i].1.offset == 0
                    },
                })
        }),
{
}

// ---- the start of a bot ----

/// A bot runs with its own folder, its own journal and the server that serves
/// it, and sends its file once a day to its owner, where it wants to and has
/// one.
pub proof fn bots_start_with_their_own(
    b: BotConfigView,
    status_path: Seq<char>,
    port: Option<u16>,
)
    ensures
        ({
            let r = bot::start_plan(b, status_path, port);
            &&& r.base == server::routed_base(b.api_base, port)
            &&& r.save_dir == paths::save_dir(b.file, b.files_dir)
            &&& r.journal_file == paths::journal_place(status_path, b.id)
            &&& b.daily_send && b.allowed_user_id != 0 ==> r.daily_chat == Some(b.allowed_user_id)
            &&& !b.daily_send || b.allowed_user_id == 0 ==> r.daily_chat is None
        }),
{
}

} // verus!
