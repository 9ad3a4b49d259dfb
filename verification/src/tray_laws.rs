//! What is shown of a bot, from what is known of it.

use vstd::prelude::*;
use crate::config::BotConfigView;
use crate::status;
use crate::status::StatusBoard;
use crate::status::StatusView;
use crate::text;
use crate::tray;
use crate::tray::Fact;

verus! {

// ---- statuses ----

/// What outlives a restart is when the last message came, how many there were
/// and where to go on; everything else starts from nothing.
pub proof fn restarts_keep_the_counters(s: StatusView)
    ensures
        ({
            let r = s.restored();
            &&& r.last_message_at == s.last_message_at
            &&& r.message_count == s.message_count
            &&& r.offset == s.offset
            &&& !r.running
            &&& r.username is None
            &&& r.last_error is None
            &&& r.last_daily_error is None
        }),
{
}

/// An error is recorded as it is said, and replaces the one before.
pub proof fn errors_are_recorded(s: StatusView, message: Seq<char>)
    ensures
        ({
            let r = s.failed(message);
            &&& r.last_error == Some(message)
            &&& r.running == s.running
            &&& r.username == s.username
            &&& r.last_daily_error == s.last_daily_error
            &&& r.last_message_at == s.last_message_at
            &&& r.message_count == s.message_count
            &&& r.offset == s.offset
        }),
{
}

/// A note counts once and tells when it came. One from Telegram shows that the
/// bot works again; one that was captured locally says nothing of that, and
/// leaves the error.
pub proof fn notes_count_once(s: StatusView, at: Seq<char>)
    requires
        s.message_count < u64::MAX,
    ensures
        ({
            let r = s.saved(at);
            &&& r.message_count == s.message_count + 1
            &&& r.last_message_at == Some(at)
            &&& r.last_error is None
            &&& r.running == s.running
            &&& r.username == s.username
            &&& r.last_daily_error == s.last_daily_error
            &&& r.offset == s.offset
        }),
        ({
            let r = s.captured(at);
            &&& r.message_count == s.message_count + 1
            &&& r.last_message_at == Some(at)
            &&& r.last_error == s.last_error
            &&& r.running == s.running
            &&& r.username == s.username
            &&& r.last_daily_error == s.last_daily_error
            &&& r.offset == s.offset
        }),
{
}

/// getMe tells the name of the bot and clears its error, or says why it failed
/// and leaves the name. The bot counts as running either way.
pub proof fn identities_are_recorded(s: StatusView, words: Seq<char>)
    ensures
        ({
            let r = s.identified(Ok(words));
            &&& r.username == Some(words)
            &&& r.last_error is None
            &&& r.running
            &&& r.last_daily_error == s.last_daily_error
            &&& r.last_message_at == s.last_message_at
            &&& r.message_count == s.message_count
            &&& r.offset == s.offset
        }),
        ({
            let r = s.identified(Err(words));
            &&& r.username == s.username
            &&& r.last_error == Some("getMe failed: "@ + words)
            &&& r.running
            &&& r.last_daily_error == s.last_daily_error
            &&& r.last_message_at == s.last_message_at
            &&& r.message_count == s.message_count
            &&& r.offset == s.offset
        }),
{
}

/// Nothing is known of a bot at first.
pub proof fn nothing_is_known_at_first()
    ensures
        ({
            let r = status::blank();
            &&& !r.running
            &&& r.username is None
            &&& r.last_error is None
            &&& r.last_daily_error is None
            &&& r.last_message_at is None
            &&& r.message_count == 0
            &&& r.offset == 0
        }),
{
}

/// A bot that comes to be known goes behind the others, once. One that is
/// forgotten leaves the others in order.
pub proof fn boards_keep_their_order(a: Seq<Seq<char>>, b: Seq<Seq<char>>, id: Seq<char>, one: Seq<char>)
    ensures
        status::with_id(a, id) == (if a.contains(id) {
            a
        } else {
            a.push(id)
        }),
        status::without_id(a + b, id) == status::without_id(a, id) + status::without_id(b, id),
        one == id ==> status::without_id(seq![one], id).len() == 0,
        one != id ==> status::without_id(seq![one], id) == seq![one],
    decreases b.len(),
{
    reveal_with_fuel(status::without_id, 2);
    assert(seq![one].drop_last() =~= Seq::empty());
    assert(Seq::<Seq<char>>::empty().push(one) =~= seq![one]);
    if b.len() == 0 {
        assert(a + b =~= a);
        assert(status::without_id(a, id) + status::without_id(b, id) =~= status::without_id(a, id));
    } else {
        boards_keep_their_order(a, b.drop_last(), id, one);
        assert((a + b).drop_last() =~= a + b.drop_last());
        assert((a + b).last() == b.last());
        assert(status::without_id(a + b, id) =~= status::without_id(a, id) + status::without_id(
            b,
            id,
        ));
    }
}

// ---- the tray ----

/// The line of a bot: a sign that tells disabled, in trouble (with its messages
/// or with its daily send), running and starting apart, its name and how many
/// messages were saved.
pub proof fn lines_tell_the_state(bot: BotConfigView, s: StatusView)
    ensures
        ({
            let trouble = s.last_error is Some || s.last_daily_error is Some;
            let sign = if !bot.enabled {
                "⚪"@
            } else if trouble {
                "🔴"@
            } else if s.running {
                "🟢"@
            } else {
                "🟡"@
            };
            tray::label(tray::fact(bot, s)) == sign + " "@ + bot.name + "  ·  "@ + text::dec(
                s.message_count as nat,
            ) + " saved"@
        }),
{
}

/// The tray has a line for each bot, in their order, under an id made of the
/// bot's.
pub proof fn every_bot_has_its_line(bots: Seq<BotConfigView>, board: StatusBoard)
    ensures
        ({
            let r = tray::lines(tray::facts(bots, board));
            &&& r.len() == bots.len()
            &&& forall|i: int|
                0 <= i < bots.len() ==> (#[trigger] r[i]).0 == "bot_"@ + bots[i].id && r[i].1
                    == tray::label(tray::fact(bots[i], board.at_or_blank(bots[i].id)))
        }),
{
}

/// A bot is counted as running where it is enabled, runs and has no error, and
/// as in trouble where it is enabled and has one.
pub proof fn bots_are_counted_one_by_one(a: Seq<Fact>, b: Seq<Fact>, bot: BotConfigView, s: StatusView)
    ensures
        tray::running_count(a + b) == tray::running_count(a) + tray::running_count(b),
        tray::failing_count(a + b) == tray::failing_count(a) + tray::failing_count(b),
        ({
            let one = seq![tray::fact(bot, s)];
            let trouble = s.last_error is Some || s.last_daily_error is Some;
            &&& tray::running_count(one) == (if bot.enabled && s.running && !trouble {
                1nat
            } else {
                0nat
            })
            &&& tray::failing_count(one) == (if bot.enabled && trouble {
                1nat
            } else {
                0nat
            })
        }),
    decreases b.len(),
{
    reveal_with_fuel(tray::running_count, 2);
    reveal_with_fuel(tray::failing_count, 2);
    assert(seq![tray::fact(bot, s)].drop_last() =~= Seq::empty());
    if b.len() == 0 {
        assert(a + b =~= a);
    } else {
        bots_are_counted_one_by_one(a, b.drop_last(), bot, s);
        assert((a + b).drop_last() =~= a + b.drop_last());
        assert((a + b).last() == b.last());
    }
}

/// The tooltip tells both counts.
pub proof fn the_tooltip_tells_the_counts(list: Seq<Fact>)
    ensures
        tray::tooltip(list) == "Notekeeper — "@ + text::dec(tray::running_count(list))
            + " running, "@ + text::dec(tray::failing_count(list)) + " error(s)"@,
{
}

} // verus!
