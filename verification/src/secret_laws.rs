//! Which token goes where.

use vstd::prelude::*;
use crate::config::BotConfigView;
use crate::secrets;
use crate::secrets::ActionView;
use crate::secrets::EntryView;
use crate::secrets::EventView;
use crate::secrets::HydrationView;
use crate::secrets::Phase;
use crate::secrets::Step;

verus! {

/// The entry of a bot is the app's, under the bot's id.
pub proof fn entries_are_named_by_the_bot(id: Seq<char>)
    ensures
        secrets::entry_of(id).service == "com.notekeeper.app"@,
        secrets::entry_of(id).account == id,
{
}

/// Whether the hydration goes on to the bot `next`: its own entry is read, or
/// it is over where there is none.
pub open spec fn goes_on_to(s: Step, next: int, migrated: bool) -> bool {
    &&& s.hydration.next == next
    &&& s.hydration.migrated == migrated
    &&& next < s.bots.len() ==> {
        &&& s.hydration.phase == Phase::Reading
        &&& s.action == ActionView::Read {
            entry: EntryView { service: "com.notekeeper.app"@, account: s.bots[next].id },
        }
    }
    &&& next >= s.bots.len() ==> {
        &&& s.hydration.phase == Phase::Over
        &&& s.action == ActionView::Done { migrated }
    }
}

/// It starts with the first bot, and nothing is migrated yet.
pub proof fn hydration_starts_with_the_first(bots: Seq<BotConfigView>)
    ensures
        goes_on_to(secrets::start(bots), 0, false),
        secrets::start(bots).bots == bots,
{
}

/// A token that the Keychain holds becomes the bot's, and nothing else of the
/// bots changes. Nothing is stored, and the next bot follows.
pub proof fn tokens_that_are_found_are_used(
    h: HydrationView,
    bots: Seq<BotConfigView>,
    token: Seq<char>,
)
    requires
        h.wf(bots),
        h.phase == Phase::Reading,
    ensures
        ({
            let r = secrets::next_step(h, bots, EventView::Found { token: Some(token) });
            let was = bots[h.next];
            let now = r.bots[h.next];
            &&& goes_on_to(r, h.next + 1, h.migrated)
            &&& r.bots.len() == bots.len()
            &&& now.token == token
            &&& now.id == was.id
            &&& now.name == was.name
            &&& now.file == was.file
            &&& now.files_dir == was.files_dir
            &&& now.allowed_user_id == was.allowed_user_id
            &&& now.api_base == was.api_base
            &&& now.enabled == was.enabled
            &&& now.shortcut == was.shortcut
            &&& now.daily_send == was.daily_send
            &&& now.daily_time == was.daily_time
            &&& forall|i: int| 0 <= i < bots.len() && i != h.next ==> #[trigger] r.bots[i] == bots[i]
        }),
{
}

/// Where the Keychain holds none, the bot keeps its own. One that is not empty
/// is stored in the bot's own entry; without one the next bot follows.
pub proof fn tokens_that_are_missing_are_stored(h: HydrationView, bots: Seq<BotConfigView>)
    requires
        h.wf(bots),
        h.phase == Phase::Reading,
    ensures
        ({
            let r = secrets::next_step(h, bots, EventView::Found { token: None });
            let bot = bots[h.next];
            &&& r.bots == bots
            &&& bot.token.len() > 0 ==> {
                &&& r.action == ActionView::Store {
                    entry: EntryView { service: "com.notekeeper.app"@, account: bot.id },
                    token: bot.token,
                }
                &&& r.hydration.phase == Phase::Storing
                &&& r.hydration.next == h.next
                &&& r.hydration.migrated == h.migrated
            }
            &&& bot.token.len() == 0 ==> goes_on_to(r, h.next + 1, h.migrated)
        }),
{
    let r = secrets::next_step(h, bots, EventView::Found { token: None });
    assert(r.bots =~= bots);
}

/// Something was migrated once the Keychain took a token. The bots stay as they
/// are either way, and the next one follows.
pub proof fn stored_tokens_are_counted(
    h: HydrationView,
    bots: Seq<BotConfigView>,
    accepted: bool,
)
    requires
        h.wf(bots),
        h.phase == Phase::Storing,
    ensures
        ({
            let r = secrets::next_step(h, bots, EventView::Stored { accepted });
            &&& r.bots == bots
            &&& goes_on_to(r, h.next + 1, h.migrated || accepted)
        }),
{
}

} // verus!
