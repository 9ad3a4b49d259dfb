//! The settings: the bots, and the local server.

use vstd::prelude::*;
use vstd::string::*;
use crate::ids;
use crate::status::BotStatus;
use crate::status::StatusBoard;
use crate::status::StatusView;
use crate::text;

verus! {

// ---- what holds where a setting is missing ----

/// Bots are enabled unless they are not.
pub fn default_true() -> (r: bool)
    ensures
        r,
{
    true
}

/// The local server's usual port.
pub fn default_port() -> (r: u16)
    ensures
        r == 8081,
{
    8081
}

/// The daily send is at eight in the morning.
pub fn default_daily_time() -> (r: String)
    ensures
        r@ == "08:00"@,
{
    "08:00".to_owned()
}

// ---- the local server ----

/// Settings for an app-managed local Telegram Bot API server. Running one lifts
/// the public API's 20 MB download cap to 2 GB, so large videos can be saved.
/// A single server instance serves every bot.
#[derive(Debug, PartialEq, Eq)]
pub struct ServerConfig {
    /// Whether the app should spawn and manage a local server.
    pub enabled: bool,
    /// Path to the `telegram-bot-api` binary. Unset/empty = auto-detect from
    /// common install locations and `PATH`.
    pub bin_path: Option<String>,
    /// HTTP port the local server listens on.
    pub port: u16,
    /// Telegram `api_id` from my.telegram.org. Not secret.
    pub api_id: i64,
    /// Telegram `api_hash`. Secret: stored in the Keychain, never serialized to
    /// `bots.json`. Hydrated into memory at startup.
    pub api_hash: String,
}

/// What a [`ServerConfig`] says.
pub struct ServerConfigView {
    pub enabled: bool,
    pub bin_path: Option<Seq<char>>,
    pub port: u16,
    pub api_id: i64,
    pub api_hash: Seq<char>,
}

impl View for ServerConfig {
    type V = ServerConfigView;

    open spec fn view(&self) -> ServerConfigView {
        ServerConfigView {
            enabled: self.enabled,
            bin_path: text::opt_text(self.bin_path),
            port: self.port,
            api_id: self.api_id,
            api_hash: self.api_hash@,
        }
    }
}

impl Default for ServerConfig {
    fn default() -> (r: ServerConfig)
        ensures
            r@ == (ServerConfigView {
                enabled: false,
                bin_path: None,
                port: 8081,
                api_id: 0,
                api_hash: Seq::empty(),
            }),
    {
        let r = ServerConfig {
            enabled: false,
            bin_path: None,
            port: default_port(),
            api_id: 0,
            api_hash: String::new(),
        };
        proof {
            assert(r@.api_hash =~= Seq::empty());
        }
        r
    }
}

impl Clone for ServerConfig {
    fn clone(&self) -> (r: ServerConfig)
        ensures
            r@ == self@,
    {
        ServerConfig {
            enabled: self.enabled,
            bin_path: text::copy_opt(&self.bin_path),
            port: self.port,
            api_id: self.api_id,
            api_hash: self.api_hash.clone(),
        }
    }
}

/// The port that a configured one stands for.
pub open spec fn port_used(port: u16) -> u16 {
    if port == 0 {
        8081
    } else {
        port
    }
}

impl ServerConfig {
    /// The port the server actually listens on. A `0` (e.g. a hand-edited
    /// config) falls back to the default so the spawned server and the URL bots
    /// are routed to can never disagree.
    pub fn effective_port(&self) -> (r: u16)
        ensures
            r == port_used(self.port),
            r != 0,
    {
        if self.port == 0 {
            default_port()
        } else {
            self.port
        }
    }
}

// ---- the bots ----

/// One bot bound to one markdown file.
#[derive(Debug, PartialEq, Eq)]
pub struct BotConfig {
    pub id: String,
    pub name: String,
    /// The Telegram bot token. In-memory only: stored in the macOS Keychain,
    /// never serialized to `bots.json`. Older plaintext configs may still hold
    /// one, which is migrated out.
    pub token: String,
    pub file: String,
    /// Folder where received files (documents, photos, etc.) are saved. If unset
    /// or empty, files go to an `attachments` folder next to the markdown file.
    pub files_dir: Option<String>,
    /// Telegram numeric user id allowed to write. 0 = allow anyone (not recommended).
    pub allowed_user_id: i64,
    /// Base URL of the Telegram Bot API. Unset/empty uses the public
    /// `https://api.telegram.org`, which caps file downloads at 20 MB. Point this
    /// at a self-hosted local Bot API server to raise the limit to 2 GB.
    pub api_base: Option<String>,
    pub enabled: bool,
    /// Optional global hotkey for local quick-capture, e.g. "CmdOrCtrl+Shift+KeyI".
    pub shortcut: Option<String>,
    /// When true, the bot sends the markdown file's exact contents back to the
    /// owner once a day at `daily_time`. Requires `allowed_user_id` to be set (in
    /// a private chat the user id is also the chat id that is sent to).
    pub daily_send: bool,
    /// Local time of day for the daily send, "HH:MM" (24-hour).
    pub daily_time: String,
}

/// What a [`BotConfig`] says.
pub struct BotConfigView {
    pub id: Seq<char>,
    pub name: Seq<char>,
    pub token: Seq<char>,
    pub file: Seq<char>,
    pub files_dir: Option<Seq<char>>,
    pub allowed_user_id: i64,
    pub api_base: Option<Seq<char>>,
    pub enabled: bool,
    pub shortcut: Option<Seq<char>>,
    pub daily_send: bool,
    pub daily_time: Seq<char>,
}

impl View for BotConfig {
    type V = BotConfigView;

    open spec fn view(&self) -> BotConfigView {
        BotConfigView {
            id: self.id@,
            name: self.name@,
            token: self.token@,
            file: self.file@,
            files_dir: text::opt_text(self.files_dir),
            allowed_user_id: self.allowed_user_id,
            api_base: text::opt_text(self.api_base),
            enabled: self.enabled,
            shortcut: text::opt_text(self.shortcut),
            daily_send: self.daily_send,
            daily_time: self.daily_time@,
        }
    }
}

impl Clone for BotConfig {
    fn clone(&self) -> (r: BotConfig)
        ensures
            r@ == self@,
    {
        BotConfig {
            id: self.id.clone(),
            name: self.name.clone(),
            token: self.token.clone(),
            file: self.file.clone(),
            files_dir: text::copy_opt(&self.files_dir),
            allowed_user_id: self.allowed_user_id,
            api_base: text::copy_opt(&self.api_base),
            enabled: self.enabled,
            shortcut: text::copy_opt(&self.shortcut),
            daily_send: self.daily_send,
            daily_time: self.daily_time.clone(),
        }
    }
}

/// What the user sets of a bot. What is `None` of the last four is left as it is;
/// a blank text unsets.
#[derive(Debug, PartialEq, Eq)]
pub struct BotSettings {
    pub name: String,
    pub token: String,
    pub file: String,
    pub allowed_user_id: i64,
    pub enabled: bool,
    pub shortcut: Option<String>,
    pub files_dir: Option<String>,
    pub api_base: Option<String>,
    pub daily_send: Option<bool>,
    pub daily_time: Option<String>,
}

/// A bot that nothing was set of yet.
pub open spec fn unset_bot(id: Seq<char>) -> BotConfigView {
    BotConfigView {
        id,
        name: Seq::empty(),
        token: Seq::empty(),
        file: Seq::empty(),
        files_dir: None,
        allowed_user_id: 0,
        api_base: None,
        enabled: true,
        shortcut: None,
        daily_send: false,
        daily_time: "08:00"@,
    }
}

impl BotSettings {
    /// A bot once these settings were made.
    pub open spec fn applied(self, bot: BotConfigView) -> BotConfigView {
        BotConfigView {
            id: bot.id,
            name: self.name@,
            token: self.token@,
            file: self.file@,
            files_dir: match self.files_dir {
                Some(d) => Some(d@),
                None => bot.files_dir,
            },
            allowed_user_id: self.allowed_user_id,
            api_base: match self.api_base {
                Some(a) => Some(a@),
                None => bot.api_base,
            },
            enabled: self.enabled,
            shortcut: text::opt_text(self.shortcut),
            daily_send: match self.daily_send {
                Some(d) => d,
                None => bot.daily_send,
            },
            daily_time: match self.daily_time {
                Some(t) => t@,
                None => bot.daily_time,
            },
        }
    }

    /// The bot once these settings were made.
    pub fn apply(self, bot: &BotConfig) -> (r: BotConfig)
        ensures
            r@ == self.applied(bot@),
    {
        BotConfig {
            id: bot.id.clone(),
            name: self.name,
            token: self.token,
            file: self.file,
            files_dir: match self.files_dir {
                Some(d) => Some(d),
                None => text::copy_opt(&bot.files_dir),
            },
            allowed_user_id: self.allowed_user_id,
            api_base: match self.api_base {
                Some(a) => Some(a),
                None => text::copy_opt(&bot.api_base),
            },
            enabled: self.enabled,
            shortcut: self.shortcut,
            daily_send: match self.daily_send {
                Some(d) => d,
                None => bot.daily_send,
            },
            daily_time: match self.daily_time {
                Some(t) => t,
                None => bot.daily_time.clone(),
            },
        }
    }

    /// The bot `id`, which is new, with these settings.
    pub fn create(self, id: String) -> (r: BotConfig)
        ensures
            r@ == self.applied(unset_bot(id@)),
    {
        let unset = BotConfig {
            id,
            name: String::new(),
            token: String::new(),
            file: String::new(),
            files_dir: None,
            allowed_user_id: 0,
            api_base: None,
            enabled: default_true(),
            shortcut: None,
            daily_send: false,
            daily_time: default_daily_time(),
        };
        self.apply(&unset)
    }

    /// A new bot with these settings.
    pub fn new_bot(self) -> (r: BotConfig)
        ensures
            ids::is_id(r@.id),
            r@ == self.applied(unset_bot(r@.id)),
    {
        self.create(ids::new_id())
    }
}

/// All settings.
#[derive(Debug, PartialEq, Eq)]
pub struct Config {
    pub bots: Vec<BotConfig>,
    /// Global settings for the app-managed local Bot API server.
    pub server: ServerConfig,
}

/// The views of a list of bots.
pub open spec fn bot_views(bots: Seq<BotConfig>) -> Seq<BotConfigView> {
    bots.map_values(|b: BotConfig| b@)
}

/// What a [`Config`] says.
#[verifier::ext_equal]
pub struct ConfigView {
    pub bots: Seq<BotConfigView>,
    pub server: ServerConfigView,
}

impl View for Config {
    type V = ConfigView;

    open spec fn view(&self) -> ConfigView {
        ConfigView { bots: bot_views(self.bots@), server: self.server@ }
    }
}

impl Default for Config {
    fn default() -> (r: Config)
        ensures
            r@.bots == Seq::<BotConfigView>::empty(),
            r@.server == (ServerConfigView {
                enabled: false,
                bin_path: None,
                port: 8081,
                api_id: 0,
                api_hash: Seq::empty(),
            }),
    {
        let r = Config { bots: Vec::new(), server: ServerConfig::default() };
        proof {
            assert(r@.bots =~= Seq::empty());
        }
        r
    }
}

// ---- finding a bot ----

/// Where the first bot with the id `id` is; the number of bots where there is
/// none.
pub open spec fn index_of(bots: Seq<BotConfigView>, id: Seq<char>) -> nat
    decreases bots.len(),
{
    if bots.len() == 0 || bots[0].id == id {
        0
    } else {
        1 + index_of(bots.drop_first(), id)
    }
}

/// Whether there is a bot with the id `id`.
pub open spec fn has_bot(bots: Seq<BotConfigView>, id: Seq<char>) -> bool {
    exists|i: int| 0 <= i < bots.len() && (#[trigger] bots[i]).id == id
}

/// What [`index_of`] says, index by index.
pub proof fn lemma_index_of(bots: Seq<BotConfigView>, id: Seq<char>)
    ensures
        index_of(bots, id) <= bots.len(),
        index_of(bots, id) < bots.len() ==> bots[index_of(bots, id) as int].id == id,
        index_of(bots, id) < bots.len() <==> has_bot(bots, id),
        forall|i: int| 0 <= i < index_of(bots, id) ==> (#[trigger] bots[i]).id != id,
    decreases bots.len(),
{
    if bots.len() > 0 && bots[0].id != id {
        let rest = bots.drop_first();
        lemma_index_of(rest, id);
        assert forall|i: int| 0 <= i < index_of(bots, id) implies (#[trigger] bots[i]).id != id by {
            if i > 0 {
                assert(rest[i - 1] == bots[i]);
            }
        }
        if has_bot(bots, id) {
            let i = choose|i: int| 0 <= i < bots.len() && (#[trigger] bots[i]).id == id;
            assert(rest[i - 1].id == id);
        }
    }
}

/// What an operation on a bot that does not exist reports.
pub const BOT_NOT_FOUND: &'static str = "bot not found";

/// The bots but those with the id `id`.
pub open spec fn without_bot(bots: Seq<BotConfigView>, id: Seq<char>) -> Seq<BotConfigView>
    decreases bots.len(),
{
    if bots.len() == 0 {
        Seq::empty()
    } else if bots.last().id == id {
        without_bot(bots.drop_last(), id)
    } else {
        without_bot(bots.drop_last(), id).push(bots.last())
    }
}

/// The bots that are enabled.
pub open spec fn enabled_of(bots: Seq<BotConfigView>) -> Seq<BotConfigView>
    decreases bots.len(),
{
    if bots.len() == 0 {
        Seq::empty()
    } else if bots.last().enabled {
        enabled_of(bots.drop_last()).push(bots.last())
    } else {
        enabled_of(bots.drop_last())
    }
}

/// The hotkeys that are set, each with the id of its bot.
pub open spec fn hotkeys_of(bots: Seq<BotConfigView>) -> Seq<(Seq<char>, Seq<char>)>
    decreases bots.len(),
{
    if bots.len() == 0 {
        Seq::empty()
    } else {
        let front = hotkeys_of(bots.drop_last());
        match bots.last().shortcut {
            Some(sc) => if text::trimmed(sc).len() == 0 {
                front
            } else {
                front.push((sc, bots.last().id))
            },
            None => front,
        }
    }
}

/// The view of a list of pairs of texts.
pub open spec fn pair_views(pairs: Seq<(String, String)>) -> Seq<(Seq<char>, Seq<char>)> {
    pairs.map_values(|p: (String, String)| (p.0@, p.1@))
}

/// A bot and its status, as the dashboard shows them.
#[derive(Debug, PartialEq, Eq)]
pub struct BotView {
    pub bot: BotConfig,
    pub status: BotStatus,
}

/// The rows of the dashboard: each bot, and what is known of it.
pub open spec fn rows(bots: Seq<BotConfigView>, board: StatusBoard) -> Seq<
    (BotConfigView, StatusView),
> {
    bots.map_values(|b: BotConfigView| (b, board.at_or_blank(b.id)))
}

/// The views of a list of rows.
pub open spec fn row_views(list: Seq<BotView>) -> Seq<(BotConfigView, StatusView)> {
    list.map_values(|r: BotView| (r.bot@, r.status@))
}

/// A bot without its token.
pub open spec fn bot_without_secret(b: BotConfigView) -> BotConfigView {
    BotConfigView { token: Seq::empty(), ..b }
}

impl ConfigView {
    /// What of the settings goes to disk.
    pub open spec fn without_secrets(self) -> ConfigView {
        ConfigView {
            bots: self.bots.map_values(|b: BotConfigView| bot_without_secret(b)),
            server: ServerConfigView { api_hash: Seq::empty(), ..self.server },
        }
    }
}

impl Config {
    /// Where the first bot with the id `id` is.
    pub fn find(&self, id: &str) -> (r: Option<usize>)
        ensures
            match r {
                Some(i) => i == index_of(self@.bots, id@) && i < self@.bots.len(),
                None => !has_bot(self@.bots, id@),
            },
    {
        let mut i: usize = 0;
        proof {
            assert(self@.bots.skip(0) =~= self@.bots);
        }
        while i < self.bots.len()
            invariant
                i <= self.bots@.len(),
                index_of(self@.bots, id@) == i + index_of(self@.bots.skip(i as int), id@),
            decreases self.bots@.len() - i,
        {
            proof {
                assert(self@.bots.skip(i as int)[0] == self.bots@[i as int]@);
                assert(self@.bots.skip(i as int).drop_first() =~= self@.bots.skip(i + 1));
            }
            if text::same_text(self.bots[i].id.as_str(), id) {
                return Some(i);
            }
            i = i + 1;
        }
        proof {
            lemma_index_of(self@.bots, id@);
        }
        None
    }

    /// Adds a bot.
    pub fn add_bot(&mut self, bot: BotConfig)
        ensures
            final(self)@ == (ConfigView {
                bots: old(self)@.bots.push(bot@),
                ..old(self)@
            }),
    {
        self.bots.push(bot);
        proof {
            assert(self@.bots =~= old(self)@.bots.push(bot@));
        }
    }

    /// Gives the bot `id` new settings, and tells what it is then.
    pub fn update_bot(&mut self, id: &str, settings: BotSettings) -> (r: Result<BotConfig, String>)
        ensures
            match r {
                Ok(b) => {
                    let i = index_of(old(self)@.bots, id@) as int;
                    &&& has_bot(old(self)@.bots, id@)
                    &&& b@ == settings.applied(old(self)@.bots[i])
                    &&& final(self)@ == (ConfigView {
                        bots: old(self)@.bots.update(i, b@),
                        ..old(self)@
                    })
                },
                Err(e) => {
                    &&& !has_bot(old(self)@.bots, id@)
                    &&& e@ == BOT_NOT_FOUND@
                    &&& final(self)@ == old(self)@
                },
            },
    {
        match self.find(id) {
            Some(i) => {
                proof {
                    lemma_index_of(self@.bots, id@);
                }
                let bot = settings.apply(&self.bots[i]);
                self.bots.set(i, bot.clone());
                proof {
                    assert(self@.bots =~= old(self)@.bots.update(i as int, bot@));
                }
                Ok(bot)
            },
            None => Err(BOT_NOT_FOUND.to_owned()),
        }
    }

    /// Enables or disables the bot `id`, and tells what it is then.
    pub fn set_enabled(&mut self, id: &str, enabled: bool) -> (r: Result<BotConfig, String>)
        ensures
            match r {
                Ok(b) => {
                    let i = index_of(old(self)@.bots, id@) as int;
                    &&& has_bot(old(self)@.bots, id@)
                    &&& b@ == (BotConfigView { enabled, ..old(self)@.bots[i] })
                    &&& final(self)@ == (ConfigView {
                        bots: old(self)@.bots.update(i, b@),
                        ..old(self)@
                    })
                },
                Err(e) => {
                    &&& !has_bot(old(self)@.bots, id@)
                    &&& e@ == BOT_NOT_FOUND@
                    &&& final(self)@ == old(self)@
                },
            },
    {
        match self.find(id) {
            Some(i) => {
                proof {
                    lemma_index_of(self@.bots, id@);
                }
                let mut bot = self.bots[i].clone();
                bot.enabled = enabled;
                self.bots.set(i, bot.clone());
                proof {
                    assert(self@.bots =~= old(self)@.bots.update(i as int, bot@));
                }
                Ok(bot)
            },
            None => Err(BOT_NOT_FOUND.to_owned()),
        }
    }

    /// Removes the bot `id`.
    pub fn remove_bot(&mut self, id: &str)
        ensures
            final(self)@ == (ConfigView {
                bots: without_bot(old(self)@.bots, id@),
                ..old(self)@
            }),
    {
        let ghost before = self@.bots;
        let mut kept: Vec<BotConfig> = Vec::new();
        let mut i: usize = 0;
        proof {
            assert(before.take(0) =~= Seq::empty());
            assert(bot_views(kept@) =~= Seq::empty());
        }
        while i < self.bots.len()
            invariant
                i <= self.bots@.len(),
                before == self@.bots,
                *self == *old(self),
                bot_views(kept@) == without_bot(before.take(i as int), id@),
            decreases self.bots@.len() - i,
        {
            let ghost shorter = bot_views(kept@);
            proof {
                let longer = before.take(i + 1);
                assert(longer.last() == self.bots@[i as int]@);
                assert(longer.drop_last() =~= before.take(i as int));
            }
            if !text::same_text(self.bots[i].id.as_str(), id) {
                kept.push(self.bots[i].clone());
                proof {
                    assert(bot_views(kept@) =~= shorter.push(self.bots@[i as int]@));
                }
            }
            i = i + 1;
        }
        proof {
            assert(before.take(before.len() as int) =~= before);
        }
        self.bots = kept;
    }

    /// The markdown file of the bot `id`.
    pub fn file_of(&self, id: &str) -> (r: Result<String, String>)
        ensures
            match r {
                Ok(f) => has_bot(self@.bots, id@) && f@ == self@.bots[index_of(
                    self@.bots,
                    id@,
                ) as int].file,
                Err(e) => !has_bot(self@.bots, id@) && e@ == BOT_NOT_FOUND@,
            },
    {
        match self.find(id) {
            Some(i) => {
                proof {
                    lemma_index_of(self@.bots, id@);
                }
                Ok(self.bots[i].file.clone())
            },
            None => Err(BOT_NOT_FOUND.to_owned()),
        }
    }

    /// The name of the bot `id`; empty where there is no such bot.
    pub fn name_of(&self, id: &str) -> (r: String)
        ensures
            r@ == (if has_bot(self@.bots, id@) {
                self@.bots[index_of(self@.bots, id@) as int].name
            } else {
                Seq::empty()
            }),
    {
        match self.find(id) {
            Some(i) => {
                proof {
                    lemma_index_of(self@.bots, id@);
                }
                self.bots[i].name.clone()
            },
            None => {
                let none = String::new();
                proof {
                    assert(none@ =~= Seq::empty());
                }
                none
            },
        }
    }

    /// The bots to start.
    pub fn enabled_bots(&self) -> (r: Vec<BotConfig>)
        ensures
            bot_views(r@) == enabled_of(self@.bots),
    {
        let mut out: Vec<BotConfig> = Vec::new();
        let mut i: usize = 0;
        proof {
            assert(self@.bots.take(0) =~= Seq::empty());
            assert(bot_views(out@) =~= Seq::empty());
        }
        while i < self.bots.len()
            invariant
                i <= self.bots@.len(),
                bot_views(out@) == enabled_of(self@.bots.take(i as int)),
            decreases self.bots@.len() - i,
        {
            let ghost shorter = bot_views(out@);
            proof {
                let longer = self@.bots.take(i + 1);
                assert(longer.last() == self.bots@[i as int]@);
                assert(longer.drop_last() =~= self@.bots.take(i as int));
            }
            if self.bots[i].enabled {
                out.push(self.bots[i].clone());
                proof {
                    assert(bot_views(out@) =~= shorter.push(self.bots@[i as int]@));
                }
            }
            i = i + 1;
        }
        proof {
            assert(self@.bots.take(self@.bots.len() as int) =~= self@.bots);
        }
        out
    }

    /// The hotkeys to register, each with the id of its bot.
    pub fn hotkeys(&self) -> (r: Vec<(String, String)>)
        ensures
            pair_views(r@) == hotkeys_of(self@.bots),
    {
        let mut out: Vec<(String, String)> = Vec::new();
        let mut i: usize = 0;
        proof {
            assert(self@.bots.take(0) =~= Seq::empty());
            assert(pair_views(out@) =~= Seq::empty());
        }
        while i < self.bots.len()
            invariant
                i <= self.bots@.len(),
                pair_views(out@) == hotkeys_of(self@.bots.take(i as int)),
            decreases self.bots@.len() - i,
        {
            let ghost shorter = pair_views(out@);
            proof {
                let longer = self@.bots.take(i + 1);
                assert(longer.last() == self.bots@[i as int]@);
                assert(longer.drop_last() =~= self@.bots.take(i as int));
            }
            match &self.bots[i].shortcut {
                Some(sc) => {
                    if !text::is_blank(sc.as_str()) {
                        let pair = (sc.clone(), self.bots[i].id.clone());
                        out.push(pair);
                        proof {
                            assert(pair_views(out@) =~= shorter.push((pair.0@, pair.1@)));
                        }
                    }
                },
                None => {},
            }
            i = i + 1;
        }
        proof {
            assert(self@.bots.take(self@.bots.len() as int) =~= self@.bots);
        }
        out
    }

    /// The rows of the dashboard.
    pub fn dashboard(&self, board: &StatusBoard) -> (r: Vec<BotView>)
        requires
            board.wf(),
        ensures
            row_views(r@) == rows(self@.bots, *board),
    {
        let mut out: Vec<BotView> = Vec::new();
        let mut i: usize = 0;
        while i < self.bots.len()
            invariant
                i <= self.bots@.len(),
                board.wf(),
                out@.len() == i,
                forall|k: int|
                    0 <= k < i ==> (#[trigger] out@[k]).bot@ == self.bots@[k]@ && out@[k].status@
                        == board.at_or_blank(self.bots@[k]@.id),
            decreases self.bots@.len() - i,
        {
            let status = board.status_of(self.bots[i].id.as_str());
            out.push(BotView { bot: self.bots[i].clone(), status });
            i = i + 1;
        }
        proof {
            assert(row_views(out@) =~= rows(self@.bots, *board));
        }
        out
    }

    /// What of the settings goes to disk: everything but the secrets.
    pub fn without_secrets(&self) -> (r: Config)
        ensures
            r@ == self@.without_secrets(),
    {
        let mut bots: Vec<BotConfig> = Vec::new();
        let mut i: usize = 0;
        while i < self.bots.len()
            invariant
                i <= self.bots@.len(),
                bots@.len() == i,
                forall|k: int|
                    0 <= k < i ==> (#[trigger] bots@[k])@ == bot_without_secret(self.bots@[k]@),
            decreases self.bots@.len() - i,
        {
            let mut b = self.bots[i].clone();
            b.token = String::new();
            proof {
                assert(b@.token =~= Seq::empty());
            }
            bots.push(b);
            i = i + 1;
        }
        let mut server = self.server.clone();
        server.api_hash = String::new();
        proof {
            assert(server@.api_hash =~= Seq::empty());
            assert(bot_views(bots@) =~= self@.without_secrets().bots);
        }
        Config { bots, server }
    }
}

// ---- what the settings promise ----

/// What goes to disk holds no token and no `api_hash`, and everything else of
/// the settings.
pub proof fn secrets_stay_out_of_the_file(c: ConfigView)
    ensures
        c.without_secrets().server.api_hash == Seq::<char>::empty(),
        c.without_secrets().bots.len() == c.bots.len(),
        forall|i: int|
            0 <= i < c.bots.len() ==> (#[trigger] c.without_secrets().bots[i]).token == Seq::<
                char,
            >::empty() && c.without_secrets().bots[i] == (BotConfigView {
                token: Seq::empty(),
                ..c.bots[i]
            }),
{
}

/// A bot that was removed is gone, and the others stay.
pub proof fn removed_bots_are_gone(bots: Seq<BotConfigView>, id: Seq<char>, other: Seq<char>)
    ensures
        !has_bot(without_bot(bots, id), id),
        other != id ==> has_bot(without_bot(bots, id), other) == has_bot(bots, other),
    decreases bots.len(),
{
    let rest = without_bot(bots, id);
    if bots.len() == 0 {
        assert(rest =~= bots);
    } else {
        let front = bots.drop_last();
        let kept = without_bot(front, id);
        removed_bots_are_gone(front, id, other);
        if has_bot(rest, id) {
            let m = choose|m: int| 0 <= m < rest.len() && (#[trigger] rest[m]).id == id;
            if m < kept.len() {
                assert(kept[m].id == id);
            }
        }
        if other != id {
            if has_bot(bots, other) {
                let k = choose|k: int| 0 <= k < bots.len() && (#[trigger] bots[k]).id == other;
                if k < front.len() {
                    assert(front[k].id == other);
                    let m = choose|m: int| 0 <= m < kept.len() && (#[trigger] kept[m]).id == other;
                    assert(rest[m].id == other);
                } else {
                    assert(rest[rest.len() - 1].id == other);
                }
            }
            if has_bot(rest, other) {
                let m = choose|m: int| 0 <= m < rest.len() && (#[trigger] rest[m]).id == other;
                if m < kept.len() {
                    assert(kept[m].id == other);
                    let k = choose|k: int| 0 <= k < front.len() && (#[trigger] front[k]).id == other;
                    assert(bots[k].id == other);
                } else {
                    assert(bots[bots.len() - 1].id == other);
                }
            }
        }
    }
}

/// A bot that was added and is removed again leaves the others as they were.
pub proof fn removing_undoes_adding(bots: Seq<BotConfigView>, bot: BotConfigView)
    requires
        !has_bot(bots, bot.id),
    ensures
        without_bot(bots.push(bot), bot.id) == bots,
{
    assert(bots.push(bot).drop_last() =~= bots);
    lemma_without_absent(bots, bot.id);
}

proof fn lemma_without_absent(bots: Seq<BotConfigView>, id: Seq<char>)
    requires
        !has_bot(bots, id),
    ensures
        without_bot(bots, id) == bots,
    decreases bots.len(),
{
    if bots.len() == 0 {
        assert(without_bot(bots, id) =~= bots);
    } else {
        let front = bots.drop_last();
        assert(!has_bot(front, id)) by {
            assert forall|i: int| 0 <= i < front.len() implies (#[trigger] front[i]).id != id by {
                assert(front[i] == bots[i]);
            }
        }
        assert(bots[bots.len() - 1] == bots.last());
        lemma_without_absent(front, id);
        assert(front.push(bots.last()) =~= bots);
    }
}

/// New settings never change which bot they are made for.
pub proof fn settings_keep_the_id(settings: BotSettings, bot: BotConfigView)
    ensures
        settings.applied(bot).id == bot.id,
{
}

} // verus!
