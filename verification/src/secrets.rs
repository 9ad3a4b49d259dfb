//! Bot-token storage backed by the macOS Keychain.
//!
//! Tokens are kept out of `bots.json` entirely: the config file stores only the
//! non-secret bot metadata, while each token lives in the login Keychain under
//! the service `com.notekeeper.app`, keyed by the bot's UUID. This keeps secrets
//! out of plaintext on disk (and out of any backup of the config file).

use vstd::prelude::*;
use vstd::string::*;
use crate::config::BotConfig;
use crate::config::BotConfigView;
use crate::config::Config;
use crate::text;

verus! {

/// Keychain service name. Matches the app's bundle identifier.
pub const SERVICE: &'static str = "com.notekeeper.app";

/// The name of an entry of the Keychain: the service that it is kept for, and
/// the account.
#[derive(Debug, PartialEq, Eq)]
pub struct KeychainEntry {
    pub service: String,
    pub account: String,
}

/// What a [`KeychainEntry`] says.
pub struct EntryView {
    pub service: Seq<char>,
    pub account: Seq<char>,
}

impl View for KeychainEntry {
    type V = EntryView;

    open spec fn view(&self) -> EntryView {
        EntryView { service: self.service@, account: self.account@ }
    }
}

/// The entry of the bot `id`.
pub open spec fn entry_of(id: Seq<char>) -> EntryView {
    EntryView { service: SERVICE@, account: id }
}

/// The entry of the bot `id`.
pub fn keychain_entry(id: &str) -> (r: KeychainEntry)
    ensures
        r@ == entry_of(id@),
{
    KeychainEntry { service: SERVICE.to_owned(), account: id.to_owned() }
}

/// Calls `keyring::Entry::new` and `get_password`. Nothing is claimed: what comes
/// back is up to the Keychain.
#[verifier::external_body]
fn read_entry(entry: &KeychainEntry) -> (r: Option<String>) {
    keyring::Entry::new(&entry.service, &entry.account).ok()?.get_password().ok()
}

/// Calls `keyring::Entry::new` and `set_password`. Nothing is claimed: whether it
/// succeeds is up to the Keychain.
#[verifier::external_body]
fn write_entry(entry: &KeychainEntry, token: &str) -> (r: Result<(), String>) {
    keyring::Entry::new(&entry.service, &entry.account)
        .and_then(|e| e.set_password(token))
        .map_err(|e| e.to_string())
}

/// Calls `keyring::Entry::new` and `delete_credential`. Nothing is claimed:
/// whether it succeeds is up to the Keychain, and is not told.
#[verifier::external_body]
fn delete_entry(entry: &KeychainEntry) {
    if let Ok(e) = keyring::Entry::new(&entry.service, &entry.account) {
        let _ = e.delete_credential();
    }
}

/// Read a bot's token from the Keychain, from the entry that [`keychain_entry`]
/// names. Returns `None` if there is no entry (or the Keychain is unavailable).
pub fn get_token(id: &str) -> (r: Option<String>) {
    read_entry(&keychain_entry(id))
}

/// What the Keychain is given to store for the bot `id`: the bot's entry, and
/// the token as it is.
pub fn store_of(id: &str, token: &str) -> (r: (KeychainEntry, String))
    ensures
        r.0@ == entry_of(id@),
        r.1@ == token@,
{
    (keychain_entry(id), token.to_owned())
}

/// Store (or replace) a bot's token in the Keychain. What is handed over is what
/// [`store_of`] gives.
pub fn set_token(id: &str, token: &str) -> (r: Result<(), String>) {
    let (entry, secret) = store_of(id, token);
    write_entry(&entry, secret.as_str())
}

/// Delete a bot's token from the Keychain. Missing entries are ignored.
pub fn delete_token(id: &str) {
    delete_entry(&keychain_entry(id));
}

/// A bot once the Keychain was asked for its token: with the token that was
/// found there, else as it was.
pub open spec fn hydrated(bot: BotConfigView, found: Option<Seq<char>>) -> BotConfigView {
    match found {
        Some(token) => BotConfigView { token, ..bot },
        None => bot,
    }
}

/// Whether a bot's token has to be moved into the Keychain: it has one, and
/// none was found there.
pub open spec fn needs_migration(bot: BotConfigView, found: Option<Seq<char>>) -> bool {
    found is None && bot.token.len() > 0
}

/// Gives a bot the token that was found in the Keychain, and tells whether its
/// own has to be moved there instead.
pub fn hydrate_bot(bot: &mut BotConfig, found: Option<String>) -> (r: bool)
    ensures
        final(bot)@ == hydrated(old(bot)@, text::opt_text(found)),
        r == needs_migration(old(bot)@, text::opt_text(found)),
{
    match found {
        Some(token) => {
            bot.token = token;
            false
        },
        None => !bot.token.as_str().is_empty(),
    }
}

// ---- filling in the tokens ----

/// What the hydration is waiting for.
#[derive(Clone, Copy, PartialEq, Eq, Structural, Debug)]
pub enum Phase {
    /// What the Keychain holds for a bot.
    Reading,
    /// Whether the Keychain took a bot's token.
    Storing,
    /// Nothing: every bot was seen to.
    Over,
}

/// What the Keychain answered.
#[derive(Debug, PartialEq, Eq)]
pub enum Event {
    /// What the entry holds, if it exists.
    Found { token: Option<String> },
    /// Whether the token was stored.
    Stored { accepted: bool },
}

/// What an [`Event`] says.
pub enum EventView {
    Found { token: Option<Seq<char>> },
    Stored { accepted: bool },
}

impl View for Event {
    type V = EventView;

    open spec fn view(&self) -> EventView {
        match *self {
            Event::Found { token } => EventView::Found { token: text::opt_text(token) },
            Event::Stored { accepted } => EventView::Stored { accepted },
        }
    }
}

/// What is to be done.
#[derive(Debug, PartialEq, Eq)]
pub enum Action {
    /// Read an entry.
    Read { entry: KeychainEntry },
    /// Store a token in an entry.
    Store { entry: KeychainEntry, token: String },
    /// Nothing more. Whether any token was migrated.
    Done { migrated: bool },
}

/// What an [`Action`] says.
pub enum ActionView {
    Read { entry: EntryView },
    Store { entry: EntryView, token: Seq<char> },
    Done { migrated: bool },
}

impl View for Action {
    type V = ActionView;

    open spec fn view(&self) -> ActionView {
        match *self {
            Action::Read { entry } => ActionView::Read { entry: entry@ },
            Action::Store { entry, token } => ActionView::Store { entry: entry@, token: token@ },
            Action::Done { migrated } => ActionView::Done { migrated },
        }
    }
}

/// How far the tokens of the bots were filled in from the Keychain.
pub struct Hydration {
    next: usize,
    migrated: bool,
    phase: Phase,
}

/// What a [`Hydration`] holds.
pub struct HydrationView {
    /// The bot at hand.
    pub next: int,
    /// Whether a token was migrated so far.
    pub migrated: bool,
    pub phase: Phase,
}

impl View for Hydration {
    type V = HydrationView;

    closed spec fn view(&self) -> HydrationView {
        HydrationView { next: self.next as int, migrated: self.migrated, phase: self.phase }
    }
}

impl HydrationView {
    /// Whether there is a bot at hand, until it is over.
    pub open spec fn wf(self, bots: Seq<BotConfigView>) -> bool {
        &&& 0 <= self.next <= bots.len()
        &&& self.phase != Phase::Over ==> self.next < bots.len()
    }

    /// Whether `event` can happen now.
    pub open spec fn expects(self, event: EventView) -> bool {
        match self.phase {
            Phase::Reading => event is Found,
            Phase::Storing => event is Stored,
            Phase::Over => false,
        }
    }
}

/// What a step leads to.
#[verifier::ext_equal]
pub struct Step {
    pub hydration: HydrationView,
    pub bots: Seq<BotConfigView>,
    pub action: ActionView,
}

/// Goes on to the bot `next`: its entry is read, or all is done.
pub open spec fn ask(next: int, migrated: bool, bots: Seq<BotConfigView>) -> Step {
    if next < bots.len() {
        Step {
            hydration: HydrationView { next, migrated, phase: Phase::Reading },
            bots,
            action: ActionView::Read { entry: entry_of(bots[next].id) },
        }
    } else {
        Step {
            hydration: HydrationView { next, migrated, phase: Phase::Over },
            bots,
            action: ActionView::Done { migrated },
        }
    }
}

/// How the hydration of some bots starts.
pub open spec fn start(bots: Seq<BotConfigView>) -> Step {
    ask(0, false, bots)
}

/// What an event leads to: a token that was found is taken over; one that is
/// only in memory is stored, in the bot's own entry.
pub open spec fn next_step(h: HydrationView, bots: Seq<BotConfigView>, event: EventView) -> Step {
    let bot = bots[h.next];
    match event {
        EventView::Found { token } => {
            let filled = bots.update(h.next, hydrated(bot, token));
            if needs_migration(bot, token) {
                Step {
                    hydration: HydrationView { phase: Phase::Storing, ..h },
                    bots: filled,
                    action: ActionView::Store { entry: entry_of(bot.id), token: bot.token },
                }
            } else {
                ask(h.next + 1, h.migrated, filled)
            }
        },
        EventView::Stored { accepted } => ask(h.next + 1, h.migrated || accepted, bots),
    }
}

fn ask_for(next: usize, migrated: bool, config: &Config) -> (r: (Hydration, Action))
    requires
        next <= config@.bots.len(),
    ensures
        ask(next as int, migrated, config@.bots) == (Step {
            hydration: r.0@,
            bots: config@.bots,
            action: r.1@,
        }),
        r.0@.wf(config@.bots),
{
    if next < config.bots.len() {
        let entry = keychain_entry(config.bots[next].id.as_str());
        proof {
            assert(config@.bots[next as int] == config.bots@[next as int]@);
        }
        (Hydration { next, migrated, phase: Phase::Reading }, Action::Read { entry })
    } else {
        (Hydration { next, migrated, phase: Phase::Over }, Action::Done { migrated })
    }
}

impl Hydration {
    /// The hydration of the bots of `config`, and what it starts with.
    pub fn begin(config: &Config) -> (r: (Hydration, Action))
        ensures
            start(config@.bots) == (Step {
                hydration: r.0@,
                bots: config@.bots,
                action: r.1@,
            }),
            r.0@.wf(config@.bots),
    {
        ask_for(0, false, config)
    }

    /// Takes in what the Keychain answered, and tells what to do next.
    pub fn step(&mut self, event: Event, config: &mut Config) -> (r: Action)
        requires
            old(self)@.wf(old(config)@.bots),
            old(self)@.expects(event@),
        ensures
            next_step(old(self)@, old(config)@.bots, event@) == (Step {
                hydration: final(self)@,
                bots: final(config)@.bots,
                action: r@,
            }),
            final(self)@.wf(final(config)@.bots),
            final(config)@.server == old(config)@.server,
    {
        let ghost before = config@.bots;
        let i: usize = self.next;
        proof {
            assert(before[i as int] == config.bots@[i as int]@);
            assert(i < config.bots.len());
        }
        match event {
            Event::Found { token } => {
                let mut bot = config.bots[i].clone();
                let migrate = hydrate_bot(&mut bot, token);
                let (entry, own) = store_of(bot.id.as_str(), bot.token.as_str());
                config.bots.set(i, bot);
                proof {
                    assert(config@.bots =~= before.update(i as int, bot@));
                }
                if migrate {
                    self.phase = Phase::Storing;
                    Action::Store { entry, token: own }
                } else {
                    let (further, action) = ask_for(i + 1, self.migrated, config);
                    *self = further;
                    action
                }
            },
            Event::Stored { accepted } => {
                let (further, action) = ask_for(i + 1, self.migrated || accepted, config);
                *self = further;
                action
            },
        }
    }
}

/// Where some answers of the Keychain lead.
pub open spec fn after(bots: Seq<BotConfigView>, answers: Seq<EventView>) -> Step
    decreases answers.len(),
{
    if answers.len() == 0 {
        start(bots)
    } else {
        let s = after(bots, answers.drop_last());
        next_step(s.hydration, s.bots, answers.last())
    }
}

/// Whether each answer is one to what was asked.
pub open spec fn fitting(bots: Seq<BotConfigView>, answers: Seq<EventView>) -> bool
    decreases answers.len(),
{
    answers.len() > 0 ==> {
        &&& fitting(bots, answers.drop_last())
        &&& after(bots, answers.drop_last()).hydration.expects(answers.last())
    }
}

/// How many answers are still to come, at most.
pub open spec fn answers_left(h: HydrationView, bots: Seq<BotConfigView>) -> int {
    match h.phase {
        Phase::Reading => 2 * (bots.len() - h.next),
        Phase::Storing => 2 * (bots.len() - h.next) - 1,
        Phase::Over => 0,
    }
}

/// Fill each bot's in-memory token from the Keychain.
///
/// If a bot has no Keychain entry but still carries a token in memory (i.e. it
/// was just loaded from an older plaintext `bots.json`), the token is migrated
/// into the Keychain. Returns `true` if any token was migrated, signalling the
/// caller to re-save the config so the cleartext token is removed from disk.
///
/// What is asked of the Keychain, and what is made of its answers, is what
/// [`Hydration`] says. Which answers come is up to the Keychain.
pub fn hydrate_tokens(config: &mut Config) -> (migrated: bool)
    ensures
        final(config)@.server == old(config)@.server,
        exists|answers: Seq<EventView>| #[trigger]
            fitting(old(config)@.bots, answers) && after(old(config)@.bots, answers).bots
                == final(config)@.bots && after(old(config)@.bots, answers).action == (
            ActionView::Done { migrated }),
{
    let ghost bots = config@.bots;
    let ghost mut answers: Seq<EventView> = Seq::empty();
    let (mut hydration, mut action) = Hydration::begin(config);
    loop
        invariant
            config@.server == old(config)@.server,
            hydration@.wf(config@.bots),
            fitting(bots, answers),
            after(bots, answers) == (Step {
                hydration: hydration@,
                bots: config@.bots,
                action: action@,
            }),
            action@ is Read <==> hydration@.phase == Phase::Reading,
            action@ is Store <==> hydration@.phase == Phase::Storing,
            bots == old(config)@.bots,
        decreases answers_left(hydration@, config@.bots),
    {
        let event = match action {
            Action::Read { entry } => Event::Found { token: read_entry(&entry) },
            Action::Store { entry, token } => {
                let stored = write_entry(&entry, token.as_str());
                Event::Stored { accepted: stored.is_ok() }
            },
            Action::Done { migrated } => {
                return migrated;
            },
        };
        proof {
            let more = answers.push(event@);
            assert(more.drop_last() =~= answers);
            answers = more;
        }
        action = hydration.step(event, config);
    }
}

// ---- what hydration promises ----

/// Hydration touches nothing but tokens, whatever the Keychain answers: no bot
/// comes or goes, and everything else that is set of it stays.
pub proof fn only_tokens_change(bots: Seq<BotConfigView>, answers: Seq<EventView>)
    requires
        fitting(bots, answers),
    ensures
        ({
            let s = after(bots, answers);
            &&& s.hydration.wf(s.bots)
            &&& s.bots.len() == bots.len()
            &&& forall|i: int|
                0 <= i < bots.len() ==> #[trigger] s.bots[i] == (BotConfigView {
                    token: s.bots[i].token,
                    ..bots[i]
                })
        }),
    decreases answers.len(),
{
    if answers.len() > 0 {
        only_tokens_change(bots, answers.drop_last());
    }
}

/// What is read and stored is each bot's own entry, whatever the Keychain
/// answered before: an entry of another service, or of another bot, is never
/// touched. What is stored is the token that the bot has.
pub proof fn each_bot_has_its_own_entry(bots: Seq<BotConfigView>, answers: Seq<EventView>)
    requires
        fitting(bots, answers),
    ensures
        ({
            let s = after(bots, answers);
            match s.action {
                ActionView::Read { entry } => s.hydration.phase == Phase::Reading && entry
                    == entry_of(bots[s.hydration.next].id),
                ActionView::Store { entry, token } => s.hydration.phase == Phase::Storing && entry
                    == entry_of(bots[s.hydration.next].id) && token
                    == s.bots[s.hydration.next].token && token.len() > 0,
                ActionView::Done { migrated } => s.hydration.phase == Phase::Over,
            }
        }),
    decreases answers.len(),
{
    only_tokens_change(bots, answers);
    if answers.len() > 0 {
        only_tokens_change(bots, answers.drop_last());
        each_bot_has_its_own_entry(bots, answers.drop_last());
    }
}

/// What a Keychain holds in an entry.
pub open spec fn kept(keychain: Map<EntryView, Seq<char>>, entry: EntryView) -> Option<Seq<char>> {
    if keychain.contains_key(entry) {
        Some(keychain[entry])
    } else {
        None
    }
}

/// The outcome of a hydration.
pub struct Session {
    pub bots: Seq<BotConfigView>,
    /// What the Keychain holds then.
    pub keychain: Map<EntryView, Seq<char>>,
    /// What the Keychain was given to store, in order.
    pub given: Seq<(EntryView, Seq<char>)>,
    pub migrated: bool,
}

/// The rest of a hydration with a Keychain that holds what it was given:
/// `accepts` tells of which bots it takes the token.
pub open spec fn session(
    s: Step,
    keychain: Map<EntryView, Seq<char>>,
    accepts: spec_fn(int) -> bool,
) -> Session
    decreases answers_left(s.hydration, s.bots),
{
    match s.action {
        ActionView::Read { entry } if s.hydration.phase == Phase::Reading && s.hydration.wf(
            s.bots,
        ) => {
            let answer = EventView::Found { token: kept(keychain, entry) };
            session(next_step(s.hydration, s.bots, answer), keychain, accepts)
        },
        ActionView::Store { entry, token } if s.hydration.phase == Phase::Storing
            && s.hydration.wf(s.bots) => {
            let accepted = accepts(s.hydration.next);
            let then = if accepted {
                keychain.insert(entry, token)
            } else {
                keychain
            };
            let rest = session(
                next_step(s.hydration, s.bots, EventView::Stored { accepted }),
                then,
                accepts,
            );
            Session { given: seq![(entry, token)] + rest.given, ..rest }
        },
        _ => Session {
            bots: s.bots,
            keychain,
            given: Seq::empty(),
            migrated: s.hydration.migrated,
        },
    }
}

/// Whether no two bots have the same id.
pub open spec fn distinct_bots(bots: Seq<BotConfigView>) -> bool {
    forall|i: int, j: int|
        0 <= i < j < bots.len() ==> (#[trigger] bots[i]).id != (#[trigger] bots[j]).id
}

/// Whether the token of the bot `i` is in memory only.
pub open spec fn is_missing(
    bots: Seq<BotConfigView>,
    keychain: Map<EntryView, Seq<char>>,
    i: int,
) -> bool {
    needs_migration(bots[i], kept(keychain, entry_of(bots[i].id)))
}

/// The tokens of the bots from `from` on that are in memory only, each with its
/// bot's entry.
pub open spec fn missing(
    bots: Seq<BotConfigView>,
    keychain: Map<EntryView, Seq<char>>,
    from: int,
) -> Seq<(EntryView, Seq<char>)>
    decreases bots.len() - from,
{
    if from < 0 || from >= bots.len() {
        Seq::empty()
    } else {
        (if is_missing(bots, keychain, from) {
            seq![(entry_of(bots[from].id), bots[from].token)]
        } else {
            Seq::empty()
        }) + missing(bots, keychain, from + 1)
    }
}

/// What is missing depends on the bots from `from` on and their entries alone.
proof fn lemma_missing_same(
    a: Seq<BotConfigView>,
    b: Seq<BotConfigView>,
    ka: Map<EntryView, Seq<char>>,
    kb: Map<EntryView, Seq<char>>,
    from: int,
)
    requires
        0 <= from,
        a.len() == b.len(),
        forall|i: int| from <= i < a.len() ==> #[trigger] a[i] == b[i],
        forall|i: int|
            from <= i < a.len() ==> kept(ka, entry_of((#[trigger] a[i]).id)) == kept(
                kb,
                entry_of(a[i].id),
            ),
    ensures
        missing(a, ka, from) == missing(b, kb, from),
    decreases a.len() - from,
{
    if from < a.len() {
        assert(a[from] == b[from]);
        lemma_missing_same(a, b, ka, kb, from + 1);
    }
}

/// Whether some bot from `from` on has a token that is missing and taken.
pub open spec fn some_taken(
    bots: Seq<BotConfigView>,
    keychain: Map<EntryView, Seq<char>>,
    accepts: spec_fn(int) -> bool,
    from: int,
) -> bool {
    exists|i: int|
        from <= i < bots.len() && 0 <= i && #[trigger] is_missing(bots, keychain, i) && accepts(i)
}

/// The rest of a hydration that goes on to the bot `i`.
proof fn lemma_session(
    i: int,
    migrated: bool,
    bots: Seq<BotConfigView>,
    keychain: Map<EntryView, Seq<char>>,
    accepts: spec_fn(int) -> bool,
)
    requires
        0 <= i <= bots.len(),
        distinct_bots(bots),
    ensures
        ({
            let e = session(ask(i, migrated, bots), keychain, accepts);
            &&& e.bots.len() == bots.len()
            &&& forall|j: int|
                0 <= j < bots.len() ==> #[trigger] e.bots[j] == (if j < i {
                    bots[j]
                } else {
                    hydrated(bots[j], kept(keychain, entry_of(bots[j].id)))
                })
            &&& e.given == missing(bots, keychain, i)
            &&& e.migrated == (migrated || some_taken(bots, keychain, accepts, i))
            &&& forall|k: EntryView|
                #[trigger] keychain.contains_key(k) ==> e.keychain.contains_key(k)
                    && e.keychain[k] == keychain[k]
            &&& forall|j: int|
                i <= j < bots.len() && #[trigger] is_missing(bots, keychain, j) && accepts(j)
                    ==> kept(e.keychain, entry_of(bots[j].id)) == Some(bots[j].token)
            &&& forall|k: EntryView| #[trigger]
                e.keychain.contains_key(k) && !keychain.contains_key(k) ==> exists|j: int|
                    i <= j < bots.len() && #[trigger] is_missing(bots, keychain, j) && accepts(j)
                        && k == entry_of(bots[j].id)
        }),
    decreases bots.len() - i,
{
    let e = session(ask(i, migrated, bots), keychain, accepts);
    if i < bots.len() {
        let bot = bots[i];
        let own = entry_of(bot.id);
        let found = kept(keychain, own);
        let filled = bots.update(i, hydrated(bot, found));
        assert(distinct_bots(filled)) by {
            assert forall|a: int, b: int| 0 <= a < b < filled.len() implies (
            #[trigger] filled[a]).id != (#[trigger] filled[b]).id by {
                assert(bots[a].id != bots[b].id);
            }
        }
        let read = next_step(
            ask(i, migrated, bots).hydration,
            bots,
            EventView::Found { token: found },
        );
        assert(e == session(read, keychain, accepts));
        let taken = is_missing(bots, keychain, i) && accepts(i);
        let later = if taken {
            keychain.insert(own, bot.token)
        } else {
            keychain
        };
        let rest = session(ask(i + 1, migrated || taken, filled), later, accepts);
        lemma_session(i + 1, migrated || taken, filled, later, accepts);
        if is_missing(bots, keychain, i) {
            let stored = next_step(
                read.hydration,
                filled,
                EventView::Stored { accepted: accepts(i) },
            );
            assert(stored == ask(i + 1, migrated || accepts(i), filled));
            assert(e == (Session { given: seq![(own, bot.token)] + rest.given, ..rest }));
        } else {
            assert(e == rest);
        }
        // The entries of the later bots are other ones.
        assert forall|j: int| i + 1 <= j < bots.len() implies kept(
            later,
            entry_of((#[trigger] bots[j]).id),
        ) == kept(keychain, entry_of(bots[j].id)) by {
            assert(bots[i].id != bots[j].id);
        }
        assert forall|j: int| i + 1 <= j < bots.len() implies #[trigger] is_missing(filled, later, j)
            == is_missing(bots, keychain, j) by {
            assert(filled[j] == bots[j]);
        }
        assert forall|j: int| i + 1 <= j < filled.len() implies #[trigger] filled[j]
            == bots[j] by {}
        lemma_missing_same(filled, bots, later, keychain, i + 1);
        assert(e.given =~= missing(bots, keychain, i));
        assert(some_taken(bots, keychain, accepts, i) == (taken || some_taken(
            filled,
            later,
            accepts,
            i + 1,
        ))) by {
            if some_taken(bots, keychain, accepts, i) {
                let j = choose|j: int|
                    i <= j < bots.len() && 0 <= j && #[trigger] is_missing(bots, keychain, j)
                        && accepts(j);
                if j > i {
                    assert(is_missing(filled, later, j));
                }
            }
            if some_taken(filled, later, accepts, i + 1) {
                let j = choose|j: int|
                    i + 1 <= j < filled.len() && 0 <= j && #[trigger] is_missing(filled, later, j)
                        && accepts(j);
                assert(is_missing(bots, keychain, j));
            }
        }
        assert forall|j: int| 0 <= j < bots.len() implies #[trigger] e.bots[j] == (if j < i {
            bots[j]
        } else {
            hydrated(bots[j], kept(keychain, entry_of(bots[j].id)))
        }) by {
            assert(e.bots[j] == rest.bots[j]);
            if j > i {
                assert(filled[j] == bots[j]);
            }
        }
        assert forall|k: EntryView| #[trigger] keychain.contains_key(k) implies e.keychain.contains_key(
            k,
        ) && e.keychain[k] == keychain[k] by {
            assert(later.contains_key(k));
        }
        assert forall|j: int|
            i <= j < bots.len() && #[trigger] is_missing(bots, keychain, j) && accepts(
                j,
            ) implies kept(e.keychain, entry_of(bots[j].id)) == Some(bots[j].token) by {
            if j == i {
                assert(later.contains_key(own));
            } else {
                assert(is_missing(filled, later, j));
                assert(filled[j] == bots[j]);
            }
        }
        assert forall|k: EntryView| #[trigger]
            e.keychain.contains_key(k) && !keychain.contains_key(k) implies exists|j: int|
            i <= j < bots.len() && #[trigger] is_missing(bots, keychain, j) && accepts(j) && k
                == entry_of(bots[j].id) by {
            if later.contains_key(k) {
                assert(k == own);
                assert(is_missing(bots, keychain, i));
            } else {
                assert(rest.keychain.contains_key(k));
                let j = choose|j: int|
                    i + 1 <= j < filled.len() && #[trigger] is_missing(filled, later, j) && accepts(
                        j,
                    ) && k == entry_of(filled[j].id);
                assert(is_missing(bots, keychain, j));
                assert(filled[j] == bots[j]);
            }
        }
    }
}

/// Tokens are migrated where they are missing and nowhere else: the Keychain is
/// given exactly the tokens that are in memory only, each for its bot's own
/// entry, and no entry that exists is overwritten. Each bot has the token of
/// its entry afterwards, or keeps its own. Something was migrated exactly where
/// the Keychain took one of the tokens.
pub proof fn missing_tokens_are_migrated(
    bots: Seq<BotConfigView>,
    keychain: Map<EntryView, Seq<char>>,
    accepts: spec_fn(int) -> bool,
    i: int,
    k: EntryView,
)
    requires
        distinct_bots(bots),
    ensures
        ({
            let e = session(start(bots), keychain, accepts);
            &&& e.given == missing(bots, keychain, 0)
            &&& e.migrated <==> some_taken(bots, keychain, accepts, 0)
            &&& e.bots.len() == bots.len()
            &&& 0 <= i < bots.len() ==> e.bots[i] == hydrated(
                bots[i],
                kept(keychain, entry_of(bots[i].id)),
            )
            &&& 0 <= i < bots.len() && is_missing(bots, keychain, i) && accepts(i) ==> kept(
                e.keychain,
                entry_of(bots[i].id),
            ) == Some(bots[i].token)
            &&& keychain.contains_key(k) ==> kept(e.keychain, k) == kept(keychain, k)
        }),
{
    lemma_session(0, false, bots, keychain, accepts);
}

/// Whether the bot `i` and its entry agree: the entry holds the bot's token, or
/// neither has one.
pub open spec fn is_settled(
    bots: Seq<BotConfigView>,
    keychain: Map<EntryView, Seq<char>>,
    i: int,
) -> bool {
    match kept(keychain, entry_of(bots[i].id)) {
        Some(token) => bots[i].token == token,
        None => bots[i].token.len() == 0,
    }
}

/// Whether two bots from `from` on have the same id, which has no entry, and only
/// the later one has a token.
pub open spec fn has_late_token(
    bots: Seq<BotConfigView>,
    keychain: Map<EntryView, Seq<char>>,
    from: int,
) -> bool {
    exists|i: int, j: int|
        from <= i < j < bots.len() && (#[trigger] bots[i]).id == (#[trigger] bots[j]).id
            && !keychain.contains_key(entry_of(bots[i].id)) && bots[i].token.len() == 0
            && bots[j].token.len() > 0
}

/// A hydration whose tokens are all taken leaves every bot in agreement with its
/// entry.
proof fn lemma_settles(
    i: int,
    migrated: bool,
    bots: Seq<BotConfigView>,
    keychain: Map<EntryView, Seq<char>>,
    accepts: spec_fn(int) -> bool,
)
    requires
        0 <= i <= bots.len(),
        !has_late_token(bots, keychain, i),
        forall|j: int| i <= j < bots.len() ==> #[trigger] accepts(j),
    ensures
        ({
            let e = session(ask(i, migrated, bots), keychain, accepts);
            &&& e.bots.len() == bots.len()
            &&& forall|j: int| 0 <= j < i ==> #[trigger] e.bots[j] == bots[j]
            &&& forall|j: int| i <= j < bots.len() ==> (#[trigger] e.bots[j]).id == bots[j].id
            &&& forall|j: int| i <= j < bots.len() ==> #[trigger] is_settled(e.bots, e.keychain, j)
            &&& forall|k: EntryView| #[trigger]
                keychain.contains_key(k) ==> e.keychain.contains_key(k) && e.keychain[k]
                    == keychain[k]
            &&& forall|k: EntryView| #[trigger]
                e.keychain.contains_key(k) && !keychain.contains_key(k) ==> exists|j: int|
                    i <= j < bots.len() && entry_of((#[trigger] bots[j]).id) == k
                        && bots[j].token.len() > 0
        }),
    decreases bots.len() - i,
{
    let e = session(ask(i, migrated, bots), keychain, accepts);
    if i < bots.len() {
        let bot = bots[i];
        let own = entry_of(bot.id);
        let found = kept(keychain, own);
        let filled = bots.update(i, hydrated(bot, found));
        let read = next_step(
            ask(i, migrated, bots).hydration,
            bots,
            EventView::Found { token: found },
        );
        assert(e == session(read, keychain, accepts));
        assert(accepts(i));
        let stores = needs_migration(bot, found);
        let later = if stores {
            keychain.insert(own, bot.token)
        } else {
            keychain
        };
        let rest = session(ask(i + 1, migrated || stores, filled), later, accepts);
        assert(!has_late_token(filled, later, i + 1)) by {
            if has_late_token(filled, later, i + 1) {
                let (a, b) = choose|a: int, b: int|
                    i + 1 <= a < b < filled.len() && (#[trigger] filled[a]).id == (
                    #[trigger] filled[b]).id && !later.contains_key(entry_of(filled[a].id))
                        && filled[a].token.len() == 0 && filled[b].token.len() > 0;
                assert(filled[a] == bots[a] && filled[b] == bots[b]);
                assert(!keychain.contains_key(entry_of(bots[a].id)));
                assert(bots[a].id == bots[b].id);
            }
        }
        lemma_settles(i + 1, migrated || stores, filled, later, accepts);
        if stores {
            let stored = next_step(
                read.hydration,
                filled,
                EventView::Stored { accepted: accepts(i) },
            );
            assert(stored == ask(i + 1, true, filled));
            assert(e == (Session { given: seq![(own, bot.token)] + rest.given, ..rest }));
        } else {
            assert(e == rest);
        }
        assert forall|k: EntryView| #[trigger] keychain.contains_key(
            k,
        ) implies e.keychain.contains_key(k) && e.keychain[k] == keychain[k] by {
            assert(later.contains_key(k));
        }
        assert forall|k: EntryView| #[trigger]
            e.keychain.contains_key(k) && !keychain.contains_key(k) implies exists|j: int|
            i <= j < bots.len() && entry_of((#[trigger] bots[j]).id) == k && bots[j].token.len()
                > 0 by {
            if later.contains_key(k) {
                assert(k == own);
                assert(entry_of(bots[i].id) == k);
            } else {
                assert(rest.keychain.contains_key(k));
                let j = choose|j: int|
                    i + 1 <= j < filled.len() && entry_of((#[trigger] filled[j]).id) == k
                        && filled[j].token.len() > 0;
                assert(filled[j] == bots[j]);
            }
        }
        assert(e.bots[i] == filled[i]);
        assert forall|j: int| 0 <= j < i implies #[trigger] e.bots[j] == bots[j] by {
            assert(filled[j] == bots[j]);
        }
        assert forall|j: int| i <= j < bots.len() implies (#[trigger] e.bots[j]).id
            == bots[j].id by {
            if j > i {
                assert(rest.bots[j].id == filled[j].id);
            }
        }
        assert(is_settled(e.bots, e.keychain, i)) by {
            if later.contains_key(own) {
                assert(e.keychain.contains_key(own) && e.keychain[own] == later[own]);
            } else if e.keychain.contains_key(own) {
                let j = choose|j: int|
                    i <= j < bots.len() && entry_of((#[trigger] bots[j]).id) == own
                        && bots[j].token.len() > 0;
                assert(entry_of(bots[j].id).account == own.account);
                assert(bots[i].id == bots[j].id);
                assert(has_late_token(bots, keychain, i));
            }
        }
        assert forall|j: int| i <= j < bots.len() implies #[trigger] is_settled(
            e.bots,
            e.keychain,
            j,
        ) by {
            if j > i {
                assert(is_settled(rest.bots, rest.keychain, j));
            }
        }
    }
}

/// Where every bot agrees with its entry, hydration changes nothing.
proof fn lemma_quiet(
    i: int,
    bots: Seq<BotConfigView>,
    keychain: Map<EntryView, Seq<char>>,
    accepts: spec_fn(int) -> bool,
)
    requires
        0 <= i <= bots.len(),
        forall|j: int| i <= j < bots.len() ==> #[trigger] is_settled(bots, keychain, j),
    ensures
        session(ask(i, false, bots), keychain, accepts) == (Session {
            bots,
            keychain,
            given: Seq::empty(),
            migrated: false,
        }),
    decreases bots.len() - i,
{
    if i < bots.len() {
        let found = kept(keychain, entry_of(bots[i].id));
        assert(is_settled(bots, keychain, i));
        assert(hydrated(bots[i], found) == bots[i]);
        assert(bots.update(i, bots[i]) =~= bots);
        lemma_quiet(i + 1, bots, keychain, accepts);
    }
}

/// Once every token was migrated, hydrating again changes nothing: nothing is
/// given to the Keychain, the bots and the Keychain stay as they are, and the
/// settings need not be saved again. Left out are settings in which a bot without
/// a token comes before another of the same id that has one to migrate: the
/// first gets that token only the next time.
pub proof fn hydrating_again_changes_nothing(
    bots: Seq<BotConfigView>,
    keychain: Map<EntryView, Seq<char>>,
    accepts: spec_fn(int) -> bool,
    accepts_again: spec_fn(int) -> bool,
)
    requires
        !has_late_token(bots, keychain, 0),
        forall|i: int| 0 <= i < bots.len() ==> #[trigger] accepts(i),
    ensures
        ({
            let once = session(start(bots), keychain, accepts);
            let twice = session(start(once.bots), once.keychain, accepts_again);
            &&& twice.bots == once.bots
            &&& twice.keychain == once.keychain
            &&& twice.given == Seq::<(EntryView, Seq<char>)>::empty()
            &&& !twice.migrated
        }),
{
    let once = session(start(bots), keychain, accepts);
    lemma_settles(0, false, bots, keychain, accepts);
    lemma_quiet(0, once.bots, once.keychain, accepts_again);
}

/// Settings in which no two bots have the same id have no such bots.
pub proof fn distinct_bots_have_no_late_token(
    bots: Seq<BotConfigView>,
    keychain: Map<EntryView, Seq<char>>,
)
    requires
        distinct_bots(bots),
    ensures
        !has_late_token(bots, keychain, 0),
{
}

} // verus!
