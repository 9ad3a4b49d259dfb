//! What is known of each bot while the app runs, and what of it outlives a
//! restart.

use vstd::prelude::*;
use vstd::string::*;
use crate::text;

verus! {

/// Live status for one bot, surfaced to the UI and the tray. The message
/// counters and the long-poll `offset` are persisted across restarts; the
/// transient fields (`running`, `username`, `last_error`, `last_daily_error`)
/// are not.
#[derive(Debug, PartialEq, Eq)]
pub struct BotStatus {
    pub running: bool,
    pub username: Option<String>,
    pub last_error: Option<String>,
    /// Error from the daily send-back, kept separate from `last_error` so the
    /// poll loop (which clears `last_error` on every successful getUpdates) can't
    /// wipe it within seconds and hide a failed daily send. Transient.
    pub last_daily_error: Option<String>,
    pub last_message_at: Option<String>,
    pub message_count: u64,
    /// Next Telegram getUpdates offset. Persisted so a restart doesn't
    /// re-deliver (and re-append) already-saved messages.
    pub offset: i64,
}

/// What a [`BotStatus`] says.
pub struct StatusView {
    pub running: bool,
    pub username: Option<Seq<char>>,
    pub last_error: Option<Seq<char>>,
    pub last_daily_error: Option<Seq<char>>,
    pub last_message_at: Option<Seq<char>>,
    pub message_count: u64,
    pub offset: i64,
}

impl View for BotStatus {
    type V = StatusView;

    open spec fn view(&self) -> StatusView {
        StatusView {
            running: self.running,
            username: text::opt_text(self.username),
            last_error: text::opt_text(self.last_error),
            last_daily_error: text::opt_text(self.last_daily_error),
            last_message_at: text::opt_text(self.last_message_at),
            message_count: self.message_count,
            offset: self.offset,
        }
    }
}

/// The status of a bot that nothing is known of.
pub open spec fn blank() -> StatusView {
    StatusView {
        running: false,
        username: None,
        last_error: None,
        last_daily_error: None,
        last_message_at: None,
        message_count: 0,
        offset: 0,
    }
}

impl StatusView {
    /// What is left of a status after a restart.
    pub open spec fn restored(self) -> StatusView {
        StatusView {
            last_message_at: self.last_message_at,
            message_count: self.message_count,
            offset: self.offset,
            ..blank()
        }
    }

    /// A status with an error in it.
    pub open spec fn failed(self, message: Seq<char>) -> StatusView {
        StatusView { last_error: Some(message), ..self }
    }

    /// The status after a note was saved that Telegram delivered.
    pub open spec fn saved(self, at: Seq<char>) -> StatusView {
        StatusView {
            message_count: (self.message_count + 1) as u64,
            last_message_at: Some(at),
            last_error: None,
            ..self
        }
    }

    /// The status after a note was captured locally.
    pub open spec fn captured(self, at: Seq<char>) -> StatusView {
        StatusView {
            message_count: (self.message_count + 1) as u64,
            last_message_at: Some(at),
            ..self
        }
    }

    /// The status after getMe told who the bot is, or failed to.
    pub open spec fn identified(self, identity: Result<Seq<char>, Seq<char>>) -> StatusView {
        match identity {
            Ok(name) => StatusView {
                username: Some(name),
                last_error: None,
                running: true,
                ..self
            },
            Err(e) => StatusView {
                running: true,
                last_error: Some("getMe failed: "@ + e),
                ..self
            },
        }
    }
}

impl Default for BotStatus {
    fn default() -> (r: BotStatus)
        ensures
            r@ == blank(),
    {
        BotStatus {
            running: false,
            username: None,
            last_error: None,
            last_daily_error: None,
            last_message_at: None,
            message_count: 0,
            offset: 0,
        }
    }
}

impl Clone for BotStatus {
    fn clone(&self) -> (r: BotStatus)
        ensures
            r@ == self@,
    {
        BotStatus {
            running: self.running,
            username: text::copy_opt(&self.username),
            last_error: text::copy_opt(&self.last_error),
            last_daily_error: text::copy_opt(&self.last_daily_error),
            last_message_at: text::copy_opt(&self.last_message_at),
            message_count: self.message_count,
            offset: self.offset,
        }
    }
}

impl BotStatus {
    /// What is left of this status after a restart.
    pub fn restored(&self) -> (r: BotStatus)
        ensures
            r@ == self@.restored(),
    {
        BotStatus {
            running: false,
            username: None,
            last_error: None,
            last_daily_error: None,
            last_message_at: text::copy_opt(&self.last_message_at),
            message_count: self.message_count,
            offset: self.offset,
        }
    }

    /// Records an error.
    pub fn fail(&mut self, message: String)
        ensures
            final(self)@ == old(self)@.failed(message@),
    {
        self.last_error = Some(message);
    }

    /// Records that a note was saved which Telegram delivered, at the time of
    /// day `at`.
    pub fn note_saved(&mut self, at: String)
        requires
            old(self).message_count < u64::MAX,
        ensures
            final(self)@ == old(self)@.saved(at@),
    {
        self.message_count = self.message_count + 1;
        self.last_message_at = Some(at);
        self.last_error = None;
    }

    /// Records that a note was captured locally, at the time of day `at`.
    pub fn note_captured(&mut self, at: String)
        requires
            old(self).message_count < u64::MAX,
        ensures
            final(self)@ == old(self)@.captured(at@),
    {
        self.message_count = self.message_count + 1;
        self.last_message_at = Some(at);
    }

    /// Records what getMe told at the start of a bot.
    pub fn identify(&mut self, identity: Result<String, String>)
        ensures
            final(self)@ == old(self)@.identified(crate::api::text_result(identity)),
    {
        match identity {
            Ok(name) => {
                self.username = Some(name);
                self.last_error = None;
                self.running = true;
            },
            Err(e) => {
                let mut message = "getMe failed: ".to_owned();
                message.append(e.as_str());
                self.running = true;
                self.last_error = Some(message);
            },
        }
    }

    /// Forgets an error of the daily send.
    pub fn clear_daily_error(&mut self)
        ensures
            final(self)@ == (StatusView { last_daily_error: None, ..old(self)@ }),
    {
        self.last_daily_error = None;
    }

    /// Marks the bot as running, or as stopped.
    pub fn set_running(&mut self, running: bool)
        ensures
            final(self)@ == (StatusView { running, ..old(self)@ }),
    {
        self.running = running;
    }
}

/// Restarting twice loses no more than restarting once: what is persisted
/// comes back as it was.
pub proof fn restoring_is_stable(s: StatusView)
    ensures
        s.restored().restored() == s.restored(),
        s.restored().offset == s.offset,
        s.restored().message_count == s.message_count,
        s.restored().last_message_at == s.last_message_at,
{
}

// ---- the statuses of all bots ----

/// The statuses of all bots, by the bots' ids.
pub struct StatusBoard {
    entries: Vec<(String, BotStatus)>,
}

/// The status under `id` in a list of statuses: the first of that id.
pub open spec fn lookup(entries: Seq<(String, BotStatus)>, id: Seq<char>) -> Option<StatusView>
    decreases entries.len(),
{
    if entries.len() == 0 {
        None
    } else if entries[0].0@ == id {
        Some(entries[0].1@)
    } else {
        lookup(entries.drop_first(), id)
    }
}

/// Whether no id occurs twice.
pub open spec fn distinct_ids(entries: Seq<(String, BotStatus)>) -> bool {
    forall|i: int, j: int|
        0 <= i < j < entries.len() ==> (#[trigger] entries[i]).0@ != (#[trigger] entries[j]).0@
}

proof fn lemma_lookup_at(entries: Seq<(String, BotStatus)>, i: int)
    requires
        distinct_ids(entries),
        0 <= i < entries.len(),
    ensures
        lookup(entries, entries[i].0@) == Some(entries[i].1@),
    decreases entries.len(),
{
    if i > 0 {
        let rest = entries.drop_first();
        assert(entries[0].0@ != entries[i].0@);
        assert(rest[i - 1] == entries[i]);
        assert(distinct_ids(rest)) by {
            assert forall|a: int, b: int| 0 <= a < b < rest.len() implies (#[trigger] rest[a]).0@ != (
            #[trigger] rest[b]).0@ by {
                assert(rest[a] == entries[a + 1]);
                assert(rest[b] == entries[b + 1]);
            }
        }
        lemma_lookup_at(rest, i - 1);
    }
}

proof fn lemma_lookup_absent(entries: Seq<(String, BotStatus)>, id: Seq<char>)
    requires
        forall|i: int| 0 <= i < entries.len() ==> (#[trigger] entries[i]).0@ != id,
    ensures
        lookup(entries, id) is None,
    decreases entries.len(),
{
    if entries.len() > 0 {
        let rest = entries.drop_first();
        assert forall|i: int| 0 <= i < rest.len() implies (#[trigger] rest[i]).0@ != id by {
            assert(rest[i] == entries[i + 1]);
        }
        lemma_lookup_absent(rest, id);
    }
}

/// A list of ids with `id` in it: behind the others, where it is new.
pub open spec fn with_id(ids: Seq<Seq<char>>, id: Seq<char>) -> Seq<Seq<char>> {
    if ids.contains(id) {
        ids
    } else {
        ids.push(id)
    }
}

/// A list of ids without `id`.
pub open spec fn without_id(ids: Seq<Seq<char>>, id: Seq<char>) -> Seq<Seq<char>>
    decreases ids.len(),
{
    if ids.len() == 0 {
        Seq::empty()
    } else if ids.last() == id {
        without_id(ids.drop_last(), id)
    } else {
        without_id(ids.drop_last(), id).push(ids.last())
    }
}

/// A list that does not hold `id` is left as it is.
proof fn lemma_without_absent(ids: Seq<Seq<char>>, id: Seq<char>)
    requires
        !ids.contains(id),
    ensures
        without_id(ids, id) == ids,
    decreases ids.len(),
{
    if ids.len() > 0 {
        let front = ids.drop_last();
        assert forall|i: int| 0 <= i < front.len() implies front[i] != id by {
            assert(ids[i] == front[i]);
        }
        assert(ids[ids.len() - 1] == ids.last());
        lemma_without_absent(front, id);
        assert(front.push(ids.last()) =~= ids);
    } else {
        assert(without_id(ids, id) =~= ids);
    }
}

/// Where `id` stands once, the list without it is the list with that place
/// taken out.
proof fn lemma_without_at(ids: Seq<Seq<char>>, at: int)
    requires
        0 <= at < ids.len(),
        ids.no_duplicates(),
    ensures
        without_id(ids, ids[at]) == ids.remove(at),
    decreases ids.len(),
{
    let id = ids[at];
    let front = ids.drop_last();
    if at == ids.len() - 1 {
        assert forall|i: int| 0 <= i < front.len() implies front[i] != id by {
            assert(ids[i] == front[i]);
        }
        lemma_without_absent(front, id);
        assert(ids.remove(at) =~= front);
    } else {
        assert(front[at] == id);
        assert(front.no_duplicates());
        lemma_without_at(front, at);
        assert(ids.last() != id);
        assert(front.remove(at).push(ids.last()) =~= ids.remove(at));
    }
}

impl StatusBoard {
    pub closed spec fn wf(self) -> bool {
        distinct_ids(self.entries@)
    }

    /// What is known of the bot `id`, if anything.
    pub closed spec fn at(self, id: Seq<char>) -> Option<StatusView> {
        lookup(self.entries@, id)
    }

    /// What is known of the bot `id`, or a blank status.
    pub open spec fn at_or_blank(self, id: Seq<char>) -> StatusView {
        match self.at(id) {
            Some(s) => s,
            None => blank(),
        }
    }

    /// The ids of the bots, in the order in which they came to be known.
    pub closed spec fn ids(self) -> Seq<Seq<char>> {
        self.entries@.map_values(|e: (String, BotStatus)| e.0@)
    }

    pub fn new() -> (r: StatusBoard)
        ensures
            r.wf(),
            forall|id: Seq<char>| (#[trigger] r.at(id)) is None,
            r.ids() == Seq::<Seq<char>>::empty(),
    {
        let r = StatusBoard { entries: Vec::new() };
        proof {
            assert(r.ids() =~= Seq::empty());
        }
        r
    }

    /// How many bots are known.
    pub fn len(&self) -> (r: usize)
        ensures
            r == self.ids().len(),
    {
        self.entries.len()
    }

    /// The id and the status of the `i`th bot that is known.
    pub fn entry(&self, i: usize) -> (r: (String, BotStatus))
        requires
            self.wf(),
            i < self.ids().len(),
        ensures
            r.0@ == self.ids()[i as int],
            self.at(r.0@) == Some(r.1@),
    {
        proof {
            lemma_lookup_at(self.entries@, i as int);
        }
        (self.entries[i].0.clone(), self.entries[i].1.clone())
    }

    /// Where the bot `id` is in the list.
    fn find(&self, id: &str) -> (r: Option<usize>)
        requires
            self.wf(),
        ensures
            match r {
                Some(i) => i < self.entries@.len() && self.entries@[i as int].0@ == id@,
                None => forall|i: int|
                    0 <= i < self.entries@.len() ==> (#[trigger] self.entries@[i]).0@ != id@,
            },
    {
        let mut i: usize = 0;
        while i < self.entries.len()
            invariant
                i <= self.entries@.len(),
                forall|k: int| 0 <= k < i ==> (#[trigger] self.entries@[k]).0@ != id@,
            decreases self.entries@.len() - i,
        {
            if text::same_text(self.entries[i].0.as_str(), id) {
                return Some(i);
            }
            i = i + 1;
        }
        None
    }

    /// Whether anything is known of the bot `id`.
    pub fn contains(&self, id: &str) -> (r: bool)
        requires
            self.wf(),
        ensures
            r == (self.at(id@) is Some),
    {
        match self.find(id) {
            Some(i) => {
                proof {
                    lemma_lookup_at(self.entries@, i as int);
                }
                true
            },
            None => {
                proof {
                    lemma_lookup_absent(self.entries@, id@);
                }
                false
            },
        }
    }

    /// What is known of the bot `id`; a blank status where nothing is.
    pub fn status_of(&self, id: &str) -> (r: BotStatus)
        requires
            self.wf(),
        ensures
            r@ == self.at_or_blank(id@),
    {
        match self.find(id) {
            Some(i) => {
                proof {
                    lemma_lookup_at(self.entries@, i as int);
                }
                self.entries[i].1.clone()
            },
            None => {
                proof {
                    lemma_lookup_absent(self.entries@, id@);
                }
                BotStatus::default()
            },
        }
    }

    /// Records `status` for the bot `id`.
    pub fn set(&mut self, id: &str, status: BotStatus)
        requires
            old(self).wf(),
        ensures
            final(self).wf(),
            final(self).at(id@) == Some(status@),
            forall|other: Seq<char>|
                other != id@ ==> #[trigger] final(self).at(other) == old(self).at(other),
            final(self).ids() == with_id(old(self).ids(), id@),
    {
        let ghost before = self.entries@;
        match self.find(id) {
            Some(i) => {
                proof {
                    lemma_lookup_at(before, i as int);
                }
                let key = self.entries[i].0.clone();
                self.entries.set(i, (key, status));
                proof {
                    let after = self.entries@;
                    assert(distinct_ids(after)) by {
                        assert forall|a: int, b: int| 0 <= a < b < after.len() implies (
                        #[trigger] after[a]).0@ != (#[trigger] after[b]).0@ by {
                            assert(before[a].0@ != before[b].0@);
                        }
                    }
                    lemma_lookup_at(after, i as int);
                    assert forall|other: Seq<char>| other != id@ implies lookup(after, other)
                        == lookup(before, other) by {
                        lemma_lookup_same(before, after, other);
                    }
                    assert(self.ids() =~= old(self).ids());
                    assert(old(self).ids()[i as int] == id@);
                }
            },
            None => {
                proof {
                    lemma_lookup_absent(before, id@);
                }
                self.entries.push((id.to_owned(), status));
                proof {
                    let after = self.entries@;
                    assert(distinct_ids(after)) by {
                        assert forall|a: int, b: int| 0 <= a < b < after.len() implies (
                        #[trigger] after[a]).0@ != (#[trigger] after[b]).0@ by {
                            assert(after[a] == before[a]);
                            if b < before.len() {
                                assert(after[b] == before[b]);
                            }
                        }
                    }
                    lemma_lookup_at(after, before.len() as int);
                    assert forall|other: Seq<char>| other != id@ implies lookup(after, other)
                        == lookup(before, other) by {
                        lemma_lookup_push(before, after.last(), other);
                    }
                    assert(self.ids() =~= old(self).ids().push(id@));
                    assert(!old(self).ids().contains(id@)) by {
                        assert forall|k: int| 0 <= k < before.len() implies old(self).ids()[k]
                            != id@ by {
                            assert(old(self).ids()[k] == before[k].0@);
                        }
                    }
                }
            },
        }
    }

    /// Marks the bot `id` as running.
    pub fn mark_started(&mut self, id: &str)
        requires
            old(self).wf(),
        ensures
            final(self).wf(),
            final(self).at(id@) == Some(
                (StatusView { running: true, ..old(self).at_or_blank(id@) }),
            ),
            forall|other: Seq<char>|
                other != id@ ==> #[trigger] final(self).at(other) == old(self).at(other),
            final(self).ids() == with_id(old(self).ids(), id@),
    {
        let mut s = self.status_of(id);
        s.set_running(true);
        self.set(id, s);
    }

    /// Marks the bot `id` as stopped, where anything is known of it.
    pub fn mark_stopped(&mut self, id: &str)
        requires
            old(self).wf(),
        ensures
            final(self).wf(),
            final(self).at(id@) == (match old(self).at(id@) {
                Some(s) => Some((StatusView { running: false, ..s })),
                None => None,
            }),
            forall|other: Seq<char>|
                other != id@ ==> #[trigger] final(self).at(other) == old(self).at(other),
            final(self).ids() == old(self).ids(),
    {
        if self.contains(id) {
            proof {
                every_known_bot_is_listed(*self, id@);
            }
            let mut s = self.status_of(id);
            s.set_running(false);
            self.set(id, s);
        }
    }

    /// Records that a note was captured locally for the bot `id`, at the time of
    /// day `at`.
    pub fn mark_captured(&mut self, id: &str, at: String)
        requires
            old(self).wf(),
            old(self).at_or_blank(id@).message_count < u64::MAX,
        ensures
            final(self).wf(),
            final(self).at(id@) == Some(old(self).at_or_blank(id@).captured(at@)),
            forall|other: Seq<char>|
                other != id@ ==> #[trigger] final(self).at(other) == old(self).at(other),
            final(self).ids() == with_id(old(self).ids(), id@),
    {
        let mut s = self.status_of(id);
        s.note_captured(at);
        self.set(id, s);
    }

    /// Forgets the bot `id`.
    pub fn remove(&mut self, id: &str)
        requires
            old(self).wf(),
        ensures
            final(self).wf(),
            final(self).at(id@) is None,
            forall|other: Seq<char>|
                other != id@ ==> #[trigger] final(self).at(other) == old(self).at(other),
            final(self).ids() == without_id(old(self).ids(), id@),
    {
        let ghost before = self.entries@;
        match self.find(id) {
            Some(i) => {
                let _removed = self.entries.remove(i);
                proof {
                    let after = self.entries@;
                    let at = i as int;
                    assert forall|k: int| 0 <= k < after.len() implies #[trigger] after[k]
                        == before[if k < at { k } else { k + 1 }] by {}
                    assert(distinct_ids(after));
                    assert(self.ids() =~= old(self).ids().remove(at));
                    assert(old(self).ids()[at] == id@);
                    lemma_ids_distinct(before);
                    lemma_without_at(old(self).ids(), at);
                    assert forall|k: int| 0 <= k < after.len() implies (#[trigger] after[k]).0@
                        != id@ by {
                        let m = if k < at { k } else { k + 1 };
                        if m < at {
                            assert(before[m].0@ != before[at].0@);
                        } else {
                            assert(before[at].0@ != before[m].0@);
                        }
                    }
                    lemma_lookup_absent(after, id@);
                    assert forall|other: Seq<char>| other != id@ implies lookup(after, other)
                        == lookup(before, other) by {
                        lemma_lookup_removed(before, at, other);
                    }
                }
            },
            None => {
                proof {
                    lemma_lookup_absent(before, id@);
                    assert(!self.ids().contains(id@)) by {
                        assert forall|k: int| 0 <= k < before.len() implies self.ids()[k]
                            != id@ by {
                            assert(self.ids()[k] == before[k].0@);
                        }
                    }
                    lemma_without_absent(self.ids(), id@);
                }
            },
        }
    }
}

proof fn lemma_ids_distinct(entries: Seq<(String, BotStatus)>)
    requires
        distinct_ids(entries),
    ensures
        entries.map_values(|e: (String, BotStatus)| e.0@).no_duplicates(),
{
    let ids = entries.map_values(|e: (String, BotStatus)| e.0@);
    assert forall|i: int, j: int| 0 <= i < ids.len() && 0 <= j < ids.len() && i != j implies ids[i]
        != ids[j] by {
        assert(ids[i] == entries[i].0@);
        assert(ids[j] == entries[j].0@);
        if i < j {
            assert(entries[i].0@ != entries[j].0@);
        } else {
            assert(entries[j].0@ != entries[i].0@);
        }
    }
}

/// The list of ids holds each bot that is known, once, and no other: whoever
/// goes through it by index misses no status.
pub proof fn every_known_bot_is_listed(board: StatusBoard, id: Seq<char>)
    requires
        board.wf(),
    ensures
        board.ids().contains(id) <==> board.at(id) is Some,
        board.ids().no_duplicates(),
{
    let entries = board.entries@;
    lemma_ids_distinct(entries);
    if board.ids().contains(id) {
        let i = choose|i: int| 0 <= i < board.ids().len() && board.ids()[i] == id;
        assert(entries[i].0@ == id);
        lemma_lookup_at(entries, i);
    } else {
        assert forall|i: int| 0 <= i < entries.len() implies (#[trigger] entries[i]).0@ != id by {
            assert(board.ids()[i] == entries[i].0@);
        }
        lemma_lookup_absent(entries, id);
    }
}

proof fn lemma_lookup_push(
    entries: Seq<(String, BotStatus)>,
    last: (String, BotStatus),
    id: Seq<char>,
)
    requires
        last.0@ != id,
    ensures
        lookup(entries.push(last), id) == lookup(entries, id),
    decreases entries.len(),
{
    let longer = entries.push(last);
    if entries.len() > 0 {
        assert(longer[0] == entries[0]);
        assert(longer.drop_first() =~= entries.drop_first().push(last));
        lemma_lookup_push(entries.drop_first(), last, id);
    } else {
        assert(longer.drop_first() =~= Seq::empty());
        assert(lookup(longer.drop_first(), id) is None);
    }
}

/// A list in which only statuses under other ids differ has the same entry
/// under `id`.
proof fn lemma_lookup_same(
    a: Seq<(String, BotStatus)>,
    b: Seq<(String, BotStatus)>,
    id: Seq<char>,
)
    requires
        a.len() == b.len(),
        forall|i: int|
            0 <= i < a.len() ==> (#[trigger] a[i]).0@ == b[i].0@ && (a[i].0@ == id ==> a[i].1@
                == b[i].1@),
    ensures
        lookup(a, id) == lookup(b, id),
    decreases a.len(),
{
    if a.len() > 0 {
        let ra = a.drop_first();
        let rb = b.drop_first();
        assert forall|i: int| 0 <= i < ra.len() implies (#[trigger] ra[i]).0@ == rb[i].0@ && (
        ra[i].0@ == id ==> ra[i].1@ == rb[i].1@) by {
            assert(ra[i] == a[i + 1]);
        }
        lemma_lookup_same(ra, rb, id);
    }
}

proof fn lemma_lookup_removed(entries: Seq<(String, BotStatus)>, at: int, id: Seq<char>)
    requires
        0 <= at < entries.len(),
        entries[at].0@ != id,
    ensures
        lookup(entries.remove(at), id) == lookup(entries, id),
    decreases entries.len(),
{
    let shorter = entries.remove(at);
    if at == 0 {
        assert(shorter =~= entries.drop_first());
    } else {
        assert(shorter[0] == entries[0]);
        assert(shorter.drop_first() =~= entries.drop_first().remove(at - 1));
        lemma_lookup_removed(entries.drop_first(), at - 1, id);
    }
}

} // verus!
