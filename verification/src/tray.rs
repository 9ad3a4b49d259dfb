//! The menu bar: what it shows of each bot.

use vstd::prelude::*;
use vstd::string::*;
use crate::config::BotConfigView;
use crate::config::Config;
use crate::status::BotStatus;
use crate::status::StatusBoard;
use crate::status::StatusView;
use crate::text;

verus! {

/// What the tray shows of one bot.
pub struct Fact {
    pub id: Seq<char>,
    pub name: Seq<char>,
    pub enabled: bool,
    pub running: bool,
    /// Whether there is an error, of the bot or of its daily send.
    pub failed: bool,
    /// How many messages were saved.
    pub saved: u64,
}

/// What the tray shows of a bot with this status.
pub open spec fn fact(bot: BotConfigView, status: StatusView) -> Fact {
    Fact {
        id: bot.id,
        name: bot.name,
        enabled: bot.enabled,
        running: status.running,
        failed: status.last_error is Some || status.last_daily_error is Some,
        saved: status.message_count,
    }
}

/// What the tray shows of all bots.
pub open spec fn facts(bots: Seq<BotConfigView>, board: StatusBoard) -> Seq<Fact> {
    bots.map_values(|b: BotConfigView| fact(b, board.at_or_blank(b.id)))
}

// ---- the signature ----

pub open spec fn bool_text(b: bool) -> Seq<char> {
    if b {
        "true"@
    } else {
        "false"@
    }
}

/// What a bot adds to the signature.
pub open spec fn signature_entry(f: Fact) -> Seq<char> {
    f.id + "|"@ + f.name + "|"@ + bool_text(f.enabled) + "|"@ + bool_text(f.running) + "|"@
        + bool_text(f.failed) + "|"@ + text::dec(f.saved as nat) + ";"@
}

/// The signature of everything that the tray shows.
pub open spec fn signature(list: Seq<Fact>) -> Seq<char>
    decreases list.len(),
{
    if list.len() == 0 {
        Seq::empty()
    } else {
        signature(list.drop_last()) + signature_entry(list.last())
    }
}

fn append_bool(out: &mut String, b: bool)
    ensures
        final(out)@ == old(out)@ + bool_text(b),
{
    if b {
        out.append("true");
    } else {
        out.append("false");
    }
}

fn has_error(st: &BotStatus) -> (r: bool)
    ensures
        r == (st@.last_error is Some || st@.last_daily_error is Some),
{
    st.last_error.is_some() || st.last_daily_error.is_some()
}

fn write_entry(id: &str, name: &str, enabled: bool, st: &BotStatus) -> (r: String)
    ensures
        r@ == signature_entry(
            Fact {
                id: id@,
                name: name@,
                enabled,
                running: st@.running,
                failed: st@.last_error is Some || st@.last_daily_error is Some,
                saved: st@.message_count,
            },
        ),
{
    let mut out = id.to_owned();
    out.append("|");
    out.append(name);
    out.append("|");
    append_bool(&mut out, enabled);
    out.append("|");
    append_bool(&mut out, st.running);
    out.append("|");
    append_bool(&mut out, has_error(st));
    out.append("|");
    out.append(text::decimal(st.message_count).as_str());
    out.append(";");
    out
}

/// A cheap fingerprint of everything the tray displays, so the menu is only
/// rebuilt when something actually changed (rebuilding every tick causes flicker
/// and can dismiss the menu while it's open).
pub fn tray_signature(config: &Config, board: &StatusBoard) -> (r: String)
    requires
        board.wf(),
    ensures
        r@ == signature(facts(config@.bots, *board)),
{
    let ghost all = facts(config@.bots, *board);
    let mut sig = String::new();
    let mut i: usize = 0;
    proof {
        assert(all.take(0) =~= Seq::empty());
        assert(sig@ =~= Seq::empty());
    }
    while i < config.bots.len()
        invariant
            i <= config.bots@.len(),
            board.wf(),
            all == facts(config@.bots, *board),
            sig@ == signature(all.take(i as int)),
        decreases config.bots@.len() - i,
    {
        let ghost before = sig@;
        let ghost f = all[i as int];
        let st = board.status_of(config.bots[i].id.as_str());
        let entry = write_entry(
            config.bots[i].id.as_str(),
            config.bots[i].name.as_str(),
            config.bots[i].enabled,
            &st,
        );
        sig.append(entry.as_str());
        proof {
            assert(config@.bots[i as int] == config.bots@[i as int]@);
            assert(f == fact(config@.bots[i as int], st@));
            assert(entry@ == signature_entry(f));
            assert(sig@ == before + signature_entry(f));
            let longer = all.take(i + 1);
            assert(longer.drop_last() =~= all.take(i as int));
            assert(longer.last() == f);
        }
        i = i + 1;
    }
    proof {
        assert(all.take(all.len() as int) =~= all);
    }
    sig
}

// ---- the menu ----

/// The sign in front of a bot: disabled, in trouble, running, or starting.
pub open spec fn icon(f: Fact) -> Seq<char> {
    if !f.enabled {
        "⚪"@
    } else if f.failed {
        "🔴"@
    } else if f.running {
        "🟢"@
    } else {
        "🟡"@
    }
}

/// The line of a bot.
pub open spec fn label(f: Fact) -> Seq<char> {
    icon(f) + " "@ + f.name + "  ·  "@ + text::dec(f.saved as nat) + " saved"@
}

/// Whether a bot is counted as running.
pub open spec fn is_running(f: Fact) -> bool {
    f.enabled && f.running && !f.failed
}

/// Whether a bot is counted as in trouble.
pub open spec fn is_failing(f: Fact) -> bool {
    f.enabled && f.failed
}

/// How many bots are running.
pub open spec fn running_count(list: Seq<Fact>) -> nat
    decreases list.len(),
{
    if list.len() == 0 {
        0
    } else {
        running_count(list.drop_last()) + (if is_running(list.last()) {
            1nat
        } else {
            0nat
        })
    }
}

/// How many bots are in trouble.
pub open spec fn failing_count(list: Seq<Fact>) -> nat
    decreases list.len(),
{
    if list.len() == 0 {
        0
    } else {
        failing_count(list.drop_last()) + (if is_failing(list.last()) {
            1nat
        } else {
            0nat
        })
    }
}

/// The tooltip of the tray.
pub open spec fn tooltip(list: Seq<Fact>) -> Seq<char> {
    "Notekeeper — "@ + text::dec(running_count(list)) + " running, "@ + text::dec(
        failing_count(list),
    ) + " error(s)"@
}

/// The lines of the bots, each with the id of its menu item.
pub open spec fn lines(list: Seq<Fact>) -> Seq<(Seq<char>, Seq<char>)> {
    list.map_values(|f: Fact| ("bot_"@ + f.id, label(f)))
}

/// What the tray shows.
#[derive(Debug, PartialEq, Eq)]
pub struct TrayMenu {
    /// The lines of the bots, each with the id of its menu item.
    pub items: Vec<(String, String)>,
    pub tooltip: String,
}

fn write_label(name: &str, enabled: bool, failed: bool, running: bool, saved: u64) -> (r: String)
    ensures
        forall|f: Fact|
            f.name == name@ && f.enabled == enabled && f.failed == failed && f.running == running
                && f.saved == saved ==> r@ == #[trigger] label(f),
{
    let mut out = if !enabled {
        "⚪".to_owned()
    } else if failed {
        "🔴".to_owned()
    } else if running {
        "🟢".to_owned()
    } else {
        "🟡".to_owned()
    };
    out.append(" ");
    out.append(name);
    out.append("  ·  ");
    out.append(text::decimal(saved).as_str());
    out.append(" saved");
    out
}

/// What the tray shows: a line for each bot, and how many are running and in
/// trouble.
pub fn tray_menu(config: &Config, board: &StatusBoard) -> (r: TrayMenu)
    requires
        board.wf(),
    ensures
        crate::config::pair_views(r.items@) == lines(facts(config@.bots, *board)),
        r.tooltip@ == tooltip(facts(config@.bots, *board)),
{
    let ghost all = facts(config@.bots, *board);
    let mut items: Vec<(String, String)> = Vec::new();
    let mut running: u64 = 0;
    let mut errors: u64 = 0;
    let mut i: usize = 0;
    proof {
        assert(all.take(0) =~= Seq::empty());
    }
    while i < config.bots.len()
        invariant
            i <= config.bots@.len(),
            board.wf(),
            all == facts(config@.bots, *board),
            items@.len() == i,
            forall|k: int|
                0 <= k < i ==> (#[trigger] items@[k]).0@ == "bot_"@ + all[k].id && items@[k].1@
                    == label(all[k]),
            running == running_count(all.take(i as int)),
            errors == failing_count(all.take(i as int)),
            running <= i,
            errors <= i,
        decreases config.bots@.len() - i,
    {
        let ghost f = all[i as int];
        let st = board.status_of(config.bots[i].id.as_str());
        let enabled = config.bots[i].enabled;
        let failed = has_error(&st);
        proof {
            assert(config@.bots[i as int] == config.bots@[i as int]@);
            assert(f == fact(config@.bots[i as int], st@));
            let longer = all.take(i + 1);
            assert(longer.drop_last() =~= all.take(i as int));
            assert(longer.last() == f);
        }
        if enabled && st.running && !failed {
            running = running + 1;
        }
        if enabled && failed {
            errors = errors + 1;
        }
        let mut item = "bot_".to_owned();
        item.append(config.bots[i].id.as_str());
        let line = write_label(
            config.bots[i].name.as_str(),
            enabled,
            failed,
            st.running,
            st.message_count,
        );
        proof {
            assert(line@ == label(f));
        }
        items.push((item, line));
        i = i + 1;
    }
    proof {
        assert(all.take(all.len() as int) =~= all);
        assert(crate::config::pair_views(items@) =~= lines(all));
    }
    let mut tip = "Notekeeper — ".to_owned();
    tip.append(text::decimal(running).as_str());
    tip.append(" running, ");
    tip.append(text::decimal(errors).as_str());
    tip.append(" error(s)");
    TrayMenu { items, tooltip: tip }
}

// ---- what the tray promises ----

/// The counts are those of the signs: a bot is counted as running where it
/// shows green, and as in trouble where it shows red.
pub proof fn counts_match_the_signs(f: Fact)
    ensures
        is_running(f) <==> icon(f) == "🟢"@,
        is_failing(f) <==> icon(f) == "🔴"@,
        !f.enabled <==> icon(f) == "⚪"@,
{
    reveal_strlit("⚪");
    reveal_strlit("🔴");
    reveal_strlit("🟢");
    reveal_strlit("🟡");
    assert("⚪"@[0] != "🔴"@[0]);
    assert("⚪"@[0] != "🟢"@[0]);
    assert("⚪"@[0] != "🟡"@[0]);
    assert("🔴"@[0] != "🟢"@[0]);
    assert("🔴"@[0] != "🟡"@[0]);
    assert("🟢"@[0] != "🟡"@[0]);
}

/// Whether `c` does not occur in `s`.
pub open spec fn free_of(s: Seq<char>, c: char) -> bool {
    forall|i: int| 0 <= i < s.len() ==> #[trigger] s[i] != c
}

/// Two texts that end in the same separator, which does not occur in them
/// otherwise, are told apart from what follows.
proof fn lemma_split(a: Seq<char>, b: Seq<char>, ra: Seq<char>, rb: Seq<char>, c: char)
    requires
        free_of(a, c),
        free_of(b, c),
        a + seq![c] + ra == b + seq![c] + rb,
    ensures
        a == b,
        ra == rb,
{
    let x = a + seq![c] + ra;
    let y = b + seq![c] + rb;
    if a.len() < b.len() {
        assert(x[a.len() as int] == c);
        assert(y[a.len() as int] == b[a.len() as int]);
    } else if b.len() < a.len() {
        assert(y[b.len() as int] == c);
        assert(x[b.len() as int] == a[b.len() as int]);
    }
    assert(a.len() == b.len());
    assert forall|i: int| 0 <= i < a.len() implies a[i] == b[i] by {
        assert(x[i] == a[i]);
        assert(y[i] == b[i]);
    }
    assert(a =~= b);
    assert(x.len() == a.len() + 1 + ra.len());
    assert(y.len() == b.len() + 1 + rb.len());
    assert forall|i: int| 0 <= i < ra.len() implies ra[i] == rb[i] by {
        assert(x[a.len() + 1 + i] == ra[i]);
        assert(y[b.len() + 1 + i] == rb[i]);
    }
    assert(ra =~= rb);
}

proof fn lemma_bool_text(a: bool, b: bool)
    ensures
        free_of(bool_text(a), '|'),
        bool_text(a) == bool_text(b) ==> a == b,
{
    reveal_strlit("true");
    reveal_strlit("false");
    assert("true"@.len() != "false"@.len());
}

/// The same, with the separator not occurring in what follows.
proof fn lemma_split_back(a: Seq<char>, b: Seq<char>, ra: Seq<char>, rb: Seq<char>, c: char)
    requires
        free_of(ra, c),
        free_of(rb, c),
        a + seq![c] + ra == b + seq![c] + rb,
    ensures
        a == b,
        ra == rb,
{
    let x = a + seq![c] + ra;
    let y = b + seq![c] + rb;
    assert(x.len() == a.len() + 1 + ra.len());
    assert(y.len() == b.len() + 1 + rb.len());
    if a.len() < b.len() {
        assert(y[b.len() as int] == c);
        assert(x[b.len() as int] == ra[b.len() - a.len() - 1]);
    } else if b.len() < a.len() {
        assert(x[a.len() as int] == c);
        assert(y[a.len() as int] == rb[a.len() - b.len() - 1]);
    }
    assert forall|i: int| 0 <= i < a.len() implies a[i] == b[i] by {
        assert(x[i] == a[i]);
        assert(y[i] == b[i]);
    }
    assert(a =~= b);
    assert forall|i: int| 0 <= i < ra.len() implies ra[i] == rb[i] by {
        assert(x[a.len() + 1 + i] == ra[i]);
        assert(y[b.len() + 1 + i] == rb[i]);
    }
    assert(ra =~= rb);
}

/// Whether the id of a bot holds no separator of the signature, and its name
/// not the one between bots.
pub open spec fn plain(f: Fact) -> bool {
    free_of(f.id, '|') && free_of(f.id, ';') && free_of(f.name, ';')
}

/// The entry of a plain bot behind its id and up to its semicolon.
spec fn entry_rest(f: Fact) -> Seq<char> {
    f.name + seq!['|'] + bool_text(f.enabled) + seq!['|'] + bool_text(f.running) + seq!['|']
        + bool_text(f.failed) + seq!['|'] + text::dec(f.saved as nat)
}

/// The entry of a plain bot up to its semicolon.
#[verifier::opaque]
spec fn entry_body(f: Fact) -> Seq<char> {
    f.id + seq!['|'] + entry_rest(f)
}

proof fn lemma_entry(f: Fact)
    requires
        plain(f),
    ensures
        signature_entry(f) == entry_body(f) + seq![';'],
        free_of(entry_body(f), ';'),
{
    reveal(entry_body);
    reveal_strlit("|");
    reveal_strlit(";");
    reveal_strlit("true");
    reveal_strlit("false");
    text::lemma_dec_digits(f.saved as nat);
    assert("|"@ =~= seq!['|']);
    assert(";"@ =~= seq![';']);
    assert(signature_entry(f) =~= entry_body(f) + seq![';']);
    let b = f.name + seq!['|'] + bool_text(f.enabled);
    assert(free_of(b, ';'));
    let c = b + seq!['|'] + bool_text(f.running);
    assert(free_of(c, ';'));
    let d = c + seq!['|'] + bool_text(f.failed);
    assert(free_of(d, ';'));
    assert(entry_rest(f) == d + seq!['|'] + text::dec(f.saved as nat));
    assert(free_of(entry_rest(f), ';'));
    assert(free_of(entry_body(f), ';'));
}

proof fn lemma_entry_injective(f: Fact, g: Fact)
    requires
        plain(f),
        plain(g),
        entry_body(f) == entry_body(g),
    ensures
        f == g,
{
    reveal(entry_body);
    let fb = f.name + seq!['|'] + bool_text(f.enabled);
    let gb = g.name + seq!['|'] + bool_text(g.enabled);
    let fc = fb + seq!['|'] + bool_text(f.running);
    let gc = gb + seq!['|'] + bool_text(g.running);
    let fd = fc + seq!['|'] + bool_text(f.failed);
    let gd = gc + seq!['|'] + bool_text(g.failed);
    let fs = text::dec(f.saved as nat);
    let gs = text::dec(g.saved as nat);
    text::lemma_dec_digits(f.saved as nat);
    text::lemma_dec_digits(g.saved as nat);
    lemma_split(f.id, g.id, entry_rest(f), entry_rest(g), '|');
    lemma_split_back(fd, gd, fs, gs, '|');
    text::lemma_dec_injective(f.saved as nat, g.saved as nat);
    lemma_bool_text(f.failed, g.failed);
    lemma_bool_text(g.failed, f.failed);
    lemma_split_back(fc, gc, bool_text(f.failed), bool_text(g.failed), '|');
    lemma_bool_text(f.running, g.running);
    lemma_bool_text(g.running, f.running);
    lemma_split_back(fb, gb, bool_text(f.running), bool_text(g.running), '|');
    lemma_bool_text(f.enabled, g.enabled);
    lemma_bool_text(g.enabled, f.enabled);
    lemma_split_back(f.name, g.name, bool_text(f.enabled), bool_text(g.enabled), '|');
}

/// The signature of a list starts with the entry of its first bot.
proof fn lemma_signature_first(list: Seq<Fact>)
    requires
        list.len() > 0,
    ensures
        signature(list) == signature_entry(list[0]) + signature(list.drop_first()),
    decreases list.len(),
{
    if list.len() == 1 {
        assert(list.drop_last() =~= Seq::empty());
        assert(list.drop_first() =~= Seq::empty());
        assert(signature(list.drop_last()) =~= Seq::empty());
        assert(signature(list) =~= signature_entry(list[0]) + signature(list.drop_first()));
    } else {
        lemma_signature_first(list.drop_last());
        assert(list.drop_last().drop_first() =~= list.drop_first().drop_last());
        assert(list.drop_first().last() == list.last());
        assert(signature(list) =~= signature_entry(list[0]) + signature(list.drop_first()));
    }
}

/// The tray is rebuilt whenever something that it shows has changed: two
/// signatures are the same only where everything shown is. Ids that hold a
/// separator of the signature, and names that hold a semicolon, are left out.
pub proof fn signatures_tell_trays_apart(a: Seq<Fact>, b: Seq<Fact>)
    requires
        forall|i: int| 0 <= i < a.len() ==> plain(#[trigger] a[i]),
        forall|i: int| 0 <= i < b.len() ==> plain(#[trigger] b[i]),
        signature(a) == signature(b),
    ensures
        a == b,
    decreases a.len(),
{
    if a.len() > 0 {
        lemma_signature_first(a);
        lemma_entry(a[0]);
    }
    if b.len() > 0 {
        lemma_signature_first(b);
        lemma_entry(b[0]);
    }
    if a.len() == 0 || b.len() == 0 {
        assert(a =~= b);
    } else {
        let ra = a.drop_first();
        let rb = b.drop_first();
        assert forall|i: int| 0 <= i < ra.len() implies plain(#[trigger] ra[i]) by {
            assert(ra[i] == a[i + 1]);
        }
        assert forall|i: int| 0 <= i < rb.len() implies plain(#[trigger] rb[i]) by {
            assert(rb[i] == b[i + 1]);
        }
        lemma_split(entry_body(a[0]), entry_body(b[0]), signature(ra), signature(rb), ';');
        lemma_entry_injective(a[0], b[0]);
        signatures_tell_trays_apart(ra, rb);
        assert(a =~= seq![a[0]] + ra);
        assert(b =~= seq![b[0]] + rb);
    }
}

} // verus!
