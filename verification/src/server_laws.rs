//! Where the local server is found, how it is started and who uses it.

use vstd::prelude::*;
use crate::api;
use crate::config::ServerConfigView;
use crate::paths;
use crate::server;
use crate::text;

verus! {

/// A configured path is used but for white space around it; a blank one counts
/// for none.
pub proof fn paths_are_used_as_set(
    before: Seq<char>,
    path: Seq<char>,
    after: Seq<char>,
    exists_at: Seq<bool>,
    which: Option<Seq<char>>,
)
    requires
        forall|i: int| 0 <= i < before.len() ==> text::whitespace(#[trigger] before[i]),
        forall|i: int| 0 <= i < after.len() ==> text::whitespace(#[trigger] after[i]),
        path.len() > 0,
        !text::whitespace(path[0]),
        !text::whitespace(path.last()),
        exists_at.len() == 1,
    ensures
        server::candidates(Some(before + path + after)) == seq![path],
        server::located(Some(before + path + after), exists_at, which) == (if exists_at[0] {
            Some(path)
        } else {
            None
        }),
        server::candidates(Some(before)) == server::candidates(None),
{
    text::trimming_takes_the_ends_off(before, path, after);
    let list = server::candidates(Some(before + path + after));
    assert(list =~= seq![path]);
    assert(list.drop_first() =~= Seq::empty());
    assert(server::first_existing(list.drop_first(), exists_at.drop_first()) is None);
    let none = Seq::<char>::empty();
    assert(before + none + none =~= before);
    text::trimming_takes_the_ends_off(before, none, none);
}

/// Where no path is set, the binary is the first that exists of Homebrew's on
/// Apple silicon, the one under `/usr/local` and the system's; where none of
/// them does, what a lookup found, but for white space around it.
pub proof fn the_first_installed_binary_is_used(exists_at: Seq<bool>, which: Seq<char>)
    requires
        exists_at.len() == 3,
    ensures
        ({
            let list = server::candidates(None);
            &&& list.len() == 3
            &&& list[0] == "/opt/homebrew/bin/telegram-bot-api"@
            &&& list[1] == "/usr/local/bin/telegram-bot-api"@
            &&& list[2] == "/usr/bin/telegram-bot-api"@
        }),
        ({
            let found = server::located(None, exists_at, Some(which));
            &&& exists_at[0] ==> found == Some("/opt/homebrew/bin/telegram-bot-api"@)
            &&& !exists_at[0] && exists_at[1] ==> found == Some("/usr/local/bin/telegram-bot-api"@)
            &&& !exists_at[0] && !exists_at[1] && exists_at[2] ==> found == Some(
                "/usr/bin/telegram-bot-api"@,
            )
            &&& !exists_at[0] && !exists_at[1] && !exists_at[2] && text::trimmed(which).len() > 0
                ==> found == Some(text::trimmed(which))
            &&& !exists_at[0] && !exists_at[1] && !exists_at[2] && text::trimmed(which).len() == 0
                ==> found is None
        }),
        !exists_at[0] && !exists_at[1] && !exists_at[2] ==> server::located(None, exists_at, None)
            is None,
{
    reveal_with_fuel(server::first_existing, 4);
    let list = server::candidates(None);
    assert(list.drop_first()[0] == list[1]);
    assert(list.drop_first().drop_first()[0] == list[2]);
    assert(exists_at.drop_first()[0] == exists_at[1]);
    assert(exists_at.drop_first().drop_first()[0] == exists_at[2]);
    assert(list.drop_first().drop_first().drop_first() =~= Seq::empty());
}

/// The server needs an api id and a hash that is not blank.
pub proof fn credentials_are_both_needed(cfg: ServerConfigView)
    ensures
        server::has_credentials(cfg) <==> cfg.api_id != 0 && text::trimmed(cfg.api_hash).len() > 0,
{
}

/// The server listens on the loopback address alone, on the port that bots are
/// told, and gets the credentials and directories that are configured.
pub proof fn the_server_is_started_as_configured(
    cfg: ServerConfigView,
    data_dir: Seq<char>,
    binary: Seq<char>,
)
    ensures
        ({
            let l = server::launch_of(cfg, data_dir, binary);
            let port = if cfg.port == 0 {
                8081u16
            } else {
                cfg.port
            };
            let temp_dir = paths::joined(data_dir, "temp"@);
            &&& l.binary == binary
            &&& l.port == port
            &&& l.temp_dir == temp_dir
            &&& l.args.len() == 7
            &&& l.args[0] == "--local"@
            &&& l.args[1] == "--http-ip-address=127.0.0.1"@
            &&& l.args[2] == "--http-port="@ + text::dec(port as nat)
            &&& l.args[3] == "--api-id="@ + text::dec_int(cfg.api_id as int)
            &&& l.args[4] == "--api-hash="@ + cfg.api_hash
            &&& l.args[5] == "--dir="@ + data_dir
            &&& l.args[6] == "--temp-dir="@ + temp_dir
        }),
{
}

/// Every bot talks to the local server while it runs, and otherwise to the base
/// that is configured for it, the public API where there is none.
pub proof fn bots_talk_to_the_server_that_runs(configured: Option<Seq<char>>, port: u16)
    ensures
        server::routed_base(configured, Some(port)) == "http://127.0.0.1:"@ + text::dec(
            port as nat,
        ),
        server::routed_base(configured, None) == api::api_base(configured),
        server::routed_base(None, None) == "https://api.telegram.org"@,
{
    server::all_bots_use_the_running_server(configured, port);
}

/// A base that is blank stands for the public API.
pub proof fn blank_bases_mean_the_public_api(blank: Seq<char>)
    requires
        forall|i: int| 0 <= i < blank.len() ==> text::whitespace(#[trigger] blank[i]),
    ensures
        api::api_base(Some(blank)) == "https://api.telegram.org"@,
{
    let none = Seq::<char>::empty();
    assert(blank + none + none =~= blank);
    text::trimming_takes_the_ends_off(blank, none, none);
    api::the_public_api_is_the_fallback(Some(blank));
}

} // verus!
