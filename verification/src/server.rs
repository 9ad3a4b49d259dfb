//! App-managed local Telegram Bot API server.
//!
//! The public Bot API at api.telegram.org caps file downloads at 20 MB, which
//! is smaller than most videos. A self-hosted `telegram-bot-api` server run in
//! `--local` mode lifts that to 2 GB and writes downloaded files straight to
//! disk, so the app can read them without a second HTTP round trip.
//!
//! This module says which binary is run, with which arguments, and where bots
//! find the server. The app supervises the process.

use vstd::prelude::*;
use vstd::string::*;
use crate::api;
use crate::config;
use crate::config::ServerConfig;
use crate::config::ServerConfigView;
use crate::paths;
use crate::text;

verus! {

// ---- where bots find the server ----

/// The origin of a local server.
pub open spec fn local_place(port: u16) -> Seq<char> {
    "http://127.0.0.1:"@ + text::dec(port as nat)
}

/// The origin a bot should talk to when the local server is running.
pub fn local_url(port: u16) -> (r: String)
    ensures
        r@ == local_place(port),
{
    let mut url = "http://127.0.0.1:".to_owned();
    url.append(text::decimal(port as u64).as_str());
    url
}

/// The origin that a bot talks to: the local server's while that is running,
/// else the one that is configured.
pub open spec fn routed_base(configured: Option<Seq<char>>, server_port: Option<u16>) -> Seq<char> {
    match server_port {
        Some(port) => api::api_base(Some(local_place(port))),
        None => api::api_base(configured),
    }
}

/// The origin that a bot talks to: all bots are routed through the local server
/// while it's running, and fall back to the configured API otherwise.
pub fn route_api_base(configured: Option<&str>, server_port: Option<u16>) -> (r: String)
    ensures
        r@ == routed_base(text::opt_str(configured), server_port),
{
    match server_port {
        Some(port) => {
            let url = local_url(port);
            api::resolve_api_base(Some(url.as_str()))
        },
        None => api::resolve_api_base(configured),
    }
}

// ---- the binary ----

/// Install locations probed when no explicit binary path is configured: Homebrew
/// on Apple Silicon and Intel plus the usual system prefixes.
pub open spec fn install_places() -> Seq<Seq<char>> {
    seq![
        "/opt/homebrew/bin/telegram-bot-api"@,
        "/usr/local/bin/telegram-bot-api"@,
        "/usr/bin/telegram-bot-api"@,
    ]
}

/// A configured path, trimmed, where one is set.
pub open spec fn explicit_path(explicit: Option<Seq<char>>) -> Option<Seq<char>> {
    match explicit {
        Some(p) => if text::trimmed(p).len() == 0 {
            None
        } else {
            Some(text::trimmed(p))
        },
        None => None,
    }
}

/// The paths at which the binary may be, in order.
pub open spec fn candidates(explicit: Option<Seq<char>>) -> Seq<Seq<char>> {
    match explicit_path(explicit) {
        Some(p) => seq![p],
        None => install_places(),
    }
}

/// The first path of a list that exists.
pub open spec fn first_existing(list: Seq<Seq<char>>, exists_at: Seq<bool>) -> Option<Seq<char>>
    decreases list.len(),
{
    if list.len() == 0 {
        None
    } else if exists_at[0] {
        Some(list[0])
    } else {
        first_existing(list.drop_first(), exists_at.drop_first())
    }
}

/// The binary: an explicit path and nothing else, where one is set; else the
/// first install location that exists; else what a `PATH` lookup found.
pub open spec fn located(
    explicit: Option<Seq<char>>,
    exists_at: Seq<bool>,
    which: Option<Seq<char>>,
) -> Option<Seq<char>> {
    match first_existing(candidates(explicit), exists_at) {
        Some(p) => Some(p),
        None => if explicit_path(explicit) is Some {
            None
        } else {
            explicit_path(which)
        },
    }
}

fn set_path(path: Option<&str>) -> (r: Option<String>)
    ensures
        text::opt_text(r) == explicit_path(text::opt_str(path)),
{
    match path {
        Some(p) => {
            let t = text::trim(p);
            if t.as_str().is_empty() {
                None
            } else {
                Some(t)
            }
        },
        None => None,
    }
}

/// The paths at which the binary may be, in order.
pub fn binary_candidates(explicit: Option<&str>) -> (r: Vec<String>)
    ensures
        text::texts(r@) == candidates(text::opt_str(explicit)),
{
    let mut out: Vec<String> = Vec::new();
    match set_path(explicit) {
        Some(p) => {
            out.push(p);
        },
        None => {
            out.push("/opt/homebrew/bin/telegram-bot-api".to_owned());
            out.push("/usr/local/bin/telegram-bot-api".to_owned());
            out.push("/usr/bin/telegram-bot-api".to_owned());
        },
    }
    proof {
        assert(text::texts(out@) =~= candidates(text::opt_str(explicit)));
    }
    out
}

/// Resolve the `telegram-bot-api` binary: an explicit configured path first,
/// then the common install locations, then a `PATH` lookup via `which`.
/// Returns `None` if nothing usable is found. `exists_at` tells which of
/// [`binary_candidates`] exist, and `which_output` what `which` printed, where
/// it was asked and found something.
pub fn locate_binary(
    explicit: Option<&str>,
    exists_at: &Vec<bool>,
    which_output: Option<&str>,
) -> (r: Option<String>)
    requires
        exists_at@.len() == candidates(text::opt_str(explicit)).len(),
    ensures
        text::opt_text(r) == located(
            text::opt_str(explicit),
            exists_at@,
            text::opt_str(which_output),
        ),
{
    let mut list = binary_candidates(explicit);
    let ghost places = text::texts(list@);
    let mut i: usize = 0;
    proof {
        assert(places.skip(0) =~= places);
        assert(exists_at@.skip(0) =~= exists_at@);
    }
    while i < list.len()
        invariant
            i <= list@.len(),
            places == text::texts(list@),
            exists_at@.len() == places.len(),
            first_existing(places, exists_at@) == first_existing(
                places.skip(i as int),
                exists_at@.skip(i as int),
            ),
            places == candidates(text::opt_str(explicit)),
        decreases list@.len() - i,
    {
        proof {
            assert(places.skip(i as int)[0] == list@[i as int]@);
            assert(exists_at@.skip(i as int)[0] == exists_at@[i as int]);
            assert(places.skip(i as int).drop_first() =~= places.skip(i + 1));
            assert(exists_at@.skip(i as int).drop_first() =~= exists_at@.skip(i + 1));
        }
        if exists_at[i] {
            return Some(list[i].clone());
        }
        i = i + 1;
    }
    match set_path(explicit) {
        Some(_) => None,
        None => set_path(which_output),
    }
}

// ---- starting it ----

/// How the server is started.
#[derive(Debug, PartialEq, Eq)]
pub struct Launch {
    /// The program to run.
    pub binary: String,
    /// A directory that has to exist first.
    pub temp_dir: String,
    /// The program's arguments.
    pub args: Vec<String>,
    /// The port that it listens on.
    pub port: u16,
}

/// What a [`Launch`] says.
#[verifier::ext_equal]
pub struct LaunchView {
    pub binary: Seq<char>,
    pub temp_dir: Seq<char>,
    pub args: Seq<Seq<char>>,
    pub port: u16,
}

impl View for Launch {
    type V = LaunchView;

    open spec fn view(&self) -> LaunchView {
        LaunchView {
            binary: self.binary@,
            temp_dir: self.temp_dir@,
            args: text::texts(self.args@),
            port: self.port,
        }
    }
}

/// Whether the credentials that the server needs are set.
pub open spec fn has_credentials(cfg: ServerConfigView) -> bool {
    cfg.api_id != 0 && text::trimmed(cfg.api_hash).len() > 0
}

/// What is reported where credentials are missing.
pub const NO_CREDENTIALS: &'static str =
    "api_id and api_hash are required to run the local server";

/// What is reported where there is no binary.
pub const NO_BINARY: &'static str =
    "telegram-bot-api not found — install it (e.g. `brew install telegram-bot-api`) or set its path in server settings";

/// How the server is started.
pub open spec fn launch_of(
    cfg: ServerConfigView,
    data_dir: Seq<char>,
    binary: Seq<char>,
) -> LaunchView {
    let port = config::port_used(cfg.port);
    let temp_dir = paths::joined(data_dir, "temp"@);
    LaunchView {
        binary,
        temp_dir,
        args: seq![
            "--local"@,
            "--http-ip-address=127.0.0.1"@,
            "--http-port="@ + text::dec(port as nat),
            "--api-id="@ + text::dec_int(cfg.api_id as int),
            "--api-hash="@ + cfg.api_hash,
            "--dir="@ + data_dir,
            "--temp-dir="@ + temp_dir,
        ],
        port,
    }
}

/// Whether the server can be started at all. The binary is looked for only then.
pub fn check_credentials(cfg: &ServerConfig) -> (r: Result<(), String>)
    ensures
        match r {
            Ok(()) => has_credentials(cfg@),
            Err(e) => !has_credentials(cfg@) && e@ == NO_CREDENTIALS@,
        },
{
    if cfg.api_id == 0 || text::is_blank(cfg.api_hash.as_str()) {
        Err(NO_CREDENTIALS.to_owned())
    } else {
        Ok(())
    }
}

fn option(name: &str, value: &str) -> (r: String)
    ensures
        r@ == name@ + value@,
{
    let mut out = name.to_owned();
    out.append(value);
    out
}

/// How the local `telegram-bot-api` server is started in `--local` mode, where
/// `binary` is what [`locate_binary`] found.
///
/// `data_dir` is where the server stores downloaded files. Fails fast with a
/// human-readable message when credentials are missing or the binary can't be
/// found, so the error can be surfaced in the settings UI.
pub fn plan_launch(cfg: &ServerConfig, data_dir: &str, binary: Option<String>) -> (r: Result<
    Launch,
    String,
>)
    ensures
        match r {
            Ok(l) => has_credentials(cfg@) && binary is Some && l@ == launch_of(
                cfg@,
                data_dir@,
                binary->0@,
            ),
            Err(e) => if has_credentials(cfg@) {
                binary is None && e@ == NO_BINARY@
            } else {
                e@ == NO_CREDENTIALS@
            },
        },
{
    if let Err(e) = check_credentials(cfg) {
        return Err(e);
    }
    let binary = match binary {
        Some(b) => b,
        None => {
            return Err(NO_BINARY.to_owned());
        },
    };
    let temp_dir = paths::join(data_dir, "temp");
    let port: u16 = cfg.effective_port();
    let mut args: Vec<String> = Vec::new();
    args.push("--local".to_owned());
    // Bind only to loopback so the server isn't reachable from other machines.
    args.push("--http-ip-address=127.0.0.1".to_owned());
    args.push(option("--http-port=", text::decimal(port as u64).as_str()));
    args.push(option("--api-id=", text::decimal_i64(cfg.api_id).as_str()));
    args.push(option("--api-hash=", cfg.api_hash.as_str()));
    args.push(option("--dir=", data_dir));
    args.push(option("--temp-dir=", temp_dir.as_str()));
    let launch = Launch { binary, temp_dir, args, port };
    proof {
        assert(launch@ =~= launch_of(cfg@, data_dir@, launch.binary@));
    }
    Ok(launch)
}

/// What is reported of a server that could not be started.
pub fn launch_failure(error: &str) -> (r: String)
    ensures
        r@ == "could not start telegram-bot-api: "@ + error@,
{
    option("could not start telegram-bot-api: ", error)
}

// ---- what the server promises ----

/// The server listens on loopback only, and on the port to which bots are
/// routed, whatever port is configured.
pub proof fn bots_find_the_server(cfg: ServerConfigView, data_dir: Seq<char>, binary: Seq<char>)
    ensures
        ({
            let l = launch_of(cfg, data_dir, binary);
            &&& l.port != 0
            &&& l.args[1] == "--http-ip-address=127.0.0.1"@
            &&& l.args[2] == "--http-port="@ + text::dec(l.port as nat)
            &&& local_place(l.port) == "http://127.0.0.1:"@ + text::dec(l.port as nat)
        }),
{
}

proof fn lemma_untrimmed(s: Seq<char>)
    requires
        s.len() > 0,
        !text::whitespace(s[0]),
        !text::whitespace(s.last()),
    ensures
        text::trimmed(s) == s,
{
    let p = |c: char| text::whitespace(c);
    assert(!p(s[0]));
    assert(!p(s.last()));
    assert(text::trim_start_by(s, p) == s);
    assert(text::trim_end_by(s, p) == s);
}

/// While the local server runs, every bot talks to it, whatever base is
/// configured; otherwise each talks to its own, the public API where none is
/// set.
pub proof fn all_bots_use_the_running_server(configured: Option<Seq<char>>, port: u16)
    ensures
        routed_base(configured, Some(port)) == local_place(port),
        routed_base(configured, None) == api::api_base(configured),
        routed_base(None, None) == api::DEFAULT_API_BASE@,
{
    reveal_strlit("http://127.0.0.1:");
    text::lemma_dec_digits(port as nat);
    let place = local_place(port);
    let digits = text::dec(port as nat);
    assert(place[0] == 'h');
    assert(place.last() == digits.last());
    assert('0' <= digits[digits.len() - 1] <= '9');
    lemma_untrimmed(place);
    assert(!text::is_one('/')(place.last()));
    assert(text::trim_end_char(place, '/') == place);
    api::the_public_api_is_the_fallback(None);
}

/// An explicit path is the only one that is used: a binary elsewhere does not
/// stand in for one that is missing there.
pub proof fn explicit_binaries_have_no_substitute(
    explicit: Option<Seq<char>>,
    exists_at: Seq<bool>,
    which: Option<Seq<char>>,
)
    requires
        explicit_path(explicit) is Some,
        exists_at.len() == 1,
    ensures
        located(explicit, exists_at, which) == (if exists_at[0] {
            explicit_path(explicit)
        } else {
            None
        }),
{
    let list = candidates(explicit);
    assert(list.drop_first() =~= Seq::empty());
    assert(first_existing(list.drop_first(), exists_at.drop_first()) is None);
}

} // verus!
