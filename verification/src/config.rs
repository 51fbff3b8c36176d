//! The terminal client's configuration: its command line, its environment
//! fallbacks, and the WebSocket URL of a room.

use vstd::prelude::*;
use crate::text::{
    append_str, copy_str, decimal, decimal_i64, ends_with, starts_with, starts_with_str, str_eq,
    trim, trim_end_char, trim_end_char_str, trim_str,
};
use crate::clock::now_millis;
use crate::route::{lemma_room_path_roundtrip, route_of, RouteView};
use crate::wrappers::{url_accepts, url_parses};

verus! {

// ---------------------------------------------------------------------------
// Room URLs
// ---------------------------------------------------------------------------

/// Why a room URL cannot be built.
#[derive(Debug, Clone, Copy, PartialEq, Eq)]
pub enum UrlError {
    /// The base does not start with `ws://` or `wss://`.
    BadScheme,
    /// The URL that would be built is not a valid URL.
    InvalidUrl,
}

impl UrlError {
    pub open spec fn text(self) -> Seq<char> {
        match self {
            UrlError::BadScheme => "websocket base URL must start with ws:// or wss://"@,
            UrlError::InvalidUrl => "invalid websocket URL"@,
        }
    }

    /// The message the client shows for this error.
    pub fn message(&self) -> (res: String)
        ensures
            res@ == self.text(),
    {
        match self {
            UrlError::BadScheme => copy_str("websocket base URL must start with ws:// or wss://"),
            UrlError::InvalidUrl => copy_str("invalid websocket URL"),
        }
    }
}

/// Whether a base (after trimming) has a WebSocket scheme.
pub open spec fn has_ws_scheme(base: Seq<char>) -> bool {
    starts_with(trim(base), "ws://"@) || starts_with(trim(base), "wss://"@)
}

/// `<base>/room/<room-id>`: the trimmed base without trailing `/`, then
/// `/room/`, then the trimmed room id.
pub open spec fn ws_url_of(base: Seq<char>, room_id: Seq<char>) -> Seq<char> {
    trim_end_char(trim(base), '/') + "/room/"@ + trim(room_id)
}

/// The WebSocket URL of a room under a base URL.
pub fn room_ws_url(ws_base: &str, room_id: &str) -> (res: Result<String, UrlError>)
    ensures
        !has_ws_scheme(ws_base@) ==> res == Err::<String, UrlError>(UrlError::BadScheme),
        has_ws_scheme(ws_base@) && url_accepts(ws_url_of(ws_base@, room_id@)) ==> (res matches Ok(
            u,
        ) && u@ == ws_url_of(ws_base@, room_id@)),
        has_ws_scheme(ws_base@) && !url_accepts(ws_url_of(ws_base@, room_id@)) ==> res == Err::<
            String,
            UrlError,
        >(UrlError::InvalidUrl),
        res matches Ok(u) ==> ends_with(u@, "/room/"@ + trim(room_id@)),
{
    proof {
        lemma_ws_url_names_room(ws_base@, room_id@);
    }
    let base = trim_str(ws_base);
    if !starts_with_str(base.as_str(), "ws://") && !starts_with_str(base.as_str(), "wss://") {
        return Err(UrlError::BadScheme);
    }
    let mut url = trim_end_char_str(base.as_str(), '/');
    append_str(&mut url, "/room/");
    let room = trim_str(room_id);
    append_str(&mut url, room.as_str());
    if url_parses(url.as_str()) {
        Ok(url)
    } else {
        Err(UrlError::InvalidUrl)
    }
}

// ---------------------------------------------------------------------------
// Command line
// ---------------------------------------------------------------------------

/// The client's settings.
#[derive(Debug, Clone)]
pub struct CliConfig {
    pub ws_base: String,
    pub room_id: String,
    pub sender_id: String,
    pub avatar_url: Option<String>,
}

/// Why the command line is refused.
#[derive(Debug, Clone)]
pub enum CliError {
    MissingUsernameValue,
    EmptyUsername,
    MissingAvatarValue,
    EmptyAvatarUrl,
    UnknownFlag(String),
    TooManyPositional,
    MissingWsBase,
}

pub enum CliErrorView {
    MissingUsernameValue,
    EmptyUsername,
    MissingAvatarValue,
    EmptyAvatarUrl,
    UnknownFlag(Seq<char>),
    TooManyPositional,
    MissingWsBase,
}

impl View for CliError {
    type V = CliErrorView;

    open spec fn view(&self) -> CliErrorView {
        match self {
            CliError::MissingUsernameValue => CliErrorView::MissingUsernameValue,
            CliError::EmptyUsername => CliErrorView::EmptyUsername,
            CliError::MissingAvatarValue => CliErrorView::MissingAvatarValue,
            CliError::EmptyAvatarUrl => CliErrorView::EmptyAvatarUrl,
            CliError::UnknownFlag(a) => CliErrorView::UnknownFlag(a@),
            CliError::TooManyPositional => CliErrorView::TooManyPositional,
            CliError::MissingWsBase => CliErrorView::MissingWsBase,
        }
    }
}

pub open spec fn cli_error_text(e: CliErrorView) -> Seq<char> {
    match e {
        CliErrorView::MissingUsernameValue => "missing value for --username; usage: --username <name>"@,
        CliErrorView::EmptyUsername => "username cannot be empty"@,
        CliErrorView::MissingAvatarValue => "missing value for --avatar-url; usage: --avatar-url <https://...>"@,
        CliErrorView::EmptyAvatarUrl => "avatar URL cannot be empty"@,
        CliErrorView::UnknownFlag(a) => "unknown flag: "@ + a,
        CliErrorView::TooManyPositional => "too many positional arguments; usage: cargo run -- [--username <name>] [--avatar-url <https://...>] <ws-base-url> [room-id]"@,
        CliErrorView::MissingWsBase => "missing websocket base URL; pass <ws-base-url> or set OXIDE_WS_BASE"@,
    }
}

impl CliError {
    /// The message the client exits with.
    pub fn message(&self) -> (res: String)
        ensures
            res@ == cli_error_text(self@),
    {
        match self {
            CliError::MissingUsernameValue => copy_str(
                "missing value for --username; usage: --username <name>",
            ),
            CliError::EmptyUsername => copy_str("username cannot be empty"),
            CliError::MissingAvatarValue => copy_str(
                "missing value for --avatar-url; usage: --avatar-url <https://...>",
            ),
            CliError::EmptyAvatarUrl => copy_str("avatar URL cannot be empty"),
            CliError::UnknownFlag(a) => {
                let mut s = copy_str("unknown flag: ");
                append_str(&mut s, a.as_str());
                s
            },
            CliError::TooManyPositional => copy_str(
                "too many positional arguments; usage: cargo run -- [--username <name>] [--avatar-url <https://...>] <ws-base-url> [room-id]",
            ),
            CliError::MissingWsBase => copy_str(
                "missing websocket base URL; pass <ws-base-url> or set OXIDE_WS_BASE",
            ),
        }
    }
}

/// What the scan of the arguments has collected so far.
pub struct ScanView {
    pub positional: Seq<Seq<char>>,
    pub username: Option<Seq<char>>,
    pub avatar_url: Option<Seq<char>>,
}

pub struct ConfigView {
    pub ws_base: Seq<char>,
    pub room_id: Seq<char>,
    pub sender_id: Seq<char>,
    pub avatar_url: Option<Seq<char>>,
}

impl View for CliConfig {
    type V = ConfigView;

    open spec fn view(&self) -> ConfigView {
        ConfigView {
            ws_base: self.ws_base@,
            room_id: self.room_id@,
            sender_id: self.sender_id@,
            avatar_url: match self.avatar_url {
                Some(a) => Some(a@),
                None => None,
            },
        }
    }
}

pub open spec fn is_flag(a: Seq<char>) -> bool {
    a.len() > 0 && a[0] == '-'
}

/// The arguments from index `i` on, read left to right: `--username`/`-u` and
/// `--avatar-url` take the next argument (trimmed, non-empty), any other
/// argument starting with `-` is refused, the rest are positional.
pub open spec fn scan_args(args: Seq<Seq<char>>, i: int, acc: ScanView) -> Result<
    ScanView,
    CliErrorView,
>
    decreases args.len() - i,
{
    if i < 0 || i >= args.len() {
        Ok(acc)
    } else {
        let a = args[i];
        if a == "--username"@ || a == "-u"@ {
            if i + 1 >= args.len() {
                Err(CliErrorView::MissingUsernameValue)
            } else if trim(args[i + 1]).len() == 0 {
                Err(CliErrorView::EmptyUsername)
            } else {
                scan_args(args, i + 2, ScanView { username: Some(trim(args[i + 1])), ..acc })
            }
        } else if a == "--avatar-url"@ {
            if i + 1 >= args.len() {
                Err(CliErrorView::MissingAvatarValue)
            } else if trim(args[i + 1]).len() == 0 {
                Err(CliErrorView::EmptyAvatarUrl)
            } else {
                scan_args(args, i + 2, ScanView { avatar_url: Some(trim(args[i + 1])), ..acc })
            }
        } else if is_flag(a) {
            Err(CliErrorView::UnknownFlag(a))
        } else {
            scan_args(args, i + 1, ScanView { positional: acc.positional.push(a), ..acc })
        }
    }
}

pub open spec fn empty_scan() -> ScanView {
    ScanView { positional: Seq::empty(), username: None, avatar_url: None }
}

/// The first of two optional values that is present.
pub open spec fn first_present(a: Option<Seq<char>>, b: Option<Seq<char>>) -> Option<Seq<char>> {
    match a {
        Some(x) => Some(x),
        None => b,
    }
}

/// A value trimmed, kept only when something is left.
pub open spec fn trimmed_nonempty(o: Option<Seq<char>>) -> Option<Seq<char>> {
    match o {
        Some(s) => if trim(s).len() > 0 {
            Some(trim(s))
        } else {
            None
        },
        None => None,
    }
}

/// The configuration a command line and environment give, or why they are
/// refused. `now_ms` names the client when no username is given.
pub open spec fn cli_config_of(
    args: Seq<Seq<char>>,
    env_ws_base: Option<Seq<char>>,
    env_username: Option<Seq<char>>,
    env_avatar_url: Option<Seq<char>>,
    now_ms: int,
) -> Result<ConfigView, CliErrorView> {
    match scan_args(args, 0, empty_scan()) {
        Err(e) => Err(e),
        Ok(scan) => if scan.positional.len() > 2 {
            Err(CliErrorView::TooManyPositional)
        } else {
            match first_present(
                if scan.positional.len() > 0 {
                    Some(scan.positional[0])
                } else {
                    None
                },
                env_ws_base,
            ) {
                None => Err(CliErrorView::MissingWsBase),
                Some(ws_base) => Ok(
                    ConfigView {
                        ws_base,
                        room_id: if scan.positional.len() > 1 {
                            scan.positional[1]
                        } else {
                            "general"@
                        },
                        sender_id: match trimmed_nonempty(
                            first_present(scan.username, env_username),
                        ) {
                            Some(s) => s,
                            None => "cli-"@ + decimal(now_ms),
                        },
                        avatar_url: trimmed_nonempty(first_present(scan.avatar_url, env_avatar_url)),
                    },
                ),
            }
        },
    }
}

pub open spec fn args_view(args: Seq<String>) -> Seq<Seq<char>> {
    Seq::new(args.len(), |i: int| args[i]@)
}

pub open spec fn opt_text(o: Option<String>) -> Option<Seq<char>> {
    match o {
        Some(s) => Some(s@),
        None => None,
    }
}

pub open spec fn config_result_view(r: Result<CliConfig, CliError>) -> Result<ConfigView, CliErrorView> {
    match r {
        Ok(c) => Ok(c@),
        Err(e) => Err(e@),
    }
}

/// The trimmed text of `o`, kept only when non-empty.
fn trimmed_option(o: Option<String>) -> (res: Option<String>)
    ensures
        opt_text(res) == trimmed_nonempty(opt_text(o)),
{
    match o {
        Some(s) => {
            let t = trim_str(s.as_str());
            if t.unicode_len() > 0 {
                Some(t)
            } else {
                None
            }
        },
        None => None,
    }
}

/// Reads the command line (without the program name) with the values of
/// `OXIDE_WS_BASE`, `OXIDE_USERNAME` and `OXIDE_AVATAR_URL`; `now_ms` is the
/// time that names an unnamed client `cli-<now_ms>`.
pub fn parse_cli_args_at(
    args: &Vec<String>,
    env_ws_base: Option<String>,
    env_username: Option<String>,
    env_avatar_url: Option<String>,
    now_ms: i64,
) -> (res: Result<CliConfig, CliError>)
    ensures
        config_result_view(res) == cli_config_of(
            args_view(args@),
            opt_text(env_ws_base),
            opt_text(env_username),
            opt_text(env_avatar_url),
            now_ms as int,
        ),
        (1 <= args@.len() <= 2 && forall|i: int| 0 <= i < args@.len() ==> !is_flag(
            #[trigger] args@[i]@,
        )) ==> (res matches Ok(c) && c.ws_base@ == args@[0]@),
{
    let ghost av = args_view(args@);
    let ghost plain = 1 <= args@.len() <= 2 && forall|i: int| 0 <= i < args@.len() ==> !is_flag(
        #[trigger] args@[i]@,
    );
    let ghost cfg = cli_config_of(
        av,
        opt_text(env_ws_base),
        opt_text(env_username),
        opt_text(env_avatar_url),
        now_ms as int,
    );
    proof {
        if 1 <= args@.len() <= 2 && forall|i: int| 0 <= i < args@.len() ==> !is_flag(
            #[trigger] args@[i]@,
        ) {
            assert forall|i: int| 0 <= i < av.len() implies !is_flag(#[trigger] av[i]) by {
                assert(av[i] == args@[i]@);
            }
            lemma_positional_base_wins(
                av,
                opt_text(env_ws_base),
                opt_text(env_username),
                opt_text(env_avatar_url),
                now_ms as int,
            );
        }
    }
    let mut positional: Vec<String> = Vec::new();
    let mut username: Option<String> = None;
    let mut avatar_url: Option<String> = None;
    let n = args.len();
    let mut i: usize = 0;
    assert(args_view(positional@) =~= Seq::<Seq<char>>::empty());
    while i < n
        invariant
            n == args@.len(),
            av == args_view(args@),
            plain ==> (cfg matches Ok(c) && c.ws_base == av[0]),
            plain == (1 <= args@.len() <= 2 && forall|i: int| 0 <= i < args@.len() ==> !is_flag(
                #[trigger] args@[i]@,
            )),
            cfg == cli_config_of(
                av,
                opt_text(env_ws_base),
                opt_text(env_username),
                opt_text(env_avatar_url),
                now_ms as int,
            ),
            i <= n,
            scan_args(av, 0, empty_scan()) == scan_args(
                av,
                i as int,
                ScanView {
                    positional: args_view(positional@),
                    username: opt_text(username),
                    avatar_url: opt_text(avatar_url),
                },
            ),
        decreases n - i,
    {
        let a = &args[i];
        assert(av[i as int] == a@);
        let ghost cur = ScanView {
            positional: args_view(positional@),
            username: opt_text(username),
            avatar_url: opt_text(avatar_url),
        };
        if str_eq(a.as_str(), "--username") || str_eq(a.as_str(), "-u") {
            if i + 1 >= n {
                return Err(CliError::MissingUsernameValue);
            }
            let v = trim_str(args[i + 1].as_str());
            assert(av[i + 1] == args@[i + 1]@);
            if v.unicode_len() == 0 {
                return Err(CliError::EmptyUsername);
            }
            username = Some(v);
            assert(scan_args(av, i as int, cur) == scan_args(
                av,
                i + 2,
                ScanView { username: Some(trim(av[i + 1])), ..cur },
            ));
            i = i + 2;
        } else if str_eq(a.as_str(), "--avatar-url") {
            if i + 1 >= n {
                return Err(CliError::MissingAvatarValue);
            }
            let v = trim_str(args[i + 1].as_str());
            assert(av[i + 1] == args@[i + 1]@);
            if v.unicode_len() == 0 {
                return Err(CliError::EmptyAvatarUrl);
            }
            avatar_url = Some(v);
            assert(scan_args(av, i as int, cur) == scan_args(
                av,
                i + 2,
                ScanView { avatar_url: Some(trim(av[i + 1])), ..cur },
            ));
            i = i + 2;
        } else if starts_with_str(a.as_str(), "-") {
            proof {
                reveal_strlit("-");
                assert("-"@ =~= seq!['-']);
                assert("-"@.len() == 1);
                assert(a@.len() >= 1);
                assert(a@.take(1) == "-"@);
                assert(a@.take(1)[0] == a@[0]);
                assert(is_flag(a@));
                assert(scan_args(av, i as int, cur) == Err::<ScanView, CliErrorView>(
                    CliErrorView::UnknownFlag(a@),
                ));
            }
            let flag = a.clone();
            assert(flag@ == a@);
            return Err(CliError::UnknownFlag(flag));
        } else {
            proof {
                reveal_strlit("-");
                assert("-"@ =~= seq!['-']);
                if a@.len() > 0 {
                    assert(a@.take(1) =~= seq![a@[0]]);
                }
            }
            let ghost before = positional@;
            positional.push(a.clone());
            assert(args_view(positional@) =~= args_view(before).push(a@));
            assert(scan_args(av, i as int, cur) == scan_args(
                av,
                i + 1,
                ScanView { positional: cur.positional.push(a@), ..cur },
            ));
            i = i + 1;
        }
    }
    let ghost scan = ScanView {
        positional: args_view(positional@),
        username: opt_text(username),
        avatar_url: opt_text(avatar_url),
    };
    assert(scan_args(av, 0, empty_scan()) == Ok::<ScanView, CliErrorView>(scan));
    if positional.len() > 2 {
        return Err(CliError::TooManyPositional);
    }
    let ws_base = if positional.len() > 0 {
        positional[0].clone()
    } else {
        match env_ws_base {
            Some(b) => b,
            None => {
                return Err(CliError::MissingWsBase);
            },
        }
    };
    let room_id = if positional.len() > 1 {
        positional[1].clone()
    } else {
        copy_str("general")
    };
    let named = match username {
        Some(u) => Some(u),
        None => env_username,
    };
    let sender_id = match trimmed_option(named) {
        Some(s) => s,
        None => {
            let mut s = copy_str("cli-");
            let digits = decimal_i64(now_ms);
            append_str(&mut s, digits.as_str());
            s
        },
    };
    let avatar = match avatar_url {
        Some(u) => Some(u),
        None => env_avatar_url,
    };
    let avatar_url = trimmed_option(avatar);
    Ok(CliConfig { ws_base, room_id, sender_id, avatar_url })
}

/// `parse_cli_args_at` at the current time of the wall clock.
pub fn parse_cli_args(
    args: &Vec<String>,
    env_ws_base: Option<String>,
    env_username: Option<String>,
    env_avatar_url: Option<String>,
) -> (res: Result<CliConfig, CliError>)
    ensures
        exists|t: i64|
            config_result_view(res) == cli_config_of(
                args_view(args@),
                opt_text(env_ws_base),
                opt_text(env_username),
                opt_text(env_avatar_url),
                t as int,
            ),
{
    let now = now_millis();
    parse_cli_args_at(args, env_ws_base, env_username, env_avatar_url, now)
}

// ---------------------------------------------------------------------------
// Laws
// ---------------------------------------------------------------------------

/// The room URL ends with `/room/` and the trimmed room id, unchanged; the
/// path after the base leads the relay to that room.
pub proof fn lemma_ws_url_names_room(base: Seq<char>, room: Seq<char>)
    ensures
        ends_with(ws_url_of(base, room), "/room/"@ + trim(room)),
        (trim(room).len() > 0 && forall|i: int| 0 <= i < trim(room).len() ==> trim(room)[i] != '/')
            ==> route_of(ws_url_of(base, room).skip(trim_end_char(trim(base), '/').len() as int))
            == RouteView::Room(trim(room)),
{
    let prefix = trim_end_char(trim(base), '/');
    let tail = "/room/"@ + trim(room);
    assert(ws_url_of(base, room) =~= prefix + tail);
    assert((prefix + tail).skip((prefix + tail).len() - tail.len()) =~= tail);
    assert((prefix + tail).skip(prefix.len() as int) =~= tail);
    if trim(room).len() > 0 && forall|i: int| 0 <= i < trim(room).len() ==> trim(room)[i] != '/' {
        lemma_room_path_roundtrip(trim(room), Seq::empty());
        assert(tail + Seq::<char>::empty() =~= tail);
    }
}

proof fn lemma_flag_words(a: Seq<char>)
    requires
        !is_flag(a),
    ensures
        a != "--username"@,
        a != "-u"@,
        a != "--avatar-url"@,
{
    reveal_strlit("--username");
    reveal_strlit("-u");
    reveal_strlit("--avatar-url");
    if a == "--username"@ {
        assert(a[0] == '-');
    }
    if a == "-u"@ {
        assert(a[0] == '-');
    }
    if a == "--avatar-url"@ {
        assert(a[0] == '-');
    }
}

proof fn lemma_scan_plain(args: Seq<Seq<char>>, i: int, acc: ScanView)
    requires
        0 <= i <= args.len(),
        forall|j: int| i <= j < args.len() ==> !is_flag(#[trigger] args[j]),
    ensures
        scan_args(args, i, acc) == Ok::<ScanView, CliErrorView>(
            ScanView { positional: acc.positional + args.skip(i), ..acc },
        ),
    decreases args.len() - i,
{
    if i < args.len() {
        lemma_flag_words(args[i]);
        let next = ScanView { positional: acc.positional.push(args[i]), ..acc };
        lemma_scan_plain(args, i + 1, next);
        assert(next.positional + args.skip(i + 1) =~= acc.positional + args.skip(i));
    } else {
        assert(acc.positional + args.skip(i) =~= acc.positional);
    }
}

/// Positional arguments win over the environment: with one or two plain
/// arguments the first is the base URL, whatever `OXIDE_WS_BASE` holds, and
/// the second (else `general`) is the room.
pub proof fn lemma_positional_base_wins(
    args: Seq<Seq<char>>,
    env_ws_base: Option<Seq<char>>,
    env_username: Option<Seq<char>>,
    env_avatar_url: Option<Seq<char>>,
    now_ms: int,
)
    requires
        1 <= args.len() <= 2,
        forall|i: int| 0 <= i < args.len() ==> !is_flag(#[trigger] args[i]),
    ensures
        cli_config_of(args, env_ws_base, env_username, env_avatar_url, now_ms) matches Ok(c) && c.ws_base
            == args[0] && c.room_id == if args.len() == 2 {
            args[1]
        } else {
            "general"@
        },
{
    lemma_scan_plain(args, 0, empty_scan());
    assert(empty_scan().positional + args.skip(0) =~= args);
}

/// The environment's base URL is used when no positional argument is given,
/// and without either the command line is refused.
pub proof fn lemma_env_base_fallback(
    env_ws_base: Option<Seq<char>>,
    env_username: Option<Seq<char>>,
    env_avatar_url: Option<Seq<char>>,
    now_ms: int,
)
    ensures
        match env_ws_base {
            Some(b) => cli_config_of(Seq::empty(), env_ws_base, env_username, env_avatar_url, now_ms)
                matches Ok(c) && c.ws_base == b && c.room_id == "general"@,
            None => cli_config_of(Seq::empty(), env_ws_base, env_username, env_avatar_url, now_ms)
                == Err::<ConfigView, CliErrorView>(CliErrorView::MissingWsBase),
        },
{
}

} // verus!
