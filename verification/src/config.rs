//! Configuration data and the paths the configuration lives under.
//! Where a directory comes from the machine (the user's home, the
//! platform configuration root), the lookup stands behind a trusted
//! call and everything built on top of it is verified.

use vstd::prelude::*;

use crate::text::{ends_with, to_chars};

verus! {

/// The whole configuration.
#[derive(Debug, Clone)]
pub struct Config {
    pub general: GeneralConfig,
    pub player: PlayerConfig,
    pub ui: UiConfig,
    pub torrent: TorrentConfig,
    pub metadata: MetadataConfig,
}

/// Metadata-service credentials.
#[derive(Debug, Clone)]
pub struct MetadataConfig {
    pub mal_client_id: String,
    pub mal_access_token: Option<String>,
    pub mal_refresh_token: Option<String>,
    pub mal_token_expires: Option<i64>,
}

/// General behaviour: media directories, player choice, compression
/// and archiving.
#[derive(Debug, Clone)]
pub struct GeneralConfig {
    pub media_dirs: Vec<String>,
    pub player: String,
    pub compress_episodes: bool,
    pub compression_level: i32,
    pub archive_path: String,
    pub archive_mode: String,
    pub notifications: bool,
}

/// Player profiles.
#[derive(Debug, Clone)]
pub struct PlayerConfig {
    pub mpv: PlayerProfile,
    pub vlc: Option<PlayerProfile>,
}

#[derive(Debug, Clone)]
pub struct PlayerProfile {
    pub args: Vec<String>,
    pub track_progress: bool,
}

#[derive(Debug, Clone)]
pub struct UiConfig {
    pub accent_color: String,
}

/// The torrent daemon connection.
#[derive(Debug, Clone)]
pub struct TorrentConfig {
    pub client: String,
    pub host: String,
    pub port: u16,
    pub username: Option<String>,
    pub password: Option<String>,
    pub managed_daemon_command: Option<String>,
    pub managed_daemon_args: Option<Vec<String>>,
}

// ---------------------------------------------------------------------------
// Defaults
// ---------------------------------------------------------------------------

pub fn default_mal_client_id() -> (r: String)
    ensures
        r@.len() == 0,
{
    String::new()
}

pub fn default_torrent_client() -> (r: String)
    ensures
        r@ == "transmission"@,
{
    String::from_str("transmission")
}

pub fn default_torrent_host() -> (r: String)
    ensures
        r@ == "localhost"@,
{
    String::from_str("localhost")
}

pub fn default_torrent_port() -> (r: u16)
    ensures
        r == 9091,
{
    9091
}

pub fn default_true() -> (r: bool)
    ensures
        r,
{
    true
}

pub fn default_compression_level() -> (r: i32)
    ensures
        r == 3,
{
    3
}

pub fn default_accent_color() -> (r: String)
    ensures
        r@ == "magenta"@,
{
    String::from_str("magenta")
}

pub fn default_archive_path() -> (r: String)
    ensures
        r@ == "~/.miru/archives"@,
{
    String::from_str("~/.miru/archives")
}

pub fn default_archive_mode() -> (r: String)
    ensures
        r@ == "ghost"@,
{
    String::from_str("ghost")
}

impl Default for MetadataConfig {
    /// No client identifier, no tokens.
    fn default() -> (r: MetadataConfig)
        ensures
            r.mal_client_id@.len() == 0,
            r.mal_access_token is None,
            r.mal_refresh_token is None,
            r.mal_token_expires is None,
    {
        MetadataConfig {
            mal_client_id: default_mal_client_id(),
            mal_access_token: None,
            mal_refresh_token: None,
            mal_token_expires: None,
        }
    }
}

impl Default for GeneralConfig {
    /// One media directory (the data directory's show folder where the
    /// machine offers one, a local folder otherwise), the standard
    /// player, and archiving by history alone.
    fn default() -> (r: GeneralConfig)
        ensures
            r.media_dirs@.len() == 1,
            r.player@ == "mpv"@,
            !r.compress_episodes,
            r.compression_level == 3,
            r.archive_path@ == "~/.miru/archives"@,
            r.archive_mode@ == "ghost"@,
            r.notifications,
    {
        let base = match data_dir() {
            Some(d) => {
                let mut p = d;
                p.append("/shows");
                p
            },
            None => String::from_str("shows"),
        };
        let mut media_dirs: Vec<String> = Vec::new();
        media_dirs.push(base);
        GeneralConfig {
            media_dirs,
            player: String::from_str("mpv"),
            compress_episodes: false,
            compression_level: default_compression_level(),
            archive_path: default_archive_path(),
            archive_mode: default_archive_mode(),
            notifications: true,
        }
    }
}

impl Default for UiConfig {
    fn default() -> (r: UiConfig)
        ensures
            r.accent_color@ == "magenta"@,
    {
        UiConfig { accent_color: default_accent_color() }
    }
}

impl PlayerProfile {
    /// The standard player profile: fullscreen, with progress tracked.
    pub fn default_mpv() -> (r: PlayerProfile)
        ensures
            r.args@.len() == 1,
            r.args@[0]@ == "--fullscreen"@,
            r.track_progress,
    {
        let mut args: Vec<String> = Vec::new();
        args.push(String::from_str("--fullscreen"));
        PlayerProfile { args, track_progress: true }
    }
}

impl Default for PlayerProfile {
    fn default() -> (r: PlayerProfile)
        ensures
            r.args@.len() == 1,
            r.track_progress,
    {
        PlayerProfile::default_mpv()
    }
}

impl Default for PlayerConfig {
    fn default() -> (r: PlayerConfig)
        ensures
            r.vlc is None,
    {
        PlayerConfig { mpv: PlayerProfile::default_mpv(), vlc: None }
    }
}

impl Default for TorrentConfig {
    fn default() -> (r: TorrentConfig)
        ensures
            r.client@ == "transmission"@,
            r.host@ == "localhost"@,
            r.port == 9091,
            r.username is None,
            r.password is None,
            r.managed_daemon_command is None,
            r.managed_daemon_args is None,
    {
        TorrentConfig {
            client: default_torrent_client(),
            host: default_torrent_host(),
            port: default_torrent_port(),
            username: None,
            password: None,
            managed_daemon_command: None,
            managed_daemon_args: None,
        }
    }
}

impl Default for Config {
    fn default() -> (r: Config)
        ensures
            r.general.media_dirs@.len() == 1,
            r.torrent.port == 9091,
            r.metadata.mal_access_token is None,
    {
        Config {
            general: Default::default(),
            player: Default::default(),
            ui: Default::default(),
            torrent: Default::default(),
            metadata: Default::default(),
        }
    }
}

// ---------------------------------------------------------------------------
// Machine directories, behind trusted lookups
// ---------------------------------------------------------------------------

#[verifier::external_type_specification]
#[verifier::external_body]
pub struct ExProjectDirs(directories::ProjectDirs);

#[verifier::external_type_specification]
#[verifier::external_body]
pub struct ExBaseDirs(directories::BaseDirs);

/// Relies on `directories::ProjectDirs::from` for this application's
/// directories; what comes back depends on the machine, so nothing is
/// promised of it.
#[verifier::external_body]
fn project_dirs() -> Option<directories::ProjectDirs> {
    directories::ProjectDirs::from("", "", "miru")
}

/// Relies on `directories::ProjectDirs::config_dir`, rendered as a
/// string.
#[verifier::external_body]
fn dirs_config_dir(d: &directories::ProjectDirs) -> String {
    d.config_dir().to_string_lossy().into_owned()
}

/// Relies on `directories::ProjectDirs::data_dir`, rendered as a
/// string.
#[verifier::external_body]
fn dirs_data_dir(d: &directories::ProjectDirs) -> String {
    d.data_dir().to_string_lossy().into_owned()
}

/// Relies on `directories::BaseDirs::new`; machine-dependent, so
/// nothing is promised of it.
#[verifier::external_body]
fn base_dirs() -> Option<directories::BaseDirs> {
    directories::BaseDirs::new()
}

/// Relies on `directories::BaseDirs::home_dir`, rendered as a string.
#[verifier::external_body]
fn dirs_home_dir(d: &directories::BaseDirs) -> String {
    d.home_dir().to_string_lossy().into_owned()
}

/// The machine's configuration directory for this application, if it
/// offers one.
pub fn config_dir() -> Option<String> {
    match project_dirs() {
        Some(d) => Some(dirs_config_dir(&d)),
        None => None,
    }
}

/// The machine's data directory for this application, if it offers
/// one.
pub fn data_dir() -> Option<String> {
    match project_dirs() {
        Some(d) => Some(dirs_data_dir(&d)),
        None => None,
    }
}

/// The configuration file's path: the configuration directory with the
/// fixed file name appended.
pub fn config_path() -> (r: Option<String>)
    ensures
        r matches Some(p) ==> ends_with(p@, "/config.toml"@),
{
    match config_dir() {
        Some(d) => {
            let mut p = d;
            p.append("/config.toml");
            proof {
                assert(p@.subrange(p@.len() - "/config.toml"@.len(), p@.len() as int)
                    =~= "/config.toml"@);
            }
            Some(p)
        },
        None => None,
    }
}

/// The library file's path: the data directory with the fixed file
/// name appended.
pub fn library_path() -> (r: Option<String>)
    ensures
        r matches Some(p) ==> ends_with(p@, "/library.toml"@),
{
    match data_dir() {
        Some(d) => {
            let mut p = d;
            p.append("/library.toml");
            proof {
                assert(p@.subrange(p@.len() - "/library.toml"@.len(), p@.len() as int)
                    =~= "/library.toml"@);
            }
            Some(p)
        },
        None => None,
    }
}

/// The user's home directory, if the machine offers one.
pub fn home_dir() -> Option<String> {
    match base_dirs() {
        Some(d) => Some(dirs_home_dir(&d)),
        None => None,
    }
}

// ---------------------------------------------------------------------------
// Home expansion
// ---------------------------------------------------------------------------

/// A path with a leading tilde expanded against the home directory: a
/// bare tilde becomes the home itself, a tilde before a separator has
/// the rest joined onto the home, and anything else is untouched; with
/// no home available, paths pass through unchanged.
pub open spec fn spec_expand(p: Seq<char>, home: Option<String>) -> Seq<char> {
    match home {
        Some(h) => if p == "~"@ {
            h@
        } else if p.len() >= 2 && p[0] == '~' && (p[1] == '/' || p[1] == '\u{5c}') {
            h@ + "/"@ + p.subrange(2, p.len() as int)
        } else {
            p
        },
        None => p,
    }
}

/// Expands a leading tilde against a home directory.
pub fn expand_home(path: &String, home: &Option<String>) -> (r: String)
    ensures
        r@ == spec_expand(path@, *home),
{
    let v = to_chars(path.as_str());
    match home {
        Some(h) => {
            proof {
                reveal_strlit("~");
            }
            if v.len() == 1 && v[0] == '~' {
                proof {
                    assert(path@ =~= "~"@);
                }
                return h.clone();
            }
            proof {
                if path@ == "~"@ {
                    assert(v@.len() == 1 && v@[0] == '~');
                }
            }
            if v.len() >= 2 && v[0] == '~' && (v[1] == '/' || v[1] == '\u{5c}') {
                let mut out = h.clone();
                out.append("/");
                let mut rest: Vec<char> = Vec::new();
                let n = v.len();
                let mut t: usize = 2;
                while t < n
                    invariant
                        2 <= t <= n,
                        n == v@.len(),
                        rest@ == v@.subrange(2, t as int),
                    decreases n - t,
                {
                    rest.push(v[t]);
                    t += 1;
                    proof {
                        assert(rest@ =~= v@.subrange(2, t as int));
                    }
                }
                let rest_s = crate::text::chars_to_string(&rest);
                out.append(rest_s.as_str());
                return out;
            }
            path.clone()
        },
        None => path.clone(),
    }
}

/// Every path of `out` is the corresponding path of `dirs` expanded
/// against the home `h`.
pub open spec fn dirs_expanded(out: Seq<String>, dirs: Seq<String>, h: Option<String>) -> bool {
    out.len() == dirs.len() && forall|i: int|
        0 <= i < out.len() ==> (#[trigger] out[i])@ == spec_expand(dirs[i]@, h)
}

impl Config {
    /// The media directories with leading tildes expanded against one
    /// home-directory lookup.
    pub fn expanded_media_dirs(&self) -> (r: Vec<String>)
        ensures
            exists|h: Option<String>| dirs_expanded(r@, self.general.media_dirs@, h),
    {
        let home = home_dir();
        let n = self.general.media_dirs.len();
        let mut out: Vec<String> = Vec::new();
        let mut i: usize = 0;
        while i < n
            invariant
                i <= n,
                n == self.general.media_dirs@.len(),
                out@.len() == i,
                forall|t: int|
                    0 <= t < i ==> (#[trigger] out@[t])@ == spec_expand(
                        self.general.media_dirs@[t]@,
                        home,
                    ),
            decreases n - i,
        {
            out.push(expand_home(&self.general.media_dirs[i], &home));
            i += 1;
        }
        proof {
            assert(dirs_expanded(out@, self.general.media_dirs@, home));
        }
        out
    }

    /// The archive path with a leading tilde expanded against one
    /// home-directory lookup.
    pub fn expanded_archive_path(&self) -> (r: String)
        ensures
            exists|h: Option<String>| r@ == spec_expand(self.general.archive_path@, h),
    {
        let home = home_dir();
        let r = expand_home(&self.general.archive_path, &home);
        proof {
            assert(r@ == spec_expand(self.general.archive_path@, home));
        }
        r
    }
}

} // verus!
