//! The real torrent engine's rules: the session options that follow from the
//! privacy setting, what each control command leads to, and how a resolved file
//! is named.
use vstd::prelude::*;
use crate::model::{PrivacySettings, TorrentFileEntry};
use crate::text::push_str;

verus! {

#[verifier::external_type_specification]
#[verifier::external_body]
pub struct ExPathBuf(std::path::PathBuf);

/// What a running torrent reports. Progress is in hundredths of a percent and
/// rates in bytes per second.
#[derive(Debug, Clone, PartialEq, Eq)]
pub enum RqbitTorrentEvent {
    SessionStarted,
    MetadataResolved {
        display_name: String,
        info_hash: String,
        output_folder: String,
        file_count: usize,
        files: Vec<TorrentFileEntry>,
    },
    Progress {
        progress_basis_points: u32,
        downloaded_bytes: u64,
        total_bytes: u64,
        download_rate_bytes_per_sec: u64,
        upload_rate_bytes_per_sec: u64,
        peers: u32,
        eta_text: String,
    },
    Paused,
    Resumed,
    Removed,
    Deleted,
    Completed,
    Failed(String),
}

/// What the desktop app can ask a running torrent to do.
#[derive(Debug, Clone, Copy, PartialEq, Eq, Structural)]
pub enum RqbitTorrentCommand {
    Pause,
    Resume,
    Remove,
    DeleteFiles,
}

/// The session switches that the privacy setting decides.
#[derive(Debug, Clone, Copy, PartialEq, Eq)]
pub struct TorrentSessionFlags {
    pub disable_dht: bool,
    pub disable_dht_persistence: bool,
    pub enable_upnp_port_forwarding: bool,
}

/// Starts torrent sessions under a download root with a privacy setting.
pub struct RqbitTorrentEngine {
    download_root: std::path::PathBuf,
    privacy: PrivacySettings,
}

impl RqbitTorrentEngine {
    pub closed spec fn privacy_mode(&self) -> bool {
        self.privacy.privacy_mode
    }

    /// The folder that sessions download into.
    pub closed spec fn root(&self) -> std::path::PathBuf {
        self.download_root
    }

    pub fn new(download_root: std::path::PathBuf, privacy: PrivacySettings) -> (r: Self)
        ensures
            r.privacy_mode() == privacy.privacy_mode,
            r.root() == download_root,
    {
        RqbitTorrentEngine { download_root, privacy }
    }

    pub fn download_root(&self) -> (r: &std::path::PathBuf)
        ensures
            *r == self.root(),
    {
        &self.download_root
    }

    /// Privacy mode turns off the DHT, its persistence and UPnP port forwarding.
    pub fn session_flags(&self) -> (r: TorrentSessionFlags)
        ensures
            r.disable_dht == self.privacy_mode(),
            r.disable_dht_persistence == self.privacy_mode(),
            r.enable_upnp_port_forwarding == !self.privacy_mode(),
    {
        TorrentSessionFlags {
            disable_dht: self.privacy.disable_peer_discovery_extras(),
            disable_dht_persistence: self.privacy.disable_peer_discovery_extras(),
            enable_upnp_port_forwarding: !self.privacy.disable_peer_discovery_extras(),
        }
    }
}

/// What the engine reports after carrying out a command.
#[derive(Debug, Clone, PartialEq, Eq)]
pub enum CommandNotice {
    Paused,
    Resumed,
    Removed,
    Deleted,
    Failed(String),
}

/// The word a failed command's message starts with.
pub open spec fn command_verb(c: RqbitTorrentCommand) -> Seq<char> {
    match c {
        RqbitTorrentCommand::Pause => "pause"@,
        RqbitTorrentCommand::Resume => "resume"@,
        RqbitTorrentCommand::Remove => "remove"@,
        RqbitTorrentCommand::DeleteFiles => "delete"@,
    }
}

/// The outcome of a command: the notice, whether the session ends, and whether the
/// torrent is paused afterwards. A failure always ends the session; removing or
/// deleting ends it too.
pub fn command_outcome(command: RqbitTorrentCommand, error: Option<&str>, was_paused: bool) -> (r: (CommandNotice, bool, bool))
    ensures
        match error {
            Some(e) => r.0 matches CommandNotice::Failed(m) && m@ == command_verb(command) + " failed: "@ + e@
                && r.1 && r.2 == was_paused,
            None => match command {
                RqbitTorrentCommand::Pause => r == (CommandNotice::Paused, false, true),
                RqbitTorrentCommand::Resume => r == (CommandNotice::Resumed, false, false),
                RqbitTorrentCommand::Remove => r == (CommandNotice::Removed, true, was_paused),
                RqbitTorrentCommand::DeleteFiles => r == (CommandNotice::Deleted, true, was_paused),
            },
        },
{
    match error {
        Some(e) => {
            let mut message = match command {
                RqbitTorrentCommand::Pause => "pause".to_owned(),
                RqbitTorrentCommand::Resume => "resume".to_owned(),
                RqbitTorrentCommand::Remove => "remove".to_owned(),
                RqbitTorrentCommand::DeleteFiles => "delete".to_owned(),
            };
            push_str(&mut message, " failed: ");
            push_str(&mut message, e);
            (CommandNotice::Failed(message), true, was_paused)
        },
        None => match command {
            RqbitTorrentCommand::Pause => (CommandNotice::Paused, false, true),
            RqbitTorrentCommand::Resume => (CommandNotice::Resumed, false, false),
            RqbitTorrentCommand::Remove => (CommandNotice::Removed, true, was_paused),
            RqbitTorrentCommand::DeleteFiles => (CommandNotice::Deleted, true, was_paused),
        },
    }
}

/// The eta text shown with a progress report: `Paused` while paused.
pub fn progress_eta_text(is_paused: bool, eta_text: String) -> (r: String)
    ensures
        is_paused ==> r@ == "Paused"@,
        !is_paused ==> r@ == eta_text@,
{
    if is_paused {
        "Paused".to_owned()
    } else {
        eta_text
    }
}

/// Hundredths of a percent of a torrent's bytes that have arrived: none for an
/// empty torrent, and at most `u32::MAX`.
pub open spec fn byte_progress(progress_bytes: u64, total_bytes: u64) -> u32 {
    if total_bytes == 0 {
        0
    } else if (progress_bytes as int) * 10000 / (total_bytes as int) > u32::MAX {
        u32::MAX
    } else {
        ((progress_bytes as int) * 10000 / (total_bytes as int)) as u32
    }
}

/// The progress report the engine sends for a polled torrent: its share of
/// bytes, its rates and peers, and `Paused` in place of the time left while paused.
pub fn progress_report(
    progress_bytes: u64,
    total_bytes: u64,
    download_rate_bytes_per_sec: u64,
    upload_rate_bytes_per_sec: u64,
    peers: u32,
    is_paused: bool,
    eta_text: String,
) -> (r: RqbitTorrentEvent)
    ensures
        r matches RqbitTorrentEvent::Progress {
            progress_basis_points: p,
            downloaded_bytes: d,
            total_bytes: t,
            download_rate_bytes_per_sec: down,
            upload_rate_bytes_per_sec: up,
            peers: n,
            eta_text: e,
        } && p == byte_progress(progress_bytes, total_bytes) && d == progress_bytes && t == total_bytes && down
            == download_rate_bytes_per_sec && up == upload_rate_bytes_per_sec && n == peers && e@ == (if is_paused {
            "Paused"@
        } else {
            eta_text@
        }),
{
    let progress: u32 = if total_bytes == 0 {
        0
    } else {
        let ratio = (progress_bytes as u128) * 10000 / (total_bytes as u128);
        if ratio > u32::MAX as u128 {
            u32::MAX
        } else {
            ratio as u32
        }
    };
    RqbitTorrentEvent::Progress {
        progress_basis_points: progress,
        downloaded_bytes: progress_bytes,
        total_bytes,
        download_rate_bytes_per_sec,
        upload_rate_bytes_per_sec,
        peers,
        eta_text: progress_eta_text(is_paused, eta_text),
    }
}

/// Components joined with `/`.
pub open spec fn joined(parts: Seq<Seq<char>>) -> Seq<char>
    decreases parts.len(),
{
    if parts.len() == 0 {
        Seq::empty()
    } else if parts.len() == 1 {
        parts[0]
    } else {
        joined(parts.drop_last()) + "/"@ + parts.last()
    }
}

/// A resolved file's path: its components joined with `/`, or its name where it has none.
pub fn torrent_file_path(name: &str, components: &Vec<String>) -> (r: String)
    ensures
        components@.len() == 0 ==> r@ == name@,
        components@.len() > 0 ==> r@ == joined(components@.map_values(|c: String| c@)),
{
    if components.len() == 0 {
        return name.to_owned();
    }
    let ghost parts = components@.map_values(|c: String| c@);
    let mut r = components[0].clone();
    let mut i: usize = 1;
    assert(parts.take(1).drop_last() =~= Seq::<Seq<char>>::empty());
    while i < components.len()
        invariant
            1 <= i <= components.len(),
            parts == components@.map_values(|c: String| c@),
            r@ == joined(parts.take(i as int)),
        decreases components.len() - i,
    {
        assert(parts.take(i + 1).drop_last() =~= parts.take(i as int));
        push_str(&mut r, "/");
        push_str(&mut r, components[i].as_str());
        i += 1;
    }
    assert(parts.take(components.len() as int) =~= parts);
    r
}

/// A resolved torrent's display name, `Unnamed torrent` where it has none.
pub fn resolved_display_name(name: Option<String>) -> (r: String)
    ensures
        r@ == match name { Some(n) => n@, None => "Unnamed torrent"@ },
{
    match name {
        Some(n) => n,
        None => "Unnamed torrent".to_owned(),
    }
}

} // verus!
