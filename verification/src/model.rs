//! The data that the download queue, the planner and the desktop state share.
use vstd::prelude::*;

verus! {

/// The view of an optional string.
pub open spec fn opt_str(o: Option<String>) -> Option<Seq<char>> {
    match o {
        Some(s) => Some(s@),
        None => None,
    }
}

/// How a download is transferred.
#[derive(Debug, Clone, Copy, PartialEq, Eq, Structural)]
pub enum DownloadKind {
    Direct,
    Torrent,
}

impl DownloadKind {
    /// The text shown for this kind.
    pub fn as_str(&self) -> (r: &'static str)
        ensures
            *self == DownloadKind::Direct ==> r@ == "Direct"@,
            *self == DownloadKind::Torrent ==> r@ == "Torrent"@,
    {
        match self {
            DownloadKind::Direct => "Direct",
            DownloadKind::Torrent => "Torrent",
        }
    }
}

/// What a download request holds, as mathematical values.
pub struct DownloadRequestView {
    pub file_name: Seq<char>,
    pub source: Seq<char>,
    pub kind: DownloadKind,
    pub referrer: Option<Seq<char>>,
    pub user_agent: Option<Seq<char>>,
    pub cookie_header: Option<Seq<char>>,
}

/// A file to fetch: its name, where it comes from, and the browser context it came with.
#[derive(Debug, Clone, PartialEq, Eq)]
pub struct DownloadRequest {
    pub file_name: String,
    pub source: String,
    pub kind: DownloadKind,
    pub referrer: Option<String>,
    pub user_agent: Option<String>,
    pub cookie_header: Option<String>,
}

impl View for DownloadRequest {
    type V = DownloadRequestView;

    open spec fn view(&self) -> DownloadRequestView {
        DownloadRequestView {
            file_name: self.file_name@,
            source: self.source@,
            kind: self.kind,
            referrer: opt_str(self.referrer),
            user_agent: opt_str(self.user_agent),
            cookie_header: opt_str(self.cookie_header),
        }
    }
}

/// A request with no browser context.
pub open spec fn request_new(file_name: Seq<char>, source: Seq<char>, kind: DownloadKind) -> DownloadRequestView {
    DownloadRequestView {
        file_name,
        source,
        kind,
        referrer: None,
        user_agent: None,
        cookie_header: None,
    }
}

/// The request with its browser context replaced.
pub open spec fn request_with_context(
    r: DownloadRequestView,
    referrer: Option<Seq<char>>,
    user_agent: Option<Seq<char>>,
    cookie_header: Option<Seq<char>>,
) -> DownloadRequestView {
    DownloadRequestView { referrer, user_agent, cookie_header, ..r }
}

/// The request with its browser context dropped.
pub open spec fn request_cleared(r: DownloadRequestView) -> DownloadRequestView {
    request_with_context(r, None, None, None)
}

/// The text that stands in for a torrent source in the history.
pub open spec fn redacted_source() -> Seq<char> {
    "[magnet redacted]"@
}

/// The request as the history keeps it: a torrent's source is replaced.
pub open spec fn request_redacted(r: DownloadRequestView) -> DownloadRequestView {
    if r.kind == DownloadKind::Torrent {
        DownloadRequestView { source: redacted_source(), ..r }
    } else {
        r
    }
}

/// Clearing the browser context forgets whatever context was attached: only
/// the file name, source and kind remain.
pub proof fn lemma_cleared_forgets_context(
    r: DownloadRequestView,
    referrer: Option<Seq<char>>,
    user_agent: Option<Seq<char>>,
    cookie_header: Option<Seq<char>>,
)
    ensures
        request_cleared(request_with_context(r, referrer, user_agent, cookie_header)) == request_cleared(r),
        request_cleared(r) == request_new(r.file_name, r.source, r.kind),
{
}

/// Redacting for the history is done once: a second redaction changes nothing,
/// a direct download keeps its source, and a torrent keeps only the placeholder.
pub proof fn lemma_redaction_is_stable(r: DownloadRequestView)
    ensures
        request_redacted(request_redacted(r)) == request_redacted(r),
        r.kind == DownloadKind::Direct ==> request_redacted(r) == r,
        r.kind == DownloadKind::Torrent ==> request_redacted(r).source == redacted_source(),
        request_redacted(r).kind == r.kind,
        request_redacted(r).file_name == r.file_name,
{
}

impl DownloadRequest {
    pub fn new(file_name: String, source: String, kind: DownloadKind) -> (r: Self)
        ensures
            r@ == request_new(file_name@, source@, kind),
    {
        DownloadRequest {
            file_name,
            source,
            kind,
            referrer: None,
            user_agent: None,
            cookie_header: None,
        }
    }

    pub fn with_browser_context(
        self,
        referrer: Option<String>,
        user_agent: Option<String>,
        cookie_header: Option<String>,
    ) -> (r: Self)
        ensures
            r@ == request_with_context(
                self@,
                opt_str(referrer),
                opt_str(user_agent),
                opt_str(cookie_header),
            ),
    {
        let mut this = self;
        this.referrer = referrer;
        this.user_agent = user_agent;
        this.cookie_header = cookie_header;
        this
    }

    pub fn clear_browser_context(&mut self)
        ensures
            final(self)@ == request_cleared(old(self)@),
    {
        self.referrer = None;
        self.user_agent = None;
        self.cookie_header = None;
    }

    pub fn redact_source_for_history(&mut self)
        ensures
            final(self)@ == request_redacted(old(self)@),
    {
        if self.kind == DownloadKind::Torrent {
            self.source = "[magnet redacted]".to_owned();
        }
    }
}

/// A destination folder and the file extensions routed to it.
#[derive(Debug, Clone, PartialEq, Eq)]
pub struct DownloadCategory {
    pub name: String,
    pub folder_name: String,
    pub extensions: Vec<String>,
}

/// The category a download was routed to and the folder it lands in.
#[derive(Debug, Clone, PartialEq, Eq)]
pub struct DownloadPlan {
    pub category_name: String,
    pub target_folder: String,
}

/// A plan as mathematical values.
pub struct DownloadPlanView {
    pub category_name: Seq<char>,
    pub target_folder: Seq<char>,
}

impl View for DownloadPlan {
    type V = DownloadPlanView;

    open spec fn view(&self) -> DownloadPlanView {
        DownloadPlanView { category_name: self.category_name@, target_folder: self.target_folder@ }
    }
}

/// Where a download stands.
#[derive(Debug, Clone, Copy, PartialEq, Eq, Structural)]
pub enum DownloadStatus {
    Queued,
    Downloading,
    Seeding,
    Paused,
    Completed,
    Failed,
}

impl DownloadStatus {
    /// The text shown for this status.
    pub fn as_str(&self) -> (r: &'static str)
        ensures
            *self == DownloadStatus::Queued ==> r@ == "Queued"@,
            *self == DownloadStatus::Downloading ==> r@ == "Downloading"@,
            *self == DownloadStatus::Seeding ==> r@ == "Seeding"@,
            *self == DownloadStatus::Paused ==> r@ == "Paused"@,
            *self == DownloadStatus::Completed ==> r@ == "Completed"@,
            *self == DownloadStatus::Failed ==> r@ == "Failed"@,
    {
        match self {
            DownloadStatus::Queued => "Queued",
            DownloadStatus::Downloading => "Downloading",
            DownloadStatus::Seeding => "Seeding",
            DownloadStatus::Paused => "Paused",
            DownloadStatus::Completed => "Completed",
            DownloadStatus::Failed => "Failed",
        }
    }
}

/// The filters of the queue list.
#[derive(Debug, Clone, Copy, PartialEq, Eq, Structural)]
pub enum QueueView {
    Active,
    Queued,
    Completed,
    Torrents,
    BrowserCapture,
}

impl QueueView {
    pub const ALL: [QueueView; 5] = [
        QueueView::Active,
        QueueView::Queued,
        QueueView::Completed,
        QueueView::Torrents,
        QueueView::BrowserCapture,
    ];

    pub fn label(self) -> (r: &'static str)
        ensures
            self == QueueView::Active ==> r@ == "Active"@,
            self == QueueView::Queued ==> r@ == "Queued"@,
            self == QueueView::Completed ==> r@ == "Completed"@,
            self == QueueView::Torrents ==> r@ == "Torrents"@,
            self == QueueView::BrowserCapture ==> r@ == "Browser Capture"@,
    {
        match self {
            QueueView::Active => "Active",
            QueueView::Queued => "Queued",
            QueueView::Completed => "Completed",
            QueueView::Torrents => "Torrents",
            QueueView::BrowserCapture => "Browser Capture",
        }
    }
}

/// One file of a torrent.
#[derive(Debug, Clone, PartialEq, Eq)]
pub struct TorrentFileEntry {
    pub path: String,
    pub size_bytes: u64,
}

/// The state of a torrent session.
#[derive(Debug, Clone, PartialEq, Eq)]
pub struct TorrentSessionSnapshot {
    pub info_hash: String,
    pub display_name: String,
    pub save_path: String,
    pub magnet_uri: String,
    pub files: Vec<TorrentFileEntry>,
    pub piece_count: u32,
    pub completed_pieces: u32,
    pub downloaded_bytes: u64,
    pub uploaded_bytes: u64,
    pub connected_peers: u32,
    pub trackers: Vec<String>,
}

/// What the browser extension sends for a captured download.
#[derive(Debug, Clone, PartialEq, Eq)]
pub struct BrowserCapturePayload {
    pub file_name: String,
    pub source: String,
    pub kind: DownloadKind,
    pub referrer: Option<String>,
    pub user_agent: Option<String>,
    pub cookie_header: Option<String>,
}

impl BrowserCapturePayload {
    pub fn into_request(self) -> (r: DownloadRequest)
        ensures
            r@ == request_with_context(
                request_new(self.file_name@, self.source@, self.kind),
                opt_str(self.referrer),
                opt_str(self.user_agent),
                opt_str(self.cookie_header),
            ),
    {
        DownloadRequest::new(self.file_name, self.source, self.kind).with_browser_context(
            self.referrer,
            self.user_agent,
            self.cookie_header,
        )
    }
}

/// The privacy switch and the policies that follow from it.
#[derive(Debug, Clone, PartialEq, Eq)]
pub struct PrivacySettings {
    pub privacy_mode: bool,
}

impl Default for PrivacySettings {
    fn default() -> (r: Self)
        ensures
            r.privacy_mode,
    {
        PrivacySettings { privacy_mode: true }
    }
}

impl PrivacySettings {
    pub fn auto_stop_on_completion(&self) -> (r: bool)
        ensures
            r == self.privacy_mode,
    {
        self.privacy_mode
    }

    pub fn no_seeding(&self) -> (r: bool)
        ensures
            r == self.privacy_mode,
    {
        self.privacy_mode
    }

    pub fn disable_peer_discovery_extras(&self) -> (r: bool)
        ensures
            r == self.privacy_mode,
    {
        self.privacy_mode
    }

    pub fn minimize_browser_metadata_retention(&self) -> (r: bool)
        ensures
            r == self.privacy_mode,
    {
        self.privacy_mode
    }

    pub fn minimize_logging(&self) -> (r: bool)
        ensures
            r == self.privacy_mode,
    {
        self.privacy_mode
    }

    pub fn minimize_torrent_metadata_retention(&self) -> (r: bool)
        ensures
            r == self.privacy_mode,
    {
        self.privacy_mode
    }
}

/// The desktop settings that outlive a run.
#[derive(Debug, Clone, PartialEq, Eq)]
pub struct DesktopPersistedState {
    pub expanded_details_job_id: Option<u64>,
    pub privacy: PrivacySettings,
    pub rqbit: Option<RqbitPersistedState>,
}

impl Default for DesktopPersistedState {
    fn default() -> (r: Self)
        ensures
            r.expanded_details_job_id is None,
            r.privacy.privacy_mode,
            r.rqbit is None,
    {
        DesktopPersistedState {
            expanded_details_job_id: None,
            privacy: PrivacySettings { privacy_mode: true },
            rqbit: None,
        }
    }
}

/// A live torrent job saved so that it can be picked up again.
#[derive(Debug, Clone, PartialEq, Eq)]
pub struct RqbitPersistedState {
    pub queue_job_id: u64,
    pub magnet_uri: String,
    pub torrent_name: Option<String>,
    pub info_hash: Option<String>,
    pub output_folder: Option<String>,
    pub file_count: Option<usize>,
    pub files: Vec<TorrentFileEntry>,
    pub peer_count: u32,
}

impl RqbitPersistedState {
    pub fn matches_torrent_job(&self, request: &DownloadRequest) -> (r: bool)
        ensures
            r == (request.kind == DownloadKind::Torrent && request.source@ == self.magnet_uri@),
    {
        request.kind == DownloadKind::Torrent && request.source == self.magnet_uri
    }
}

} // verus!
