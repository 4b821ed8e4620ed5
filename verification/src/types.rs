//! Data exchanged with the front end and with the update service. The
//! serialised forms (field names, defaults) belong to the application crate,
//! which holds copies of these types with the serde derives.

use vstd::prelude::*;

verus! {

/// System information shown in the settings page.
#[derive(Debug, Clone)]
pub struct SystemInfo {
    pub os: String,
    pub os_version: String,
    pub arch: String,
    pub tauri_version: String,
}

/// The WebView2 runtime directory in use: a configured folder, or the
/// system runtime.
#[derive(Debug, Clone)]
pub struct WebView2DirInfo {
    pub path: String,
    pub system: bool,
}

/// The outcome of a finished download.
#[derive(Debug, Clone)]
pub struct DownloadResult {
    pub session_id: u64,
    pub actual_save_path: String,
    pub detected_filename: Option<String>,
}

/// The file lists of an update package's `changes.json`.
#[derive(Debug, Clone)]
pub struct ChangesJson {
    pub added: Vec<String>,
    pub deleted: Vec<String>,
    pub modified: Vec<String>,
}

/// One asset of a GitHub release.
#[derive(Debug)]
pub struct GitHubAsset {
    pub name: String,
    pub browser_download_url: String,
    pub size: u64,
}

/// A GitHub release as the releases API describes it.
#[derive(Debug)]
pub struct GitHubRelease {
    pub tag_name: String,
    pub name: String,
    pub body: Option<String>,
    pub prerelease: bool,
    pub assets: Vec<GitHubAsset>,
}

/// Events pushed to the browser clients over the WebSocket.
#[derive(Debug, Clone)]
pub enum WsEvent {
    /// A line of output of the KKAFIO command-line child process.
    KkafioOutput { stream: String, line: String },
    /// Some client changed the configuration; the others reload it.
    ConfigChanged,
}

} // verus!
