//! What the server sends back and the messages that background work hands to
//! the client: the entries of a folder, the server's upload settings, and the
//! message that each kind of reply becomes.

use vstd::prelude::*;

verus! {

/// One entry of a folder listing.
#[derive(Debug)]
pub struct FileInfo {
    pub name: String,
    pub size: u64,
    pub is_dir: bool,
}

/// A folder entry as a value.
pub struct FileView {
    pub name: Seq<char>,
    pub size: u64,
    pub is_dir: bool,
}

impl View for FileInfo {
    type V = FileView;

    open spec fn view(&self) -> FileView {
        FileView { name: self.name@, size: self.size, is_dir: self.is_dir }
    }
}

impl Clone for FileInfo {
    fn clone(&self) -> (res: Self)
        ensures
            res == *self,
    {
        FileInfo { name: self.name.clone(), size: self.size, is_dir: self.is_dir }
    }
}

/// The entries `files` as values.
pub open spec fn files_view(files: Seq<FileInfo>) -> Seq<FileView> {
    files.map_values(|f: FileInfo| f@)
}

/// The upload settings of the server: the largest file it takes, in bytes,
/// and its upload speed limit in bytes per second (0 for none).
#[derive(Clone, Copy, Debug, PartialEq, Eq, Structural)]
pub struct AppConfig {
    pub max_upload_size: u64,
    pub upload_speed_bps: u64,
}

/// A message from background work to the client.
#[derive(Debug)]
pub enum AppMsg {
    /// The server accepted the password and gave this session token.
    LoginSuccess(String),
    /// Logging in failed, for the reason given.
    LoginFailed(String),
    /// The entries of the current folder.
    FilesLoaded(Vec<FileInfo>),
    /// A change on the server succeeded; the text says which.
    ActionSuccess(String),
    /// Something failed; the text says what.
    Error(String),
    /// So many chunks of the current upload, out of so many, have been sent.
    UploadProgress(u64, u64),
    /// The preview of the named file, as width, height and RGBA pixels.
    ImageLoaded(String, u32, u32, Vec<u8>),
    /// No preview could be made of the named file.
    ImageFailed(String),
    /// The upload settings of the server.
    ConfigLoaded(AppConfig),
    /// The server took the new upload settings.
    ConfigSaved,
}

/// A message as a value.
pub enum Msg {
    LoginSuccess(Seq<char>),
    LoginFailed(Seq<char>),
    FilesLoaded(Seq<FileView>),
    ActionSuccess(Seq<char>),
    Error(Seq<char>),
    UploadProgress(u64, u64),
    ImageLoaded(Seq<char>, u32, u32, Seq<u8>),
    ImageFailed(Seq<char>),
    ConfigLoaded(AppConfig),
    ConfigSaved,
}

impl View for AppMsg {
    type V = Msg;

    open spec fn view(&self) -> Msg {
        match self {
            AppMsg::LoginSuccess(t) => Msg::LoginSuccess(t@),
            AppMsg::LoginFailed(t) => Msg::LoginFailed(t@),
            AppMsg::FilesLoaded(f) => Msg::FilesLoaded(files_view(f@)),
            AppMsg::ActionSuccess(t) => Msg::ActionSuccess(t@),
            AppMsg::Error(t) => Msg::Error(t@),
            AppMsg::UploadProgress(d, n) => Msg::UploadProgress(*d, *n),
            AppMsg::ImageLoaded(name, w, h, px) => Msg::ImageLoaded(name@, *w, *h, px@),
            AppMsg::ImageFailed(name) => Msg::ImageFailed(name@),
            AppMsg::ConfigLoaded(c) => Msg::ConfigLoaded(*c),
            AppMsg::ConfigSaved => Msg::ConfigSaved,
        }
    }
}

/// The message views of `msgs`.
pub open spec fn msgs_view(msgs: Seq<AppMsg>) -> Seq<Msg> {
    msgs.map_values(|m: AppMsg| m@)
}

/// The view of a message that may be absent.
pub open spec fn opt_view(m: Option<AppMsg>) -> Option<Msg> {
    match m {
        Some(x) => Some(x@),
        None => None,
    }
}

/// An error message made of `text`.
pub fn error_msg(text: &str) -> (m: AppMsg)
    ensures
        m@ == Msg::Error(text@),
{
    AppMsg::Error(String::from_str(text))
}

/// A success message made of `text`.
pub fn success_msg(text: &str) -> (m: AppMsg)
    ensures
        m@ == Msg::ActionSuccess(text@),
{
    AppMsg::ActionSuccess(String::from_str(text))
}

/// The text `prefix` followed by `detail`.
pub fn joined(prefix: &str, detail: &str) -> (s: String)
    ensures
        s@ == prefix@ + detail@,
{
    let mut s = String::from_str(prefix);
    s.append(detail);
    s
}

/// What a login attempt ends in: a network failure when the server could not
/// be reached, "Invalid password" when it refused, the session token when it
/// accepted and its reply could be read (an empty token when the reply held
/// none), and no message when the reply of an accepting server could not be
/// read. `token` is the reply as read: `None` when it could not be.
pub fn login_outcome(reached: bool, accepted: bool, token: Option<Option<String>>) -> (m: Option<
    AppMsg,
>)
    ensures
        !reached ==> opt_view(m) == Some(Msg::LoginFailed(
            "Network error ( Is the server running? )"@,
        )),
        reached && !accepted ==> opt_view(m) == Some(Msg::LoginFailed("Invalid password"@)),
        reached && accepted ==> match token {
            None => m is None,
            Some(None) => opt_view(m) == Some(Msg::LoginSuccess(Seq::empty())),
            Some(Some(t)) => opt_view(m) == Some(Msg::LoginSuccess(t@)),
        },
{
    if !reached {
        return Some(AppMsg::LoginFailed(String::from_str("Network error ( Is the server running? )")));
    }
    if !accepted {
        return Some(AppMsg::LoginFailed(String::from_str("Invalid password")));
    }
    match token {
        None => None,
        Some(None) => Some(AppMsg::LoginSuccess(String::new())),
        Some(Some(t)) => Some(AppMsg::LoginSuccess(t)),
    }
}

/// What a folder listing ends in: "Failed to fetch files" when the server
/// could not be reached, the entries when its reply could be read, and no
/// message otherwise.
pub fn listing_outcome(reached: bool, files: Option<Vec<FileInfo>>) -> (m: Option<AppMsg>)
    ensures
        !reached ==> opt_view(m) == Some(Msg::Error("Failed to fetch files"@)),
        reached ==> match files {
            None => m is None,
            Some(f) => opt_view(m) == Some(Msg::FilesLoaded(files_view(f@))),
        },
{
    if !reached {
        return Some(error_msg("Failed to fetch files"));
    }
    match files {
        None => None,
        Some(f) => Some(AppMsg::FilesLoaded(f)),
    }
}

/// What downloading one file ends in: "Download failed" when the server could
/// not be reached, "Download complete!" once the local file was written, and
/// no message when the local file could not be created.
pub fn download_outcome(reached: bool, saved: bool) -> (m: Option<AppMsg>)
    ensures
        !reached ==> opt_view(m) == Some(Msg::Error("Download failed"@)),
        reached && saved ==> opt_view(m) == Some(Msg::ActionSuccess("Download complete!"@)),
        reached && !saved ==> m is None,
{
    if !reached {
        Some(error_msg("Download failed"))
    } else if saved {
        Some(success_msg("Download complete!"))
    } else {
        None
    }
}

/// What creating a folder ends in: "Folder created" once the server was
/// reached, no message otherwise.
pub fn folder_outcome(reached: bool) -> (m: Option<AppMsg>)
    ensures
        reached ==> opt_view(m) == Some(Msg::ActionSuccess("Folder created"@)),
        !reached ==> m is None,
{
    if reached {
        Some(success_msg("Folder created"))
    } else {
        None
    }
}

/// What deleting ends in: "Deleted successfully" once the server was
/// reached, no message otherwise.
pub fn delete_outcome(reached: bool) -> (m: Option<AppMsg>)
    ensures
        reached ==> opt_view(m) == Some(Msg::ActionSuccess("Deleted successfully"@)),
        !reached ==> m is None,
{
    if reached {
        Some(success_msg("Deleted successfully"))
    } else {
        None
    }
}

/// What moving an entry ends in. `reply` is the server's verdict (`Ok(true)`
/// when it reported success), or the text of the network error.
pub fn move_outcome(reply: Result<bool, String>) -> (m: AppMsg)
    ensures
        match reply {
            Ok(true) => m@ == Msg::ActionSuccess("Item moved successfully!"@),
            Ok(false) => m@ == Msg::Error("Failed to move item."@),
            Err(e) => m@ == Msg::Error("Network error: "@ + e@),
        },
{
    match reply {
        Ok(true) => success_msg("Item moved successfully!"),
        Ok(false) => error_msg("Failed to move item."),
        Err(e) => AppMsg::Error(joined("Network error: ", e.as_str())),
    }
}

/// The message once every file of a batch download was handled.
pub fn batch_download_done() -> (m: AppMsg)
    ensures
        m@ == Msg::ActionSuccess("Batch download complete!"@),
{
    success_msg("Batch download complete!")
}

/// The reply of the server to a request for its upload settings.
#[derive(Debug)]
pub enum ConfigReply {
    /// The server could not be reached; the text describes the error.
    Unreachable(String),
    /// The server answered but its reply could not be read.
    Unreadable(String),
    /// The server answered with the status `status` (as text) and the body
    /// `body`; `success` tells whether the status is a success. `parsed` is
    /// the body read as settings, or the text of the error that reading gave.
    Answered { status: String, success: bool, body: String, parsed: Result<AppConfig, String> },
}

/// What fetching the server's upload settings ends in.
pub fn config_outcome(reply: ConfigReply) -> (m: AppMsg)
    ensures
        match reply {
            ConfigReply::Unreachable(e) => m@ == Msg::Error("Network Error: "@ + e@),
            ConfigReply::Unreadable(e) => m@ == Msg::Error(
                "Failed to read server response: "@ + e@,
            ),
            ConfigReply::Answered { status, success, body, parsed } => if !success {
                m@ == Msg::Error("Server Error "@ + status@ + ": "@ + body@)
            } else {
                match parsed {
                    Ok(c) => m@ == Msg::ConfigLoaded(c),
                    Err(e) => m@ == Msg::Error("JSON Error: "@ + e@ + ". Raw data: "@ + body@),
                }
            },
        },
{
    match reply {
        ConfigReply::Unreachable(e) => AppMsg::Error(joined("Network Error: ", e.as_str())),
        ConfigReply::Unreadable(e) => AppMsg::Error(
            joined("Failed to read server response: ", e.as_str()),
        ),
        ConfigReply::Answered { status, success, body, parsed } => {
            if !success {
                let mut t = joined("Server Error ", status.as_str());
                t.append(": ");
                t.append(body.as_str());
                AppMsg::Error(t)
            } else {
                match parsed {
                    Ok(c) => AppMsg::ConfigLoaded(c),
                    Err(e) => {
                        let mut t = joined("JSON Error: ", e.as_str());
                        t.append(". Raw data: ");
                        t.append(body.as_str());
                        AppMsg::Error(t)
                    },
                }
            }
        },
    }
}

/// What saving the server's upload settings ends in.
pub fn config_saved_outcome(reached: bool) -> (m: AppMsg)
    ensures
        reached ==> m@ == Msg::ConfigSaved,
        !reached ==> m@ == Msg::Error("Failed to save server configuration."@),
{
    if reached {
        AppMsg::ConfigSaved
    } else {
        error_msg("Failed to save server configuration.")
    }
}

} // verus!
