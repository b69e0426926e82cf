//! The state of the client and every decision it takes: what a click or a
//! key changes, which request goes to the server, and what a message from
//! background work does to the state.

use vstd::prelude::*;
use crate::messages::{AppConfig, AppMsg, FileInfo, FileView, Msg, files_view};
use crate::paths::{api_address, api_url, child_of, child_path, parent_of, parent_path, shown_path, show_path};
use crate::preview::{is_image_name, is_picture};
use crate::saved_address::{address_file, address_file_text};
use crate::text::{
    ascii_fold, decimal, decimal_string, eq_ignore_ascii_case, same_ignoring_ascii_case, same_text, trim,
    trimmed,
};
use crate::theme::Theme;

verus! {

/// Which screen the client shows.
#[derive(Clone, Copy, Debug, PartialEq, Eq, Structural)]
pub enum ViewState {
    Login,
    Dashboard,
}

/// Where the thumbnail of a picture stands.
#[derive(Clone, Copy, Debug, PartialEq, Eq, Structural)]
pub enum ImageState {
    Loading,
    Loaded,
    Failed,
}

/// The state of the client.
pub struct NasClientApp {
    /// The screen shown; only a login and Log Out change it.
    view: ViewState,
    /// The server address as typed.
    pub ip_input: String,
    pub password_input: String,
    /// The session token given at login.
    token: String,
    /// The folder shown, as a path from the root.
    pub current_path: String,
    /// The entries of the folder shown.
    pub files: Vec<FileInfo>,
    /// The name typed for a new folder.
    pub new_folder_name: String,
    pub status_message: String,
    /// Whether a request is under way.
    pub is_loading: bool,
    /// The entry being moved, while the move dialog is open.
    pub moving_item: Option<String>,
    /// The destination folder chosen in the move dialog.
    pub move_target_folder: String,
    /// The entry whose delete button was clicked once.
    item_pending_deletion: Option<String>,
    /// The thumbnails asked for, by file name; no name occurs twice.
    ///
    /// This and `selected_files` are vectors kept free of repeated names
    /// rather than a `HashMap` and a `HashSet`: vstd specifies those two only
    /// for keys that satisfy `obeys_key_model`, which it grants to the
    /// primitive types and not to `String`, so nothing about what a map or
    /// set keyed by file name holds could be proved.
    image_cache: Vec<(String, ImageState)>,
    /// How many chunks of the current upload were sent, out of how many.
    pub upload_progress: Option<(u64, u64)>,
    pub theme: Theme,
    /// The files ticked for download; no name occurs twice.
    selected_files: Vec<String>,
    pub show_config_modal: bool,
    /// The server's upload settings, while the settings window is open.
    pub active_config: Option<AppConfig>,
}

/// The state of the client as a value.
pub struct ClientView {
    pub view: ViewState,
    pub ip: Seq<char>,
    pub password: Seq<char>,
    pub token: Seq<char>,
    pub path: Seq<char>,
    pub files: Seq<FileView>,
    pub new_folder: Seq<char>,
    pub status: Seq<char>,
    pub loading: bool,
    pub moving: Option<Seq<char>>,
    pub move_target: Seq<char>,
    pub pending_delete: Option<Seq<char>>,
    pub previews: Map<Seq<char>, ImageState>,
    pub progress: Option<(u64, u64)>,
    pub theme: Theme,
    pub selected: Set<Seq<char>>,
    pub show_config: bool,
    pub config: Option<AppConfig>,
}

/// The text of an optional string.
pub open spec fn opt_text(s: Option<String>) -> Option<Seq<char>> {
    match s {
        Some(t) => Some(t@),
        None => None,
    }
}

/// The thumbnail states recorded in `s`, by file name.
pub open spec fn cache_view(s: Seq<(String, ImageState)>) -> Map<Seq<char>, ImageState> {
    Map::new(
        |k: Seq<char>| exists|i: int| 0 <= i < s.len() && (#[trigger] s[i]).0@ == k,
        |k: Seq<char>| s[choose|i: int| 0 <= i < s.len() && (#[trigger] s[i]).0@ == k].1,
    )
}

/// Whether no file name occurs twice in `s`.
pub open spec fn distinct_keys(s: Seq<(String, ImageState)>) -> bool {
    forall|i: int, j: int| 0 <= i < j < s.len() ==> (#[trigger] s[i]).0@ != (#[trigger] s[j]).0@
}

/// The names in `s`.
pub open spec fn name_set(s: Seq<String>) -> Set<Seq<char>> {
    Set::new(|k: Seq<char>| exists|i: int| 0 <= i < s.len() && (#[trigger] s[i])@ == k)
}

/// Whether no name occurs twice in `s`.
pub open spec fn distinct_names(s: Seq<String>) -> bool {
    forall|i: int, j: int| 0 <= i < j < s.len() ==> (#[trigger] s[i])@ != (#[trigger] s[j])@
}

/// A file to fetch in a batch download: where to fetch it and the name to
/// save it under.
#[derive(Debug)]
pub struct DownloadItem {
    pub url: String,
    pub name: String,
}

/// A request for the server, to be sent by background work.
#[derive(Debug)]
pub enum Request {
    /// Log in with `password`; before that, write `address_file` to the
    /// settings file so that the address is remembered.
    Login { url: String, password: String, address_file: String },
    /// List a folder.
    ListFiles { url: String, token: String },
    /// Upload local files into the folder `folder`, chunk by chunk.
    Upload { url: String, token: String, folder: String },
    /// Download one file.
    Download { url: String, token: String },
    /// Download several files, each saved under its name.
    DownloadMany { token: String, items: Vec<DownloadItem> },
    /// Fetch the thumbnail of the file `name`.
    Preview { url: String, token: String, name: String },
    /// Create the folder `path`.
    CreateFolder { url: String, token: String, path: String },
    /// Move the entry `source_path` to `destination_path`.
    Move { url: String, token: String, source_path: String, destination_path: String },
    /// Delete the entry `path`.
    Delete { url: String, token: String, path: String },
    /// Fetch the server's upload settings.
    FetchConfig { url: String, token: String },
    /// Store new upload settings on the server.
    SaveConfig { url: String, token: String, config: AppConfig },
}

/// A request as a value.
pub enum Req {
    Login { url: Seq<char>, password: Seq<char>, address_file: Seq<char> },
    ListFiles { url: Seq<char>, token: Seq<char> },
    Upload { url: Seq<char>, token: Seq<char>, folder: Seq<char> },
    Download { url: Seq<char>, token: Seq<char> },
    DownloadMany { token: Seq<char>, items: Seq<(Seq<char>, Seq<char>)> },
    Preview { url: Seq<char>, token: Seq<char>, name: Seq<char> },
    CreateFolder { url: Seq<char>, token: Seq<char>, path: Seq<char> },
    Move { url: Seq<char>, token: Seq<char>, source_path: Seq<char>, destination_path: Seq<char> },
    Delete { url: Seq<char>, token: Seq<char>, path: Seq<char> },
    FetchConfig { url: Seq<char>, token: Seq<char> },
    SaveConfig { url: Seq<char>, token: Seq<char>, config: AppConfig },
}

impl View for Request {
    type V = Req;

    open spec fn view(&self) -> Req {
        match self {
            Request::Login { url, password, address_file } => Req::Login {
                url: url@,
                password: password@,
                address_file: address_file@,
            },
            Request::ListFiles { url, token } => Req::ListFiles { url: url@, token: token@ },
            Request::Upload { url, token, folder } => Req::Upload {
                url: url@,
                token: token@,
                folder: folder@,
            },
            Request::Download { url, token } => Req::Download { url: url@, token: token@ },
            Request::DownloadMany { token, items } => Req::DownloadMany {
                token: token@,
                items: items@.map_values(|d: DownloadItem| (d.url@, d.name@)),
            },
            Request::Preview { url, token, name } => Req::Preview {
                url: url@,
                token: token@,
                name: name@,
            },
            Request::CreateFolder { url, token, path } => Req::CreateFolder {
                url: url@,
                token: token@,
                path: path@,
            },
            Request::Move { url, token, source_path, destination_path } => Req::Move {
                url: url@,
                token: token@,
                source_path: source_path@,
                destination_path: destination_path@,
            },
            Request::Delete { url, token, path } => Req::Delete {
                url: url@,
                token: token@,
                path: path@,
            },
            Request::FetchConfig { url, token } => Req::FetchConfig { url: url@, token: token@ },
            Request::SaveConfig { url, token, config } => Req::SaveConfig {
                url: url@,
                token: token@,
                config: *config,
            },
        }
    }
}

/// The view of a request that may be absent.
pub open spec fn opt_req(r: Option<Request>) -> Option<Req> {
    match r {
        Some(x) => Some(x@),
        None => None,
    }
}

/// Logging in at the typed address, without surrounding whitespace.
pub open spec fn login_req(m: ClientView) -> Req {
    Req::Login {
        url: api_address(trimmed(m.ip), "auth"@),
        password: m.password,
        address_file: address_file_text(trimmed(m.ip)),
    }
}

/// Listing the folder shown.
pub open spec fn listing_req(m: ClientView) -> Req {
    Req::ListFiles { url: api_address(m.ip, "files?path="@ + m.path), token: m.token }
}

/// Uploading into the folder shown.
pub open spec fn upload_req(m: ClientView) -> Req {
    Req::Upload { url: api_address(m.ip, "upload_chunk"@), token: m.token, folder: m.path }
}

/// Where the file `name` of the folder shown is downloaded from.
pub open spec fn download_address(m: ClientView, name: Seq<char>) -> Seq<char> {
    api_address(m.ip, "download/"@ + child_of(m.path, name))
}

/// Downloading the file `name` of the folder shown.
pub open spec fn download_req(m: ClientView, name: Seq<char>) -> Req {
    Req::Download { url: download_address(m, name), token: m.token }
}

/// Downloading the files `names` of the folder shown, in that order.
pub open spec fn batch_req(m: ClientView, names: Seq<Seq<char>>) -> Req {
    Req::DownloadMany {
        token: m.token,
        items: names.map_values(|n: Seq<char>| (download_address(m, n), n)),
    }
}

/// Fetching the thumbnail of the file `name` of the folder shown.
pub open spec fn preview_req(m: ClientView, name: Seq<char>) -> Req {
    Req::Preview {
        url: api_address(m.ip, "download/"@ + child_of(m.path, name) + "?preview=true"@),
        token: m.token,
        name,
    }
}

/// Creating the folder `name` in the folder shown.
pub open spec fn folder_req(m: ClientView, name: Seq<char>) -> Req {
    Req::CreateFolder {
        url: api_address(m.ip, "folders"@),
        token: m.token,
        path: child_of(m.path, name),
    }
}

/// Moving the entry at `source` into the folder `dest`, keeping its name `name`.
pub open spec fn move_req(m: ClientView, source: Seq<char>, dest: Seq<char>, name: Seq<char>) -> Req {
    Req::Move {
        url: api_address(m.ip, "move"@),
        token: m.token,
        source_path: source,
        destination_path: child_of(dest, name),
    }
}

/// Deleting the entry `name` of the folder shown.
pub open spec fn delete_req(m: ClientView, name: Seq<char>) -> Req {
    Req::Delete { url: api_address(m.ip, "delete"@), token: m.token, path: child_of(m.path, name) }
}

/// Fetching the server's upload settings.
pub open spec fn fetch_config_req(m: ClientView) -> Req {
    Req::FetchConfig { url: api_address(m.ip, "config"@), token: m.token }
}

/// Storing the upload settings `c` on the server.
pub open spec fn save_config_req(m: ClientView, c: AppConfig) -> Req {
    Req::SaveConfig { url: api_address(m.ip, "config"@), token: m.token, config: c }
}

impl View for NasClientApp {
    type V = ClientView;

    closed spec fn view(&self) -> ClientView {
        ClientView {
            view: self.view,
            ip: self.ip_input@,
            password: self.password_input@,
            token: self.token@,
            path: self.current_path@,
            files: files_view(self.files@),
            new_folder: self.new_folder_name@,
            status: self.status_message@,
            loading: self.is_loading,
            moving: opt_text(self.moving_item),
            move_target: self.move_target_folder@,
            pending_delete: opt_text(self.item_pending_deletion),
            previews: cache_view(self.image_cache@),
            progress: self.upload_progress,
            theme: self.theme,
            selected: name_set(self.selected_files@),
            show_config: self.show_config_modal,
            config: self.active_config,
        }
    }
}

/// The state in which the client starts, showing the login screen with the
/// remembered address `ip` and the colours `theme`.
pub open spec fn initial_client(ip: Seq<char>, theme: Theme) -> ClientView {
    ClientView {
        view: ViewState::Login,
        ip,
        password: Seq::empty(),
        token: Seq::empty(),
        path: Seq::empty(),
        files: Seq::empty(),
        new_folder: Seq::empty(),
        status: Seq::empty(),
        loading: false,
        moving: None,
        move_target: Seq::empty(),
        pending_delete: None,
        previews: Map::empty(),
        progress: None,
        theme,
        selected: Set::empty(),
        show_config: false,
        config: None,
    }
}

proof fn cache_lookup(s: Seq<(String, ImageState)>, i: int)
    requires
        distinct_keys(s),
        0 <= i < s.len(),
    ensures
        cache_view(s).contains_key(s[i].0@),
        cache_view(s)[s[i].0@] == s[i].1,
{
    let k = s[i].0@;
    assert(cache_view(s).dom().contains(k));
    let j = choose|j: int| 0 <= j < s.len() && (#[trigger] s[j]).0@ == k;
    assert(0 <= j < s.len() && s[j].0@ == k);
    if j != i {
        if j < i {
            assert(s[j].0@ != s[i].0@);
        } else {
            assert(s[i].0@ != s[j].0@);
        }
    }
}

impl NasClientApp {
    /// The invariant of the state: no thumbnail is recorded twice and no file
    /// is ticked twice.
    pub closed spec fn wf(&self) -> bool {
        &&& distinct_keys(self.image_cache@)
        &&& distinct_names(self.selected_files@)
    }

    /// The client as it starts, showing the login screen with the remembered
    /// address `ip` and the colours `theme`.
    pub fn new(ip: String, theme: Theme) -> (app: NasClientApp)
        ensures
            app.wf(),
            app@ == initial_client(ip@, theme),
    {
        let app = NasClientApp {
            view: ViewState::Login,
            ip_input: ip,
            password_input: String::new(),
            token: String::new(),
            current_path: String::new(),
            files: Vec::new(),
            new_folder_name: String::new(),
            status_message: String::new(),
            is_loading: false,
            moving_item: None,
            move_target_folder: String::new(),
            item_pending_deletion: None,
            image_cache: Vec::new(),
            upload_progress: None,
            theme,
            selected_files: Vec::new(),
            show_config_modal: false,
            active_config: None,
        };
        assert(files_view(app.files@) =~= Seq::<FileView>::empty());
        assert(cache_view(app.image_cache@) =~= Map::<Seq<char>, ImageState>::empty());
        assert(name_set(app.selected_files@) =~= Set::<Seq<char>>::empty());
        app
    }
    /// The screen shown.
    pub fn view_state(&self) -> (v: ViewState)
        ensures
            v == self@.view,
    {
        self.view
    }

    /// The session token given at login; empty before it and after Log Out.
    pub fn token(&self) -> (t: &str)
        ensures
            t@ == self@.token,
    {
        self.token.as_str()
    }

    /// The entry whose delete button was clicked once and waits for a second
    /// click.
    pub fn pending_deletion(&self) -> (p: Option<&str>)
        ensures
            match p {
                Some(n) => self@.pending_delete == Some(n@),
                None => self@.pending_delete is None,
            },
    {
        match &self.item_pending_deletion {
            Some(n) => Some(n.as_str()),
            None => None,
        }
    }


    /// The thumbnail state recorded for `name`.
    pub fn image_state(&self, name: &str) -> (st: Option<ImageState>)
        requires
            self.wf(),
        ensures
            st == (if self@.previews.contains_key(name@) {
                Some(self@.previews[name@])
            } else {
                None
            }),
    {
        let mut i: usize = 0;
        while i < self.image_cache.len()
            invariant
                self.wf(),
                i <= self.image_cache.len(),
                forall|k: int| 0 <= k < i ==> (#[trigger] self.image_cache@[k]).0@ != name@,
            decreases self.image_cache.len() - i,
        {
            if same_text(self.image_cache[i].0.as_str(), name) {
                proof {
                    cache_lookup(self.image_cache@, i as int);
                }
                return Some(self.image_cache[i].1);
            }
            i = i + 1;
        }
        assert(!self@.previews.contains_key(name@));
        None
    }

    /// Records `st` as the thumbnail state of `name`.
    fn set_image_state(&mut self, name: String, st: ImageState)
        requires
            old(self).wf(),
        ensures
            final(self).wf(),
            final(self)@ == (ClientView {
                previews: old(self)@.previews.insert(name@, st),
                ..old(self)@
            }),
    {
        let ghost old_cache = self.image_cache@;
        let mut i: usize = 0;
        while i < self.image_cache.len()
            invariant
                *self == *old(self),
                self.image_cache@ == old_cache,
                distinct_keys(old_cache),
                distinct_names(self.selected_files@),
                i <= old_cache.len(),
                forall|k: int| 0 <= k < i ==> (#[trigger] old_cache[k]).0@ != name@,
            decreases old_cache.len() - i,
        {
            if same_text(self.image_cache[i].0.as_str(), name.as_str()) {
                let ghost found = i as int;
                self.image_cache.set(i, (name, st));
                proof {
                    let s = self.image_cache@;
                    assert forall|a: int, b: int| 0 <= a < b < s.len() implies (#[trigger] s[a]).0@
                        != (#[trigger] s[b]).0@ by {
                        assert(old_cache[a].0@ != old_cache[b].0@);
                    }
                    assert forall|k: Seq<char>| #[trigger]
                        cache_view(s).contains_key(k) == old(self)@.previews.insert(name@, st).contains_key(k) by {
                        if cache_view(old_cache).contains_key(k) {
                            let j = choose|j: int| 0 <= j < old_cache.len() && (#[trigger] old_cache[j]).0@ == k;
                            assert(s[j].0@ == k);
                        }
                        if cache_view(s).contains_key(k) {
                            let j = choose|j: int| 0 <= j < s.len() && (#[trigger] s[j]).0@ == k;
                            assert(old_cache[j].0@ == k);
                        }
                        if k == name@ {
                            assert(s[found].0@ == k);
                        }
                    }
                    assert forall|k: Seq<char>| #[trigger] cache_view(s).contains_key(k) implies
                        cache_view(s)[k] == old(self)@.previews.insert(name@, st)[k] by {
                        let j = choose|j: int| 0 <= j < s.len() && (#[trigger] s[j]).0@ == k;
                        cache_lookup(s, j);
                        if k != name@ {
                            assert(old_cache[j].0@ == k);
                            cache_lookup(old_cache, j);
                        }
                    }
                    assert(cache_view(s) =~= old(self)@.previews.insert(name@, st));
                }
                return;
            }
            i = i + 1;
        }
        self.image_cache.push((name, st));
        proof {
            let s = self.image_cache@;
            let n = old_cache.len() as int;
            assert forall|a: int, b: int| 0 <= a < b < s.len() implies (#[trigger] s[a]).0@
                != (#[trigger] s[b]).0@ by {
                if b < n {
                    assert(old_cache[a].0@ != old_cache[b].0@);
                } else {
                    assert(old_cache[a].0@ != name@);
                }
            }
            assert forall|k: Seq<char>| #[trigger]
                cache_view(s).contains_key(k) == old(self)@.previews.insert(name@, st).contains_key(k) by {
                if cache_view(old_cache).contains_key(k) {
                    let j = choose|j: int| 0 <= j < old_cache.len() && (#[trigger] old_cache[j]).0@ == k;
                    assert(s[j].0@ == k);
                }
                if cache_view(s).contains_key(k) {
                    let j = choose|j: int| 0 <= j < s.len() && (#[trigger] s[j]).0@ == k;
                    if j < n {
                        assert(old_cache[j].0@ == k);
                    }
                }
                if k == name@ {
                    assert(s[n].0@ == k);
                }
            }
            assert forall|k: Seq<char>| #[trigger] cache_view(s).contains_key(k) implies
                cache_view(s)[k] == old(self)@.previews.insert(name@, st)[k] by {
                let j = choose|j: int| 0 <= j < s.len() && (#[trigger] s[j]).0@ == k;
                cache_lookup(s, j);
                if k != name@ {
                    assert(j < n);
                    assert(old_cache[j].0@ == k);
                    cache_lookup(old_cache, j);
                }
            }
            assert(cache_view(s) =~= old(self)@.previews.insert(name@, st));
        }
    }

    /// Whether the file `name` is ticked for download.
    pub fn is_selected(&self, name: &str) -> (r: bool)
        ensures
            r == self@.selected.contains(name@),
    {
        let mut i: usize = 0;
        while i < self.selected_files.len()
            invariant
                i <= self.selected_files.len(),
                forall|k: int| 0 <= k < i ==> (#[trigger] self.selected_files@[k])@ != name@,
            decreases self.selected_files.len() - i,
        {
            if same_text(self.selected_files[i].as_str(), name) {
                assert(self.selected_files@[i as int]@ == name@);
                return true;
            }
            i = i + 1;
        }
        false
    }

    /// The number of files ticked for download.
    pub fn selected_count(&self) -> (n: usize)
        requires
            self.wf(),
        ensures
            n == self@.selected.len(),
    {
        proof {
            self.lemma_selected_len();
        }
        self.selected_files.len()
    }

    proof fn lemma_selected_len(&self)
        requires
            self.wf(),
        ensures
            self@.selected.len() == self.selected_files@.len(),
            self@.selected.finite(),
    {
        let s = self.selected_files@;
        let names = s.map_values(|x: String| x@);
        assert(names.no_duplicates()) by {
            assert forall|i: int, j: int| 0 <= i < names.len() && 0 <= j < names.len() && i != j
                implies names[i] != names[j] by {
                if i < j {
                    assert(s[i]@ != s[j]@);
                } else {
                    assert(s[j]@ != s[i]@);
                }
            }
        }
        names.unique_seq_to_set();
        assert(names.to_set() =~= name_set(s)) by {
            assert forall|k: Seq<char>| names.to_set().contains(k) implies name_set(s).contains(k) by {
                let i = choose|i: int| 0 <= i < names.len() && names[i] == k;
                assert(s[i]@ == k);
            }
            assert forall|k: Seq<char>| name_set(s).contains(k) implies names.to_set().contains(k) by {
                let i = choose|i: int| 0 <= i < s.len() && (#[trigger] s[i])@ == k;
                assert(names[i] == k);
            }
        }
    }

    /// Ticks (`selected`) or unticks the file `name` for download.
    pub fn set_selected(&mut self, name: String, selected: bool)
        requires
            old(self).wf(),
        ensures
            keeps_session(old(self)@, final(self)@, None),
            final(self).wf(),
            final(self)@ == (ClientView {
                selected: if selected {
                    old(self)@.selected.insert(name@)
                } else {
                    old(self)@.selected.remove(name@)
                },
                ..old(self)@
            }),
    {
        let ghost old_sel = self.selected_files@;
        if selected {
            if self.is_selected(name.as_str()) {
                assert(name_set(old_sel).insert(name@) =~= name_set(old_sel));
                return;
            }
            self.selected_files.push(name);
            proof {
                let s = self.selected_files@;
                let n = old_sel.len() as int;
                assert forall|a: int, b: int| 0 <= a < b < s.len() implies (#[trigger] s[a])@
                    != (#[trigger] s[b])@ by {
                    if b < n {
                        assert(old_sel[a]@ != old_sel[b]@);
                    } else {
                        assert(!name_set(old_sel).contains(s[a]@) || s[a]@ != s[b]@);
                        assert(name_set(old_sel).contains(old_sel[a]@));
                    }
                }
                assert forall|k: Seq<char>| name_set(s).contains(k) implies name_set(
                    old_sel,
                ).insert(name@).contains(k) by {
                    let i = choose|i: int| 0 <= i < s.len() && (#[trigger] s[i])@ == k;
                    if i < n {
                        assert(old_sel[i]@ == k);
                    }
                }
                assert forall|k: Seq<char>| name_set(old_sel).insert(name@).contains(k) implies name_set(
                    s,
                ).contains(k) by {
                    if k == name@ {
                        assert(s[n]@ == k);
                    } else {
                        let i = choose|i: int| 0 <= i < old_sel.len() && (#[trigger] old_sel[i])@ == k;
                        assert(s[i]@ == k);
                    }
                }
                assert(name_set(s) =~= name_set(old_sel).insert(name@));
            }
        } else {
            let mut kept: Vec<String> = Vec::new();
            let mut i: usize = 0;
            while i < self.selected_files.len()
                invariant
                    self.selected_files@ == old_sel,
                    distinct_names(old_sel),
                    i <= old_sel.len(),
                    distinct_names(kept@),
                    forall|j: int| 0 <= j < kept.len() ==> exists|t: int| 0 <= t < i && (#[trigger] kept@[j])@ == (#[trigger] old_sel[t])@,
                    forall|k: Seq<char>| name_set(kept@).contains(k) <==> (exists|t: int| 0 <= t < i && (#[trigger] old_sel[t])@ == k && k != name@),
                decreases old_sel.len() - i,
            {
                let item = self.selected_files[i].clone();
                if !same_text(item.as_str(), name.as_str()) {
                    let ghost before = kept@;
                    kept.push(item);
                    proof {
                        let s = kept@;
                        let n = before.len() as int;
                        assert forall|a: int, b: int| 0 <= a < b < s.len() implies (#[trigger] s[a])@
                            != (#[trigger] s[b])@ by {
                            if b < n {
                                assert(before[a]@ != before[b]@);
                            } else {
                                let t = choose|t: int| 0 <= t < i && (#[trigger] before[a])@ == (#[trigger] old_sel[t])@;
                                assert(old_sel[t]@ != old_sel[i as int]@);
                            }
                        }
                        assert forall|j: int| 0 <= j < s.len() implies exists|t: int| 0 <= t < i + 1 && (#[trigger] s[j])@ == (#[trigger] old_sel[t])@ by {
                            if j < n {
                                let t = choose|t: int| 0 <= t < i && (#[trigger] before[j])@ == (#[trigger] old_sel[t])@;
                                assert(s[j]@ == old_sel[t]@);
                            } else {
                                assert(s[j]@ == old_sel[i as int]@);
                            }
                        }
                        assert forall|k: Seq<char>| name_set(s).contains(k) <==> (exists|t: int| 0 <= t < i + 1 && (#[trigger] old_sel[t])@ == k && k != name@) by {
                            if name_set(s).contains(k) {
                                let j = choose|j: int| 0 <= j < s.len() && (#[trigger] s[j])@ == k;
                                if j < n {
                                    assert(name_set(before).contains(k));
                                    let t = choose|t: int| 0 <= t < i && (#[trigger] old_sel[t])@ == k && k != name@;
                                    assert(0 <= t < i + 1 && old_sel[t]@ == k && k != name@);
                                } else {
                                    assert(old_sel[i as int]@ == k && k != name@);
                                }
                            }
                            if exists|t: int| 0 <= t < i + 1 && (#[trigger] old_sel[t])@ == k && k != name@ {
                                let t = choose|t: int| 0 <= t < i + 1 && (#[trigger] old_sel[t])@ == k && k != name@;
                                if t < i {
                                    assert(name_set(before).contains(k));
                                    let j = choose|j: int| 0 <= j < before.len() && (#[trigger] before[j])@ == k;
                                    assert(s[j]@ == k);
                                } else {
                                    assert(s[n]@ == k);
                                }
                            }
                        }
                    }
                } else {
                    proof {
                        assert forall|k: Seq<char>| name_set(kept@).contains(k) <==> (exists|t: int| 0 <= t < i + 1 && (#[trigger] old_sel[t])@ == k && k != name@) by {
                            if exists|t: int| 0 <= t < i + 1 && (#[trigger] old_sel[t])@ == k && k != name@ {
                                let t = choose|t: int| 0 <= t < i + 1 && (#[trigger] old_sel[t])@ == k && k != name@;
                                if t == i {
                                    assert(false);
                                }
                                assert(exists|t: int| 0 <= t < i && (#[trigger] old_sel[t])@ == k && k != name@);
                            }
                        }
                        assert forall|j: int| 0 <= j < kept.len() implies exists|t: int| 0 <= t < i + 1 && (#[trigger] kept@[j])@ == (#[trigger] old_sel[t])@ by {
                            let t = choose|t: int| 0 <= t < i && (#[trigger] kept@[j])@ == (#[trigger] old_sel[t])@;
                            assert(0 <= t < i + 1);
                        }
                    }
                }
                i = i + 1;
            }
            self.selected_files = kept;
            proof {
                assert forall|k: Seq<char>| name_set(self.selected_files@).contains(k) == name_set(old_sel).remove(name@).contains(k) by {
                    if name_set(old_sel).remove(name@).contains(k) {
                        let t = choose|t: int| 0 <= t < old_sel.len() && (#[trigger] old_sel[t])@ == k;
                        assert(0 <= t < old_sel.len() && old_sel[t]@ == k && k != name@);
                    }
                }
                assert(name_set(self.selected_files@) =~= name_set(old_sel).remove(name@));
            }
        }
    }

    /// Unticks every file.
    pub fn clear_selection(&mut self)
        requires
            old(self).wf(),
        ensures
            keeps_session(old(self)@, final(self)@, None),
            final(self).wf(),
            final(self)@ == (ClientView { selected: Set::empty(), ..old(self)@ }),
    {
        self.selected_files = Vec::new();
        assert(name_set(self.selected_files@) =~= Set::<Seq<char>>::empty());
    }

    /// The address of the API endpoint `endpoint` on the server typed in.
    fn endpoint(&self, endpoint: &str) -> (url: String)
        ensures
            url@ == api_address(self.ip_input@, endpoint@),
    {
        api_url(self.ip_input.as_str(), endpoint)
    }

    /// Asks for the entries of the folder shown.
    pub fn refresh_files(&mut self) -> (r: Request)
        requires
            old(self).wf(),
        ensures
            keeps_session(old(self)@, final(self)@, Some(r@)),
            final(self).wf(),
            final(self)@ == (ClientView { loading: true, ..old(self)@ }),
            r@ == listing_req(old(self)@),
    {
        self.is_loading = true;
        let mut tail = String::from_str("files?path=");
        tail.append(self.current_path.as_str());
        let url = self.endpoint(tail.as_str());
        Request::ListFiles { url, token: self.token.clone() }
    }

    /// Takes a message from background work. Every message ends the wait for a
    /// request; a login opens the dashboard and a finished action shows its
    /// text, both asking again for the folder shown; a failure shows its text
    /// and hides the upload progress; a folder listing replaces the entries; a
    /// thumbnail outcome is recorded; upload progress is shown; settings from
    /// the server open the settings window, and a confirmed save closes it.
    pub fn handle_message(&mut self, msg: AppMsg) -> (r: Option<Request>)
        requires
            old(self).wf(),
        ensures
            final(self).wf(),
            final(self)@ == on_message(old(self)@, msg@).0,
            opt_req(r) == on_message(old(self)@, msg@).1,
    {
        self.is_loading = false;
        match msg {
            AppMsg::LoginSuccess(token) => {
                self.token = token;
                self.view = ViewState::Dashboard;
                self.status_message = String::from_str("Logged in!");
                Some(self.refresh_files())
            },
            AppMsg::LoginFailed(err) => {
                self.status_message = err;
                None
            },
            AppMsg::FilesLoaded(list) => {
                self.files = list;
                None
            },
            AppMsg::ActionSuccess(text) => {
                self.status_message = text;
                self.is_loading = false;
                self.upload_progress = None;
                Some(self.refresh_files())
            },
            AppMsg::Error(err) => {
                self.status_message = err;
                self.is_loading = false;
                self.upload_progress = None;
                None
            },
            AppMsg::ImageLoaded(name, _w, _h, _px) => {
                self.set_image_state(name, ImageState::Loaded);
                None
            },
            AppMsg::ImageFailed(name) => {
                self.set_image_state(name, ImageState::Failed);
                None
            },
            AppMsg::UploadProgress(done, total) => {
                self.upload_progress = Some((done, total));
                None
            },
            AppMsg::ConfigLoaded(config) => {
                self.is_loading = false;
                self.active_config = Some(config);
                self.show_config_modal = true;
                self.status_message = String::from_str("\u{2705} Config received! Opening modal...");
                None
            },
            AppMsg::ConfigSaved => {
                self.is_loading = false;
                self.show_config_modal = false;
                self.status_message = String::from_str("Server configuration updated successfully!");
                None
            },
        }
    }

    /// The login button or the Enter key: unless a request is under way,
    /// starts logging in at the typed address without surrounding whitespace,
    /// and has that address remembered.
    pub fn connect(&mut self) -> (r: Option<Request>)
        requires
            old(self).wf(),
        ensures
            keeps_session(old(self)@, final(self)@, opt_req(r)),
            final(self).wf(),
            old(self)@.loading ==> final(self)@ == old(self)@ && r is None,
            !old(self)@.loading ==> final(self)@ == (ClientView { loading: true, ..old(self)@ })
                && opt_req(r) == Some(login_req(old(self)@)),
    {
        if self.is_loading {
            return None;
        }
        self.is_loading = true;
        let ip = trim(self.ip_input.as_str());
        let address_file = address_file(ip.as_str());
        let url = api_url(ip.as_str(), "auth");
        Some(Request::Login { url, password: self.password_input.clone(), address_file })
    }

    /// Logs out: forgets the session token and shows the login screen.
    pub fn logout(&mut self)
        requires
            old(self).wf(),
        ensures
            final(self).wf(),
            final(self)@ == (ClientView {
                token: Seq::empty(),
                view: ViewState::Login,
                ..old(self)@
            }),
    {
        self.token = String::new();
        self.view = ViewState::Login;
    }

    /// Asks the server for its upload settings.
    pub fn fetch_remote_config(&mut self) -> (r: Request)
        requires
            old(self).wf(),
        ensures
            keeps_session(old(self)@, final(self)@, Some(r@)),
            final(self).wf(),
            final(self)@ == (ClientView { loading: true, ..old(self)@ }),
            r@ == fetch_config_req(old(self)@),
    {
        self.is_loading = true;
        let url = self.endpoint("config");
        Request::FetchConfig { url, token: self.token.clone() }
    }

    /// Goes up to the folder that holds the folder shown, and lists it.
    pub fn go_back(&mut self) -> (r: Request)
        requires
            old(self).wf(),
        ensures
            keeps_session(old(self)@, final(self)@, Some(r@)),
            final(self).wf(),
            final(self)@ == (ClientView {
                path: parent_of(old(self)@.path),
                loading: true,
                ..old(self)@
            }),
            r@ == listing_req(ClientView { path: parent_of(old(self)@.path), ..old(self)@ }),
    {
        self.current_path = parent_path(self.current_path.as_str());
        self.refresh_files()
    }

    /// Goes into the folder `name` of the folder shown, and lists it.
    pub fn open_folder(&mut self, name: &str) -> (r: Request)
        requires
            old(self).wf(),
        ensures
            keeps_session(old(self)@, final(self)@, Some(r@)),
            final(self).wf(),
            final(self)@ == (ClientView {
                path: child_of(old(self)@.path, name@),
                loading: true,
                ..old(self)@
            }),
            r@ == listing_req(ClientView { path: child_of(old(self)@.path, name@), ..old(self)@ }),
    {
        self.current_path = child_path(self.current_path.as_str(), name);
        self.refresh_files()
    }

    /// How the folder shown is named on screen.
    pub fn location_label(&self) -> (s: String)
        ensures
            s@ == shown_path(self@.path),
    {
        show_path(self.current_path.as_str())
    }

    /// Starts uploading `count` chosen files into the folder shown: the
    /// progress starts at nothing sent.
    pub fn upload_files(&mut self, count: usize) -> (r: Request)
        requires
            old(self).wf(),
        ensures
            keeps_session(old(self)@, final(self)@, Some(r@)),
            final(self).wf(),
            final(self)@ == (ClientView {
                loading: true,
                progress: Some((0u64, 1u64)),
                status: "Uploading "@ + decimal(count as nat) + " file(s)..."@,
                ..old(self)@
            }),
            r@ == upload_req(old(self)@),
    {
        self.is_loading = true;
        self.upload_progress = Some((0, 1));
        let mut status = String::from_str("Uploading ");
        status.append(decimal_string(count as u64).as_str());
        status.append(" file(s)...");
        self.status_message = status;
        let url = self.endpoint("upload_chunk");
        Request::Upload { url, token: self.token.clone(), folder: self.current_path.clone() }
    }

    /// Creates the folder `name` in the folder shown, unless a folder there
    /// already has that name up to the case of ASCII letters; then it only
    /// says so.
    pub fn create_folder(&mut self, name: String) -> (r: Option<Request>)
        requires
            old(self).wf(),
        ensures
            keeps_session(old(self)@, final(self)@, opt_req(r)),
            final(self).wf(),
            folder_taken(old(self)@.files, name@) ==> final(self)@ == (ClientView {
                status: "Cannot create folder: '"@ + name@ + "' already exists \u{2606}\u{2606}\u{2606}"@,
                ..old(self)@
            }) && r is None,
            !folder_taken(old(self)@.files, name@) ==> final(self)@ == (ClientView {
                loading: true,
                ..old(self)@
            }) && opt_req(r) == Some(folder_req(old(self)@, name@)),
    {
        let mut i: usize = 0;
        while i < self.files.len()
            invariant
                *self == *old(self),
                old(self).wf(),
                i <= self.files.len(),
                forall|k: int| 0 <= k < i ==> !(#[trigger] self.files@[k]).is_dir
                    || !same_ignoring_ascii_case(self.files@[k].name@, name@),
            decreases self.files.len() - i,
        {
            if self.files[i].is_dir && eq_ignore_ascii_case(self.files[i].name.as_str(), name.as_str()) {
                let mut text = String::from_str("Cannot create folder: '");
                text.append(name.as_str());
                text.append("' already exists \u{2606}\u{2606}\u{2606}");
                self.status_message = text;
                assert(files_view(self.files@)[i as int] == self.files@[i as int]@);
                return None;
            }
            i = i + 1;
        }
        assert(!folder_taken(old(self)@.files, name@)) by {
            if folder_taken(old(self)@.files, name@) {
                let k = choose|k: int| 0 <= k < old(self)@.files.len() && (#[trigger] old(self)@.files[k]).is_dir
                    && same_ignoring_ascii_case(old(self)@.files[k].name, name@);
                assert(old(self)@.files[k] == self.files@[k]@);
            }
        }
        self.is_loading = true;
        let url = self.endpoint("folders");
        let path = child_path(self.current_path.as_str(), name.as_str());
        Some(Request::CreateFolder { url, token: self.token.clone(), path })
    }

    /// The create-folder button: with a name typed, creates that folder and
    /// clears the name; with none, does nothing.
    pub fn create_folder_clicked(&mut self) -> (r: Option<Request>)
        requires
            old(self).wf(),
        ensures
            keeps_session(old(self)@, final(self)@, opt_req(r)),
            final(self).wf(),
            old(self)@.new_folder.len() == 0 ==> final(self)@ == old(self)@ && r is None,
            old(self)@.new_folder.len() > 0 ==> {
                let name = old(self)@.new_folder;
                &&& folder_taken(old(self)@.files, name) ==> final(self)@ == (ClientView {
                    status: "Cannot create folder: '"@ + name + "' already exists \u{2606}\u{2606}\u{2606}"@,
                    new_folder: Seq::empty(),
                    ..old(self)@
                }) && r is None
                &&& !folder_taken(old(self)@.files, name) ==> final(self)@ == (ClientView {
                    loading: true,
                    new_folder: Seq::empty(),
                    ..old(self)@
                }) && opt_req(r) == Some(folder_req(old(self)@, name))
            },
    {
        if self.new_folder_name.unicode_len() == 0 {
            return None;
        }
        let name = self.new_folder_name.clone();
        let r = self.create_folder(name);
        self.new_folder_name = String::new();
        r
    }

    /// Downloads the file `name` of the folder shown.
    pub fn download_file(&mut self, name: &str) -> (r: Request)
        requires
            old(self).wf(),
        ensures
            keeps_session(old(self)@, final(self)@, Some(r@)),
            final(self).wf(),
            final(self)@ == (ClientView { loading: true, status: "Downloading..."@, ..old(self)@ }),
            r@ == download_req(old(self)@, name@),
    {
        self.is_loading = true;
        self.status_message = String::from_str("Downloading...");
        let url = self.download_url(name);
        Request::Download { url, token: self.token.clone() }
    }

    /// Where the file `name` of the folder shown is downloaded from.
    fn download_url(&self, name: &str) -> (url: String)
        ensures
            url@ == download_address(self@, name@),
    {
        let tail = crate::messages::joined(
            "download/",
            child_path(self.current_path.as_str(), name).as_str(),
        );
        self.endpoint(tail.as_str())
    }

    /// Downloads the files `names` of the folder shown, in that order.
    pub fn download_multiple_files(&mut self, names: Vec<String>) -> (r: Request)
        requires
            old(self).wf(),
        ensures
            keeps_session(old(self)@, final(self)@, Some(r@)),
            final(self).wf(),
            final(self)@ == (ClientView {
                loading: true,
                status: "Downloading "@ + decimal(names.len() as nat) + " files..."@,
                ..old(self)@
            }),
            r@ == batch_req(old(self)@, names@.map_values(|n: String| n@)),
    {
        self.is_loading = true;
        let mut status = String::from_str("Downloading ");
        status.append(decimal_string(names.len() as u64).as_str());
        status.append(" files...");
        self.status_message = status;
        let mut items: Vec<DownloadItem> = Vec::new();
        let mut i: usize = 0;
        while i < names.len()
            invariant
                i <= names.len(),
                items.len() == i,
                forall|k: int| 0 <= k < i ==> (#[trigger] items@[k]).url@ == download_address(self@, names@[k]@)
                    && items@[k].name@ == names@[k]@,
            decreases names.len() - i,
        {
            let url = self.download_url(names[i].as_str());
            items.push(DownloadItem { url, name: names[i].clone() });
            i = i + 1;
        }
        let r = Request::DownloadMany { token: self.token.clone(), items };
        proof {
            let m = ClientView { loading: false, status: old(self)@.status, ..self@ };
            assert(items@.map_values(|d: DownloadItem| (d.url@, d.name@)) =~= names@.map_values(|n: String| n@).map_values(
                |n: Seq<char>| (download_address(old(self)@, n), n),
            ));
        }
        r
    }

    /// The "download all" button: downloads every ticked file and unticks them.
    pub fn download_selected(&mut self) -> (r: Request)
        requires
            old(self).wf(),
        ensures
            keeps_session(old(self)@, final(self)@, Some(r@)),
            final(self).wf(),
            exists|names: Seq<Seq<char>>| {
                &&& names.to_set() == old(self)@.selected
                &&& names.no_duplicates()
                &&& final(self)@ == (ClientView {
                    loading: true,
                    status: "Downloading "@ + decimal(names.len()) + " files..."@,
                    selected: Set::empty(),
                    ..old(self)@
                })
                &&& r@ == batch_req(old(self)@, names)
            },
    {
        let names = self.selected_files.clone();
        proof {
            assert(names@ =~= self.selected_files@);
            self.lemma_selected_len();
        }
        let ghost listed = names@.map_values(|n: String| n@);
        let r = self.download_multiple_files(names);
        self.clear_selection();
        proof {
            let s = old(self).selected_files@;
            assert(listed.no_duplicates()) by {
                assert forall|i: int, j: int| 0 <= i < listed.len() && 0 <= j < listed.len() && i != j
                    implies listed[i] != listed[j] by {
                    if i < j {
                        assert(s[i]@ != s[j]@);
                    } else {
                        assert(s[j]@ != s[i]@);
                    }
                }
            }
            assert(listed.to_set() =~= old(self)@.selected) by {
                assert forall|k: Seq<char>| listed.to_set().contains(k) implies old(self)@.selected.contains(k) by {
                    let i = choose|i: int| 0 <= i < listed.len() && listed[i] == k;
                    assert(s[i]@ == k);
                }
                assert forall|k: Seq<char>| old(self)@.selected.contains(k) implies listed.to_set().contains(k) by {
                    let i = choose|i: int| 0 <= i < s.len() && (#[trigger] s[i])@ == k;
                    assert(listed[i] == k);
                }
            }
            assert(listed.len() == names@.len());
        }
        r
    }

    /// How many files are ticked, as shown above the file list.
    pub fn selection_label(&self) -> (s: String)
        requires
            self.wf(),
        ensures
            s@ == decimal(self@.selected.len()) + " files selected"@,
    {
        let mut s = decimal_string(self.selected_count() as u64);
        s.append(" files selected");
        s
    }

    /// Deletes the entry `name` of the folder shown; only a second click on
    /// its delete button gets here.
    fn delete_item(&mut self, name: &str) -> (r: Request)
        requires
            old(self).wf(),
        ensures
            final(self).wf(),
            final(self)@ == (ClientView { loading: true, ..old(self)@ }),
            r@ == delete_req(old(self)@, name@),
    {
        self.is_loading = true;
        let url = self.endpoint("delete");
        let path = child_path(self.current_path.as_str(), name);
        Request::Delete { url, token: self.token.clone(), path }
    }

    /// The delete button of the entry `name`. The first click only asks for
    /// confirmation; a second click on the same entry deletes it.
    pub fn delete_clicked(&mut self, name: &str) -> (r: Option<Request>)
        requires
            old(self).wf(),
        ensures
            final(self).wf(),
            final(self)@ == delete_click(old(self)@, name@).0,
            opt_req(r) == delete_click(old(self)@, name@).1,
    {
        let armed = match &self.item_pending_deletion {
            Some(pending) => same_text(pending.as_str(), name),
            None => false,
        };
        if armed {
            let r = self.delete_item(name);
            self.item_pending_deletion = None;
            self.status_message = String::new();
            Some(r)
        } else {
            self.item_pending_deletion = Some(String::from_str(name));
            let mut text = String::from_str("Delete '");
            text.append(name);
            text.append("'? Click \u{1f5d1} again to confirm.");
            self.status_message = text;
            None
        }
    }

    /// Opens the move dialog for the entry `name`.
    pub fn start_move(&mut self, name: String)
        requires
            old(self).wf(),
        ensures
            keeps_session(old(self)@, final(self)@, None),
            final(self).wf(),
            final(self)@ == (ClientView { moving: Some(name@), ..old(self)@ }),
    {
        self.moving_item = Some(name);
    }

    /// Closes the move dialog and forgets the destination chosen.
    pub fn cancel_move(&mut self)
        requires
            old(self).wf(),
        ensures
            keeps_session(old(self)@, final(self)@, None),
            final(self).wf(),
            final(self)@ == (ClientView { moving: None, move_target: Seq::empty(), ..old(self)@ }),
    {
        self.moving_item = None;
        self.move_target_folder = String::new();
    }

    /// Moves the entry at `source_path` into the folder `destination_folder`
    /// under its name `file_name`.
    pub fn move_item(&mut self, source_path: String, destination_folder: String, file_name: String) -> (r: Request)
        requires
            old(self).wf(),
        ensures
            keeps_session(old(self)@, final(self)@, Some(r@)),
            final(self).wf(),
            final(self)@ == (ClientView { loading: true, ..old(self)@ }),
            r@ == move_req(old(self)@, source_path@, destination_folder@, file_name@),
    {
        self.is_loading = true;
        let url = self.endpoint("move");
        let destination_path = child_path(destination_folder.as_str(), file_name.as_str());
        Request::Move { url, token: self.token.clone(), source_path, destination_path }
    }

    /// The "confirm move" button of the move dialog: moves the entry being
    /// moved from the folder shown into the destination chosen, then closes
    /// the dialog. Without an entry being moved it does nothing.
    pub fn confirm_move(&mut self) -> (r: Option<Request>)
        requires
            old(self).wf(),
        ensures
            keeps_session(old(self)@, final(self)@, opt_req(r)),
            final(self).wf(),
            match old(self)@.moving {
                None => final(self)@ == old(self)@ && r is None,
                Some(item) => final(self)@ == (ClientView {
                    loading: true,
                    moving: None,
                    move_target: Seq::empty(),
                    ..old(self)@
                }) && opt_req(r) == Some(
                    move_req(old(self)@, child_of(old(self)@.path, item), old(self)@.move_target, item),
                ),
            },
    {
        let item = match &self.moving_item {
            Some(name) => name.clone(),
            None => {
                return None;
            },
        };
        let source = child_path(self.current_path.as_str(), item.as_str());
        let target = self.move_target_folder.clone();
        let r = self.move_item(source, target, item);
        self.moving_item = None;
        self.move_target_folder = String::new();
        Some(r)
    }

    /// The destinations offered for moving the entry `item`: the root, the
    /// folder holding the folder shown (unless the root is shown), and every
    /// folder in the folder shown other than `item` itself, each with the
    /// label shown for it.
    pub fn move_choices(&self, item: &str) -> (res: Vec<MoveChoice>)
        ensures
            res@.map_values(|c: MoveChoice| (c.target@, c.label@)) == move_options(self@, item@),
    {
        let mut res: Vec<MoveChoice> = Vec::new();
        res.push(MoveChoice { target: String::new(), label: String::from_str("Root (/)") });
        if self.current_path.unicode_len() > 0 {
            let parent = parent_path(self.current_path.as_str());
            let mut label = String::from_str("\u{2b06} Parent (");
            let place = place_label(parent.as_str());
            label.append(place.as_str());
            label.append(")");
            res.push(MoveChoice { target: parent, label });
        }
        let ghost lead = res@.map_values(|c: MoveChoice| (c.target@, c.label@));
        let mut i: usize = 0;
        assert(self.files@.subrange(0, 0).map_values(|f: FileInfo| f@) =~= Seq::<FileView>::empty());
        while i < self.files.len()
            invariant
                i <= self.files.len(),
                res@.map_values(|c: MoveChoice| (c.target@, c.label@)) == lead + folder_options(
                    files_view(self.files@.subrange(0, i as int)),
                    self@.path,
                    item@,
                ),
            decreases self.files.len() - i,
        {
            let ghost before = res@.map_values(|c: MoveChoice| (c.target@, c.label@));
            let ghost fs = files_view(self.files@.subrange(0, i + 1));
            proof {
                assert(fs.drop_last() =~= files_view(self.files@.subrange(0, i as int)));
                assert(fs.last() == self.files@[i as int]@);
            }
            let f = &self.files[i];
            if f.is_dir && !same_text(f.name.as_str(), item) {
                let target = child_path(self.current_path.as_str(), f.name.as_str());
                let label = crate::messages::joined("\u{1f4c1} /", target.as_str());
                let ghost entry = (target@, label@);
                res.push(MoveChoice { target, label });
                proof {
                    assert(res@.map_values(|c: MoveChoice| (c.target@, c.label@)) =~= before.push(entry));
                    assert(folder_options(fs, self@.path, item@) == folder_options(fs.drop_last(), self@.path, item@).push(entry));
                    assert(res@.map_values(|c: MoveChoice| (c.target@, c.label@)) =~= lead + folder_options(fs, self@.path, item@));
                }
            } else {
                proof {
                    assert(folder_options(fs, self@.path, item@) == folder_options(fs.drop_last(), self@.path, item@));
                }
            }
            i = i + 1;
        }
        assert(self.files@.subrange(0, self.files.len() as int) =~= self.files@);
        res
    }

    /// The destination chosen in the move dialog, as shown.
    pub fn move_target_label(&self) -> (s: String)
        ensures
            s@ == place(self@.move_target),
    {
        place_label(self.move_target_folder.as_str())
    }

    /// The thumbnail shown beside the file `name`, and the request that
    /// fetches it when it was never asked for. Files that are no pictures get
    /// the plain file icon.
    pub fn file_icon(&mut self, name: &str) -> (res: (FileIcon, Option<Request>))
        requires
            old(self).wf(),
        ensures
            keeps_session(old(self)@, final(self)@, opt_req(res.1)),
            final(self).wf(),
            final(self)@ == icon_step(old(self)@, name@).0,
            res.0 == icon_step(old(self)@, name@).1,
            opt_req(res.1) == icon_step(old(self)@, name@).2,
    {
        if !is_image_name(name) {
            return (FileIcon::Plain, None);
        }
        match self.image_state(name) {
            Some(ImageState::Loaded) => (FileIcon::Thumbnail, None),
            Some(ImageState::Loading) => (FileIcon::Spinner, None),
            Some(ImageState::Failed) => (FileIcon::Broken, None),
            None => {
                let r = self.fetch_preview(String::from_str(name));
                (FileIcon::Spinner, Some(r))
            },
        }
    }

    /// Fetches the thumbnail of the file `name`, recording that it is on its
    /// way so that it is asked for only once.
    pub fn fetch_preview(&mut self, name: String) -> (r: Request)
        requires
            old(self).wf(),
        ensures
            keeps_session(old(self)@, final(self)@, Some(r@)),
            final(self).wf(),
            final(self)@ == (ClientView {
                previews: old(self)@.previews.insert(name@, ImageState::Loading),
                ..old(self)@
            }),
            r@ == preview_req(old(self)@, name@),
    {
        let mut tail = crate::messages::joined(
            "download/",
            child_path(self.current_path.as_str(), name.as_str()).as_str(),
        );
        tail.append("?preview=true");
        let url = self.endpoint(tail.as_str());
        let r = Request::Preview { url, token: self.token.clone(), name: name.clone() };
        self.set_image_state(name, ImageState::Loading);
        r
    }

    /// The "save" button of the settings window: sends the settings shown to
    /// the server. With no settings shown it does nothing.
    pub fn save_config_clicked(&mut self) -> (r: Option<Request>)
        requires
            old(self).wf(),
        ensures
            keeps_session(old(self)@, final(self)@, opt_req(r)),
            final(self).wf(),
            match old(self)@.config {
                None => final(self)@ == old(self)@ && r is None,
                Some(c) => final(self)@ == (ClientView { loading: true, ..old(self)@ }) && opt_req(r)
                    == Some(save_config_req(old(self)@, c)),
            },
    {
        match self.active_config {
            Some(c) => Some(self.save_remote_config(c)),
            None => None,
        }
    }

    /// Sends the upload settings `config` to the server.
    pub fn save_remote_config(&mut self, config: AppConfig) -> (r: Request)
        requires
            old(self).wf(),
        ensures
            keeps_session(old(self)@, final(self)@, Some(r@)),
            final(self).wf(),
            final(self)@ == (ClientView { loading: true, ..old(self)@ }),
            r@ == save_config_req(old(self)@, config),
    {
        self.is_loading = true;
        let url = self.endpoint("config");
        Request::SaveConfig { url, token: self.token.clone(), config }
    }

    /// Closes the settings window.
    pub fn close_config(&mut self)
        requires
            old(self).wf(),
        ensures
            keeps_session(old(self)@, final(self)@, None),
            final(self).wf(),
            final(self)@ == (ClientView { show_config: false, ..old(self)@ }),
    {
        self.show_config_modal = false;
    }
}

/// What a message from background work does. Every message ends the wait
/// for a request; a login opens the dashboard and a finished action shows its
/// text, both asking again for the folder shown; a failure shows its text and
/// hides the upload progress; a folder listing replaces the entries; a
/// thumbnail outcome is recorded; upload progress is shown; settings from the
/// server open the settings window, and a confirmed save closes it.
pub open spec fn on_message(m: ClientView, msg: Msg) -> (ClientView, Option<Req>) {
    let m0 = ClientView { loading: false, ..m };
    match msg {
        Msg::LoginSuccess(t) => {
            let m1 = ClientView { token: t, view: ViewState::Dashboard, status: "Logged in!"@, ..m0 };
            (ClientView { loading: true, ..m1 }, Some(listing_req(m1)))
        },
        Msg::LoginFailed(e) => (ClientView { status: e, ..m0 }, None),
        Msg::FilesLoaded(f) => (ClientView { files: f, ..m0 }, None),
        Msg::ActionSuccess(t) => {
            let m1 = ClientView { status: t, progress: None, ..m0 };
            (ClientView { loading: true, ..m1 }, Some(listing_req(m1)))
        },
        Msg::Error(e) => (ClientView { status: e, progress: None, ..m0 }, None),
        Msg::UploadProgress(done, total) => (
            ClientView { progress: Some((done, total)), ..m0 },
            None,
        ),
        Msg::ImageLoaded(name, _w, _h, _px) => (
            ClientView { previews: m0.previews.insert(name, ImageState::Loaded), ..m0 },
            None,
        ),
        Msg::ImageFailed(name) => (
            ClientView { previews: m0.previews.insert(name, ImageState::Failed), ..m0 },
            None,
        ),
        Msg::ConfigLoaded(c) => (
            ClientView {
                config: Some(c),
                show_config: true,
                status: "\u{2705} Config received! Opening modal..."@,
                ..m0
            },
            None,
        ),
        Msg::ConfigSaved => (
            ClientView {
                show_config: false,
                status: "Server configuration updated successfully!"@,
                ..m0
            },
            None,
        ),
    }
}

/// After a message the client waits for the server exactly when the message
/// led to a new request.
pub proof fn waiting_iff_requested(m: ClientView, msg: Msg)
    ensures
        on_message(m, msg).0.loading <==> on_message(m, msg).1 is Some,
{
}

/// What one click on the delete button of the entry `name` does: when that
/// entry was clicked last, it is deleted and the question is cleared;
/// otherwise the entry is remembered and the client asks for confirmation.
pub open spec fn delete_click(m: ClientView, name: Seq<char>) -> (ClientView, Option<Req>) {
    if m.pending_delete == Some(name) {
        (
            ClientView { loading: true, pending_delete: None, status: Seq::empty(), ..m },
            Some(delete_req(m, name)),
        )
    } else {
        (
            ClientView {
                pending_delete: Some(name),
                status: "Delete '"@ + name + "'? Click \u{1f5d1} again to confirm."@,
                ..m
            },
            None,
        )
    }
}

/// A destination offered in the move dialog: the folder and its label.
#[derive(Debug)]
pub struct MoveChoice {
    pub target: String,
    pub label: String,
}

/// How a destination folder is named in the move dialog.
pub open spec fn place(path: Seq<char>) -> Seq<char> {
    if path.len() == 0 {
        "Root (/)"@
    } else {
        shown_path(path)
    }
}

/// How a destination folder is named in the move dialog.
pub fn place_label(path: &str) -> (s: String)
    ensures
        s@ == place(path@),
{
    if path.unicode_len() == 0 {
        String::from_str("Root (/)")
    } else {
        show_path(path)
    }
}

/// The folders among `files` (in the folder `path`) other than `item`, as
/// destinations with their labels.
pub open spec fn folder_options(files: Seq<FileView>, path: Seq<char>, item: Seq<char>) -> Seq<
    (Seq<char>, Seq<char>),
>
    decreases files.len(),
{
    if files.len() == 0 {
        Seq::empty()
    } else {
        let rest = folder_options(files.drop_last(), path, item);
        let f = files.last();
        if f.is_dir && f.name != item {
            rest.push((child_of(path, f.name), "\u{1f4c1} /"@ + child_of(path, f.name)))
        } else {
            rest
        }
    }
}

/// The destinations offered for moving `item` while the folder of `m` is shown.
pub open spec fn move_options(m: ClientView, item: Seq<char>) -> Seq<(Seq<char>, Seq<char>)> {
    let root = seq![(Seq::<char>::empty(), "Root (/)"@)];
    let up = if m.path.len() > 0 {
        seq![(parent_of(m.path), "\u{2b06} Parent ("@ + place(parent_of(m.path)) + ")"@)]
    } else {
        Seq::empty()
    };
    root + up + folder_options(m.files, m.path, item)
}

/// What showing the file `name` in the list does: files that are no
/// pictures get the plain icon; a picture whose thumbnail was asked for shows
/// it, a spinner or the broken icon; a picture never asked for gets a spinner,
/// is recorded as on its way, and its thumbnail is fetched.
pub open spec fn icon_step(m: ClientView, name: Seq<char>) -> (ClientView, FileIcon, Option<Req>) {
    if !is_picture(name) {
        (m, FileIcon::Plain, None)
    } else if m.previews.contains_key(name) {
        (
            m,
            match m.previews[name] {
                ImageState::Loaded => FileIcon::Thumbnail,
                ImageState::Loading => FileIcon::Spinner,
                ImageState::Failed => FileIcon::Broken,
            },
            None,
        )
    } else {
        (
            ClientView { previews: m.previews.insert(name, ImageState::Loading), ..m },
            FileIcon::Spinner,
            Some(preview_req(m, name)),
        )
    }
}

/// A thumbnail is fetched at most once: showing a file again right after it
/// was shown sends no second request and changes nothing.
pub proof fn thumbnail_fetched_once(m: ClientView, name: Seq<char>)
    ensures
        icon_step(icon_step(m, name).0, name).2 is None,
        icon_step(icon_step(m, name).0, name).0 == icon_step(m, name).0,
{
}

/// The icon shown beside a file.
#[derive(Clone, Copy, Debug, PartialEq, Eq, Structural)]
pub enum FileIcon {
    /// The file's thumbnail.
    Thumbnail,
    /// A spinner while the thumbnail is fetched.
    Spinner,
    /// The file icon, as the thumbnail could not be made.
    Broken,
    /// The file icon, for files that are no pictures.
    Plain,
}

/// Whether a folder among `files` has the name `name`, up to the case of
/// ASCII letters.
pub open spec fn folder_taken(files: Seq<FileView>, name: Seq<char>) -> bool {
    exists|k: int| 0 <= k < files.len() && (#[trigger] files[k]).is_dir && same_ignoring_ascii_case(
        files[k].name,
        name,
    )
}


/// Deleting takes two clicks: a first click on an entry that was not clicked
/// last sends nothing, and a second click on it deletes exactly that entry.
pub proof fn delete_needs_two_clicks(m: ClientView, name: Seq<char>)
    requires
        m.pending_delete != Some(name),
    ensures
        delete_click(m, name).1 is None,
        delete_click(delete_click(m, name).0, name).1 == Some(delete_req(m, name)),
        delete_click(delete_click(m, name).0, name).0.pending_delete is None,
{
}

/// The move dialog never offers an entry as its own destination: no folder
/// option is the entry being moved.
pub proof fn move_options_exclude_item(files: Seq<FileView>, path: Seq<char>, item: Seq<char>, i: int)
    requires
        0 <= i < folder_options(files, path, item).len(),
    ensures
        folder_options(files, path, item)[i].0 != child_of(path, item),
    decreases files.len(),
{
    let rest = folder_options(files.drop_last(), path, item);
    let f = files.last();
    if f.is_dir && f.name != item && i == rest.len() {
        let a = child_of(path, f.name);
        let b = child_of(path, item);
        if a == b {
            if path.len() == 0 {
                assert(f.name == item);
            } else {
                let n = path.len() + 1;
                assert(a.subrange(n as int, a.len() as int) =~= f.name);
                assert(b.subrange(n as int, b.len() as int) =~= item);
            }
        }
    } else {
        move_options_exclude_item(files.drop_last(), path, item, i);
    }
}

/// What happens to the client in one step of a session: a click on the
/// delete button of the entry `name`, a message from background work, a click
/// on Log Out, or any other action.
pub enum UiEvent {
    DeleteClick(Seq<char>),
    Message(Msg),
    LogOut,
    Other,
}

/// What every action other than a delete click, a message and Log Out keeps:
/// the screen, the session token and the entry waiting for a second delete
/// click; and it sends no delete request.
pub open spec fn keeps_session(m: ClientView, m2: ClientView, r: Option<Req>) -> bool {
    &&& m2.view == m.view
    &&& m2.token == m.token
    &&& m2.pending_delete == m.pending_delete
    &&& !(r matches Some(Req::Delete { .. }))
}

/// The client after Log Out.
pub open spec fn logged_out(m: ClientView) -> ClientView {
    ClientView { token: Seq::empty(), view: ViewState::Login, ..m }
}

/// Whether the client goes from `m` to `m2`, sending `r`, on the event `e`,
/// as the methods of `NasClientApp` state it.
pub open spec fn session_step(m: ClientView, e: UiEvent, m2: ClientView, r: Option<Req>) -> bool {
    match e {
        UiEvent::DeleteClick(name) => (m2, r) == delete_click(m, name),
        UiEvent::Message(msg) => (m2, r) == on_message(m, msg),
        UiEvent::LogOut => m2 == logged_out(m) && r is None,
        UiEvent::Other => keeps_session(m, m2, r),
    }
}

/// Whether `states`, `events` and `sent` are a session of the client: it
/// starts as `NasClientApp::new` leaves it, and event `i` takes state `i` to
/// state `i + 1` and sends `sent[i]`.
pub open spec fn is_session(states: Seq<ClientView>, events: Seq<UiEvent>, sent: Seq<Option<Req>>) -> bool {
    &&& states.len() == events.len() + 1
    &&& sent.len() == events.len()
    &&& states[0] == initial_client(states[0].ip, states[0].theme)
    &&& forall|i: int| 0 <= i < events.len() ==> #[trigger] session_step(states[i], events[i], states[i + 1], sent[i])
}

/// Whether, before event `i`, the delete button of `name` was clicked at some
/// event `p` that sent nothing, with no delete click since.
pub open spec fn armed_before(events: Seq<UiEvent>, sent: Seq<Option<Req>>, i: int, name: Seq<char>) -> bool {
    exists|p: int|
        0 <= p < i && #[trigger] events[p] == UiEvent::DeleteClick(name) && sent[p] is None && forall|q: int|
            p < q < i ==> !(#[trigger] events[q] is DeleteClick)
}

/// The entry waiting for a second delete click was clicked last, by a click
/// that sent nothing.
proof fn pending_was_clicked(states: Seq<ClientView>, events: Seq<UiEvent>, sent: Seq<Option<Req>>, i: int)
    requires
        is_session(states, events, sent),
        0 <= i <= events.len(),
    ensures
        states[i].pending_delete matches Some(name) ==> armed_before(events, sent, i, name),
    decreases i,
{
    if i > 0 {
        let j = i - 1;
        pending_was_clicked(states, events, sent, j);
        assert(session_step(states[j], events[j], states[j + 1], sent[j]));
        match states[i].pending_delete {
            Some(name) => {
                if events[j] == UiEvent::DeleteClick(name) && sent[j] is None {
                    assert(armed_before(events, sent, i, name));
                } else {
                    match events[j] {
                        UiEvent::DeleteClick(other) => {
                            assert(states[i].pending_delete == Some(other) ==> sent[j] is None);
                        },
                        UiEvent::Message(msg) => {},
                        _ => {},
                    }
                    assert(states[j].pending_delete == Some(name));
                    let p = choose|p: int|
                        0 <= p < j && #[trigger] events[p] == UiEvent::DeleteClick(name) && sent[p] is None
                            && forall|q: int| p < q < j ==> !(#[trigger] events[q] is DeleteClick);
                    assert forall|q: int| p < q < i implies !(#[trigger] events[q] is DeleteClick) by {
                        if q == j {
                            assert(!(events[j] is DeleteClick));
                        }
                    }
                }
            },
            None => {},
        }
    }
}

/// In every session, one click never deletes: a delete request goes out
/// only on a click on the delete button of the entry it deletes, when the
/// delete click before it was on the same entry and sent nothing.
pub proof fn deleting_takes_a_confirming_click(
    states: Seq<ClientView>,
    events: Seq<UiEvent>,
    sent: Seq<Option<Req>>,
    i: int,
)
    requires
        is_session(states, events, sent),
        0 <= i < events.len(),
        sent[i] matches Some(Req::Delete { .. }),
    ensures
        exists|name: Seq<char>|
            #[trigger] events[i] == UiEvent::DeleteClick(name) && sent[i] == Some(delete_req(states[i], name))
                && armed_before(events, sent, i, name),
{
    assert(session_step(states[i], events[i], states[i + 1], sent[i]));
    pending_was_clicked(states, events, sent, i);
    match events[i] {
        UiEvent::DeleteClick(name) => {
            assert(states[i].pending_delete == Some(name));
            assert(events[i] == UiEvent::DeleteClick(name));
        },
        UiEvent::Message(msg) => {
            assert(false);
        },
        _ => {},
    }
}

/// In every session the screen and the token change only when a login
/// succeeds, which shows the dashboard with the token that it brought, or on
/// Log Out, which shows the login screen and forgets the token.
pub proof fn screen_changes_only_on_login_or_logout(
    states: Seq<ClientView>,
    events: Seq<UiEvent>,
    sent: Seq<Option<Req>>,
    i: int,
)
    requires
        is_session(states, events, sent),
        0 <= i < events.len(),
        states[i + 1].view != states[i].view || states[i + 1].token != states[i].token,
    ensures
        (exists|t: Seq<char>|
            #[trigger] events[i] == UiEvent::Message(Msg::LoginSuccess(t)) && states[i + 1].view == ViewState::Dashboard
                && states[i + 1].token == t)
        || (events[i] == UiEvent::LogOut && states[i + 1].view == ViewState::Login && states[i + 1].token == Seq::<char>::empty()),
{
    assert(session_step(states[i], events[i], states[i + 1], sent[i]));
    match events[i] {
        UiEvent::Message(msg) => {
            match msg {
                Msg::LoginSuccess(t) => {
                    assert(events[i] == UiEvent::Message(Msg::LoginSuccess(t)));
                },
                _ => {},
            }
        },
        _ => {},
    }
}

/// In every session the dashboard shows only after a successful login with
/// no Log Out since, and holds the token of the last such login; the login
/// screen holds no token.
pub proof fn dashboard_only_after_login(
    states: Seq<ClientView>,
    events: Seq<UiEvent>,
    sent: Seq<Option<Req>>,
    i: int,
)
    requires
        is_session(states, events, sent),
        0 <= i <= events.len(),
    ensures
        states[i].view == ViewState::Login ==> states[i].token == Seq::<char>::empty(),
        states[i].view == ViewState::Dashboard ==> exists|p: int|
            0 <= p < i && #[trigger] events[p] == UiEvent::Message(Msg::LoginSuccess(states[i].token))
                && forall|q: int| p < q < i ==> #[trigger] events[q] != UiEvent::LogOut,
    decreases i,
{
    if i > 0 {
        let j = i - 1;
        dashboard_only_after_login(states, events, sent, j);
        assert(session_step(states[j], events[j], states[j + 1], sent[j]));
        if states[i].view == ViewState::Dashboard {
            match events[j] {
                UiEvent::Message(Msg::LoginSuccess(t)) => {
                    assert(events[j] == UiEvent::Message(Msg::LoginSuccess(states[i].token)));
                },
                _ => {
                    assert(states[j].view == ViewState::Dashboard);
                    assert(states[j].token == states[i].token);
                    let p = choose|p: int|
                        0 <= p < j && #[trigger] events[p] == UiEvent::Message(Msg::LoginSuccess(states[j].token))
                            && forall|q: int| p < q < j ==> #[trigger] events[q] != UiEvent::LogOut;
                    assert forall|q: int| p < q < i implies #[trigger] events[q] != UiEvent::LogOut by {
                        if q == j {
                            assert(events[j] != UiEvent::LogOut);
                        }
                    }
                },
            }
        }
    }
}


/// A folder listing replaces the entries shown, whatever was shown before;
/// no other message changes them.
pub proof fn listing_replaces_entries(m: ClientView, msg: Msg)
    ensures
        match msg {
            Msg::FilesLoaded(f) => on_message(m, msg).0.files == f,
            _ => on_message(m, msg).0.files == m.files,
        },
{
}

/// Downloading one file fetches the entry `name` inside the folder shown,
/// with the session token, at the same address that a batch download of that
/// entry uses.
pub proof fn single_download_fetches_entry_in_folder(m: ClientView, name: Seq<char>)
    ensures
        download_req(m, name) == (Req::Download {
            url: api_address(m.ip, "download/"@ + child_of(m.path, name)),
            token: m.token,
        }),
        batch_req(m, seq![name]) == (Req::DownloadMany {
            token: m.token,
            items: seq![(api_address(m.ip, "download/"@ + child_of(m.path, name)), name)],
        }),
{
    assert(seq![name].map_values(|n: Seq<char>| (download_address(m, n), n)) =~= seq![
        (api_address(m.ip, "download/"@ + child_of(m.path, name)), name),
    ]);
}

/// A new folder is refused when any entry shown, the last one included, is a
/// folder whose name equals the new name ignoring ASCII case.
pub proof fn clashing_folder_is_refused(files: Seq<FileView>, name: Seq<char>, k: int)
    requires
        0 <= k < files.len(),
        files[k].is_dir,
        files[k].name.len() == name.len(),
        forall|i: int| 0 <= i < name.len() ==> #[trigger] ascii_fold(files[k].name[i]) == ascii_fold(name[i]),
    ensures
        folder_taken(files, name),
{
    assert(same_ignoring_ascii_case(files[k].name, name));
}

/// A new folder is refused only when some entry shown is a folder whose name
/// equals the new name ignoring ASCII case.
pub proof fn refused_folder_clashes(files: Seq<FileView>, name: Seq<char>)
    requires
        folder_taken(files, name),
    ensures
        exists|k: int|
            0 <= k < files.len() && (#[trigger] files[k]).is_dir && files[k].name.len() == name.len()
                && forall|i: int| 0 <= i < name.len() ==> #[trigger] ascii_fold(files[k].name[i]) == ascii_fold(name[i]),
{
}

} // verus!
