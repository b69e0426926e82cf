use solnas_client::client::{
    place_label, FileIcon, ImageState, NasClientApp, Request, ViewState,
};
use solnas_client::messages::{AppConfig, AppMsg, FileInfo};
use solnas_client::theme::default_theme;

fn app() -> NasClientApp {
    let mut a = NasClientApp::new("192.168.1.9".to_string(), default_theme());
    a.handle_message(AppMsg::LoginSuccess("tok".to_string()));
    a.is_loading = false;
    a.status_message = String::new();
    a
}

fn entry(name: &str, is_dir: bool) -> FileInfo {
    FileInfo { name: name.to_string(), size: 10, is_dir }
}

fn listing_url(r: &Request) -> String {
    match r {
        Request::ListFiles { url, token } => {
            assert_eq!(token, "tok");
            url.clone()
        }
        other => panic!("unexpected {:?}", other),
    }
}

#[test]
fn starts_on_login_screen() {
    let a = NasClientApp::new("nas".to_string(), default_theme());
    assert_eq!(a.view_state(), ViewState::Login);
    assert_eq!(a.ip_input, "nas");
    assert!(a.token().is_empty() && a.current_path.is_empty() && a.files.is_empty());
    assert!(a.pending_deletion().is_none());
    assert!(!a.is_loading && a.upload_progress.is_none() && a.active_config.is_none());
    assert_eq!(a.selected_count(), 0);
}

#[test]
fn connect_trims_the_address() {
    let mut a = NasClientApp::new("  10.0.0.4 ".to_string(), default_theme());
    a.password_input = "secret".to_string();
    match a.connect() {
        Some(Request::Login { url, password, address_file }) => {
            assert_eq!(url, "https://10.0.0.4:8080/api/auth");
            assert_eq!(password, "secret");
            assert_eq!(address_file, "NAS_IP=10.0.0.4\n");
        }
        other => panic!("unexpected {:?}", other),
    }
    assert!(a.is_loading);
    assert!(a.connect().is_none());
}

#[test]
fn login_success_opens_dashboard_and_lists() {
    let mut a = NasClientApp::new("nas".to_string(), default_theme());
    a.is_loading = true;
    let r = a.handle_message(AppMsg::LoginSuccess("abc".to_string())).unwrap();
    assert_eq!(a.view_state(), ViewState::Dashboard);
    assert_eq!(a.token(), "abc");
    assert_eq!(a.status_message, "Logged in!");
    assert!(a.is_loading);
    match r {
        Request::ListFiles { url, token } => {
            assert_eq!(url, "https://nas:8080/api/files?path=");
            assert_eq!(token, "abc");
        }
        other => panic!("unexpected {:?}", other),
    }
}

#[test]
fn messages_update_the_state() {
    let mut a = app();
    a.is_loading = true;
    assert!(a.handle_message(AppMsg::LoginFailed("Invalid password".to_string())).is_none());
    assert_eq!(a.status_message, "Invalid password");
    assert!(!a.is_loading);
    a.handle_message(AppMsg::FilesLoaded(vec![entry("x", true)]));
    assert_eq!(a.files.len(), 1);
    a.handle_message(AppMsg::UploadProgress(1, 4));
    assert_eq!(a.upload_progress, Some((1, 4)));
    a.handle_message(AppMsg::Error("boom".to_string()));
    assert_eq!(a.status_message, "boom");
    assert_eq!(a.upload_progress, None);
    a.upload_progress = Some((2, 4));
    let r = a.handle_message(AppMsg::ActionSuccess("Upload complete!".to_string())).unwrap();
    assert_eq!(listing_url(&r), "https://192.168.1.9:8080/api/files?path=");
    assert_eq!(a.upload_progress, None);
    assert!(a.is_loading);
    let cfg = AppConfig { max_upload_size: 1024, upload_speed_bps: 0 };
    a.handle_message(AppMsg::ConfigLoaded(cfg));
    assert!(a.show_config_modal);
    assert_eq!(a.active_config, Some(cfg));
    assert_eq!(a.status_message, "\u{2705} Config received! Opening modal...");
    a.handle_message(AppMsg::ConfigSaved);
    assert!(!a.show_config_modal);
    assert_eq!(a.status_message, "Server configuration updated successfully!");
}

#[test]
fn thumbnails_are_fetched_once() {
    let mut a = app();
    a.current_path = "pics".to_string();
    let (icon, r) = a.file_icon("cat.JPG");
    assert_eq!(icon, FileIcon::Spinner);
    match r {
        Some(Request::Preview { url, token, name }) => {
            assert_eq!(url, "https://192.168.1.9:8080/api/download/pics/cat.JPG?preview=true");
            assert_eq!(token, "tok");
            assert_eq!(name, "cat.JPG");
        }
        other => panic!("unexpected {:?}", other),
    }
    assert_eq!(a.image_state("cat.JPG"), Some(ImageState::Loading));
    let (icon, r) = a.file_icon("cat.JPG");
    assert_eq!(icon, FileIcon::Spinner);
    assert!(r.is_none());
    a.handle_message(AppMsg::ImageLoaded("cat.JPG".to_string(), 1, 1, vec![0, 0, 0, 0]));
    assert_eq!(a.file_icon("cat.JPG").0, FileIcon::Thumbnail);
    a.handle_message(AppMsg::ImageFailed("dog.png".to_string()));
    assert_eq!(a.file_icon("dog.png").0, FileIcon::Broken);
    let (icon, r) = a.file_icon("notes.txt");
    assert_eq!(icon, FileIcon::Plain);
    assert!(r.is_none());
    assert_eq!(a.image_state("notes.txt"), None);
}

#[test]
fn folders_open_and_close() {
    let mut a = app();
    let r = a.open_folder("music");
    assert_eq!(a.current_path, "music");
    assert_eq!(listing_url(&r), "https://192.168.1.9:8080/api/files?path=music");
    a.open_folder("rock");
    assert_eq!(a.current_path, "music/rock");
    assert_eq!(a.location_label(), "/music/rock");
    let r = a.go_back();
    assert_eq!(a.current_path, "music");
    assert_eq!(listing_url(&r), "https://192.168.1.9:8080/api/files?path=music");
    a.go_back();
    assert_eq!(a.current_path, "");
    assert_eq!(a.location_label(), "/");
}

#[test]
fn folder_names_must_be_new() {
    let mut a = app();
    a.files = vec![entry("Photos", true), entry("notes", false)];
    a.new_folder_name = "photos".to_string();
    assert!(a.create_folder_clicked().is_none());
    assert_eq!(a.status_message, "Cannot create folder: 'photos' already exists \u{2606}\u{2606}\u{2606}");
    assert!(a.new_folder_name.is_empty());
    assert!(!a.is_loading);
    a.current_path = "home".to_string();
    a.new_folder_name = "notes".to_string();
    match a.create_folder_clicked() {
        Some(Request::CreateFolder { url, path, .. }) => {
            assert_eq!(url, "https://192.168.1.9:8080/api/folders");
            assert_eq!(path, "home/notes");
        }
        other => panic!("unexpected {:?}", other),
    }
    assert!(a.is_loading);
    a.is_loading = false;
    assert!(a.create_folder_clicked().is_none());
    assert!(!a.is_loading);
}

#[test]
fn delete_asks_for_confirmation() {
    let mut a = app();
    a.current_path = "docs".to_string();
    assert!(a.delete_clicked("a.txt").is_none());
    assert_eq!(a.status_message, "Delete 'a.txt'? Click \u{1f5d1} again to confirm.");
    assert!(a.delete_clicked("b.txt").is_none());
    assert_eq!(a.pending_deletion(), Some("b.txt"));
    match a.delete_clicked("b.txt") {
        Some(Request::Delete { url, path, .. }) => {
            assert_eq!(url, "https://192.168.1.9:8080/api/delete");
            assert_eq!(path, "docs/b.txt");
        }
        other => panic!("unexpected {:?}", other),
    }
    assert!(a.pending_deletion().is_none());
    assert!(a.status_message.is_empty());
    assert!(a.is_loading);
}

#[test]
fn selection_and_batch_download() {
    let mut a = app();
    a.set_selected("a".to_string(), true);
    a.set_selected("b".to_string(), true);
    a.set_selected("a".to_string(), true);
    assert_eq!(a.selected_count(), 2);
    assert_eq!(a.selection_label(), "2 files selected");
    a.set_selected("a".to_string(), false);
    assert!(!a.is_selected("a"));
    assert!(a.is_selected("b"));
    a.set_selected("c".to_string(), true);
    a.current_path = "d".to_string();
    match a.download_selected() {
        Request::DownloadMany { token, items } => {
            assert_eq!(token, "tok");
            let mut got: Vec<(String, String)> = items.into_iter().map(|i| (i.url, i.name)).collect();
            got.sort();
            assert_eq!(
                got,
                vec![
                    ("https://192.168.1.9:8080/api/download/d/b".to_string(), "b".to_string()),
                    ("https://192.168.1.9:8080/api/download/d/c".to_string(), "c".to_string()),
                ]
            );
        }
        other => panic!("unexpected {:?}", other),
    }
    assert_eq!(a.status_message, "Downloading 2 files...");
    assert_eq!(a.selected_count(), 0);
    a.set_selected("z".to_string(), true);
    a.clear_selection();
    assert_eq!(a.selected_count(), 0);
}

#[test]
fn single_download_and_upload() {
    let mut a = app();
    match a.download_file("x.pdf") {
        Request::Download { url, token } => {
            assert_eq!(url, "https://192.168.1.9:8080/api/download/x.pdf");
            assert_eq!(token, "tok");
        }
        other => panic!("unexpected {:?}", other),
    }
    assert_eq!(a.status_message, "Downloading...");
    a.current_path = "up".to_string();
    match a.upload_files(3) {
        Request::Upload { url, folder, .. } => {
            assert_eq!(url, "https://192.168.1.9:8080/api/upload_chunk");
            assert_eq!(folder, "up");
        }
        other => panic!("unexpected {:?}", other),
    }
    assert_eq!(a.status_message, "Uploading 3 file(s)...");
    assert_eq!(a.upload_progress, Some((0, 1)));
}

#[test]
fn move_dialog() {
    let mut a = app();
    a.current_path = "a/b".to_string();
    a.files = vec![entry("x", true), entry("y", true), entry("f.txt", false)];
    let choices: Vec<(String, String)> =
        a.move_choices("x").into_iter().map(|c| (c.target, c.label)).collect();
    assert_eq!(
        choices,
        vec![
            ("".to_string(), "Root (/)".to_string()),
            ("a".to_string(), "\u{2b06} Parent (/a)".to_string()),
            ("a/b/y".to_string(), "\u{1f4c1} /a/b/y".to_string()),
        ]
    );
    a.current_path = "top".to_string();
    let choices = a.move_choices("f.txt");
    assert_eq!(choices[1].label, "\u{2b06} Parent (Root (/))");
    assert_eq!(choices.len(), 4);
    assert_eq!(a.move_target_label(), "Root (/)");
    assert_eq!(place_label("a/b"), "/a/b");
    assert!(a.confirm_move().is_none());
    a.start_move("f.txt".to_string());
    a.move_target_folder = "top/y".to_string();
    assert_eq!(a.move_target_label(), "/top/y");
    match a.confirm_move() {
        Some(Request::Move { url, source_path, destination_path, .. }) => {
            assert_eq!(url, "https://192.168.1.9:8080/api/move");
            assert_eq!(source_path, "top/f.txt");
            assert_eq!(destination_path, "top/y/f.txt");
        }
        other => panic!("unexpected {:?}", other),
    }
    assert!(a.moving_item.is_none());
    assert!(a.move_target_folder.is_empty());
    a.start_move("x".to_string());
    a.move_target_folder = "q".to_string();
    a.cancel_move();
    assert!(a.moving_item.is_none() && a.move_target_folder.is_empty());
    match a.move_item("x".to_string(), String::new(), "x".to_string()) {
        Request::Move { destination_path, .. } => assert_eq!(destination_path, "x"),
        other => panic!("unexpected {:?}", other),
    }
}

#[test]
fn server_settings_and_logout() {
    let mut a = app();
    match a.fetch_remote_config() {
        Request::FetchConfig { url, .. } => assert_eq!(url, "https://192.168.1.9:8080/api/config"),
        other => panic!("unexpected {:?}", other),
    }
    assert!(a.save_config_clicked().is_none());
    let cfg = AppConfig { max_upload_size: 7, upload_speed_bps: 9 };
    a.handle_message(AppMsg::ConfigLoaded(cfg));
    match a.save_config_clicked() {
        Some(Request::SaveConfig { url, config, .. }) => {
            assert_eq!(url, "https://192.168.1.9:8080/api/config");
            assert_eq!(config, cfg);
        }
        other => panic!("unexpected {:?}", other),
    }
    assert!(a.is_loading);
    a.close_config();
    assert!(!a.show_config_modal);
    assert_eq!(a.view_state(), ViewState::Dashboard);
    a.logout();
    assert_eq!(a.view_state(), ViewState::Login);
    assert!(a.token().is_empty());
}

#[test]
fn one_delete_click_never_deletes() {
    let mut a = app();
    assert!(a.delete_clicked("a.txt").is_none());
    assert!(matches!(a.open_folder("docs"), Request::ListFiles { .. }));
    assert_eq!(a.pending_deletion(), Some("a.txt"));
    assert!(a.delete_clicked("b.txt").is_none());
    assert!(a.delete_clicked("a.txt").is_none());
    a.handle_message(AppMsg::Error("boom".to_string()));
    assert_eq!(a.pending_deletion(), Some("a.txt"));
    assert!(matches!(a.delete_clicked("a.txt"), Some(Request::Delete { .. })));
    assert!(a.delete_clicked("a.txt").is_none());
}

#[test]
fn screen_follows_login_and_logout() {
    let mut a = NasClientApp::new("nas".to_string(), default_theme());
    a.handle_message(AppMsg::LoginFailed("no".to_string()));
    assert_eq!(a.view_state(), ViewState::Login);
    a.handle_message(AppMsg::Error("x".to_string()));
    a.open_folder("docs");
    assert_eq!(a.view_state(), ViewState::Login);
    assert!(a.token().is_empty());
    a.handle_message(AppMsg::LoginSuccess("t1".to_string()));
    assert_eq!(a.view_state(), ViewState::Dashboard);
    assert_eq!(a.token(), "t1");
    a.go_back();
    a.handle_message(AppMsg::ActionSuccess("ok".to_string()));
    assert_eq!(a.view_state(), ViewState::Dashboard);
    a.logout();
    assert_eq!(a.view_state(), ViewState::Login);
    assert!(a.token().is_empty());
}
