use solnas_client::saved_address::{address_file, read_saved_address};
use solnas_client::text::trim;
use solnas_client::theme::{
    apply_style, apply_style_line, default_style_text, default_theme, parse_hex, slot_for_key,
    theme_from_style, Rgba, ThemeSlot,
};

fn rgb(r: u8, g: u8, b: u8) -> Rgba {
    Rgba { r, g, b, a: 255 }
}

#[test]
fn saved_address_is_read() {
    assert_eq!(read_saved_address("NAS_IP=192.168.1.5\n"), "192.168.1.5");
    assert_eq!(read_saved_address("NAS_IP=  10.0.0.2  \r\nother=1\n"), "10.0.0.2");
    assert_eq!(read_saved_address("# note\nNAS_IP=nas.local"), "nas.local");
    assert_eq!(read_saved_address("NAS_IP=first\nNAS_IP=second\n"), "first");
    assert_eq!(read_saved_address(" NAS_IP=indented\n"), "");
    assert_eq!(read_saved_address("nothing here\n"), "");
    assert_eq!(read_saved_address(""), "");
}

#[test]
fn saved_address_round_trip() {
    assert_eq!(address_file("192.168.1.5"), "NAS_IP=192.168.1.5\n");
    for ip in ["192.168.1.5", "  padded  ", "", "nas.local"] {
        let written = address_file(&trim(ip));
        assert_eq!(read_saved_address(&written), trim(ip));
    }
}

#[test]
fn hex_colours() {
    let fallback = rgb(1, 2, 3);
    assert_eq!(parse_hex("#ff0000", fallback), rgb(255, 0, 0));
    assert_eq!(parse_hex("  #00f ", fallback), rgb(0, 0, 255));
    assert_eq!(parse_hex("#25044A", fallback), rgb(0x25, 0x04, 0x4a));
    assert_eq!(parse_hex("#00ff00ff", fallback), rgb(0, 255, 0));
    assert_eq!(parse_hex("#0000", fallback), Rgba { r: 0, g: 0, b: 0, a: 0 });
    assert_eq!(parse_hex("ff0000", fallback), fallback);
    assert_eq!(parse_hex("#12345", fallback), fallback);
    assert_eq!(parse_hex("#zzzzzz", fallback), fallback);
    assert_eq!(parse_hex("", fallback), fallback);
}

#[test]
fn default_colours() {
    let t = default_theme();
    assert_eq!(t.background, rgb(0x25, 0x04, 0x44));
    assert_eq!(t.text_primary, rgb(0, 0, 0));
    assert_eq!(t.text_dashboard, rgb(255, 255, 255));
    assert_eq!(t.text_title, rgb(255, 255, 255));
    assert_eq!(t.download_btn, rgb(0x28, 0xa7, 0x92));
    assert_eq!(t.upload_btn, rgb(0xac, 0x5d, 0xdc));
    assert_eq!(t.delete_btn, rgb(0xdc, 0x35, 0x45));
    assert_eq!(t.move_btn, rgb(0xf0, 0x7d, 0x12));
    assert_eq!(t.connect_btn, rgb(0xfc, 0xba, 0x00));
    assert_eq!(t.path_btn, rgb(0x5d, 0xdc, 0xab));
    assert_eq!(t.folder_btn, rgb(0xac, 0x5d, 0xdc));
}

#[test]
fn style_keys() {
    assert_eq!(slot_for_key("background"), Some(ThemeSlot::Background));
    assert_eq!(slot_for_key("download_button"), Some(ThemeSlot::DownloadButton));
    assert_eq!(slot_for_key("path_button"), Some(ThemeSlot::PathButton));
    assert_eq!(slot_for_key("upload_btn"), Some(ThemeSlot::UploadButton));
    assert_eq!(slot_for_key("upload_button"), Some(ThemeSlot::UploadButton));
    assert_eq!(slot_for_key("folder_button"), Some(ThemeSlot::FolderButton));
    assert_eq!(slot_for_key("folder_btn"), None);
    assert_eq!(slot_for_key("download_btn"), None);
    assert_eq!(slot_for_key("delete_btn"), None);
    assert_eq!(slot_for_key("download_button"), Some(ThemeSlot::DownloadButton));
    assert_eq!(slot_for_key("delete_button"), Some(ThemeSlot::DeleteButton));
    assert_eq!(slot_for_key("move_btn"), Some(ThemeSlot::MoveButton));
    assert_eq!(slot_for_key("logout_btn"), Some(ThemeSlot::LogoutButton));
    assert_eq!(slot_for_key("connect_btn"), Some(ThemeSlot::ConnectButton));
    assert_eq!(slot_for_key("open_btn"), Some(ThemeSlot::OpenButton));
    assert_eq!(slot_for_key("refresh_btn"), Some(ThemeSlot::RefreshButton));
    assert_eq!(slot_for_key("path_btn"), Some(ThemeSlot::PathButton));
    assert_eq!(slot_for_key("Background"), None);
    assert_eq!(slot_for_key("folder"), None);
}

#[test]
fn every_line_of_the_default_file_can_be_edited() {
    let defaults = default_theme();
    let text = default_style_text();
    let edited = text.replace("folder_button = #ac5ddc", "folder_button = #000000");
    let t = theme_from_style(Some(&edited));
    assert_eq!(t.folder_btn, rgb(0, 0, 0));
    assert_eq!(t.background, defaults.background);
    assert_eq!(t.upload_btn, defaults.upload_btn);
    let edited = text.replace("upload_btn = #ac5ddc", "upload_btn = #102030");
    let t = theme_from_style(Some(&edited));
    assert_eq!(t.upload_btn, rgb(0x10, 0x20, 0x30));
    assert_eq!(t.folder_btn, defaults.folder_btn);
    let edited = text.replace("connect_btn = #fcba00", "connect_btn = #abc");
    assert_eq!(theme_from_style(Some(&edited)).connect_btn, rgb(0xaa, 0xbb, 0xcc));
    let edited = text.replace("path_btn = #5ddcab", "path_btn = not a colour");
    assert_eq!(theme_from_style(Some(&edited)), defaults);
    let edited = text.replace("text_title =     #FFFFFF", "text_title = #010101");
    assert_eq!(theme_from_style(Some(&edited)).text_title, rgb(1, 1, 1));
}

#[test]
fn style_lines() {
    let t = default_theme();
    let black = apply_style_line(t, "BACKGROUND = #000000");
    assert_eq!(black.background, rgb(0, 0, 0));
    assert_eq!(black.text_primary, t.text_primary);
    assert_eq!(apply_style_line(t, "  # background = #000000"), t);
    assert_eq!(apply_style_line(t, "[background = #000000]"), t);
    assert_eq!(apply_style_line(t, "background = not a colour"), t);
    assert_eq!(apply_style_line(t, "background = #000000 = x"), t);
    assert_eq!(apply_style_line(t, "unknown = #000000"), t);
    assert_eq!(apply_style_line(t, "background #000000"), t);
    let moved = apply_style_line(t, "Move_Button=#123");
    assert_eq!(moved.move_btn, rgb(0x11, 0x22, 0x33));
}

#[test]
fn style_files() {
    let t = default_theme();
    assert_eq!(apply_style(t, &default_style_text()), t);
    assert_eq!(theme_from_style(None), t);
    assert_eq!(theme_from_style(Some(&default_style_text())), t);
    let custom = theme_from_style(Some("[Colors]\r\nText_Title = #abcdef\r\nlogout_button = #010203\n"));
    assert_eq!(custom.text_title, rgb(0xab, 0xcd, 0xef));
    assert_eq!(custom.logout_btn, rgb(1, 2, 3));
    assert_eq!(custom.background, t.background);
    assert_eq!(theme_from_style(Some("")), t);
}

#[test]
fn default_style_file_text() {
    let text = default_style_text();
    assert!(text.starts_with("[Colors]\nBackground = #250444\n"));
    assert!(text.ends_with("path_btn = #5ddcab\nfolder_button = #ac5ddc"));
    assert_eq!(text.lines().count(), 15);
}
