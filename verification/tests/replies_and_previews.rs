use solnas_client::messages::{
    batch_download_done, config_outcome, config_saved_outcome, delete_outcome, download_outcome,
    folder_outcome, listing_outcome, login_outcome, move_outcome, AppConfig, AppMsg, ConfigReply,
    FileInfo,
};
use solnas_client::preview::{is_image_name, preview_outcome};

fn text_of(m: &AppMsg) -> String {
    match m {
        AppMsg::Error(t) | AppMsg::ActionSuccess(t) | AppMsg::LoginFailed(t) | AppMsg::LoginSuccess(t) => {
            t.clone()
        }
        _ => panic!("no text in {:?}", m),
    }
}

#[test]
fn login_outcomes() {
    let m = login_outcome(false, false, None).unwrap();
    assert!(matches!(m, AppMsg::LoginFailed(_)));
    assert_eq!(text_of(&m), "Network error ( Is the server running? )");
    let m = login_outcome(true, false, None).unwrap();
    assert!(matches!(&m, AppMsg::LoginFailed(t) if t == "Invalid password"));
    let m = login_outcome(true, true, Some(Some("tok".to_string()))).unwrap();
    assert!(matches!(&m, AppMsg::LoginSuccess(t) if t == "tok"));
    let m = login_outcome(true, true, Some(None)).unwrap();
    assert!(matches!(&m, AppMsg::LoginSuccess(t) if t.is_empty()));
    assert!(login_outcome(true, true, None).is_none());
}

#[test]
fn listing_and_download_outcomes() {
    let m = listing_outcome(false, None).unwrap();
    assert!(matches!(&m, AppMsg::Error(t) if t == "Failed to fetch files"));
    let files = vec![FileInfo { name: "a".to_string(), size: 3, is_dir: false }];
    let m = listing_outcome(true, Some(files)).unwrap();
    assert!(matches!(&m, AppMsg::FilesLoaded(f) if f.len() == 1 && f[0].name == "a" && f[0].size == 3));
    assert!(listing_outcome(true, None).is_none());
    assert!(matches!(download_outcome(false, false), Some(AppMsg::Error(t)) if t == "Download failed"));
    assert!(matches!(download_outcome(true, true), Some(AppMsg::ActionSuccess(t)) if t == "Download complete!"));
    assert!(download_outcome(true, false).is_none());
    assert!(matches!(batch_download_done(), AppMsg::ActionSuccess(t) if t == "Batch download complete!"));
}

#[test]
fn folder_move_and_delete_outcomes() {
    assert!(matches!(folder_outcome(true), Some(AppMsg::ActionSuccess(t)) if t == "Folder created"));
    assert!(folder_outcome(false).is_none());
    assert!(matches!(delete_outcome(true), Some(AppMsg::ActionSuccess(t)) if t == "Deleted successfully"));
    assert!(delete_outcome(false).is_none());
    assert!(matches!(move_outcome(Ok(true)), AppMsg::ActionSuccess(t) if t == "Item moved successfully!"));
    assert!(matches!(move_outcome(Ok(false)), AppMsg::Error(t) if t == "Failed to move item."));
    assert!(matches!(move_outcome(Err("timed out".to_string())), AppMsg::Error(t) if t == "Network error: timed out"));
}

#[test]
fn config_outcomes() {
    let m = config_outcome(ConfigReply::Unreachable("refused".to_string()));
    assert_eq!(text_of(&m), "Network Error: refused");
    let m = config_outcome(ConfigReply::Unreadable("eof".to_string()));
    assert_eq!(text_of(&m), "Failed to read server response: eof");
    let m = config_outcome(ConfigReply::Answered {
        status: "401 Unauthorized".to_string(),
        success: false,
        body: "no".to_string(),
        parsed: Err("unused".to_string()),
    });
    assert_eq!(text_of(&m), "Server Error 401 Unauthorized: no");
    let cfg = AppConfig { max_upload_size: 5, upload_speed_bps: 0 };
    let m = config_outcome(ConfigReply::Answered {
        status: "200 OK".to_string(),
        success: true,
        body: "{}".to_string(),
        parsed: Ok(cfg),
    });
    assert!(matches!(m, AppMsg::ConfigLoaded(c) if c == cfg));
    let m = config_outcome(ConfigReply::Answered {
        status: "200 OK".to_string(),
        success: true,
        body: "[]".to_string(),
        parsed: Err("bad".to_string()),
    });
    assert_eq!(text_of(&m), "JSON Error: bad. Raw data: []");
    assert!(matches!(config_saved_outcome(true), AppMsg::ConfigSaved));
    assert!(matches!(config_saved_outcome(false), AppMsg::Error(t) if t == "Failed to save server configuration."));
}

#[test]
fn picture_names() {
    assert!(is_image_name("holiday.PNG"));
    assert!(is_image_name("a.jpg"));
    assert!(is_image_name("b.JpEg"));
    assert!(!is_image_name("c.gif"));
    assert!(!is_image_name("png"));
    assert!(!is_image_name("report.pdf"));
    assert!(is_image_name("ÄRGER.PNG"));
}

const TINY_PNG: [u8; 71] = [
    137, 80, 78, 71, 13, 10, 26, 10, 0, 0, 0, 13, 73, 72, 68, 82, 0, 0, 0, 2, 0, 0, 0, 1, 8, 6,
    0, 0, 0, 244, 34, 127, 138, 0, 0, 0, 14, 73, 68, 65, 84, 120, 156, 99, 248, 207, 192, 0, 66,
    13, 0, 15, 122, 3, 126, 119, 233, 127, 151, 0, 0, 0, 0, 73, 69, 78, 68, 174, 66, 96, 130,
];

#[test]
fn preview_outcomes() {
    let m = preview_outcome("a.png".to_string(), Some(TINY_PNG.to_vec()));
    match m {
        AppMsg::ImageLoaded(name, w, h, px) => {
            assert_eq!(name, "a.png");
            assert_eq!((w, h), (2, 1));
            assert_eq!(px.len() as u32, 4 * w * h);
            assert_eq!(px, vec![255, 0, 0, 255, 0, 0, 255, 128]);
        }
        other => panic!("unexpected {:?}", other),
    }
    let m = preview_outcome("b.png".to_string(), Some(vec![1, 2, 3]));
    assert!(matches!(m, AppMsg::ImageFailed(n) if n == "b.png"));
    let m = preview_outcome("c.png".to_string(), None);
    assert!(matches!(m, AppMsg::ImageFailed(n) if n == "c.png"));
}
