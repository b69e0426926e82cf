use solnas_client::messages::AppMsg;
use solnas_client::upload::{
    chunk_at, chunk_count, Chunk, UploadAction, UploadInput, UploadStage, Uploader, CHUNK_SIZE,
};

#[test]
fn chunk_counts() {
    assert_eq!(CHUNK_SIZE, 104857600);
    assert_eq!(chunk_count(0), 1);
    assert_eq!(chunk_count(1), 1);
    assert_eq!(chunk_count(CHUNK_SIZE), 1);
    assert_eq!(chunk_count(CHUNK_SIZE + 1), 2);
    assert_eq!(chunk_count(3 * CHUNK_SIZE), 3);
    assert_eq!(chunk_count(u64::MAX), (u64::MAX - 1) / CHUNK_SIZE + 1);
}

#[test]
fn chunks_of_a_file() {
    let size = 2 * CHUNK_SIZE + 10;
    assert_eq!(chunk_at(size, 0), Chunk { index: 0, offset: 0, len: CHUNK_SIZE });
    assert_eq!(chunk_at(size, 1), Chunk { index: 1, offset: CHUNK_SIZE, len: CHUNK_SIZE });
    assert_eq!(chunk_at(size, 2), Chunk { index: 2, offset: 2 * CHUNK_SIZE, len: 10 });
    assert_eq!(chunk_at(0, 0), Chunk { index: 0, offset: 0, len: 0 });
    let total: u64 = (0..chunk_count(size)).map(|i| chunk_at(size, i).len).sum();
    assert_eq!(total, size);
}

fn texts(msgs: &[AppMsg]) -> Vec<String> {
    msgs.iter()
        .map(|m| match m {
            AppMsg::Error(t) => format!("error: {}", t),
            AppMsg::ActionSuccess(t) => format!("ok: {}", t),
            AppMsg::UploadProgress(d, n) => format!("progress {}/{}", d, n),
            other => format!("{:?}", other),
        })
        .collect()
}

#[test]
fn upload_of_nothing_completes() {
    let (up, msgs, action) = Uploader::new("docs", &Vec::new());
    assert_eq!(texts(&msgs), vec!["ok: Upload complete!"]);
    assert!(matches!(action, UploadAction::Finish));
    assert_eq!(up.stage(), UploadStage::Done);
}

#[test]
fn upload_sends_every_chunk() {
    let names = vec!["a.bin".to_string()];
    let (mut up, msgs, action) = Uploader::new("docs", &names);
    assert!(msgs.is_empty());
    assert!(matches!(action, UploadAction::Open(0)));
    let (msgs, action) = up.step(UploadInput::Opened(CHUNK_SIZE + 5));
    assert!(msgs.is_empty());
    assert!(matches!(action, UploadAction::Read(0, n) if n == CHUNK_SIZE));
    let (_, action) = up.step(UploadInput::ChunkRead);
    match action {
        UploadAction::Send(form) => {
            assert_eq!(form.filename, "docs/a.bin");
            assert_eq!(form.chunk_index, "0");
            assert_eq!(form.total_chunks, "2");
            assert_eq!(form.offset, "0");
        }
        other => panic!("unexpected {:?}", other),
    }
    let (msgs, action) = up.step(UploadInput::Sent);
    assert_eq!(texts(&msgs), vec!["progress 1/2"]);
    assert!(matches!(action, UploadAction::Read(o, 5) if o == CHUNK_SIZE));
    let (_, action) = up.step(UploadInput::ChunkRead);
    assert!(matches!(&action, UploadAction::Send(f) if f.chunk_index == "1" && f.offset == "104857600"));
    let (msgs, action) = up.step(UploadInput::Sent);
    assert_eq!(texts(&msgs), vec!["progress 2/2", "ok: Upload complete!"]);
    assert!(matches!(action, UploadAction::Finish));
}

#[test]
fn upload_gives_up_after_three_attempts() {
    let names = vec!["big.iso".to_string()];
    let (mut up, _, _) = Uploader::new("", &names);
    up.step(UploadInput::Opened(1));
    let (_, action) = up.step(UploadInput::ChunkRead);
    assert!(matches!(action, UploadAction::Send(_)));
    for _ in 0..2 {
        let (msgs, action) = up.step(UploadInput::SendFailed);
        assert!(msgs.is_empty());
        assert!(matches!(action, UploadAction::Pause));
        let (msgs, action) = up.step(UploadInput::Resumed);
        assert!(msgs.is_empty());
        assert!(matches!(action, UploadAction::Send(_)));
    }
    let (_, action) = up.step(UploadInput::SendFailed);
    assert!(matches!(action, UploadAction::Pause));
    let (msgs, action) = up.step(UploadInput::Resumed);
    assert_eq!(texts(&msgs), vec!["error: Upload failed after 3 retries: big.iso"]);
    assert!(matches!(action, UploadAction::Finish));
    assert_eq!(up.stage(), UploadStage::Done);
}

#[test]
fn upload_skips_unreadable_files() {
    let names = vec!["a".to_string(), "b".to_string()];
    let (mut up, _, _) = Uploader::new("x", &names);
    let (msgs, action) = up.step(UploadInput::OpenFailed("denied".to_string()));
    assert_eq!(texts(&msgs), vec!["error: Could not read local file: denied"]);
    assert!(matches!(action, UploadAction::Open(1)));
    up.step(UploadInput::Opened(0));
    let (msgs, action) = up.step(UploadInput::ReadFailed("eof".to_string()));
    assert_eq!(
        texts(&msgs),
        vec!["error: Failed to read local chunk: eof", "ok: Upload complete!"]
    );
    assert!(matches!(action, UploadAction::Finish));
}

#[test]
fn upload_stops_on_unexpected_input() {
    let names = vec!["a".to_string()];
    let (mut up, _, _) = Uploader::new("", &names);
    let (msgs, action) = up.step(UploadInput::Sent);
    assert!(msgs.is_empty());
    assert!(matches!(action, UploadAction::Finish));
    assert_eq!(up.stage(), UploadStage::Done);
}
