//! The colour theme of the client and the style file that customises it.
//!
//! The style file holds lines `key = #rrggbb`; a line for a known key sets
//! that colour, everything else is ignored.

use vstd::prelude::*;
use crate::saved_address::trimmed_twice;
use crate::text::{
    all_ascii, chars_before, chars_before_bounds, chars_of, find_char, is_space, lowered, same_text, to_lowercase, trim,
    trimmed, trimmed_between, trimmed_keeps_first,
};

verus! {

/// A colour as four bytes: red, green, blue and alpha, with the colour
/// channels premultiplied by alpha.
#[derive(Clone, Copy, Debug, PartialEq, Eq, Structural)]
pub struct Rgba {
    pub r: u8,
    pub g: u8,
    pub b: u8,
    pub a: u8,
}

/// The opaque colour with the given channels.
pub open spec fn opaque(r: u8, g: u8, b: u8) -> Rgba {
    Rgba { r, g, b, a: 255 }
}

/// What `egui::Color32::from_hex` gives for a text with the characters `hex`:
/// the four bytes of the colour, or nothing when the text is refused.
pub uninterp spec fn color_from_hex(hex: Seq<char>) -> Option<(u8, u8, u8, u8)>;

/// Whether `c` is a hexadecimal digit.
pub open spec fn is_hex_digit(c: char) -> bool {
    let u = c as u32;
    ||| 0x30 <= u <= 0x39
    ||| 0x41 <= u <= 0x46
    ||| 0x61 <= u <= 0x66
}

/// The value of the hexadecimal digit `c`.
pub open spec fn hex_value(c: char) -> int {
    let u = c as u32;
    if 0x30 <= u <= 0x39 {
        u - 0x30
    } else if 0x41 <= u <= 0x46 {
        u - 0x41 + 10
    } else {
        u - 0x61 + 10
    }
}

/// The byte written by the two hexadecimal digits `hi` and `lo`.
pub open spec fn hex_byte(hi: char, lo: char) -> u8 {
    (16 * hex_value(hi) + hex_value(lo)) as u8
}

/// Whether the characters of `s` from position 1 on are all hexadecimal digits.
pub open spec fn hex_digits_after_hash(s: Seq<char>) -> bool {
    forall|i: int| 1 <= i < s.len() ==> is_hex_digit(#[trigger] s[i])
}

/// The colour that the text `hex` writes: exact for the forms `#rrggbb` and
/// `#rgb`, nothing for a text without a leading `#` or with a character that
/// is neither a hex digit nor `+`, and what `egui::Color32::from_hex` gives
/// for the remaining texts.
pub open spec fn hex_color_of(hex: Seq<char>) -> Option<(u8, u8, u8, u8)> {
    if hex.len() == 0 || hex[0] != '#' {
        None
    } else if exists|i: int| 1 <= i < hex.len() && !is_hex_digit(#[trigger] hex[i]) && hex[i] != '+' {
        None
    } else if hex.len() == 7 && hex_digits_after_hash(hex) {
        Some((hex_byte(hex[1], hex[2]), hex_byte(hex[3], hex[4]), hex_byte(hex[5], hex[6]), 255u8))
    } else if hex.len() == 4 && hex_digits_after_hash(hex) {
        Some((hex_byte(hex[1], hex[1]), hex_byte(hex[2], hex[2]), hex_byte(hex[3], hex[3]), 255u8))
    } else {
        color_from_hex(hex)
    }
}

/// Calls `egui::Color32::from_hex`, which reads a CSS hex colour. Its result is
/// named `color_from_hex`. The contract states what the function's source
/// shows for the forms the library relies on: a text that does not start with
/// `#`, or that holds after it a character that is neither a hex digit nor
/// `+`, is refused; `#rrggbb` gives that opaque colour and `#rgb` gives the
/// opaque colour with each digit doubled. What the four- and eight-digit forms
/// give (their alpha is premultiplied) is left to the name.
#[verifier::external_body]
fn hex_color(hex: &str) -> (res: Option<(u8, u8, u8, u8)>)
    ensures
        res == color_from_hex(hex@),
        res == hex_color_of(hex@),
        hex@.len() == 0 || hex@[0] != '#' ==> res is None,
        (exists|i: int| 1 <= i < hex@.len() && !is_hex_digit(#[trigger] hex@[i]) && hex@[i] != '+')
            ==> res is None,
        hex@.len() == 7 && hex@[0] == '#' && hex_digits_after_hash(hex@) ==> res == Some(
            (hex_byte(hex@[1], hex@[2]), hex_byte(hex@[3], hex@[4]), hex_byte(hex@[5], hex@[6]), 255u8),
        ),
        hex@.len() == 4 && hex@[0] == '#' && hex_digits_after_hash(hex@) ==> res == Some(
            (hex_byte(hex@[1], hex@[1]), hex_byte(hex@[2], hex@[2]), hex_byte(hex@[3], hex@[3]), 255u8),
        ),
{
    match egui::Color32::from_hex(hex) {
        Ok(color) => {
            let [r, g, b, a] = color.to_array();
            Some((r, g, b, a))
        },
        Err(_) => None,
    }
}

/// The colour written by `hex` once trimmed, or `fallback` when it is not a
/// colour.
pub open spec fn hex_or(hex: Seq<char>, fallback: Rgba) -> Rgba {
    match hex_color_of(trimmed(hex)) {
        Some(t) => Rgba { r: t.0, g: t.1, b: t.2, a: t.3 },
        None => fallback,
    }
}

/// The colour written by `hex`, ignoring surrounding whitespace, or
/// `fallback` when `hex` is not a colour.
pub fn parse_hex(hex: &str, fallback: Rgba) -> (res: Rgba)
    ensures
        res == hex_or(hex@, fallback),
{
    let clean = trim(hex);
    match hex_color(clean.as_str()) {
        Some(t) => Rgba { r: t.0, g: t.1, b: t.2, a: t.3 },
        None => fallback,
    }
}



/// The colours of the client: the window background, three text colours and
/// the fill of each kind of button.
#[derive(Clone, Copy, Debug, PartialEq, Eq, Structural)]
pub struct Theme {
    pub background: Rgba,
    pub text_primary: Rgba,
    pub text_dashboard: Rgba,
    pub text_title: Rgba,
    pub download_btn: Rgba,
    pub upload_btn: Rgba,
    pub delete_btn: Rgba,
    pub move_btn: Rgba,
    pub logout_btn: Rgba,
    pub connect_btn: Rgba,
    pub open_btn: Rgba,
    pub refresh_btn: Rgba,
    pub path_btn: Rgba,
    pub folder_btn: Rgba,
}

/// The colours that a style file can set, one per colour of the theme.
#[derive(Clone, Copy, Debug, PartialEq, Eq, Structural)]
pub enum ThemeSlot {
    Background,
    TextPrimary,
    TextDashboard,
    TextTitle,
    DownloadButton,
    UploadButton,
    DeleteButton,
    MoveButton,
    LogoutButton,
    ConnectButton,
    OpenButton,
    RefreshButton,
    PathButton,
    FolderButton,
}

/// The position of `slot` in the theme, counted from 1.
pub open spec fn slot_number(slot: ThemeSlot) -> int {
    match slot {
        ThemeSlot::Background => 1,
        ThemeSlot::TextPrimary => 2,
        ThemeSlot::TextDashboard => 3,
        ThemeSlot::TextTitle => 4,
        ThemeSlot::DownloadButton => 5,
        ThemeSlot::UploadButton => 6,
        ThemeSlot::DeleteButton => 7,
        ThemeSlot::MoveButton => 8,
        ThemeSlot::LogoutButton => 9,
        ThemeSlot::ConnectButton => 10,
        ThemeSlot::OpenButton => 11,
        ThemeSlot::RefreshButton => 12,
        ThemeSlot::PathButton => 13,
        ThemeSlot::FolderButton => 14,
    }
}

impl Theme {
    /// The colour held in `slot`.
    pub open spec fn color(self, slot: ThemeSlot) -> Rgba {
        match slot {
            ThemeSlot::Background => self.background,
            ThemeSlot::TextPrimary => self.text_primary,
            ThemeSlot::TextDashboard => self.text_dashboard,
            ThemeSlot::TextTitle => self.text_title,
            ThemeSlot::DownloadButton => self.download_btn,
            ThemeSlot::UploadButton => self.upload_btn,
            ThemeSlot::DeleteButton => self.delete_btn,
            ThemeSlot::MoveButton => self.move_btn,
            ThemeSlot::LogoutButton => self.logout_btn,
            ThemeSlot::ConnectButton => self.connect_btn,
            ThemeSlot::OpenButton => self.open_btn,
            ThemeSlot::RefreshButton => self.refresh_btn,
            ThemeSlot::PathButton => self.path_btn,
            ThemeSlot::FolderButton => self.folder_btn,
        }
    }

    /// This theme with `c` in `slot`.
    pub open spec fn with_color(self, slot: ThemeSlot, c: Rgba) -> Theme {
        match slot {
            ThemeSlot::Background => Theme { background: c, ..self },
            ThemeSlot::TextPrimary => Theme { text_primary: c, ..self },
            ThemeSlot::TextDashboard => Theme { text_dashboard: c, ..self },
            ThemeSlot::TextTitle => Theme { text_title: c, ..self },
            ThemeSlot::DownloadButton => Theme { download_btn: c, ..self },
            ThemeSlot::UploadButton => Theme { upload_btn: c, ..self },
            ThemeSlot::DeleteButton => Theme { delete_btn: c, ..self },
            ThemeSlot::MoveButton => Theme { move_btn: c, ..self },
            ThemeSlot::LogoutButton => Theme { logout_btn: c, ..self },
            ThemeSlot::ConnectButton => Theme { connect_btn: c, ..self },
            ThemeSlot::OpenButton => Theme { open_btn: c, ..self },
            ThemeSlot::RefreshButton => Theme { refresh_btn: c, ..self },
            ThemeSlot::PathButton => Theme { path_btn: c, ..self },
            ThemeSlot::FolderButton => Theme { folder_btn: c, ..self },
        }
    }

    /// The colour held in `slot`.
    pub fn get(&self, slot: ThemeSlot) -> (c: Rgba)
        ensures
            c == self.color(slot),
    {
        match slot {
            ThemeSlot::Background => self.background,
            ThemeSlot::TextPrimary => self.text_primary,
            ThemeSlot::TextDashboard => self.text_dashboard,
            ThemeSlot::TextTitle => self.text_title,
            ThemeSlot::DownloadButton => self.download_btn,
            ThemeSlot::UploadButton => self.upload_btn,
            ThemeSlot::DeleteButton => self.delete_btn,
            ThemeSlot::MoveButton => self.move_btn,
            ThemeSlot::LogoutButton => self.logout_btn,
            ThemeSlot::ConnectButton => self.connect_btn,
            ThemeSlot::OpenButton => self.open_btn,
            ThemeSlot::RefreshButton => self.refresh_btn,
            ThemeSlot::PathButton => self.path_btn,
            ThemeSlot::FolderButton => self.folder_btn,
        }
    }

    /// Puts `c` in `slot`.
    pub fn set(&mut self, slot: ThemeSlot, c: Rgba)
        ensures
            *final(self) == old(self).with_color(slot, c),
    {
        match slot {
            ThemeSlot::Background => self.background = c,
            ThemeSlot::TextPrimary => self.text_primary = c,
            ThemeSlot::TextDashboard => self.text_dashboard = c,
            ThemeSlot::TextTitle => self.text_title = c,
            ThemeSlot::DownloadButton => self.download_btn = c,
            ThemeSlot::UploadButton => self.upload_btn = c,
            ThemeSlot::DeleteButton => self.delete_btn = c,
            ThemeSlot::MoveButton => self.move_btn = c,
            ThemeSlot::LogoutButton => self.logout_btn = c,
            ThemeSlot::ConnectButton => self.connect_btn = c,
            ThemeSlot::OpenButton => self.open_btn = c,
            ThemeSlot::RefreshButton => self.refresh_btn = c,
            ThemeSlot::PathButton => self.path_btn = c,
            ThemeSlot::FolderButton => self.folder_btn = c,
        }
    }
}

/// Putting a colour in one slot changes no other slot, and putting back the
/// colour a slot holds changes nothing.
proof fn with_color_facts(t: Theme, slot: ThemeSlot, c: Rgba)
    ensures
        t.with_color(slot, c).color(slot) == c,
        forall|other: ThemeSlot| other != slot ==> #[trigger] t.with_color(slot, c).color(other) == t.color(other),
        t.with_color(slot, t.color(slot)) == t,
{
}


/// The colour that the style key `key` (already in lower case) sets: each
/// colour has its own name, each button is named `..._button`, and the keys
/// that the default style file writes as `..._btn` are understood too.
pub open spec fn slot_named(key: Seq<char>) -> Option<ThemeSlot> {
    if key == "background"@ {
        Some(ThemeSlot::Background)
    } else if key == "text_primary"@ {
        Some(ThemeSlot::TextPrimary)
    } else if key == "text_dashboard"@ {
        Some(ThemeSlot::TextDashboard)
    } else if key == "text_title"@ {
        Some(ThemeSlot::TextTitle)
    } else if key == "download_button"@ {
        Some(ThemeSlot::DownloadButton)
    } else if key == "upload_button"@ {
        Some(ThemeSlot::UploadButton)
    } else if key == "upload_btn"@ {
        Some(ThemeSlot::UploadButton)
    } else if key == "delete_button"@ {
        Some(ThemeSlot::DeleteButton)
    } else if key == "move_button"@ {
        Some(ThemeSlot::MoveButton)
    } else if key == "move_btn"@ {
        Some(ThemeSlot::MoveButton)
    } else if key == "logout_button"@ {
        Some(ThemeSlot::LogoutButton)
    } else if key == "logout_btn"@ {
        Some(ThemeSlot::LogoutButton)
    } else if key == "connect_button"@ {
        Some(ThemeSlot::ConnectButton)
    } else if key == "connect_btn"@ {
        Some(ThemeSlot::ConnectButton)
    } else if key == "open_button"@ {
        Some(ThemeSlot::OpenButton)
    } else if key == "open_btn"@ {
        Some(ThemeSlot::OpenButton)
    } else if key == "refresh_button"@ {
        Some(ThemeSlot::RefreshButton)
    } else if key == "refresh_btn"@ {
        Some(ThemeSlot::RefreshButton)
    } else if key == "path_button"@ {
        Some(ThemeSlot::PathButton)
    } else if key == "path_btn"@ {
        Some(ThemeSlot::PathButton)
    } else if key == "folder_button"@ {
        Some(ThemeSlot::FolderButton)
    } else {
        None
    }
}

/// The key that names `slot` in a style file: the colour's own name, and
/// `..._button` for each button.
pub open spec fn colour_key(slot: ThemeSlot) -> Seq<char> {
    match slot {
        ThemeSlot::Background => "background"@,
        ThemeSlot::TextPrimary => "text_primary"@,
        ThemeSlot::TextDashboard => "text_dashboard"@,
        ThemeSlot::TextTitle => "text_title"@,
        ThemeSlot::DownloadButton => "download_button"@,
        ThemeSlot::UploadButton => "upload_button"@,
        ThemeSlot::DeleteButton => "delete_button"@,
        ThemeSlot::MoveButton => "move_button"@,
        ThemeSlot::LogoutButton => "logout_button"@,
        ThemeSlot::ConnectButton => "connect_button"@,
        ThemeSlot::OpenButton => "open_button"@,
        ThemeSlot::RefreshButton => "refresh_button"@,
        ThemeSlot::PathButton => "path_button"@,
        ThemeSlot::FolderButton => "folder_button"@,
    }
}

/// Every colour of the theme is set by its key: the key of each slot names
/// that slot, the `..._button` key of every button included.
pub proof fn every_colour_key_names_its_slot(slot: ThemeSlot)
    ensures
        slot_named(colour_key(slot)) == Some(slot),
{
    reveal_strlit("background");
    reveal_strlit("text_primary");
    reveal_strlit("text_dashboard");
    reveal_strlit("text_title");
    reveal_strlit("download_button");
    reveal_strlit("upload_button");
    reveal_strlit("upload_btn");
    reveal_strlit("delete_button");
    reveal_strlit("move_button");
    reveal_strlit("move_btn");
    reveal_strlit("logout_button");
    reveal_strlit("logout_btn");
    reveal_strlit("connect_button");
    reveal_strlit("connect_btn");
    reveal_strlit("open_button");
    reveal_strlit("open_btn");
    reveal_strlit("refresh_button");
    reveal_strlit("refresh_btn");
    reveal_strlit("path_button");
    reveal_strlit("path_btn");
    reveal_strlit("folder_button");
    match slot {
        ThemeSlot::Background => {
            assert(colour_key(slot) == "background"@);
        },
        ThemeSlot::TextPrimary => {
            assert(colour_key(slot) == "text_primary"@);
        },
        ThemeSlot::TextDashboard => {
            assert(colour_key(slot) == "text_dashboard"@);
        },
        ThemeSlot::TextTitle => {
            assert("text_title"@[0] != "background"@[0]);
            assert(colour_key(slot) == "text_title"@);
        },
        ThemeSlot::DownloadButton => {
            assert(colour_key(slot) == "download_button"@);
        },
        ThemeSlot::UploadButton => {
            assert(colour_key(slot) == "upload_button"@);
        },
        ThemeSlot::DeleteButton => {
            assert("delete_button"@[0] != "upload_button"@[0]);
            assert(colour_key(slot) == "delete_button"@);
        },
        ThemeSlot::MoveButton => {
            assert(colour_key(slot) == "move_button"@);
        },
        ThemeSlot::LogoutButton => {
            assert("logout_button"@[0] != "upload_button"@[0]);
            assert("logout_button"@[0] != "delete_button"@[0]);
            assert(colour_key(slot) == "logout_button"@);
        },
        ThemeSlot::ConnectButton => {
            assert("connect_button"@[0] != "text_dashboard"@[0]);
            assert(colour_key(slot) == "connect_button"@);
        },
        ThemeSlot::OpenButton => {
            assert("open_button"@[0] != "move_button"@[0]);
            assert("open_button"@[0] != "connect_btn"@[0]);
            assert(colour_key(slot) == "open_button"@);
        },
        ThemeSlot::RefreshButton => {
            assert("refresh_button"@[0] != "text_dashboard"@[0]);
            assert("refresh_button"@[0] != "connect_button"@[0]);
            assert(colour_key(slot) == "refresh_button"@);
        },
        ThemeSlot::PathButton => {
            assert("path_button"@[0] != "move_button"@[0]);
            assert("path_button"@[0] != "connect_btn"@[0]);
            assert("path_button"@[0] != "open_button"@[0]);
            assert("path_button"@[0] != "refresh_btn"@[0]);
            assert(colour_key(slot) == "path_button"@);
        },
        ThemeSlot::FolderButton => {
            assert("folder_button"@[0] != "upload_button"@[0]);
            assert("folder_button"@[0] != "delete_button"@[0]);
            assert("folder_button"@[0] != "logout_button"@[0]);
            assert(colour_key(slot) == "folder_button"@);
        },
    }
}

/// The colour that the style key `key` (already in lower case) sets.
pub fn slot_for_key(key: &str) -> (res: Option<ThemeSlot>)
    ensures
        res == slot_named(key@),
{
    if same_text(key, "background") {
        Some(ThemeSlot::Background)
    } else if same_text(key, "text_primary") {
        Some(ThemeSlot::TextPrimary)
    } else if same_text(key, "text_dashboard") {
        Some(ThemeSlot::TextDashboard)
    } else if same_text(key, "text_title") {
        Some(ThemeSlot::TextTitle)
    } else if same_text(key, "download_button") {
        Some(ThemeSlot::DownloadButton)
    } else if same_text(key, "upload_button") {
        Some(ThemeSlot::UploadButton)
    } else if same_text(key, "upload_btn") {
        Some(ThemeSlot::UploadButton)
    } else if same_text(key, "delete_button") {
        Some(ThemeSlot::DeleteButton)
    } else if same_text(key, "move_button") {
        Some(ThemeSlot::MoveButton)
    } else if same_text(key, "move_btn") {
        Some(ThemeSlot::MoveButton)
    } else if same_text(key, "logout_button") {
        Some(ThemeSlot::LogoutButton)
    } else if same_text(key, "logout_btn") {
        Some(ThemeSlot::LogoutButton)
    } else if same_text(key, "connect_button") {
        Some(ThemeSlot::ConnectButton)
    } else if same_text(key, "connect_btn") {
        Some(ThemeSlot::ConnectButton)
    } else if same_text(key, "open_button") {
        Some(ThemeSlot::OpenButton)
    } else if same_text(key, "open_btn") {
        Some(ThemeSlot::OpenButton)
    } else if same_text(key, "refresh_button") {
        Some(ThemeSlot::RefreshButton)
    } else if same_text(key, "refresh_btn") {
        Some(ThemeSlot::RefreshButton)
    } else if same_text(key, "path_button") {
        Some(ThemeSlot::PathButton)
    } else if same_text(key, "path_btn") {
        Some(ThemeSlot::PathButton)
    } else if same_text(key, "folder_button") {
        Some(ThemeSlot::FolderButton)
    } else {
        None
    }
}

/// The colours used when no style file says otherwise.
pub open spec fn initial_theme() -> Theme {
    Theme {
        background: opaque(0x25, 0x04, 0x44),
        text_primary: opaque(0, 0, 0),
        text_dashboard: opaque(0xff, 0xff, 0xff),
        text_title: opaque(0xff, 0xff, 0xff),
        download_btn: opaque(0x28, 0xa7, 0x92),
        upload_btn: opaque(0xac, 0x5d, 0xdc),
        delete_btn: opaque(0xdc, 0x35, 0x45),
        move_btn: opaque(0xf0, 0x7d, 0x12),
        logout_btn: opaque(0xac, 0x5d, 0xdc),
        connect_btn: opaque(0xfc, 0xba, 0x00),
        open_btn: opaque(0xac, 0x5d, 0xdc),
        refresh_btn: opaque(0xac, 0x5d, 0xdc),
        path_btn: opaque(0x5d, 0xdc, 0xab),
        folder_btn: opaque(0xac, 0x5d, 0xdc),
    }
}

/// The colour written by the literal `hex`, which is a valid `#rrggbb`.
fn literal_color(hex: &str) -> (c: Rgba)
    requires
        hex@.len() == 7,
        hex@[0] == '#',
        hex_digits_after_hash(hex@),
    ensures
        c == opaque(hex_byte(hex@[1], hex@[2]), hex_byte(hex@[3], hex@[4]), hex_byte(hex@[5], hex@[6])),
{
    let t = hex_color(hex).unwrap();
    Rgba { r: t.0, g: t.1, b: t.2, a: t.3 }
}

/// The colours used when no style file says otherwise.
pub fn default_theme() -> (t: Theme)
    ensures
        t == initial_theme(),
{
    proof {
        reveal_strlit("#250444");
        reveal_strlit("#FFFFFF");
        reveal_strlit("#28a792");
        reveal_strlit("#ac5ddc");
        reveal_strlit("#dc3545");
        reveal_strlit("#f07d12");
        reveal_strlit("#fcba00");
        reveal_strlit("#5ddcab");
    }
    Theme {
        background: literal_color("#250444"),
        text_primary: Rgba { r: 0, g: 0, b: 0, a: 255 },
        text_dashboard: Rgba { r: 255, g: 255, b: 255, a: 255 },
        text_title: literal_color("#FFFFFF"),
        download_btn: literal_color("#28a792"),
        upload_btn: literal_color("#ac5ddc"),
        delete_btn: literal_color("#dc3545"),
        move_btn: literal_color("#f07d12"),
        logout_btn: literal_color("#ac5ddc"),
        connect_btn: literal_color("#fcba00"),
        open_btn: literal_color("#ac5ddc"),
        refresh_btn: literal_color("#ac5ddc"),
        path_btn: literal_color("#5ddcab"),
        folder_btn: literal_color("#ac5ddc"),
    }
}


/// `theme` after the style line `line`. A line that starts, once trimmed,
/// with `#` or `[` is a comment or a section header and changes nothing; so
/// does a line without exactly one `=`. Otherwise the text before `=`,
/// trimmed and in lower case, is the key, and the text after it is the colour:
/// a known key gets that colour, or keeps its own when the text is no colour.
pub open spec fn line_applied(theme: Theme, line: Seq<char>) -> Theme {
    let t = trimmed(line);
    let e = chars_before(line, '=');
    if t.len() > 0 && (t[0] == '#' || t[0] == '[') {
        theme
    } else if e < line.len() && !line.subrange(e + 1 as int, line.len() as int).contains('=') {
        let key = lowered(trimmed(line.subrange(0, e as int)));
        let value = trimmed(line.subrange(e + 1 as int, line.len() as int));
        match slot_named(key) {
            Some(slot) => theme.with_color(slot, hex_or(value, theme.color(slot))),
            None => theme,
        }
    } else {
        theme
    }
}

/// `theme` after the style line `line`.
pub fn apply_style_line(theme: Theme, line: &str) -> (res: Theme)
    ensures
        res == line_applied(theme, line@),
{
    let t = trim(line);
    let tv = chars_of(t.as_str());
    if tv.len() > 0 && (tv[0] == '#' || tv[0] == '[') {
        return theme;
    }
    let v = chars_of(line);
    let n = v.len();
    assert(v@.subrange(0, n as int) =~= v@);
    let e = find_char(&v, 0, '=');
    if e == n {
        return theme;
    }
    let second = find_char(&v, e + 1, '=');
    proof {
        chars_before_bounds(v@.subrange(e + 1, n as int), '=');
    }
    if second < n {
        assert(v@.subrange(e + 1, n as int)[second - e - 1] == '=');
        return theme;
    }
    let key_part = line.substring_char(0, e);
    let key_trimmed = trim(key_part);
    let key = to_lowercase(key_trimmed.as_str());
    let value_part = line.substring_char(e + 1, n);
    let value = trim(value_part);
    match slot_for_key(key.as_str()) {
        Some(slot) => {
            let c = parse_hex(value.as_str(), theme.get(slot));
            let mut res = theme;
            res.set(slot, c);
            res
        },
        None => theme,
    }
}

/// `theme` after every line of the style text `content`, first to last.
pub open spec fn style_applied(theme: Theme, content: Seq<char>) -> Theme
    decreases content.len(),
{
    let k = chars_before(content, '\n');
    let next = line_applied(theme, content.subrange(0, k as int));
    if k < content.len() {
        proof {
            chars_before_bounds(content, '\n');
        }
        style_applied(next, content.subrange(k + 1 as int, content.len() as int))
    } else {
        next
    }
}

/// `theme` after every line of the style text `content`.
pub fn apply_style(theme: Theme, content: &str) -> (res: Theme)
    ensures
        res == style_applied(theme, content@),
{
    let v = chars_of(content);
    let n = v.len();
    let mut pos: usize = 0;
    let mut current = theme;
    assert(v@.subrange(0, n as int) =~= v@);
    loop
        invariant
            v@ == content@,
            n == v.len(),
            pos <= n,
            style_applied(theme, content@) == style_applied(current, v@.subrange(pos as int, n as int)),
        decreases n - pos,
    {
        let ghost rest = v@.subrange(pos as int, n as int);
        let j = find_char(&v, pos, '\n');
        let line = content.substring_char(pos, j);
        assert(line@ =~= rest.subrange(0, (j - pos) as int));
        current = apply_style_line(current, line);
        if j == n {
            return current;
        }
        assert(rest.subrange((j - pos) + 1, rest.len() as int) =~= v@.subrange(j + 1, n as int));
        pos = j + 1;
    }
}

/// The theme of the client: the default colours, changed by the style file
/// when its text `content` could be read.
pub fn theme_from_style(content: Option<&str>) -> (res: Theme)
    ensures
        res == match content {
            Some(text) => style_applied(initial_theme(), text@),
            None => initial_theme(),
        },
{
    let base = default_theme();
    match content {
        Some(text) => apply_style(base, text),
        None => base,
    }
}



/// A line of the style file that gives the key `word` the text `value`:
/// the word, a space, `=`, and the value as written.
pub open spec fn style_line(word: Seq<char>, value: Seq<char>) -> Seq<char> {
    word + seq![' ', '='] + value
}

/// The lines `lines` written one after the other, with a line break between
/// two of them.
pub open spec fn joined(lines: Seq<Seq<char>>) -> Seq<char>
    decreases lines.len(),
{
    if lines.len() == 0 {
        Seq::empty()
    } else if lines.len() == 1 {
        lines[0]
    } else {
        joined(lines.drop_last()) + seq!['\n'] + lines.last()
    }
}

/// The key written on line `i` (from 1 to 14) of the default style file.
pub open spec fn default_word(i: int) -> Seq<char> {
    if i == 1 {
        "Background"@
    } else if i == 2 {
        "Text_Primary"@
    } else if i == 3 {
        "Text_dashboard"@
    } else if i == 4 {
        "text_title"@
    } else if i == 5 {
        "Download_Button"@
    } else if i == 6 {
        "upload_btn"@
    } else if i == 7 {
        "Delete_Button"@
    } else if i == 8 {
        "move_btn"@
    } else if i == 9 {
        "logout_btn"@
    } else if i == 10 {
        "connect_btn"@
    } else if i == 11 {
        "open_btn"@
    } else if i == 12 {
        "refresh_btn"@
    } else if i == 13 {
        "path_btn"@
    } else {
        "folder_button"@
    }
}

/// The text after `=` on line `i` (from 1 to 14) of the default style file.
pub open spec fn default_value(i: int) -> Seq<char> {
    if i == 1 {
        " #250444"@
    } else if i == 2 {
        " #000000"@
    } else if i == 3 {
        " #FFFFFF"@
    } else if i == 4 {
        "     #FFFFFF"@
    } else if i == 5 {
        " #28a792"@
    } else if i == 6 {
        " #ac5ddc"@
    } else if i == 7 {
        " #dc3545"@
    } else if i == 8 {
        " #f07d12"@
    } else if i == 9 {
        " #ac5ddc"@
    } else if i == 10 {
        " #fcba00"@
    } else if i == 11 {
        " #ac5ddc"@
    } else if i == 12 {
        " #ac5ddc"@
    } else if i == 13 {
        " #5ddcab"@
    } else {
        " #ac5ddc"@
    }
}

/// The colour set by line `i` (from 1 to 14) of the default style file: the
/// colours in the order of the theme.
pub open spec fn default_slot(i: int) -> ThemeSlot {
    if i == 1 {
        ThemeSlot::Background
    } else if i == 2 {
        ThemeSlot::TextPrimary
    } else if i == 3 {
        ThemeSlot::TextDashboard
    } else if i == 4 {
        ThemeSlot::TextTitle
    } else if i == 5 {
        ThemeSlot::DownloadButton
    } else if i == 6 {
        ThemeSlot::UploadButton
    } else if i == 7 {
        ThemeSlot::DeleteButton
    } else if i == 8 {
        ThemeSlot::MoveButton
    } else if i == 9 {
        ThemeSlot::LogoutButton
    } else if i == 10 {
        ThemeSlot::ConnectButton
    } else if i == 11 {
        ThemeSlot::OpenButton
    } else if i == 12 {
        ThemeSlot::RefreshButton
    } else if i == 13 {
        ThemeSlot::PathButton
    } else {
        ThemeSlot::FolderButton
    }
}

/// Line `i` of the default style file: the section header, then one line
/// per colour.
pub open spec fn default_line(i: int) -> Seq<char> {
    if i == 0 {
        "[Colors]"@
    } else {
        style_line(default_word(i), default_value(i))
    }
}

/// The lines of the style file written when there is none yet.
pub open spec fn default_lines() -> Seq<Seq<char>> {
    Seq::new(15, |i: int| default_line(i))
}

/// The style file written when there is none yet.
pub open spec fn default_style() -> Seq<char> {
    joined(default_lines())
}

/// The key and the value text of line `i` of the default style file.
fn default_entry(i: usize) -> (res: (&'static str, &'static str))
    requires
        1 <= i < 15,
    ensures
        res.0@ == default_word(i as int),
        res.1@ == default_value(i as int),
{
    match i {
        1 => ("Background", " #250444"),
        2 => ("Text_Primary", " #000000"),
        3 => ("Text_dashboard", " #FFFFFF"),
        4 => ("text_title", "     #FFFFFF"),
        5 => ("Download_Button", " #28a792"),
        6 => ("upload_btn", " #ac5ddc"),
        7 => ("Delete_Button", " #dc3545"),
        8 => ("move_btn", " #f07d12"),
        9 => ("logout_btn", " #ac5ddc"),
        10 => ("connect_btn", " #fcba00"),
        11 => ("open_btn", " #ac5ddc"),
        12 => ("refresh_btn", " #ac5ddc"),
        13 => ("path_btn", " #5ddcab"),
        _ => ("folder_button", " #ac5ddc"),
    }
}

/// The style file written when there is none yet.
pub fn default_style_text() -> (res: String)
    ensures
        res@ == default_style(),
{
    let mut res = String::from_str("[Colors]");
    let mut i: usize = 1;
    proof {
        assert(default_lines().take(1) =~= seq!["[Colors]"@]);
    }
    while i < 15
        invariant
            1 <= i <= 15,
            res@ == joined(default_lines().take(i as int)),
        decreases 15 - i,
    {
        let (word, value) = default_entry(i);
        res.append("\n");
        res.append(word);
        res.append(" =");
        res.append(value);
        proof {
            reveal_strlit("\n");
            reveal_strlit(" =");
            joined_push(default_lines(), i as int);
        }
        i = i + 1;
    }
    assert(default_lines().take(15) =~= default_lines());
    res
}

/// What line `i` (from 1 to 14) of the default style file holds as its key:
/// a word without spaces, `=` or line breaks that names the colour
/// `default_slot(i)`.
#[verifier::spinoff_prover]
#[verifier::rlimit(60)]
proof fn default_key_facts(i: int)
    requires
        1 <= i < 15,
    ensures
        default_word(i).len() > 0,
        !default_word(i).contains('='),
        !default_word(i).contains('\n'),
        !is_space(default_word(i)[0]),
        !is_space(default_word(i).last()),
        default_word(i)[0] != '#',
        default_word(i)[0] != '[',
        slot_named(lowered(default_word(i))) == Some(default_slot(i)),
{
    reveal_strlit("background");
    reveal_strlit("text_primary");
    reveal_strlit("text_dashboard");
    reveal_strlit("text_title");
    reveal_strlit("download_button");
    reveal_strlit("upload_button");
    reveal_strlit("upload_btn");
    reveal_strlit("delete_button");
    reveal_strlit("move_button");
    reveal_strlit("move_btn");
    reveal_strlit("logout_button");
    reveal_strlit("logout_btn");
    reveal_strlit("connect_button");
    reveal_strlit("connect_btn");
    reveal_strlit("open_button");
    reveal_strlit("open_btn");
    reveal_strlit("refresh_button");
    reveal_strlit("refresh_btn");
    reveal_strlit("path_button");
    reveal_strlit("path_btn");
    reveal_strlit("folder_button");
    if i == 1 {
        reveal_strlit("Background");
        word_facts("Background"@);
        assert(lowered("Background"@) =~= "background"@);
    } else if i == 2 {
        reveal_strlit("Text_Primary");
        word_facts("Text_Primary"@);
        assert(lowered("Text_Primary"@) =~= "text_primary"@);
    } else if i == 3 {
        reveal_strlit("Text_dashboard");
        word_facts("Text_dashboard"@);
        assert(lowered("Text_dashboard"@) =~= "text_dashboard"@);
    } else if i == 4 {
        word_facts("text_title"@);
        assert(lowered("text_title"@) =~= "text_title"@);
        assert("text_title"@[0] != "background"@[0]);
    } else if i == 5 {
        reveal_strlit("Download_Button");
        word_facts("Download_Button"@);
        assert(lowered("Download_Button"@) =~= "download_button"@);
    } else if i == 6 {
        word_facts("upload_btn"@);
        assert(lowered("upload_btn"@) =~= "upload_btn"@);
        assert("upload_btn"@[0] != "background"@[0]);
        assert("upload_btn"@[0] != "text_title"@[0]);
    } else if i == 7 {
        reveal_strlit("Delete_Button");
        word_facts("Delete_Button"@);
        assert(lowered("Delete_Button"@) =~= "delete_button"@);
        assert("delete_button"@[0] != "upload_button"@[0]);
    } else if i == 8 {
        word_facts("move_btn"@);
        assert(lowered("move_btn"@) =~= "move_btn"@);
    } else if i == 9 {
        word_facts("logout_btn"@);
        assert(lowered("logout_btn"@) =~= "logout_btn"@);
        assert("logout_btn"@[0] != "background"@[0]);
        assert("logout_btn"@[0] != "text_title"@[0]);
        assert("logout_btn"@[0] != "upload_btn"@[0]);
    } else if i == 10 {
        word_facts("connect_btn"@);
        assert(lowered("connect_btn"@) =~= "connect_btn"@);
        assert("connect_btn"@[0] != "move_button"@[0]);
    } else if i == 11 {
        word_facts("open_btn"@);
        assert(lowered("open_btn"@) =~= "open_btn"@);
        assert("open_btn"@[0] != "move_btn"@[0]);
    } else if i == 12 {
        word_facts("refresh_btn"@);
        assert(lowered("refresh_btn"@) =~= "refresh_btn"@);
        assert("refresh_btn"@[0] != "move_button"@[0]);
        assert("refresh_btn"@[0] != "connect_btn"@[0]);
        assert("refresh_btn"@[0] != "open_button"@[0]);
    } else if i == 13 {
        word_facts("path_btn"@);
        assert(lowered("path_btn"@) =~= "path_btn"@);
        assert("path_btn"@[0] != "move_btn"@[0]);
        assert("path_btn"@[0] != "open_btn"@[0]);
    } else {
        word_facts("folder_button"@);
        assert(lowered("folder_button"@) =~= "folder_button"@);
        assert("folder_button"@[0] != "upload_button"@[0]);
        assert("folder_button"@[0] != "delete_button"@[0]);
        assert("folder_button"@[0] != "logout_button"@[0]);
    }
}

/// What line `i` (from 1 to 14) of the default style file holds as its
/// value: a text without `=` or line breaks that writes the default of the
/// colour `default_slot(i)`.
#[verifier::spinoff_prover]
#[verifier::rlimit(60)]
proof fn default_value_facts(i: int)
    requires
        1 <= i < 15,
    ensures
        !default_value(i).contains('='),
        !default_value(i).contains('\n'),
        hex_color_of(trimmed(default_value(i))) == Some((
            initial_theme().color(default_slot(i)).r,
            initial_theme().color(default_slot(i)).g,
            initial_theme().color(default_slot(i)).b,
            initial_theme().color(default_slot(i)).a,
        )),
{
    if i == 1 {
        reveal_strlit(" #250444");
        colour_text(" #250444"@, 1);
    } else if i == 2 {
        reveal_strlit(" #000000");
        colour_text(" #000000"@, 1);
    } else if i == 3 {
        reveal_strlit(" #FFFFFF");
        colour_text(" #FFFFFF"@, 1);
    } else if i == 4 {
        reveal_strlit("     #FFFFFF");
        colour_text("     #FFFFFF"@, 5);
    } else if i == 5 {
        reveal_strlit(" #28a792");
        colour_text(" #28a792"@, 1);
    } else if i == 6 {
        reveal_strlit(" #ac5ddc");
        colour_text(" #ac5ddc"@, 1);
    } else if i == 7 {
        reveal_strlit(" #dc3545");
        colour_text(" #dc3545"@, 1);
    } else if i == 8 {
        reveal_strlit(" #f07d12");
        colour_text(" #f07d12"@, 1);
    } else if i == 9 {
        reveal_strlit(" #ac5ddc");
        colour_text(" #ac5ddc"@, 1);
    } else if i == 10 {
        reveal_strlit(" #fcba00");
        colour_text(" #fcba00"@, 1);
    } else if i == 11 {
        reveal_strlit(" #ac5ddc");
        colour_text(" #ac5ddc"@, 1);
    } else if i == 12 {
        reveal_strlit(" #ac5ddc");
        colour_text(" #ac5ddc"@, 1);
    } else if i == 13 {
        reveal_strlit(" #5ddcab");
        colour_text(" #5ddcab"@, 1);
    } else {
        reveal_strlit(" #ac5ddc");
        colour_text(" #ac5ddc"@, 1);
    }
}

/// What line `i` (from 1 to 14) of the default style file holds: its key
/// names the colour `default_slot(i)` and its value writes the default of
/// that colour.
proof fn default_entry_facts(i: int)
    requires
        1 <= i < 15,
    ensures
        default_word(i).len() > 0,
        !default_word(i).contains('='),
        !default_word(i).contains('\n'),
        !is_space(default_word(i)[0]),
        !is_space(default_word(i).last()),
        default_word(i)[0] != '#',
        default_word(i)[0] != '[',
        !default_value(i).contains('='),
        !default_value(i).contains('\n'),
        slot_named(lowered(default_word(i))) == Some(default_slot(i)),
        hex_or(default_value(i), initial_theme().color(default_slot(i))) == initial_theme().color(default_slot(i)),
{
    default_key_facts(i);
    default_value_facts(i);
}


/// Whether `c` may stand in a key of the default style file: an ASCII letter
/// or `_`.
pub open spec fn is_word_char(c: char) -> bool {
    let u = c as u32;
    ||| 0x41 <= u <= 0x5a
    ||| 0x61 <= u <= 0x7a
    ||| u == 0x5f
}

/// A key made of letters and `_` holds no `=`, no line break and no
/// whitespace, does not start a comment or a section header, and is ASCII.
proof fn word_facts(word: Seq<char>)
    requires
        word.len() > 0,
        forall|j: int| 0 <= j < word.len() ==> is_word_char(#[trigger] word[j]),
    ensures
        !word.contains('='),
        !word.contains('\n'),
        !is_space(word[0]),
        !is_space(word.last()),
        word[0] != '#',
        word[0] != '[',
        all_ascii(word),
{
    assert(is_word_char(word[0]));
    assert(is_word_char(word[word.len() - 1]));
    assert(!word.contains('=')) by {
        if word.contains('=') {
            let j = choose|j: int| 0 <= j < word.len() && word[j] == '=';
            assert(is_word_char(word[j]));
        }
    }
    assert(!word.contains('\n')) by {
        if word.contains('\n') {
            let j = choose|j: int| 0 <= j < word.len() && word[j] == '\n';
            assert(is_word_char(word[j]));
        }
    }
}

/// A value made of spaces followed by `#` and six hex digits writes that
/// opaque colour, and holds no `=` and no line break.
proof fn colour_text(value: Seq<char>, a: int)
    requires
        0 <= a,
        value.len() == a + 7,
        forall|j: int| 0 <= j < a ==> #[trigger] value[j] == ' ',
        value[a] == '#',
        forall|j: int| a < j < a + 7 ==> is_hex_digit(#[trigger] value[j]),
    ensures
        trimmed(value) == value.subrange(a, a + 7),
        hex_color_of(trimmed(value)) == Some(
            (
                hex_byte(value[a + 1], value[a + 2]),
                hex_byte(value[a + 3], value[a + 4]),
                hex_byte(value[a + 5], value[a + 6]),
                255u8,
            ),
        ),
        !value.contains('='),
        !value.contains('\n'),
{
    assert(is_hex_digit(value[a + 6]));
    trimmed_between(value, a, a + 7);
    let h = value.subrange(a, a + 7);
    assert forall|j: int| 1 <= j < h.len() implies is_hex_digit(#[trigger] h[j]) by {
        assert(h[j] == value[a + j]);
    }
    assert(!(exists|j: int| 1 <= j < h.len() && !is_hex_digit(#[trigger] h[j]) && h[j] != '+'));
    assert(!value.contains('=')) by {
        if value.contains('=') {
            let j = choose|j: int| 0 <= j < value.len() && value[j] == '=';
            if j < a {
                assert(value[j] == ' ');
            } else if j > a {
                assert(is_hex_digit(value[j]));
            }
        }
    }
    assert(!value.contains('\n')) by {
        if value.contains('\n') {
            let j = choose|j: int| 0 <= j < value.len() && value[j] == '\n';
            if j < a {
                assert(value[j] == ' ');
            } else if j > a {
                assert(is_hex_digit(value[j]));
            }
        }
    }
}

/// A style line made of a key and a value without `c` holds no `c` either,
/// when `c` is neither a space nor `=`.
proof fn style_line_lacks(word: Seq<char>, value: Seq<char>, c: char)
    requires
        !word.contains(c),
        !value.contains(c),
        c != ' ',
        c != '=',
    ensures
        !style_line(word, value).contains(c),
{
    let line = style_line(word, value);
    if line.contains(c) {
        let j = choose|j: int| 0 <= j < line.len() && line[j] == c;
        if j < word.len() {
            assert(word[j] == c);
        } else if j >= word.len() + 2 {
            assert(value[j - word.len() - 2] == c);
        }
    }
}

/// The first `c` in `a`, `c`, `b` is the one after `a` when `a` has none.
proof fn chars_before_concat(a: Seq<char>, c: char, b: Seq<char>)
    requires
        !a.contains(c),
    ensures
        chars_before(a + seq![c] + b, c) == a.len(),
    decreases a.len(),
{
    if a.len() > 0 {
        assert(a[0] != c);
        assert(!a.drop_first().contains(c)) by {
            if a.drop_first().contains(c) {
                let k = choose|k: int| 0 <= k < a.drop_first().len() && a.drop_first()[k] == c;
                assert(a[k + 1] == c);
            }
        }
        chars_before_concat(a.drop_first(), c, b);
        assert((a + seq![c] + b).drop_first() =~= a.drop_first() + seq![c] + b);
    } else {
        assert((a + seq![c] + b)[0] == c);
    }
}

/// A style text starting with a whole line is that line followed by the rest.
proof fn style_applied_first_line(theme: Theme, line: Seq<char>, rest: Seq<char>)
    requires
        !line.contains('\n'),
    ensures
        style_applied(theme, line + seq!['\n'] + rest) == style_applied(line_applied(theme, line), rest),
{
    let content = line + seq!['\n'] + rest;
    chars_before_concat(line, '\n', rest);
    assert(content.subrange(0, line.len() as int) =~= line);
    assert(content.subrange(line.len() + 1 as int, content.len() as int) =~= rest);
}

/// A style text of one line is that line.
proof fn style_applied_only_line(theme: Theme, line: Seq<char>)
    requires
        !line.contains('\n'),
    ensures
        style_applied(theme, line) == line_applied(theme, line),
{
    chars_before_concat(line, '\n', Seq::empty());
    chars_before_bounds(line, '\n');
    assert(line.subrange(0, line.len() as int) =~= line);
}

/// Reading two texts joined by a line break is reading the first, then the
/// second.
proof fn style_applied_split(theme: Theme, a: Seq<char>, b: Seq<char>)
    ensures
        style_applied(theme, a + seq!['\n'] + b) == style_applied(style_applied(theme, a), b),
    decreases a.len(),
{
    let k = chars_before(a, '\n');
    chars_before_bounds(a, '\n');
    if k == a.len() {
        style_applied_first_line(theme, a, b);
        style_applied_only_line(theme, a);
    } else {
        let first = a.subrange(0, k as int);
        let rest = a.subrange(k + 1 as int, a.len() as int);
        assert(!first.contains('\n')) by {
            if first.contains('\n') {
                let j = choose|j: int| 0 <= j < first.len() && first[j] == '\n';
                assert(a[j] == '\n');
            }
        }
        assert(a =~= first + seq!['\n'] + rest);
        assert(a + seq!['\n'] + b =~= first + seq!['\n'] + (rest + seq!['\n'] + b));
        style_applied_first_line(theme, first, rest + seq!['\n'] + b);
        style_applied_first_line(theme, first, rest);
        style_applied_split(line_applied(theme, first), rest, b);
    }
}

/// Joining one line more adds a line break and that line.
proof fn joined_push(lines: Seq<Seq<char>>, j: int)
    requires
        1 <= j < lines.len(),
    ensures
        joined(lines.take(j + 1)) == joined(lines.take(j)) + seq!['\n'] + lines[j],
{
    let s = lines.take(j + 1);
    assert(s.drop_last() =~= lines.take(j));
    assert(s.last() == lines[j]);
}

/// The section header `[Colors]` changes no colour.
proof fn header_line_keeps(theme: Theme)
    ensures
        line_applied(theme, "[Colors]"@) == theme,
        !"[Colors]"@.contains('\n'),
{
    reveal_strlit("[Colors]");
    trimmed_keeps_first("[Colors]"@);
}

/// A line `word = value`, with a key free of whitespace at its ends and of
/// `=`, and a value without `=`, sets the colour that the key names to the
/// colour that the value writes, keeps it when the value writes none, and
/// changes nothing when the key names no colour.
proof fn keyed_line_effect(theme: Theme, word: Seq<char>, value: Seq<char>)
    requires
        word.len() > 0,
        !word.contains('='),
        !value.contains('='),
        !is_space(word[0]),
        !is_space(word.last()),
        word[0] != '#',
        word[0] != '[',
    ensures
        line_applied(theme, style_line(word, value)) == match slot_named(lowered(word)) {
            Some(slot) => theme.with_color(slot, hex_or(value, theme.color(slot))),
            None => theme,
        },
{
    let key = word + seq![' '];
    let line = style_line(word, value);
    assert(line =~= key + seq!['='] + value);
    assert(!key.contains('=')) by {
        if key.contains('=') {
            let j = choose|j: int| 0 <= j < key.len() && key[j] == '=';
            assert(word[j] == '=');
        }
    }
    assert(line[0] == word[0]);
    trimmed_keeps_first(line);
    trimmed_between(key, 0, word.len() as int);
    assert(key.subrange(0, word.len() as int) =~= word);
    trimmed_twice(value);
    style_line_effect(theme, key, value);
}

/// The colours of the default style file come in the order of the theme.
proof fn default_slot_number(i: int)
    requires
        1 <= i < 15,
    ensures
        slot_number(default_slot(i)) == i,
{
}

/// Each colour of the theme has a line of its own in the default style file:
/// line `slot_number(slot)` sets `slot`.
pub proof fn every_colour_has_a_default_line(slot: ThemeSlot)
    ensures
        1 <= slot_number(slot) < 15,
        default_slot(slot_number(slot)) == slot,
{
}

/// The default style file with the value of line `k` replaced by `value`.
pub open spec fn edited_default_lines(k: int, value: Seq<char>) -> Seq<Seq<char>> {
    default_lines().update(k, style_line(default_word(k), value))
}

/// The default colours with the colour of line `k` taken from `value`.
pub open spec fn edited_default_theme(k: int, value: Seq<char>) -> Theme {
    initial_theme().with_color(default_slot(k), hex_or(value, initial_theme().color(default_slot(k))))
}

/// Reading the first `j` lines of the edited default file gives the default
/// colours until line `k` is read, and the edited colours from then on.
#[verifier::spinoff_prover]
#[verifier::rlimit(40)]
proof fn edited_prefix(k: int, value: Seq<char>, j: int)
    requires
        1 <= k < 15,
        !value.contains('='),
        !value.contains('\n'),
        1 <= j <= 15,
    ensures
        style_applied(initial_theme(), joined(edited_default_lines(k, value).take(j))) == if j > k {
            edited_default_theme(k, value)
        } else {
            initial_theme()
        },
    decreases j,
{
    let lines = edited_default_lines(k, value);
    let t0 = initial_theme();
    if j == 1 {
        assert(lines.take(1) =~= seq!["[Colors]"@]);
        header_line_keeps(t0);
        style_applied_only_line(t0, "[Colors]"@);
    } else {
        let i = j - 1;
        edited_prefix(k, value, i);
        let before = style_applied(t0, joined(lines.take(i)));
        joined_push(lines, i);
        style_applied_split(t0, joined(lines.take(i)), lines[i]);
        default_entry_facts(i);
        default_entry_facts(k);
        if i == k {
            style_line_lacks(default_word(k), value, '\n');
            style_applied_only_line(before, lines[i]);
            keyed_line_effect(before, default_word(k), value);
        } else {
            let slot = default_slot(i);
            style_line_lacks(default_word(i), default_value(i), '\n');
            style_applied_only_line(before, lines[i]);
            keyed_line_effect(before, default_word(i), default_value(i));
            assert(hex_or(default_value(i), before.color(slot)) == t0.color(slot));
            default_slot_number(i);
            default_slot_number(k);
            with_color_facts(t0, default_slot(k), hex_or(value, t0.color(default_slot(k))));
            with_color_facts(before, slot, before.color(slot));
        }
    }
}

/// Changing the value of one colour line of the default style file changes
/// that colour alone: reading the file back gives the default colours with
/// the colour of that line taken from the new value, or kept when the new
/// value writes no colour.
pub proof fn edited_default_style_sets_one_colour(k: int, value: Seq<char>)
    requires
        1 <= k < 15,
        !value.contains('='),
        !value.contains('\n'),
    ensures
        style_applied(initial_theme(), joined(edited_default_lines(k, value))) == edited_default_theme(k, value),
{
    edited_prefix(k, value, 15);
    assert(edited_default_lines(k, value).take(15) =~= edited_default_lines(k, value));
}

/// The style file written on the first run reproduces the default colours:
/// reading it back changes none of them.
pub proof fn default_style_keeps_default_theme()
    ensures
        style_applied(initial_theme(), default_style()) == initial_theme(),
{
    default_entry_facts(1);
    edited_default_style_sets_one_colour(1, default_value(1));
    assert(edited_default_lines(1, default_value(1)) =~= default_lines());
    with_color_facts(initial_theme(), default_slot(1), initial_theme().color(default_slot(1)));
}

/// A style line `key = value` that is no comment sets the colour of a known
/// key to the colour written by the value, keeps it when the value is no
/// colour, and changes nothing for an unknown key; no other colour changes.
pub proof fn style_line_effect(theme: Theme, key: Seq<char>, value: Seq<char>)
    requires
        !key.contains('='),
        !value.contains('='),
        !(trimmed(key + seq!['='] + value).len() > 0 && (trimmed(key + seq!['='] + value)[0] == '#'
            || trimmed(key + seq!['='] + value)[0] == '[')),
    ensures
        ({
            let line = key + seq!['='] + value;
            match slot_named(lowered(trimmed(key))) {
                Some(slot) => line_applied(theme, line) == theme.with_color(
                    slot,
                    match hex_color_of(trimmed(trimmed(value))) {
                        Some(t) => Rgba { r: t.0, g: t.1, b: t.2, a: t.3 },
                        None => theme.color(slot),
                    },
                ),
                None => line_applied(theme, line) == theme,
            }
        }),
{
    let line = key + seq!['='] + value;
    chars_before_concat(key, '=', value);
    assert(line.subrange(0, key.len() as int) =~= key);
    assert(line.subrange(key.len() + 1 as int, line.len() as int) =~= value);
}

} // verus!
