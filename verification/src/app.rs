//! The application state machine: mode switching, selection tracking,
//! message commitment, and dispatch of the committed message to the
//! selected transform.
use vstd::prelude::*;
use crate::base64::{base64_decode, base64_decode_std, base64_encode_std, base64_encode,
    spec_b64_decode_bytes, spec_b64_encode, valid_b64};
use crate::digest::{compute_md5, md5_of};
use crate::hexcode::{hex_to_string, spec_hex_bytes, spec_hex_encode, string_to_hex, valid_hex};
use crate::html::{decode_html_string, encode_html_string, html_decoded, spec_html_encode};
use crate::input::{EditEvent, InputBuffer, spec_edit_cursor, spec_edit_text};
use crate::json::{json_pretty, pretty_json_from_string};
use crate::selection::Selection;
use crate::text::bytes_to_string_lossy;
use crate::text::lossy_decode;
use vstd::string::StringExecFns;
use vstd::utf8::encode_utf8;

verus! {

/// How many operations the tool offers.
pub const OPERATION_COUNT: usize = 10;

/// The input mode: keys navigate in `Normal` and edit text in `Editing`.
#[derive(Clone, Copy, Debug, PartialEq, Eq, Structural)]
pub enum InputMode {
    /// Keys pick an operation or quit the tool; the initial mode.
    Normal,
    /// Keys edit the input buffer.
    Editing,
}

/// One key press, as the state machine sees it.
#[derive(Clone, Copy, Debug, PartialEq, Eq, Structural)]
pub enum Key {
    /// A printable character was typed.
    Char(char),
    /// The arrow up key.
    Up,
    /// The arrow down key.
    Down,
    /// The enter key.
    Enter,
    /// The escape key.
    Esc,
    /// The backspace key.
    Backspace,
    /// The delete key.
    Delete,
    /// The arrow left key.
    Left,
    /// The arrow right key.
    Right,
    /// The home key.
    Home,
    /// The end key.
    End,
    /// Any other key.
    Other,
}

/// The state of the tool as the contracts see it.
#[verifier::ext_equal]
pub struct AppView {
    /// The current input mode.
    pub mode: InputMode,
    /// The characters of the input buffer.
    pub text: Seq<char>,
    /// The cursor offset inside the input buffer.
    pub cursor: nat,
    /// The committed message awaiting dispatch.
    pub message: Seq<char>,
    /// The operation id captured at the last submission.
    pub id: nat,
    /// How many operations the list offers.
    pub sel_len: nat,
    /// The highlighted operation index.
    pub sel: nat,
}

/// The whole state of the tool: the input buffer, the current mode, the
/// committed message, the operation id captured at submission, and the
/// highlighted operation.
#[derive(Debug)]
pub struct App {
    /// The in-progress text being typed.
    pub input: InputBuffer,
    /// The current input mode.
    pub input_mode: InputMode,
    /// The committed message awaiting dispatch.
    pub message: String,
    /// The operation id captured at the last submission.
    pub id: usize,
    /// The highlighted operation of the fixed list.
    pub selection: Selection,
}

impl View for App {
    type V = AppView;

    open spec fn view(&self) -> AppView {
        AppView {
            mode: self.input_mode,
            text: self.input.chars@,
            cursor: self.input.cursor as nat,
            message: self.message@,
            id: self.id as nat,
            sel_len: self.selection.len as nat,
            sel: self.selection.selected as nat,
        }
    }
}

/// True when the key press ends the tool: the quit key works in `Normal`
/// mode alone; in `Editing` mode the same character is text.
pub open spec fn spec_quits(v: AppView, key: Key) -> bool {
    v.mode is Normal && key == Key::Char('q')
}

/// The state after one key press.
pub open spec fn spec_step(v: AppView, key: Key) -> AppView {
    match v.mode {
        InputMode::Normal => match key {
            Key::Char(c) => if c == 'e' {
                AppView { mode: InputMode::Editing, text: Seq::empty(), cursor: 0, ..v }
            } else {
                v
            },
            Key::Down => AppView {
                sel: if v.sel + 1 < v.sel_len {
                    v.sel + 1
                } else {
                    v.sel
                },
                ..v
            },
            Key::Up => AppView {
                sel: if v.sel > 0 {
                    (v.sel - 1) as nat
                } else {
                    0
                },
                ..v
            },
            _ => v,
        },
        InputMode::Editing => match key {
            Key::Enter => AppView { message: v.message + v.text, id: v.sel, ..v },
            Key::Esc => AppView {
                mode: InputMode::Normal,
                text: Seq::empty(),
                cursor: 0,
                message: Seq::empty(),
                id: 0,
                ..v
            },
            Key::Char(c) => spec_edited(v, EditEvent::Insert(c)),
            Key::Backspace => spec_edited(v, EditEvent::Backspace),
            Key::Delete => spec_edited(v, EditEvent::Delete),
            Key::Left => spec_edited(v, EditEvent::Left),
            Key::Right => spec_edited(v, EditEvent::Right),
            Key::Home => spec_edited(v, EditEvent::Home),
            Key::End => spec_edited(v, EditEvent::End),
            _ => v,
        },
    }
}

/// The state after one edit action on the input buffer.
pub open spec fn spec_edited(v: AppView, ev: EditEvent) -> AppView {
    AppView {
        text: spec_edit_text(v.text, v.cursor, ev),
        cursor: spec_edit_cursor(v.text, v.cursor, ev),
        ..v
    }
}

/// The output pane's text for a committed message under an operation id.
pub open spec fn spec_output(id: int, msg: Seq<char>) -> Seq<char> {
    if id == 0 {
        spec_hex_encode(md5_of(encode_utf8(msg)))
    } else if id == 1 {
        spec_b64_encode(encode_utf8(msg), false)
    } else if id == 2 {
        if valid_b64(msg, false) {
            lossy_decode(spec_b64_decode_bytes(msg, false))
        } else {
            "Error in Base64 decoding"@
        }
    } else if id == 3 {
        spec_b64_encode(encode_utf8(msg), true)
    } else if id == 4 {
        if valid_b64(msg, true) {
            lossy_decode(spec_b64_decode_bytes(msg, true))
        } else {
            "Error in Base64 URL decoding"@
        }
    } else if id == 5 {
        match json_pretty(msg) {
            Some(p) => p,
            None => "Error in JSON parsing"@,
        }
    } else if id == 6 {
        spec_html_encode(msg)
    } else if id == 7 {
        html_decoded(msg)
    } else if id == 8 {
        spec_hex_encode(encode_utf8(msg))
    } else if id == 9 {
        if valid_hex(msg) {
            lossy_decode(spec_hex_bytes(msg))
        } else {
            "Error in Hex decoding"@
        }
    } else {
        msg
    }
}

/// The output pane's title for a committed message under an operation id:
/// a short label of the operation, suppressed when it failed or when the id
/// names no operation.
pub open spec fn spec_title(id: int, msg: Seq<char>) -> Seq<char> {
    if id == 0 {
        " MD5"@
    } else if id == 1 {
        " base64_encode"@
    } else if id == 2 {
        if valid_b64(msg, false) {
            " base64_decode"@
        } else {
            Seq::empty()
        }
    } else if id == 3 {
        " base64_url_encode"@
    } else if id == 4 {
        if valid_b64(msg, true) {
            " base64_url_decode"@
        } else {
            Seq::empty()
        }
    } else if id == 5 {
        if json_pretty(msg) is Some {
            " pretty_json"@
        } else {
            Seq::empty()
        }
    } else if id == 6 {
        " HTML Encode"@
    } else if id == 7 {
        " HTML Decode"@
    } else if id == 8 {
        " String to Hex"@
    } else if id == 9 {
        if valid_hex(msg) {
            " Hex to String"@
        } else {
            Seq::empty()
        }
    } else {
        Seq::empty()
    }
}

/// True when dispatching under this id consumes the committed message; an
/// id that names no operation passes the message through and keeps it.
pub open spec fn spec_consumes(id: int) -> bool {
    0 <= id <= 9
}

impl App {
    /// Well-formed: the buffer's cursor and the highlight are in range, and
    /// the list offers all operations.
    pub open spec fn inv(self) -> bool {
        &&& self.input.inv()
        &&& self.selection.inv()
        &&& self.selection.len == OPERATION_COUNT
    }

    /// A fresh state: normal mode, empty buffer, empty message, the first
    /// operation highlighted.
    pub fn new() -> (r: App)
        ensures
            r.inv(),
            (r@.mode is Normal),
            r@.text == Seq::<char>::empty(),
            r@.cursor == 0,
            r@.message == Seq::<char>::empty(),
            r@.id == 0,
            r@.sel_len == OPERATION_COUNT,
            r@.sel == 0,
    {
        App {
            input: InputBuffer::new(),
            input_mode: InputMode::Normal,
            message: String::new(),
            id: 0,
            selection: Selection::new(OPERATION_COUNT),
        }
    }

    /// Enters editing mode with a fresh input buffer.
    pub fn start_editing(&mut self)
        requires
            old(self).inv(),
        ensures
            final(self).inv(),
            final(self)@ =~= (AppView {
                mode: InputMode::Editing,
                text: Seq::empty(),
                cursor: 0,
                ..old(self)@
            }),
    {
        self.input.reset();
        self.input_mode = InputMode::Editing;
    }

    /// Leaves editing mode, dropping the buffer, the committed message and
    /// the captured operation id.
    pub fn stop_editing(&mut self)
        requires
            old(self).inv(),
        ensures
            final(self).inv(),
            final(self)@ =~= (AppView {
                mode: InputMode::Normal,
                text: Seq::empty(),
                cursor: 0,
                message: Seq::empty(),
                id: 0,
                ..old(self)@
            }),
    {
        self.input.reset();
        self.message = String::new();
        self.id = 0;
        self.input_mode = InputMode::Normal;
    }

    /// Commits the buffer: appends its text to the committed message and
    /// captures the highlighted operation id; the buffer and mode stay.
    pub fn push_message(&mut self)
        requires
            old(self).inv(),
        ensures
            final(self).inv(),
            final(self)@ =~= (AppView {
                message: old(self)@.message + old(self)@.text,
                id: old(self)@.sel,
                ..old(self)@
            }),
    {
        let val = self.input.value();
        self.message.append(val.as_str());
        self.id = self.selection.selected();
    }

    /// Feeds one key press to the state machine and says whether the tool
    /// should quit: the quit key quits in `Normal` mode alone.
    pub fn handle_key(&mut self, key: Key) -> (quit: bool)
        requires
            old(self).inv(),
        ensures
            final(self).inv(),
            final(self)@ == spec_step(old(self)@, key),
            quit == spec_quits(old(self)@, key),
    {
        let quit: bool;
        match self.input_mode {
            InputMode::Normal => {
                match key {
                    Key::Char(c) => {
                        if c == 'e' {
                            self.start_editing();
                        }
                        quit = c == 'q';
                    },
                    Key::Down => {
                        self.selection.next();
                        quit = false;
                    },
                    Key::Up => {
                        self.selection.previous();
                        quit = false;
                    },
                    _ => {
                        quit = false;
                    },
                }
            },
            InputMode::Editing => {
                match key {
                    Key::Enter => self.push_message(),
                    Key::Esc => self.stop_editing(),
                    Key::Char(c) => self.input.handle_edit(EditEvent::Insert(c)),
                    Key::Backspace => self.input.handle_edit(EditEvent::Backspace),
                    Key::Delete => self.input.handle_edit(EditEvent::Delete),
                    Key::Left => self.input.handle_edit(EditEvent::Left),
                    Key::Right => self.input.handle_edit(EditEvent::Right),
                    Key::Home => self.input.handle_edit(EditEvent::Home),
                    Key::End => self.input.handle_edit(EditEvent::End),
                    _ => {},
                }
                quit = false;
            },
        }
        proof {
            assert(self@ =~= spec_step(old(self)@, key));
        }
        quit
    }

    /// Dispatches a committed message to the transform under the captured
    /// operation id, filling the output pane's text and title.
    ///
    /// An empty message leaves everything unchanged. Otherwise the output
    /// and the title follow the operation; the committed message is
    /// consumed, except under an id that names no operation, where the
    /// message passes through unchanged and stays.
    pub fn process_input(&mut self, message: String, process_msg: &mut String, title_msg: &mut String)
        requires
            old(self).inv(),
        ensures
            final(self).inv(),
            message@.len() == 0 ==> final(self)@ == old(self)@ && final(process_msg)@ == old(
                process_msg,
            )@ && final(title_msg)@ == old(title_msg)@,
            message@.len() > 0 ==> final(process_msg)@ == spec_output(
                old(self)@.id as int,
                message@,
            ),
            message@.len() > 0 ==> final(title_msg)@ == spec_title(old(self)@.id as int, message@),
            message@.len() > 0 ==> final(self)@ =~= (AppView {
                message: if spec_consumes(old(self)@.id as int) {
                    Seq::<char>::empty()
                } else {
                    old(self)@.message
                },
                ..old(self)@
            }),
    {
        if message.as_str().is_empty() {
            return ;
        }
        if self.id == 0 {
            *process_msg = compute_md5(message);
            *title_msg = String::from_str(" MD5");
            self.message = String::new();
        } else if self.id == 1 {
            *process_msg = base64_encode_std(message.as_str().as_bytes());
            *title_msg = String::from_str(" base64_encode");
            self.message = String::new();
        } else if self.id == 2 {
            match base64_decode_std(message.as_str()) {
                Ok(decoded) => {
                    *process_msg = bytes_to_string_lossy(&decoded);
                    *title_msg = String::from_str(" base64_decode");
                },
                Err(_) => {
                    *process_msg = String::from_str("Error in Base64 decoding");
                    *title_msg = String::new();
                },
            }
            self.message = String::new();
        } else if self.id == 3 {
            *process_msg = base64_encode(message.as_str().as_bytes());
            *title_msg = String::from_str(" base64_url_encode");
            self.message = String::new();
        } else if self.id == 4 {
            match base64_decode(message.as_str()) {
                Ok(decoded) => {
                    *process_msg = bytes_to_string_lossy(&decoded);
                    *title_msg = String::from_str(" base64_url_decode");
                },
                Err(_) => {
                    *process_msg = String::from_str("Error in Base64 URL decoding");
                    *title_msg = String::new();
                },
            }
            self.message = String::new();
        } else if self.id == 5 {
            match pretty_json_from_string(message.as_str()) {
                Ok(pretty) => {
                    *process_msg = pretty;
                    *title_msg = String::from_str(" pretty_json");
                },
                Err(_) => {
                    *process_msg = String::from_str("Error in JSON parsing");
                    *title_msg = String::new();
                },
            }
            self.message = String::new();
        } else if self.id == 6 {
            *process_msg = encode_html_string(message);
            *title_msg = String::from_str(" HTML Encode");
            self.message = String::new();
        } else if self.id == 7 {
            *process_msg = decode_html_string(message);
            *title_msg = String::from_str(" HTML Decode");
            self.message = String::new();
        } else if self.id == 8 {
            *process_msg = string_to_hex(message.as_str());
            *title_msg = String::from_str(" String to Hex");
            self.message = String::new();
        } else if self.id == 9 {
            match hex_to_string(message.as_str()) {
                Ok(text) => {
                    *process_msg = text;
                    *title_msg = String::from_str(" Hex to String");
                },
                Err(_) => {
                    *process_msg = String::from_str("Error in Hex decoding");
                    *title_msg = String::new();
                },
            }
            self.message = String::new();
        } else {
            *process_msg = message;
            *title_msg = String::new();
        }
    }
}

/// The display label of an operation; ids that name no operation get an
/// empty label.
pub open spec fn spec_operation_label(id: int) -> Seq<char> {
    if id == 0 {
        "0. MD5 HASH"@
    } else if id == 1 {
        "1. Base64 Encode"@
    } else if id == 2 {
        "2. Base64 Decode"@
    } else if id == 3 {
        "3. Base64-EncodeURL"@
    } else if id == 4 {
        "4. Base64-DecodeURL"@
    } else if id == 5 {
        "5. Pretty Json"@
    } else if id == 6 {
        "6. HTML Encode"@
    } else if id == 7 {
        "7. HTML Decode"@
    } else if id == 8 {
        "8. String to Hex"@
    } else if id == 9 {
        "9. Hex to String"@
    } else {
        Seq::empty()
    }
}

/// The display label of an operation.
pub fn operation_label(id: usize) -> (r: String)
    ensures
        r@ == spec_operation_label(id as int),
{
    if id == 0 {
        String::from_str("0. MD5 HASH")
    } else if id == 1 {
        String::from_str("1. Base64 Encode")
    } else if id == 2 {
        String::from_str("2. Base64 Decode")
    } else if id == 3 {
        String::from_str("3. Base64-EncodeURL")
    } else if id == 4 {
        String::from_str("4. Base64-DecodeURL")
    } else if id == 5 {
        String::from_str("5. Pretty Json")
    } else if id == 6 {
        String::from_str("6. HTML Encode")
    } else if id == 7 {
        String::from_str("7. HTML Decode")
    } else if id == 8 {
        String::from_str("8. String to Hex")
    } else if id == 9 {
        String::from_str("9. Hex to String")
    } else {
        String::new()
    }
}

/// Law: the tool quits exactly on the quit key in `Normal` mode; the same
/// key pressed in `Editing` mode does not quit, and a quitting key press
/// leaves the state unchanged.
pub proof fn lemma_quit_only_from_normal(v: AppView, key: Key)
    ensures
        spec_quits(v, key) <==> (v.mode is Normal && key == Key::Char('q')),
        (v.mode is Editing) ==> !spec_quits(v, key),
        spec_quits(v, key) ==> spec_step(v, key) == v,
{
}

} // verus!
