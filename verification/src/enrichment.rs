//! The record that the editor's session source reports, and when to ask for it.

use vstd::prelude::*;
use vstd::string::StringExecFns;

verus! {

/// What the session source says of the file that is open in the editor.
#[derive(Debug)]
pub struct FileInfo {
    pub file_name: String,
    pub extension: String,
    pub full_path: String,
    pub language_id: String,
    pub line_count: u32,
    pub word_count: u32,
    pub timestamp: u64,
}

impl Clone for FileInfo {
    fn clone(&self) -> (r: Self)
        ensures
            r == *self,
    {
        FileInfo {
            file_name: self.file_name.clone(),
            extension: self.extension.clone(),
            full_path: self.full_path.clone(),
            language_id: self.language_id.clone(),
            line_count: self.line_count,
            word_count: self.word_count,
            timestamp: self.timestamp,
        }
    }
}

/// The port on which the editor's session source listens.
pub const VSCODE_PORT: u16 = 3847;

/// How long the connection to the session source may take, in milliseconds.
pub const CONNECT_TIMEOUT_MS: u64 = 3000;

/// How long the one message of the session source may take, in milliseconds.
pub const MESSAGE_TIMEOUT_MS: u64 = 2000;

/// The character of a decimal digit.
pub open spec fn digit_char(digit: nat) -> char {
    "0123456789"@[digit as int]
}

/// A number in decimal, without leading zeros.
pub open spec fn decimal(n: nat) -> Seq<char>
    decreases n,
{
    if n < 10 {
        seq![digit_char(n)]
    } else {
        decimal(n / 10).push(digit_char(n % 10))
    }
}

/// The address of the session source on this machine.
pub open spec fn session_endpoint_spec(port: u16) -> Seq<char> {
    "ws://localhost:"@ + decimal(port as nat)
}

/// The text of one decimal digit.
fn digit_text(digit: u16) -> (text: &'static str)
    requires
        digit < 10,
    ensures
        text@ == seq![digit_char(digit as nat)],
{
    proof {
        reveal_strlit("0123456789");
        reveal_strlit("0");
        reveal_strlit("1");
        reveal_strlit("2");
        reveal_strlit("3");
        reveal_strlit("4");
        reveal_strlit("5");
        reveal_strlit("6");
        reveal_strlit("7");
        reveal_strlit("8");
        reveal_strlit("9");
    }
    let text = if digit == 0 {
        "0"
    } else if digit == 1 {
        "1"
    } else if digit == 2 {
        "2"
    } else if digit == 3 {
        "3"
    } else if digit == 4 {
        "4"
    } else if digit == 5 {
        "5"
    } else if digit == 6 {
        "6"
    } else if digit == 7 {
        "7"
    } else if digit == 8 {
        "8"
    } else {
        "9"
    };
    assert(text@ =~= seq![digit_char(digit as nat)]);
    text
}

/// Writes a number in decimal behind a text.
fn append_decimal(text: String, n: u16) -> (extended: String)
    ensures
        extended@ == text@ + decimal(n as nat),
    decreases n,
{
    if n < 10 {
        text.concat(digit_text(n))
    } else {
        let head = append_decimal(text, n / 10);
        let extended = head.concat(digit_text(n % 10));
        assert(extended@ =~= text@ + decimal(n as nat));
        extended
    }
}

/// The address at which the session source is asked for its record.
pub fn session_endpoint(port: u16) -> (url: String)
    ensures
        url@ == session_endpoint_spec(port),
{
    append_decimal(String::from_str("ws://localhost:"), port)
}

/// The session source is due to be asked: it has never answered, or its last
/// answer is more than `interval_ms` old. A clock that reads earlier than the
/// last answer makes it due.
pub open spec fn enrichment_due_spec(last_check: Option<u64>, now: u64, interval_ms: u64) -> bool {
    match last_check {
        None => true,
        Some(last) => now < last || now - last > interval_ms,
    }
}

/// Tells whether the session source is due to be asked at time `now`.
pub fn enrichment_due(last_check: Option<u64>, now: u64, interval_ms: u64) -> (due: bool)
    ensures
        due == enrichment_due_spec(last_check, now, interval_ms),
{
    match last_check {
        None => true,
        Some(last) => now < last || now - last > interval_ms,
    }
}

} // verus!
