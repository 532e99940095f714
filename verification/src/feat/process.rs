//! Commands that the rule script is run with: their words, how long they may
//! take, and what they leave behind.

use crate::constants::timing::{ELEVATION_POLL_MS, ELEVATION_TIMEOUT_SECS};
use vstd::prelude::*;
use vstd::utf8::{decode_utf8, encode_utf8, valid_utf8};

verus! {

/// A command that runs the rule script: `program`, its `options`, the path of
/// the script, and the arguments of the script.
pub struct CommandLine {
    pub program: String,
    pub options: Vec<String>,
    pub script_args: Vec<String>,
}

/// The words of a command.
#[verifier::ext_equal]
pub struct CommandView {
    pub program: Seq<char>,
    pub options: Seq<Seq<char>>,
    pub script_args: Seq<Seq<char>>,
}

impl View for CommandLine {
    type V = CommandView;

    open spec fn view(&self) -> CommandView {
        CommandView {
            program: self.program@,
            options: self.options.deep_view(),
            script_args: self.script_args.deep_view(),
        }
    }
}

impl CommandView {
    /// All words of the command, for a script at the given path.
    pub open spec fn words(self, script: Seq<char>) -> Seq<Seq<char>> {
        seq![self.program] + self.options + seq![script] + self.script_args
    }
}

/// What a command left behind: its exit code, missing if a signal ended it, and
/// what it wrote, byte for byte.
pub struct CommandOutput {
    pub code: Option<i32>,
    pub stdout: Vec<u8>,
    pub stderr: Vec<u8>,
}

/// Whether an exit code means success.
pub open spec fn success(code: Option<i32>) -> bool {
    code == Some(0i32)
}

/// Whether an exit code means success.
pub fn exited_well(code: Option<i32>) -> (yes: bool)
    ensures
        yes == success(code),
        yes <==> code == Some(0i32),
{
    match code {
        Some(code) => code == 0,
        None => false,
    }
}

/// What to do about a running command.
#[derive(Clone, Copy, Debug, PartialEq, Eq, Structural)]
pub enum Poll {
    /// It is over: read its pipes.
    Collect,
    /// It took too long: kill it.
    GiveUp,
    /// Look again after this many milliseconds.
    Sleep(u64),
}

/// Decides what to do about a command that was started `elapsed_nanos` ago. One
/// that is over is always read; one that still runs after the time allowed for
/// the elevation prompt is given up.
pub fn poll_elevated(exited: bool, elapsed_nanos: u128) -> (next: Poll)
    ensures
        next == if exited {
            Poll::Collect
        } else if elapsed_nanos > ELEVATION_TIMEOUT_SECS * 1_000_000_000 {
            Poll::GiveUp
        } else {
            Poll::Sleep(ELEVATION_POLL_MS)
        },
        next == Poll::Collect <==> exited,
        next == Poll::GiveUp <==> !exited && elapsed_nanos > 120_000_000_000,
        next == Poll::Sleep(200) <==> !exited && elapsed_nanos <= 120_000_000_000,
{
    if exited {
        Poll::Collect
    } else if elapsed_nanos > ELEVATION_TIMEOUT_SECS as u128 * 1_000_000_000 {
        Poll::GiveUp
    } else {
        Poll::Sleep(ELEVATION_POLL_MS)
    }
}

/// `String::from_utf8` gives the text that the bytes encode, and fails exactly
/// if they are not valid UTF-8.
#[verifier::external_body]
fn decode(bytes: Vec<u8>) -> (text: Option<String>)
    ensures
        match text {
            Some(text) => valid_utf8(bytes@) && text@ == decode_utf8(bytes@),
            None => !valid_utf8(bytes@),
        },
{
    String::from_utf8(bytes).ok()
}

/// The text that bytes encode, or nothing if they are not valid UTF-8.
pub open spec fn drained(bytes: Seq<u8>) -> Seq<char> {
    if valid_utf8(bytes) {
        decode_utf8(bytes)
    } else {
        Seq::empty()
    }
}

/// The text that came through a pipe: empty if there is no pipe, or if what
/// came is not valid UTF-8.
pub fn drain_pipe(pipe: Option<Vec<u8>>) -> (text: String)
    ensures
        text@ == match pipe {
            Some(bytes) => drained(bytes@),
            None => Seq::empty(),
        },
        pipe matches Some(bytes) ==> text@ == if valid_utf8(bytes@) {
            decode_utf8(bytes@)
        } else {
            Seq::empty()
        },
{
    match pipe {
        Some(bytes) => match decode(bytes) {
            Some(text) => text,
            None => String::new(),
        },
        None => String::new(),
    }
}

/// The bytes that came through a pipe: none if there is no pipe.
pub open spec fn piped(pipe: Option<Vec<u8>>) -> Seq<u8> {
    match pipe {
        Some(bytes) => bytes@,
        None => Seq::empty(),
    }
}

/// What a command left behind, from its exit code and its two pipes. The bytes
/// are kept as they were written, whether or not they are text.
pub fn collect_output(
    code: Option<i32>,
    stdout: Option<Vec<u8>>,
    stderr: Option<Vec<u8>>,
) -> (output: CommandOutput)
    ensures
        output.code == code,
        output.stdout@ == piped(stdout),
        output.stderr@ == piped(stderr),
        stdout matches Some(bytes) ==> output.stdout@ == bytes@,
        stdout is None ==> output.stdout@.len() == 0,
        stderr matches Some(bytes) ==> output.stderr@ == bytes@,
        stderr is None ==> output.stderr@.len() == 0,
{
    CommandOutput {
        code,
        stdout: match stdout {
            Some(bytes) => bytes,
            None => Vec::new(),
        },
        stderr: match stderr {
            Some(bytes) => bytes,
            None => Vec::new(),
        },
    }
}

/// The text that `String::from_utf8_lossy` makes of bytes.
pub uninterp spec fn lossy(bytes: Seq<u8>) -> Seq<char>;

/// `String::from_utf8_lossy` gives the text that the bytes encode if they are
/// valid UTF-8. For other bytes its result depends on them alone; which
/// replacement characters it puts in is not said here.
#[verifier::external_body]
pub(crate) fn decode_lossy(bytes: &Vec<u8>) -> (text: String)
    ensures
        text@ == lossy(bytes@),
        valid_utf8(bytes@) ==> text@ == decode_utf8(bytes@),
{
    String::from_utf8_lossy(bytes).into_owned()
}

/// Only exit code 0 is a success: no other code is, and neither is an end by a
/// signal.
pub proof fn law_only_zero_succeeds(code: i32)
    ensures
        success(Some(code)) <==> code == 0,
        !success(None),
{
}

/// A pipe gives back any text that was written to it, and nothing of bytes that
/// are no text's.
pub proof fn law_drained(text: Seq<char>, bytes: Seq<u8>)
    ensures
        drained(encode_utf8(text)) == text,
        (forall|other: Seq<char>| #[trigger] encode_utf8(other) != bytes) ==> drained(bytes)
            == Seq::<char>::empty(),
{
    vstd::utf8::encode_utf8_valid_utf8(text);
    vstd::utf8::encode_utf8_decode_utf8(text);
    if valid_utf8(bytes) {
        vstd::utf8::decode_utf8_encode_utf8(bytes);
    }
}

/// Bytes come through a pipe unchanged, and none come without one.
pub proof fn law_piped(pipe: Vec<u8>)
    ensures
        piped(Some(pipe)) == pipe@,
        piped(None).len() == 0,
{
}

} // verus!
