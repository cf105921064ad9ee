//! The native-messaging host that the browser addon talks to: it reads one
//! framed JSON message, decides what the message asks for, and frames the
//! JSON answer.

use vstd::prelude::*;
use crate::frame::{Endian, MAX_MESSAGE_BYTES, framed, frame_payload, decode_frame, encode_frame};
use crate::json::{json_string_fields, json_string_literal, opt_view, read_string_fields, write_string_literal, utf8_text};
use crate::number::{signed_decimal, signed_decimal_chars};
use crate::text::{ascii_words, ascii_words_exec, chars_of, starts_with, starts_with_exec, string_of, views};

verus! {

/// What the host reads of the JSON message it receives: the string under its
/// `message` member, and the message itself when it is a JSON string.
pub struct HostMessage {
    pub message: Option<String>,
    pub text: Option<String>,
}

/// Why a received frame could not be read.
#[derive(Debug, PartialEq, Eq, Structural)]
pub enum InputError {
    /// The input ends before the announced number of bytes.
    Truncated,
}

/// The `message` member of a received message, and the message itself when
/// it is a JSON string, each by its characters.
pub type MessageView = (Option<Seq<char>>, Option<Seq<char>>);

/// What reading the frame at the start of `frame` gives, by its view:
/// `Truncated` when the input ends before the announced length; otherwise
/// what serde_json reads of the payload under the key `message`, and `None`
/// when the payload is not JSON.
pub open spec fn input_reading(frame: Seq<u8>, order: Endian) -> Option<
    Result<MessageView, InputError>,
> {
    match frame_payload(frame, order) {
        None => Some(Err(InputError::Truncated)),
        Some(p) => match json_string_fields(p, "message"@) {
            None => None,
            Some(f) => Some(Ok(f)),
        },
    }
}

/// The view of what `read_input` returns.
pub open spec fn input_view(r: Result<HostMessage, InputError>) -> Result<MessageView, InputError> {
    match r {
        Ok(m) => Ok((opt_view(m.message), opt_view(m.text))),
        Err(e) => Err(e),
    }
}

/// The frame at the start of `frame` is either cut short or carries a JSON
/// document.
pub open spec fn readable_frame(frame: Seq<u8>, order: Endian) -> bool {
    input_reading(frame, order) is Some
}

/// Reads the message carried by the frame `frame` (its first four bytes are
/// the length prefix). A frame whose bytes are not JSON is left out: the
/// program stops on it (see `read_input_checked`).
pub fn read_input(frame: &[u8], order: Endian) -> (r: Result<HostMessage, InputError>)
    requires
        frame@.len() >= 4,
        readable_frame(frame@, order),
    ensures
        input_reading(frame@, order) == Some(input_view(r)),
{
    match decode_frame(frame, order) {
        None => Err(InputError::Truncated),
        Some(payload) => match read_string_fields(payload.as_slice(), "message") {
            None => Err(InputError::Truncated),
            Some((message, text)) => Ok(HostMessage { message, text }),
        },
    }
}

/// Reads the message carried by `frame` when its bytes are JSON, and gives
/// `None` when they are not (the case the program stops on).
pub fn read_input_checked(frame: &[u8], order: Endian) -> (r: Option<Result<HostMessage, InputError>>)
    requires
        frame@.len() >= 4,
    ensures
        r is None <==> !readable_frame(frame@, order),
        r matches Some(x) ==> input_reading(frame@, order) == Some(input_view(x)),
{
    match decode_frame(frame, order) {
        None => Some(read_input(frame, order)),
        Some(payload) => match read_string_fields(payload.as_slice(), "message") {
            None => None,
            Some(_) => Some(read_input(frame, order)),
        },
    }
}

/// Reading back the frame that `write_output` makes of the JSON text `json`
/// gives what serde_json reads of `json`'s UTF-8 bytes under the key
/// `message`: the frame is never cut short, it is readable exactly when those
/// bytes are JSON, and then the message read is the member and string that
/// serde_json finds there.
pub proof fn lemma_read_after_write(json: Seq<char>, order: Endian)
    requires
        utf8_bytes(json).len() <= MAX_MESSAGE_BYTES,
    ensures
        frame_payload(framed(utf8_bytes(json), order), order) == Some(utf8_bytes(json)),
        readable_frame(framed(utf8_bytes(json), order), order) <==> json_string_fields(
            utf8_bytes(json),
            "message"@,
        ) is Some,
        input_reading(framed(utf8_bytes(json), order), order) == match json_string_fields(
            utf8_bytes(json),
            "message"@,
        ) {
            None => None,
            Some(f) => Some(Ok::<MessageView, InputError>(f)),
        },
{
    crate::frame::lemma_frame_round_trip(utf8_bytes(json), order);
}

/// The bytes of `text` in UTF-8.
pub open spec fn utf8_bytes(text: Seq<char>) -> Seq<u8> {
    vstd::utf8::encode_utf8(text)
}

/// The JSON text of the answer `message`, sent as a JSON string; serde_json
/// reads it back as `message`.
pub fn answer_json(message: &str) -> (r: String)
    ensures
        r@ == json_string_literal(message@),
        json_string_fields(utf8_bytes(r@), "message"@) == Some(
            (None::<Seq<char>>, Some(message@)),
        ),
{
    write_string_literal(message)
}

/// Frames the JSON text `json`: its length in bytes, then its bytes. A text
/// longer than a browser accepts (`MAX_MESSAGE_BYTES` bytes) is left out:
/// the program stops on it. What it writes reads back as `json`'s bytes.
pub fn write_output(json: &str, order: Endian) -> (r: Vec<u8>)
    requires
        utf8_bytes(json@).len() <= MAX_MESSAGE_BYTES,
    ensures
        r@ == framed(utf8_bytes(json@), order),
        frame_payload(r@, order) == Some(utf8_bytes(json@)),
{
    let bytes = json.as_bytes();
    proof {
        crate::frame::lemma_frame_round_trip(bytes@, order);
    }
    encode_frame(bytes, order)
}

/// What a message asks the host to do.
#[derive(Debug, PartialEq, Eq)]
pub enum HostRequest {
    /// A liveness check.
    Ping,
    /// Install the theme at the given address with the theme manager.
    Install(String),
    /// Install the theme in the given git repository with the theme manager.
    InstallGit(String),
    /// Nothing the host knows.
    Unknown,
}

/// Why a message cannot be understood; the program stops on such a message.
#[derive(Clone, Copy, Debug, PartialEq, Eq, Structural)]
pub enum RequestError {
    /// The message is neither a ping nor a JSON string.
    NotAString,
    /// An install command without the word that follows it.
    MissingArgument,
}

/// What is wrong with a message whose `message` member is `message` and
/// which, as a JSON string, is `text`: nothing for a ping; otherwise it must
/// be a string, and one starting with "DO" or "git" needs a second word.
pub open spec fn request_problem_of(message: Option<Seq<char>>, text: Option<Seq<char>>) -> Option<
    RequestError,
> {
    if message == Some("ping"@) {
        None
    } else {
        match text {
            None => Some(RequestError::NotAString),
            Some(t) => if (starts_with(t, "DO"@) || starts_with(t, "git"@)) && ascii_words(t).len()
                < 2 {
                Some(RequestError::MissingArgument)
            } else {
                None
            },
        }
    }
}

/// A text that starts with `DO` or `git` and has a second word (words being
/// split at ASCII whitespace) is always understood, whatever its `message`
/// member.
pub proof fn lemma_command_with_argument_accepted(message: Option<Seq<char>>, t: Seq<char>)
    requires
        starts_with(t, "DO"@) || starts_with(t, "git"@),
        ascii_words(t).len() >= 2,
    ensures
        request_problem_of(message, Some(t)) is None,
{
}

/// What makes a message a problem: a ping never is; a message that is not a
/// ping is `NotAString` exactly when it is not a JSON string; and a string is
/// `MissingArgument` exactly when it starts with `DO` or `git` and has fewer
/// than two words. Any other string has no problem.
pub proof fn lemma_request_problem_causes(message: Option<Seq<char>>, text: Option<Seq<char>>)
    ensures
        message == Some("ping"@) ==> request_problem_of(message, text) is None,
        request_problem_of(message, text) == Some(RequestError::NotAString) <==> (message != Some(
            "ping"@,
        ) && text is None),
        request_problem_of(message, text) == Some(RequestError::MissingArgument) <==> (message
            != Some("ping"@) && (text matches Some(t) && (starts_with(t, "DO"@) || starts_with(
            t,
            "git"@,
        )) && ascii_words(t).len() < 2)),
        (text matches Some(t) && !starts_with(t, "DO"@) && !starts_with(t, "git"@))
            ==> request_problem_of(message, text) is None,
{
}

fn is_ping(msg: &HostMessage) -> (r: bool)
    ensures
        r == (opt_view(msg.message) == Some("ping"@)),
{
    match &msg.message {
        Some(m) => crate::text::same_chars(&chars_of(m.as_str()), &chars_of("ping")),
        None => false,
    }
}

/// What is wrong with the message `msg` (see `request_problem_of`).
pub fn request_problem(msg: &HostMessage) -> (r: Option<RequestError>)
    ensures
        r == request_problem_of(opt_view(msg.message), opt_view(msg.text)),
{
    if is_ping(msg) {
        return None;
    }
    match &msg.text {
        None => Some(RequestError::NotAString),
        Some(t) => {
            let tc = chars_of(t.as_str());
            if (starts_with_exec(&tc, &chars_of("DO")) || starts_with_exec(&tc, &chars_of("git")))
                && ascii_words_exec(&tc).len() < 2 {
                Some(RequestError::MissingArgument)
            } else {
                None
            }
        },
    }
}

/// The word after the command word of `t`, when there is one.
fn second_word(t: &Vec<char>) -> (r: Option<String>)
    ensures
        ascii_words(t@).len() >= 2 ==> (r matches Some(w) && w@ == ascii_words(t@)[1]),
        ascii_words(t@).len() < 2 ==> r is None,
{
    let words = ascii_words_exec(t);
    if words.len() >= 2 {
        let w = string_of(&words[1]);
        assert(views(words@)[1] == words@[1]@);
        Some(w)
    } else {
        None
    }
}

/// Decides what the message `msg` asks for: a ping when its `message` member
/// is "ping"; otherwise the message is a string, and one that starts with
/// "DO" or "git" names, in its second word, the theme to install. A message
/// with a problem (see `request_problem`) is left out: the program stops on it.
pub fn classify_request(msg: &HostMessage) -> (r: HostRequest)
    requires
        request_problem_of(opt_view(msg.message), opt_view(msg.text)) is None,
    ensures
        opt_view(msg.message) == Some("ping"@) ==> r == HostRequest::Ping,
        opt_view(msg.message) != Some("ping"@) ==> (msg.text matches Some(t) && if starts_with(
            t@,
            "DO"@,
        ) {
            r matches HostRequest::Install(a) && a@ == ascii_words(t@)[1]
        } else if starts_with(t@, "git"@) {
            r matches HostRequest::InstallGit(a) && a@ == ascii_words(t@)[1]
        } else {
            r == HostRequest::Unknown
        }),
{
    if is_ping(msg) {
        return HostRequest::Ping;
    }
    match &msg.text {
        None => HostRequest::Unknown,
        Some(t) => {
            let tc = chars_of(t.as_str());
            if starts_with_exec(&tc, &chars_of("DO")) {
                match second_word(&tc) {
                    Some(w) => HostRequest::Install(w),
                    None => HostRequest::Unknown,
                }
            } else if starts_with_exec(&tc, &chars_of("git")) {
                match second_word(&tc) {
                    Some(w) => HostRequest::InstallGit(w),
                    None => HostRequest::Unknown,
                }
            } else {
                HostRequest::Unknown
            }
        },
    }
}

/// The answer to a ping.
pub fn pong_response() -> (r: String)
    ensures
        r@ == "{{\"message\": \"pong\" }}"@,
{
    "{{\"message\": \"pong\" }}".to_owned()
}

/// The answer to a message the host does not know.
pub fn unknown_response() -> (r: String)
    ensures
        r@ == "{{\"output\": \"umm, no known signal\"}})"@,
{
    "{{\"output\": \"umm, no known signal\"}})".to_owned()
}

/// The answer when the theme manager could not be started; `error_debug` is
/// the `Debug` text of the error.
pub fn spawn_error_response(error_debug: &str) -> (r: String)
    ensures
        r@ == "{\"error\": Some("@ + error_debug@ + ")}"@,
{
    let mut r = "{\"error\": Some(".to_owned();
    r.append(error_debug);
    r.append(")}");
    r
}

/// The `Debug` text of an exit status code.
pub open spec fn status_text(status: Option<i32>) -> Seq<char> {
    match status {
        Some(n) => "Some("@ + signed_decimal(n as int) + ")"@,
        None => "None"@,
    }
}

/// The answer that reports what the theme manager printed and how it exited.
pub open spec fn run_response_text(out: Seq<char>, err: Seq<char>, status: Option<i32>) -> Seq<
    char,
> {
    "{ \"output\": "@ + out + ", \"error\": "@ + err + ", \"status\": "@ + status_text(status)
        + "}"@
}

/// The `Debug` text of an exit status code.
pub fn status_debug(status: Option<i32>) -> (r: String)
    ensures
        r@ == status_text(status),
{
    match status {
        Some(n) => {
            let mut r = "Some(".to_owned();
            let digits = string_of(&signed_decimal_chars(n as i64));
            r.append(digits.as_str());
            r.append(")");
            r
        },
        None => "None".to_owned(),
    }
}

/// The answer that reports the theme manager's standard output and error
/// (as UTF-8 text) and its exit code. Output that is not UTF-8 is left out:
/// the program stops on it.
pub fn run_response(stdout: &[u8], stderr: &[u8], status: Option<i32>) -> (r: String)
    requires
        vstd::utf8::valid_utf8(stdout@),
        vstd::utf8::valid_utf8(stderr@),
    ensures
        r@ == run_response_text(
            vstd::utf8::decode_utf8(stdout@),
            vstd::utf8::decode_utf8(stderr@),
            status,
        ),
{
    let out = match utf8_text(stdout) {
        Some(o) => o,
        None => String::new(),
    };
    let err = match utf8_text(stderr) {
        Some(e) => e,
        None => String::new(),
    };
    let mut r = "{ \"output\": ".to_owned();
    r.append(out.as_str());
    r.append(", \"error\": ");
    r.append(err.as_str());
    r.append(", \"status\": ");
    let st = status_debug(status);
    r.append(st.as_str());
    r.append("}");
    r
}

/// The arguments the host passes to the theme manager for an install
/// request: the theme's address, after `-g` for a git repository; none for
/// the other requests, which run nothing.
pub fn command_args(req: &HostRequest) -> (r: Vec<String>)
    ensures
        (req is Ping || req is Unknown) ==> r@.len() == 0,
        req matches HostRequest::Install(a) ==> r@.len() == 1 && r@[0]@ == a@,
        req matches HostRequest::InstallGit(a) ==> r@.len() == 2 && r@[0]@ == "-g"@ && r@[1]@
            == a@,
{
    match req {
        HostRequest::Install(a) => {
            let mut r: Vec<String> = Vec::new();
            r.push(a.as_str().to_owned());
            r
        },
        HostRequest::InstallGit(a) => {
            let mut r: Vec<String> = Vec::new();
            r.push("-g".to_owned());
            r.push(a.as_str().to_owned());
            r
        },
        _ => Vec::new(),
    }
}

} // verus!
