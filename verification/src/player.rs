//! mpv: how it is started, the JSON commands sent over its IPC socket, and
//! what its replies mean.

use vstd::prelude::*;
use crate::error::{Result, YtcliError};
use crate::text::{concat2, concat3, decimal, decimal_string, join_strings, join_with, texts, trimmed, trim};

verus! {

broadcast use vstd::function::group_function_axioms;

/// How mpv is invoked.
#[derive(Debug)]
pub struct Mpv {
    pub bin: String,
}

impl Clone for Mpv {
    fn clone(&self) -> (r: Self)
        ensures
            r == *self,
    {
        Mpv { bin: self.bin.clone() }
    }
}

impl Default for Mpv {
    fn default() -> (r: Self)
        ensures
            r.bin@ == "mpv"@,
    {
        Mpv { bin: "mpv".to_owned() }
    }
}

/// The shell command that finds a program on `PATH`.
pub open spec fn lookup_command_text(name: Seq<char>) -> Seq<char> {
    "command -v "@ + name
}

/// The shell command, run with `sh -c`, that succeeds when `name` is on `PATH`.
pub fn lookup_command(name: &str) -> (r: String)
    ensures
        r@ == lookup_command_text(name@),
{
    concat2("command -v ", name)
}

/// `Ok` when the program `name` is on `PATH` (`on_path` looks), else
/// `MissingBinary(name)`.
pub fn require_binary<F>(name: &String, on_path: F) -> (r: Result<()>)
    where
        F: FnOnce(&String) -> bool,
    requires
        call_requires(on_path, (name,)),
    ensures
        r is Ok ==> call_ensures(on_path, (name,), true),
        r is Err ==> call_ensures(on_path, (name,), false) && (r matches Err(e) && e
            == YtcliError::MissingBinary(*name)),
{
    if on_path(name) {
        Ok(())
    } else {
        Err(YtcliError::MissingBinary(name.clone()))
    }
}

/// `f`, asked about the text `name`, can answer `answer`.
pub open spec fn answers<F: FnOnce(&String) -> bool>(f: F, name: Seq<char>, answer: bool) -> bool {
    exists|s: String| s@ == name && #[trigger] call_ensures(f, (&s,), answer)
}

/// `Ok` when ffmpeg is on `PATH` (`on_path` looks), else `MissingBinary`.
pub fn ensure_ffmpeg<F>(on_path: F) -> (r: Result<()>)
    where
        F: FnOnce(&String) -> bool,
    requires
        forall|s: &String| call_requires(on_path, (s,)),
    ensures
        r is Ok ==> answers(on_path, "ffmpeg"@, true),
        r is Err ==> answers(on_path, "ffmpeg"@, false) && (r matches Err(e) && e matches YtcliError::MissingBinary(n)
            && n@ == "ffmpeg"@),
{
    let name = "ffmpeg".to_owned();
    require_binary(&name, on_path)
}

/// The arguments mpv is started with: no video, idle between tracks,
/// silent, and listening on `socket`.
pub open spec fn start_args_text(socket: Seq<char>) -> Seq<Seq<char>> {
    seq![
        "--no-video"@,
        "--idle=yes"@,
        "--really-quiet"@,
        "--no-terminal"@,
        "--input-ipc-server="@ + socket,
    ]
}

/// The texts of a list of arguments.
pub open spec fn arg_list(v: Seq<String>) -> Seq<Seq<char>> {
    v.map_values(|s: String| s@)
}

/// The arguments mpv is started with.
pub fn start_args(socket: &str) -> (r: Vec<String>)
    ensures
        arg_list(r@) == start_args_text(socket@),
{
    let mut r: Vec<String> = Vec::new();
    r.push("--no-video".to_owned());
    r.push("--idle=yes".to_owned());
    r.push("--really-quiet".to_owned());
    r.push("--no-terminal".to_owned());
    r.push(concat2("--input-ipc-server=", socket));
    assert(arg_list(r@) =~= start_args_text(socket@));
    r
}

/// How many times mpv's socket is tried after starting it.
pub const START_RETRIES: usize = 20;

/// The error of an mpv that does not answer after starting.
pub open spec fn is_start_timeout(e: YtcliError, socket: Seq<char>) -> bool {
    e matches YtcliError::MpvIpc { path, detail } && path@ == socket && detail@
        == "timeout esperando IPC"@
}

impl Mpv {
    /// `Ok` when this mpv is on `PATH`, else `MissingBinary`.
    pub fn ensure_bin<F>(&self, on_path: F) -> (r: Result<()>)
        where
            F: FnOnce(&String) -> bool,
        requires
            call_requires(on_path, (&self.bin,)),
        ensures
            r is Ok ==> call_ensures(on_path, (&self.bin,), true),
            r is Err ==> call_ensures(on_path, (&self.bin,), false) && (r matches Err(e) && e
                == YtcliError::MissingBinary(self.bin)),
    {
        require_binary(&self.bin, on_path)
    }

    /// Makes sure an mpv listens on `socket`. `alive(k)` asks whether mpv
    /// answers there: `k` is 0 for the look before anything is started,
    /// then the number of the try. When one answers already, its pid is
    /// `existing_pid` (0 when unknown). Otherwise `spawn` starts one (with
    /// [`start_args`]) and the socket is tried up to [`START_RETRIES`]
    /// times, with `pause` between tries; the result is the new pid once
    /// it answers, or a timeout.
    pub fn ensure_running<B, A, S, W>(
        &self,
        socket: &str,
        existing_pid: Option<u32>,
        on_path: B,
        alive: A,
        spawn: S,
        pause: W,
    ) -> (r: Result<u32>)
        where
            B: FnOnce(&String) -> bool,
            A: Fn(usize) -> bool,
            S: FnOnce() -> Result<u32>,
            W: Fn(),
        requires
            call_requires(on_path, (&self.bin,)),
            forall|k: usize| call_requires(alive, (k,)),
            call_requires(spawn, ()),
            call_requires(pause, ()),
        ensures
            r is Ok ==> call_ensures(on_path, (&self.bin,), true),
            r matches Ok(_) ==> exists|k: usize| k <= START_RETRIES && #[trigger] call_ensures(alive, (k,), true),
            r matches Ok(pid) ==> (call_ensures(alive, (0usize,), true) && pid == match existing_pid {
                Some(p) => p,
                None => 0u32,
            }) || (call_ensures(alive, (0usize,), false) && call_ensures(spawn, (), Ok::<u32, YtcliError>(pid))
                && exists|k: usize| 1 <= k <= START_RETRIES && #[trigger] call_ensures(alive, (k,), true)),
            r matches Err(e) ==> (call_ensures(on_path, (&self.bin,), false) && e
                == YtcliError::MissingBinary(self.bin)) || (call_ensures(on_path, (&self.bin,), true)
                && call_ensures(alive, (0usize,), false) && (call_ensures(spawn, (), Err::<u32, YtcliError>(e))
                || (is_start_timeout(e, socket@) && (exists|p: u32| #[trigger] call_ensures(
                spawn,
                (),
                Ok::<u32, YtcliError>(p),
            )) && forall|k: usize| 1 <= k <= START_RETRIES ==> #[trigger] call_ensures(alive, (k,), false)))),
            (forall|b: bool| #[trigger] call_ensures(on_path, (&self.bin,), b) ==> b) && (forall|b: bool|
                #[trigger] call_ensures(alive, (0usize,), b) ==> b) ==> r == Ok::<u32, YtcliError>(
                match existing_pid {
                    Some(p) => p,
                    None => 0u32,
                },
            ),
    {
        self.ensure_bin(on_path)?;
        let up = alive(0);
        if up {
            return Ok(match existing_pid {
                Some(p) => p,
                None => 0,
            });
        }
        assert(call_ensures(alive, (0usize,), false));
        let started = spawn();
        let pid = match started {
            Ok(pid) => pid,
            Err(e) => return Err(e),
        };
        let mut tries: usize = 0;
        while tries < START_RETRIES
            invariant
                tries <= START_RETRIES,
                forall|k: usize| call_requires(alive, (k,)),
                call_requires(pause, ()),
                call_ensures(on_path, (&self.bin,), true),
                call_ensures(alive, (0usize,), false),
                call_ensures(spawn, (), Ok::<u32, YtcliError>(pid)),
                forall|k: usize| 1 <= k <= tries ==> #[trigger] call_ensures(alive, (k,), false),
            decreases START_RETRIES - tries,
        {
            let k = tries + 1;
            let answered = alive(k);
            if answered {
                return Ok(pid);
            }
            assert(call_ensures(alive, (k,), false));
            pause();
            tries = k;
        }
        Err(YtcliError::MpvIpc { path: socket.to_owned(), detail: "timeout esperando IPC".to_owned() })
    }
}

/// The lower-case hexadecimal digit of `n` (below 16).
pub open spec fn hex_digit(n: int) -> char {
    "0123456789abcdef"@[n]
}

/// How a character stands inside a JSON string literal: `"`, the backslash
/// and the control characters below U+0020 are escaped (the short forms
/// `\b \t \n \f \r` where JSON has one, else `\u00` and two hex digits);
/// every other character stands as it is.
pub open spec fn json_char(c: char) -> Seq<char> {
    if c == '"' {
        seq!['\\', '"']
    } else if c == '\\' {
        seq!['\\', '\\']
    } else if c == '\u{8}' {
        seq!['\\', 'b']
    } else if c == '\t' {
        seq!['\\', 't']
    } else if c == '\n' {
        seq!['\\', 'n']
    } else if c == '\u{c}' {
        seq!['\\', 'f']
    } else if c == '\r' {
        seq!['\\', 'r']
    } else if (c as int) < 0x20 {
        seq!['\\', 'u', '0', '0', hex_digit((c as int) / 16), hex_digit((c as int) % 16)]
    } else {
        seq![c]
    }
}

/// The JSON string literal for `s`: its characters, each as [`json_char`]
/// writes it, between double quotes.
pub open spec fn json_quoted(s: Seq<char>) -> Seq<char> {
    seq!['"'] + s.map_values(|c: char| json_char(c)).flatten() + seq!['"']
}

/// `s` as a JSON string literal, through `serde_json::to_string`.
///
/// Trusted: `serde_json` writes a string between double quotes and
/// escapes, byte by byte, `"`, the backslash and the bytes below 0x20, exactly as
/// [`json_char`] says (its escape table and `write_char_escape`, with
/// lower-case hex digits); all other bytes, so all other characters, are
/// copied. Writing a string cannot fail, so the empty fallback is never
/// taken.
#[verifier::external_body]
fn json_string(s: &str) -> (r: String)
    ensures
        r@ == json_quoted(s@),
{
    match serde_json::to_string(s) {
        Ok(t) => t,
        Err(_) => String::new(),
    }
}

/// A line of the IPC protocol: `{"command":[...]}` with the JSON texts of
/// its items, and a newline.
pub open spec fn command_line_text(items: Seq<Seq<char>>) -> Seq<char> {
    "{\"command\":["@ + join_with(items, ","@) + "]}\n"@
}

/// Every command line sent to mpv is one JSON object closed by a newline.
pub proof fn law_command_lines_end_with_newline(items: Seq<Seq<char>>)
    ensures
        command_line_text(items).len() > 0,
        command_line_text(items).last() == '\n',
        command_line_text(items)[0] == '{',
{
    reveal_strlit("{\"command\":[");
    reveal_strlit("]}\n");
    let a = "{\"command\":["@;
    let b = join_with(items, ","@);
    let c = "]}\n"@;
    assert(command_line_text(items) == a + b + c);
    assert((a + b + c)[0] == a[0]);
    assert((a + b + c).last() == c.last());
}

/// The IPC line of a command made of `items`, each already JSON text.
fn command_line(items: &Vec<String>) -> (r: String)
    ensures
        r@ == command_line_text(texts(items@)),
{
    let body = join_strings(items, ",");
    concat3("{\"command\":[", body.as_str(), "]}\n")
}

/// The JSON texts of string arguments.
pub open spec fn quoted_all(args: Seq<Seq<char>>) -> Seq<Seq<char>> {
    args.map_values(|a: Seq<char>| json_quoted(a))
}

/// The views of a list of `&str`.
pub open spec fn str_texts(v: Seq<&str>) -> Seq<Seq<char>> {
    v.map_values(|s: &str| s@)
}

/// The IPC line of a command whose arguments are all strings.
pub fn ipc_command_json(command: &[&str]) -> (r: String)
    ensures
        r@ == command_line_text(quoted_all(str_texts(command@))),
{
    let mut items: Vec<String> = Vec::new();
    let mut i: usize = 0;
    while i < command.len()
        invariant
            i <= command@.len(),
            texts(items@) == quoted_all(str_texts(command@)).take(i as int),
        decreases command@.len() - i,
    {
        let q = json_string(command[i]);
        proof {
            assert(str_texts(command@)[i as int] == command@[i as int]@);
            assert(quoted_all(str_texts(command@))[i as int] == q@);
        }
        let ghost before = items@;
        items.push(q);
        proof {
            assert(items@ == before.push(q));
            assert(texts(items@) =~= texts(before).push(q@));
            assert(quoted_all(str_texts(command@)).take(i + 1) =~= quoted_all(str_texts(command@)).take(
                i as int,
            ).push(q@));
        }
        i = i + 1;
    }
    assert(quoted_all(str_texts(command@)).take(i as int) =~= quoted_all(str_texts(command@)));
    command_line(&items)
}

/// The JSON text of a boolean.
pub open spec fn json_bool(b: bool) -> Seq<char> {
    if b { "true"@ } else { "false"@ }
}

/// The IPC line that pauses (`true`) or resumes (`false`) playback.
pub fn ipc_set_pause_json(paused: bool) -> (r: String)
    ensures
        r@ == command_line_text(
            seq![json_quoted("set_property"@), json_quoted("pause"@), json_bool(paused)],
        ),
{
    let mut items: Vec<String> = Vec::new();
    items.push(json_string("set_property"));
    items.push(json_string("pause"));
    items.push(if paused { "true".to_owned() } else { "false".to_owned() });
    assert(texts(items@) =~= seq![json_quoted("set_property"@), json_quoted("pause"@), json_bool(paused)]);
    command_line(&items)
}

/// The IPC line that plays `url` in place of what is playing.
pub fn ipc_loadfile_json(url: &str) -> (r: String)
    ensures
        r@ == command_line_text(
            seq![json_quoted("loadfile"@), json_quoted(url@), json_quoted("replace"@)],
        ),
{
    let mut items: Vec<String> = Vec::new();
    items.push(json_string("loadfile"));
    items.push(json_string(url));
    items.push(json_string("replace"));
    assert(texts(items@) =~= seq![json_quoted("loadfile"@), json_quoted(url@), json_quoted("replace"@)]);
    command_line(&items)
}

/// The error of a volume out of mpv's range.
pub open spec fn is_volume_range_error(e: YtcliError, socket: Seq<char>, vol: u8) -> bool {
    e matches YtcliError::MpvIpc { path, detail } && path@ == socket && detail@ == "volumen fuera de rango: "@
        + decimal(vol as nat) + " (esperado 0..=100)"@
}

/// The IPC line that sets the volume to `vol` percent; a volume over 100
/// is refused.
pub fn ipc_set_volume_json(socket: &str, vol: u8) -> (r: Result<String>)
    ensures
        vol > 100 ==> (r matches Err(e) && is_volume_range_error(e, socket@, vol)),
        vol <= 100 ==> (r matches Ok(line) && line@ == command_line_text(
            seq![json_quoted("set_property"@), json_quoted("volume"@), decimal(vol as nat)],
        )),
{
    if vol > 100 {
        let n = decimal_string(vol as u64);
        return Err(YtcliError::MpvIpc {
            path: socket.to_owned(),
            detail: concat3("volumen fuera de rango: ", n.as_str(), " (esperado 0..=100)"),
        });
    }
    let mut items: Vec<String> = Vec::new();
    items.push(json_string("set_property"));
    items.push(json_string("volume"));
    items.push(decimal_string(vol as u64));
    assert(texts(items@) =~= seq![json_quoted("set_property"@), json_quoted("volume"@), decimal(vol as nat)]);
    Ok(command_line(&items))
}

/// The error of a failed exchange with mpv over `socket`.
pub fn ipc_error(socket: &str, detail: String) -> (e: YtcliError)
    ensures
        e matches YtcliError::MpvIpc { path, detail: d } && path@ == socket@ && d == detail,
{
    YtcliError::MpvIpc { path: socket.to_owned(), detail }
}

/// One field of a reply of mpv, as far as the replies are read here.
#[derive(Debug)]
pub enum ReplyField {
    /// The reply has no such field.
    Absent,
    /// The field is `null`.
    Null,
    /// Any other value: its JSON text, its contents when it is a string,
    /// and whether it is a number.
    Present { json: String, text: Option<String>, number: bool },
}

/// A reply of mpv: its `error` and `data` fields.
#[derive(Debug)]
pub struct IpcReply {
    pub error: ReplyField,
    pub data: ReplyField,
}

/// The outcome of a reply whose `error` field is `field`.
pub open spec fn reply_error_detail(field: ReplyField) -> Option<Seq<char>> {
    match field {
        ReplyField::Absent => None,
        ReplyField::Null => None,
        ReplyField::Present { json, text, number } => match text {
            Some(t) => if t@ == "success"@ { None } else { Some(t@) },
            None => Some(json@),
        },
    }
}

/// An `MpvIpc` error about `socket` with the given detail.
pub open spec fn is_ipc_error(e: YtcliError, socket: Seq<char>, detail: Seq<char>) -> bool {
    e matches YtcliError::MpvIpc { path, detail: d } && path@ == socket && d@ == detail
}

/// Fails when the reply reports an error: an `error` field that is
/// neither `null` nor `"success"`. The detail is the error's text, or its
/// JSON when it is not a string.
pub fn check_ipc_error(socket: &str, reply: &IpcReply) -> (r: Result<()>)
    ensures
        match reply_error_detail(reply.error) {
            None => r is Ok,
            Some(d) => r matches Err(e) && is_ipc_error(e, socket@, d),
        },
{
    match &reply.error {
        ReplyField::Absent => Ok(()),
        ReplyField::Null => Ok(()),
        ReplyField::Present { json, text, number: _ } => match text {
            Some(t) => {
                let success = "success".to_owned();
                if *t == success {
                    Ok(())
                } else {
                    Err(YtcliError::MpvIpc { path: socket.to_owned(), detail: t.clone() })
                }
            },
            None => Err(YtcliError::MpvIpc { path: socket.to_owned(), detail: json.clone() }),
        },
    }
}

/// What `serde_json` makes of a reply text: the reply's `error` and `data`
/// fields, or the parser's message when the text is not JSON.
pub uninterp spec fn ipc_reply_of(text: Seq<char>) -> std::result::Result<IpcReply, String>;

/// Parses a reply text with `serde_json::from_str` into a JSON value and
/// reads its `error` and `data` fields: absent, `null`, or present with
/// their JSON text, their contents when a string (`as_str`) and whether
/// they are a number (`is_number`); when the parser fails, its message.
///
/// Trusted: the result is named, as a function of the text alone; the one
/// fact stated is that an empty text is not JSON (the parser reports the
/// end of input). What the parser accepts is left unsaid.
#[verifier::external_body]
fn parse_ipc_reply(text: &str) -> (r: std::result::Result<IpcReply, String>)
    ensures
        r == ipc_reply_of(text@),
        text@.len() == 0 ==> r is Err,
{
    let field = |v: Option<&serde_json::Value>| match v {
        None => ReplyField::Absent,
        Some(serde_json::Value::Null) => ReplyField::Null,
        Some(v) => ReplyField::Present { json: v.to_string(), text: v.as_str().map(str::to_owned), number: v.is_number() },
    };
    match serde_json::from_str::<serde_json::Value>(text) {
        Ok(v) => Ok(IpcReply { error: field(v.get("error")), data: field(v.get("data")) }),
        Err(e) => Err(e.to_string()),
    }
}

/// The outcome of a command whose reply was parsed into `parsed`: a reply
/// that is not JSON counts as success; a JSON reply fails only when it
/// reports an error.
pub fn reply_result(socket: &str, parsed: std::result::Result<IpcReply, String>) -> (r: Result<()>)
    ensures
        match parsed {
            Err(_) => r is Ok,
            Ok(x) => match reply_error_detail(x.error) {
                None => r is Ok,
                Some(d) => r matches Err(e) && is_ipc_error(e, socket@, d),
            },
        },
{
    match parsed {
        Err(_) => Ok(()),
        Ok(x) => check_ipc_error(socket, &x),
    }
}

/// The outcome of a command whose reply text is `response`, read as JSON
/// once trimmed (see [`reply_result`]).
pub fn ipc_response_result(socket: &str, response: &str) -> (r: Result<()>)
    ensures
        match ipc_reply_of(trimmed(response@)) {
            Err(_) => r is Ok,
            Ok(x) => match reply_error_detail(x.error) {
                None => r is Ok,
                Some(d) => r matches Err(e) && is_ipc_error(e, socket@, d),
            },
        },
        trimmed(response@).len() == 0 ==> r is Ok,
{
    let t = trim(response);
    let parsed = parse_ipc_reply(t.as_str());
    reply_result(socket, parsed)
}

/// The reply of a query, parsed into `parsed` from a text that is not
/// blank: it must be JSON (else the parser's message is reported), and it
/// must report no error.
pub fn reply_value(socket: &str, parsed: std::result::Result<IpcReply, String>) -> (r: Result<IpcReply>)
    ensures
        match parsed {
            Err(m) => r matches Err(e) && is_ipc_error(e, socket@, "respuesta IPC inválida: "@ + m@),
            Ok(x) => match reply_error_detail(x.error) {
                None => r == Ok::<IpcReply, YtcliError>(x),
                Some(d) => r matches Err(e) && is_ipc_error(e, socket@, d),
            },
        },
{
    match parsed {
        Err(m) => Err(YtcliError::MpvIpc {
            path: socket.to_owned(),
            detail: concat2("respuesta IPC inválida: ", m.as_str()),
        }),
        Ok(x) => {
            check_ipc_error(socket, &x)?;
            Ok(x)
        },
    }
}

/// The reply of a query whose text is `response`: once trimmed it must not
/// be empty, and then [`reply_value`] judges what `serde_json` makes of it.
pub fn ipc_response_value(socket: &str, response: &str) -> (r: Result<IpcReply>)
    ensures
        trimmed(response@).len() == 0 ==> (r matches Err(e) && is_ipc_error(e, socket@, "respuesta IPC vacía"@)),
        trimmed(response@).len() > 0 ==> match ipc_reply_of(trimmed(response@)) {
            Err(m) => r matches Err(e) && is_ipc_error(e, socket@, "respuesta IPC inválida: "@ + m@),
            Ok(x) => match reply_error_detail(x.error) {
                None => r == Ok::<IpcReply, YtcliError>(x),
                Some(d) => r matches Err(e) && is_ipc_error(e, socket@, d),
            },
        },
{
    let t = trim(response);
    if t.as_str().is_empty() {
        return Err(YtcliError::MpvIpc { path: socket.to_owned(), detail: "respuesta IPC vacía".to_owned() });
    }
    let parsed = parse_ipc_reply(t.as_str());
    reply_value(socket, parsed)
}

/// What a query reply's `data` field allows: a number, or the error that
/// says why not.
pub open spec fn data_error_detail(field: ReplyField) -> Option<Seq<char>> {
    match field {
        ReplyField::Absent => Some("respuesta IPC sin campo data"@),
        ReplyField::Null => Some("propiedad sin valor"@),
        ReplyField::Present { json, text, number } => if number {
            None
        } else {
            Some("data no numérica: "@ + json@)
        },
    }
}

/// Checks that a query reply carries a number in `data`; a missing field,
/// `null`, or any other value is an error.
pub fn check_numeric_data(socket: &str, reply: &IpcReply) -> (r: Result<()>)
    ensures
        match data_error_detail(reply.data) {
            None => r is Ok,
            Some(d) => r matches Err(e) && is_ipc_error(e, socket@, d),
        },
{
    match &reply.data {
        ReplyField::Absent => Err(YtcliError::MpvIpc {
            path: socket.to_owned(),
            detail: "respuesta IPC sin campo data".to_owned(),
        }),
        ReplyField::Null => Err(YtcliError::MpvIpc {
            path: socket.to_owned(),
            detail: "propiedad sin valor".to_owned(),
        }),
        ReplyField::Present { json, text: _, number } => if *number {
            Ok(())
        } else {
            Err(YtcliError::MpvIpc {
                path: socket.to_owned(),
                detail: concat2("data no numérica: ", json.as_str()),
            })
        },
    }
}

/// What a query reply's `data` field gives as a boolean: its value, or the
/// detail of the error that says why there is none.
pub open spec fn data_bool(field: ReplyField) -> std::result::Result<bool, Seq<char>> {
    match field {
        ReplyField::Absent => Err("respuesta IPC sin campo data"@),
        ReplyField::Null => Err("propiedad sin valor"@),
        ReplyField::Present { json, text, number } => if json@ == "true"@ {
            Ok(true)
        } else if json@ == "false"@ {
            Ok(false)
        } else {
            Err("data no booleana: "@ + json@)
        },
    }
}

/// The boolean that a query reply carries in `data`; a missing field,
/// `null`, or any value other than `true` and `false` is an error.
pub fn bool_data(socket: &str, reply: &IpcReply) -> (r: Result<bool>)
    ensures
        match data_bool(reply.data) {
            Ok(b) => r == Ok::<bool, YtcliError>(b),
            Err(d) => r matches Err(e) && is_ipc_error(e, socket@, d),
        },
{
    match &reply.data {
        ReplyField::Absent => Err(YtcliError::MpvIpc {
            path: socket.to_owned(),
            detail: "respuesta IPC sin campo data".to_owned(),
        }),
        ReplyField::Null => Err(YtcliError::MpvIpc {
            path: socket.to_owned(),
            detail: "propiedad sin valor".to_owned(),
        }),
        ReplyField::Present { json, text: _, number: _ } => {
            let yes = "true".to_owned();
            let no = "false".to_owned();
            if *json == yes {
                Ok(true)
            } else if *json == no {
                Ok(false)
            } else {
                Err(YtcliError::MpvIpc {
                    path: socket.to_owned(),
                    detail: concat2("data no booleana: ", json.as_str()),
                })
            }
        },
    }
}

} // verus!
