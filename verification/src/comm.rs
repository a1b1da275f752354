//! The wire vocabulary exchanged between the relay and its peers, and the
//! events a room session consumes.
//!
//! `Command` is the tagged union that travels over the wire in both
//! directions; the frame codec that turns it into bytes is a collaborator
//! outside this library, which only ever sees decoded values.

use vstd::prelude::*;
use vstd::string::StringExecFns;

verus! {

/// The only structure exchanged over the wire between server, host and
/// players. Direction conventions: `Prepare`, `Start`, `Kick`, `Stop`,
/// `To`/`ToStr` flow toward the server; `PrepareReply`, `State`,
/// `From`/`FromStr`, `Error` flow from the server to a peer.
#[derive(Debug, PartialEq, Eq)]
#[allow(inconsistent_fields)]
pub enum Command {
    /// Request from a room's creator to set the room up.
    Prepare { max_players: u32, name: String },
    /// The room code assigned to a freshly prepared room.
    PrepareReply { key: String },
    /// Host request: stop accepting new players.
    Start,
    /// Full membership snapshot, broadcast to the host after every change.
    State { name: String, players: Vec<u32>, max_players: u32, accept_conns: bool },
    /// Host request: force-remove one player.
    Kick { player: u32 },
    /// Host request (or host disconnect): terminate the room.
    Stop,
    /// Binary payload from a player, stamped with its server-assigned id.
    From { from: u32, data: Vec<u8> },
    /// Text payload from a player, stamped with its server-assigned id.
    FromStr { from: u32, data: String },
    /// Binary payload from the host to some players (empty list: everyone).
    To { to: Vec<u32>, data: Vec<u8> },
    /// Text payload from the host to some players (empty list: everyone).
    ToStr { to: Vec<u32>, data: String },
    /// A malformed or rejected request, reported back to the offending peer.
    Error { reason: String },
}

/// An event on a room's inbound channel: a player joining, a player leaving,
/// or a command a connection adapter forwarded on a player's behalf. The
/// joining player's socket halves stay with the caller; the session tracks
/// membership by id alone.
#[derive(Debug, PartialEq, Eq)]
pub enum HostComm {
    Join(u32),
    Leave(u32),
    Command(Command),
}

/// Coarse lifecycle phases of a game, part of the first protocol iteration;
/// kept so older peers can still speak it.
#[derive(Debug, PartialEq, Eq, Default, Clone)]
pub enum GameState {
    #[default]
    Preparing,
    Lobby,
    LobbyReady,
    Playing,
    Stopping,
    Stopped,
}

/// Actions of the first protocol iteration, where the server drove the game
/// flow itself rather than relaying opaque payloads.
#[derive(Debug, PartialEq, Eq, Default)]
pub enum GameAction {
    #[default]
    Idle,
    Start,
    Countdown,
    Replay,
    ReplayNew,
    Stop,
    Ready,
    Timeout,
    RequestText,
    AnnotateImage,
    Show,
}

/// A reply from a client or the host in the first protocol iteration.
#[derive(Debug, Default)]
pub struct GameResponse {
    /// Same id as the request this answers.
    pub id: i32,
    /// The action that was requested.
    pub action: GameAction,
    /// Text inputs collected from the peer.
    pub text: Vec<String>,
    /// Width of the data that follows.
    pub width: u16,
    /// Bulk data.
    pub data: Vec<u8>,
}

/// A [`GameResponse`] together with who sent it.
#[derive(Debug)]
pub struct GameResponseWithSource {
    pub source: String,
    pub index: u32,
    pub msg: GameResponse,
}

/// A request to a client or to the host in the first protocol iteration.
#[derive(Debug, Default)]
pub struct GameRequest {
    /// Unique identifier, echoed by the reply.
    pub id: i32,
    /// The action to be done.
    pub action: GameAction,
    /// Title of the action.
    pub title: String,
    /// What needs to be done, for the peer's screen.
    pub description: String,
    /// Action-specific count, typically how many replies are expected.
    pub size: i32,
    /// Width of the data (for images).
    pub width: u16,
    /// Data provided with the action.
    pub data: Vec<u8>,
    /// Time available for the action, in seconds.
    pub time_s: i32,
}

/// A button offered to a peer in the second protocol iteration.
#[derive(Debug)]
pub struct Button {
    id: String,
    title: String,
    descr: String,
    text: String,
}

/// An image shown to a peer in the second protocol iteration.
#[derive(Debug)]
pub struct Image {
    data: Vec<u8>,
    width: u32,
    id: String,
}

/// The message bodies of the second protocol iteration.
#[derive(Debug)]
pub enum Msg2Impl {
    Idle,
    Countdown { time: i32 },
    Scores(String),
    Start,
    Stop(String),
    ButtonReq(Button),
    ButtonsReq(Vec<Button>),
    ButtonResp { id: String },
    TextReq { id: String, title: String, descr: String, number: u8 },
    TextRes { id: String, text: Vec<String> },
    ShowImage(Image),
    AnnotateReq(Image),
    AnnotateResp(String),
    DrawRequest { id: String, title: String, descr: String },
    DrawResponse(Image),
}

/// The quoted, escaped rendering of a string, as its debug formatting
/// prints it: surrounding double quotes, with quotes, backslashes, control
/// and other unprintable characters escaped. A function of the characters
/// alone.
pub uninterp spec fn debug_escaped(s: Seq<char>) -> Seq<char>;

/// Relies on std's debug formatting of `str`: the quoted, escaped text,
/// a function of the string's characters alone.
#[verifier::external_body]
fn debug_str(s: &str) -> (r: String)
    ensures
        r@ == debug_escaped(s@),
{
    format!("{:?}", s)
}

/// The decimal digits of a nonnegative number, most significant first.
pub open spec fn dec_digits(n: nat) -> Seq<char>
    decreases n,
{
    if n < 10 {
        seq![((48 + n) as u8) as char]
    } else {
        dec_digits(n / 10).push(((48 + (n % 10)) as u8) as char)
    }
}

/// The decimal rendering of a signed number: a minus sign before the digits
/// of its magnitude when negative.
pub open spec fn dec_signed(n: int) -> Seq<char> {
    if n < 0 {
        seq!['-'] + dec_digits((-n) as nat)
    } else {
        dec_digits(n as nat)
    }
}

/// The comma-separated decimal items of a byte list.
pub open spec fn join_bytes(v: Seq<u8>) -> Seq<char>
    decreases v.len(),
{
    if v.len() == 0 {
        Seq::empty()
    } else if v.len() == 1 {
        dec_digits(v[0] as nat)
    } else {
        join_bytes(v.drop_last()) + ", "@ + dec_digits(v.last() as nat)
    }
}

/// A byte list as its debug formatting prints it: `[1, 2, 3]`.
pub open spec fn debug_bytes(v: Seq<u8>) -> Seq<char> {
    "["@ + join_bytes(v) + "]"@
}

/// The comma-separated quoted items of a string list.
pub open spec fn join_texts(v: Seq<String>) -> Seq<char>
    decreases v.len(),
{
    if v.len() == 0 {
        Seq::empty()
    } else if v.len() == 1 {
        debug_escaped(v[0]@)
    } else {
        join_texts(v.drop_last()) + ", "@ + debug_escaped(v.last()@)
    }
}

/// A string list as its debug formatting prints it: `["a", "b"]`.
pub open spec fn debug_texts(v: Seq<String>) -> Seq<char> {
    "["@ + join_texts(v) + "]"@
}

/// A button as its debug formatting prints it: the struct name, then each
/// field by name.
pub closed spec fn debug_button(b: Button) -> Seq<char> {
    "Button { id: "@ + debug_escaped(b.id@) + ", title: "@ + debug_escaped(b.title@)
        + ", descr: "@ + debug_escaped(b.descr@) + ", text: "@ + debug_escaped(b.text@) + " }"@
}

/// The comma-separated items of a button list.
pub open spec fn join_buttons(v: Seq<Button>) -> Seq<char>
    decreases v.len(),
{
    if v.len() == 0 {
        Seq::empty()
    } else if v.len() == 1 {
        debug_button(v[0])
    } else {
        join_buttons(v.drop_last()) + ", "@ + debug_button(v.last())
    }
}

/// A button list as its debug formatting prints it.
pub open spec fn debug_buttons(v: Seq<Button>) -> Seq<char> {
    "["@ + join_buttons(v) + "]"@
}

/// An image as its debug formatting prints it: the struct name, then each
/// field by name.
pub closed spec fn debug_image(i: Image) -> Seq<char> {
    "Image { data: "@ + debug_bytes(i.data@) + ", width: "@ + dec_digits(i.width as nat)
        + ", id: "@ + debug_escaped(i.id@) + " }"@
}

/// The tag under which a second-iteration message travels: the debug
/// rendering of its whole body — the variant's name followed by its fields,
/// braced or parenthesised as the derived formatting prints them.
pub open spec fn msg2_text(m: Msg2Impl) -> Seq<char> {
    match m {
        Msg2Impl::Idle => "Idle"@,
        Msg2Impl::Countdown { time } => "Countdown { time: "@ + dec_signed(time as int) + " }"@,
        Msg2Impl::Scores(s) => "Scores("@ + debug_escaped(s@) + ")"@,
        Msg2Impl::Start => "Start"@,
        Msg2Impl::Stop(s) => "Stop("@ + debug_escaped(s@) + ")"@,
        Msg2Impl::ButtonReq(b) => "ButtonReq("@ + debug_button(b) + ")"@,
        Msg2Impl::ButtonsReq(v) => "ButtonsReq("@ + debug_buttons(v@) + ")"@,
        Msg2Impl::ButtonResp { id } => "ButtonResp { id: "@ + debug_escaped(id@) + " }"@,
        Msg2Impl::TextReq { id, title, descr, number } => "TextReq { id: "@ + debug_escaped(id@)
            + ", title: "@ + debug_escaped(title@) + ", descr: "@ + debug_escaped(descr@)
            + ", number: "@ + dec_digits(number as nat) + " }"@,
        Msg2Impl::TextRes { id, text } => "TextRes { id: "@ + debug_escaped(id@) + ", text: "@
            + debug_texts(text@) + " }"@,
        Msg2Impl::ShowImage(i) => "ShowImage("@ + debug_image(i) + ")"@,
        Msg2Impl::AnnotateReq(i) => "AnnotateReq("@ + debug_image(i) + ")"@,
        Msg2Impl::AnnotateResp(s) => "AnnotateResp("@ + debug_escaped(s@) + ")"@,
        Msg2Impl::DrawRequest { id, title, descr } => "DrawRequest { id: "@ + debug_escaped(id@)
            + ", title: "@ + debug_escaped(title@) + ", descr: "@ + debug_escaped(descr@)
            + " }"@,
        Msg2Impl::DrawResponse(i) => "DrawResponse("@ + debug_image(i) + ")"@,
    }
}

/// Append the decimal digits of `n`.
fn push_udec(out: &mut String, n: u64)
    ensures
        final(out)@ == old(out)@ + dec_digits(n as nat),
    decreases n,
{
    if n < 10 {
        out.push((48 + (n as u8)) as char);
        proof {
            assert(out@ =~= old(out)@ + dec_digits(n as nat));
        }
    } else {
        push_udec(out, n / 10);
        out.push((48 + ((n % 10) as u8)) as char);
        proof {
            assert((n / 10) as nat == (n as nat) / 10);
            assert((n % 10) as nat == (n as nat) % 10);
            assert(out@ =~= old(out)@ + dec_digits(n as nat));
        }
    }
}

/// Append the decimal rendering of a signed number.
fn push_idec(out: &mut String, n: i32)
    ensures
        final(out)@ == old(out)@ + dec_signed(n as int),
{
    if n < 0 {
        out.push('-');
        let mag: i64 = -(n as i64);
        push_udec(out, mag as u64);
        proof {
            assert((mag as u64) as nat == (-(n as int)) as nat);
            assert(out@ =~= old(out)@ + dec_signed(n as int));
        }
    } else {
        push_udec(out, n as u64);
    }
}

/// Append the quoted, escaped rendering of a string.
fn push_escaped(out: &mut String, s: &str)
    ensures
        final(out)@ == old(out)@ + debug_escaped(s@),
{
    let e = debug_str(s);
    out.append(e.as_str());
}

/// Append a byte list in its debug form.
fn push_bytes(out: &mut String, v: &Vec<u8>)
    ensures
        final(out)@ == old(out)@ + debug_bytes(v@),
{
    out.append("[");
    let mut i: usize = 0;
    while i < v.len()
        invariant
            i <= v@.len(),
            out@ == old(out)@ + "["@ + join_bytes(v@.take(i as int)),
        decreases v@.len() - i,
    {
        proof {
            assert(v@.take(i + 1 as int).drop_last() =~= v@.take(i as int));
            assert(v@.take(i + 1 as int).last() == v@[i as int]);
        }
        if i > 0 {
            out.append(", ");
        }
        push_udec(out, v[i] as u64);
        proof {
            assert(out@ =~= old(out)@ + "["@ + join_bytes(v@.take(i + 1 as int)));
        }
        i = i + 1;
    }
    out.append("]");
    proof {
        assert(v@.take(v@.len() as int) =~= v@);
        assert(out@ =~= old(out)@ + debug_bytes(v@));
    }
}

/// Append a string list in its debug form.
fn push_texts(out: &mut String, v: &Vec<String>)
    ensures
        final(out)@ == old(out)@ + debug_texts(v@),
{
    out.append("[");
    let mut i: usize = 0;
    while i < v.len()
        invariant
            i <= v@.len(),
            out@ == old(out)@ + "["@ + join_texts(v@.take(i as int)),
        decreases v@.len() - i,
    {
        proof {
            assert(v@.take(i + 1 as int).drop_last() =~= v@.take(i as int));
            assert(v@.take(i + 1 as int).last() == v@[i as int]);
        }
        if i > 0 {
            out.append(", ");
        }
        push_escaped(out, v[i].as_str());
        proof {
            assert(out@ =~= old(out)@ + "["@ + join_texts(v@.take(i + 1 as int)));
        }
        i = i + 1;
    }
    out.append("]");
    proof {
        assert(v@.take(v@.len() as int) =~= v@);
        assert(out@ =~= old(out)@ + debug_texts(v@));
    }
}

/// Append a button in its debug form.
fn push_button(out: &mut String, b: &Button)
    ensures
        final(out)@ == old(out)@ + debug_button(*b),
{
    out.append("Button { id: ");
    push_escaped(out, b.id.as_str());
    out.append(", title: ");
    push_escaped(out, b.title.as_str());
    out.append(", descr: ");
    push_escaped(out, b.descr.as_str());
    out.append(", text: ");
    push_escaped(out, b.text.as_str());
    out.append(" }");
    proof {
        assert(out@ =~= old(out)@ + debug_button(*b));
    }
}

/// Append a button list in its debug form.
fn push_buttons(out: &mut String, v: &Vec<Button>)
    ensures
        final(out)@ == old(out)@ + debug_buttons(v@),
{
    out.append("[");
    let mut i: usize = 0;
    while i < v.len()
        invariant
            i <= v@.len(),
            out@ == old(out)@ + "["@ + join_buttons(v@.take(i as int)),
        decreases v@.len() - i,
    {
        proof {
            assert(v@.take(i + 1 as int).drop_last() =~= v@.take(i as int));
            assert(v@.take(i + 1 as int).last() == v@[i as int]);
        }
        if i > 0 {
            out.append(", ");
        }
        push_button(out, &v[i]);
        proof {
            assert(out@ =~= old(out)@ + "["@ + join_buttons(v@.take(i + 1 as int)));
        }
        i = i + 1;
    }
    out.append("]");
    proof {
        assert(v@.take(v@.len() as int) =~= v@);
        assert(out@ =~= old(out)@ + debug_buttons(v@));
    }
}

/// Append an image in its debug form.
fn push_image(out: &mut String, img: &Image)
    ensures
        final(out)@ == old(out)@ + debug_image(*img),
{
    out.append("Image { data: ");
    push_bytes(out, &img.data);
    out.append(", width: ");
    push_udec(out, img.width as u64);
    out.append(", id: ");
    push_escaped(out, img.id.as_str());
    out.append(" }");
    proof {
        assert(out@ =~= old(out)@ + debug_image(*img));
    }
}

/// Render a message body as its debug text.
fn render_msg2(data: &Msg2Impl) -> (r: String)
    ensures
        r@ == msg2_text(*data),
{
    let mut out = String::new();
    match data {
        Msg2Impl::Idle => {
            out.append("Idle");
        },
        Msg2Impl::Countdown { time } => {
            out.append("Countdown { time: ");
            push_idec(&mut out, *time);
            out.append(" }");
        },
        Msg2Impl::Scores(s) => {
            out.append("Scores(");
            push_escaped(&mut out, s.as_str());
            out.append(")");
        },
        Msg2Impl::Start => {
            out.append("Start");
        },
        Msg2Impl::Stop(s) => {
            out.append("Stop(");
            push_escaped(&mut out, s.as_str());
            out.append(")");
        },
        Msg2Impl::ButtonReq(b) => {
            out.append("ButtonReq(");
            push_button(&mut out, b);
            out.append(")");
        },
        Msg2Impl::ButtonsReq(v) => {
            out.append("ButtonsReq(");
            push_buttons(&mut out, v);
            out.append(")");
        },
        Msg2Impl::ButtonResp { id } => {
            out.append("ButtonResp { id: ");
            push_escaped(&mut out, id.as_str());
            out.append(" }");
        },
        Msg2Impl::TextReq { id, title, descr, number } => {
            out.append("TextReq { id: ");
            push_escaped(&mut out, id.as_str());
            out.append(", title: ");
            push_escaped(&mut out, title.as_str());
            out.append(", descr: ");
            push_escaped(&mut out, descr.as_str());
            out.append(", number: ");
            push_udec(&mut out, *number as u64);
            out.append(" }");
        },
        Msg2Impl::TextRes { id, text } => {
            out.append("TextRes { id: ");
            push_escaped(&mut out, id.as_str());
            out.append(", text: ");
            push_texts(&mut out, text);
            out.append(" }");
        },
        Msg2Impl::ShowImage(img) => {
            out.append("ShowImage(");
            push_image(&mut out, img);
            out.append(")");
        },
        Msg2Impl::AnnotateReq(img) => {
            out.append("AnnotateReq(");
            push_image(&mut out, img);
            out.append(")");
        },
        Msg2Impl::AnnotateResp(s) => {
            out.append("AnnotateResp(");
            push_escaped(&mut out, s.as_str());
            out.append(")");
        },
        Msg2Impl::DrawRequest { id, title, descr } => {
            out.append("DrawRequest { id: ");
            push_escaped(&mut out, id.as_str());
            out.append(", title: ");
            push_escaped(&mut out, title.as_str());
            out.append(", descr: ");
            push_escaped(&mut out, descr.as_str());
            out.append(" }");
        },
        Msg2Impl::DrawResponse(img) => {
            out.append("DrawResponse(");
            push_image(&mut out, img);
            out.append(")");
        },
    }
    proof {
        assert(out@ =~= msg2_text(*data));
    }
    out
}

/// A second-iteration message: a body and the tag it travels under — the
/// debug rendering of the body itself.
#[derive(Debug)]
pub struct Msg2 {
    cmd: String,
    data: Msg2Impl,
}

impl Msg2 {
    /// The tag this message travels under.
    pub closed spec fn cmd_view(self) -> Seq<char> {
        self.cmd@
    }

    /// The body this message carries.
    pub closed spec fn data_view(self) -> Msg2Impl {
        self.data
    }

    /// Wrap a message body, tagging it with the debug rendering of the body
    /// itself.
    pub fn new(data: Msg2Impl) -> (m: Msg2)
        ensures
            m.cmd_view() == msg2_text(data),
            m.data_view() == data,
    {
        let cmd = render_msg2(&data);
        Msg2 { cmd, data }
    }

    /// The tag, for callers that route on it.
    pub fn cmd(&self) -> (c: &String)
        ensures
            c@ == self.cmd_view(),
    {
        &self.cmd
    }
}

} // verus!
