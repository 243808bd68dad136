//! The commands that producers send to a gateway.
use crate::protocol::command::{Command, CommandErrorView, CommandView};
use crate::protocol::mpub::MpubErrorView;
use crate::protocol::{command, frame, mpub};
use crate::proxy::tcp::MAX_CONTROL_BODY_BYTES;
use crate::{text, wire};
use bytes::Bytes;
use vstd::prelude::*;
use vstd::slice::slice_to_vec;
use vstd::string::*;

verus! {

/// The longest command line, in bytes, with its line feed.
pub const MAX_COMMAND_LINE_BYTES: usize = 1024;

/// A command of a producer.
#[derive(Debug)]
pub struct ClientCommand {
    pub command: Command,
    pub line: Vec<u8>,
    pub body: Option<Bytes>,
}

/// Why no command can be read.
#[derive(Clone, Debug)]
pub enum ReadError {
    /// The connection failed.
    Io(String),
    /// The producer broke the protocol.
    Protocol(&'static str, String),
    /// The gateway has no room; another one may.
    RetryByReconnect(&'static str),
}

/// `ReadError` with its texts.
pub enum ReadErrorView {
    Io(Seq<char>),
    Protocol(Seq<char>, Seq<char>),
    RetryByReconnect(Seq<char>),
}

impl View for ReadError {
    type V = ReadErrorView;

    open spec fn view(&self) -> ReadErrorView {
        match self {
            ReadError::Io(e) => ReadErrorView::Io(e@),
            ReadError::Protocol(code, detail) => ReadErrorView::Protocol(code@, detail@),
            ReadError::RetryByReconnect(detail) => ReadErrorView::RetryByReconnect(detail@),
        }
    }
}

impl ReadError {
    /// The protocol error code.
    pub fn code(&self) -> (r: &'static str)
        ensures
            r@ == match self@ {
                ReadErrorView::Io(_) => "E_INVALID"@,
                ReadErrorView::Protocol(code, _) => code,
                ReadErrorView::RetryByReconnect(_) => "E_THROTTLED"@,
            },
    {
        match self {
            ReadError::Io(_) => "E_INVALID",
            ReadError::Protocol(code, _) => code,
            ReadError::RetryByReconnect(_) => "E_THROTTLED",
        }
    }

    /// What the error says.
    pub fn message(&self) -> (r: String)
        ensures
            r@ == match self@ {
                ReadErrorView::Io(e) => e,
                ReadErrorView::Protocol(_, detail) => detail,
                ReadErrorView::RetryByReconnect(detail) => detail,
            },
    {
        match self {
            ReadError::Io(e) => e.clone(),
            ReadError::Protocol(_, detail) => detail.clone(),
            ReadError::RetryByReconnect(detail) => (*detail).to_owned(),
        }
    }
}

/// No command was read in time.
pub fn read_timed_out() -> (r: ReadError)
    ensures
        r@ == ReadErrorView::Protocol("E_INVALID"@, "command read timed out"@),
{
    ReadError::Protocol("E_INVALID", "command read timed out".to_owned())
}

/// The gateway has no room for a body.
pub fn no_budget() -> (r: ReadError)
    ensures
        r@ == ReadErrorView::RetryByReconnect("publish Gateway byte budget is exhausted"@),
{
    ReadError::RetryByReconnect("publish Gateway byte budget is exhausted")
}

/// The error code and the largest size of the body that follows a command.
pub open spec fn body_limit(
    command: CommandView,
    max_message_bytes: nat,
    max_body_bytes: nat,
) -> Option<(Seq<char>, nat)> {
    match command {
        CommandView::Identify | CommandView::Auth => Some(
            ("E_BAD_BODY"@, MAX_CONTROL_BODY_BYTES as nat),
        ),
        CommandView::Publish { .. } | CommandView::DeferredPublish { .. } => Some(
            ("E_BAD_MESSAGE"@, max_message_bytes),
        ),
        CommandView::MultiPublish { .. } => Some(("E_BAD_BODY"@, max_body_bytes)),
        _ => None,
    }
}

fn limit_of(command: &Command, max_message_bytes: usize, max_body_bytes: usize) -> (r: Option<
    (&'static str, usize),
>)
    ensures
        match r {
            Some((code, maximum)) => body_limit(
                command@,
                max_message_bytes as nat,
                max_body_bytes as nat,
            ) == Some((code@, maximum as nat)),
            None => body_limit(command@, max_message_bytes as nat, max_body_bytes as nat) is None,
        },
{
    match command {
        Command::Identify => Some(("E_BAD_BODY", MAX_CONTROL_BODY_BYTES)),
        Command::Auth => Some(("E_BAD_BODY", MAX_CONTROL_BODY_BYTES)),
        Command::Publish { .. } => Some(("E_BAD_MESSAGE", max_message_bytes)),
        Command::DeferredPublish { .. } => Some(("E_BAD_MESSAGE", max_message_bytes)),
        Command::MultiPublish { .. } => Some(("E_BAD_BODY", max_body_bytes)),
        _ => None,
    }
}

/// What a command that is refused is answered.
pub open spec fn command_error(e: CommandErrorView) -> Seq<char> {
    match e {
        CommandErrorView::Invalid(m) => "E_INVALID "@ + m,
        CommandErrorView::BadTopic => "E_BAD_TOPIC invalid topic"@,
        CommandErrorView::BadChannel => "E_BAD_CHANNEL invalid channel"@,
    }
}

/// The first position of a line feed, from `k` on; the end where there is none.
pub open spec fn line_feed(input: Seq<u8>, k: int) -> int
    decreases input.len() - k,
{
    if k < 0 || k >= input.len() || input[k] == 10u8 {
        k
    } else {
        line_feed(input, k + 1)
    }
}

/// What stands before a command's body.
pub enum Head {
    /// More bytes are needed.
    Incomplete,
    /// A command without a body.
    Bare { command: Command, line: Vec<u8> },
    /// A command with a body of so many bytes.
    Body { command: Command, line: Vec<u8>, length: usize },
}

/// `Head` with its texts.
pub enum HeadView {
    Incomplete,
    Bare { command: CommandView, line: Seq<u8> },
    Body { command: CommandView, line: Seq<u8>, length: nat },
}

impl View for Head {
    type V = HeadView;

    open spec fn view(&self) -> HeadView {
        match self {
            Head::Incomplete => HeadView::Incomplete,
            Head::Bare { command, line } => HeadView::Bare { command: command@, line: line@ },
            Head::Body { command, line, length } => HeadView::Body {
                command: command@,
                line: line@,
                length: *length as nat,
            },
        }
    }
}

/// The error of a body of this size.
pub open spec fn size_error(code: Seq<char>, length: nat, maximum: nat) -> ReadErrorView {
    ReadErrorView::Protocol(
        code,
        "command body size "@ + text::dec(length) + " is outside 1..="@ + text::dec(maximum),
    )
}

/// What stands in front of some bytes, where the line ends before `end`.
pub open spec fn head_at(
    input: Seq<u8>,
    end: int,
    max_message_bytes: nat,
    max_body_bytes: nat,
) -> Result<HeadView, ReadErrorView> {
    let line = input.take(end);
    match command::command_line(line) {
        Err(e) => Err(ReadErrorView::Protocol("E_INVALID"@, command_error(e))),
        Ok(command) => match body_limit(command, max_message_bytes, max_body_bytes) {
            None => Ok(HeadView::Bare { command, line }),
            Some((code, maximum)) => if input.len() < end + 4 {
                Ok(HeadView::Incomplete)
            } else {
                let length = wire::be_value(input.subrange(end, end + 4));
                if length == 0 || length > maximum {
                    Err(size_error(code, length, maximum))
                } else {
                    Ok(HeadView::Body { command, line, length })
                }
            },
        },
    }
}

/// What stands in front of some bytes: a command line, and the size of the body that follows
/// where one does.
pub open spec fn head_of(
    input: Seq<u8>,
    max_message_bytes: nat,
    max_body_bytes: nat,
) -> Result<HeadView, ReadErrorView> {
    let n = line_feed(input, 0);
    if n < MAX_COMMAND_LINE_BYTES && n < input.len() {
        head_at(input, n + 1, max_message_bytes, max_body_bytes)
    } else if input.len() > MAX_COMMAND_LINE_BYTES {
        Err(ReadErrorView::Protocol("E_INVALID"@, "command line exceeds limit"@))
    } else {
        Ok(HeadView::Incomplete)
    }
}

proof fn lemma_line_feed(input: Seq<u8>, k: int)
    requires
        0 <= k <= input.len(),
    ensures
        k <= line_feed(input, k) <= input.len(),
        forall|j: int| k <= j < line_feed(input, k) ==> input[j] != 10u8,
        line_feed(input, k) < input.len() ==> input[line_feed(input, k)] == 10u8,
    decreases input.len() - k,
{
    if k < input.len() && input[k] != 10u8 {
        lemma_line_feed(input, k + 1);
    }
}

proof fn lemma_line_feed_is(input: Seq<u8>, k: int, n: int)
    requires
        0 <= k <= n <= input.len(),
        forall|j: int| k <= j < n ==> input[j] != 10u8,
        n == input.len() || input[n] == 10u8,
    ensures
        line_feed(input, k) == n,
    decreases n - k,
{
    if k < n {
        lemma_line_feed_is(input, k + 1, n);
    }
}

/// The result of reading what stands before a command's body.
pub open spec fn head_result(r: Result<Head, ReadError>) -> Result<HeadView, ReadErrorView> {
    match r {
        Ok(h) => Ok(h@),
        Err(e) => Err(e@),
    }
}

/// Reads what stands before a command's body from the bytes that have arrived.
pub fn read_head(input: &[u8], max_message_bytes: usize, max_body_bytes: usize) -> (r: Result<
    Head,
    ReadError,
>)
    ensures
        head_result(r) == head_of(input@, max_message_bytes as nat, max_body_bytes as nat),
{
    let mut n: usize = 0;
    while n < input.len() && n < MAX_COMMAND_LINE_BYTES && input[n] != 10u8
        invariant
            n <= input@.len(),
            n <= MAX_COMMAND_LINE_BYTES,
            forall|j: int| 0 <= j < n ==> input@[j] != 10u8,
        decreases input@.len() - n,
    {
        n += 1;
    }
    proof {
        lemma_line_feed(input@, 0);
        if n == input@.len() || input@[n as int] == 10u8 {
            lemma_line_feed_is(input@, 0, n as int);
        } else {
            let m = line_feed(input@, 0);
            if m < n {
                assert(input@[m] == 10u8);
            }
        }
    }
    if n == MAX_COMMAND_LINE_BYTES || n == input.len() {
        if input.len() > MAX_COMMAND_LINE_BYTES {
            return Err(ReadError::Protocol("E_INVALID", "command line exceeds limit".to_owned()));
        }
        return Ok(Head::Incomplete);
    }
    let end: usize = n + 1;
    let line = slice_to_vec(vstd::slice::slice_subrange(input, 0, end));
    assert(line@ =~= input@.take(end as int));
    let command = match Command::parse(line.as_slice()) {
        Ok(c) => c,
        Err(e) => {
            return Err(ReadError::Protocol("E_INVALID", e.message()));
        },
    };
    let (code, maximum) = match limit_of(&command, max_message_bytes, max_body_bytes) {
        None => {
            return Ok(Head::Bare { command, line });
        },
        Some(limit) => limit,
    };
    if input.len() < 4 || input.len() - 4 < end {
        return Ok(Head::Incomplete);
    }
    let length: u32 = wire::read_u32(input, end);
    if length == 0 || length as u64 > maximum as u64 {
        let mut detail = "command body size ".to_owned();
        detail.append(text::decimal(length as u64).as_str());
        detail.append(" is outside 1..=");
        detail.append(text::decimal(maximum as u64).as_str());
        return Err(ReadError::Protocol(code, detail));
    }
    Ok(Head::Body { command, line, length: length as usize })
}

/// The error of a batch.
pub open spec fn batch_error(e: MpubErrorView) -> ReadErrorView {
    match e {
        MpubErrorView::BadBody(m) => ReadErrorView::Protocol("E_BAD_BODY"@, m),
        MpubErrorView::BadMessage(m) => ReadErrorView::Protocol("E_BAD_MESSAGE"@, m),
    }
}

/// What is wrong with the body of a command: a batch must hold messages within the limit.
pub open spec fn body_error(command: CommandView, body: Seq<u8>, max_message_bytes: nat) -> Option<
    ReadErrorView,
> {
    if command is MultiPublish {
        match mpub::batch(body, max_message_bytes) {
            Ok(_) => None,
            Err(e) => Some(batch_error(e)),
        }
    } else {
        None
    }
}

/// The command with the body that has arrived.
pub fn read_body(command: Command, line: Vec<u8>, body: Bytes, max_message_bytes: usize) -> (r:
    Result<ClientCommand, ReadError>)
    ensures
        match r {
            Ok(c) => c.command == command && c.line == line && c.body == Some(body) && body_error(
                command@,
                mpub::bytes_held(body),
                max_message_bytes as nat,
            ) is None,
            Err(e) => body_error(command@, mpub::bytes_held(body), max_message_bytes as nat)
                == Some(e@),
        },
{
    if let Command::MultiPublish { .. } = &command {
        let whole = mpub::bytes_range(&body, 0, mpub::bytes_slice(&body).len());
        proof {
            assert(mpub::bytes_held(whole) =~= mpub::bytes_held(body));
        }
        if let Err(e) = mpub::parse_mpub_bytes(whole, max_message_bytes) {
            return Err(ReadError::Protocol(e.code(), e.message().to_owned()));
        }
    }
    Ok(ClientCommand { command, line, body: Some(body) })
}

/// What a command is sent to a broker as, before its body.
pub open spec fn command_head(line: Seq<u8>, body: Option<Bytes>) -> Seq<u8> {
    match body {
        Some(b) => line + wire::be(frame::size_field(mpub::bytes_held(b).len()), 4),
        None => line,
    }
}

impl ClientCommand {
    /// What the command is sent to a broker as, before its body.
    pub fn head(&self) -> (r: Vec<u8>)
        ensures
            r@ == command_head(self.line@, self.body),
    {
        let mut r: Vec<u8> = Vec::new();
        wire::push_all(&mut r, self.line.as_slice());
        assert(r@ =~= self.line@);
        if let Some(b) = &self.body {
            let length: usize = mpub::bytes_slice(b).len();
            proof {
                wire::lemma_be_round_trip(frame::size_field(length as nat), 4);
            }
            wire::push_be(&mut r, (length as u64) % 0x1_0000_0000u64, 4);
        }
        r
    }
}

/// Once a command's head was read, the bytes that follow do not change it: it does not matter
/// how the stream is cut.
pub proof fn law_reading_does_not_depend_on_later_bytes(
    input: Seq<u8>,
    more: Seq<u8>,
    max_message_bytes: nat,
    max_body_bytes: nat,
)
    requires
        head_of(input, max_message_bytes, max_body_bytes) != Ok::<HeadView, ReadErrorView>(
            HeadView::Incomplete,
        ),
    ensures
        head_of(input + more, max_message_bytes, max_body_bytes) == head_of(
            input,
            max_message_bytes,
            max_body_bytes,
        ),
{
    let n = line_feed(input, 0);
    let all = input + more;
    lemma_line_feed(input, 0);
    lemma_line_feed(all, 0);
    if n < MAX_COMMAND_LINE_BYTES && n < input.len() {
        assert forall|j: int| 0 <= j < n implies all[j] != 10u8 by {
            assert(all[j] == input[j]);
        }
        lemma_line_feed_is(all, 0, n);
        assert(all.take(n + 1) =~= input.take(n + 1));
        if input.len() >= n + 5 {
            assert(all.subrange(n + 1, n + 5) =~= input.subrange(n + 1, n + 5));
        }
    } else {
        let m = line_feed(all, 0);
        if m < n {
            assert(all[m] == input[m]);
        }
    }
}

/// What is sent to a broker for a command reads back as that command.
pub proof fn law_forwarded_command_reads_back(
    input: Seq<u8>,
    max_message_bytes: nat,
    max_body_bytes: nat,
    body: Bytes,
)
    requires
        head_of(input, max_message_bytes, max_body_bytes) matches Ok(
            HeadView::Body { length, .. },
        ) && mpub::bytes_held(body).len() == length,
    ensures
        head_of(input, max_message_bytes, max_body_bytes) matches Ok(
            HeadView::Body { line, .. },
        ) && head_of(
            command_head(line, Some(body)) + mpub::bytes_held(body),
            max_message_bytes,
            max_body_bytes,
        ) == head_of(input, max_message_bytes, max_body_bytes),
{
    let n = line_feed(input, 0);
    lemma_line_feed(input, 0);
    let line = input.take(n + 1);
    let held = mpub::bytes_held(body);
    let length = held.len();
    lemma_four_bytes(input.subrange(n + 1, n + 5));
    let sent = command_head(line, Some(body)) + held;
    wire::lemma_be_limits();
    wire::lemma_be_round_trip(frame::size_field(length), 4);
    assert(frame::size_field(length) == length);
    assert(sent.take(n + 1) =~= line);
    assert(sent.subrange(n + 1, n + 5) =~= wire::be(length, 4));
    assert forall|j: int| 0 <= j < n implies sent[j] != 10u8 by {
        assert(sent[j] == input[j]);
    }
    assert(sent[n] == input[n]);
    lemma_line_feed_is(sent, 0, n);
}

proof fn lemma_four_bytes(s: Seq<u8>)
    requires
        s.len() == 4,
    ensures
        wire::be_value(s) < 0x1_0000_0000,
{
    reveal_with_fuel(wire::be_value, 5);
}

/// Only commands that say something more have a body: of those with a message it is as large as
/// messages may be, of those with many as large as requests may be.
pub proof fn law_bodies_have_the_limit_of_their_command(command: CommandView, m: nat, b: nat)
    ensures
        ({
            let r = body_limit(command, m, b);
            &&& r is Some <==> command is Identify || command is Auth || command is Publish
                || command is DeferredPublish || command is MultiPublish
            &&& command is Publish || command is DeferredPublish ==> (r->0).1 == m && (r->0).0
                == "E_BAD_MESSAGE"@
            &&& command is MultiPublish ==> (r->0).1 == b && (r->0).0 == "E_BAD_BODY"@
            &&& command is Identify || command is Auth ==> (r->0).1 == 1_048_576 && (r->0).0
                == "E_BAD_BODY"@
        }),
{
}

/// A command is read from its first line, which ends with a line feed within 1024 bytes; its body
/// is announced behind it, and may be neither empty nor too large.
pub proof fn law_commands_are_read_from_their_first_line(input: Seq<u8>, m: nat, b: nat)
    ensures
        ({
            let r = head_of(input, m, b);
            &&& r matches Ok(HeadView::Bare { command, line }) ==> line.len() <= 1024
                && line.len() > 0 && line.last() == 10u8 && input.take(line.len() as int) == line
                && command::command_line(line) == Ok::<CommandView, CommandErrorView>(command)
                && body_limit(command, m, b) is None
            &&& r matches Ok(HeadView::Body { command, line, length }) ==> line.len() <= 1024
                && line.len() > 0 && line.last() == 10u8 && input.take(line.len() as int) == line
                && command::command_line(line) == Ok::<CommandView, CommandErrorView>(command)
                && body_limit(command, m, b) is Some && 0 < length <= (body_limit(
                command,
                m,
                b,
            )->0).1 && input.len() >= line.len() + 4 && length == wire::be_value(
                input.subrange(line.len() as int, line.len() as int + 4),
            )
            &&& input.len() > 1024 && (forall|i: int| 0 <= i < 1024 ==> input[i] != 10u8)
                ==> r is Err
            &&& input.len() <= 1024 && (forall|i: int| 0 <= i < input.len() ==> input[i] != 10u8)
                ==> r == Ok::<HeadView, ReadErrorView>(HeadView::Incomplete)
        }),
{
    lemma_line_feed(input, 0);
    let n = line_feed(input, 0);
    if n < MAX_COMMAND_LINE_BYTES && n < input.len() {
        let line = input.take(n + 1);
        assert(line.last() == 10u8);
    }
    if input.len() > 1024 && (forall|i: int| 0 <= i < 1024 ==> input[i] != 10u8) {
        assert(n >= 1024);
    }
    if input.len() <= 1024 && (forall|i: int| 0 <= i < input.len() ==> input[i] != 10u8) {
        assert(n == input.len());
    }
}

/// A body is refused exactly where it is a batch and one that does not hold together.
pub proof fn law_batches_are_refused_when_broken(command: CommandView, body: Seq<u8>, m: nat)
    ensures
        body_error(command, body, m) is Some <==> command is MultiPublish && mpub::batch(body, m)
            is Err,
        body_error(command, body, m) matches Some(e) ==> e is Protocol,
{
}

/// A batch that is malformed is a bad body, and one with a message that is not
/// within the limits a bad message.
pub proof fn law_bad_batches_have_their_code(m: Seq<char>)
    ensures
        batch_error(MpubErrorView::BadBody(m)) == ReadErrorView::Protocol("E_BAD_BODY"@, m),
        batch_error(MpubErrorView::BadMessage(m)) == ReadErrorView::Protocol("E_BAD_MESSAGE"@, m),
{
}

} // verus!
