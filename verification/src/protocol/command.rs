//! The command line that a client sends.
use crate::protocol::name;
use crate::text;
use vstd::prelude::*;
use vstd::string::*;
use vstd::utf8::*;

verus! {

/// A client command.
#[allow(inconsistent_fields)]
#[derive(Clone, Debug, PartialEq, Eq)]
pub enum Command {
    Identify,
    Auth,
    Subscribe { topic: String, channel: String },
    Publish { topic: String },
    MultiPublish { topic: String },
    DeferredPublish { topic: String, delay_ms: u64 },
    Ready(u64),
    Finish(u64),
    Requeue { id: u64, delay_ms: i64 },
    Touch(u64),
    Close,
    Noop,
}

/// `Command` with its names as texts.
#[allow(inconsistent_fields)]
pub enum CommandView {
    Identify,
    Auth,
    Subscribe { topic: Seq<char>, channel: Seq<char> },
    Publish { topic: Seq<char> },
    MultiPublish { topic: Seq<char> },
    DeferredPublish { topic: Seq<char>, delay_ms: u64 },
    Ready(u64),
    Finish(u64),
    Requeue { id: u64, delay_ms: i64 },
    Touch(u64),
    Close,
    Noop,
}

impl View for Command {
    type V = CommandView;

    open spec fn view(&self) -> CommandView {
        match self {
            Command::Identify => CommandView::Identify,
            Command::Auth => CommandView::Auth,
            Command::Subscribe { topic, channel } => CommandView::Subscribe {
                topic: topic@,
                channel: channel@,
            },
            Command::Publish { topic } => CommandView::Publish { topic: topic@ },
            Command::MultiPublish { topic } => CommandView::MultiPublish { topic: topic@ },
            Command::DeferredPublish { topic, delay_ms } => CommandView::DeferredPublish {
                topic: topic@,
                delay_ms: *delay_ms,
            },
            Command::Ready(n) => CommandView::Ready(*n),
            Command::Finish(id) => CommandView::Finish(*id),
            Command::Requeue { id, delay_ms } => CommandView::Requeue {
                id: *id,
                delay_ms: *delay_ms,
            },
            Command::Touch(id) => CommandView::Touch(*id),
            Command::Close => CommandView::Close,
            Command::Noop => CommandView::Noop,
        }
    }
}

/// Why a command is refused.
#[derive(Clone, Copy, Debug, PartialEq, Eq)]
pub enum CommandError {
    Invalid(&'static str),
    BadTopic,
    BadChannel,
}

/// `CommandError` with its reason as text.
pub enum CommandErrorView {
    Invalid(Seq<char>),
    BadTopic,
    BadChannel,
}

impl View for CommandError {
    type V = CommandErrorView;

    open spec fn view(&self) -> CommandErrorView {
        match self {
            CommandError::Invalid(m) => CommandErrorView::Invalid(m@),
            CommandError::BadTopic => CommandErrorView::BadTopic,
            CommandError::BadChannel => CommandErrorView::BadChannel,
        }
    }
}

impl CommandError {
    /// The protocol error that answers the command.
    pub fn message(&self) -> (r: String)
        ensures
            r@ == (match self@ {
                CommandErrorView::Invalid(m) => "E_INVALID "@ + m,
                CommandErrorView::BadTopic => "E_BAD_TOPIC invalid topic"@,
                CommandErrorView::BadChannel => "E_BAD_CHANNEL invalid channel"@,
            }),
    {
        match self {
            CommandError::Invalid(m) => {
                let mut r = "E_INVALID ".to_owned();
                r.append(m);
                r
            },
            CommandError::BadTopic => "E_BAD_TOPIC invalid topic".to_owned(),
            CommandError::BadChannel => "E_BAD_CHANNEL invalid channel".to_owned(),
        }
    }
}

/// Space, tab, line feed, form feed and carriage return.
pub open spec fn is_separator(c: char) -> bool {
    c == ' ' || c == '\t' || c == '\n' || c == '\u{c}' || c == '\r'
}

/// The maximal runs of characters that are not separators.
pub open spec fn words(s: Seq<char>) -> Seq<Seq<char>>
    decreases s.len(),
{
    if s.len() == 0 {
        Seq::empty()
    } else {
        let before = words(s.drop_last());
        let c = s.last();
        if is_separator(c) {
            before
        } else if s.len() > 1 && !is_separator(s[s.len() - 2]) {
            before.drop_last().push(before.last().push(c))
        } else {
            before.push(seq![c])
        }
    }
}

pub type Parsed = Result<CommandView, CommandErrorView>;

/// A refusal with a reason.
pub open spec fn invalid(reason: Seq<char>) -> CommandErrorView {
    CommandErrorView::Invalid(reason)
}

/// The unsigned number that a word denotes.
pub open spec fn number_word(w: Seq<char>) -> Result<u64, CommandErrorView> {
    match text::parsed_unsigned(w, 10, u64::MAX as nat) {
        Some(n) => Ok(n as u64),
        None => Err(invalid("expected unsigned integer"@)),
    }
}

/// The signed number that a word denotes.
pub open spec fn integer_word(w: Seq<char>) -> Result<i64, CommandErrorView> {
    match text::parsed_signed(w) {
        Some(n) => Ok(n as i64),
        None => Err(invalid("expected integer"@)),
    }
}

/// The message ID that a word of sixteen bytes denotes.
pub open spec fn id_word(w: Seq<char>) -> Result<u64, CommandErrorView> {
    match text::parsed_unsigned(w, 16, u64::MAX as nat) {
        Some(n) => if encode_utf8(w).len() == 16 {
            Ok(n as u64)
        } else {
            Err(invalid("message ID must contain 16 hex bytes"@))
        },
        None => Err(invalid("message ID must contain 16 hex bytes"@)),
    }
}

/// The command that a sequence of words denotes.
pub open spec fn command_of(w: Seq<Seq<char>>) -> Parsed {
    if w.len() == 0 {
        Err(invalid("empty command"@))
    } else if w.len() == 1 && w[0] == "IDENTIFY"@ {
        Ok(CommandView::Identify)
    } else if w.len() == 1 && w[0] == "AUTH"@ {
        Ok(CommandView::Auth)
    } else if w.len() == 3 && w[0] == "SUB"@ {
        if !name::valid_name(w[1]) {
            Err(CommandErrorView::BadTopic)
        } else if !name::valid_name(w[2]) {
            Err(CommandErrorView::BadChannel)
        } else {
            Ok(CommandView::Subscribe { topic: w[1], channel: w[2] })
        }
    } else if w.len() == 2 && w[0] == "PUB"@ {
        if !name::valid_name(w[1]) {
            Err(CommandErrorView::BadTopic)
        } else {
            Ok(CommandView::Publish { topic: w[1] })
        }
    } else if w.len() == 2 && w[0] == "MPUB"@ {
        if !name::valid_name(w[1]) {
            Err(CommandErrorView::BadTopic)
        } else {
            Ok(CommandView::MultiPublish { topic: w[1] })
        }
    } else if w.len() == 3 && w[0] == "DPUB"@ {
        if !name::valid_name(w[1]) {
            Err(CommandErrorView::BadTopic)
        } else {
            match number_word(w[2]) {
                Ok(delay_ms) => Ok(CommandView::DeferredPublish { topic: w[1], delay_ms }),
                Err(e) => Err(e),
            }
        }
    } else if w.len() == 1 && w[0] == "RDY"@ {
        Ok(CommandView::Ready(1))
    } else if w.len() == 2 && w[0] == "RDY"@ {
        match number_word(w[1]) {
            Ok(n) => Ok(CommandView::Ready(n)),
            Err(e) => Err(e),
        }
    } else if w.len() == 2 && w[0] == "FIN"@ {
        match id_word(w[1]) {
            Ok(id) => Ok(CommandView::Finish(id)),
            Err(e) => Err(e),
        }
    } else if w.len() == 3 && w[0] == "REQ"@ {
        match id_word(w[1]) {
            Ok(id) => match integer_word(w[2]) {
                Ok(delay_ms) => Ok(CommandView::Requeue { id, delay_ms }),
                Err(e) => Err(e),
            },
            Err(e) => Err(e),
        }
    } else if w.len() == 2 && w[0] == "TOUCH"@ {
        match id_word(w[1]) {
            Ok(id) => Ok(CommandView::Touch(id)),
            Err(e) => Err(e),
        }
    } else if w.len() == 1 && w[0] == "CLS"@ {
        Ok(CommandView::Close)
    } else if w.len() == 1 && w[0] == "NOP"@ {
        Ok(CommandView::Noop)
    } else {
        Err(invalid("unsupported command or arguments"@))
    }
}

/// The command that a line of bytes denotes.
pub open spec fn command_line(line: Seq<u8>) -> Parsed {
    if !valid_utf8(line) {
        Err(invalid("command is not UTF-8"@))
    } else {
        command_of(words(decode_utf8(line)))
    }
}

/// A result with its view.
pub open spec fn result_view<T>(r: Result<T, CommandError>) -> Result<T, CommandErrorView> {
    match r {
        Ok(v) => Ok(v),
        Err(e) => Err(e@),
    }
}

proof fn lemma_words_nonempty(s: Seq<char>)
    requires
        s.len() > 0,
        !is_separator(s.last()),
    ensures
        words(s).len() > 0,
    decreases s.len(),
{
    if s.len() > 1 && !is_separator(s[s.len() - 2]) {
        lemma_words_nonempty(s.drop_last());
    }
}

/// Splits a text at its separators.
fn split_words(s: &str) -> (r: Vec<String>)
    ensures
        text::texts(r@) == words(s@),
{
    let v = text::chars_of(s);
    let mut out: Vec<String> = Vec::new();
    let mut i: usize = 0;
    assert(v@.take(0) =~= Seq::<char>::empty());
    assert(text::texts(out@) =~= Seq::<Seq<char>>::empty());
    while i < v.len()
        invariant
            i <= v@.len(),
            text::texts(out@) == words(v@.take(i as int)),
        decreases v@.len() - i,
    {
        let c: char = v[i];
        let ghost s0 = v@.take(i as int);
        let ghost s1 = v@.take(i + 1);
        assert(s1.drop_last() =~= s0);
        assert(s1.last() == c);
        if c == ' ' || c == '\t' || c == '\n' || c == '\u{c}' || c == '\r' {
        } else {
            let mut joins: bool = false;
            if i > 0 {
                let p: char = v[i - 1];
                joins = !(p == ' ' || p == '\t' || p == '\n' || p == '\u{c}' || p == '\r');
                assert(s1[s1.len() - 2] == p);
                assert(s0.last() == p);
            }
            let ghost before = out@;
            if joins {
                proof {
                    lemma_words_nonempty(s0);
                    assert(text::texts(out@).len() == out@.len());
                }
                match out.pop() {
                    Some(mut w) => {
                        assert(before.last() == w);
                        let ghost w0 = w@;
                        w.push(c);
                        out.push(w);
                        assert(text::texts(before).last() == w0);
                        assert(text::texts(out@) =~= text::texts(before).drop_last().push(
                            w0.push(c),
                        ));
                    },
                    None => {
                        assert(false);
                    },
                }
            } else {
                let mut w = String::new();
                w.push(c);
                out.push(w);
                assert(w@ =~= seq![c]);
                assert(text::texts(out@) =~= text::texts(before).push(seq![c]));
            }
        }
        i += 1;
    }
    assert(v@.take(v@.len() as int) =~= v@);
    out
}

/// Parses an unsigned number.
fn parse_u64(value: &str) -> (r: Result<u64, CommandError>)
    ensures
        result_view(r) == number_word(value@),
{
    match text::parse_decimal(value, u64::MAX) {
        Some(n) => Ok(n),
        None => Err(CommandError::Invalid("expected unsigned integer")),
    }
}

/// Parses a signed number.
fn parse_i64(value: &str) -> (r: Result<i64, CommandError>)
    ensures
        result_view(r) == integer_word(value@),
{
    let v = text::chars_of(value);
    match text::parse_signed(v.as_slice()) {
        Some(n) => Ok(n),
        None => Err(CommandError::Invalid("expected integer")),
    }
}

/// Parses a message ID of sixteen hexadecimal digits.
fn parse_id(value: &str) -> (r: Result<u64, CommandError>)
    ensures
        result_view(r) == id_word(value@),
{
    if value.as_bytes().len() != 16 {
        return Err(CommandError::Invalid("message ID must contain 16 hex bytes"));
    }
    let v = text::chars_of(value);
    match text::parse_unsigned(v.as_slice(), 16, u64::MAX) {
        Some(n) => Ok(n),
        None => Err(CommandError::Invalid("message ID must contain 16 hex bytes")),
    }
}

/// A valid topic, copied.
fn topic_word(value: &str) -> (r: Result<String, CommandError>)
    ensures
        match r {
            Ok(t) => name::valid_name(value@) && t@ == value@,
            Err(e) => !name::valid_name(value@) && e@ == CommandErrorView::BadTopic,
        },
{
    match name::validate_name(value) {
        Ok(_) => Ok(value.to_owned()),
        Err(_) => Err(CommandError::BadTopic),
    }
}

impl Command {
    /// Parses a command line. White space at its end is ignored.
    pub fn parse(line: &[u8]) -> (r: Result<Self, CommandError>)
        ensures
            match r {
                Ok(c) => command_line(line@) == Ok::<CommandView, CommandErrorView>(c@),
                Err(e) => command_line(line@) == Err::<CommandView, CommandErrorView>(e@),
            },
    {
        let line_text = match text::utf8_text(line) {
            Some(t) => t,
            None => {
                return Err(CommandError::Invalid("command is not UTF-8"));
            },
        };
        proof {
            vstd::utf8::encode_utf8_decode_utf8(line_text@);
        }
        let parts = split_words(line_text.as_str());
        let ghost w = text::texts(parts@);
        if parts.len() == 0 {
            return Err(CommandError::Invalid("empty command"));
        }
        assert(w[0] == parts@[0]@);
        let command = parts[0].as_str();
        if parts.len() == 1 {
            if text::str_eq(command, "IDENTIFY") {
                return Ok(Command::Identify);
            }
            if text::str_eq(command, "AUTH") {
                return Ok(Command::Auth);
            }
            if text::str_eq(command, "RDY") {
                return Ok(Command::Ready(1));
            }
            if text::str_eq(command, "CLS") {
                return Ok(Command::Close);
            }
            if text::str_eq(command, "NOP") {
                return Ok(Command::Noop);
            }
        } else if parts.len() == 2 {
            assert(w[1] == parts@[1]@);
            proof {
                lemma_verbs_differ();
            }
            let first = parts[1].as_str();
            if text::str_eq(command, "PUB") {
                return match topic_word(first) {
                    Ok(topic) => Ok(Command::Publish { topic }),
                    Err(e) => Err(e),
                };
            }
            if text::str_eq(command, "MPUB") {
                return match topic_word(first) {
                    Ok(topic) => Ok(Command::MultiPublish { topic }),
                    Err(e) => Err(e),
                };
            }
            if text::str_eq(command, "RDY") {
                return match parse_u64(first) {
                    Ok(n) => Ok(Command::Ready(n)),
                    Err(e) => Err(e),
                };
            }
            if text::str_eq(command, "FIN") {
                return match parse_id(first) {
                    Ok(id) => Ok(Command::Finish(id)),
                    Err(e) => Err(e),
                };
            }
            if text::str_eq(command, "TOUCH") {
                return match parse_id(first) {
                    Ok(id) => Ok(Command::Touch(id)),
                    Err(e) => Err(e),
                };
            }
        } else if parts.len() == 3 {
            assert(w[1] == parts@[1]@);
            assert(w[2] == parts@[2]@);
            proof {
                lemma_verbs_differ();
            }
            let first = parts[1].as_str();
            let second = parts[2].as_str();
            if text::str_eq(command, "SUB") {
                return match topic_word(first) {
                    Ok(topic) => match name::validate_name(second) {
                        Ok(_) => Ok(Command::Subscribe { topic, channel: second.to_owned() }),
                        Err(_) => Err(CommandError::BadChannel),
                    },
                    Err(e) => Err(e),
                };
            }
            if text::str_eq(command, "DPUB") {
                return match topic_word(first) {
                    Ok(topic) => match parse_u64(second) {
                        Ok(delay_ms) => Ok(Command::DeferredPublish { topic, delay_ms }),
                        Err(e) => Err(e),
                    },
                    Err(e) => Err(e),
                };
            }
            if text::str_eq(command, "REQ") {
                return match parse_id(first) {
                    Ok(id) => match parse_i64(second) {
                        Ok(delay_ms) => Ok(Command::Requeue { id, delay_ms }),
                        Err(e) => Err(e),
                    },
                    Err(e) => Err(e),
                };
            }
        }
        Err(CommandError::Invalid("unsupported command or arguments"))
    }
}

/// The verbs of commands differ from each other.
proof fn lemma_verbs_differ()
    ensures
        "SUB"@ != "DPUB"@,
        "SUB"@ != "REQ"@,
        "DPUB"@ != "REQ"@,
        "PUB"@ != "MPUB"@,
        "PUB"@ != "RDY"@,
        "PUB"@ != "FIN"@,
        "PUB"@ != "TOUCH"@,
        "MPUB"@ != "RDY"@,
        "MPUB"@ != "FIN"@,
        "MPUB"@ != "TOUCH"@,
        "RDY"@ != "FIN"@,
        "RDY"@ != "TOUCH"@,
        "FIN"@ != "TOUCH"@,
{
    reveal_strlit("SUB");
    reveal_strlit("DPUB");
    reveal_strlit("REQ");
    reveal_strlit("PUB");
    reveal_strlit("MPUB");
    reveal_strlit("RDY");
    reveal_strlit("FIN");
    reveal_strlit("TOUCH");
    assert("MPUB"@.len() == 4 && "TOUCH"@.len() == 5 && "DPUB"@.len() == 4);
    assert("SUB"@[0] == 'S');
    assert("REQ"@[0] == 'R');
    assert("PUB"@[0] == 'P');
    assert("RDY"@[0] == 'R');
    assert("FIN"@[0] == 'F');
}

/// The hexadecimal notation of an ID in a message frame is the word that
/// finishes, requeues or touches that message.
pub proof fn law_message_id_is_accepted_back(id: u64)
    ensures
        id_word(text::hex_fixed(id as nat, 16)) == Ok::<u64, CommandErrorView>(id),
{
    let s = text::hex_fixed(id as nat, 16);
    assert(pow16(16) == 0x1_0000_0000_0000_0000) by {
        reveal_with_fuel(pow16, 17);
    }
    lemma_hex_value(id as nat, 16);
    assert(s[0] != '+') by {
        assert(text::digit_of(s[0], 16) is Some);
    }
    assert(vstd::utf8::is_ascii_chars(s)) by {
        assert forall|i: int| 0 <= i < s.len() implies '\0' <= #[trigger] s[i] <= '\u{7f}' by {
            assert(text::digit_of(s[i], 16) is Some);
        }
    }
    vstd::utf8::is_ascii_chars_encode_utf8(s);
}

spec fn pow16(width: nat) -> nat
    decreases width,
{
    if width == 0 {
        1
    } else {
        pow16((width - 1) as nat) * 16
    }
}

proof fn lemma_hex_value(n: nat, width: nat)
    requires
        n < pow16(width),
    ensures
        text::hex_fixed(n, width).len() == width,
        text::all_digits(text::hex_fixed(n, width), 16),
        text::numeral_value(text::hex_fixed(n, width), 16) == n,
    decreases width,
{
    let s = text::hex_fixed(n, width);
    if width > 0 {
        let t = text::hex_fixed(n / 16, (width - 1) as nat);
        lemma_hex_value(n / 16, (width - 1) as nat);
        assert(s.drop_last() =~= t);
        assert forall|i: int| 0 <= i < s.len() implies (#[trigger] text::digit_of(s[i], 16))
            is Some by {
            if i < t.len() {
                assert(s[i] == t[i]);
                assert(text::digit_of(t[i], 16) is Some);
            }
        }
    }
}

proof fn lemma_verbs()
    ensures
        "IDENTIFY"@.len() == 8,
        "AUTH"@.len() == 4 && "AUTH"@[0] == 'A',
        "SUB"@.len() == 3 && "SUB"@[0] == 'S',
        "PUB"@.len() == 3 && "PUB"@[0] == 'P',
        "MPUB"@.len() == 4 && "MPUB"@[0] == 'M',
        "DPUB"@.len() == 4 && "DPUB"@[0] == 'D',
        "RDY"@.len() == 3 && "RDY"@[0] == 'R' && "RDY"@[1] == 'D',
        "FIN"@.len() == 3 && "FIN"@[0] == 'F',
        "REQ"@.len() == 3 && "REQ"@[0] == 'R' && "REQ"@[1] == 'E',
        "TOUCH"@.len() == 5,
        "CLS"@.len() == 3 && "CLS"@[0] == 'C',
        "NOP"@.len() == 3 && "NOP"@[0] == 'N',
{
    reveal_strlit("IDENTIFY");
    reveal_strlit("AUTH");
    reveal_strlit("SUB");
    reveal_strlit("PUB");
    reveal_strlit("MPUB");
    reveal_strlit("DPUB");
    reveal_strlit("RDY");
    reveal_strlit("FIN");
    reveal_strlit("REQ");
    reveal_strlit("TOUCH");
    reveal_strlit("CLS");
    reveal_strlit("NOP");
}

/// Each command is written in one way: a verb and its arguments, with the names in them valid
/// and the numbers in them numbers; and what is written so is the command.
pub proof fn law_commands_are_written_in_one_way(w: Seq<Seq<char>>)
    ensures
        ({
            let r = command_of(w);
            &&& r == Ok::<CommandView, CommandErrorView>(CommandView::Identify) <==> w.len() == 1
                && w[0] == "IDENTIFY"@
            &&& r == Ok::<CommandView, CommandErrorView>(CommandView::Auth) <==> w.len() == 1
                && w[0] == "AUTH"@
            &&& r == Ok::<CommandView, CommandErrorView>(CommandView::Close) <==> w.len() == 1
                && w[0] == "CLS"@
            &&& r == Ok::<CommandView, CommandErrorView>(CommandView::Noop) <==> w.len() == 1
                && w[0] == "NOP"@
            &&& (r is Ok && r->Ok_0 is Subscribe) <==> w.len() == 3 && w[0] == "SUB"@
                && name::valid_name(w[1]) && name::valid_name(w[2])
            &&& (r is Ok && r->Ok_0 is Publish) <==> w.len() == 2 && w[0] == "PUB"@
                && name::valid_name(w[1])
            &&& (r is Ok && r->Ok_0 is MultiPublish) <==> w.len() == 2 && w[0] == "MPUB"@
                && name::valid_name(w[1])
            &&& (r is Ok && r->Ok_0 is DeferredPublish) <==> w.len() == 3 && w[0] == "DPUB"@
                && name::valid_name(w[1]) && text::parsed_unsigned(
                w[2],
                10,
                u64::MAX as nat,
            ) is Some
            &&& r matches Ok(CommandView::Subscribe { topic, channel }) ==> topic == w[1] && channel
                == w[2]
            &&& r matches Ok(CommandView::Publish { topic }) ==> topic == w[1]
            &&& r matches Ok(CommandView::MultiPublish { topic }) ==> topic == w[1]
            &&& r matches Ok(CommandView::DeferredPublish { topic, delay_ms }) ==> topic == w[1]
                && text::parsed_unsigned(w[2], 10, u64::MAX as nat) == Some(delay_ms as nat)
        }),
{
    lemma_verbs();
}

/// The commands of consumers are written with a count or with the ID of a message.
pub proof fn law_commands_of_consumers_are_written_in_one_way(w: Seq<Seq<char>>)
    ensures
        ({
            let r = command_of(w);
            &&& w.len() == 1 && w[0] == "RDY"@ ==> r == Ok::<CommandView, CommandErrorView>(
                CommandView::Ready(1),
            )
            &&& r matches Ok(CommandView::Ready(n)) ==> w[0] == "RDY"@ && (w.len() == 1 || (w.len()
                == 2 && text::parsed_unsigned(w[1], 10, u64::MAX as nat) == Some(n as nat)))
            &&& w.len() == 2 && w[0] == "RDY"@ && text::parsed_unsigned(
                w[1],
                10,
                u64::MAX as nat,
            ) is Some ==> r is Ok && r->Ok_0 is Ready
            &&& r matches Ok(CommandView::Finish(id)) ==> w.len() == 2 && w[0] == "FIN"@
                && encode_utf8(w[1]).len() == 16 && text::parsed_unsigned(
                w[1],
                16,
                u64::MAX as nat,
            ) == Some(id as nat)
            &&& r matches Ok(CommandView::Touch(id)) ==> w.len() == 2 && w[0] == "TOUCH"@
                && encode_utf8(w[1]).len() == 16 && text::parsed_unsigned(
                w[1],
                16,
                u64::MAX as nat,
            ) == Some(id as nat)
            &&& r matches Ok(CommandView::Requeue { id, delay_ms }) ==> w.len() == 3 && w[0]
                == "REQ"@ && encode_utf8(w[1]).len() == 16 && text::parsed_unsigned(
                w[1],
                16,
                u64::MAX as nat,
            ) == Some(id as nat) && text::parsed_signed(w[2]) is Some
            &&& w.len() == 2 && (w[0] == "FIN"@ || w[0] == "TOUCH"@) && encode_utf8(w[1]).len()
                == 16 && text::parsed_unsigned(w[1], 16, u64::MAX as nat) is Some ==> r is Ok
        }),
{
    lemma_verbs();
}

/// A name that is not valid is told as the topic or the channel that it stands for.
pub proof fn law_bad_names_are_told(w: Seq<Seq<char>>)
    ensures
        ({
            let r = command_of(w);
            let named = (w.len() == 2 && (w[0] == "PUB"@ || w[0] == "MPUB"@)) || (w.len() == 3 && (
            w[0] == "SUB"@ || w[0] == "DPUB"@));
            &&& r == Err::<CommandView, CommandErrorView>(CommandErrorView::BadTopic) <==> named
                && !name::valid_name(w[1])
            &&& r == Err::<CommandView, CommandErrorView>(CommandErrorView::BadChannel) <==> w.len()
                == 3 && w[0] == "SUB"@ && name::valid_name(w[1]) && !name::valid_name(w[2])
        }),
{
    lemma_verbs();
}

/// Words are what stands between spaces: a space parts them, and nothing else does.
pub proof fn law_spaces_part_words(a: Seq<char>, c: char, b: Seq<char>)
    requires
        is_separator(c),
    ensures
        words(a.push(c) + b) == words(a) + words(b),
        words(a.push(c)) == words(a),
    decreases b.len(),
{
    let p = a.push(c);
    assert(p.drop_last() =~= a);
    assert(words(p) == words(a));
    let s = p + b;
    if b.len() == 0 {
        assert(s =~= p);
        assert(words(b).len() == 0);
        assert(words(a) + words(b) =~= words(a));
    } else {
        let d = b.drop_last();
        law_spaces_part_words(a, c, d);
        assert(s.drop_last() =~= p + d);
        assert(s.last() == b.last());
        if !is_separator(b.last()) {
            if b.len() > 1 {
                assert(s[s.len() - 2] == b[b.len() - 2]);
                if !is_separator(b[b.len() - 2]) {
                    lemma_words_end(d);
                    let x = words(d);
                    assert((words(a) + x).drop_last() =~= words(a) + x.drop_last());
                    assert((words(a) + x).last() == x.last());
                    assert(words(s) =~= words(a) + words(b));
                } else {
                    assert(words(s) =~= words(a) + words(b));
                }
            } else {
                assert(s[s.len() - 2] == c);
                assert(words(d).len() == 0);
                assert(words(s) =~= words(a) + words(b));
            }
        }
    }
}

proof fn lemma_words_end(s: Seq<char>)
    requires
        s.len() > 0,
        !is_separator(s.last()),
    ensures
        words(s).len() > 0,
    decreases s.len(),
{
    if s.len() > 1 && !is_separator(s[s.len() - 2]) {
        lemma_words_end(s.drop_last());
    }
}

/// A text without spaces is one word.
pub proof fn law_texts_without_spaces_are_one_word(s: Seq<char>)
    requires
        s.len() > 0,
        forall|i: int| 0 <= i < s.len() ==> !is_separator(#[trigger] s[i]),
    ensures
        words(s) == seq![s],
    decreases s.len(),
{
    let d = s.drop_last();
    if s.len() > 1 {
        assert(forall|i: int| 0 <= i < d.len() ==> #[trigger] d[i] == s[i]);
        law_texts_without_spaces_are_one_word(d);
        assert(!is_separator(s[s.len() - 2]));
        assert(d.push(s.last()) =~= s);
        assert(words(s) =~= seq![s]);
    } else {
        assert(words(d).len() == 0);
        assert(!is_separator(s[0]));
        assert(seq![s.last()] =~= s);
        assert(words(s) =~= seq![s]);
    }
}

} // verus!
