//! The items that travel from the capture side to the connected clients.

use vstd::prelude::*;
use vstd::string::*;

verus! {

/// The port on which the stream is served.
pub const TCP_PORT: u16 = 8080;

/// What a [`StreamMessage`] is, with byte buffers taken as sequences.
pub enum Message {
    Ready,
    StreamHeader(Seq<u8>),
    Frame { count: u64, data: Seq<u8> },
}

/// One item of the stream: a control event or an encoded unit.
#[derive(PartialEq, Eq)]
pub enum StreamMessage {
    /// The encoder is live.
    Ready,
    /// The one-time bitstream header that a decoder needs before any unit.
    StreamHeader(Vec<u8>),
    /// An encoded unit with its sequence number.
    Frame { count: u64, data: Vec<u8> },
}

impl View for StreamMessage {
    type V = Message;

    open spec fn view(&self) -> Message {
        match self {
            StreamMessage::Ready => Message::Ready,
            StreamMessage::StreamHeader(bytes) => Message::StreamHeader(bytes@),
            StreamMessage::Frame { count, data } => Message::Frame { count: *count, data: data@ },
        }
    }
}

impl Clone for StreamMessage {
    fn clone(&self) -> (res: Self)
        ensures
            res@ == self@,
    {
        match self {
            StreamMessage::Ready => StreamMessage::Ready,
            StreamMessage::StreamHeader(bytes) => StreamMessage::StreamHeader(bytes.clone()),
            StreamMessage::Frame { count, data } => StreamMessage::Frame {
                count: *count,
                data: data.clone(),
            },
        }
    }
}

/// What goes over the wire to a client: a run of bytes without framing.
#[derive(Debug, PartialEq, Eq)]
pub enum TcpMessage {
    Frame(Vec<u8>),
}

impl Clone for TcpMessage {
    fn clone(&self) -> (res: Self)
        ensures
            res@ == self@,
    {
        match self {
            TcpMessage::Frame(bytes) => TcpMessage::Frame(bytes.clone()),
        }
    }
}

impl View for TcpMessage {
    type V = Seq<u8>;

    open spec fn view(&self) -> Seq<u8> {
        match self {
            TcpMessage::Frame(bytes) => bytes@,
        }
    }
}

/// The bytes that `m` puts on the wire: the header blob of a
/// `StreamHeader`, the payload of a unit, and nothing for a `Ready`.
pub open spec fn payload(m: Message) -> Option<Seq<u8>> {
    match m {
        Message::Ready => None,
        Message::StreamHeader(bytes) => Some(bytes),
        Message::Frame { data, .. } => Some(data),
    }
}

impl StreamMessage {
    /// Turns the message into what is written to a client, if anything is.
    pub fn into_wire(self) -> (r: Option<TcpMessage>)
        ensures
            match r {
                Some(wire) => payload(self@) == Some(wire@),
                None => payload(self@).is_none(),
            },
    {
        match self {
            StreamMessage::Ready => None,
            StreamMessage::StreamHeader(bytes) => Some(TcpMessage::Frame(bytes)),
            StreamMessage::Frame { data, .. } => Some(TcpMessage::Frame(data)),
        }
    }
}

/// The character of one decimal digit.
pub open spec fn digit_char(d: nat) -> char {
    if d == 0 {
        '0'
    } else if d == 1 {
        '1'
    } else if d == 2 {
        '2'
    } else if d == 3 {
        '3'
    } else if d == 4 {
        '4'
    } else if d == 5 {
        '5'
    } else if d == 6 {
        '6'
    } else if d == 7 {
        '7'
    } else if d == 8 {
        '8'
    } else {
        '9'
    }
}

/// The decimal digits of `n`, the most significant first.
pub open spec fn digits(n: nat) -> Seq<char>
    decreases n,
{
    if n < 10 {
        seq![digit_char(n)]
    } else {
        digits(n / 10).push(digit_char(n % 10))
    }
}

/// The short text that stands for `m` in a log: `Ready`, the length of a
/// header, or the length and the sequence number of a unit.
pub open spec fn description(m: Message) -> Seq<char> {
    match m {
        Message::Ready => "Ready"@,
        Message::StreamHeader(bytes) => "StreamHeader["@ + digits(bytes.len()) + "]"@,
        Message::Frame { count, data } => "Frame["@ + digits(data.len()) + "]("@ + digits(
            count as nat,
        ) + ")"@,
    }
}

/// One decimal digit as text.
fn digit_text(d: u64) -> (text: &'static str)
    requires
        d < 10,
    ensures
        text@ == seq![digit_char(d as nat)],
{
    proof {
        reveal_strlit("0");
        reveal_strlit("1");
        reveal_strlit("2");
        reveal_strlit("3");
        reveal_strlit("4");
        reveal_strlit("5");
        reveal_strlit("6");
        reveal_strlit("7");
        reveal_strlit("8");
        reveal_strlit("9");
    }
    let text = if d == 0 {
        "0"
    } else if d == 1 {
        "1"
    } else if d == 2 {
        "2"
    } else if d == 3 {
        "3"
    } else if d == 4 {
        "4"
    } else if d == 5 {
        "5"
    } else if d == 6 {
        "6"
    } else if d == 7 {
        "7"
    } else if d == 8 {
        "8"
    } else {
        "9"
    };
    text
}

/// `n` written in decimal digits.
pub fn decimal(n: u64) -> (text: String)
    ensures
        text@ == digits(n as nat),
    decreases n,
{
    if n < 10 {
        String::from_str(digit_text(n))
    } else {
        let mut text = decimal(n / 10);
        text.append(digit_text(n % 10));
        text
    }
}

impl StreamMessage {
    /// The short text that stands for the message in a log.
    pub fn describe(&self) -> (text: String)
        ensures
            text@ == description(self@),
    {
        match self {
            StreamMessage::Ready => String::from_str("Ready"),
            StreamMessage::StreamHeader(bytes) => {
                let mut text = String::from_str("StreamHeader[");
                let len = decimal(bytes.len() as u64);
                text.append(len.as_str());
                text.append("]");
                text
            },
            StreamMessage::Frame { count, data } => {
                let mut text = String::from_str("Frame[");
                let len = decimal(data.len() as u64);
                text.append(len.as_str());
                text.append("](");
                let number = decimal(*count);
                text.append(number.as_str());
                text.append(")");
                text
            },
        }
    }
}

/// What each of the messages in `v` is.
pub open spec fn views(v: Seq<StreamMessage>) -> Seq<Message> {
    v.map_values(|m: StreamMessage| m@)
}

/// The bytes of an optional buffer.
pub open spec fn bytes_view(bytes: Option<Vec<u8>>) -> Option<Seq<u8>> {
    match bytes {
        Some(b) => Some(b@),
        None => None,
    }
}

} // verus!
