//! The framing of a message on the wire: a start byte before it, an end byte
//! and a carriage return behind it, and carriage returns between its
//! segments.

use vstd::prelude::*;
use vstd::string::StringSliceAdditionalSpecFns;

verus! {

/// The byte before a message.
pub open spec fn start_of_block() -> u8 {
    0x0B
}

/// The byte behind a message, which a carriage return follows.
pub open spec fn end_of_block() -> u8 {
    0x1C
}

/// The greatest number of bytes that is taken in for one message.
pub open spec fn greatest_reply() -> nat {
    65535
}

/// The bytes of `text` from `from` on, each line break in them, be it a line
/// feed or a carriage return with a line feed, as one carriage return.
pub open spec fn with_carriage_returns(text: Seq<u8>, from: int) -> Seq<u8>
    decreases text.len() - from,
{
    if from < 0 || from >= text.len() {
        Seq::empty()
    } else if text[from] == 13 && from + 1 < text.len() && text[from + 1] == 10 {
        seq![13u8] + with_carriage_returns(text, from + 2)
    } else if text[from] == 10 {
        seq![13u8] + with_carriage_returns(text, from + 1)
    } else {
        seq![text[from]] + with_carriage_returns(text, from + 1)
    }
}

/// A message as it is sent.
pub open spec fn framed(text: Seq<u8>) -> Seq<u8> {
    seq![start_of_block()] + with_carriage_returns(text, 0) + seq![end_of_block(), 13u8]
}

/// The bytes of a message as it is sent.
pub fn frame_message(message: &str) -> (r: Vec<u8>)
    ensures
        r@ == framed(message.spec_bytes()),
{
    let text = message.as_bytes();
    let mut frame: Vec<u8> = Vec::new();
    frame.push(0x0B);
    let mut i: usize = 0;
    while i < text.len()
        invariant
            text@ == message.spec_bytes(),
            i <= text@.len(),
            seq![start_of_block()] + with_carriage_returns(text@, 0) == frame@
                + with_carriage_returns(text@, i as int),
        decreases text@.len() - i,
    {
        let ghost before = frame@;
        let b = text[i];
        if b == 13 && i + 1 < text.len() && text[i + 1] == 10 {
            frame.push(13);
            assert(frame@ + with_carriage_returns(text@, i + 2) =~= before + with_carriage_returns(
                text@,
                i as int,
            ));
            i += 2;
        } else if b == 10 {
            frame.push(13);
            assert(frame@ + with_carriage_returns(text@, i + 1) =~= before + with_carriage_returns(
                text@,
                i as int,
            ));
            i += 1;
        } else {
            frame.push(b);
            assert(frame@ + with_carriage_returns(text@, i + 1) =~= before + with_carriage_returns(
                text@,
                i as int,
            ));
            i += 1;
        }
    }
    let ghost body = frame@;
    frame.push(0x1C);
    frame.push(13);
    assert(frame@ =~= body + seq![end_of_block(), 13u8]);
    assert(body =~= seq![start_of_block()] + with_carriage_returns(text@, 0));
    frame
}

/// How far the reception of a reply has come.
#[derive(Debug, Clone)]
pub enum Reception {
    /// The start byte has not come yet.
    Waiting,
    /// The start byte has come; these bytes followed it.
    Receiving(Vec<u8>),
    /// The end of the reply has come; these are the bytes of the reply.
    Complete(Vec<u8>),
    /// More bytes have come than are taken in for one message.
    TooLarge,
}

/// The content of a `Reception`.
pub enum ReceptionView {
    Waiting,
    Receiving(Seq<u8>),
    Complete(Seq<u8>),
    TooLarge,
}

impl View for Reception {
    type V = ReceptionView;

    open spec fn view(&self) -> ReceptionView {
        match self {
            Reception::Waiting => ReceptionView::Waiting,
            Reception::Receiving(bytes) => ReceptionView::Receiving(bytes@),
            Reception::Complete(bytes) => ReceptionView::Complete(bytes@),
            Reception::TooLarge => ReceptionView::TooLarge,
        }
    }
}

/// The reception after one more byte. Before the start byte every other byte
/// is passed over. Behind it bytes are taken in until the end byte and a
/// carriage return have come, which are no part of the reply; more bytes than
/// the greatest number end the reception. Nothing changes a reception that
/// has ended.
pub open spec fn after_byte(state: ReceptionView, byte: u8) -> ReceptionView {
    match state {
        ReceptionView::Waiting => if byte == start_of_block() {
            ReceptionView::Receiving(Seq::empty())
        } else {
            ReceptionView::Waiting
        },
        ReceptionView::Receiving(bytes) => if bytes.len() >= 1 && bytes.last() == end_of_block()
            && byte == 13 {
            ReceptionView::Complete(bytes.drop_last())
        } else if bytes.len() + 1 > greatest_reply() {
            ReceptionView::TooLarge
        } else {
            ReceptionView::Receiving(bytes.push(byte))
        },
        ReceptionView::Complete(bytes) => ReceptionView::Complete(bytes),
        ReceptionView::TooLarge => ReceptionView::TooLarge,
    }
}

/// The reception after the first `n` of `bytes`.
pub open spec fn after_bytes(state: ReceptionView, bytes: Seq<u8>, n: int) -> ReceptionView
    decreases n,
{
    if n <= 0 {
        state
    } else {
        after_byte(after_bytes(state, bytes, n - 1), bytes[n - 1])
    }
}

/// A reply as text is shown: each carriage return a line feed.
pub open spec fn with_line_feeds(reply: Seq<u8>) -> Seq<u8> {
    Seq::new(
        reply.len(),
        |i: int|
            if reply[i] == 13 {
                10u8
            } else {
                reply[i]
            },
    )
}

impl Reception {
    /// A reception that has not begun.
    pub fn new() -> (r: Reception)
        ensures
            r@ == ReceptionView::Waiting,
    {
        Reception::Waiting
    }

    /// The reception has ended, with a reply or without.
    pub open spec fn spec_is_over(&self) -> bool {
        self is Complete || self is TooLarge
    }

    #[verifier::when_used_as_spec(spec_is_over)]
    pub fn is_over(&self) -> (r: bool)
        ensures
            r == self.spec_is_over(),
    {
        match self {
            Reception::Complete(_) => true,
            Reception::TooLarge => true,
            _ => false,
        }
    }

    /// Takes in one byte.
    pub fn accept(self, byte: u8) -> (r: Reception)
        ensures
            r@ == after_byte(self@, byte),
    {
        match self {
            Reception::Waiting => {
                if byte == 0x0B {
                    Reception::Receiving(Vec::new())
                } else {
                    Reception::Waiting
                }
            },
            Reception::Receiving(bytes) => {
                let mut bytes = bytes;
                let ghost before = bytes@;
                let n = bytes.len();
                if n >= 1 && bytes[n - 1] == 0x1C && byte == 13 {
                    let _ = bytes.pop();
                    assert(bytes@ =~= before.drop_last());
                    Reception::Complete(bytes)
                } else if n >= 65535 {
                    Reception::TooLarge
                } else {
                    bytes.push(byte);
                    Reception::Receiving(bytes)
                }
            },
            Reception::Complete(bytes) => Reception::Complete(bytes),
            Reception::TooLarge => Reception::TooLarge,
        }
    }

    /// Takes in the bytes of a chunk, one after the other.
    pub fn accept_all(self, chunk: &[u8]) -> (r: Reception)
        ensures
            r@ == after_bytes(self@, chunk@, chunk@.len() as int),
    {
        let mut state = self;
        let mut i: usize = 0;
        while i < chunk.len()
            invariant
                i <= chunk@.len(),
                state@ == after_bytes(self@, chunk@, i as int),
            decreases chunk@.len() - i,
        {
            state = state.accept(chunk[i]);
            i += 1;
        }
        state
    }
}

/// The bytes of a reply as they are shown.
pub fn reply_text(reply: &Vec<u8>) -> (r: Vec<u8>)
    ensures
        r@ == with_line_feeds(reply@),
{
    let mut text: Vec<u8> = Vec::new();
    let mut i: usize = 0;
    while i < reply.len()
        invariant
            i <= reply@.len(),
            text@.len() == i,
            forall|j: int| 0 <= j < i ==> text@[j] == with_line_feeds(reply@)[j],
        decreases reply@.len() - i,
    {
        if reply[i] == 13 {
            text.push(10);
        } else {
            text.push(reply[i]);
        }
        i += 1;
    }
    assert(text@ =~= with_line_feeds(reply@));
    text
}

} // verus!
