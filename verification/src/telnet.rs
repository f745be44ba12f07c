//! The operator's terminal over the network: the filter that takes the
//! protocol's commands out of the input, and the buffer of text that waits
//! to be sent.

use vstd::prelude::*;
use vstd::string::StringSliceAdditionalSpecFns;

verus! {

/// Bytes of output that wait at most.
pub const OUTPUT_CAPACITY: usize = 500;

/// The version that the greeting names.
pub const VERSION: &'static str = "0.1.0";

/// "Interpret as command": the byte that starts a protocol command.
pub const IAC: u8 = 0xFF;

/// Start of a subnegotiation.
pub const SB: u8 = 0xFA;

/// End of a subnegotiation.
pub const SE: u8 = 0xF0;

/// Where the input stands between the protocol's commands.
#[derive(Clone, Copy, Debug, PartialEq, Eq, Structural)]
pub enum IacState {
    /// Plain input.
    Normal,
    /// Behind the byte that starts a command.
    Command,
    /// Behind WILL, WONT, DO or DONT: one option byte follows.
    Option,
    /// Inside a subnegotiation.
    Subnegotiation,
    /// Inside a subnegotiation, behind the byte that starts a command.
    SubnegotiationCommand,
}

/// The state behind the byte `b`.
pub open spec fn spec_iac_next(state: IacState, b: u8) -> IacState {
    match state {
        IacState::Normal => if b == IAC {
            IacState::Command
        } else {
            IacState::Normal
        },
        IacState::Command => if 0xFB <= b <= 0xFE {
            IacState::Option
        } else if b == SB {
            IacState::Subnegotiation
        } else {
            IacState::Normal
        },
        IacState::Option => IacState::Normal,
        IacState::Subnegotiation => if b == IAC {
            IacState::SubnegotiationCommand
        } else {
            IacState::Subnegotiation
        },
        IacState::SubnegotiationCommand => if b == SE {
            IacState::Normal
        } else {
            IacState::Subnegotiation
        },
    }
}

/// Whether the byte `b` is input for the menu: a byte of plain input that
/// neither starts a command nor is zero.
pub open spec fn spec_iac_passes(state: IacState, b: u8) -> bool {
    state == IacState::Normal && b != IAC && b != 0
}

/// Takes one byte of input: moves `state` on and hands the byte back if
/// it is input for the menu.
pub fn iac_filter(state: &mut IacState, b: u8) -> (input: Option<u8>)
    ensures
        *final(state) == spec_iac_next(*old(state), b),
        input == (if spec_iac_passes(*old(state), b) {
            Some(b)
        } else {
            None
        }),
{
    match *state {
        IacState::Normal => {
            if b == IAC {
                *state = IacState::Command;
                None
            } else if b != 0 {
                Some(b)
            } else {
                None
            }
        },
        IacState::Command => {
            if 0xFB <= b && b <= 0xFE {
                *state = IacState::Option;
            } else if b == SB {
                *state = IacState::Subnegotiation;
            } else {
                *state = IacState::Normal;
            }
            None
        },
        IacState::Option => {
            *state = IacState::Normal;
            None
        },
        IacState::Subnegotiation => {
            if b == IAC {
                *state = IacState::SubnegotiationCommand;
            }
            None
        },
        IacState::SubnegotiationCommand => {
            if b == SE {
                *state = IacState::Normal;
            } else {
                *state = IacState::Subnegotiation;
            }
            None
        },
    }
}

/// The byte that the serial line hands to the menu for `b`: a carriage
/// return for a line feed.
pub fn serial_input(b: u8) -> (input: u8)
    ensures
        input == (if b == 10 {
            13u8
        } else {
            b
        }),
{
    if b == 10 {
        13
    } else {
        b
    }
}

/// The bytes that an output buffer holds, first to last.
pub uninterp spec fn output_bytes(data: heapless::Vec<u8, 500>) -> Seq<u8>;

/// `heapless::Vec::new`: a buffer that holds nothing.
#[verifier::external_body]
fn output_new() -> (data: heapless::Vec<u8, 500>)
    ensures
        output_bytes(data) == Seq::<u8>::empty(),
{
    heapless::Vec::new()
}

/// `heapless::Vec::clear`: the buffer holds nothing afterwards.
#[verifier::external_body]
fn output_clear(data: &mut heapless::Vec<u8, 500>)
    ensures
        output_bytes(*final(data)) == Seq::<u8>::empty(),
{
    data.clear()
}

/// `heapless::Vec::push`: appends `b` if the buffer holds fewer bytes
/// than its capacity, and otherwise changes nothing and reports an error.
#[verifier::external_body]
fn output_push(data: &mut heapless::Vec<u8, 500>, b: u8) -> (done: bool)
    ensures
        done == (output_bytes(*old(data)).len() < OUTPUT_CAPACITY),
        output_bytes(*final(data)) == spec_try_push(output_bytes(*old(data)), b),
{
    data.push(b).is_ok()
}

/// `heapless::Vec::extend_from_slice`: appends `other` if the buffer has
/// room for all of it, and otherwise changes nothing and reports an error.
#[verifier::external_body]
fn output_extend(data: &mut heapless::Vec<u8, 500>, other: &[u8]) -> (done: Result<(), ()>)
    ensures
        done is Ok <==> output_bytes(*old(data)).len() + other@.len() <= OUTPUT_CAPACITY,
        output_bytes(*final(data)) == (if done is Ok {
            output_bytes(*old(data)) + other@
        } else {
            output_bytes(*old(data))
        }),
{
    data.extend_from_slice(other)
}

/// `heapless::Vec::as_slice`: the bytes that the buffer holds, which are
/// never more than its capacity.
#[verifier::external_body]
fn output_as_slice(data: &heapless::Vec<u8, 500>) -> (bytes: &[u8])
    ensures
        bytes@ == output_bytes(*data),
        bytes@.len() <= OUTPUT_CAPACITY,
{
    data.as_slice()
}

/// `heapless::Vec::from_slice`: a buffer that holds `other`, if `other`
/// is no longer than the capacity.
#[verifier::external_body]
fn output_from_slice(other: &[u8]) -> (data: Result<heapless::Vec<u8, 500>, ()>)
    ensures
        data is Ok <==> other@.len() <= OUTPUT_CAPACITY,
        data is Ok ==> output_bytes(data->Ok_0) == other@,
{
    heapless::Vec::from_slice(other)
}

/// `buf` with `b` appended, where the buffer is not full, and `buf`
/// otherwise.
pub open spec fn spec_try_push(buf: Seq<u8>, b: u8) -> Seq<u8> {
    if buf.len() < OUTPUT_CAPACITY {
        buf.push(b)
    } else {
        buf
    }
}

/// `buf` after the first `upto` bytes of `text` were written to it: each
/// byte is appended while there is room, and a carriage return is put in
/// front of every line feed.
pub open spec fn spec_written(buf: Seq<u8>, text: Seq<u8>, upto: int) -> Seq<u8>
    decreases upto,
{
    if upto <= 0 {
        buf
    } else {
        let before = spec_written(buf, text, upto - 1);
        let b = text[upto - 1];
        if b == 10 {
            spec_try_push(spec_try_push(before, 13), 10)
        } else {
            spec_try_push(before, b)
        }
    }
}

/// What a terminal is sent first: the options that make it behave like a
/// plain serial terminal.
pub open spec fn spec_negotiation() -> Seq<u8> {
    seq![0xFFu8, 0xFD, 0x22, 0xFF, 0xFA, 0x22, 0x01, 0x00, 0xFF, 0xF0, 0xFF, 0xFB, 0x01]
}

/// The text that waits to be sent to the terminal.
pub struct Output {
    pub out_data: heapless::Vec<u8, 500>,
}

impl View for Output {
    type V = Seq<u8>;

    open spec fn view(&self) -> Seq<u8> {
        output_bytes(self.out_data)
    }
}

impl Output {
    /// An output with nothing waiting.
    pub fn new() -> (out: Self)
        ensures
            out@ == Seq::<u8>::empty(),
    {
        Output { out_data: output_new() }
    }

    /// The bytes that wait.
    pub fn pending(&self) -> (bytes: &[u8])
        ensures
            bytes@ == self@,
            bytes@.len() <= OUTPUT_CAPACITY,
    {
        output_as_slice(&self.out_data)
    }

    /// Writes `text` for the terminal, with a carriage return in front of
    /// every line feed. What finds no room is dropped.
    pub fn write_bytes(&mut self, text: &[u8])
        ensures
            final(self)@ == spec_written(old(self)@, text@, text@.len() as int),
    {
        let len: usize = text.len();
        let mut k: usize = 0;
        while k < len
            invariant
                k <= len == text@.len(),
                self@ == spec_written(old(self)@, text@, k as int),
            decreases len - k,
        {
            let b: u8 = text[k];
            if b == 10 {
                let _ = output_push(&mut self.out_data, 13);
            }
            let _ = output_push(&mut self.out_data, b);
            k += 1;
        }
    }

    /// Writes `s` for the terminal.
    pub fn write_str(&mut self, s: &str)
        ensures
            final(self)@ == spec_written(old(self)@, s.spec_bytes(), s.spec_bytes().len() as int),
    {
        self.write_bytes(s.as_bytes());
    }

    /// Starts a session: drops what waits, and writes the terminal options
    /// and the greeting with the prompt.
    pub fn greet(&mut self)
        ensures
            final(self)@ == ({
                let a = "\r\nColorlight v".spec_bytes();
                let v = VERSION.spec_bytes();
                let p = "\r\n> ".spec_bytes();
                spec_written(
                    spec_written(
                        spec_written(spec_negotiation(), a, a.len() as int),
                        v,
                        v.len() as int,
                    ),
                    p,
                    p.len() as int,
                )
            }),
    {
        output_clear(&mut self.out_data);
        let options: [u8; 13] = [
            0xFF,
            0xFD,
            0x22,
            0xFF,
            0xFA,
            0x22,
            0x01,
            0x00,
            0xFF,
            0xF0,
            0xFF,
            0xFB,
            0x01,
        ];
        assert(options@ =~= spec_negotiation());
        let _ = output_extend(&mut self.out_data, options.as_slice());
        assert(self@ =~= spec_negotiation());
        self.write_str("\r\nColorlight v");
        self.write_str(VERSION);
        self.write_str("\r\n> ");
    }

    /// Notes that the first `sent` of the waiting bytes were sent: the
    /// rest keeps waiting.
    pub fn consume(&mut self, sent: usize)
        requires
            sent <= old(self)@.len(),
        ensures
            final(self)@ == old(self)@.skip(sent as int),
    {
        let all = output_as_slice(&self.out_data);
        let rest = &all[sent..all.len()];
        assert(rest@ =~= self@.skip(sent as int));
        match output_from_slice(rest) {
            Ok(kept) => {
                self.out_data = kept;
            },
            Err(_) => {},
        }
    }
}

} // verus!
