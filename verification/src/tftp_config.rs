//! Fetching the layout file from the boot server: the states of the
//! transfer and what each event does to them.

use crate::http::str_from_utf8;
use crate::http_response::{hex_digit, spec_hex_digit};
use crate::layout::{spec_blank_layout, spec_parse_lines, LayoutConfig};
use crate::menu::BootServerSource;
use vstd::prelude::*;
use vstd::string::StringSliceAdditionalSpecFns;
use vstd::utf8::valid_utf8;

verus! {

/// The port on which the boot server takes requests.
pub const TFTP_PORT: u16 = 6969;

/// The local port of the transfer.
pub const TFTP_LOCAL_PORT: u16 = 6900;

pub const OPCODE_RRQ: u8 = 1;

pub const OPCODE_DATA: u8 = 3;

pub const OPCODE_ACK: u8 = 4;

pub const OPCODE_ERROR: u8 = 5;

/// Milliseconds that the server has for each block.
pub const TIMEOUT_MS: i64 = 3000;

/// Bytes of the file that are kept.
pub const MAX_CONFIG_SIZE: usize = 512;

/// Bytes of the file name that are kept.
pub const MAX_FILENAME: usize = 32;

/// Payload bytes of a full block; a shorter block is the last.
pub const BLOCK_SIZE: usize = 512;

#[derive(Clone, Copy, Debug, PartialEq, Eq, Structural)]
pub enum TftpState {
    Idle,
    SendRrq,
    WaitData,
    Done,
    Failed,
}

/// What the caller does next for the transfer.
#[derive(Clone, Copy, Debug, PartialEq, Eq, Structural)]
pub enum TftpStep {
    /// Nothing.
    Rest,
    /// Open the socket if it is closed, and send the request.
    Request,
    /// Close the socket: the server took too long.
    GiveUp,
    /// Take a packet from the socket if one has come.
    Receive,
}

/// What the caller does after a packet.
#[derive(Clone, Copy, Debug, PartialEq, Eq)]
pub enum TftpReply {
    /// Nothing.
    Nothing,
    /// Send `packet` to the sender's address at `port`. After the `last`
    /// block the socket is closed and the file is ready.
    Ack { packet: [u8; 4], port: u16, last: bool },
    /// Close the socket: the server reported an error.
    Abort,
}

/// The transfer as contracts see it.
pub struct TftpView {
    pub state: TftpState,
    pub gateway: [u8; 4],
    /// The port that the server answers from; 0 until its first block.
    pub server_tid: u16,
    /// The number of the block that is expected.
    pub block: u16,
    pub deadline_ms: i64,
    /// The bytes of the file received so far.
    pub file: Seq<u8>,
    pub filename: Seq<u8>,
}

pub struct TftpConfigLoader {
    pub state: TftpState,
    gateway: [u8; 4],
    server_tid: u16,
    block: u16,
    deadline_ms: i64,
    buf: [u8; 512],
    len: usize,
    filename: [u8; 32],
    filename_len: usize,
}

/// `time_ms` plus the time that the server has for a block, or the
/// largest time where that lies behind it.
pub open spec fn spec_deadline(time_ms: i64) -> i64 {
    if time_ms + TIMEOUT_MS > i64::MAX {
        i64::MAX
    } else {
        (time_ms + TIMEOUT_MS) as i64
    }
}

/// The request for the file `filename`: the opcode, the name, a zero byte,
/// the mode `octet`, a zero byte.
pub open spec fn spec_rrq(filename: Seq<u8>) -> Seq<u8> {
    seq![0u8, OPCODE_RRQ] + filename + seq![0u8, 111, 99, 116, 101, 116, 0]
}

/// The first `n` bytes of `s`, or all of them if there are fewer.
pub open spec fn spec_prefix(s: Seq<u8>, n: int) -> Seq<u8> {
    if s.len() <= n {
        s
    } else {
        s.take(n)
    }
}

/// Whether `data` is the data block that the transfer `t` expects.
pub open spec fn spec_is_expected_block(t: TftpView, data: Seq<u8>) -> bool {
    data.len() >= 4 && data[1] == OPCODE_DATA && 256 * data[2] + data[3] == t.block
}

/// What the caller does after the packet `data` from `port` came to the
/// transfer `t`, which waits for data.
pub open spec fn spec_reply(t: TftpView, data: Seq<u8>, port: u16) -> TftpReply {
    if spec_is_expected_block(t, data) {
        TftpReply::Ack {
            packet: [0u8, OPCODE_ACK, data[2], data[3]],
            port: if t.server_tid == 0 {
                port
            } else {
                t.server_tid
            },
            last: data.len() - 4 < BLOCK_SIZE,
        }
    } else if data.len() >= 4 && data[1] == OPCODE_ERROR {
        TftpReply::Abort
    } else {
        TftpReply::Nothing
    }
}

/// The transfer `t`, which waits for data, after the packet `data` from
/// `port` came at `time_ms`. The expected block is added to the file as
/// far as there is room; after a short block the transfer is done, after
/// a full one the next block is expected within the time limit. An error
/// packet fails the transfer. Any other packet is ignored.
pub open spec fn spec_after_packet(t: TftpView, data: Seq<u8>, port: u16, time_ms: i64) -> TftpView {
    if spec_is_expected_block(t, data) {
        let grown = TftpView {
            file: t.file + spec_prefix(data.skip(4), MAX_CONFIG_SIZE - t.file.len()),
            server_tid: if t.server_tid == 0 {
                port
            } else {
                t.server_tid
            },
            ..t
        };
        if data.len() - 4 < BLOCK_SIZE {
            TftpView { state: TftpState::Done, ..grown }
        } else {
            TftpView {
                block: t.block.wrapping_add(1),
                deadline_ms: spec_deadline(time_ms),
                ..grown
            }
        }
    } else if data.len() >= 4 && data[1] == OPCODE_ERROR {
        TftpView { state: TftpState::Failed, ..t }
    } else {
        t
    }
}

/// The name of the layout file of the sign with the address `mac`: the
/// six bytes in hexadecimal with dashes between them, and `.yml`.
pub open spec fn spec_config_filename(mac: Seq<u8>) -> Seq<u8> {
    Seq::new(
        21,
        |i: int|
            if i >= 17 {
                seq![46u8, 121, 109, 108][i - 17]
            } else if i % 3 == 0 {
                spec_hex_digit((mac[i / 3] / 16) as nat)
            } else if i % 3 == 1 {
                spec_hex_digit((mac[i / 3] % 16) as nat)
            } else {
                45u8
            },
    )
}

/// The name of the layout file of the sign with the address `mac`.
pub fn config_filename(mac: &[u8; 6]) -> (name: [u8; 21])
    ensures
        name@ == spec_config_filename(mac@),
{
    let mut name: [u8; 21] = [0u8; 21];
    let mut i: usize = 0;
    while i < 6
        invariant
            i <= 6,
            forall|k: int|
                0 <= k < 3 * i && k < 17 ==> #[trigger] name@[k] == spec_config_filename(mac@)[k],
        decreases 6 - i,
    {
        name[i * 3] = hex_digit(mac[i] / 16);
        name[i * 3 + 1] = hex_digit(mac[i] % 16);
        if i < 5 {
            name[i * 3 + 2] = 45;
        }
        i += 1;
    }
    name[17] = 46;
    name[18] = 121;
    name[19] = 109;
    name[20] = 108;
    assert(name@ =~= spec_config_filename(mac@));
    name
}

/// The boot server to ask and how it became known: the one that the
/// lease names, or else the built-in address 10.11.6.65.
pub fn choose_boot_server(named: Option<[u8; 4]>) -> (server: ([u8; 4], BootServerSource))
    ensures
        server == (match named {
            Some(ip) => (ip, BootServerSource::Option66),
            None => ([10u8, 11, 6, 65], BootServerSource::Fallback),
        }),
{
    match named {
        Some(ip) => (ip, BootServerSource::Option66),
        None => ([10u8, 11, 6, 65], BootServerSource::Fallback),
    }
}

impl View for TftpConfigLoader {
    type V = TftpView;

    closed spec fn view(&self) -> TftpView {
        TftpView {
            state: self.state,
            gateway: self.gateway,
            server_tid: self.server_tid,
            block: self.block,
            deadline_ms: self.deadline_ms,
            file: self.buf@.take(self.len as int),
            filename: self.filename@.take(self.filename_len as int),
        }
    }
}

impl TftpConfigLoader {
    pub closed spec fn inv(&self) -> bool {
        self.len <= MAX_CONFIG_SIZE && self.filename_len <= MAX_FILENAME
    }

    pub open spec fn wf(&self) -> bool {
        self.inv() && self@.file.len() <= MAX_CONFIG_SIZE && self@.filename.len() <= MAX_FILENAME
    }

    /// A loader that has nothing to do.
    pub fn new() -> (loader: Self)
        ensures
            loader.wf(),
            loader@ == (TftpView {
                state: TftpState::Idle,
                gateway: [0u8, 0, 0, 0],
                server_tid: 0,
                block: 0,
                deadline_ms: 0,
                file: Seq::empty(),
                filename: Seq::empty(),
            }),
    {
        let loader = Self {
            state: TftpState::Idle,
            gateway: [0u8, 0, 0, 0],
            server_tid: 0,
            block: 0,
            deadline_ms: 0,
            buf: [0u8; 512],
            len: 0,
            filename: [0u8; 32],
            filename_len: 0,
        };
        assert(loader@.file =~= Seq::<u8>::empty());
        assert(loader@.filename =~= Seq::<u8>::empty());
        loader
    }

    /// Starts to fetch `filename`, of which the first 32 bytes count, from
    /// the server at `gateway`.
    pub fn start(&mut self, gateway: [u8; 4], filename: &str)
        requires
            old(self).wf(),
        ensures
            final(self).wf(),
            final(self)@ == (TftpView {
                state: TftpState::SendRrq,
                gateway,
                server_tid: 0,
                block: 1,
                file: Seq::empty(),
                filename: spec_prefix(filename.spec_bytes(), MAX_FILENAME as int),
                ..old(self)@
            }),
    {
        self.gateway = gateway;
        self.server_tid = 0;
        self.block = 1;
        self.len = 0;
        let bytes = filename.as_bytes();
        let n: usize = if bytes.len() < MAX_FILENAME {
            bytes.len()
        } else {
            MAX_FILENAME
        };
        let mut k: usize = 0;
        while k < n
            invariant
                k <= n <= MAX_FILENAME,
                n <= bytes@.len(),
                forall|i: int| 0 <= i < k ==> self.filename@[i] == bytes@[i],
                self.gateway == gateway,
                self.server_tid == 0,
                self.block == 1,
                self.len == 0,
                self.deadline_ms == old(self).deadline_ms,
                self.state == old(self).state,
            decreases n - k,
        {
            self.filename[k] = bytes[k];
            k += 1;
        }
        self.filename_len = n;
        self.state = TftpState::SendRrq;
        assert(self@.file =~= Seq::<u8>::empty());
        assert(self@.filename =~= spec_prefix(filename.spec_bytes(), MAX_FILENAME as int));
    }

    /// Whether a transfer is under way.
    pub fn is_active(&self) -> (active: bool)
        ensures
            active == (self@.state == TftpState::SendRrq || self@.state == TftpState::WaitData),
    {
        match self.state {
            TftpState::SendRrq => true,
            TftpState::WaitData => true,
            _ => false,
        }
    }

    /// Whether the file has come.
    pub fn is_done(&self) -> (done: bool)
        ensures
            done == (self@.state == TftpState::Done),
    {
        match self.state {
            TftpState::Done => true,
            _ => false,
        }
    }

    /// The address of the server.
    pub fn gateway(&self) -> (gateway: [u8; 4])
        ensures
            gateway == self@.gateway,
    {
        self.gateway
    }

    /// What the caller does next at `time_ms`.
    pub fn next_step(&self, time_ms: i64) -> (step: TftpStep)
        ensures
            step == (match self@.state {
                TftpState::SendRrq => TftpStep::Request,
                TftpState::WaitData => if time_ms > self@.deadline_ms {
                    TftpStep::GiveUp
                } else {
                    TftpStep::Receive
                },
                _ => TftpStep::Rest,
            }),
    {
        match self.state {
            TftpState::SendRrq => TftpStep::Request,
            TftpState::WaitData => if time_ms > self.deadline_ms {
                TftpStep::GiveUp
            } else {
                TftpStep::Receive
            },
            _ => TftpStep::Rest,
        }
    }

    /// The request packet.
    pub fn rrq_packet(&self) -> (packet: Vec<u8>)
        requires
            self.wf(),
        ensures
            packet@ == spec_rrq(self@.filename),
    {
        let mut packet: Vec<u8> = Vec::new();
        packet.push(0);
        packet.push(OPCODE_RRQ);
        let mut k: usize = 0;
        while k < self.filename_len
            invariant
                k <= self.filename_len <= MAX_FILENAME,
                packet@ == seq![0u8, OPCODE_RRQ] + self.filename@.take(k as int),
            decreases self.filename_len - k,
        {
            packet.push(self.filename[k]);
            assert(self.filename@.take(k + 1) =~= self.filename@.take(k as int).push(
                self.filename@[k as int],
            ));
            k += 1;
        }
        packet.push(0);
        packet.push(111);
        packet.push(99);
        packet.push(116);
        packet.push(101);
        packet.push(116);
        packet.push(0);
        assert(packet@ =~= spec_rrq(self@.filename));
        packet
    }

    /// Notes that the socket could not be opened: the transfer has failed.
    pub fn bind_failed(&mut self)
        ensures
            final(self)@ == (TftpView { state: TftpState::Failed, ..old(self)@ }),
            final(self).inv() == old(self).inv(),
    {
        self.state = TftpState::Failed;
    }

    /// Notes that the request was sent at `time_ms`: the server has the
    /// time limit for its first block.
    pub fn rrq_sent(&mut self, time_ms: i64)
        ensures
            final(self)@ == (TftpView {
                state: TftpState::WaitData,
                deadline_ms: spec_deadline(time_ms),
                ..old(self)@
            }),
            final(self).inv() == old(self).inv(),
    {
        self.deadline_ms = deadline(time_ms);
        self.state = TftpState::WaitData;
    }

    /// Notes that the server took too long: the transfer has failed.
    pub fn timed_out(&mut self)
        ensures
            final(self)@ == (TftpView { state: TftpState::Failed, ..old(self)@ }),
            final(self).inv() == old(self).inv(),
    {
        self.state = TftpState::Failed;
    }

    /// Takes in the packet `data` that came from `port` at `time_ms`
    /// while the transfer waits for data, and says what to do about it.
    pub fn on_packet(&mut self, data: &[u8], port: u16, time_ms: i64) -> (reply: TftpReply)
        requires
            old(self).wf(),
        ensures
            final(self).wf(),
            reply == spec_reply(old(self)@, data@, port),
            final(self)@ == spec_after_packet(old(self)@, data@, port, time_ms),
    {
        if data.len() < 4 {
            return TftpReply::Nothing;
        }
        let opcode: u8 = data[1];
        let block: u16 = 256 * (data[2] as u16) + data[3] as u16;
        if opcode == OPCODE_DATA && block == self.block {
            let payload_len: usize = data.len() - 4;
            let room: usize = MAX_CONFIG_SIZE - self.len;
            let copy_len: usize = if payload_len < room {
                payload_len
            } else {
                room
            };
            let start: usize = self.len;
            let ghost payload = data@.skip(4);
            let mut k: usize = 0;
            while k < copy_len
                invariant
                    k <= copy_len,
                    copy_len <= payload_len,
                    payload_len == data@.len() - 4,
                    payload == data@.skip(4),
                    start + copy_len <= MAX_CONFIG_SIZE,
                    self.len == start,
                    forall|i: int| 0 <= i < start ==> self.buf@[i] == old(self).buf@[i],
                    forall|i: int| 0 <= i < k ==> self.buf@[start + i] == #[trigger] payload[i],
                    self.state == old(self).state,
                    self.gateway == old(self).gateway,
                    self.server_tid == old(self).server_tid,
                    self.block == old(self).block,
                    self.deadline_ms == old(self).deadline_ms,
                    self.filename == old(self).filename,
                    self.filename_len == old(self).filename_len,
                decreases copy_len - k,
            {
                self.buf[start + k] = data[4 + k];
                k += 1;
            }
            self.len = start + copy_len;
            if self.server_tid == 0 {
                self.server_tid = port;
            }
            let ack: [u8; 4] = [0, OPCODE_ACK, data[2], data[3]];
            let last = payload_len < BLOCK_SIZE;
            if last {
                self.state = TftpState::Done;
            } else {
                self.block = self.block.wrapping_add(1);
                self.deadline_ms = deadline(time_ms);
            }
            proof {
                assert(self@.file =~= old(self)@.file + spec_prefix(
                    data@.skip(4),
                    MAX_CONFIG_SIZE - old(self)@.file.len(),
                ));
                assert(self@.filename =~= old(self)@.filename);
            }
            TftpReply::Ack { packet: ack, port: self.server_tid, last }
        } else if opcode == OPCODE_ERROR {
            self.state = TftpState::Failed;
            TftpReply::Abort
        } else {
            TftpReply::Nothing
        }
    }

    /// The bytes of the file received so far.
    pub fn file_bytes(&self) -> (bytes: &[u8])
        requires
            self.wf(),
        ensures
            bytes@ == self@.file,
    {
        let all = self.buf.as_slice();
        let part = &all[0..self.len];
        assert(part@ =~= self@.file);
        part
    }

    /// The layout that the file describes. There is none where the file
    /// is empty or is not valid UTF-8.
    pub fn parse_config(&self) -> (config: Option<LayoutConfig>)
        requires
            self.wf(),
        ensures
            config is Some <==> self@.file.len() > 0 && valid_utf8(self@.file),
            config is Some ==> config->0@ == spec_parse_lines(spec_blank_layout(), self@.file),
    {
        if self.len == 0 {
            return None;
        }
        match str_from_utf8(self.file_bytes()) {
            Some(text) => LayoutConfig::parse(text),
            None => None,
        }
    }
}

/// The time by which the server has to answer what was sent at `time_ms`.
pub fn deadline(time_ms: i64) -> (at: i64)
    ensures
        at == spec_deadline(time_ms),
{
    if time_ms > i64::MAX - TIMEOUT_MS {
        i64::MAX
    } else {
        time_ms + TIMEOUT_MS
    }
}

} // verus!
