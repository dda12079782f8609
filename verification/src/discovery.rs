//! Announcements of games on the local network.
pub mod element;

use self::element::{
    all_elements, close_tag, element_data, elements, end_mark, lemma_all_elements_step, lookup,
    open_tag, ElementView, CLOSE, OPEN, SLASH,
};
use crate::decimal::{
    decimal_bytes, decimal_text, lemma_decimal_text, lemma_decimal_text_len,
    lemma_port_number_of_decimal, parse_port, port_number,
};
use crate::text::{find, lemma_find};
use vstd::prelude::*;
use vstd::slice::{slice_subrange, slice_to_vec};

verus! {

/// The most that an announcement is let take up.
pub const MAX_PACKET_SIZE: usize = 1500;

/// The longest description that is announced.
pub const MAX_MOTD_LEN: usize = 256;

/// An announcement of a game: the port on which it waits for players, and its description.
#[derive(Clone, Copy, Debug, PartialEq, Eq)]
pub struct DiscoveryPacket<'a> {
    pub port: u16,
    pub motd: &'a [u8],
}

/// Why a text is no announcement.
#[derive(Clone, Copy, Debug, PartialEq, Eq)]
pub enum DiscoveryPacketParseError<'a> {
    /// The port is missing (nothing stands here then), or this is none.
    InvalidPort(&'a [u8]),
}

/// Why an announcement cannot be written.
#[derive(Debug, PartialEq, Eq)]
pub enum DiscoveryPacketEncodeError {
    /// The description is too long, or holds an opening bracket.
    InvalidMotd(Vec<u8>),
    /// The announcement does not fit.
    BufferTooSmall,
}

/// What a [`DiscoveryPacket`] stands for.
#[verifier::ext_equal]
pub struct PacketView {
    pub port: u16,
    pub motd: Seq<u8>,
}

impl<'a> View for DiscoveryPacket<'a> {
    type V = PacketView;

    open spec fn view(&self) -> PacketView {
        PacketView { port: self.port, motd: self.motd@ }
    }
}

/// The name under which the port stands: `AD`.
pub open spec fn port_name() -> Seq<u8> {
    seq![0x41u8, 0x44u8]
}

/// The name under which the description stands: `MOTD`.
pub open spec fn motd_name() -> Seq<u8> {
    seq![0x4du8, 0x4fu8, 0x54u8, 0x44u8]
}

/// What a text announces: the port under the last `AD`, and the description under the last
/// `MOTD`, which may be missing. If there is no port, what stands in its place.
pub open spec fn parsed(text: Seq<u8>) -> Result<PacketView, Seq<u8>> {
    let elements = all_elements(text);
    match element_data(elements, port_name()) {
        None => Err(Seq::empty()),
        Some(data) => match port_number(data) {
            None => Err(data),
            Some(port) => Ok(
                PacketView {
                    port,
                    motd: match element_data(elements, motd_name()) {
                        Some(motd) => motd,
                        None => Seq::empty(),
                    },
                },
            ),
        },
    }
}

impl PacketView {
    /// The announcement can be written.
    pub open spec fn valid(self) -> bool {
        !self.motd.contains(OPEN) && self.motd.len() <= MAX_MOTD_LEN
    }

    /// The part of the announcement that holds the description.
    pub open spec fn motd_element(self) -> ElementView {
        ElementView { name: motd_name(), data: self.motd }
    }

    /// The part of the announcement that holds the port.
    pub open spec fn port_element(self) -> ElementView {
        ElementView { name: port_name(), data: decimal_text(self.port as nat) }
    }

    /// The announcement as it is written: `[MOTD]description[/MOTD][AD]port[/AD]`.
    pub open spec fn text(self) -> Seq<u8> {
        self.motd_element().text() + self.port_element().text()
    }

    /// How many bytes are written where only `room` are left: the description is written whole
    /// or not at all.
    pub open spec fn written(self, room: nat) -> nat {
        let head = open_tag(motd_name()).len();
        if self.text().len() <= room {
            self.text().len()
        } else if head <= room && room < head + self.motd.len() {
            head
        } else {
            room
        }
    }
}

/// An announcement that can be written is read back as it was written.
pub proof fn packet_reads_back(packet: PacketView)
    requires
        packet.valid(),
    ensures
        parsed(packet.text()) == Ok::<PacketView, Seq<u8>>(packet),
{
    let motd = packet.motd_element();
    let port = packet.port_element();
    lemma_decimal_text(packet.port as nat);
    lemma_no_open_no_mark(motd.data);
    assert(!port.data.contains(OPEN));
    lemma_no_open_no_mark(port.data);
    assert(!motd.name.contains(CLOSE));
    assert(!port.name.contains(CLOSE));
    lemma_all_elements_step(motd, port.text());
    lemma_all_elements_step(port, Seq::empty());
    assert(port.text() + Seq::empty() =~= port.text());
    assert(all_elements(Seq::empty()) =~= Seq::empty());
    let elements = all_elements(packet.text());
    assert(elements =~= seq![motd, port]);
    assert(elements.drop_last() =~= seq![motd]);
    assert(motd_name()[0] != port_name()[0]);
    reveal_with_fuel(element_data, 3);
    lemma_port_number_of_decimal(packet.port);
}

/// An announcement that can be written fits in what one is let take up.
pub proof fn packet_fits(packet: PacketView)
    requires
        packet.valid(),
    ensures
        packet.text().len() <= MAX_PACKET_SIZE,
{
    lemma_decimal_text_len(packet.port);
}

/// Without opening bracket there is no end mark.
proof fn lemma_no_open_no_mark(data: Seq<u8>)
    requires
        !data.contains(OPEN),
    ensures
        find(data, end_mark()) is None,
{
    lemma_find(data, end_mark());
    if find(data, end_mark()) is Some {
        let i = find(data, end_mark())->0;
        assert(data.subrange(i, i + 2)[0] == OPEN);
        assert(data[i] == OPEN);
    }
}

impl<'a> DiscoveryPacket<'a> {
    /// Reads an announcement.
    pub fn parse(data: &'a [u8]) -> (result: Result<Self, DiscoveryPacketParseError<'a>>)
        ensures
            match result {
                Ok(packet) => parsed(data@) == Ok::<PacketView, Seq<u8>>(packet@),
                Err(DiscoveryPacketParseError::InvalidPort(port_data)) => parsed(data@) == Err::<
                    PacketView,
                    Seq<u8>,
                >(port_data@),
            },
    {
        let elements = elements(data);
        let port_key = [0x41u8, 0x44u8];
        assert(port_key@ =~= port_name());
        let port_data = match lookup(&elements, port_key.as_slice()) {
            Some(port_data) => port_data,
            None => {
                let nothing = slice_subrange(data, 0, 0);
                assert(nothing@ =~= Seq::empty());
                return Err(DiscoveryPacketParseError::InvalidPort(nothing));
            },
        };
        let port = match parse_port(port_data) {
            Some(port) => port,
            None => {
                return Err(DiscoveryPacketParseError::InvalidPort(port_data));
            },
        };
        let motd_key = [0x4du8, 0x4fu8, 0x54u8, 0x44u8];
        assert(motd_key@ =~= motd_name());
        let motd = match lookup(&elements, motd_key.as_slice()) {
            Some(motd) => motd,
            None => {
                let nothing = slice_subrange(data, 0, 0);
                assert(nothing@ =~= Seq::empty());
                nothing
            },
        };
        Ok(DiscoveryPacket { port, motd })
    }

    /// Writes the announcement at the start of a buffer, and returns how many bytes it takes.
    pub fn encode(&self, buf: &mut [u8]) -> (result: Result<usize, DiscoveryPacketEncodeError>)
        ensures
            final(buf)@.len() == old(buf)@.len(),
            match result {
                Ok(len) => {
                    &&& self@.valid()
                    &&& len == self@.text().len() <= old(buf)@.len()
                    &&& final(buf)@ == self@.text() + old(buf)@.skip(len as int)
                },
                Err(DiscoveryPacketEncodeError::InvalidMotd(motd)) => {
                    &&& !self@.valid()
                    &&& motd@ == self@.motd
                    &&& final(buf)@ == old(buf)@
                },
                Err(DiscoveryPacketEncodeError::BufferTooSmall) => {
                    let written = self@.written(old(buf)@.len()) as int;
                    &&& self@.valid()
                    &&& self@.text().len() > old(buf)@.len()
                    &&& final(buf)@ == self@.text().take(written) + old(buf)@.skip(written)
                },
            },
    {
        if contains_byte(self.motd, OPEN) || self.motd.len() > MAX_MOTD_LEN {
            return Err(DiscoveryPacketEncodeError::InvalidMotd(slice_to_vec(self.motd)));
        }
        let ghost text = self@.text();
        let ghost before = buf@;
        let room: usize = buf.len();
        let head = [OPEN, 0x4du8, 0x4fu8, 0x54u8, 0x44u8, CLOSE];
        let middle = [
            OPEN,
            SLASH,
            0x4du8,
            0x4fu8,
            0x54u8,
            0x44u8,
            CLOSE,
            OPEN,
            0x41u8,
            0x44u8,
            CLOSE,
        ];
        let end = [OPEN, SLASH, 0x41u8, 0x44u8, CLOSE];
        let port = decimal_bytes(self.port);
        proof {
            lemma_decimal_text_len(self.port);
            assert(head@ =~= open_tag(motd_name()));
            assert(middle@ =~= close_tag(motd_name()) + open_tag(port_name()));
            assert(end@ =~= close_tag(port_name()));
            assert(text =~= head@ + self.motd@ + middle@ + port@ + end@);
        }
        assert(text.take(0) + before.skip(0) =~= before);
        assert(text.subrange(0, head@.len() as int) =~= head@);
        let at: usize = put(buf, 0, head.as_slice(), Ghost(text), Ghost(before));
        if at < 6 || room - at < self.motd.len() {
            return Err(DiscoveryPacketEncodeError::BufferTooSmall);
        }
        assert(text.subrange(at as int, at + self.motd@.len()) =~= self.motd@);
        let at: usize = put(buf, at, self.motd, Ghost(text), Ghost(before));
        assert(text.subrange(at as int, at + middle@.len()) =~= middle@);
        let at: usize = put(buf, at, middle.as_slice(), Ghost(text), Ghost(before));
        if at < 6 + self.motd.len() + 11 {
            return Err(DiscoveryPacketEncodeError::BufferTooSmall);
        }
        assert(text.subrange(at as int, at + port@.len()) =~= port@);
        let at: usize = put(buf, at, port.as_slice(), Ghost(text), Ghost(before));
        if at < 6 + self.motd.len() + 11 + port.len() {
            return Err(DiscoveryPacketEncodeError::BufferTooSmall);
        }
        assert(text.subrange(at as int, at + end@.len()) =~= end@);
        let at: usize = put(buf, at, end.as_slice(), Ghost(text), Ghost(before));
        if at < 6 + self.motd.len() + 11 + port.len() + 5 {
            return Err(DiscoveryPacketEncodeError::BufferTooSmall);
        }
        assert(text.take(at as int) =~= text);
        Ok(at)
    }

    /// Writes the announcement as it goes out on the network.
    pub fn datagram(&self) -> (result: Result<Vec<u8>, DiscoveryPacketEncodeError>)
        ensures
            match result {
                Ok(data) => self@.valid() && data@ == self@.text(),
                Err(DiscoveryPacketEncodeError::InvalidMotd(motd)) => !self@.valid() && motd@
                    == self@.motd,
                Err(DiscoveryPacketEncodeError::BufferTooSmall) => false,
            },
    {
        let mut data: Vec<u8> = vec![0u8; MAX_PACKET_SIZE];
        proof {
            if self@.valid() {
                packet_fits(self@);
            }
        }
        match self.encode(data.as_mut_slice()) {
            Ok(len) => {
                data.truncate(len);
                assert(data@ =~= self@.text());
                Ok(data)
            },
            Err(error) => Err(error),
        }
    }
}

/// Tells whether a byte stands in a text.
fn contains_byte(text: &[u8], byte: u8) -> (result: bool)
    ensures
        result == text@.contains(byte),
{
    let mut i: usize = 0;
    while i < text.len()
        invariant
            i <= text@.len(),
            forall|j: int| 0 <= j < i ==> text@[j] != byte,
        decreases text@.len() - i,
    {
        if text[i] == byte {
            return true;
        }
        i = i + 1;
    }
    false
}

/// Goes on writing a text: `bytes` is what follows the first `at` bytes of it. Stops where the
/// buffer ends, and returns how much of the text is written.
fn put(
    buf: &mut [u8],
    at: usize,
    bytes: &[u8],
    Ghost(text): Ghost<Seq<u8>>,
    Ghost(before): Ghost<Seq<u8>>,
) -> (end: usize)
    requires
        at <= old(buf)@.len(),
        old(buf)@.len() == before.len(),
        at <= text.len(),
        old(buf)@ == text.take(at as int) + before.skip(at as int),
        at + bytes@.len() <= text.len(),
        text.subrange(at as int, at + bytes@.len()) == bytes@,
    ensures
        final(buf)@.len() == before.len(),
        end == if at + bytes@.len() <= before.len() {
            (at + bytes@.len()) as int
        } else {
            before.len() as int
        },
        final(buf)@ == text.take(end as int) + before.skip(end as int),
{
    let len: usize = buf.len();
    let count: usize = bytes.len();
    let mut i: usize = 0;
    while i < count && i < len - at
        invariant
            i <= count == bytes@.len(),
            at + i <= len == buf@.len() == before.len(),
            at + count <= text.len(),
            text.subrange(at as int, at + count) == bytes@,
            buf@ == text.take(at + i) + before.skip(at + i),
        decreases count - i,
    {
        let byte = bytes[i];
        assert(text.subrange(at as int, at + count)[i as int] == text[at + i]);
        buf[at + i] = byte;
        i = i + 1;
        assert(buf@ =~= text.take(at + i) + before.skip(at + i));
    }
    at + i
}

/// What a text announces: without anything under `AD` it names no port, and what stands there
/// instead of a port is reported as it is; otherwise it names that port, with all that stands under
/// `MOTD`, or an empty description.
pub proof fn reading_an_announcement(text: Seq<u8>)
    ensures
        ({
            let port_data = element_data(all_elements(text), seq![0x41u8, 0x44u8]);
            let motd = element_data(all_elements(text), seq![0x4du8, 0x4fu8, 0x54u8, 0x44u8]);
            match parsed(text) {
                Ok(packet) => {
                    &&& port_data is Some
                    &&& port_number(port_data->0) == Some(packet.port)
                    &&& motd is Some ==> packet.motd == motd->0
                    &&& motd is None ==> packet.motd.len() == 0
                },
                Err(bad) => {
                    &&& port_data is None ==> bad.len() == 0
                    &&& port_data is Some ==> bad == port_data->0 && port_number(bad) is None
                },
            }
        }),
{
}

/// An announcement is written as `[MOTD]`, the whole description, `[/MOTD][AD]`, the port in
/// decimal and `[/AD]`, for every description of at most 256 bytes without an opening bracket.
pub proof fn writing_an_announcement(packet: PacketView)
    ensures
        packet.text() == seq![0x5bu8, 0x4du8, 0x4fu8, 0x54u8, 0x44u8, 0x5du8] + packet.motd + seq![
            0x5bu8,
            0x2fu8,
            0x4du8,
            0x4fu8,
            0x54u8,
            0x44u8,
            0x5du8,
            0x5bu8,
            0x41u8,
            0x44u8,
            0x5du8,
        ] + decimal_text(packet.port as nat) + seq![0x5bu8, 0x2fu8, 0x41u8, 0x44u8, 0x5du8],
        packet.valid() <==> packet.motd.len() <= 256 && forall|i: int|
            0 <= i < packet.motd.len() ==> #[trigger] packet.motd[i] != 0x5b,
        MAX_PACKET_SIZE == 1500,
{
    assert(packet.text() =~= seq![0x5bu8, 0x4du8, 0x4fu8, 0x54u8, 0x44u8, 0x5du8] + packet.motd
        + seq![
        0x5bu8,
        0x2fu8,
        0x4du8,
        0x4fu8,
        0x54u8,
        0x44u8,
        0x5du8,
        0x5bu8,
        0x41u8,
        0x44u8,
        0x5du8,
    ] + decimal_text(packet.port as nat) + seq![0x5bu8, 0x2fu8, 0x41u8, 0x44u8, 0x5du8]);
}

/// In a buffer that is too small, the announcement stands as far as there is room, but never a
/// part of the description only.
pub proof fn writing_into_a_small_buffer(packet: PacketView, room: nat)
    requires
        room < packet.text().len(),
    ensures
        room < 6 ==> packet.written(room) == room,
        6 <= room < 6 + packet.motd.len() ==> packet.written(room) == 6,
        6 + packet.motd.len() <= room ==> packet.written(room) == room,
{
}

/// An announcement stands for its port and its whole description.
pub proof fn reading_a_packet(packet: DiscoveryPacket)
    ensures
        packet@.port == packet.port,
        packet@.motd == packet.motd@,
{
}

} // verus!
