//! The packet envelope: flags, reserved bits and the two
//! length-prefixed arrays of entries and options.
//!
//! The envelope is checked stage by stage, each length before the
//! bytes it announces. What the arrays hold is not looked at here.

use crate::buffer::be24;
use crate::buffer::be24_bytes;
use crate::buffer::be32;
use crate::buffer::be32_bytes;
use crate::buffer::ByteView;
use crate::buffer::ByteViewMut;
use crate::buffer::get_u24;
use crate::buffer::get_u32;
use crate::buffer::lemma_be24_round_trip;
use crate::buffer::lemma_be32_round_trip;
use crate::buffer::put_u24;
use crate::buffer::put_u32;
use crate::buffer::splice;
use crate::buffer::window_mut;
use crate::error::Error;
use crate::field;
use crate::text::append_decimal;
use crate::text::append_hex_byte_upper;
use crate::text::decimal;
use crate::text::hex_byte_upper;
use vstd::prelude::*;
use vstd::string::StringExecFns;

verus! {

/// Size of a packet whose two arrays are empty: the fixed prefix and
/// the two lengths.
pub const MIN_LEN: usize = 12;

/// The length of the entries array that the bytes announce.
pub open spec fn spec_entries_length(b: Seq<u8>) -> int
    recommends
        b.len() >= 8,
{
    be32(b.subrange(4, 8))
}

/// The length of the options array that the bytes announce, behind the
/// entries array.
pub open spec fn spec_options_length(b: Seq<u8>) -> int
    recommends
        b.len() >= 12 + spec_entries_length(b),
{
    be32(b.subrange(8 + spec_entries_length(b), 12 + spec_entries_length(b)))
}

/// Whether the bytes hold a whole packet: the fixed prefix, the entries
/// array with the length of the options array behind it, and the
/// options array.
pub open spec fn well_formed(b: Seq<u8>) -> bool {
    &&& b.len() >= 8
    &&& b.len() >= 12 + spec_entries_length(b)
    &&& b.len() >= 12 + spec_entries_length(b) + spec_options_length(b)
}

/// The entries array of a packet.
pub open spec fn spec_entries_array(b: Seq<u8>) -> Seq<u8>
    recommends
        b.len() >= 8 + spec_entries_length(b),
{
    b.subrange(8, 8 + spec_entries_length(b))
}

/// The options array of a packet.
pub open spec fn spec_options_array(b: Seq<u8>) -> Seq<u8>
    recommends
        well_formed(b),
{
    b.subrange(
        12 + spec_entries_length(b),
        12 + spec_entries_length(b) + spec_options_length(b),
    )
}

/// The text of a packet: its flags as two upper-case hexadecimal
/// digits and the two lengths it announces in decimal.
pub open spec fn packet_text(b: Seq<u8>) -> Seq<char>
    recommends
        b.len() >= 12 + spec_entries_length(b),
{
    "SOME/IP-SD Packet: flags=0x"@ + hex_byte_upper(b[0]) + ", entries_len="@ + decimal(
        spec_entries_length(b) as nat,
    ) + ", options_len="@ + decimal(spec_options_length(b) as nat)
}

/// The bytes of a packet made of the given parts.
#[verifier::opaque]
pub open spec fn packet_bytes(flags: u8, reserved: u32, entries: Seq<u8>, options: Seq<u8>) -> Seq<
    u8,
>
    recommends
        entries.len() <= u32::MAX,
        options.len() <= u32::MAX,
{
    seq![flags] + be24_bytes(reserved) + be32_bytes(entries.len() as u32) + entries + be32_bytes(
        options.len() as u32,
    ) + options
}

/// A packet is twelve bytes longer than its two arrays together.
pub proof fn lemma_packet_bytes_len(flags: u8, reserved: u32, entries: Seq<u8>, options: Seq<u8>)
    ensures
        packet_bytes(flags, reserved, entries, options).len() == 12 + entries.len()
            + options.len(),
{
    reveal(packet_bytes);
}

/// A packet built from an entries array and an options array is well
/// formed, is as long as its parts, and its two arrays are exactly the
/// ones it was built from, whatever follows it in the buffer.
pub proof fn lemma_packet_layout(
    flags: u8,
    reserved: u32,
    entries: Seq<u8>,
    options: Seq<u8>,
    rest: Seq<u8>,
)
    requires
        entries.len() <= u32::MAX,
        options.len() <= u32::MAX,
    ensures
        packet_bytes(flags, reserved, entries, options).len() == 8 + entries.len() + 4
            + options.len(),
        well_formed(packet_bytes(flags, reserved, entries, options) + rest),
        (packet_bytes(flags, reserved, entries, options) + rest)[0] == flags,
        be24((packet_bytes(flags, reserved, entries, options) + rest).subrange(1, 4))
            == reserved as int % 0x100_0000,
        spec_entries_array(packet_bytes(flags, reserved, entries, options) + rest) == entries,
        spec_options_array(packet_bytes(flags, reserved, entries, options) + rest) == options,
{
    reveal(packet_bytes);
    let e = entries.len() as int;
    let o = options.len() as int;
    let b = packet_bytes(flags, reserved, entries, options) + rest;
    lemma_be24_round_trip(reserved);
    lemma_be32_round_trip(e as u32);
    lemma_be32_round_trip(o as u32);
    assert(b.subrange(1, 4) =~= be24_bytes(reserved));
    assert(b.subrange(4, 8) =~= be32_bytes(e as u32));
    assert(spec_entries_length(b) == e);
    assert(b.subrange(8 + e, 12 + e) =~= be32_bytes(o as u32));
    assert(spec_options_length(b) == o);
    assert(b.subrange(8, 8 + e) =~= entries);
    assert(b.subrange(12 + e, 12 + e + o) =~= options);
}

/// A view of a packet over a buffer.
#[derive(Debug, PartialEq, Eq, Clone)]
pub struct Packet<T: ByteView> {
    buffer: T,
}

impl<T: ByteView> View for Packet<T> {
    type V = Seq<u8>;

    /// The bytes of the wrapped buffer.
    closed spec fn view(&self) -> Seq<u8> {
        self.buffer.bytes()
    }
}

impl<T: ByteView> Packet<T> {
    /// Wraps a buffer without looking at it.
    pub fn new_unchecked(buffer: T) -> (packet: Packet<T>)
        ensures
            packet@ == buffer.bytes(),
    {
        Packet { buffer }
    }

    /// Wraps a buffer that holds a whole packet.
    pub fn new_checked(buffer: T) -> (r: Result<Packet<T>, Error>)
        ensures
            r is Ok <==> well_formed(buffer.bytes()),
            r matches Ok(packet) ==> packet@ == buffer.bytes(),
            r matches Err(e) ==> e == Error::BufferTooShort,
            buffer.bytes().len() < 8 ==> r is Err,
    {
        let packet = Self::new_unchecked(buffer);
        match packet.check_len() {
            Ok(()) => Ok(packet),
            Err(e) => Err(e),
        }
    }

    /// Succeeds exactly when the buffer holds a whole packet. The three
    /// stages are checked in order: the fixed prefix, then the entries
    /// array with the length that follows it, then the options array.
    pub fn check_len(&self) -> (r: Result<(), Error>)
        ensures
            r is Ok <==> well_formed(self@),
            r matches Err(e) ==> e == Error::BufferTooShort,
            self@.len() < 8 ==> r is Err,
    {
        let len: usize = self.buffer.as_bytes().len();
        if len < field::entries::MIN_HEADER_LEN {
            return Err(Error::BufferTooShort);
        }
        let entries_len: usize = self.entries_length();
        if len < MIN_LEN || entries_len > len - MIN_LEN {
            return Err(Error::BufferTooShort);
        }
        let options_len: usize = self.options_length();
        if options_len > len - MIN_LEN - entries_len {
            return Err(Error::BufferTooShort);
        }
        Ok(())
    }

    /// Hands the buffer back.
    pub fn into_inner(self) -> (buffer: T)
        ensures
            buffer.bytes() == self@,
    {
        self.buffer
    }

    /// The whole buffer.
    pub fn as_slice(&self) -> (s: &[u8])
        ensures
            s@ == self@,
    {
        self.buffer.as_bytes()
    }

    /// The flags byte.
    pub fn flags(&self) -> (r: u8)
        requires
            self@.len() > 0,
        ensures
            r == self@[0],
    {
        self.buffer.as_bytes()[field::header::FLAGS.start]
    }

    /// The three reserved bytes, read most significant first.
    pub fn reserved(&self) -> (r: u32)
        requires
            self@.len() >= 4,
        ensures
            r as int == be24(self@.subrange(1, 4)),
    {
        get_u24(self.buffer.as_bytes(), field::header::RESERVED.start)
    }

    /// The length of the entries array, in bytes.
    pub fn entries_length(&self) -> (r: usize)
        requires
            self@.len() >= 8,
        ensures
            r as int == spec_entries_length(self@),
    {
        get_u32(self.buffer.as_bytes(), field::entries::LENGTH.start) as usize
    }

    /// The entries array.
    pub fn entries_array(&self) -> (s: &[u8])
        requires
            self@.len() >= 8,
            self@.len() >= 8 + spec_entries_length(self@),
        ensures
            s@ == spec_entries_array(self@),
    {
        let len: usize = self.entries_length();
        let b = self.buffer.as_bytes();
        assert(b@.len() == b.len());
        let range = field::entries::ENTRIES_ARRAY(len);
        &b[range]
    }

    /// The length of the options array, in bytes.
    pub fn options_length(&self) -> (r: usize)
        requires
            self@.len() >= 8,
            self@.len() >= 12 + spec_entries_length(self@),
        ensures
            r as int == spec_options_length(self@),
    {
        let entries_len: usize = self.entries_length();
        let b = self.buffer.as_bytes();
        assert(b@.len() == b.len());
        get_u32(b, field::entries::OPTIONS_LENGTH(entries_len).start) as usize
    }

    /// The options array.
    pub fn options_array(&self) -> (s: &[u8])
        requires
            well_formed(self@),
        ensures
            s@ == spec_options_array(self@),
    {
        let entries_len: usize = self.entries_length();
        let options_len: usize = self.options_length();
        let b = self.buffer.as_bytes();
        assert(b@.len() == b.len());
        let range = field::entries::OPTIONS_ARRAY(entries_len, options_len);
        &b[range]
    }

    /// Renders the flags and the two lengths the packet announces.
    pub fn to_string(&self) -> (s: String)
        requires
            self@.len() >= 8,
            self@.len() >= 12 + spec_entries_length(self@),
        ensures
            s@ == packet_text(self@),
    {
        let mut out = String::from_str("SOME/IP-SD Packet: flags=0x");
        append_hex_byte_upper(&mut out, self.flags());
        out.append(", entries_len=");
        append_decimal(&mut out, self.entries_length());
        out.append(", options_len=");
        append_decimal(&mut out, self.options_length());
        proof {
            assert(out@ =~= packet_text(self@));
        }
        out
    }

    /// The length of the packet that the two length fields announce.
    pub fn total_length(&self) -> (r: usize)
        requires
            self@.len() >= 8,
            self@.len() >= 12 + spec_entries_length(self@),
            12 + spec_entries_length(self@) + spec_options_length(self@) <= usize::MAX,
        ensures
            r as int == 12 + spec_entries_length(self@) + spec_options_length(self@),
    {
        let entries_len: usize = self.entries_length();
        let options_len: usize = self.options_length();
        field::entries::OPTIONS_ARRAY(entries_len, options_len).end
    }
}

impl<T: ByteViewMut> Packet<T> {
    /// Sets the flags byte.
    pub fn set_flags(&mut self, flags: u8)
        requires
            old(self)@.len() > 0,
        ensures
            final(self)@ == old(self)@.update(0, flags),
    {
        let b = self.buffer.as_bytes_mut();
        b[field::header::FLAGS.start] = flags;
    }

    /// Sets the three reserved bytes from the low twenty-four bits of
    /// `reserved`.
    pub fn set_reserved(&mut self, reserved: u32)
        requires
            old(self)@.len() >= 4,
        ensures
            final(self)@ == splice(old(self)@, 1, be24_bytes(reserved)),
    {
        put_u24(self.buffer.as_bytes_mut(), field::header::RESERVED.start, reserved);
    }

    /// Sets the length of the entries array. Nothing is checked again:
    /// the arrays are found anew from the stored lengths on each call.
    pub fn set_entries_length(&mut self, length: u32)
        requires
            old(self)@.len() >= 8,
        ensures
            final(self)@ == splice(old(self)@, 4, be32_bytes(length)),
    {
        put_u32(self.buffer.as_bytes_mut(), field::entries::LENGTH.start, length);
    }

    /// The entries array, to write into. What is written through the
    /// result is what the packet holds there afterwards; the bytes
    /// around it stay.
    pub fn entries_array_mut(&mut self) -> (w: &mut [u8])
        requires
            old(self)@.len() >= 8,
            old(self)@.len() >= 8 + spec_entries_length(old(self)@),
        ensures
            w@ == spec_entries_array(old(self)@),
            final(w)@.len() == w@.len(),
            final(self)@ == splice(old(self)@, 8, final(w)@),
    {
        let len: usize = self.entries_length();
        let b = self.buffer.as_bytes_mut();
        assert(b@.len() == b.len());
        let range = field::entries::ENTRIES_ARRAY(len);
        window_mut(b, range.start, range.end)
    }

    /// Sets the length of the options array, behind the entries array
    /// as its stored length places it.
    pub fn set_options_length(&mut self, length: u32)
        requires
            old(self)@.len() >= 8,
            old(self)@.len() >= 12 + spec_entries_length(old(self)@),
        ensures
            final(self)@ == splice(
                old(self)@,
                8 + spec_entries_length(old(self)@),
                be32_bytes(length),
            ),
    {
        let entries_len: usize = self.entries_length();
        let b = self.buffer.as_bytes_mut();
        assert(b@.len() == b.len());
        put_u32(b, field::entries::OPTIONS_LENGTH(entries_len).start, length);
    }

    /// The options array, to write into. What is written through the
    /// result is what the packet holds there afterwards; the bytes
    /// around it stay.
    pub fn options_array_mut(&mut self) -> (w: &mut [u8])
        requires
            well_formed(old(self)@),
        ensures
            w@ == spec_options_array(old(self)@),
            final(w)@.len() == w@.len(),
            final(self)@ == splice(old(self)@, 12 + spec_entries_length(old(self)@), final(w)@),
    {
        let entries_len: usize = self.entries_length();
        let options_len: usize = self.options_length();
        let b = self.buffer.as_bytes_mut();
        assert(b@.len() == b.len());
        let range = field::entries::OPTIONS_ARRAY(entries_len, options_len);
        window_mut(b, range.start, range.end)
    }
}

} // verus!
