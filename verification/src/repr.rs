//! A whole packet as a flat value: the flags, the reserved bits and
//! the two arrays, borrowed from the buffer they were read from.

use crate::buffer::be24;
use crate::buffer::be24_bytes;
use crate::buffer::be32;
use crate::buffer::be32_bytes;
use crate::buffer::ByteView;
use crate::buffer::ByteViewMut;
use crate::buffer::lemma_be32_round_trip;
use crate::buffer::lemma_splice;
use crate::buffer::put_bytes;
use crate::buffer::splice;
use crate::error::Error;
use crate::field;
use crate::packet::lemma_packet_bytes_len;
use crate::packet::lemma_packet_layout;
use crate::packet::Packet;
use crate::packet::packet_bytes;
use crate::packet::spec_entries_array;
use crate::packet::spec_entries_length;
use crate::packet::spec_options_array;
use crate::packet::well_formed;
use crate::text::append_decimal;
use crate::text::append_hex_byte_upper;
use crate::text::decimal;
use crate::text::hex_byte_upper;
use vstd::prelude::*;
use vstd::string::StringExecFns;

verus! {

/// A packet as a flat value.
#[derive(Debug, PartialEq, Eq, Clone, Copy)]
pub struct Repr<'a> {
    /// The flags byte.
    pub flags: u8,
    /// The reserved bits, twenty-four on the wire; sent as zero.
    pub reserved: u32,
    /// The entries array.
    pub entries: &'a [u8],
    /// The options array.
    pub options: &'a [u8],
}

impl<'a> Repr<'a> {
    /// The bytes of the packet on the wire.
    pub open spec fn wire_bytes(&self) -> Seq<u8> {
        packet_bytes(self.flags, self.reserved, self.entries@, self.options@)
    }

    /// The text of the packet: its flags as two upper-case hexadecimal
    /// digits and the lengths of its arrays in decimal.
    pub open spec fn text(&self) -> Seq<char> {
        "SOME/IP-SD Message: flags=0x"@ + hex_byte_upper(self.flags) + ", entries_len="@
            + decimal(self.entries@.len()) + ", options_len="@ + decimal(self.options@.len())
    }

    /// Whether `repr` is what the packet in `bytes` says.
    pub open spec fn parses_to(bytes: Seq<u8>, repr: Repr<'a>) -> bool
        recommends
            well_formed(bytes),
    {
        &&& repr.flags == bytes[0]
        &&& repr.reserved as int == be24(bytes.subrange(1, 4))
        &&& repr.entries@ == spec_entries_array(bytes)
        &&& repr.options@ == spec_options_array(bytes)
    }

    /// A packet with the given flags and arrays and the reserved bits
    /// zero.
    pub fn new(flags: u8, entries: &'a [u8], options: &'a [u8]) -> (r: Self)
        ensures
            r.flags == flags,
            r.reserved == 0,
            r.entries@ == entries@,
            r.options@ == options@,
    {
        Repr { flags, reserved: 0, entries, options }
    }

    /// Reads a packet; fails when the buffer does not hold a whole one.
    pub fn parse<T: ByteView>(packet: &'a Packet<T>) -> (r: Result<Repr<'a>, Error>)
        ensures
            r is Ok <==> well_formed(packet@),
            r matches Ok(repr) ==> Self::parses_to(packet@, repr),
            r matches Err(e) ==> e == Error::BufferTooShort,
    {
        match packet.check_len() {
            Ok(()) => {},
            Err(e) => {
                return Err(e);
            },
        }
        let flags = packet.flags();
        let reserved = packet.reserved();
        let entries = packet.entries_array();
        let options = packet.options_array();
        Ok(Repr { flags, reserved, entries, options })
    }

    /// Writes the packet into the front of the packet's buffer: flags,
    /// reserved bits, each length and then its array. The bytes behind
    /// the packet stay.
    #[verifier::rlimit(40)]
    pub fn emit<T: ByteViewMut>(&self, packet: &mut Packet<T>)
        requires
            self.entries@.len() <= u32::MAX,
            self.options@.len() <= u32::MAX,
            old(packet)@.len() >= 12 + self.entries@.len() + self.options@.len(),
        ensures
            final(packet)@ == splice(old(packet)@, 0, self.wire_bytes()),
    {
        let ghost s0 = packet@;
        let ghost e = self.entries@.len() as int;
        packet.set_flags(self.flags);
        packet.set_reserved(self.reserved);
        packet.set_entries_length(self.entries.len() as u32);
        let ghost s3 = packet@;
        proof {
            lemma_emit_prefix(s0, self.flags, self.reserved, self.entries@.len() as u32, s3);
        }
        let entries_mut = packet.entries_array_mut();
        put_bytes(entries_mut, 0, self.entries);
        proof {
            assert(entries_mut@ =~= self.entries@);
        }
        let ghost s4 = packet@;
        proof {
            lemma_emit_array(s3, 4, 8, self.entries@, s4);
        }
        packet.set_options_length(self.options.len() as u32);
        let ghost s5 = packet@;
        proof {
            lemma_emit_length(s4, 8 + e, self.options@.len() as u32, s5);
            assert(s5.subrange(4, 8) =~= s4.subrange(4, 8));
        }
        let options_mut = packet.options_array_mut();
        put_bytes(options_mut, 0, self.options);
        proof {
            assert(options_mut@ =~= self.options@);
        }
        let ghost s6 = packet@;
        proof {
            lemma_emit_array(
                s5,
                8 + e,
                12 + e,
                self.options@,
                s6,
            );
            lemma_emit_whole(
                s0,
                s3,
                s4,
                s5,
                s6,
                self.flags,
                self.reserved,
                self.entries@,
                self.options@,
            );
        }
    }

    /// Renders the flags and the lengths of the two arrays.
    pub fn to_string(&self) -> (s: String)
        ensures
            s@ == self.text(),
    {
        let mut out = String::from_str("SOME/IP-SD Message: flags=0x");
        append_hex_byte_upper(&mut out, self.flags);
        out.append(", entries_len=");
        append_decimal(&mut out, self.entries.len());
        out.append(", options_len=");
        append_decimal(&mut out, self.options.len());
        proof {
            assert(out@ =~= self.text());
        }
        out
    }

    /// Size of the packet on the wire.
    pub fn buffer_len(&self) -> (n: usize)
        requires
            12 + self.entries@.len() + self.options@.len() <= usize::MAX,
        ensures
            n == 12 + self.entries@.len() + self.options@.len(),
            n == self.wire_bytes().len(),
    {
        proof {
            lemma_packet_bytes_len(
                self.flags,
                self.reserved,
                self.entries@,
                self.options@,
            );
        }
        field::entries::OPTIONS_ARRAY(self.entries.len(), self.options.len()).end
    }
}

/// What `Repr::emit` writes, `Repr::parse` reads back field by field,
/// whatever follows the packet in the buffer, for every packet whose
/// arrays fit their length fields and whose reserved bits fit
/// twenty-four bits.
pub proof fn lemma_repr_round_trip<'a>(repr: Repr<'a>, rest: Seq<u8>)
    requires
        repr.entries@.len() <= u32::MAX,
        repr.options@.len() <= u32::MAX,
        repr.reserved < 0x100_0000,
    ensures
        repr.wire_bytes().len() == 12 + repr.entries@.len() + repr.options@.len(),
        well_formed(repr.wire_bytes() + rest),
        Repr::parses_to(repr.wire_bytes() + rest, repr),
{
    lemma_packet_layout(
        repr.flags,
        repr.reserved,
        repr.entries@,
        repr.options@,
        rest,
    );
}

proof fn lemma_emit_prefix(s0: Seq<u8>, flags: u8, reserved: u32, length: u32, s3: Seq<u8>)
    requires
        s0.len() >= 8,
        s3 == splice(
            splice(s0.update(0, flags), 1, be24_bytes(reserved)),
            4,
            be32_bytes(length),
        ),
    ensures
        s3.len() == s0.len(),
        spec_entries_length(s3) == length,
        s3.subrange(0, 8) == seq![flags] + be24_bytes(reserved)
            + be32_bytes(length),
        forall|i: int| 8 <= i < s0.len() ==> s3[i] == s0[i],
{
    let s1 = s0.update(0, flags);
    let s2 = splice(s1, 1, be24_bytes(reserved));
    lemma_splice(s1, 1, be24_bytes(reserved));
    lemma_splice(s2, 4, be32_bytes(length));
    lemma_be32_round_trip(length);
    assert(s3.subrange(0, 8) =~= seq![flags] + be24_bytes(reserved)
        + be32_bytes(length));
}

proof fn lemma_emit_length(before: Seq<u8>, at: int, length: u32, after: Seq<u8>)
    requires
        0 <= at,
        at + 4 <= before.len(),
        after == splice(before, at, be32_bytes(length)),
    ensures
        after.len() == before.len(),
        be32(after.subrange(at, at + 4)) == length,
        forall|i: int| 0 <= i < before.len() && !(at <= i < at + 4) ==> after[i] == before[i],
        after.subrange(at, at + 4) == be32_bytes(length),
{
    lemma_splice(before, at, be32_bytes(length));
    lemma_be32_round_trip(length);
}

proof fn lemma_emit_array(before: Seq<u8>, len_at: int, at: int, array: Seq<u8>, after: Seq<u8>)
    requires
        0 <= len_at,
        len_at + 4 <= at,
        at + array.len() <= before.len(),
        after == splice(before, at, array),
    ensures
        after.len() == before.len(),
        after.subrange(at, at + array.len()) == array,
        after.subrange(len_at, len_at + 4) == before.subrange(len_at, len_at + 4),
        forall|i: int|
            0 <= i < before.len() && !(at <= i < at + array.len()) ==> after[i] == before[i],
{
    lemma_splice(before, at, array);
    assert(after.subrange(len_at, len_at + 4) =~= before.subrange(len_at, len_at + 4));
}

proof fn lemma_emit_whole(
    s0: Seq<u8>,
    s3: Seq<u8>,
    s4: Seq<u8>,
    s5: Seq<u8>,
    s6: Seq<u8>,
    flags: u8,
    reserved: u32,
    entries: Seq<u8>,
    options: Seq<u8>,
)
    requires
        entries.len() <= u32::MAX,
        options.len() <= u32::MAX,
        s0.len() >= 12 + entries.len() + options.len(),
        s3.len() == s0.len(),
        s4.len() == s0.len(),
        s5.len() == s0.len(),
        s6.len() == s0.len(),
        s3.subrange(0, 8) == seq![flags] + be24_bytes(reserved)
            + be32_bytes(entries.len() as u32),
        forall|i: int| 8 <= i < s0.len() ==> s3[i] == s0[i],
        s4.subrange(8, 8 + entries.len() as int) == entries,
        forall|i: int|
            0 <= i < s0.len() && !(8 <= i < 8 + entries.len()) ==> s4[i] == s3[i],
        s5.subrange(8 + entries.len() as int, 12 + entries.len() as int)
            == be32_bytes(options.len() as u32),
        forall|i: int|
            0 <= i < s0.len() && !(8 + entries.len() <= i < 12 + entries.len()) ==> s5[i]
                == s4[i],
        s6.subrange(
            12 + entries.len() as int,
            12 + entries.len() as int + options.len() as int,
        ) == options,
        forall|i: int|
            0 <= i < s0.len() && !(12 + entries.len() <= i < 12 + entries.len() + options.len())
                ==> s6[i] == s5[i],
    ensures
        s6 == splice(s0, 0, packet_bytes(flags, reserved, entries, options)),
{
    reveal(packet_bytes);
    let e = entries.len() as int;
    let o = options.len() as int;
    let w = packet_bytes(flags, reserved, entries, options);
    let head = seq![flags] + be24_bytes(reserved) + be32_bytes(
        e as u32,
    );
    let olen = be32_bytes(o as u32);
    assert(w.len() == 12 + e + o);
    let target = splice(s0, 0, w);
    assert(target.len() == s6.len());
    assert forall|i: int| 0 <= i < s6.len() implies s6[i] == target[i] by {
        if i < 8 {
            assert(s6[i] == s3[i]);
            assert(s3[i] == s3.subrange(0, 8)[i]);
            assert(w[i] == head[i]);
        } else if i < 8 + e {
            assert(s6[i] == s4[i]);
            assert(s4[i] == s4.subrange(8, 8 + e)[i - 8]);
            assert(w[i] == entries[i - 8]);
        } else if i < 12 + e {
            assert(s6[i] == s5[i]);
            assert(s5[i] == s5.subrange(8 + e, 12 + e)[i - 8 - e]);
            assert(w[i] == olen[i - 8 - e]);
        } else if i < 12 + e + o {
            assert(s6[i] == s6.subrange(12 + e, 12 + e + o)[i - 12 - e]);
            assert(w[i] == options[i - 12 - e]);
        } else {
            assert(s6[i] == s0[i]);
        }
    }
    assert(s6 =~= target);
}

} // verus!
