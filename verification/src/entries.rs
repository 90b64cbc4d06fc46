//! Service and eventgroup entries: the sixteen-byte records of the
//! entries array, their packed sub-byte fields and their flat
//! representations.

use crate::buffer::be16;
use crate::buffer::be16_bytes;
use crate::buffer::be24;
use crate::buffer::be24_bytes;
use crate::buffer::be32;
use crate::buffer::be32_bytes;
use crate::buffer::ByteView;
use crate::buffer::ByteViewMut;
use crate::buffer::get_u16;
use crate::buffer::get_u24;
use crate::buffer::get_u32;
use crate::buffer::lemma_be16_round_trip;
use crate::buffer::lemma_be24_round_trip;
use crate::buffer::lemma_be32_round_trip;
use crate::buffer::put_u16;
use crate::buffer::put_u24;
use crate::buffer::put_u32;
use crate::buffer::splice;
use crate::error::Error;
use crate::field;
use vstd::prelude::*;

verus! {

/// The kind of an entry, as its first byte tells it.
#[derive(Debug, Clone, Copy, PartialEq, Eq, Structural)]
pub enum EntryType {
    /// `0x00`: a search for a service.
    FindService,
    /// `0x01`: an offer of a service; with a time to live of zero, its
    /// withdrawal.
    OfferService,
    /// `0x06`: a subscription to an eventgroup; with a time to live of
    /// zero, its end.
    Subscribe,
    /// `0x07`: the acknowledgment of a subscription.
    SubscribeAck,
}

/// Whether a byte is the type of a service entry.
pub open spec fn is_service_type_byte(b: u8) -> bool {
    b == 0x00 || b == 0x01
}

/// Whether a byte is the type of an eventgroup entry.
pub open spec fn is_eventgroup_type_byte(b: u8) -> bool {
    b == 0x06 || b == 0x07
}

impl EntryType {
    /// The entry type a byte stands for, if any.
    pub open spec fn spec_from_u8(value: u8) -> Option<EntryType> {
        if value == 0x00 {
            Some(EntryType::FindService)
        } else if value == 0x01 {
            Some(EntryType::OfferService)
        } else if value == 0x06 {
            Some(EntryType::Subscribe)
        } else if value == 0x07 {
            Some(EntryType::SubscribeAck)
        } else {
            None
        }
    }

    /// The byte that stands for an entry type.
    pub open spec fn spec_as_u8(&self) -> u8 {
        match self {
            EntryType::FindService => 0x00,
            EntryType::OfferService => 0x01,
            EntryType::Subscribe => 0x06,
            EntryType::SubscribeAck => 0x07,
        }
    }

    /// Whether this is the type of a service entry.
    pub open spec fn spec_is_service_entry(&self) -> bool {
        *self is FindService || *self is OfferService
    }

    /// Whether this is the type of an eventgroup entry.
    pub open spec fn spec_is_eventgroup_entry(&self) -> bool {
        *self is Subscribe || *self is SubscribeAck
    }

    /// Reads an entry type from its byte.
    #[verifier::when_used_as_spec(spec_from_u8)]
    pub fn from_u8(value: u8) -> (r: Option<EntryType>)
        ensures
            r == Self::spec_from_u8(value),
    {
        match value {
            0x00 => Some(EntryType::FindService),
            0x01 => Some(EntryType::OfferService),
            0x06 => Some(EntryType::Subscribe),
            0x07 => Some(EntryType::SubscribeAck),
            _ => None,
        }
    }

    /// The byte of this entry type.
    #[verifier::when_used_as_spec(spec_as_u8)]
    pub fn as_u8(&self) -> (r: u8)
        ensures
            r == self.spec_as_u8(),
    {
        match self {
            EntryType::FindService => 0x00,
            EntryType::OfferService => 0x01,
            EntryType::Subscribe => 0x06,
            EntryType::SubscribeAck => 0x07,
        }
    }

    /// True for `FindService` and `OfferService`.
    #[verifier::when_used_as_spec(spec_is_service_entry)]
    pub fn is_service_entry(&self) -> (r: bool)
        ensures
            r == self.spec_is_service_entry(),
    {
        match self {
            EntryType::FindService => true,
            EntryType::OfferService => true,
            _ => false,
        }
    }

    /// True for `Subscribe` and `SubscribeAck`.
    #[verifier::when_used_as_spec(spec_is_eventgroup_entry)]
    pub fn is_eventgroup_entry(&self) -> (r: bool)
        ensures
            r == self.spec_is_eventgroup_entry(),
    {
        match self {
            EntryType::Subscribe => true,
            EntryType::SubscribeAck => true,
            _ => false,
        }
    }
}

/// Reading the byte of an entry type gives the entry type back, and a
/// byte that stands for an entry type is the byte of that type.
pub proof fn lemma_entry_type_round_trip(t: EntryType, b: u8)
    ensures
        EntryType::spec_from_u8(t.spec_as_u8()) == Some(t),
        EntryType::spec_from_u8(b) matches Some(u) ==> u.spec_as_u8() == b,
        EntryType::spec_from_u8(b) is Some <==> is_service_type_byte(b) || is_eventgroup_type_byte(
            b,
        ),
{
}

/// Two four-bit option counts in one byte: the count of the first
/// option run in the high half, that of the second in the low half.
#[derive(Debug, Clone, Copy, PartialEq, Eq, Structural)]
pub struct NumberOfOptions(u8);

impl View for NumberOfOptions {
    type V = u8;

    /// The packed byte.
    closed spec fn view(&self) -> u8 {
        self.0
    }
}

impl NumberOfOptions {
    /// The value that packs the low four bits of each count.
    pub closed spec fn pack(options1: u8, options2: u8) -> NumberOfOptions {
        NumberOfOptions(((options1 & 0x0F) << 4) | (options2 & 0x0F))
    }

    /// The value whose packed byte is `value`.
    pub closed spec fn spec_from_u8(value: u8) -> NumberOfOptions {
        NumberOfOptions(value)
    }

    /// The count of the first option run.
    pub open spec fn spec_options1(&self) -> u8 {
        (self@ >> 4) & 0x0F
    }

    /// The count of the second option run.
    pub open spec fn spec_options2(&self) -> u8 {
        self@ & 0x0F
    }

    /// Both counts zero.
    pub fn new() -> (r: Self)
        ensures
            r@ == 0,
    {
        NumberOfOptions(0)
    }

    /// Packs two counts; only the low four bits of each are kept.
    pub fn from_options(options1: u8, options2: u8) -> (r: Self)
        ensures
            r == Self::pack(options1, options2),
            r@ == ((options1 & 0x0F) << 4) | (options2 & 0x0F),
            r.spec_options1() == options1 & 0x0F,
            r.spec_options2() == options2 & 0x0F,
    {
        let opt1: u8 = options1 & 0x0F;
        let opt2: u8 = options2 & 0x0F;
        proof {
            lemma_nibble_bits(options1, options2);
        }
        NumberOfOptions((opt1 << 4) | opt2)
    }

    /// The value whose packed byte is `value`.
    pub fn from_u8(value: u8) -> (r: Self)
        ensures
            r@ == value,
            r == Self::spec_from_u8(value),
    {
        NumberOfOptions(value)
    }

    /// The count of the first option run, 0 to 15.
    #[verifier::when_used_as_spec(spec_options1)]
    pub fn options1(&self) -> (r: u8)
        ensures
            r == self.spec_options1(),
            r <= 15,
    {
        proof {
            lemma_nibble_range(self.0);
        }
        (self.0 >> 4) & 0x0F
    }

    /// The count of the second option run, 0 to 15.
    #[verifier::when_used_as_spec(spec_options2)]
    pub fn options2(&self) -> (r: u8)
        ensures
            r == self.spec_options2(),
            r <= 15,
    {
        proof {
            lemma_nibble_range(self.0);
        }
        self.0 & 0x0F
    }

    /// Replaces the count of the first option run by the low four bits
    /// of `value`; the other count stays.
    pub fn set_options1(&mut self, value: u8)
        ensures
            final(self)@ == (old(self)@ & 0x0F) | ((value & 0x0F) << 4),
            final(self).spec_options1() == value & 0x0F,
            final(self).spec_options2() == old(self).spec_options2(),
    {
        let masked: u8 = value & 0x0F;
        proof {
            lemma_set_high_nibble(self.0, value);
        }
        self.0 = (self.0 & 0x0F) | (masked << 4);
    }

    /// Replaces the count of the second option run by the low four bits
    /// of `value`; the other count stays.
    pub fn set_options2(&mut self, value: u8)
        ensures
            final(self)@ == (old(self)@ & 0xF0) | (value & 0x0F),
            final(self).spec_options1() == old(self).spec_options1(),
            final(self).spec_options2() == value & 0x0F,
    {
        let masked: u8 = value & 0x0F;
        proof {
            lemma_set_low_nibble(self.0, value);
        }
        self.0 = (self.0 & 0xF0) | masked;
    }

    /// The packed byte.
    pub fn as_u8(&self) -> (r: u8)
        ensures
            r == self@,
    {
        self.0
    }
}

proof fn lemma_nibble_bits(a: u8, b: u8)
    ensures
        ((((a & 0x0F) << 4) | (b & 0x0F)) >> 4) & 0x0F == a & 0x0F,
        (((a & 0x0F) << 4) | (b & 0x0F)) & 0x0F == b & 0x0F,
{
    assert(((((a & 0x0F) << 4) | (b & 0x0F)) >> 4) & 0x0F == a & 0x0F) by (bit_vector);
    assert((((a & 0x0F) << 4) | (b & 0x0F)) & 0x0F == b & 0x0F) by (bit_vector);
}

proof fn lemma_nibble_range(v: u8)
    ensures
        (v >> 4) & 0x0F <= 15,
        v & 0x0F <= 15,
{
    assert((v >> 4) & 0x0F <= 15) by (bit_vector);
    assert(v & 0x0F <= 15) by (bit_vector);
}

proof fn lemma_set_high_nibble(old_byte: u8, value: u8)
    ensures
        ((((old_byte & 0x0F) | ((value & 0x0F) << 4))) >> 4) & 0x0F == value & 0x0F,
        ((old_byte & 0x0F) | ((value & 0x0F) << 4)) & 0x0F == old_byte & 0x0F,
{
    assert(((((old_byte & 0x0F) | ((value & 0x0F) << 4))) >> 4) & 0x0F == value & 0x0F)
        by (bit_vector);
    assert(((old_byte & 0x0F) | ((value & 0x0F) << 4)) & 0x0F == old_byte & 0x0F)
        by (bit_vector);
}

proof fn lemma_set_low_nibble(old_byte: u8, value: u8)
    ensures
        ((((old_byte & 0xF0) | (value & 0x0F))) >> 4) & 0x0F == (old_byte >> 4) & 0x0F,
        ((old_byte & 0xF0) | (value & 0x0F)) & 0x0F == value & 0x0F,
{
    assert(((((old_byte & 0xF0) | (value & 0x0F))) >> 4) & 0x0F == (old_byte >> 4) & 0x0F)
        by (bit_vector);
    assert(((old_byte & 0xF0) | (value & 0x0F)) & 0x0F == value & 0x0F) by (bit_vector);
}

/// Packing two counts and reading them back gives the low four bits of
/// each, whatever the counts were.
pub proof fn lemma_number_of_options_packing(a: u8, b: u8)
    ensures
        NumberOfOptions::pack(a, b).spec_options1() == a & 0x0F,
        NumberOfOptions::pack(a, b).spec_options2() == b & 0x0F,
{
    lemma_nibble_bits(a, b);
}

/// Twelve reserved bits and a four-bit counter in sixteen bits: the
/// reserved bits on top, the counter in the low four bits.
#[derive(Debug, Clone, Copy, PartialEq, Eq, Structural)]
pub struct ReservedAndCounter(u16);

impl View for ReservedAndCounter {
    type V = u16;

    /// The packed sixteen bits.
    closed spec fn view(&self) -> u16 {
        self.0
    }
}

impl ReservedAndCounter {
    /// The value whose packed bits are `value`.
    pub closed spec fn spec_from_u16(value: u16) -> ReservedAndCounter {
        ReservedAndCounter(value)
    }

    /// The reserved bits.
    pub open spec fn spec_reserved(&self) -> u16 {
        (self@ >> 4) & 0x0FFF
    }

    /// The counter.
    pub open spec fn spec_counter(&self) -> u8 {
        (self@ & 0x0F) as u8
    }

    /// Reserved bits and counter zero.
    pub fn new() -> (r: Self)
        ensures
            r@ == 0,
    {
        ReservedAndCounter(0)
    }

    /// Packs the low twelve bits of `reserved` and the low four bits of
    /// `counter`.
    pub fn from_fields(reserved: u16, counter: u8) -> (r: Self)
        ensures
            r@ == ((reserved & 0x0FFF) << 4) | ((counter & 0x0F) as u16),
            r.spec_reserved() == reserved & 0x0FFF,
            r.spec_counter() == counter & 0x0F,
    {
        let res: u16 = reserved & 0x0FFF;
        let cnt: u16 = (counter & 0x0F) as u16;
        proof {
            lemma_fields_bits(reserved, counter);
        }
        ReservedAndCounter((res << 4) | cnt)
    }

    /// Packs a counter with the reserved bits zero.
    pub fn from_counter(counter: u8) -> (r: Self)
        ensures
            r@ == (counter & 0x0F) as u16,
            r.spec_reserved() == 0,
            r.spec_counter() == counter & 0x0F,
    {
        proof {
            lemma_counter_only(counter);
        }
        Self::from_fields(0, counter)
    }

    /// The reserved bits, twelve of them.
    #[verifier::when_used_as_spec(spec_reserved)]
    pub fn reserved(&self) -> (r: u16)
        ensures
            r == self.spec_reserved(),
            r <= 0x0FFF,
    {
        proof {
            lemma_fields_range(self.0);
        }
        (self.0 >> 4) & 0x0FFF
    }

    /// The counter, 0 to 15.
    #[verifier::when_used_as_spec(spec_counter)]
    pub fn counter(&self) -> (r: u8)
        ensures
            r == self.spec_counter(),
            r <= 15,
    {
        proof {
            lemma_fields_range(self.0);
        }
        (self.0 & 0x0F) as u8
    }

    /// Replaces the counter by the low four bits of `value`; the
    /// reserved bits stay.
    pub fn set_counter(&mut self, value: u8)
        ensures
            final(self)@ == (old(self)@ & 0xFFF0) | ((value & 0x0F) as u16),
            final(self).spec_counter() == value & 0x0F,
            final(self).spec_reserved() == old(self).spec_reserved(),
    {
        let masked: u16 = (value & 0x0F) as u16;
        proof {
            lemma_set_counter_bits(self.0, value);
        }
        self.0 = (self.0 & 0xFFF0) | masked;
    }

    /// The packed sixteen bits.
    pub fn as_u16(&self) -> (r: u16)
        ensures
            r == self@,
    {
        self.0
    }

    /// The value whose packed bits are `value`.
    pub fn from_u16(value: u16) -> (r: Self)
        ensures
            r@ == value,
            r == Self::spec_from_u16(value),
    {
        ReservedAndCounter(value)
    }

    /// The packed bits as two bytes, most significant first.
    pub fn to_be_bytes(&self) -> (r: [u8; 2])
        ensures
            r@ == be16_bytes(self@),
    {
        let hi: u8 = (self.0 / 0x100) as u8;
        let lo: u8 = (self.0 % 0x100) as u8;
        let r: [u8; 2] = [hi, lo];
        proof {
            assert(r@ =~= be16_bytes(self@));
        }
        r
    }

    /// The value whose packed bits are two bytes read most significant
    /// first.
    pub fn from_be_bytes(bytes: [u8; 2]) -> (r: Self)
        ensures
            r@ as int == be16(bytes@),
    {
        let hi: u16 = bytes[0] as u16;
        let lo: u16 = bytes[1] as u16;
        ReservedAndCounter(hi * 0x100 + lo)
    }
}

proof fn lemma_fields_bits(reserved: u16, counter: u8)
    ensures
        ((((reserved & 0x0FFF) << 4) | ((counter & 0x0F) as u16)) >> 4) & 0x0FFF == reserved
            & 0x0FFF,
        ((((reserved & 0x0FFF) << 4) | ((counter & 0x0F) as u16)) & 0x0F) as u8 == counter & 0x0F,
{
    assert(((((reserved & 0x0FFF) << 4) | ((counter & 0x0F) as u16)) >> 4) & 0x0FFF == reserved
        & 0x0FFF) by (bit_vector);
    assert(((((reserved & 0x0FFF) << 4) | ((counter & 0x0F) as u16)) & 0x0F) as u8 == counter
        & 0x0F) by (bit_vector);
}

proof fn lemma_counter_only(counter: u8)
    ensures
        ((0u16 & 0x0FFF) << 4) | ((counter & 0x0F) as u16) == (counter & 0x0F) as u16,
        0u16 & 0x0FFF == 0,
{
    assert(((0u16 & 0x0FFF) << 4) | ((counter & 0x0F) as u16) == (counter & 0x0F) as u16)
        by (bit_vector);
    assert(0u16 & 0x0FFF == 0) by (bit_vector);
}

proof fn lemma_fields_range(v: u16)
    ensures
        (v >> 4) & 0x0FFF <= 0x0FFF,
        v & 0x0F <= 15,
{
    assert((v >> 4) & 0x0FFF <= 0x0FFF) by (bit_vector);
    assert(v & 0x0F <= 15) by (bit_vector);
}

proof fn lemma_set_counter_bits(old_bits: u16, value: u8)
    ensures
        (((old_bits & 0xFFF0) | ((value & 0x0F) as u16)) & 0x0F) as u8 == value & 0x0F,
        (((old_bits & 0xFFF0) | ((value & 0x0F) as u16)) >> 4) & 0x0FFF == (old_bits >> 4)
            & 0x0FFF,
{
    assert((((old_bits & 0xFFF0) | ((value & 0x0F) as u16)) & 0x0F) as u8 == value & 0x0F)
        by (bit_vector);
    assert((((old_bits & 0xFFF0) | ((value & 0x0F) as u16)) >> 4) & 0x0FFF == (old_bits >> 4)
        & 0x0FFF) by (bit_vector);
}

/// A view of a service entry: sixteen bytes at the start of a buffer.
#[derive(Debug, Clone, Copy)]
pub struct ServiceEntry<T: ByteView> {
    buffer: T,
}

impl<T: ByteView> View for ServiceEntry<T> {
    type V = Seq<u8>;

    /// The bytes of the wrapped buffer.
    closed spec fn view(&self) -> Seq<u8> {
        self.buffer.bytes()
    }
}

impl<T: ByteView> ServiceEntry<T> {
    /// Size of the entry on the wire.
    pub const LENGTH: usize = 16;

    /// Wraps a buffer without looking at it.
    pub fn new_unchecked(buffer: T) -> (entry: Self)
        ensures
            entry@ == buffer.bytes(),
    {
        ServiceEntry { buffer }
    }

    /// Wraps a buffer that holds at least sixteen bytes.
    pub fn new_checked(buffer: T) -> (r: Result<Self, Error>)
        ensures
            r is Ok <==> buffer.bytes().len() >= 16,
            r matches Ok(entry) ==> entry@ == buffer.bytes(),
            r matches Err(e) ==> e == Error::BufferTooShort,
    {
        let entry = Self::new_unchecked(buffer);
        match entry.check_len() {
            Ok(()) => Ok(entry),
            Err(e) => Err(e),
        }
    }

    /// Succeeds exactly when the buffer holds at least sixteen bytes.
    pub fn check_len(&self) -> (r: Result<(), Error>)
        ensures
            r is Ok <==> self@.len() >= 16,
            r matches Err(e) ==> e == Error::BufferTooShort,
    {
        if self.buffer.as_bytes().len() < Self::LENGTH {
            return Err(Error::BufferTooShort);
        }
        Ok(())
    }

    /// Succeeds exactly when the entry type byte is `0x00` or `0x01`;
    /// any other byte is handed back in the error.
    pub fn check_entry_type(&self) -> (r: Result<(), Error>)
        requires
            self@.len() > 0,
        ensures
            r is Ok <==> is_service_type_byte(self@[0]),
            r matches Err(e) ==> e == Error::InvalidEntryType(self@[0]),
    {
        let type_val = self.entry_type();
        match EntryType::from_u8(type_val) {
            Some(et) => {
                if et.is_service_entry() {
                    Ok(())
                } else {
                    Err(Error::InvalidEntryType(type_val))
                }
            },
            None => Err(Error::InvalidEntryType(type_val)),
        }
    }

    /// The entry type byte.
    pub fn entry_type(&self) -> (r: u8)
        requires
            self@.len() > 0,
        ensures
            r == self@[0],
    {
        self.buffer.as_bytes()[field::service_entry::TYPE.start]
    }

    /// Index of the first option run.
    pub fn index_first_option_run(&self) -> (r: u8)
        requires
            self@.len() > 1,
        ensures
            r == self@[1],
    {
        self.buffer.as_bytes()[field::service_entry::INDEX_FIRST_OPTION_RUN.start]
    }

    /// Index of the second option run.
    pub fn index_second_option_run(&self) -> (r: u8)
        requires
            self@.len() > 2,
        ensures
            r == self@[2],
    {
        self.buffer.as_bytes()[field::service_entry::INDEX_SECOND_OPTION_RUN.start]
    }

    /// The two packed option counts.
    pub fn number_of_options(&self) -> (r: NumberOfOptions)
        requires
            self@.len() > 3,
        ensures
            r@ == self@[3],
    {
        NumberOfOptions::from_u8(self.buffer.as_bytes()[field::service_entry::NUMBER_OF_OPTIONS.start])
    }

    /// The service identifier.
    pub fn service_id(&self) -> (r: u16)
        requires
            self@.len() >= 6,
        ensures
            r as int == be16(self@.subrange(4, 6)),
    {
        get_u16(self.buffer.as_bytes(), field::service_entry::SERVICE_ID.start)
    }

    /// The instance identifier.
    pub fn instance_id(&self) -> (r: u16)
        requires
            self@.len() >= 8,
        ensures
            r as int == be16(self@.subrange(6, 8)),
    {
        get_u16(self.buffer.as_bytes(), field::service_entry::INSTANCE_ID.start)
    }

    /// The major version of the service interface.
    pub fn major_version(&self) -> (r: u8)
        requires
            self@.len() > 8,
        ensures
            r == self@[8],
    {
        self.buffer.as_bytes()[field::service_entry::MAJOR_VERSION.start]
    }

    /// The time to live in seconds: three bytes, most significant first.
    pub fn ttl(&self) -> (r: u32)
        requires
            self@.len() >= 12,
        ensures
            r as int == be24(self@.subrange(9, 12)),
    {
        get_u24(self.buffer.as_bytes(), field::service_entry::TTL.start)
    }

    /// The minor version of the service interface.
    pub fn minor_version(&self) -> (r: u32)
        requires
            self@.len() >= 16,
        ensures
            r as int == be32(self@.subrange(12, 16)),
    {
        get_u32(self.buffer.as_bytes(), field::service_entry::MINOR_VERSION.start)
    }
}

impl<T: ByteViewMut> ServiceEntry<T> {
    /// Sets the entry type byte.
    pub fn set_entry_type(&mut self, value: u8)
        requires
            old(self)@.len() > 0,
        ensures
            final(self)@ == old(self)@.update(0, value),
    {
        let b = self.buffer.as_bytes_mut();
        b[field::service_entry::TYPE.start] = value;
    }

    /// Sets the index of the first option run.
    pub fn set_index_first_option_run(&mut self, value: u8)
        requires
            old(self)@.len() > 1,
        ensures
            final(self)@ == old(self)@.update(1, value),
    {
        let b = self.buffer.as_bytes_mut();
        b[field::service_entry::INDEX_FIRST_OPTION_RUN.start] = value;
    }

    /// Sets the index of the second option run.
    pub fn set_index_second_option_run(&mut self, value: u8)
        requires
            old(self)@.len() > 2,
        ensures
            final(self)@ == old(self)@.update(2, value),
    {
        let b = self.buffer.as_bytes_mut();
        b[field::service_entry::INDEX_SECOND_OPTION_RUN.start] = value;
    }

    /// Sets the two packed option counts.
    pub fn set_number_of_options(&mut self, value: NumberOfOptions)
        requires
            old(self)@.len() > 3,
        ensures
            final(self)@ == old(self)@.update(3, value@),
    {
        let b = self.buffer.as_bytes_mut();
        b[field::service_entry::NUMBER_OF_OPTIONS.start] = value.as_u8();
    }

    /// Sets the service identifier.
    pub fn set_service_id(&mut self, value: u16)
        requires
            old(self)@.len() >= 6,
        ensures
            final(self)@ == splice(old(self)@, 4, be16_bytes(value)),
    {
        put_u16(self.buffer.as_bytes_mut(), field::service_entry::SERVICE_ID.start, value);
    }

    /// Sets the instance identifier.
    pub fn set_instance_id(&mut self, value: u16)
        requires
            old(self)@.len() >= 8,
        ensures
            final(self)@ == splice(old(self)@, 6, be16_bytes(value)),
    {
        put_u16(self.buffer.as_bytes_mut(), field::service_entry::INSTANCE_ID.start, value);
    }

    /// Sets the major version of the service interface.
    pub fn set_major_version(&mut self, value: u8)
        requires
            old(self)@.len() > 8,
        ensures
            final(self)@ == old(self)@.update(8, value),
    {
        let b = self.buffer.as_bytes_mut();
        b[field::service_entry::MAJOR_VERSION.start] = value;
    }

    /// Sets the time to live from the low twenty-four bits of `value`.
    pub fn set_ttl(&mut self, value: u32)
        requires
            old(self)@.len() >= 12,
        ensures
            final(self)@ == splice(old(self)@, 9, be24_bytes(value)),
    {
        put_u24(self.buffer.as_bytes_mut(), field::service_entry::TTL.start, value);
    }

    /// Sets the minor version of the service interface.
    pub fn set_minor_version(&mut self, value: u32)
        requires
            old(self)@.len() >= 16,
        ensures
            final(self)@ == splice(old(self)@, 12, be32_bytes(value)),
    {
        put_u32(self.buffer.as_bytes_mut(), field::service_entry::MINOR_VERSION.start, value);
    }
}

/// A view of an eventgroup entry: sixteen bytes at the start of a buffer.
#[derive(Debug, Clone, Copy)]
pub struct EventGroupEntry<T: ByteView> {
    buffer: T,
}

impl<T: ByteView> View for EventGroupEntry<T> {
    type V = Seq<u8>;

    /// The bytes of the wrapped buffer.
    closed spec fn view(&self) -> Seq<u8> {
        self.buffer.bytes()
    }
}

impl<T: ByteView> EventGroupEntry<T> {
    /// Size of the entry on the wire.
    pub const LENGTH: usize = 16;

    /// Wraps a buffer without looking at it.
    pub fn new_unchecked(buffer: T) -> (entry: Self)
        ensures
            entry@ == buffer.bytes(),
    {
        EventGroupEntry { buffer }
    }

    /// Wraps a buffer that holds at least sixteen bytes.
    pub fn new_checked(buffer: T) -> (r: Result<Self, Error>)
        ensures
            r is Ok <==> buffer.bytes().len() >= 16,
            r matches Ok(entry) ==> entry@ == buffer.bytes(),
            r matches Err(e) ==> e == Error::BufferTooShort,
    {
        let entry = Self::new_unchecked(buffer);
        match entry.check_len() {
            Ok(()) => Ok(entry),
            Err(e) => Err(e),
        }
    }

    /// Succeeds exactly when the buffer holds at least sixteen bytes.
    pub fn check_len(&self) -> (r: Result<(), Error>)
        ensures
            r is Ok <==> self@.len() >= 16,
            r matches Err(e) ==> e == Error::BufferTooShort,
    {
        if self.buffer.as_bytes().len() < Self::LENGTH {
            return Err(Error::BufferTooShort);
        }
        Ok(())
    }

    /// Succeeds exactly when the entry type byte is `0x06` or `0x07`;
    /// any other byte is handed back in the error.
    pub fn check_entry_type(&self) -> (r: Result<(), Error>)
        requires
            self@.len() > 0,
        ensures
            r is Ok <==> is_eventgroup_type_byte(self@[0]),
            r matches Err(e) ==> e == Error::InvalidEntryType(self@[0]),
    {
        let type_val = self.entry_type();
        match EntryType::from_u8(type_val) {
            Some(et) => {
                if et.is_eventgroup_entry() {
                    Ok(())
                } else {
                    Err(Error::InvalidEntryType(type_val))
                }
            },
            None => Err(Error::InvalidEntryType(type_val)),
        }
    }

    /// The entry type byte.
    pub fn entry_type(&self) -> (r: u8)
        requires
            self@.len() > 0,
        ensures
            r == self@[0],
    {
        self.buffer.as_bytes()[field::event_group_entry::TYPE.start]
    }

    /// Index of the first option run.
    pub fn index_first_option_run(&self) -> (r: u8)
        requires
            self@.len() > 1,
        ensures
            r == self@[1],
    {
        self.buffer.as_bytes()[field::event_group_entry::INDEX_FIRST_OPTION_RUN.start]
    }

    /// Index of the second option run.
    pub fn index_second_option_run(&self) -> (r: u8)
        requires
            self@.len() > 2,
        ensures
            r == self@[2],
    {
        self.buffer.as_bytes()[field::event_group_entry::INDEX_SECOND_OPTION_RUN.start]
    }

    /// The two packed option counts.
    pub fn number_of_options(&self) -> (r: NumberOfOptions)
        requires
            self@.len() > 3,
        ensures
            r@ == self@[3],
    {
        NumberOfOptions::from_u8(self.buffer.as_bytes()[field::event_group_entry::NUMBER_OF_OPTIONS.start])
    }

    /// The service identifier.
    pub fn service_id(&self) -> (r: u16)
        requires
            self@.len() >= 6,
        ensures
            r as int == be16(self@.subrange(4, 6)),
    {
        get_u16(self.buffer.as_bytes(), field::event_group_entry::SERVICE_ID.start)
    }

    /// The instance identifier.
    pub fn instance_id(&self) -> (r: u16)
        requires
            self@.len() >= 8,
        ensures
            r as int == be16(self@.subrange(6, 8)),
    {
        get_u16(self.buffer.as_bytes(), field::event_group_entry::INSTANCE_ID.start)
    }

    /// The major version of the service interface.
    pub fn major_version(&self) -> (r: u8)
        requires
            self@.len() > 8,
        ensures
            r == self@[8],
    {
        self.buffer.as_bytes()[field::event_group_entry::MAJOR_VERSION.start]
    }

    /// The time to live in seconds: three bytes, most significant first.
    pub fn ttl(&self) -> (r: u32)
        requires
            self@.len() >= 12,
        ensures
            r as int == be24(self@.subrange(9, 12)),
    {
        get_u24(self.buffer.as_bytes(), field::event_group_entry::TTL.start)
    }

    /// The reserved bits and the counter, packed in two bytes.
    pub fn reserved_and_counter(&self) -> (r: ReservedAndCounter)
        requires
            self@.len() >= 14,
        ensures
            r@ as int == be16(self@.subrange(12, 14)),
    {
        let value = get_u16(
            self.buffer.as_bytes(),
            field::event_group_entry::RESERVED_AND_COUNTER.start,
        );
        ReservedAndCounter::from_u16(value)
    }

    /// The eventgroup identifier.
    pub fn eventgroup_id(&self) -> (r: u16)
        requires
            self@.len() >= 16,
        ensures
            r as int == be16(self@.subrange(14, 16)),
    {
        get_u16(self.buffer.as_bytes(), field::event_group_entry::EVENTGROUP_ID.start)
    }
}

impl<T: ByteViewMut> EventGroupEntry<T> {
    /// Sets the entry type byte.
    pub fn set_entry_type(&mut self, value: u8)
        requires
            old(self)@.len() > 0,
        ensures
            final(self)@ == old(self)@.update(0, value),
    {
        let b = self.buffer.as_bytes_mut();
        b[field::event_group_entry::TYPE.start] = value;
    }

    /// Sets the index of the first option run.
    pub fn set_index_first_option_run(&mut self, value: u8)
        requires
            old(self)@.len() > 1,
        ensures
            final(self)@ == old(self)@.update(1, value),
    {
        let b = self.buffer.as_bytes_mut();
        b[field::event_group_entry::INDEX_FIRST_OPTION_RUN.start] = value;
    }

    /// Sets the index of the second option run.
    pub fn set_index_second_option_run(&mut self, value: u8)
        requires
            old(self)@.len() > 2,
        ensures
            final(self)@ == old(self)@.update(2, value),
    {
        let b = self.buffer.as_bytes_mut();
        b[field::event_group_entry::INDEX_SECOND_OPTION_RUN.start] = value;
    }

    /// Sets the two packed option counts.
    pub fn set_number_of_options(&mut self, value: NumberOfOptions)
        requires
            old(self)@.len() > 3,
        ensures
            final(self)@ == old(self)@.update(3, value@),
    {
        let b = self.buffer.as_bytes_mut();
        b[field::event_group_entry::NUMBER_OF_OPTIONS.start] = value.as_u8();
    }

    /// Sets the service identifier.
    pub fn set_service_id(&mut self, value: u16)
        requires
            old(self)@.len() >= 6,
        ensures
            final(self)@ == splice(old(self)@, 4, be16_bytes(value)),
    {
        put_u16(self.buffer.as_bytes_mut(), field::event_group_entry::SERVICE_ID.start, value);
    }

    /// Sets the instance identifier.
    pub fn set_instance_id(&mut self, value: u16)
        requires
            old(self)@.len() >= 8,
        ensures
            final(self)@ == splice(old(self)@, 6, be16_bytes(value)),
    {
        put_u16(self.buffer.as_bytes_mut(), field::event_group_entry::INSTANCE_ID.start, value);
    }

    /// Sets the major version of the service interface.
    pub fn set_major_version(&mut self, value: u8)
        requires
            old(self)@.len() > 8,
        ensures
            final(self)@ == old(self)@.update(8, value),
    {
        let b = self.buffer.as_bytes_mut();
        b[field::event_group_entry::MAJOR_VERSION.start] = value;
    }

    /// Sets the time to live from the low twenty-four bits of `value`.
    pub fn set_ttl(&mut self, value: u32)
        requires
            old(self)@.len() >= 12,
        ensures
            final(self)@ == splice(old(self)@, 9, be24_bytes(value)),
    {
        put_u24(self.buffer.as_bytes_mut(), field::event_group_entry::TTL.start, value);
    }

    /// Sets the reserved bits and the counter.
    pub fn set_reserved_and_counter(&mut self, value: ReservedAndCounter)
        requires
            old(self)@.len() >= 14,
        ensures
            final(self)@ == splice(old(self)@, 12, be16_bytes(value@)),
    {
        put_u16(
            self.buffer.as_bytes_mut(),
            field::event_group_entry::RESERVED_AND_COUNTER.start,
            value.as_u16(),
        );
    }

    /// Sets the eventgroup identifier.
    pub fn set_eventgroup_id(&mut self, value: u16)
        requires
            old(self)@.len() >= 16,
        ensures
            final(self)@ == splice(old(self)@, 14, be16_bytes(value)),
    {
        put_u16(self.buffer.as_bytes_mut(), field::event_group_entry::EVENTGROUP_ID.start, value);
    }
}

/// A service entry as a flat value.
#[derive(Debug, Clone, Copy, PartialEq, Eq)]
pub struct ServiceEntryRepr {
    /// `FindService` or `OfferService`.
    pub entry_type: EntryType,
    /// Index of the first option run.
    pub index_first_option_run: u8,
    /// Index of the second option run.
    pub index_second_option_run: u8,
    /// The two option counts.
    pub number_of_options: NumberOfOptions,
    /// The service identifier.
    pub service_id: u16,
    /// The instance identifier.
    pub instance_id: u16,
    /// The major version.
    pub major_version: u8,
    /// The time to live in seconds, twenty-four bits on the wire.
    pub ttl: u32,
    /// The minor version.
    pub minor_version: u32,
}

impl ServiceEntryRepr {
    /// The sixteen bytes of the entry on the wire.
    pub open spec fn wire_bytes(&self) -> Seq<u8> {
        seq![
            self.entry_type.spec_as_u8(),
            self.index_first_option_run,
            self.index_second_option_run,
            self.number_of_options@,
        ] + be16_bytes(self.service_id) + be16_bytes(self.instance_id) + seq![self.major_version]
            + be24_bytes(self.ttl) + be32_bytes(self.minor_version)
    }

    /// What the first sixteen bytes of `bytes` hold: the entry, or the
    /// type byte that no service entry has.
    pub open spec fn spec_parse(bytes: Seq<u8>) -> Result<ServiceEntryRepr, Error>
        recommends
            bytes.len() >= 16,
    {
        if is_service_type_byte(bytes[0]) {
            Ok(
                ServiceEntryRepr {
                    entry_type: EntryType::spec_from_u8(bytes[0])->Some_0,
                    index_first_option_run: bytes[1],
                    index_second_option_run: bytes[2],
                    number_of_options: NumberOfOptions::spec_from_u8(bytes[3]),
                    service_id: be16(bytes.subrange(4, 6)) as u16,
                    instance_id: be16(bytes.subrange(6, 8)) as u16,
                    major_version: bytes[8],
                    ttl: be24(bytes.subrange(9, 12)) as u32,
                    minor_version: be32(bytes.subrange(12, 16)) as u32,
                },
            )
        } else {
            Err(Error::InvalidEntryType(bytes[0]))
        }
    }

    /// Reads every field of a service entry; fails on a type byte other
    /// than `0x00` and `0x01`.
    pub fn parse<T: ByteView>(entry: &ServiceEntry<T>) -> (r: Result<Self, Error>)
        requires
            entry@.len() >= 16,
        ensures
            r == Self::spec_parse(entry@),
    {
        match entry.check_entry_type() {
            Ok(()) => {},
            Err(e) => {
                return Err(e);
            },
        }
        let entry_type = match EntryType::from_u8(entry.entry_type()) {
            Some(t) => t,
            None => {
                return Err(Error::InvalidEntryType(entry.entry_type()));
            },
        };
        if !entry_type.is_service_entry() {
            return Err(Error::InvalidEntryType(entry.entry_type()));
        }
        Ok(
            ServiceEntryRepr {
                entry_type,
                index_first_option_run: entry.index_first_option_run(),
                index_second_option_run: entry.index_second_option_run(),
                number_of_options: entry.number_of_options(),
                service_id: entry.service_id(),
                instance_id: entry.instance_id(),
                major_version: entry.major_version(),
                ttl: entry.ttl(),
                minor_version: entry.minor_version(),
            },
        )
    }

    /// Writes every field into the first sixteen bytes of the entry's
    /// buffer; the bytes behind them stay.
    pub fn emit<T: ByteViewMut>(&self, entry: &mut ServiceEntry<T>)
        requires
            old(entry)@.len() >= 16,
        ensures
            final(entry)@ == splice(old(entry)@, 0, self.wire_bytes()),
    {
        entry.set_entry_type(self.entry_type.as_u8());
        entry.set_index_first_option_run(self.index_first_option_run);
        entry.set_index_second_option_run(self.index_second_option_run);
        entry.set_number_of_options(self.number_of_options);
        entry.set_service_id(self.service_id);
        entry.set_instance_id(self.instance_id);
        entry.set_major_version(self.major_version);
        entry.set_ttl(self.ttl);
        entry.set_minor_version(self.minor_version);
        proof {
            assert(entry@ =~= splice(old(entry)@, 0, self.wire_bytes()));
        }
    }

    /// Size of a service entry on the wire.
    pub fn buffer_len() -> (n: usize)
        ensures
            n == 16,
    {
        field::service_entry::MINOR_VERSION.end
    }
}

/// What `ServiceEntryRepr::emit` writes, `ServiceEntryRepr::parse` reads
/// back unchanged, whatever follows the sixteen bytes, for every entry
/// of a service type whose time to live fits twenty-four bits.
pub proof fn lemma_service_entry_round_trip(repr: ServiceEntryRepr, rest: Seq<u8>)
    requires
        repr.entry_type.spec_is_service_entry(),
        repr.ttl < 0x100_0000,
    ensures
        repr.wire_bytes().len() == 16,
        ServiceEntryRepr::spec_parse(repr.wire_bytes() + rest) == Ok::<ServiceEntryRepr, Error>(
            repr,
        ),
{
    let w = repr.wire_bytes();
    let b = w + rest;
    assert(b.subrange(4, 6) =~= be16_bytes(repr.service_id));
    assert(b.subrange(6, 8) =~= be16_bytes(repr.instance_id));
    assert(b.subrange(9, 12) =~= be24_bytes(repr.ttl));
    assert(b.subrange(12, 16) =~= be32_bytes(repr.minor_version));
    lemma_be16_round_trip(repr.service_id);
    lemma_be16_round_trip(repr.instance_id);
    lemma_be24_round_trip(repr.ttl);
    lemma_be32_round_trip(repr.minor_version);
    assert(NumberOfOptions::spec_from_u8(repr.number_of_options@) == repr.number_of_options);
}

/// An eventgroup entry as a flat value.
#[derive(Debug, Clone, Copy, PartialEq, Eq)]
pub struct EventGroupEntryRepr {
    /// `Subscribe` or `SubscribeAck`.
    pub entry_type: EntryType,
    /// Index of the first option run.
    pub index_first_option_run: u8,
    /// Index of the second option run.
    pub index_second_option_run: u8,
    /// The two option counts.
    pub number_of_options: NumberOfOptions,
    /// The service identifier.
    pub service_id: u16,
    /// The instance identifier.
    pub instance_id: u16,
    /// The major version.
    pub major_version: u8,
    /// The time to live in seconds, twenty-four bits on the wire.
    pub ttl: u32,
    /// The reserved bits and the counter.
    pub reserved_and_counter: ReservedAndCounter,
    /// The eventgroup identifier.
    pub eventgroup_id: u16,
}

impl EventGroupEntryRepr {
    /// The sixteen bytes of the entry on the wire.
    pub open spec fn wire_bytes(&self) -> Seq<u8> {
        seq![
            self.entry_type.spec_as_u8(),
            self.index_first_option_run,
            self.index_second_option_run,
            self.number_of_options@,
        ] + be16_bytes(self.service_id) + be16_bytes(self.instance_id) + seq![self.major_version]
            + be24_bytes(self.ttl) + be16_bytes(self.reserved_and_counter@) + be16_bytes(
            self.eventgroup_id,
        )
    }

    /// What the first sixteen bytes of `bytes` hold: the entry, or the
    /// type byte that no eventgroup entry has.
    pub open spec fn spec_parse(bytes: Seq<u8>) -> Result<EventGroupEntryRepr, Error>
        recommends
            bytes.len() >= 16,
    {
        if is_eventgroup_type_byte(bytes[0]) {
            Ok(
                EventGroupEntryRepr {
                    entry_type: EntryType::spec_from_u8(bytes[0])->Some_0,
                    index_first_option_run: bytes[1],
                    index_second_option_run: bytes[2],
                    number_of_options: NumberOfOptions::spec_from_u8(bytes[3]),
                    service_id: be16(bytes.subrange(4, 6)) as u16,
                    instance_id: be16(bytes.subrange(6, 8)) as u16,
                    major_version: bytes[8],
                    ttl: be24(bytes.subrange(9, 12)) as u32,
                    reserved_and_counter: ReservedAndCounter::spec_from_u16(
                        be16(bytes.subrange(12, 14)) as u16,
                    ),
                    eventgroup_id: be16(bytes.subrange(14, 16)) as u16,
                },
            )
        } else {
            Err(Error::InvalidEntryType(bytes[0]))
        }
    }

    /// Reads every field of an eventgroup entry; fails on a type byte
    /// other than `0x06` and `0x07`.
    pub fn parse<T: ByteView>(entry: &EventGroupEntry<T>) -> (r: Result<Self, Error>)
        requires
            entry@.len() >= 16,
        ensures
            r == Self::spec_parse(entry@),
    {
        match entry.check_entry_type() {
            Ok(()) => {},
            Err(e) => {
                return Err(e);
            },
        }
        let entry_type = match EntryType::from_u8(entry.entry_type()) {
            Some(t) => t,
            None => {
                return Err(Error::InvalidEntryType(entry.entry_type()));
            },
        };
        if !entry_type.is_eventgroup_entry() {
            return Err(Error::InvalidEntryType(entry.entry_type()));
        }
        Ok(
            EventGroupEntryRepr {
                entry_type,
                index_first_option_run: entry.index_first_option_run(),
                index_second_option_run: entry.index_second_option_run(),
                number_of_options: entry.number_of_options(),
                service_id: entry.service_id(),
                instance_id: entry.instance_id(),
                major_version: entry.major_version(),
                ttl: entry.ttl(),
                reserved_and_counter: entry.reserved_and_counter(),
                eventgroup_id: entry.eventgroup_id(),
            },
        )
    }

    /// Writes every field into the first sixteen bytes of the entry's
    /// buffer; the bytes behind them stay.
    pub fn emit<T: ByteViewMut>(&self, entry: &mut EventGroupEntry<T>)
        requires
            old(entry)@.len() >= 16,
        ensures
            final(entry)@ == splice(old(entry)@, 0, self.wire_bytes()),
    {
        entry.set_entry_type(self.entry_type.as_u8());
        entry.set_index_first_option_run(self.index_first_option_run);
        entry.set_index_second_option_run(self.index_second_option_run);
        entry.set_number_of_options(self.number_of_options);
        entry.set_service_id(self.service_id);
        entry.set_instance_id(self.instance_id);
        entry.set_major_version(self.major_version);
        entry.set_ttl(self.ttl);
        entry.set_reserved_and_counter(self.reserved_and_counter);
        entry.set_eventgroup_id(self.eventgroup_id);
        proof {
            assert(entry@ =~= splice(old(entry)@, 0, self.wire_bytes()));
        }
    }

    /// Size of an eventgroup entry on the wire.
    pub fn buffer_len() -> (n: usize)
        ensures
            n == 16,
    {
        field::event_group_entry::EVENTGROUP_ID.end
    }
}

/// What `EventGroupEntryRepr::emit` writes, `EventGroupEntryRepr::parse`
/// reads back unchanged, whatever follows the sixteen bytes, for every
/// entry of an eventgroup type whose time to live fits twenty-four bits.
pub proof fn lemma_eventgroup_entry_round_trip(repr: EventGroupEntryRepr, rest: Seq<u8>)
    requires
        repr.entry_type.spec_is_eventgroup_entry(),
        repr.ttl < 0x100_0000,
    ensures
        repr.wire_bytes().len() == 16,
        EventGroupEntryRepr::spec_parse(repr.wire_bytes() + rest) == Ok::<
            EventGroupEntryRepr,
            Error,
        >(repr),
{
    let w = repr.wire_bytes();
    let b = w + rest;
    assert(b.subrange(4, 6) =~= be16_bytes(repr.service_id));
    assert(b.subrange(6, 8) =~= be16_bytes(repr.instance_id));
    assert(b.subrange(9, 12) =~= be24_bytes(repr.ttl));
    assert(b.subrange(12, 14) =~= be16_bytes(repr.reserved_and_counter@));
    assert(b.subrange(14, 16) =~= be16_bytes(repr.eventgroup_id));
    lemma_be16_round_trip(repr.service_id);
    lemma_be16_round_trip(repr.instance_id);
    lemma_be24_round_trip(repr.ttl);
    lemma_be16_round_trip(repr.reserved_and_counter@);
    lemma_be16_round_trip(repr.eventgroup_id);
    assert(NumberOfOptions::spec_from_u8(repr.number_of_options@) == repr.number_of_options);
    assert(ReservedAndCounter::spec_from_u16(repr.reserved_and_counter@)
        == repr.reserved_and_counter);
}

} // verus!
