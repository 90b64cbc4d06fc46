//! Options: the records of the options array, with their common
//! four-byte header, the endpoint and load balancing payloads, and
//! their flat representations.

use crate::buffer::be16;
use crate::buffer::be16_bytes;
use crate::buffer::ByteView;
use crate::buffer::ByteViewMut;
use crate::buffer::get_u16;
use crate::buffer::lemma_be16_round_trip;
use crate::buffer::put_bytes;
use crate::buffer::put_u16;
use crate::buffer::splice;
use crate::error::Error;
use crate::field;
use vstd::prelude::*;

verus! {

/// Size of the header every option starts with.
pub const HEADER_LEN: usize = 4;

/// The kind of an option, as the third byte of its header tells it.
#[derive(Debug, Clone, Copy, PartialEq, Eq, Structural)]
pub enum OptionType {
    /// `0x01`: configuration strings.
    Configuration,
    /// `0x02`: priority and weight for load balancing.
    LoadBalancing,
    /// `0x04`: an IPv4 address and port.
    IPv4Endpoint,
    /// `0x06`: an IPv6 address and port.
    IPv6Endpoint,
    /// `0x14`: an IPv4 multicast address and port.
    IPv4Multicast,
    /// `0x16`: an IPv6 multicast address and port.
    IPv6Multicast,
    /// `0x24`: an IPv4 address and port for service discovery itself.
    IPv4SdEndpoint,
    /// `0x26`: an IPv6 address and port for service discovery itself.
    IPv6SdEndpoint,
}

impl OptionType {
    /// The option type a byte stands for, if any.
    pub open spec fn spec_from_u8(value: u8) -> Option<OptionType> {
        if value == 0x01 {
            Some(OptionType::Configuration)
        } else if value == 0x02 {
            Some(OptionType::LoadBalancing)
        } else if value == 0x04 {
            Some(OptionType::IPv4Endpoint)
        } else if value == 0x06 {
            Some(OptionType::IPv6Endpoint)
        } else if value == 0x14 {
            Some(OptionType::IPv4Multicast)
        } else if value == 0x16 {
            Some(OptionType::IPv6Multicast)
        } else if value == 0x24 {
            Some(OptionType::IPv4SdEndpoint)
        } else if value == 0x26 {
            Some(OptionType::IPv6SdEndpoint)
        } else {
            None
        }
    }

    /// The byte that stands for an option type.
    pub open spec fn spec_as_u8(&self) -> u8 {
        match self {
            OptionType::Configuration => 0x01,
            OptionType::LoadBalancing => 0x02,
            OptionType::IPv4Endpoint => 0x04,
            OptionType::IPv6Endpoint => 0x06,
            OptionType::IPv4Multicast => 0x14,
            OptionType::IPv6Multicast => 0x16,
            OptionType::IPv4SdEndpoint => 0x24,
            OptionType::IPv6SdEndpoint => 0x26,
        }
    }

    /// Reads an option type from its byte.
    #[verifier::when_used_as_spec(spec_from_u8)]
    pub fn from_u8(value: u8) -> (r: Option<OptionType>)
        ensures
            r == Self::spec_from_u8(value),
    {
        match value {
            0x01 => Some(OptionType::Configuration),
            0x02 => Some(OptionType::LoadBalancing),
            0x04 => Some(OptionType::IPv4Endpoint),
            0x06 => Some(OptionType::IPv6Endpoint),
            0x14 => Some(OptionType::IPv4Multicast),
            0x16 => Some(OptionType::IPv6Multicast),
            0x24 => Some(OptionType::IPv4SdEndpoint),
            0x26 => Some(OptionType::IPv6SdEndpoint),
            _ => None,
        }
    }

    /// The byte of this option type.
    #[verifier::when_used_as_spec(spec_as_u8)]
    pub fn as_u8(&self) -> (r: u8)
        ensures
            r == self.spec_as_u8(),
    {
        match self {
            OptionType::Configuration => 0x01,
            OptionType::LoadBalancing => 0x02,
            OptionType::IPv4Endpoint => 0x04,
            OptionType::IPv6Endpoint => 0x06,
            OptionType::IPv4Multicast => 0x14,
            OptionType::IPv6Multicast => 0x16,
            OptionType::IPv4SdEndpoint => 0x24,
            OptionType::IPv6SdEndpoint => 0x26,
        }
    }
}

/// Reading the byte of an option type gives the option type back, and a
/// byte that stands for an option type is the byte of that type.
pub proof fn lemma_option_type_round_trip(t: OptionType, b: u8)
    ensures
        OptionType::spec_from_u8(t.spec_as_u8()) == Some(t),
        OptionType::spec_from_u8(b) matches Some(u) ==> u.spec_as_u8() == b,
{
}

/// The transport protocol of an endpoint, by its protocol number.
#[derive(Debug, Clone, Copy, PartialEq, Eq, Structural)]
pub enum TransportProtocol {
    /// `0x06`.
    TCP,
    /// `0x11`.
    UDP,
}

/// Whether a byte is the number of a transport protocol an endpoint
/// may name.
pub open spec fn is_protocol_byte(b: u8) -> bool {
    b == 0x06 || b == 0x11
}

impl TransportProtocol {
    /// The protocol a byte stands for, if any.
    pub open spec fn spec_from_u8(value: u8) -> Option<TransportProtocol> {
        if value == 0x06 {
            Some(TransportProtocol::TCP)
        } else if value == 0x11 {
            Some(TransportProtocol::UDP)
        } else {
            None
        }
    }

    /// The byte that stands for a protocol.
    pub open spec fn spec_as_u8(&self) -> u8 {
        match self {
            TransportProtocol::TCP => 0x06,
            TransportProtocol::UDP => 0x11,
        }
    }

    /// Reads a protocol from its byte.
    #[verifier::when_used_as_spec(spec_from_u8)]
    pub fn from_u8(value: u8) -> (r: Option<TransportProtocol>)
        ensures
            r == Self::spec_from_u8(value),
    {
        match value {
            0x06 => Some(TransportProtocol::TCP),
            0x11 => Some(TransportProtocol::UDP),
            _ => None,
        }
    }

    /// The byte of this protocol.
    #[verifier::when_used_as_spec(spec_as_u8)]
    pub fn as_u8(&self) -> (r: u8)
        ensures
            r == self.spec_as_u8(),
    {
        match self {
            TransportProtocol::TCP => 0x06,
            TransportProtocol::UDP => 0x11,
        }
    }
}

/// The discardable bit and seven reserved bits in one byte: the bit on
/// top, the reserved bits below it.
#[derive(Debug, Clone, Copy, PartialEq, Eq, Structural)]
pub struct DiscardableFlag(u8);

impl View for DiscardableFlag {
    type V = u8;

    /// The packed byte.
    closed spec fn view(&self) -> u8 {
        self.0
    }
}

impl DiscardableFlag {
    /// Whether the discardable bit is set.
    pub open spec fn spec_is_discardable(&self) -> bool {
        self@ & 0x80 != 0
    }

    /// The seven reserved bits.
    pub open spec fn spec_reserved(&self) -> u8 {
        self@ & 0x7F
    }

    /// Bit and reserved bits zero.
    pub fn new() -> (r: Self)
        ensures
            r@ == 0,
            !r.spec_is_discardable(),
            r.spec_reserved() == 0,
    {
        proof {
            assert(0u8 & 0x80 == 0) by (bit_vector);
            assert(0u8 & 0x7F == 0) by (bit_vector);
        }
        DiscardableFlag(0)
    }

    /// The bit as given, the reserved bits zero.
    pub fn from_bool(discardable: bool) -> (r: Self)
        ensures
            r@ == (if discardable { 0x80u8 } else { 0x00u8 }),
            r.spec_is_discardable() == discardable,
            r.spec_reserved() == 0,
    {
        proof {
            assert(0u8 & 0x80 == 0) by (bit_vector);
            assert(0u8 & 0x7F == 0) by (bit_vector);
            assert(0x80u8 & 0x80 != 0) by (bit_vector);
            assert(0x80u8 & 0x7F == 0) by (bit_vector);
        }
        DiscardableFlag(if discardable { 0x80 } else { 0x00 })
    }

    /// Whether a receiver may ignore the option.
    #[verifier::when_used_as_spec(spec_is_discardable)]
    pub fn is_discardable(&self) -> (r: bool)
        ensures
            r == self.spec_is_discardable(),
    {
        (self.0 & 0x80) != 0
    }

    /// Sets or clears the discardable bit; the reserved bits stay.
    pub fn set_discardable(&mut self, discardable: bool)
        ensures
            final(self)@ == (if discardable { old(self)@ | 0x80 } else { old(self)@ & 0x7F }),
            final(self).spec_is_discardable() == discardable,
            final(self).spec_reserved() == old(self).spec_reserved(),
    {
        proof {
            let v = self.0;
            assert((v | 0x80) & 0x80 != 0) by (bit_vector);
            assert((v | 0x80) & 0x7F == v & 0x7F) by (bit_vector);
            assert((v & 0x7F) & 0x80 == 0) by (bit_vector);
            assert((v & 0x7F) & 0x7F == v & 0x7F) by (bit_vector);
        }
        if discardable {
            self.0 = self.0 | 0x80;
        } else {
            self.0 = self.0 & 0x7F;
        }
    }

    /// The seven reserved bits.
    #[verifier::when_used_as_spec(spec_reserved)]
    pub fn reserved(&self) -> (r: u8)
        ensures
            r == self.spec_reserved(),
            r <= 0x7F,
    {
        proof {
            let v = self.0;
            assert(v & 0x7F <= 0x7F) by (bit_vector);
        }
        self.0 & 0x7F
    }

    /// The packed byte.
    pub fn as_u8(&self) -> (r: u8)
        ensures
            r == self@,
    {
        self.0
    }

    /// The value whose packed byte is `value`.
    pub fn from_u8(value: u8) -> (r: Self)
        ensures
            r@ == value,
    {
        DiscardableFlag(value)
    }
}

/// A view of the header every option starts with: four bytes at the start of a buffer.
#[derive(Debug, Clone, Copy)]
pub struct OptionHeader<T: ByteView> {
    buffer: T,
}

impl<T: ByteView> View for OptionHeader<T> {
    type V = Seq<u8>;

    /// The bytes of the wrapped buffer.
    closed spec fn view(&self) -> Seq<u8> {
        self.buffer.bytes()
    }
}

impl<T: ByteView> OptionHeader<T> {
    /// Size on the wire.
    pub const LENGTH: usize = 4;

    /// Wraps a buffer without looking at it.
    pub fn new_unchecked(buffer: T) -> (r: Self)
        ensures
            r@ == buffer.bytes(),
    {
        OptionHeader { buffer }
    }

    /// Wraps a buffer that holds at least four bytes.
    pub fn new_checked(buffer: T) -> (r: Result<Self, Error>)
        ensures
            r is Ok <==> buffer.bytes().len() >= 4,
            r matches Ok(v) ==> v@ == buffer.bytes(),
            r matches Err(e) ==> e == Error::BufferTooShort,
    {
        let v = Self::new_unchecked(buffer);
        match v.check_len() {
            Ok(()) => Ok(v),
            Err(e) => Err(e),
        }
    }

    /// Succeeds exactly when the buffer holds at least four bytes.
    pub fn check_len(&self) -> (r: Result<(), Error>)
        ensures
            r is Ok <==> self@.len() >= 4,
            r matches Err(e) ==> e == Error::BufferTooShort,
    {
        if self.buffer.as_bytes().len() < Self::LENGTH {
            return Err(Error::BufferTooShort);
        }
        Ok(())
    }

    /// Succeeds exactly when the type byte is one of the eight option
    /// types; any other byte is handed back in the error.
    pub fn check_option_type(&self) -> (r: Result<(), Error>)
        requires
            self@.len() > 2,
        ensures
            r is Ok <==> OptionType::spec_from_u8(self@[2]) is Some,
            r matches Err(e) ==> e == Error::InvalidOptionType(self@[2]),
    {
        let type_val = self.option_type();
        match OptionType::from_u8(type_val) {
            Some(_) => Ok(()),
            None => Err(Error::InvalidOptionType(type_val)),
        }
    }

    /// Length of the option behind the header, in bytes.
    pub fn length(&self) -> (r: u16)
        requires
            self@.len() >= 2,
        ensures
            r as int == be16(self@.subrange(0, 2)),
    {
        get_u16(self.buffer.as_bytes(), field::option_header::LENGTH.start)
    }

    /// The option type byte.
    pub fn option_type(&self) -> (r: u8)
        requires
            self@.len() > 2,
        ensures
            r == self@[2],
    {
        self.buffer.as_bytes()[field::option_header::TYPE.start]
    }

    /// The discardable bit and the reserved bits.
    pub fn discardable_flag(&self) -> (r: DiscardableFlag)
        requires
            self@.len() > 3,
        ensures
            r@ == self@[3],
    {
        DiscardableFlag::from_u8(
            self.buffer.as_bytes()[field::option_header::DISCARDABLE_FLAG_AND_RESERVED.start],
        )
    }
}

impl<T: ByteViewMut> OptionHeader<T> {
    /// Sets the length of the option behind the header.
    pub fn set_length(&mut self, value: u16)
        requires
            old(self)@.len() >= 2,
        ensures
            final(self)@ == splice(old(self)@, 0, be16_bytes(value)),
    {
        put_u16(self.buffer.as_bytes_mut(), field::option_header::LENGTH.start, value);
    }

    /// Sets the option type byte.
    pub fn set_option_type(&mut self, value: u8)
        requires
            old(self)@.len() > 2,
        ensures
            final(self)@ == old(self)@.update(2, value),
    {
        let b = self.buffer.as_bytes_mut();
        b[field::option_header::TYPE.start] = value;
    }

    /// Sets the discardable bit and the reserved bits.
    pub fn set_discardable_flag(&mut self, value: DiscardableFlag)
        requires
            old(self)@.len() > 3,
        ensures
            final(self)@ == old(self)@.update(3, value@),
    {
        let b = self.buffer.as_bytes_mut();
        b[field::option_header::DISCARDABLE_FLAG_AND_RESERVED.start] = value.as_u8();
    }
}

/// A view of an IPv4 endpoint option: twelve bytes at the start of a buffer.
#[derive(Debug, Clone, Copy)]
pub struct IPv4EndpointOption<T: ByteView> {
    buffer: T,
}

impl<T: ByteView> View for IPv4EndpointOption<T> {
    type V = Seq<u8>;

    /// The bytes of the wrapped buffer.
    closed spec fn view(&self) -> Seq<u8> {
        self.buffer.bytes()
    }
}

impl<T: ByteView> IPv4EndpointOption<T> {
    /// Size on the wire.
    pub const LENGTH: usize = 12;

    /// Wraps a buffer without looking at it.
    pub fn new_unchecked(buffer: T) -> (r: Self)
        ensures
            r@ == buffer.bytes(),
    {
        IPv4EndpointOption { buffer }
    }

    /// Wraps a buffer that holds at least twelve bytes.
    pub fn new_checked(buffer: T) -> (r: Result<Self, Error>)
        ensures
            r is Ok <==> buffer.bytes().len() >= 12,
            r matches Ok(v) ==> v@ == buffer.bytes(),
            r matches Err(e) ==> e == Error::BufferTooShort,
    {
        let v = Self::new_unchecked(buffer);
        match v.check_len() {
            Ok(()) => Ok(v),
            Err(e) => Err(e),
        }
    }

    /// Succeeds exactly when the buffer holds at least twelve bytes.
    pub fn check_len(&self) -> (r: Result<(), Error>)
        ensures
            r is Ok <==> self@.len() >= 12,
            r matches Err(e) ==> e == Error::BufferTooShort,
    {
        if self.buffer.as_bytes().len() < Self::LENGTH {
            return Err(Error::BufferTooShort);
        }
        Ok(())
    }

    /// The header: the first four bytes.
    pub fn header(&self) -> (r: OptionHeader<&[u8]>)
        requires
            self@.len() >= 4,
        ensures
            r@ == self@.subrange(0, 4),
    {
        let b = self.buffer.as_bytes();
        OptionHeader::new_unchecked(&b[0..HEADER_LEN])
    }

    /// The address, in network byte order.
    pub fn ipv4_address(&self) -> (r: [u8; 4])
        requires
            self@.len() >= 8,
        ensures
            r@ == self@.subrange(4, 8),
    {
        let b = self.buffer.as_bytes();
        let mut addr: [u8; 4] = [0u8; 4];
        let mut i: usize = 0;
        while i < 4
            invariant
                i <= 4,
                b@.len() >= 8,
                forall|j: int| 0 <= j < i ==> addr@[j] == b@[4 + j],
            decreases 4 - i,
        {
            addr[i] = b[HEADER_LEN + i];
            i = i + 1;
        }
        proof {
            assert(addr@ =~= b@.subrange(4, 8));
        }
        addr
    }

    /// The transport protocol byte.
    pub fn transport_protocol(&self) -> (r: u8)
        requires
            self@.len() > 9,
        ensures
            r == self@[9],
    {
        self.buffer.as_bytes()[HEADER_LEN + field::ipv4_endpoint_option::TRANSPORT_PROTOCOL.start]
    }

    /// Succeeds exactly when the transport protocol byte is `0x06` or
    /// `0x11`; any other byte is handed back in the error.
    pub fn check_protocol(&self) -> (r: Result<(), Error>)
        requires
            self@.len() > 9,
        ensures
            r is Ok <==> is_protocol_byte(self@[9]),
            r matches Err(e) ==> e == Error::InvalidProtocol(self@[9]),
    {
        let proto = self.transport_protocol();
        match TransportProtocol::from_u8(proto) {
            Some(_) => Ok(()),
            None => Err(Error::InvalidProtocol(proto)),
        }
    }

    /// The port.
    pub fn port(&self) -> (r: u16)
        requires
            self@.len() >= 12,
        ensures
            r as int == be16(self@.subrange(10, 12)),
    {
        get_u16(self.buffer.as_bytes(), HEADER_LEN + field::ipv4_endpoint_option::PORT.start)
    }
}

impl<T: ByteViewMut> IPv4EndpointOption<T> {
    /// Sets the address.
    pub fn set_ipv4_address(&mut self, addr: [u8; 4])
        requires
            old(self)@.len() >= 8,
        ensures
            final(self)@ == splice(old(self)@, 4, addr@),
    {
        put_bytes(
            self.buffer.as_bytes_mut(),
            HEADER_LEN + field::ipv4_endpoint_option::IPV4_ADDRESS.start,
            addr.as_slice(),
        );
    }

    /// Sets the transport protocol byte.
    pub fn set_transport_protocol(&mut self, proto: u8)
        requires
            old(self)@.len() > 9,
        ensures
            final(self)@ == old(self)@.update(9, proto),
    {
        let b = self.buffer.as_bytes_mut();
        b[HEADER_LEN + field::ipv4_endpoint_option::TRANSPORT_PROTOCOL.start] = proto;
    }

    /// Sets the port.
    pub fn set_port(&mut self, port: u16)
        requires
            old(self)@.len() >= 12,
        ensures
            final(self)@ == splice(old(self)@, 10, be16_bytes(port)),
    {
        put_u16(self.buffer.as_bytes_mut(), HEADER_LEN + field::ipv4_endpoint_option::PORT.start, port);
    }
}

/// A view of an IPv6 endpoint option: twenty-four bytes at the start of a buffer.
#[derive(Debug, Clone, Copy)]
pub struct IPv6EndpointOption<T: ByteView> {
    buffer: T,
}

impl<T: ByteView> View for IPv6EndpointOption<T> {
    type V = Seq<u8>;

    /// The bytes of the wrapped buffer.
    closed spec fn view(&self) -> Seq<u8> {
        self.buffer.bytes()
    }
}

impl<T: ByteView> IPv6EndpointOption<T> {
    /// Size on the wire.
    pub const LENGTH: usize = 24;

    /// Wraps a buffer without looking at it.
    pub fn new_unchecked(buffer: T) -> (r: Self)
        ensures
            r@ == buffer.bytes(),
    {
        IPv6EndpointOption { buffer }
    }

    /// Wraps a buffer that holds at least twenty-four bytes.
    pub fn new_checked(buffer: T) -> (r: Result<Self, Error>)
        ensures
            r is Ok <==> buffer.bytes().len() >= 24,
            r matches Ok(v) ==> v@ == buffer.bytes(),
            r matches Err(e) ==> e == Error::BufferTooShort,
    {
        let v = Self::new_unchecked(buffer);
        match v.check_len() {
            Ok(()) => Ok(v),
            Err(e) => Err(e),
        }
    }

    /// Succeeds exactly when the buffer holds at least twenty-four bytes.
    pub fn check_len(&self) -> (r: Result<(), Error>)
        ensures
            r is Ok <==> self@.len() >= 24,
            r matches Err(e) ==> e == Error::BufferTooShort,
    {
        if self.buffer.as_bytes().len() < Self::LENGTH {
            return Err(Error::BufferTooShort);
        }
        Ok(())
    }

    /// The header: the first four bytes.
    pub fn header(&self) -> (r: OptionHeader<&[u8]>)
        requires
            self@.len() >= 4,
        ensures
            r@ == self@.subrange(0, 4),
    {
        let b = self.buffer.as_bytes();
        OptionHeader::new_unchecked(&b[0..HEADER_LEN])
    }

    /// The address, in network byte order.
    pub fn ipv6_address(&self) -> (r: [u8; 16])
        requires
            self@.len() >= 20,
        ensures
            r@ == self@.subrange(4, 20),
    {
        let b = self.buffer.as_bytes();
        let mut addr: [u8; 16] = [0u8; 16];
        let mut i: usize = 0;
        while i < 16
            invariant
                i <= 16,
                b@.len() >= 20,
                forall|j: int| 0 <= j < i ==> addr@[j] == b@[4 + j],
            decreases 16 - i,
        {
            addr[i] = b[HEADER_LEN + i];
            i = i + 1;
        }
        proof {
            assert(addr@ =~= b@.subrange(4, 20));
        }
        addr
    }

    /// The transport protocol byte.
    pub fn transport_protocol(&self) -> (r: u8)
        requires
            self@.len() > 21,
        ensures
            r == self@[21],
    {
        self.buffer.as_bytes()[HEADER_LEN + field::ipv6_endpoint_option::TRANSPORT_PROTOCOL.start]
    }

    /// Succeeds exactly when the transport protocol byte is `0x06` or
    /// `0x11`; any other byte is handed back in the error.
    pub fn check_protocol(&self) -> (r: Result<(), Error>)
        requires
            self@.len() > 21,
        ensures
            r is Ok <==> is_protocol_byte(self@[21]),
            r matches Err(e) ==> e == Error::InvalidProtocol(self@[21]),
    {
        let proto = self.transport_protocol();
        match TransportProtocol::from_u8(proto) {
            Some(_) => Ok(()),
            None => Err(Error::InvalidProtocol(proto)),
        }
    }

    /// The port.
    pub fn port(&self) -> (r: u16)
        requires
            self@.len() >= 24,
        ensures
            r as int == be16(self@.subrange(22, 24)),
    {
        get_u16(self.buffer.as_bytes(), HEADER_LEN + field::ipv6_endpoint_option::PORT.start)
    }
}

impl<T: ByteViewMut> IPv6EndpointOption<T> {
    /// Sets the address.
    pub fn set_ipv6_address(&mut self, addr: [u8; 16])
        requires
            old(self)@.len() >= 20,
        ensures
            final(self)@ == splice(old(self)@, 4, addr@),
    {
        put_bytes(
            self.buffer.as_bytes_mut(),
            HEADER_LEN + field::ipv6_endpoint_option::IPV6_ADDRESS.start,
            addr.as_slice(),
        );
    }

    /// Sets the transport protocol byte.
    pub fn set_transport_protocol(&mut self, proto: u8)
        requires
            old(self)@.len() > 21,
        ensures
            final(self)@ == old(self)@.update(21, proto),
    {
        let b = self.buffer.as_bytes_mut();
        b[HEADER_LEN + field::ipv6_endpoint_option::TRANSPORT_PROTOCOL.start] = proto;
    }

    /// Sets the port.
    pub fn set_port(&mut self, port: u16)
        requires
            old(self)@.len() >= 24,
        ensures
            final(self)@ == splice(old(self)@, 22, be16_bytes(port)),
    {
        put_u16(self.buffer.as_bytes_mut(), HEADER_LEN + field::ipv6_endpoint_option::PORT.start, port);
    }
}

/// A view of a load balancing option: eight bytes at the start of a buffer.
#[derive(Debug, Clone, Copy)]
pub struct LoadBalancingOption<T: ByteView> {
    buffer: T,
}

impl<T: ByteView> View for LoadBalancingOption<T> {
    type V = Seq<u8>;

    /// The bytes of the wrapped buffer.
    closed spec fn view(&self) -> Seq<u8> {
        self.buffer.bytes()
    }
}

impl<T: ByteView> LoadBalancingOption<T> {
    /// Size on the wire.
    pub const LENGTH: usize = 8;

    /// Wraps a buffer without looking at it.
    pub fn new_unchecked(buffer: T) -> (r: Self)
        ensures
            r@ == buffer.bytes(),
    {
        LoadBalancingOption { buffer }
    }

    /// Wraps a buffer that holds at least eight bytes.
    pub fn new_checked(buffer: T) -> (r: Result<Self, Error>)
        ensures
            r is Ok <==> buffer.bytes().len() >= 8,
            r matches Ok(v) ==> v@ == buffer.bytes(),
            r matches Err(e) ==> e == Error::BufferTooShort,
    {
        let v = Self::new_unchecked(buffer);
        match v.check_len() {
            Ok(()) => Ok(v),
            Err(e) => Err(e),
        }
    }

    /// Succeeds exactly when the buffer holds at least eight bytes.
    pub fn check_len(&self) -> (r: Result<(), Error>)
        ensures
            r is Ok <==> self@.len() >= 8,
            r matches Err(e) ==> e == Error::BufferTooShort,
    {
        if self.buffer.as_bytes().len() < Self::LENGTH {
            return Err(Error::BufferTooShort);
        }
        Ok(())
    }

    /// The header: the first four bytes.
    pub fn header(&self) -> (r: OptionHeader<&[u8]>)
        requires
            self@.len() >= 4,
        ensures
            r@ == self@.subrange(0, 4),
    {
        let b = self.buffer.as_bytes();
        OptionHeader::new_unchecked(&b[0..HEADER_LEN])
    }

    /// The priority; a lower value is preferred.
    pub fn priority(&self) -> (r: u16)
        requires
            self@.len() >= 6,
        ensures
            r as int == be16(self@.subrange(4, 6)),
    {
        get_u16(self.buffer.as_bytes(), HEADER_LEN + field::load_balancing_option::PRIORITY.start)
    }

    /// The weight.
    pub fn weight(&self) -> (r: u16)
        requires
            self@.len() >= 8,
        ensures
            r as int == be16(self@.subrange(6, 8)),
    {
        get_u16(self.buffer.as_bytes(), HEADER_LEN + field::load_balancing_option::WEIGHT.start)
    }
}

impl<T: ByteViewMut> LoadBalancingOption<T> {
    /// Sets the priority.
    pub fn set_priority(&mut self, priority: u16)
        requires
            old(self)@.len() >= 6,
        ensures
            final(self)@ == splice(old(self)@, 4, be16_bytes(priority)),
    {
        put_u16(
            self.buffer.as_bytes_mut(),
            HEADER_LEN + field::load_balancing_option::PRIORITY.start,
            priority,
        );
    }

    /// Sets the weight.
    pub fn set_weight(&mut self, weight: u16)
        requires
            old(self)@.len() >= 8,
        ensures
            final(self)@ == splice(old(self)@, 6, be16_bytes(weight)),
    {
        put_u16(
            self.buffer.as_bytes_mut(),
            HEADER_LEN + field::load_balancing_option::WEIGHT.start,
            weight,
        );
    }
}

/// An IPv4 endpoint option as a flat value.
#[derive(Debug, Clone, Copy, PartialEq, Eq)]
pub struct IPv4EndpointOptionRepr {
    /// The address, in network byte order.
    pub ipv4_address: [u8; 4],
    /// The transport protocol.
    pub protocol: TransportProtocol,
    /// The port.
    pub port: u16,
}

impl IPv4EndpointOptionRepr {
    /// What a buffer that held `before` holds once this value was
    /// emitted into it: length and type in the header, the address, the
    /// protocol and the port. The byte of the discardable flag, the
    /// reserved byte and what follows the option stay as they were.
    pub open spec fn emitted(&self, before: Seq<u8>) -> Seq<u8>
        recommends
            before.len() >= 12,
    {
        let with_header = splice(
            before,
            0,
            seq![0u8, 9u8, OptionType::IPv4Endpoint.spec_as_u8()],
        );
        let with_address = splice(with_header, 4, self.ipv4_address@);
        splice(with_address, 9, seq![self.protocol.spec_as_u8()] + be16_bytes(self.port))
    }

    /// Whether `repr` is what the payload in `bytes` says.
    pub open spec fn parses_to(bytes: Seq<u8>, repr: IPv4EndpointOptionRepr) -> bool
        recommends
            bytes.len() >= 12,
    {
        &&& repr.ipv4_address@ == bytes.subrange(4, 8)
        &&& TransportProtocol::spec_from_u8(bytes[9]) == Some(repr.protocol)
        &&& repr.port as int == be16(bytes.subrange(10, 12))
    }

    /// Reads address, protocol and port; fails on a protocol byte other
    /// than `0x06` and `0x11`.
    pub fn parse<T: ByteView>(option: &IPv4EndpointOption<T>) -> (r: Result<Self, Error>)
        requires
            option@.len() >= 12,
        ensures
            r is Ok <==> is_protocol_byte(option@[9]),
            r matches Ok(v) ==> Self::parses_to(option@, v),
            r matches Err(e) ==> e == Error::InvalidProtocol(option@[9]),
    {
        match option.check_protocol() {
            Ok(()) => {},
            Err(e) => {
                return Err(e);
            },
        }
        let protocol = match TransportProtocol::from_u8(option.transport_protocol()) {
            Some(p) => p,
            None => {
                return Err(Error::InvalidProtocol(option.transport_protocol()));
            },
        };
        Ok(IPv4EndpointOptionRepr { ipv4_address: option.ipv4_address(), protocol, port: option.port() })
    }

    /// Writes the option into the first 12 bytes of `buffer` and
    /// returns its size.
    pub fn emit(&self, buffer: &mut [u8]) -> (n: usize)
        requires
            old(buffer)@.len() >= 12,
        ensures
            n == 12,
            final(buffer)@ == self.emitted(old(buffer)@),
    {
        put_u16(buffer, field::option_header::LENGTH.start, 9);
        buffer[field::option_header::TYPE.start] = OptionType::IPv4Endpoint.as_u8();
        put_bytes(
            buffer,
            HEADER_LEN + field::ipv4_endpoint_option::IPV4_ADDRESS.start,
            self.ipv4_address.as_slice(),
        );
        buffer[HEADER_LEN + field::ipv4_endpoint_option::TRANSPORT_PROTOCOL.start] = self.protocol.as_u8();
        put_u16(buffer, HEADER_LEN + field::ipv4_endpoint_option::PORT.start, self.port);
        proof {
            assert(be16_bytes(9u16) =~= seq![0u8, 9u8]);
            assert(buffer@ =~= self.emitted(old(buffer)@));
        }
        Self::buffer_len()
    }

    /// Size of the option on the wire: four bytes of header and 8
    /// of payload.
    pub fn buffer_len() -> (n: usize)
        ensures
            n == 12,
    {
        12
    }
}

/// What `IPv4EndpointOptionRepr::emit` writes parses back to the value that was emitted,
/// and to no other, whatever the buffer held before.
pub proof fn lemma_ipv4_endpoint_round_trip(repr: IPv4EndpointOptionRepr, other: IPv4EndpointOptionRepr, before: Seq<u8>)
    requires
        before.len() >= 12,
    ensures
        repr.emitted(before).len() == before.len(),
        is_protocol_byte(repr.emitted(before)[9]),
        IPv4EndpointOptionRepr::parses_to(repr.emitted(before), repr),
        IPv4EndpointOptionRepr::parses_to(repr.emitted(before), other) ==> other == repr,
{
    let bytes = repr.emitted(before);
    assert(bytes.subrange(4, 8) =~= repr.ipv4_address@);
    assert(bytes.subrange(10, 12) =~= be16_bytes(repr.port));
    lemma_be16_round_trip(repr.port);
    if IPv4EndpointOptionRepr::parses_to(bytes, other) {
        assert(other.ipv4_address =~= repr.ipv4_address);
    }
}

/// An IPv6 endpoint option as a flat value.
#[derive(Debug, Clone, Copy, PartialEq, Eq)]
pub struct IPv6EndpointOptionRepr {
    /// The address, in network byte order.
    pub ipv6_address: [u8; 16],
    /// The transport protocol.
    pub protocol: TransportProtocol,
    /// The port.
    pub port: u16,
}

impl IPv6EndpointOptionRepr {
    /// What a buffer that held `before` holds once this value was
    /// emitted into it: length and type in the header, the address, the
    /// protocol and the port. The byte of the discardable flag, the
    /// reserved byte and what follows the option stay as they were.
    pub open spec fn emitted(&self, before: Seq<u8>) -> Seq<u8>
        recommends
            before.len() >= 24,
    {
        let with_header = splice(
            before,
            0,
            seq![0u8, 21u8, OptionType::IPv6Endpoint.spec_as_u8()],
        );
        let with_address = splice(with_header, 4, self.ipv6_address@);
        splice(with_address, 21, seq![self.protocol.spec_as_u8()] + be16_bytes(self.port))
    }

    /// Whether `repr` is what the payload in `bytes` says.
    pub open spec fn parses_to(bytes: Seq<u8>, repr: IPv6EndpointOptionRepr) -> bool
        recommends
            bytes.len() >= 24,
    {
        &&& repr.ipv6_address@ == bytes.subrange(4, 20)
        &&& TransportProtocol::spec_from_u8(bytes[21]) == Some(repr.protocol)
        &&& repr.port as int == be16(bytes.subrange(22, 24))
    }

    /// Reads address, protocol and port; fails on a protocol byte other
    /// than `0x06` and `0x11`.
    pub fn parse<T: ByteView>(option: &IPv6EndpointOption<T>) -> (r: Result<Self, Error>)
        requires
            option@.len() >= 24,
        ensures
            r is Ok <==> is_protocol_byte(option@[21]),
            r matches Ok(v) ==> Self::parses_to(option@, v),
            r matches Err(e) ==> e == Error::InvalidProtocol(option@[21]),
    {
        match option.check_protocol() {
            Ok(()) => {},
            Err(e) => {
                return Err(e);
            },
        }
        let protocol = match TransportProtocol::from_u8(option.transport_protocol()) {
            Some(p) => p,
            None => {
                return Err(Error::InvalidProtocol(option.transport_protocol()));
            },
        };
        Ok(IPv6EndpointOptionRepr { ipv6_address: option.ipv6_address(), protocol, port: option.port() })
    }

    /// Writes the option into the first 24 bytes of `buffer` and
    /// returns its size.
    pub fn emit(&self, buffer: &mut [u8]) -> (n: usize)
        requires
            old(buffer)@.len() >= 24,
        ensures
            n == 24,
            final(buffer)@ == self.emitted(old(buffer)@),
    {
        put_u16(buffer, field::option_header::LENGTH.start, 21);
        buffer[field::option_header::TYPE.start] = OptionType::IPv6Endpoint.as_u8();
        put_bytes(
            buffer,
            HEADER_LEN + field::ipv6_endpoint_option::IPV6_ADDRESS.start,
            self.ipv6_address.as_slice(),
        );
        buffer[HEADER_LEN + field::ipv6_endpoint_option::TRANSPORT_PROTOCOL.start] = self.protocol.as_u8();
        put_u16(buffer, HEADER_LEN + field::ipv6_endpoint_option::PORT.start, self.port);
        proof {
            assert(be16_bytes(21u16) =~= seq![0u8, 21u8]);
            assert(buffer@ =~= self.emitted(old(buffer)@));
        }
        Self::buffer_len()
    }

    /// Size of the option on the wire: four bytes of header and 20
    /// of payload.
    pub fn buffer_len() -> (n: usize)
        ensures
            n == 24,
    {
        24
    }
}

/// What `IPv6EndpointOptionRepr::emit` writes parses back to the value that was emitted,
/// and to no other, whatever the buffer held before.
pub proof fn lemma_ipv6_endpoint_round_trip(repr: IPv6EndpointOptionRepr, other: IPv6EndpointOptionRepr, before: Seq<u8>)
    requires
        before.len() >= 24,
    ensures
        repr.emitted(before).len() == before.len(),
        is_protocol_byte(repr.emitted(before)[21]),
        IPv6EndpointOptionRepr::parses_to(repr.emitted(before), repr),
        IPv6EndpointOptionRepr::parses_to(repr.emitted(before), other) ==> other == repr,
{
    let bytes = repr.emitted(before);
    assert(bytes.subrange(4, 20) =~= repr.ipv6_address@);
    assert(bytes.subrange(22, 24) =~= be16_bytes(repr.port));
    lemma_be16_round_trip(repr.port);
    if IPv6EndpointOptionRepr::parses_to(bytes, other) {
        assert(other.ipv6_address =~= repr.ipv6_address);
    }
}

/// A load balancing option as a flat value.
#[derive(Debug, Clone, Copy, PartialEq, Eq)]
pub struct LoadBalancingOptionRepr {
    /// The priority; a lower value is preferred.
    pub priority: u16,
    /// The weight.
    pub weight: u16,
}

impl LoadBalancingOptionRepr {
    /// What a buffer that held `before` holds once this value was
    /// emitted into it: length and type in the header, priority and
    /// weight. The byte of the discardable flag and what follows the
    /// eighth byte stay as they were.
    pub open spec fn emitted(&self, before: Seq<u8>) -> Seq<u8>
        recommends
            before.len() >= 8,
    {
        let with_header = splice(
            before,
            0,
            seq![0u8, 5u8, OptionType::LoadBalancing.spec_as_u8()],
        );
        splice(with_header, 4, be16_bytes(self.priority) + be16_bytes(self.weight))
    }

    /// The value that the payload in `bytes` says.
    pub open spec fn spec_parse(bytes: Seq<u8>) -> LoadBalancingOptionRepr
        recommends
            bytes.len() >= 8,
    {
        LoadBalancingOptionRepr {
            priority: be16(bytes.subrange(4, 6)) as u16,
            weight: be16(bytes.subrange(6, 8)) as u16,
        }
    }

    /// Reads priority and weight.
    pub fn parse<T: ByteView>(option: &LoadBalancingOption<T>) -> (r: Self)
        requires
            option@.len() >= 8,
        ensures
            r == Self::spec_parse(option@),
    {
        LoadBalancingOptionRepr { priority: option.priority(), weight: option.weight() }
    }

    /// Writes the option into the first eight bytes of `buffer` and
    /// returns the number of bytes written, eight. The length that the
    /// header announces is five.
    pub fn emit(&self, buffer: &mut [u8]) -> (n: usize)
        requires
            old(buffer)@.len() >= 8,
        ensures
            n == 8,
            final(buffer)@ == self.emitted(old(buffer)@),
    {
        put_u16(buffer, field::option_header::LENGTH.start, 5);
        buffer[field::option_header::TYPE.start] = OptionType::LoadBalancing.as_u8();
        put_u16(
            buffer,
            HEADER_LEN + field::load_balancing_option::PRIORITY.start,
            self.priority,
        );
        put_u16(buffer, HEADER_LEN + field::load_balancing_option::WEIGHT.start, self.weight);
        proof {
            assert(be16_bytes(5u16) =~= seq![0u8, 5u8]);
            assert(buffer@ =~= self.emitted(old(buffer)@));
        }
        Self::buffer_len()
    }

    /// Size of the option on the wire: four bytes of header and four
    /// of payload.
    pub fn buffer_len() -> (n: usize)
        ensures
            n == 8,
    {
        HEADER_LEN + field::load_balancing_option::WEIGHT.end
    }
}

/// What `LoadBalancingOptionRepr::emit` writes parses back to the value
/// that was emitted, whatever the buffer held before.
pub proof fn lemma_load_balancing_round_trip(repr: LoadBalancingOptionRepr, before: Seq<u8>)
    requires
        before.len() >= 8,
    ensures
        repr.emitted(before).len() == before.len(),
        LoadBalancingOptionRepr::spec_parse(repr.emitted(before)) == repr,
{
    let bytes = repr.emitted(before);
    assert(bytes.subrange(4, 6) =~= be16_bytes(repr.priority));
    assert(bytes.subrange(6, 8) =~= be16_bytes(repr.weight));
    lemma_be16_round_trip(repr.priority);
    lemma_be16_round_trip(repr.weight);
}

} // verus!

