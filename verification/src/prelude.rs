//! The names most callers need, for one import.

pub use crate::buffer::{ByteView, ByteViewMut};
pub use crate::config::{ConfigEntry, ConfigurationOption};
pub use crate::entries::{
    EntryType, EventGroupEntry, EventGroupEntryRepr, NumberOfOptions, ReservedAndCounter,
    ServiceEntry, ServiceEntryRepr,
};
pub use crate::error::{ConfigError, Error};
pub use crate::options::{
    DiscardableFlag, IPv4EndpointOption, IPv4EndpointOptionRepr, IPv6EndpointOption,
    IPv6EndpointOptionRepr, LoadBalancingOption, LoadBalancingOptionRepr, OptionHeader,
    OptionType, TransportProtocol,
};
pub use crate::packet::Packet;
pub use crate::repr::Repr;
