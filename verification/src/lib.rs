//! Internet Protocol addresses and socket addresses over a storage backend
//! that the caller supplies.
//!
//! An address type here owns no layout of its own: `Ipv4Addr<B>` keeps a value
//! of a backend type `B` and reads it only through the `Ipv4Address` trait.
//! Every classification and every textual form is defined on the octets or
//! segments that the backend reports, and proved against that definition.
//!
//! - `ipv4`, `ipv6`: the backend traits, the two address types, their
//!   classification by range and their conversions.
//! - `ip`: an address of either family.
//! - `socket4`, `socket6`, `socket`: socket addresses over backends of their
//!   own.
//! - `text`: the canonical text of addresses, and the functions that write
//!   it.
//! - `grammar`, `parse`: what a text denotes, the functions that read it,
//!   and the proof that the canonical text of an address denotes it.
//! - `order`: the lexicographic order by which addresses are compared.
//! - `mock`: backends that keep their parts in plain fields.
//! - `hashing`: the one function of the standard library that is taken on
//!   trust.

pub mod grammar;
pub mod hashing;
pub mod ip;
pub mod ipv4;
pub mod ipv6;
pub mod mock;
pub mod order;
pub mod parse;
pub mod socket;
pub mod socket4;
pub mod socket6;
pub mod text;

pub use ip::IpAddr;
pub use ipv4::Ipv4Addr;
pub use ipv4::Ipv4Address;
pub use ipv6::Ipv6Addr;
pub use ipv6::Ipv6Address;
pub use ipv6::Ipv6MulticastScope;
pub use mock::Ipv4AddrInner;
pub use mock::Ipv6AddrInner;
pub use mock::SocketAddrV4Inner;
pub use mock::SocketAddrV6Inner;
pub use parse::AddrParseError;
pub use socket::SocketAddr;
pub use socket::ToSocketAddrError;
pub use socket::ToSocketAddrs;
pub use socket4::SocketAddrV4;
pub use socket4::SocketAddressV4;
pub use socket6::SocketAddrV6;
pub use socket6::SocketAddressV6;
