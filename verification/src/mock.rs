//! Plain array backends: the simplest types that meet the address traits.

use crate::ipv4::{Ipv4Addr, Ipv4Address};
use crate::ipv6::{Ipv6Addr, Ipv6Address};
use crate::socket4::SocketAddressV4;
use crate::socket6::SocketAddressV6;
use vstd::prelude::*;

verus! {

/// Four octets kept in an array, most significant first.
#[derive(Clone, Copy, Debug, PartialEq, Eq, PartialOrd, Ord)]
pub struct Ipv4AddrInner {
    inner: [u8; 4],
}

impl Ipv4Address for Ipv4AddrInner {
    closed spec fn spec_octets(&self) -> [u8; 4] {
        self.inner
    }

    closed spec fn spec_new(a: u8, b: u8, c: u8, d: u8) -> Self {
        Ipv4AddrInner { inner: [a, b, c, d] }
    }

    proof fn lemma_new_octets(a: u8, b: u8, c: u8, d: u8) {
    }

    fn localhost() -> Self {
        Ipv4AddrInner { inner: [127, 0, 0, 1] }
    }

    fn unspecified() -> Self {
        Ipv4AddrInner { inner: [0, 0, 0, 0] }
    }

    fn broadcast() -> Self {
        Ipv4AddrInner { inner: [255, 255, 255, 255] }
    }

    fn new(a: u8, b: u8, c: u8, d: u8) -> Self {
        Ipv4AddrInner { inner: [a, b, c, d] }
    }

    fn octets(&self) -> [u8; 4] {
        self.inner
    }
}

/// Eight segments kept in an array, most significant first.
#[derive(Clone, Copy, Debug, PartialEq, Eq, PartialOrd, Ord)]
pub struct Ipv6AddrInner {
    inner: [u16; 8],
}

impl Ipv6Address for Ipv6AddrInner {
    closed spec fn spec_segments(&self) -> [u16; 8] {
        self.inner
    }

    closed spec fn spec_new(
        a: u16,
        b: u16,
        c: u16,
        d: u16,
        e: u16,
        f: u16,
        g: u16,
        h: u16,
    ) -> Self {
        Ipv6AddrInner { inner: [a, b, c, d, e, f, g, h] }
    }

    proof fn lemma_new_segments(a: u16, b: u16, c: u16, d: u16, e: u16, f: u16, g: u16, h: u16) {
    }

    fn localhost() -> Self {
        Ipv6AddrInner { inner: [0, 0, 0, 0, 0, 0, 0, 1] }
    }

    fn unspecified() -> Self {
        Ipv6AddrInner { inner: [0, 0, 0, 0, 0, 0, 0, 0] }
    }

    fn new(a: u16, b: u16, c: u16, d: u16, e: u16, f: u16, g: u16, h: u16) -> Self {
        Ipv6AddrInner { inner: [a, b, c, d, e, f, g, h] }
    }

    fn segments(&self) -> [u16; 8] {
        self.inner
    }
}

/// An IPv4 address and a port kept side by side.
#[derive(Debug)]
pub struct SocketAddrV4Inner<IV4: Ipv4Address> {
    ip: Ipv4Addr<IV4>,
    port: u16,
}

impl<IV4: Ipv4Address> Clone for SocketAddrV4Inner<IV4> {
    fn clone(&self) -> (r: Self)
        ensures
            r == *self,
    {
        *self
    }
}

impl<IV4: Ipv4Address> Copy for SocketAddrV4Inner<IV4> {

}

impl<IV4: Ipv4Address> SocketAddressV4 for SocketAddrV4Inner<IV4> {
    type IpAddress = IV4;

    closed spec fn spec_ip(&self) -> Ipv4Addr<IV4> {
        self.ip
    }

    closed spec fn spec_port(&self) -> u16 {
        self.port
    }

    closed spec fn spec_new(ip: Ipv4Addr<IV4>, port: u16) -> Self {
        SocketAddrV4Inner { ip, port }
    }

    proof fn lemma_new_parts(ip: Ipv4Addr<IV4>, port: u16) {
    }

    fn new(ip: Ipv4Addr<IV4>, port: u16) -> Self {
        SocketAddrV4Inner { ip, port }
    }

    fn ip(&self) -> &Ipv4Addr<IV4> {
        &self.ip
    }

    fn set_ip(&mut self, ip: Ipv4Addr<IV4>) {
        self.ip = ip;
    }

    fn port(&self) -> u16 {
        self.port
    }

    fn set_port(&mut self, port: u16) {
        self.port = port;
    }
}

/// An IPv6 address, a port, a flow label and a scope identifier kept side
/// by side.
#[derive(Debug)]
pub struct SocketAddrV6Inner<IV6: Ipv6Address> {
    ip: Ipv6Addr<IV6>,
    port: u16,
    flowinfo: u32,
    scope_id: u32,
}

impl<IV6: Ipv6Address> Clone for SocketAddrV6Inner<IV6> {
    fn clone(&self) -> (r: Self)
        ensures
            r == *self,
    {
        *self
    }
}

impl<IV6: Ipv6Address> Copy for SocketAddrV6Inner<IV6> {

}

impl<IV6: Ipv6Address> SocketAddressV6 for SocketAddrV6Inner<IV6> {
    type IpAddress = IV6;

    closed spec fn spec_ip(&self) -> Ipv6Addr<IV6> {
        self.ip
    }

    closed spec fn spec_port(&self) -> u16 {
        self.port
    }

    closed spec fn spec_flowinfo(&self) -> u32 {
        self.flowinfo
    }

    closed spec fn spec_scope_id(&self) -> u32 {
        self.scope_id
    }

    closed spec fn spec_new(ip: Ipv6Addr<IV6>, port: u16, flowinfo: u32, scope_id: u32) -> Self {
        SocketAddrV6Inner { ip, port, flowinfo, scope_id }
    }

    proof fn lemma_new_parts(ip: Ipv6Addr<IV6>, port: u16, flowinfo: u32, scope_id: u32) {
    }

    fn new(ip: Ipv6Addr<IV6>, port: u16, flowinfo: u32, scope_id: u32) -> Self {
        SocketAddrV6Inner { ip, port, flowinfo, scope_id }
    }

    fn ip(&self) -> &Ipv6Addr<IV6> {
        &self.ip
    }

    fn set_ip(&mut self, ip: Ipv6Addr<IV6>) {
        self.ip = ip;
    }

    fn port(&self) -> u16 {
        self.port
    }

    fn set_port(&mut self, port: u16) {
        self.port = port;
    }

    fn set_flowinfo(&mut self, new_flowinfo: u32) {
        self.flowinfo = new_flowinfo;
    }

    fn flowinfo(&self) -> u32 {
        self.flowinfo
    }

    fn set_scope_id(&mut self, new_scope_id: u32) {
        self.scope_id = new_scope_id;
    }

    fn scope_id(&self) -> u32 {
        self.scope_id
    }
}

} // verus!
