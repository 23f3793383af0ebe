use vstd::prelude::*;

use crate::de::BorshDeserialize;
use crate::error::Error;
use crate::source::ByteSource;

verus! {

/// An IPv4 address: four raw octets as they stand on the wire.
#[derive(Clone, Debug, PartialEq, Eq)]
pub struct Ipv4Addr {
    pub octets: Vec<u8>,
}

/// An IPv6 address: sixteen raw octets as they stand on the wire.
#[derive(Clone, Debug, PartialEq, Eq)]
pub struct Ipv6Addr {
    pub octets: Vec<u8>,
}

/// An IPv4 socket address: the address, then a 2-byte little-endian port.
#[derive(Clone, Debug, PartialEq, Eq)]
pub struct SocketAddrV4 {
    pub ip: Ipv4Addr,
    pub port: u16,
}

/// An IPv6 socket address: the address, then a 2-byte little-endian port.
///
/// Flow-info and scope-id are not represented on the wire; a caller that
/// needs a full native address reconstructs them as zero.
#[derive(Clone, Debug, PartialEq, Eq)]
pub struct SocketAddrV6 {
    pub ip: Ipv6Addr,
    pub port: u16,
}

/// A socket address of either family, selected on the wire by one
/// discriminant byte: 0 for IPv4, 1 for IPv6.
#[derive(Clone, Debug, PartialEq, Eq)]
pub enum SocketAddr {
    V4(SocketAddrV4),
    V6(SocketAddrV6),
}

/// The model of a decoded socket address: which family, the address octets,
/// and the port.
pub enum SocketAddrModel {
    V4 { octets: Seq<u8>, port: u16 },
    V6 { octets: Seq<u8>, port: u16 },
}

impl BorshDeserialize for Ipv4Addr {
    type Model = Seq<u8>;

    open spec fn model(&self) -> Seq<u8> {
        self.octets@
    }

    /// Four raw address bytes.
    open spec fn spec_deserialize(bytes: Seq<u8>) -> Result<(Seq<u8>, int), Error> {
        if bytes.len() < 4 {
            Err(Error::UnexpectedEof)
        } else {
            Ok((bytes.take(4), 4))
        }
    }

    fn deserialize(input: &mut ByteSource) -> (r: Result<Ipv4Addr, Error>) {
        match input.read_exact(4) {
            Ok(octets) => Ok(Ipv4Addr { octets }),
            Err(e) => Err(e),
        }
    }
}

impl BorshDeserialize for Ipv6Addr {
    type Model = Seq<u8>;

    open spec fn model(&self) -> Seq<u8> {
        self.octets@
    }

    /// Sixteen raw address bytes.
    open spec fn spec_deserialize(bytes: Seq<u8>) -> Result<(Seq<u8>, int), Error> {
        if bytes.len() < 16 {
            Err(Error::UnexpectedEof)
        } else {
            Ok((bytes.take(16), 16))
        }
    }

    fn deserialize(input: &mut ByteSource) -> (r: Result<Ipv6Addr, Error>) {
        match input.read_exact(16) {
            Ok(octets) => Ok(Ipv6Addr { octets }),
            Err(e) => Err(e),
        }
    }
}

impl BorshDeserialize for SocketAddrV4 {
    type Model = (Seq<u8>, u16);

    open spec fn model(&self) -> (Seq<u8>, u16) {
        (self.ip.model(), self.port)
    }

    /// The address, then the port, in order.
    open spec fn spec_deserialize(bytes: Seq<u8>) -> Result<((Seq<u8>, u16), int), Error> {
        match Ipv4Addr::spec_deserialize(bytes) {
            Ok(p0) => match u16::spec_deserialize(bytes.skip(p0.1)) {
                Ok(p1) => Ok(((p0.0, p1.0), p0.1 + p1.1)),
                Err(e) => Err(e),
            },
            Err(e) => Err(e),
        }
    }

    fn deserialize(input: &mut ByteSource) -> (r: Result<SocketAddrV4, Error>) {
        let ip = match Ipv4Addr::deserialize(input) {
            Ok(v) => v,
            Err(e) => {
                return Err(e);
            },
        };
        let port = match u16::deserialize(input) {
            Ok(v) => v,
            Err(e) => {
                return Err(e);
            },
        };
        proof {
            assert(old(input)@.skip(4).skip(2) =~= old(input)@.skip(6));
        }
        Ok(SocketAddrV4 { ip, port })
    }
}

impl BorshDeserialize for SocketAddrV6 {
    type Model = (Seq<u8>, u16);

    open spec fn model(&self) -> (Seq<u8>, u16) {
        (self.ip.model(), self.port)
    }

    /// The address, then the port, in order.
    open spec fn spec_deserialize(bytes: Seq<u8>) -> Result<((Seq<u8>, u16), int), Error> {
        match Ipv6Addr::spec_deserialize(bytes) {
            Ok(p0) => match u16::spec_deserialize(bytes.skip(p0.1)) {
                Ok(p1) => Ok(((p0.0, p1.0), p0.1 + p1.1)),
                Err(e) => Err(e),
            },
            Err(e) => Err(e),
        }
    }

    fn deserialize(input: &mut ByteSource) -> (r: Result<SocketAddrV6, Error>) {
        let ip = match Ipv6Addr::deserialize(input) {
            Ok(v) => v,
            Err(e) => {
                return Err(e);
            },
        };
        let port = match u16::deserialize(input) {
            Ok(v) => v,
            Err(e) => {
                return Err(e);
            },
        };
        proof {
            assert(old(input)@.skip(16).skip(2) =~= old(input)@.skip(18));
        }
        Ok(SocketAddrV6 { ip, port })
    }
}

impl BorshDeserialize for SocketAddr {
    type Model = SocketAddrModel;

    open spec fn model(&self) -> SocketAddrModel {
        match self {
            SocketAddr::V4(s) => SocketAddrModel::V4 { octets: s.ip.model(), port: s.port },
            SocketAddr::V6(s) => SocketAddrModel::V6 { octets: s.ip.model(), port: s.port },
        }
    }

    /// One discriminant byte selects the family: 0 is IPv4, 1 is IPv6, and
    /// any other value fails with `InvalidSocketAddrVariant` naming it.
    open spec fn spec_deserialize(bytes: Seq<u8>) -> Result<(SocketAddrModel, int), Error> {
        if bytes.len() < 1 {
            Err(Error::UnexpectedEof)
        } else if bytes[0] == 0 {
            match SocketAddrV4::spec_deserialize(bytes.skip(1)) {
                Ok(p) => Ok(
                    (SocketAddrModel::V4 { octets: p.0.0, port: p.0.1 }, p.1 + 1),
                ),
                Err(e) => Err(e),
            }
        } else if bytes[0] == 1 {
            match SocketAddrV6::spec_deserialize(bytes.skip(1)) {
                Ok(p) => Ok(
                    (SocketAddrModel::V6 { octets: p.0.0, port: p.0.1 }, p.1 + 1),
                ),
                Err(e) => Err(e),
            }
        } else {
            Err(Error::InvalidSocketAddrVariant(bytes[0]))
        }
    }

    fn deserialize(input: &mut ByteSource) -> (r: Result<SocketAddr, Error>) {
        let kind = match input.read_byte() {
            Ok(b) => b,
            Err(e) => {
                return Err(e);
            },
        };
        if kind == 0 {
            match SocketAddrV4::deserialize(input) {
                Ok(v) => {
                    proof {
                        let p = SocketAddrV4::spec_deserialize(old(input)@.skip(1))->Ok_0;
                        assert(old(input)@.skip(1).skip(p.1) =~= old(input)@.skip(p.1 + 1));
                    }
                    Ok(SocketAddr::V4(v))
                },
                Err(e) => Err(e),
            }
        } else if kind == 1 {
            match SocketAddrV6::deserialize(input) {
                Ok(v) => {
                    proof {
                        let p = SocketAddrV6::spec_deserialize(old(input)@.skip(1))->Ok_0;
                        assert(old(input)@.skip(1).skip(p.1) =~= old(input)@.skip(p.1 + 1));
                    }
                    Ok(SocketAddr::V6(v))
                },
                Err(e) => Err(e),
            }
        } else {
            Err(Error::InvalidSocketAddrVariant(kind))
        }
    }
}

} // verus!
