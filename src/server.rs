//! The decisions of the sync server: which peers may send, how many bytes
//! a connection reads, and what the log records once a request is applied.
use crate::index::{Index, OperationModel};
use crate::net::{decoding, kind_of, wanted, Request, RequestParseError, RequestView};
use vstd::prelude::*;

verus! {

#[verifier::external_type_specification]
#[verifier::external_body]
pub struct ExIoError(std::io::Error);

/// A failure of the server's socket.
#[derive(Debug)]
pub enum Error {
    Io(std::io::Error),
}

/// Where the server applies changes, where it listens, and whom it admits.
#[derive(Debug, Clone)]
pub struct Config {
    pub sync_path: String,
    pub port: u16,
    pub device_addrs: Vec<String>,
}

/// The network address of a peer, without its port.
#[derive(Debug, Clone, Copy, PartialEq, Eq, Structural)]
pub enum IpAddress {
    V4(u32),
    V6(u128),
}

/// Whether `incoming` is among the addresses that the allow-list resolved to.
pub fn is_device(allowed: &Vec<IpAddress>, incoming: IpAddress) -> (r: bool)
    ensures
        r == allowed@.contains(incoming),
{
    let mut i: usize = 0;
    while i < allowed.len()
        invariant
            i <= allowed@.len(),
            forall|j: int| 0 <= j < i ==> allowed@[j] != incoming,
        decreases allowed@.len() - i,
    {
        if allowed[i] == incoming {
            assert(allowed@[i as int] == incoming);
            return true;
        }
        i = i + 1;
    }
    false
}

/// One inbound connection: whether its peer is admitted, and the bytes
/// received from it so far.
pub struct Connection {
    authorized: bool,
    received: Vec<u8>,
}

impl Connection {
    pub closed spec fn authorized(&self) -> bool {
        self.authorized
    }

    pub closed spec fn received(&self) -> Seq<u8> {
        self.received@
    }

    /// A connection from `peer`, admitted when `peer` is on the allow-list.
    pub fn accept(allowed: &Vec<IpAddress>, peer: IpAddress) -> (r: Connection)
        ensures
            r.authorized() == allowed@.contains(peer),
            r.received() == Seq::<u8>::empty(),
    {
        Connection { authorized: is_device(allowed, peer), received: Vec::new() }
    }

    pub fn is_authorized(&self) -> (r: bool)
        ensures
            r == self.authorized(),
    {
        self.authorized
    }

    /// How many more bytes to read from the peer: none from a peer that
    /// was not admitted, else what the decoder still needs.
    pub fn wanted(&self) -> (r: u64)
        ensures
            !self.authorized() ==> r == 0,
            self.authorized() ==> r == wanted(self.received()),
    {
        if self.authorized {
            Request::bytes_needed(self.received.as_slice())
        } else {
            0
        }
    }

    /// Whether nothing of a next request has arrived yet.
    pub fn is_idle(&self) -> (r: bool)
        ensures
            r == (self.received().len() == 0),
    {
        self.received.len() == 0
    }

    /// Takes in bytes read from an admitted peer.
    pub fn receive(&mut self, bytes: &[u8])
        requires
            old(self).authorized(),
        ensures
            final(self).authorized(),
            final(self).received() == old(self).received() + bytes@,
    {
        let mut i: usize = 0;
        while i < bytes.len()
            invariant
                i <= bytes@.len(),
                self.authorized,
                self.received@ == old(self).received@ + bytes@.subrange(0, i as int),
            decreases bytes@.len() - i,
        {
            self.received.push(bytes[i]);
            i = i + 1;
            assert(self.received@ =~= old(self).received@ + bytes@.subrange(0, i as int));
        }
        assert(bytes@.subrange(0, bytes@.len() as int) =~= bytes@);
    }

    /// The request of an admitted peer, decoded from what it sent before
    /// its stream ended or the decoder was satisfied.
    pub fn request(&self) -> (r: Result<Request, RequestParseError>)
        requires
            self.authorized(),
        ensures
            match r {
                Ok(q) => decoding(self.received()) == Ok::<RequestView, RequestParseError>(q@),
                Err(e) => decoding(self.received()) == Err::<RequestView, RequestParseError>(e),
            },
    {
        Request::parse(self.received.as_slice())
    }

    /// Decodes the request of an admitted peer as [`Connection::request`]
    /// does, and clears what was received so that the next request can
    /// follow on the same connection.
    pub fn take_request(&mut self) -> (r: Result<Request, RequestParseError>)
        requires
            old(self).authorized(),
        ensures
            match r {
                Ok(q) => decoding(old(self).received()) == Ok::<RequestView, RequestParseError>(q@),
                Err(e) => decoding(old(self).received()) == Err::<RequestView, RequestParseError>(e),
            },
            final(self).authorized(),
            final(self).received() == Seq::<u8>::empty(),
    {
        let r = Request::parse(self.received.as_slice());
        self.received.clear();
        r
    }
}

/// Records a request from the peer at `device_addr` that was applied to
/// the sync root.
pub fn handle(index: &mut Index, device_addr: String, request: Request)
    ensures
        final(index)@ == old(index)@.push(
            OperationModel { origin: device_addr@, kind: kind_of(request@) },
        ),
{
    let op = request.into_operation(device_addr);
    index.push(op);
}

} // verus!
