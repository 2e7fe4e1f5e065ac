use crate::error::Error;
use vstd::prelude::*;

verus! {

/// Bytes in the sequence counter at the head of each datagram.
pub const CNT_LEN: usize = 4;

/// The big-endian unsigned integer held in four bytes.
pub open spec fn be_u32(b: Seq<u8>) -> int
    recommends
        b.len() == 4,
{
    b[0] * 0x100_0000 + b[1] * 0x1_0000 + b[2] * 0x100 + b[3]
}

/// The payload bytes of a packet: a view into a received datagram, used
/// when the packet is consumed at once, or storage of its own.
pub enum Payload<'a> {
    Borrowed(&'a [u8]),
    Owned(Vec<u8>),
}

impl<'a> Payload<'a> {
    pub open spec fn bytes(&self) -> Seq<u8> {
        match self {
            Payload::Borrowed(s) => s@,
            Payload::Owned(v) => v@,
        }
    }

    pub fn as_slice(&self) -> (r: &[u8])
        ensures
            r@ == self.bytes(),
    {
        match self {
            Payload::Borrowed(s) => s,
            Payload::Owned(v) => v.as_slice(),
        }
    }
}

/// A sequence-numbered packet. Its payload is absent only for a placeholder
/// that stands for a packet that never arrived.
pub struct Pkt<'a> {
    pub cnt: u32,
    pub data: Option<Payload<'a>>,
}

/// Splits datagrams into their sequence counter and payload.
pub struct PktDecoder {}

impl PktDecoder {
    pub fn new() -> Self {
        PktDecoder {}
    }

    /// Reads the big-endian sequence counter from the first four bytes of
    /// `buf`; the rest of `buf` is the payload, borrowed, not copied.
    pub fn parse<'a>(&mut self, buf: &'a [u8]) -> (r: Result<Pkt<'a>, Error>)
        ensures
            buf@.len() < CNT_LEN <==> r is Err,
            r matches Err(e) ==> *e.repr is WrongArgument,
            r matches Ok(p) ==> {
                &&& p.cnt as int == be_u32(buf@.subrange(0, 4))
                &&& p.payload() == Some(buf@.subrange(4, buf@.len() as int))
                &&& p.data matches Some(Payload::Borrowed(_))
            },
    {
        if buf.len() < CNT_LEN {
            return Err(Error::new_wrong_argument(
                String::from_str("Datagram is shorter than its sequence counter"),
            ));
        }
        let (cnt_bytes, rest) = buf.split_at(CNT_LEN);
        let cnt = (cnt_bytes[0] as u32) * 0x100_0000 + (cnt_bytes[1] as u32) * 0x1_0000
            + (cnt_bytes[2] as u32) * 0x100 + (cnt_bytes[3] as u32);
        Ok(Pkt::new_borrower(cnt, rest))
    }
}

impl<'a> Pkt<'a> {
    /// The payload bytes, or `None` for a placeholder.
    pub open spec fn payload(&self) -> Option<Seq<u8>> {
        match &self.data {
            Some(p) => Some(p.bytes()),
            None => None,
        }
    }

    /// A placeholder for the packet numbered `cnt`.
    pub fn new_empty(cnt: u32) -> (r: Self)
        ensures
            r.cnt == cnt,
            r.payload() is None,
    {
        Pkt { cnt, data: None }
    }

    /// A packet with an empty payload of its own storage.
    pub fn new_owner(cnt: u32) -> (r: Self)
        ensures
            r.cnt == cnt,
            r.payload() == Some(Seq::<u8>::empty()),
            r.data matches Some(Payload::Owned(_)),
    {
        Pkt { cnt, data: Some(Payload::Owned(Vec::new())) }
    }

    /// A packet whose payload borrows `data`.
    pub fn new_borrower(cnt: u32, data: &'a [u8]) -> (r: Self)
        ensures
            r.cnt == cnt,
            r.payload() == Some(data@),
            r.data == Some(Payload::Borrowed(data)),
    {
        Pkt { cnt, data: Some(Payload::Borrowed(data)) }
    }

    /// True for a placeholder, which has no payload.
    pub fn is_empty(&self) -> (r: bool)
        ensures
            r == (self.payload() is None),
    {
        self.data.is_none()
    }

    /// The payload's length; zero for a placeholder.
    pub fn len(&self) -> (r: usize)
        ensures
            r as int == match self.payload() {
                Some(b) => b.len() as int,
                None => 0int,
            },
    {
        match &self.data {
            Some(p) => p.as_slice().len(),
            None => 0,
        }
    }

    /// Takes the number and a copy of the payload of `from` into storage of
    /// this packet's own, reusing that storage where it has some. A
    /// placeholder `from` leaves this packet unchanged.
    pub fn copy_from(&mut self, from: &Pkt)
        ensures
            from.payload() is None ==> *final(self) == *old(self),
            from.payload() is Some ==> {
                &&& final(self).cnt == from.cnt
                &&& final(self).payload() == from.payload()
                &&& final(self).data matches Some(Payload::Owned(_))
            },
    {
        let src: &[u8] = match &from.data {
            None => {
                return;
            },
            Some(p) => p.as_slice(),
        };
        let mut storage = match self.data.take() {
            Some(Payload::Owned(v)) => v,
            _ => Vec::new(),
        };
        storage.clear();
        storage.extend_from_slice(src);
        self.data = Some(Payload::Owned(storage));
        self.cnt = from.cnt;
    }

    /// Copies the payload into `to`, replacing what it held, and returns
    /// true; for a placeholder returns false and leaves `to` unchanged.
    pub fn copy_to_vec(&self, to: &mut Vec<u8>) -> (r: bool)
        ensures
            r == (self.payload() is Some),
            r ==> final(to)@ == self.payload()->0,
            !r ==> final(to)@ == old(to)@,
    {
        match &self.data {
            None => false,
            Some(p) => {
                to.clear();
                to.extend_from_slice(p.as_slice());
                true
            },
        }
    }
}

} // verus!
