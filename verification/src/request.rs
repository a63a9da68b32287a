use vstd::prelude::*;
use vstd::slice::{slice_subrange, slice_to_vec};

use crate::errors::{Failure, FrameError};
use crate::ident::{from_slice, is_random, new_v4};
use crate::packet::Packet;
use crate::types::{
    Bytes, CorrelationId, BUF_SIZE, HEADER_LEN, MAX_KEY_LEN, OP_GET, OP_PING, OP_SET, OP_UNSET,
    PREFIX_LEN, UUID_LEN,
};
use crate::wire::{
    be_bytes, be_value, lemma_be_bytes_len, lemma_be_value_bound, lemma_bytes_of_value,
    lemma_span_values, lemma_value_of_bytes, push_be,
};

verus! {

/// A command for the peer. Keys and values are opaque bytes.
#[derive(Clone, Debug, PartialEq, Eq)]
pub enum Request {
    /// Is the peer there?
    Ping,
    /// Read the value stored under this key.
    Get(Bytes),
    /// Store, under this key, this value: the protocol's set command.
    Put(Bytes, Bytes),
    /// Forget this key.
    Unset(Bytes),
}

/// The mathematical content of a [`Request`].
pub enum Command {
    Ping,
    Get(Seq<u8>),
    Put(Seq<u8>, Seq<u8>),
    Unset(Seq<u8>),
}

impl View for Request {
    type V = Command;

    open spec fn view(&self) -> Command {
        match *self {
            Request::Ping => Command::Ping,
            Request::Get(key) => Command::Get(key@),
            Request::Put(key, val) => Command::Put(key@, val@),
            Request::Unset(key) => Command::Unset(key@),
        }
    }
}

impl Command {
    /// The first byte of the command's frame.
    pub open spec fn opcode(self) -> u8 {
        match self {
            Command::Ping => OP_PING,
            Command::Get(_) => OP_GET,
            Command::Put(_, _) => OP_SET,
            Command::Unset(_) => OP_UNSET,
        }
    }

    /// Length of the command's key; a ping has none.
    pub open spec fn key_len(self) -> nat {
        match self {
            Command::Ping => 0,
            Command::Get(key) => key.len(),
            Command::Put(key, _) => key.len(),
            Command::Unset(key) => key.len(),
        }
    }

    /// Whether the key length fits the two-byte prefix.
    pub open spec fn fits(self) -> bool {
        self.key_len() <= MAX_KEY_LEN
    }

    /// What follows the header: nothing for a ping, else the key length in two
    /// bytes, the key, and for a set the value.
    pub open spec fn body(self) -> Seq<u8> {
        match self {
            Command::Ping => Seq::empty(),
            Command::Get(key) => be_bytes(key.len(), PREFIX_LEN as nat) + key,
            Command::Put(key, val) => be_bytes(key.len(), PREFIX_LEN as nat) + key + val,
            Command::Unset(key) => be_bytes(key.len(), PREFIX_LEN as nat) + key,
        }
    }

    /// The frame that carries this command under correlation id `id`.
    pub open spec fn frame(self, id: CorrelationId) -> Seq<u8> {
        seq![self.opcode()] + be_bytes(id as nat, UUID_LEN as nat) + self.body()
    }

    /// How many bytes the command's frame takes, whatever the id.
    pub open spec fn frame_len(self) -> nat {
        match self {
            Command::Ping => HEADER_LEN as nat,
            Command::Get(key) => (HEADER_LEN + PREFIX_LEN + key.len()) as nat,
            Command::Put(key, val) => (HEADER_LEN + PREFIX_LEN + key.len() + val.len()) as nat,
            Command::Unset(key) => (HEADER_LEN + PREFIX_LEN + key.len()) as nat,
        }
    }

    /// Whether one datagram can carry the command's frame.
    pub open spec fn sendable(self) -> bool {
        self.frame_len() <= BUF_SIZE
    }
}

/// The frame of a command is as long as `frame_len` says, under every id.
pub proof fn lemma_frame_len(c: Command, id: CorrelationId)
    ensures
        c.frame(id).len() == c.frame_len(),
{
    lemma_be_bytes_len(id as nat, UUID_LEN as nat);
    lemma_be_bytes_len(c.key_len(), PREFIX_LEN as nat);
}

/// What a run of bytes says when read as a request frame: the correlation
/// id and the command, or why it is no request frame.
///
/// A frame is read strictly: a ping, a get and an unset end where their
/// fields end, and only a set takes what follows the key as its value.
pub open spec fn parsed(f: Seq<u8>) -> Result<(CorrelationId, Command), FrameError> {
    if f.len() < HEADER_LEN {
        Err(FrameError::Truncated)
    } else {
        let id = be_value(f.subrange(1, HEADER_LEN as int)) as CorrelationId;
        let op = f[0];
        if op == OP_PING {
            if f.len() == HEADER_LEN {
                Ok((id, Command::Ping))
            } else {
                Err(FrameError::Malformed)
            }
        } else if op == OP_GET || op == OP_SET || op == OP_UNSET {
            let start = HEADER_LEN + PREFIX_LEN;
            if f.len() < start {
                Err(FrameError::Truncated)
            } else {
                let end = start + be_value(f.subrange(HEADER_LEN as int, start));
                if f.len() < end {
                    Err(FrameError::Truncated)
                } else {
                    let key = f.subrange(start, end);
                    let rest = f.subrange(end, f.len() as int);
                    if op == OP_SET {
                        Ok((id, Command::Put(key, rest)))
                    } else if rest.len() > 0 {
                        Err(FrameError::Malformed)
                    } else if op == OP_GET {
                        Ok((id, Command::Get(key)))
                    } else {
                        Ok((id, Command::Unset(key)))
                    }
                }
            }
        } else {
            Err(FrameError::Malformed)
        }
    }
}

/// The mathematical content of what [`Request::parse`] returns.
pub open spec fn parse_view(r: Result<(CorrelationId, Request), FrameError>) -> Result<
    (CorrelationId, Command),
    FrameError,
> {
    match r {
        Ok((id, request)) => Ok((id, request@)),
        Err(e) => Err(e),
    }
}

/// Reading a frame gives back what was encoded: for every command whose key
/// fits the length prefix, and every correlation id, the frame of the command
/// under that id reads as that id and that command.
pub proof fn lemma_parse_frame(c: Command, id: CorrelationId)
    requires
        c.fits(),
    ensures
        parsed(c.frame(id)) == Ok::<(CorrelationId, Command), FrameError>((id, c)),
{
    let f = c.frame(id);
    let idb = be_bytes(id as nat, UUID_LEN as nat);
    lemma_span_values();
    lemma_be_bytes_len(id as nat, UUID_LEN as nat);
    lemma_value_of_bytes(id as nat, UUID_LEN as nat);
    assert(f.subrange(1, HEADER_LEN as int) =~= idb);
    match c {
        Command::Ping => {},
        Command::Get(key) => {
            lemma_keyed_fields(f, c.opcode(), idb, key, Seq::empty());
        },
        Command::Put(key, val) => {
            lemma_keyed_fields(f, c.opcode(), idb, key, val);
        },
        Command::Unset(key) => {
            lemma_keyed_fields(f, c.opcode(), idb, key, Seq::empty());
        },
    }
}

/// Where the fields of a frame with a key lie.
proof fn lemma_keyed_fields(f: Seq<u8>, op: u8, idb: Seq<u8>, key: Seq<u8>, rest: Seq<u8>)
    requires
        idb.len() == UUID_LEN,
        key.len() <= MAX_KEY_LEN,
        f =~= seq![op] + idb + be_bytes(key.len(), PREFIX_LEN as nat) + key + rest,
    ensures
        f.len() == HEADER_LEN + PREFIX_LEN + key.len() + rest.len(),
        f[0] == op,
        be_value(f.subrange(HEADER_LEN as int, HEADER_LEN + PREFIX_LEN)) == key.len(),
        f.subrange(HEADER_LEN + PREFIX_LEN, HEADER_LEN + PREFIX_LEN + key.len()) == key,
        f.subrange(HEADER_LEN + PREFIX_LEN + key.len(), f.len() as int) == rest,
{
    let prefix = be_bytes(key.len(), PREFIX_LEN as nat);
    lemma_span_values();
    lemma_be_bytes_len(key.len(), PREFIX_LEN as nat);
    lemma_value_of_bytes(key.len(), PREFIX_LEN as nat);
    assert(f.subrange(HEADER_LEN as int, HEADER_LEN + PREFIX_LEN) =~= prefix);
    assert(f.subrange(HEADER_LEN + PREFIX_LEN, HEADER_LEN + PREFIX_LEN + key.len()) =~= key);
    assert(f.subrange(HEADER_LEN + PREFIX_LEN + key.len(), f.len() as int) =~= rest);
}

/// A frame is read in one way only: whatever reads as a command under an id
/// is the frame of that command under that id, and the command's key fits the
/// length prefix.
pub proof fn lemma_frame_parse(f: Seq<u8>, id: CorrelationId, c: Command)
    requires
        parsed(f) == Ok::<(CorrelationId, Command), FrameError>((id, c)),
    ensures
        c.fits(),
        f == c.frame(id),
{
    let idb = f.subrange(1, HEADER_LEN as int);
    lemma_span_values();
    lemma_be_value_bound(idb);
    lemma_bytes_of_value(idb);
    if f[0] == OP_PING {
        assert(f =~= c.frame(id));
    } else {
        let start = HEADER_LEN + PREFIX_LEN;
        let prefix = f.subrange(HEADER_LEN as int, start);
        lemma_be_value_bound(prefix);
        lemma_bytes_of_value(prefix);
        assert(f =~= c.frame(id));
    }
}

/// The two-byte big-endian form of a key length, or `KeyTooLong` if the
/// length needs more than two bytes.
pub fn usize_to_bytes(u: usize) -> (r: Result<[u8; 2], Failure>)
    ensures
        match r {
            Ok(ks) => u <= MAX_KEY_LEN && ks@ == be_bytes(u as nat, PREFIX_LEN as nat),
            Err(e) => u > MAX_KEY_LEN && e == Failure::KeyTooLong,
        },
{
    if u > MAX_KEY_LEN {
        Err(Failure::KeyTooLong)
    } else {
        let ks = [(u / 256) as u8, (u % 256) as u8];
        proof {
            reveal_with_fuel(be_bytes, 3);
            assert(ks@ =~= be_bytes(u as nat, PREFIX_LEN as nat));
        }
        Ok(ks)
    }
}

/// Starts a frame: the opcode, then the correlation id in sixteen bytes.
fn header(opcode: u8, id: CorrelationId) -> (c: Bytes)
    ensures
        c@ == seq![opcode] + be_bytes(id as nat, UUID_LEN as nat),
{
    let mut c: Vec<u8> = Vec::new();
    c.push(opcode);
    push_be(&mut c, id, UUID_LEN);
    c
}

/// Starts the frame of a command that has a key: header, key length, key.
fn keyed(opcode: u8, id: CorrelationId, key: Bytes) -> (r: Result<Bytes, Failure>)
    ensures
        match r {
            Ok(c) => key@.len() <= MAX_KEY_LEN && c@ == seq![opcode] + be_bytes(
                id as nat,
                UUID_LEN as nat,
            ) + be_bytes(key@.len(), PREFIX_LEN as nat) + key@,
            Err(e) => key@.len() > MAX_KEY_LEN && e == Failure::KeyTooLong,
        },
{
    match usize_to_bytes(key.len()) {
        Err(e) => Err(e),
        Ok(ks) => {
            let mut key = key;
            let mut c = header(opcode, id);
            c.push(ks[0]);
            c.push(ks[1]);
            assert(c@ == seq![opcode] + be_bytes(id as nat, UUID_LEN as nat) + ks@);
            c.append(&mut key);
            Ok(c)
        },
    }
}

impl Request {
    /// Encodes the request into a frame bound to correlation id `id`.
    ///
    /// Fails with `KeyTooLong`, and builds nothing, exactly when the key is
    /// longer than 65535 bytes.
    pub fn encode(self, id: CorrelationId) -> (r: Result<Packet, Failure>)
        ensures
            match r {
                Ok(p) => self@.fits() && p.uuid == id && p.cont@ == self@.frame(id),
                Err(e) => !self@.fits() && e == Failure::KeyTooLong,
            },
    {
        let built = match self {
            Request::Ping => Ok(header(OP_PING, id)),
            Request::Get(key) => keyed(OP_GET, id, key),
            Request::Put(key, val) => match keyed(OP_SET, id, key) {
                Err(e) => Err(e),
                Ok(c) => {
                    let mut c = c;
                    let mut val = val;
                    c.append(&mut val);
                    Ok(c)
                },
            },
            Request::Unset(key) => keyed(OP_UNSET, id, key),
        };
        match built {
            Ok(cont) => Ok(Packet { cont, uuid: id }),
            Err(e) => Err(e),
        }
    }

    /// Reads a request frame: the inverse of [`Request::encode`].
    ///
    /// Returns the correlation id and the request that `frame` encodes, or
    /// `Truncated` where the frame ends before its fields do and `Malformed`
    /// where it holds an unknown opcode or bytes past its last field.
    pub fn parse(frame: &[u8]) -> (r: Result<(CorrelationId, Request), FrameError>)
        ensures
            parse_view(r) == parsed(frame@),
    {
        let n = frame.len();
        if n < HEADER_LEN {
            return Err(FrameError::Truncated);
        }
        let id = match from_slice(slice_subrange(frame, 1, HEADER_LEN)) {
            Ok(id) => id,
            Err(_) => {
                return Err(FrameError::Malformed);
            },
        };
        let op = frame[0];
        if op == OP_PING {
            if n == HEADER_LEN {
                Ok((id, Request::Ping))
            } else {
                Err(FrameError::Malformed)
            }
        } else if op == OP_GET || op == OP_SET || op == OP_UNSET {
            let start = HEADER_LEN + PREFIX_LEN;
            if n < start {
                return Err(FrameError::Truncated);
            }
            let klen = frame[HEADER_LEN] as usize * 256 + frame[HEADER_LEN + 1] as usize;
            proof {
                let prefix = frame@.subrange(HEADER_LEN as int, start as int);
                reveal_with_fuel(be_value, 3);
                assert(prefix.drop_last().drop_last().len() == 0);
                assert(be_value(prefix) == klen);
            }
            if n - start < klen {
                return Err(FrameError::Truncated);
            }
            let end = start + klen;
            let key = slice_to_vec(slice_subrange(frame, start, end));
            if op == OP_SET {
                let val = slice_to_vec(slice_subrange(frame, end, n));
                Ok((id, Request::Put(key, val)))
            } else if n > end {
                Err(FrameError::Malformed)
            } else if op == OP_GET {
                Ok((id, Request::Get(key)))
            } else {
                Ok((id, Request::Unset(key)))
            }
        } else {
            Err(FrameError::Malformed)
        }
    }

    /// Encodes the request into a frame bound to a fresh correlation id.
    ///
    /// Which id is drawn is not determined; whatever it is, the frame is the
    /// encoding of this request under it. Fails with `KeyTooLong` exactly when
    /// the key is longer than 65535 bytes.
    pub fn issue(self) -> (r: Result<Packet, Failure>)
        ensures
            match r {
                Ok(p) => self@.fits() && is_random(p.uuid) && p.cont@ == self@.frame(p.uuid),
                Err(e) => !self@.fits() && e == Failure::KeyTooLong,
            },
    {
        let id = new_v4();
        self.encode(id)
    }
}

} // verus!
