//! The session transport: one request/response exchange over an abstract
//! duplex byte transport, with `Incomplete`-driven frame reassembly.

use vstd::prelude::*;

use crate::decode;
use crate::decode_spec;
use crate::encode;
use crate::frame_spec;
use crate::opcode_spec;
use crate::payload_spec;
use crate::response_rel;
use crate::Command;
use crate::Response;
use crate::MAX_PACKET_SIZE;

verus! {

/// A failure of the underlying byte transport.
#[derive(Clone, Copy, Debug, PartialEq, Eq, Structural)]
pub enum TransportError {
    /// The bounded read timed out before any byte arrived.
    TimedOut,
    /// Any other transport fault.
    Other,
}

/// A failure of one session operation.
#[derive(Clone, Copy, Debug, PartialEq, Eq, Structural)]
pub enum Error {
    /// The frame or its payload failed protocol validation.
    Protocol(crate::Error),
    /// The underlying transport failed.
    Transport(TransportError),
    /// A read yielded zero bytes mid-frame: the remote end closed.
    UnexpectedEof,
}

/// True when `later` is `earlier` with zero or more bytes appended: how a
/// transport's byte histories grow.
pub open spec fn extends(earlier: Seq<u8>, later: Seq<u8>) -> bool {
    earlier.len() <= later.len() && later.take(earlier.len() as int) == earlier
}

/// The bytes added to a byte history after a point: with `extends`, what
/// one call consumed or produced.
pub open spec fn history_delta(earlier: Seq<u8>, later: Seq<u8>) -> Seq<u8> {
    later.skip(earlier.len() as int)
}

/// An abstract duplex byte transport: bounded-timeout reads, whole-buffer
/// writes, and flush. The library never implements it; an open serial
/// port or a test double does, outside the verified code, so these
/// contracts are the session's trust boundary. `sent` and `recvd` model
/// the bytes handed to the transport and yielded by it so far; `avail`
/// bounds the bytes its reads will still yield, which is what makes
/// draining terminate.
pub trait Transport {
    /// Every byte handed to the transport so far, in order.
    open spec fn sent(&self) -> Seq<u8> {
        Seq::empty()
    }

    /// Every byte the transport has yielded to reads so far, in order.
    open spec fn recvd(&self) -> Seq<u8> {
        Seq::empty()
    }

    /// An upper bound on the bytes the transport will still yield.
    open spec fn avail(&self) -> nat {
        0
    }

    /// Reads at most `max` bytes, zero meaning idle or closed. The bytes
    /// of a successful read are exactly what the yielded history gains; a
    /// failed read yields nothing.
    fn read_some(&mut self, max: usize) -> (r: Result<Vec<u8>, TransportError>)
        requires
            max >= 1,
        ensures
            final(self).sent() == old(self).sent(),
            r matches Ok(v) ==> {
                &&& v@.len() <= max
                &&& final(self).avail() + v@.len() <= old(self).avail()
                &&& final(self).recvd() == old(self).recvd() + v@
            },
            r is Err ==> final(self).recvd() == old(self).recvd(),
    ;

    /// Hands the whole buffer to the transport; on failure no byte of it
    /// counts as sent.
    fn write_all(&mut self, data: &[u8]) -> (r: Result<(), TransportError>)
        ensures
            r is Ok ==> final(self).sent() == old(self).sent() + data@,
            r is Err ==> final(self).sent() == old(self).sent(),
            final(self).recvd() == old(self).recvd(),
    ;

    /// Flushes buffered output toward the device.
    fn flush(&mut self) -> (r: Result<(), TransportError>)
        ensures
            final(self).sent() == old(self).sent(),
            final(self).recvd() == old(self).recvd(),
    ;
}

/// One session over a transport: the device address used for requests and
/// the receive buffer, owned by the session and logically reset at the
/// start of every receive so that stale bytes are never taken for
/// protocol data.
pub struct Device<P> {
    port: P,
    buf: Vec<u8>,
    addr: u8,
}

impl<P: Transport> Device<P> {
    /// The transport this session owns.
    pub closed spec fn spec_port(&self) -> P {
        self.port
    }

    /// The device address written into every request frame.
    pub closed spec fn spec_addr(&self) -> u8 {
        self.addr
    }

    /// The bytes of the receive buffer.
    pub closed spec fn spec_buf(&self) -> Seq<u8> {
        self.buf@
    }

    /// Creates a session from an already-open transport and an address.
    pub fn new(port: P, addr: u8) -> (r: Device<P>)
        ensures
            r.spec_port() == port,
            r.spec_addr() == addr,
    {
        Device { port, buf: Vec::new(), addr }
    }

    /// Reads and discards pending bytes until the transport reports idle
    /// or times out, and returns how many bytes were discarded: exactly
    /// the bytes the transport yielded during this call (saturating at
    /// `usize::MAX`), and never more than it had available.
    #[verifier::loop_isolation(false)]
    pub fn clear(&mut self) -> (r: Result<usize, Error>)
        ensures
            final(self).spec_addr() == old(self).spec_addr(),
            extends(old(self).spec_port().recvd(), final(self).spec_port().recvd()),
            r matches Ok(n) ==> {
                let consumed = final(self).spec_port().recvd().len() - old(
                    self,
                ).spec_port().recvd().len();
                &&& n <= old(self).spec_port().avail()
                &&& if consumed <= usize::MAX {
                    n == consumed
                } else {
                    n == usize::MAX
                }
            },
            r matches Err(e) ==> e == Error::Transport(TransportError::Other),
    {
        let mut total: usize = 0;
        proof {
            assert(self.port.recvd().take(self.port.recvd().len() as int) =~= self.port.recvd());
        }
        loop
            invariant
                self.addr == old(self).addr,
                total + self.port.avail() <= old(self).port.avail(),
                extends(old(self).port.recvd(), self.port.recvd()),
                ({
                    let consumed = self.port.recvd().len() - old(self).port.recvd().len();
                    if consumed <= usize::MAX {
                        total == consumed
                    } else {
                        total == usize::MAX
                    }
                }),
            decreases self.port.avail(),
        {
            let ghost seen = self.port.recvd();
            match self.port.read_some(MAX_PACKET_SIZE) {
                Ok(chunk) => {
                    proof {
                        assert(self.port.recvd().take(old(self).port.recvd().len() as int)
                            =~= old(self).port.recvd());
                    }
                    if chunk.len() == 0 {
                        proof {
                            assert(self.port.recvd() =~= seen);
                        }
                        return Ok(total);
                    }
                    let n = chunk.len();
                    if total <= usize::MAX - n {
                        total = total + n;
                    } else {
                        total = usize::MAX;
                    }
                },
                Err(TransportError::TimedOut) => {
                    return Ok(total);
                },
                Err(e) => {
                    return Err(Error::Transport(e));
                },
            }
        }
    }

    /// Encodes the command and hands the complete frame to the transport,
    /// then flushes: on success, exactly the frame's bytes and nothing
    /// else were handed over.
    pub fn send(&mut self, command: &Command) -> (r: Result<(), Error>)
        requires
            payload_spec(*command).len() <= 64,
        ensures
            final(self).spec_addr() == old(self).spec_addr(),
            final(self).spec_port().recvd() == old(self).spec_port().recvd(),
            r is Ok ==> final(self).spec_port().sent() == old(self).spec_port().sent()
                + frame_spec(
                old(self).spec_addr(),
                opcode_spec(*command),
                payload_spec(*command),
            ),
            r matches Err(e) ==> {
                let before = old(self).spec_port().sent();
                let after = final(self).spec_port().sent();
                let frame = frame_spec(
                    old(self).spec_addr(),
                    opcode_spec(*command),
                    payload_spec(*command),
                );
                &&& e matches Error::Transport(_)
                &&& (after == before || after == before + frame)
            },
    {
        let payload = command.data();
        let frame = encode(self.addr, command.cmd(), payload.as_slice());
        match self.port.write_all(frame.as_slice()) {
            Ok(_) => {},
            Err(e) => {
                return Err(Error::Transport(e));
            },
        }
        match self.port.flush() {
            Ok(_) => Ok(()),
            Err(e) => Err(Error::Transport(e)),
        }
    }

    /// Receives one frame: starting from an empty buffer, repeatedly
    /// decodes what has accumulated, reading exactly the missing byte
    /// count from the transport whenever decoding reports `Incomplete`,
    /// then dispatches the validated payload by opcode. The receive
    /// buffer holds exactly the bytes the transport yielded during this
    /// call — stale bytes never count as protocol data — and on success
    /// it ends at the one frame's checksum byte, so nothing beyond the
    /// frame is consumed.
    #[verifier::loop_isolation(false)]
    pub fn recv(&mut self) -> (r: Result<(u8, Response), Error>)
        ensures
            final(self).spec_addr() == old(self).spec_addr(),
            extends(old(self).spec_port().recvd(), final(self).spec_port().recvd()),
            final(self).spec_buf() == history_delta(
                old(self).spec_port().recvd(),
                final(self).spec_port().recvd(),
            ),
            r matches Ok((addr, resp)) ==> {
                &&& decode_spec(final(self).spec_buf()) matches Ok((a, cmd, data))
                &&& a == addr
                &&& response_rel(cmd, data, Ok(resp))
                &&& final(self).spec_buf().len() == 6 + final(self).spec_buf()[4]
            },
            // A terminal protocol failure reports exactly what the bytes
            // read so far decode to; `Incomplete` is the session's
            // internal retry signal and never escapes a receive.
            r matches Err(Error::Protocol(e)) ==> {
                &&& !(e matches crate::Error::Incomplete(_))
                &&& match decode_spec(final(self).spec_buf()) {
                    Ok((a2, cmd2, data2)) => response_rel(cmd2, data2, Err(e)),
                    Err(e2) => e2 == e,
                }
            },
            // End of stream is reported only mid-frame: what was read
            // still decodes to `Incomplete`.
            r matches Err(Error::UnexpectedEof) ==> decode_spec(final(self).spec_buf()) matches Err(
                crate::Error::Incomplete(_),
            ),
    {
        self.buf.clear();
        proof {
            assert(self.port.recvd().take(self.port.recvd().len() as int) =~= self.port.recvd());
            assert(self.port.recvd().skip(self.port.recvd().len() as int) =~= Seq::<u8>::empty());
        }
        loop
            invariant
                self.addr == old(self).addr,
                self.buf@.len() <= 261,
                self.buf@.len() <= 6 || self.buf@.len() <= 6 + self.buf@[4],
                extends(old(self).port.recvd(), self.port.recvd()),
                self.buf@ == history_delta(old(self).port.recvd(), self.port.recvd()),
            decreases 261 - self.buf@.len(),
        {
            match decode(self.buf.as_slice()) {
                Ok((addr, cmd, data)) => {
                    match Response::decode(cmd, data.as_slice()) {
                        Ok(resp) => {
                            return Ok((addr, resp));
                        },
                        Err(e) => {
                            return Err(Error::Protocol(e));
                        },
                    }
                },
                Err(crate::Error::Incomplete(total)) => {
                    assert(self.buf@.len() < total <= 261);
                    let want = total - self.buf.len();
                    match self.port.read_some(want) {
                        Ok(chunk) => {
                            proof {
                                assert(self.port.recvd().take(
                                    old(self).port.recvd().len() as int,
                                ) =~= old(self).port.recvd());
                                assert((self.buf@ + chunk@) =~= history_delta(
                                    old(self).port.recvd(),
                                    self.port.recvd(),
                                ));
                            }
                            if chunk.len() == 0 {
                                proof {
                                    assert(self.buf@ =~= self.buf@ + chunk@);
                                }
                                return Err(Error::UnexpectedEof);
                            }
                            let mut chunk = chunk;
                            self.buf.append(&mut chunk);
                        },
                        Err(e) => {
                            return Err(Error::Transport(e));
                        },
                    }
                },
                Err(e) => {
                    return Err(Error::Protocol(e));
                },
            }
        }
    }
}

} // verus!
