//! The post-handshake secure stream codec.
//!
//! Outgoing plaintext becomes `ciphertext ‖ MAC` (encrypt-then-MAC);
//! incoming frames have their MAC verified before anything is decrypted
//! (verify-then-decrypt), and a frame that fails verification leaves the
//! cipher state untouched. The codec works frame by frame: length-prefixed
//! transport framing is the caller's concern.

use vstd::prelude::*;

use crate::aes::{aes256_ctr_keystream, lemma_xor_involution, xor_bytes};
use crate::cipher::{Decryptor, Encryptor};
use crate::hash::{Signer, Verifier};
use crate::sha2::{hmac_sha256_of, max_hash_input};
use crate::shared::{SharedAlgorithms, SharedView};
use crate::SecioError;

verus! {

/// Mathematical image of a secure stream: the session key material and
/// positions, the decrypted bytes not yet handed to the reader, and whether
/// the stream has been closed.
pub struct SecStreamView {
    pub algos: SharedView,
    pub buffered: Seq<u8>,
    pub done: bool,
}

/// The ciphertext this session would produce for plaintext `p` right now.
pub open spec fn spec_ciphertext(s: SharedView, p: Seq<u8>) -> Seq<u8> {
    xor_bytes(p, aes256_ctr_keystream(s.encryptor.key, s.encryptor.iv, s.encryptor.offset, p.len()))
}

/// The frame `encode` produces for plaintext `p` in session state `s`:
/// the ciphertext followed by its MAC.
pub open spec fn spec_encode_frame(s: SharedView, p: Seq<u8>) -> Seq<u8> {
    spec_ciphertext(s, p) + hmac_sha256_of(s.signer, spec_ciphertext(s, p))
}

/// The plaintext this session recovers from ciphertext `ct` right now.
pub open spec fn spec_decode_ciphertext(s: SharedView, ct: Seq<u8>) -> Seq<u8> {
    xor_bytes(
        ct,
        aes256_ctr_keystream(s.decryptor.key, s.decryptor.iv, s.decryptor.offset, ct.len()),
    )
}

/// The session state after sending `n` plaintext bytes.
pub open spec fn spec_after_send(s: SharedView, n: nat) -> SharedView {
    SharedView { encryptor: s.encryptor.advanced(n), ..s }
}

/// The session state after receiving `n` ciphertext bytes.
pub open spec fn spec_after_receive(s: SharedView, n: nat) -> SharedView {
    SharedView { decryptor: s.decryptor.advanced(n), ..s }
}

/// A frame shorter than one MAC can carry no message.
pub open spec fn spec_frame_ok(frame: Seq<u8>) -> bool {
    frame.len() >= 32
}

/// Whether `frame`'s trailing MAC verifies under session state `s`.
pub open spec fn spec_mac_ok(s: SharedView, frame: Seq<u8>) -> bool {
    frame.skip(frame.len() - 32) == hmac_sha256_of(s.verifier, frame.take(frame.len() - 32))
}

/// The message-oriented encrypted channel layered over an already-framed
/// transport.
#[derive(Debug)]
pub struct SecStream {
    algos: SharedAlgorithms,
    buffer: Vec<u8>,
    pos: usize,
    done: bool,
}

impl View for SecStream {
    type V = SecStreamView;

    closed spec fn view(&self) -> SecStreamView {
        SecStreamView {
            algos: self.algos@,
            buffered: self.buffer@.skip(self.pos as int),
            done: self.done,
        }
    }
}

impl SecStream {
    /// Internal consistency: the read cursor sits inside the buffer and the
    /// key material is well-formed.
    pub closed spec fn wf(&self) -> bool {
        self.pos <= self.buffer@.len() && self.algos@.wf()
    }

    /// Wraps the negotiated session algorithms into an open stream.
    pub fn new(algos: SharedAlgorithms) -> (s: SecStream)
        requires
            algos@.wf(),
        ensures
            s.wf(),
            s@.algos == algos@,
            s@.buffered == Seq::<u8>::empty(),
            !s@.done,
    {
        let s = SecStream { algos, buffer: Vec::new(), pos: 0, done: false };
        proof {
            assert(s@.buffered =~= Seq::<u8>::empty());
        }
        s
    }

    /// Marks the stream closed; `encode` and `decode` fail from then on.
    pub fn close(&mut self)
        requires
            old(self).wf(),
        ensures
            final(self).wf(),
            final(self)@ == (SecStreamView { done: true, ..old(self)@ }),
    {
        self.done = true;
    }

    /// Send: encrypts `item` with the local cipher state, appends the MAC of
    /// the ciphertext, and returns the frame to put on the wire. Advances
    /// the sending cipher position by the plaintext length, so frames must
    /// leave in the order produced.
    pub fn encode(&mut self, item: &[u8]) -> (r: Result<Vec<u8>, SecioError>)
        requires
            old(self).wf(),
            old(self)@.algos.encryptor.offset + item@.len() <= u64::MAX,
            item@.len() < max_hash_input(),
        ensures
            final(self).wf(),
            old(self)@.done ==> r is Err && r->Err_0 == SecioError::UnexpectedEof && final(self)@
                == old(self)@,
            !old(self)@.done ==> r is Ok && (r->Ok_0)@ == spec_encode_frame(
                old(self)@.algos,
                item@,
            ) && (r->Ok_0)@.len() == item@.len() + 32 && final(self)@ == (SecStreamView {
                algos: spec_after_send(old(self)@.algos, item@.len() as nat),
                ..old(self)@
            }),
    {
        if self.done {
            return Err(SecioError::UnexpectedEof);
        }
        let mut data = match self.algos.encrypt(item) {
            Ok(d) => d,
            Err(_) => unreached(),
        };
        let mac = self.algos.sign(data.as_slice());
        data.extend_from_slice(mac.as_slice());
        Ok(data)
    }

    /// Receive: splits the trailing MAC off `msg`, verifies it before
    /// anything is decrypted, and only then decrypts the remainder with the
    /// remote cipher state. A bad MAC leaves the stream exactly as it was
    /// and yields no bytes.
    pub fn decode(&mut self, msg: &[u8]) -> (r: Result<Vec<u8>, SecioError>)
        requires
            old(self).wf(),
            old(self)@.algos.decryptor.offset + msg@.len() <= u64::MAX,
            msg@.len() < max_hash_input(),
        ensures
            final(self).wf(),
            old(self)@.done ==> r is Err && r->Err_0 == SecioError::UnexpectedEof && final(self)@
                == old(self)@,
            !old(self)@.done && !spec_frame_ok(msg@) ==> r is Err && r->Err_0
                == SecioError::MalformedMessage && final(self)@ == old(self)@,
            !old(self)@.done && spec_frame_ok(msg@) && !spec_mac_ok(old(self)@.algos, msg@)
                ==> r is Err && r->Err_0 == SecioError::MacVerificationFailed && final(self)@
                == old(self)@,
            !old(self)@.done && spec_frame_ok(msg@) && spec_mac_ok(old(self)@.algos, msg@)
                ==> r is Ok && (r->Ok_0)@ == spec_decode_ciphertext(
                old(self)@.algos,
                msg@.take(msg@.len() - 32),
            ) && final(self)@ == (SecStreamView {
                algos: spec_after_receive(old(self)@.algos, (msg@.len() - 32) as nat),
                ..old(self)@
            }),
    {
        if self.done {
            return Err(SecioError::UnexpectedEof);
        }
        let n = msg.len();
        if n < 32 {
            return Err(SecioError::MalformedMessage);
        }
        let data_len = n - 32;
        let ct = vstd::slice::slice_subrange(msg, 0, data_len);
        let mac = vstd::slice::slice_subrange(msg, data_len, n);
        proof {
            assert(ct@ =~= msg@.take(msg@.len() - 32));
            assert(mac@ =~= msg@.skip(msg@.len() - 32));
        }
        match self.algos.verify(ct, mac) {
            Ok(_) => {},
            Err(_) => {
                return Err(SecioError::MacVerificationFailed);
            },
        }
        let pt = match self.algos.decrypt(ct) {
            Ok(p) => p,
            Err(_) => unreached(),
        };
        Ok(pt)
    }

    /// Decodes one incoming frame and queues its plaintext behind whatever
    /// is already buffered for the reader.
    pub fn feed_frame(&mut self, msg: &[u8]) -> (r: Result<(), SecioError>)
        requires
            old(self).wf(),
            old(self)@.algos.decryptor.offset + msg@.len() <= u64::MAX,
            msg@.len() < max_hash_input(),
        ensures
            final(self).wf(),
            old(self)@.done ==> r is Err && r->Err_0 == SecioError::UnexpectedEof && final(self)@
                == old(self)@,
            !old(self)@.done && !spec_frame_ok(msg@) ==> r is Err && r->Err_0
                == SecioError::MalformedMessage && final(self)@ == old(self)@,
            !old(self)@.done && spec_frame_ok(msg@) && !spec_mac_ok(old(self)@.algos, msg@)
                ==> r is Err && r->Err_0 == SecioError::MacVerificationFailed && final(self)@
                == old(self)@,
            !old(self)@.done && spec_frame_ok(msg@) && spec_mac_ok(old(self)@.algos, msg@)
                ==> r is Ok && final(self)@ == (SecStreamView {
                algos: spec_after_receive(old(self)@.algos, (msg@.len() - 32) as nat),
                buffered: old(self)@.buffered + spec_decode_ciphertext(
                    old(self)@.algos,
                    msg@.take(msg@.len() - 32),
                ),
                ..old(self)@
            }),
    {
        let pt = match self.decode(msg) {
            Ok(p) => p,
            Err(e) => {
                return Err(e);
            },
        };
        self.buffer.extend_from_slice(pt.as_slice());
        proof {
            assert(final(self)@.buffered =~= old(self)@.buffered + pt@);
        }
        Ok(())
    }

    /// Takes up to `max` bytes from the front of the read buffer; returns
    /// fewer only when fewer are buffered.
    pub fn read_buffered(&mut self, max: usize) -> (r: Vec<u8>)
        requires
            old(self).wf(),
        ensures
            final(self).wf(),
            r@ == old(self)@.buffered.take(
                if max as int <= old(self)@.buffered.len() as int {
                    max as int
                } else {
                    old(self)@.buffered.len() as int
                },
            ),
            final(self)@ == (SecStreamView {
                buffered: old(self)@.buffered.skip(r@.len() as int),
                ..old(self)@
            }),
    {
        let avail = self.buffer.len() - self.pos;
        let k = if max < avail {
            max
        } else {
            avail
        };
        let out = vstd::slice::slice_to_vec(
            vstd::slice::slice_subrange(self.buffer.as_slice(), self.pos, self.pos + k),
        );
        self.pos = self.pos + k;
        proof {
            assert(out@ =~= old(self)@.buffered.take(k as int));
            assert(final(self)@.buffered =~= old(self)@.buffered.skip(k as int));
        }
        out
    }

    /// How many keystream bytes the sending direction has consumed.
    pub fn send_offset(&self) -> (r: u64)
        ensures
            r == self@.algos.encryptor.offset,
    {
        self.algos.encryptor_offset()
    }

    /// How many keystream bytes the receiving direction has consumed.
    pub fn recv_offset(&self) -> (r: u64)
        ensures
            r == self@.algos.decryptor.offset,
    {
        self.algos.decryptor_offset()
    }

    /// How many decoded bytes wait in the read buffer.
    pub fn buffered_len(&self) -> (r: usize)
        requires
            self.wf(),
        ensures
            r == self@.buffered.len(),
    {
        self.buffer.len() - self.pos
    }
}

/// Round trip: if the receiver's cipher state equals the sender's and its
/// MAC verification key equals the sender's MAC signing key, then — given
/// the primitive's fixed output lengths (32-byte MACs, a keystream as long
/// as its window) — an encoded frame passes the receiver's MAC check and
/// decodes to exactly the plaintext that was sent, for every plaintext.
pub proof fn lemma_round_trip(sender: SharedView, receiver: SharedView, p: Seq<u8>)
    requires
        receiver.decryptor == sender.encryptor,
        receiver.verifier == sender.signer,
    ensures
        ({
            let frame = spec_encode_frame(sender, p);
            let ks = aes256_ctr_keystream(
                sender.encryptor.key,
                sender.encryptor.iv,
                sender.encryptor.offset,
                p.len(),
            );
            hmac_sha256_of(sender.signer, spec_ciphertext(sender, p)).len() == 32 && ks.len()
                == p.len() ==> {
                &&& frame.len() == p.len() + 32
                &&& spec_frame_ok(frame)
                &&& spec_mac_ok(receiver, frame)
                &&& spec_decode_ciphertext(receiver, frame.take(frame.len() - 32)) == p
                &&& spec_after_receive(receiver, p.len()).decryptor == spec_after_send(
                    sender,
                    p.len(),
                ).encryptor
                &&& spec_after_receive(receiver, p.len()).verifier == spec_after_send(
                    sender,
                    p.len(),
                ).signer
            }
        }),
{
    let ct = spec_ciphertext(sender, p);
    let mac = hmac_sha256_of(sender.signer, ct);
    let frame = spec_encode_frame(sender, p);
    let ks = aes256_ctr_keystream(
        sender.encryptor.key,
        sender.encryptor.iv,
        sender.encryptor.offset,
        p.len(),
    );
    if mac.len() == 32 && ks.len() == p.len() {
        assert(frame.take(frame.len() - 32) =~= ct);
        assert(frame.skip(frame.len() - 32) =~= mac);
        assert(spec_decode_ciphertext(receiver, ct) == p) by {
            lemma_xor_involution(p, ks);
        }
    }
}

/// Tampering with the MAC: take an authentic frame and change any of its
/// trailing MAC bytes while leaving the ciphertext alone; the altered
/// frame's MAC no longer verifies, so `decode` rejects it with
/// `MacVerificationFailed` and yields no plaintext (that rejection is
/// `decode`'s contract).
pub proof fn lemma_mac_tamper_rejected(s: SharedView, frame: Seq<u8>, tampered: Seq<u8>)
    requires
        frame.len() >= 32,
        tampered.len() == frame.len(),
        tampered.take(tampered.len() - 32) == frame.take(frame.len() - 32),
        tampered != frame,
    ensures
        spec_mac_ok(s, frame) ==> !spec_mac_ok(s, tampered),
{
    if spec_mac_ok(s, frame) && spec_mac_ok(s, tampered) {
        assert(tampered.skip(tampered.len() - 32) == frame.skip(frame.len() - 32));
        assert forall|i: int| 0 <= i < frame.len() implies tampered[i] == frame[i] by {
            if i < frame.len() - 32 {
                assert(tampered.take(tampered.len() - 32)[i] == frame.take(frame.len() - 32)[i]);
            } else {
                assert(tampered.skip(tampered.len() - 32)[i - (frame.len() - 32)] == frame.skip(
                    frame.len() - 32,
                )[i - (frame.len() - 32)]);
            }
        }
        assert(tampered =~= frame);
    }
}

} // verus!
