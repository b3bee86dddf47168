//! The two negotiation messages and their wire form.
//!
//! `Propose` and `Exchange` are plain field records; each field is optional,
//! mirroring the wire schema where every field may be absent. The wire form
//! is the standard length-delimited record encoding: each present field is
//! `tag byte ‖ varint length ‖ payload`, with fixed field numbers
//! (Propose: 1=rand, 2=pubkey, 3=exchanges, 4=ciphers, 5=hashes;
//! Exchange: 1=epubkey, 2=signature).

use vstd::prelude::*;

use crate::SecioError;

verus! {

/// Mathematical image of a `Propose`: each field either absent or a byte
/// sequence.
pub struct ProposeView {
    pub rand: Option<Seq<u8>>,
    pub pubkey: Option<Seq<u8>>,
    pub exchanges: Option<Seq<u8>>,
    pub ciphers: Option<Seq<u8>>,
    pub hashes: Option<Seq<u8>>,
}

/// Mathematical image of an `Exchange`.
pub struct ExchangeView {
    pub epubkey: Option<Seq<u8>>,
    pub signature: Option<Seq<u8>>,
}

pub open spec fn view_opt_bytes(v: Option<Vec<u8>>) -> Option<Seq<u8>> {
    match v {
        Some(b) => Some(b@),
        None => None,
    }
}

/// First handshake message: a nonce, the sender's public identity key, and
/// the comma-joined algorithm name lists it supports.
#[derive(Debug)]
pub struct Propose {
    rand: Option<Vec<u8>>,
    pubkey: Option<Vec<u8>>,
    exchanges: Option<Vec<u8>>,
    ciphers: Option<Vec<u8>>,
    hashes: Option<Vec<u8>>,
}

impl View for Propose {
    type V = ProposeView;

    closed spec fn view(&self) -> ProposeView {
        ProposeView {
            rand: view_opt_bytes(self.rand),
            pubkey: view_opt_bytes(self.pubkey),
            exchanges: view_opt_bytes(self.exchanges),
            ciphers: view_opt_bytes(self.ciphers),
            hashes: view_opt_bytes(self.hashes),
        }
    }
}

/// Second handshake message: the sender's ephemeral public key and its
/// signature over the negotiation transcript.
#[derive(Debug)]
pub struct Exchange {
    epubkey: Option<Vec<u8>>,
    signature: Option<Vec<u8>>,
}

impl View for Exchange {
    type V = ExchangeView;

    closed spec fn view(&self) -> ExchangeView {
        ExchangeView {
            epubkey: view_opt_bytes(self.epubkey),
            signature: view_opt_bytes(self.signature),
        }
    }
}

impl Propose {
    pub fn new() -> (p: Propose)
        ensures
            p@.rand is None,
            p@.pubkey is None,
            p@.exchanges is None,
            p@.ciphers is None,
            p@.hashes is None,
    {
        Propose { rand: None, pubkey: None, exchanges: None, ciphers: None, hashes: None }
    }

    pub fn clear_rand(&mut self)
        ensures
            final(self)@ == (ProposeView { rand: None, ..old(self)@ }),
    {
        self.rand = None;
    }

    pub fn has_rand(&self) -> (r: bool)
        ensures
            r == (self@.rand is Some),
    {
        self.rand.is_some()
    }

    pub fn set_rand(&mut self, v: Vec<u8>)
        ensures
            final(self)@ == (ProposeView { rand: Some(v@), ..old(self)@ }),
    {
        self.rand = Some(v);
    }

    pub fn mut_rand(&mut self) -> (r: &mut Vec<u8>)
        ensures
            old(self)@.rand is Some ==> r@ == old(self)@.rand->0,
            old(self)@.rand is None ==> r@ == Seq::<u8>::empty(),
            final(self)@ == (ProposeView { rand: Some(final(r)@), ..old(self)@ }),
    {
        if self.rand.is_none() {
            self.rand = Some(Vec::new());
        }
        match &mut self.rand {
            Some(v) => v,
            None => unreached(),
        }
    }

    pub fn take_rand(&mut self) -> (r: Vec<u8>)
        ensures
            old(self)@.rand is Some ==> r@ == old(self)@.rand->0,
            old(self)@.rand is None ==> r@ == Seq::<u8>::empty(),
            final(self)@ == (ProposeView { rand: None, ..old(self)@ }),
    {
        let t = self.rand.take();
        match t {
            Some(v) => v,
            None => Vec::new(),
        }
    }

    pub fn get_rand(&self) -> (r: &[u8])
        ensures
            self@.rand is Some ==> r@ == self@.rand->0,
            self@.rand is None ==> r@ == Seq::<u8>::empty(),
    {
        match &self.rand {
            Some(v) => v.as_slice(),
            None => &[],
        }
    }

    pub fn clear_pubkey(&mut self)
        ensures
            final(self)@ == (ProposeView { pubkey: None, ..old(self)@ }),
    {
        self.pubkey = None;
    }

    pub fn has_pubkey(&self) -> (r: bool)
        ensures
            r == (self@.pubkey is Some),
    {
        self.pubkey.is_some()
    }

    pub fn set_pubkey(&mut self, v: Vec<u8>)
        ensures
            final(self)@ == (ProposeView { pubkey: Some(v@), ..old(self)@ }),
    {
        self.pubkey = Some(v);
    }

    pub fn mut_pubkey(&mut self) -> (r: &mut Vec<u8>)
        ensures
            old(self)@.pubkey is Some ==> r@ == old(self)@.pubkey->0,
            old(self)@.pubkey is None ==> r@ == Seq::<u8>::empty(),
            final(self)@ == (ProposeView { pubkey: Some(final(r)@), ..old(self)@ }),
    {
        if self.pubkey.is_none() {
            self.pubkey = Some(Vec::new());
        }
        match &mut self.pubkey {
            Some(v) => v,
            None => unreached(),
        }
    }

    pub fn take_pubkey(&mut self) -> (r: Vec<u8>)
        ensures
            old(self)@.pubkey is Some ==> r@ == old(self)@.pubkey->0,
            old(self)@.pubkey is None ==> r@ == Seq::<u8>::empty(),
            final(self)@ == (ProposeView { pubkey: None, ..old(self)@ }),
    {
        let t = self.pubkey.take();
        match t {
            Some(v) => v,
            None => Vec::new(),
        }
    }

    pub fn get_pubkey(&self) -> (r: &[u8])
        ensures
            self@.pubkey is Some ==> r@ == self@.pubkey->0,
            self@.pubkey is None ==> r@ == Seq::<u8>::empty(),
    {
        match &self.pubkey {
            Some(v) => v.as_slice(),
            None => &[],
        }
    }

    pub fn clear_exchanges(&mut self)
        ensures
            final(self)@ == (ProposeView { exchanges: None, ..old(self)@ }),
    {
        self.exchanges = None;
    }

    pub fn has_exchanges(&self) -> (r: bool)
        ensures
            r == (self@.exchanges is Some),
    {
        self.exchanges.is_some()
    }

    pub fn set_exchanges(&mut self, v: Vec<u8>)
        ensures
            final(self)@ == (ProposeView { exchanges: Some(v@), ..old(self)@ }),
    {
        self.exchanges = Some(v);
    }

    pub fn mut_exchanges(&mut self) -> (r: &mut Vec<u8>)
        ensures
            old(self)@.exchanges is Some ==> r@ == old(self)@.exchanges->0,
            old(self)@.exchanges is None ==> r@ == Seq::<u8>::empty(),
            final(self)@ == (ProposeView { exchanges: Some(final(r)@), ..old(self)@ }),
    {
        if self.exchanges.is_none() {
            self.exchanges = Some(Vec::new());
        }
        match &mut self.exchanges {
            Some(v) => v,
            None => unreached(),
        }
    }

    pub fn take_exchanges(&mut self) -> (r: Vec<u8>)
        ensures
            old(self)@.exchanges is Some ==> r@ == old(self)@.exchanges->0,
            old(self)@.exchanges is None ==> r@ == Seq::<u8>::empty(),
            final(self)@ == (ProposeView { exchanges: None, ..old(self)@ }),
    {
        let t = self.exchanges.take();
        match t {
            Some(v) => v,
            None => Vec::new(),
        }
    }

    pub fn get_exchanges(&self) -> (r: &[u8])
        ensures
            self@.exchanges is Some ==> r@ == self@.exchanges->0,
            self@.exchanges is None ==> r@ == Seq::<u8>::empty(),
    {
        match &self.exchanges {
            Some(v) => v.as_slice(),
            None => &[],
        }
    }

    pub fn clear_ciphers(&mut self)
        ensures
            final(self)@ == (ProposeView { ciphers: None, ..old(self)@ }),
    {
        self.ciphers = None;
    }

    pub fn has_ciphers(&self) -> (r: bool)
        ensures
            r == (self@.ciphers is Some),
    {
        self.ciphers.is_some()
    }

    pub fn set_ciphers(&mut self, v: Vec<u8>)
        ensures
            final(self)@ == (ProposeView { ciphers: Some(v@), ..old(self)@ }),
    {
        self.ciphers = Some(v);
    }

    pub fn mut_ciphers(&mut self) -> (r: &mut Vec<u8>)
        ensures
            old(self)@.ciphers is Some ==> r@ == old(self)@.ciphers->0,
            old(self)@.ciphers is None ==> r@ == Seq::<u8>::empty(),
            final(self)@ == (ProposeView { ciphers: Some(final(r)@), ..old(self)@ }),
    {
        if self.ciphers.is_none() {
            self.ciphers = Some(Vec::new());
        }
        match &mut self.ciphers {
            Some(v) => v,
            None => unreached(),
        }
    }

    pub fn take_ciphers(&mut self) -> (r: Vec<u8>)
        ensures
            old(self)@.ciphers is Some ==> r@ == old(self)@.ciphers->0,
            old(self)@.ciphers is None ==> r@ == Seq::<u8>::empty(),
            final(self)@ == (ProposeView { ciphers: None, ..old(self)@ }),
    {
        let t = self.ciphers.take();
        match t {
            Some(v) => v,
            None => Vec::new(),
        }
    }

    pub fn get_ciphers(&self) -> (r: &[u8])
        ensures
            self@.ciphers is Some ==> r@ == self@.ciphers->0,
            self@.ciphers is None ==> r@ == Seq::<u8>::empty(),
    {
        match &self.ciphers {
            Some(v) => v.as_slice(),
            None => &[],
        }
    }

    pub fn clear_hashes(&mut self)
        ensures
            final(self)@ == (ProposeView { hashes: None, ..old(self)@ }),
    {
        self.hashes = None;
    }

    pub fn has_hashes(&self) -> (r: bool)
        ensures
            r == (self@.hashes is Some),
    {
        self.hashes.is_some()
    }

    pub fn set_hashes(&mut self, v: Vec<u8>)
        ensures
            final(self)@ == (ProposeView { hashes: Some(v@), ..old(self)@ }),
    {
        self.hashes = Some(v);
    }

    pub fn mut_hashes(&mut self) -> (r: &mut Vec<u8>)
        ensures
            old(self)@.hashes is Some ==> r@ == old(self)@.hashes->0,
            old(self)@.hashes is None ==> r@ == Seq::<u8>::empty(),
            final(self)@ == (ProposeView { hashes: Some(final(r)@), ..old(self)@ }),
    {
        if self.hashes.is_none() {
            self.hashes = Some(Vec::new());
        }
        match &mut self.hashes {
            Some(v) => v,
            None => unreached(),
        }
    }

    pub fn take_hashes(&mut self) -> (r: Vec<u8>)
        ensures
            old(self)@.hashes is Some ==> r@ == old(self)@.hashes->0,
            old(self)@.hashes is None ==> r@ == Seq::<u8>::empty(),
            final(self)@ == (ProposeView { hashes: None, ..old(self)@ }),
    {
        let t = self.hashes.take();
        match t {
            Some(v) => v,
            None => Vec::new(),
        }
    }

    pub fn get_hashes(&self) -> (r: &[u8])
        ensures
            self@.hashes is Some ==> r@ == self@.hashes->0,
            self@.hashes is None ==> r@ == Seq::<u8>::empty(),
    {
        match &self.hashes {
            Some(v) => v.as_slice(),
            None => &[],
        }
    }
}

impl Exchange {
    pub fn new() -> (e: Exchange)
        ensures
            e@.epubkey is None,
            e@.signature is None,
    {
        Exchange { epubkey: None, signature: None }
    }

    pub fn clear_epubkey(&mut self)
        ensures
            final(self)@ == (ExchangeView { epubkey: None, ..old(self)@ }),
    {
        self.epubkey = None;
    }

    pub fn has_epubkey(&self) -> (r: bool)
        ensures
            r == (self@.epubkey is Some),
    {
        self.epubkey.is_some()
    }

    pub fn set_epubkey(&mut self, v: Vec<u8>)
        ensures
            final(self)@ == (ExchangeView { epubkey: Some(v@), ..old(self)@ }),
    {
        self.epubkey = Some(v);
    }

    pub fn mut_epubkey(&mut self) -> (r: &mut Vec<u8>)
        ensures
            old(self)@.epubkey is Some ==> r@ == old(self)@.epubkey->0,
            old(self)@.epubkey is None ==> r@ == Seq::<u8>::empty(),
            final(self)@ == (ExchangeView { epubkey: Some(final(r)@), ..old(self)@ }),
    {
        if self.epubkey.is_none() {
            self.epubkey = Some(Vec::new());
        }
        match &mut self.epubkey {
            Some(v) => v,
            None => unreached(),
        }
    }

    pub fn take_epubkey(&mut self) -> (r: Vec<u8>)
        ensures
            old(self)@.epubkey is Some ==> r@ == old(self)@.epubkey->0,
            old(self)@.epubkey is None ==> r@ == Seq::<u8>::empty(),
            final(self)@ == (ExchangeView { epubkey: None, ..old(self)@ }),
    {
        let t = self.epubkey.take();
        match t {
            Some(v) => v,
            None => Vec::new(),
        }
    }

    pub fn get_epubkey(&self) -> (r: &[u8])
        ensures
            self@.epubkey is Some ==> r@ == self@.epubkey->0,
            self@.epubkey is None ==> r@ == Seq::<u8>::empty(),
    {
        match &self.epubkey {
            Some(v) => v.as_slice(),
            None => &[],
        }
    }

    pub fn clear_signature(&mut self)
        ensures
            final(self)@ == (ExchangeView { signature: None, ..old(self)@ }),
    {
        self.signature = None;
    }

    pub fn has_signature(&self) -> (r: bool)
        ensures
            r == (self@.signature is Some),
    {
        self.signature.is_some()
    }

    pub fn set_signature(&mut self, v: Vec<u8>)
        ensures
            final(self)@ == (ExchangeView { signature: Some(v@), ..old(self)@ }),
    {
        self.signature = Some(v);
    }

    pub fn mut_signature(&mut self) -> (r: &mut Vec<u8>)
        ensures
            old(self)@.signature is Some ==> r@ == old(self)@.signature->0,
            old(self)@.signature is None ==> r@ == Seq::<u8>::empty(),
            final(self)@ == (ExchangeView { signature: Some(final(r)@), ..old(self)@ }),
    {
        if self.signature.is_none() {
            self.signature = Some(Vec::new());
        }
        match &mut self.signature {
            Some(v) => v,
            None => unreached(),
        }
    }

    pub fn take_signature(&mut self) -> (r: Vec<u8>)
        ensures
            old(self)@.signature is Some ==> r@ == old(self)@.signature->0,
            old(self)@.signature is None ==> r@ == Seq::<u8>::empty(),
            final(self)@ == (ExchangeView { signature: None, ..old(self)@ }),
    {
        let t = self.signature.take();
        match t {
            Some(v) => v,
            None => Vec::new(),
        }
    }

    pub fn get_signature(&self) -> (r: &[u8])
        ensures
            self@.signature is Some ==> r@ == self@.signature->0,
            self@.signature is None ==> r@ == Seq::<u8>::empty(),
    {
        match &self.signature {
            Some(v) => v.as_slice(),
            None => &[],
        }
    }
}

// ---------------------------------------------------------------------------
// Wire form
// ---------------------------------------------------------------------------

/// Base-128 varint encoding of `n`, least-significant group first; every
/// byte but the last has its high bit set.
pub open spec fn spec_varint(n: nat) -> Seq<u8>
    decreases n,
{
    if n < 128 {
        seq![n as u8]
    } else {
        seq![(128 + n % 128) as u8] + spec_varint(n / 128)
    }
}

/// Reads one varint from the head of `s`: the value and the number of bytes
/// consumed, or `None` if `s` ends inside the varint.
pub open spec fn spec_parse_varint(s: Seq<u8>) -> Option<(nat, nat)>
    decreases s.len(),
{
    if s.len() == 0 {
        None
    } else if s[0] < 128 {
        Some((s[0] as nat, 1nat))
    } else {
        match spec_parse_varint(s.skip(1)) {
            None => None,
            Some((v, used)) => Some((((s[0] - 128) + 128 * v) as nat, (used + 1) as nat)),
        }
    }
}

/// One length-delimited record: tag byte, varint payload length, payload.
pub open spec fn spec_record(tag: u8, payload: Seq<u8>) -> Seq<u8> {
    seq![tag] + spec_varint(payload.len()) + payload
}

/// The record for an optional field: absent fields contribute no bytes.
pub open spec fn spec_opt_record(tag: u8, f: Option<Seq<u8>>) -> Seq<u8> {
    match f {
        Some(p) => spec_record(tag, p),
        None => Seq::empty(),
    }
}

/// Reads one record from the head of `s`: field number, payload, and the
/// remaining bytes. Only single-byte tags with the length-delimited wire
/// type are part of this schema; anything else is malformed.
pub open spec fn spec_parse_record(s: Seq<u8>) -> Option<(nat, Seq<u8>, Seq<u8>)> {
    if s.len() == 0 {
        None
    } else if s[0] >= 128 || s[0] % 8 != 2 {
        None
    } else {
        match spec_parse_varint(s.skip(1)) {
            None => None,
            Some((len, used)) => {
                let rest = s.skip(1 + used as int);
                if len > rest.len() {
                    None
                } else {
                    Some(((s[0] / 8) as nat, rest.take(len as int), rest.skip(len as int)))
                }
            },
        }
    }
}

pub open spec fn spec_empty_propose() -> ProposeView {
    ProposeView { rand: None, pubkey: None, exchanges: None, ciphers: None, hashes: None }
}

pub open spec fn spec_empty_exchange() -> ExchangeView {
    ExchangeView { epubkey: None, signature: None }
}

/// Assigns one parsed record to its `Propose` field; a later record for the
/// same field wins. Unknown field numbers are rejected.
pub open spec fn spec_propose_with_field(acc: ProposeView, field: nat, payload: Seq<u8>) -> Option<
    ProposeView,
> {
    if field == 1 {
        Some(ProposeView { rand: Some(payload), ..acc })
    } else if field == 2 {
        Some(ProposeView { pubkey: Some(payload), ..acc })
    } else if field == 3 {
        Some(ProposeView { exchanges: Some(payload), ..acc })
    } else if field == 4 {
        Some(ProposeView { ciphers: Some(payload), ..acc })
    } else if field == 5 {
        Some(ProposeView { hashes: Some(payload), ..acc })
    } else {
        None
    }
}

pub open spec fn spec_exchange_with_field(acc: ExchangeView, field: nat, payload: Seq<u8>) -> Option<
    ExchangeView,
> {
    if field == 1 {
        Some(ExchangeView { epubkey: Some(payload), ..acc })
    } else if field == 2 {
        Some(ExchangeView { signature: Some(payload), ..acc })
    } else {
        None
    }
}

pub open spec fn spec_parse_propose_from(s: Seq<u8>, acc: ProposeView) -> Option<ProposeView>
    decreases s.len(),
{
    if s.len() == 0 {
        Some(acc)
    } else {
        match spec_parse_record(s) {
            None => None,
            Some((field, payload, rest)) => {
                if rest.len() >= s.len() {
                    None
                } else {
                    match spec_propose_with_field(acc, field, payload) {
                        None => None,
                        Some(acc2) => spec_parse_propose_from(rest, acc2),
                    }
                }
            },
        }
    }
}

pub open spec fn spec_parse_exchange_from(s: Seq<u8>, acc: ExchangeView) -> Option<ExchangeView>
    decreases s.len(),
{
    if s.len() == 0 {
        Some(acc)
    } else {
        match spec_parse_record(s) {
            None => None,
            Some((field, payload, rest)) => {
                if rest.len() >= s.len() {
                    None
                } else {
                    match spec_exchange_with_field(acc, field, payload) {
                        None => None,
                        Some(acc2) => spec_parse_exchange_from(rest, acc2),
                    }
                }
            },
        }
    }
}

/// What `Propose::parse_from_bytes` accepts, and the message it yields.
pub open spec fn spec_parse_propose(s: Seq<u8>) -> Option<ProposeView> {
    spec_parse_propose_from(s, spec_empty_propose())
}

/// What `Exchange::parse_from_bytes` accepts, and the message it yields.
pub open spec fn spec_parse_exchange(s: Seq<u8>) -> Option<ExchangeView> {
    spec_parse_exchange_from(s, spec_empty_exchange())
}

/// The serialized form of a `Propose`: present fields in field-number order.
pub open spec fn spec_encode_propose(p: ProposeView) -> Seq<u8> {
    spec_opt_record(10, p.rand) + spec_opt_record(18, p.pubkey) + spec_opt_record(26, p.exchanges)
        + spec_opt_record(34, p.ciphers) + spec_opt_record(42, p.hashes)
}

/// The serialized form of an `Exchange`.
pub open spec fn spec_encode_exchange(e: ExchangeView) -> Seq<u8> {
    spec_opt_record(10, e.epubkey) + spec_opt_record(18, e.signature)
}

/// Appends the varint encoding of `n` to `out`.
fn push_varint(out: &mut Vec<u8>, n: u64)
    ensures
        final(out)@ == old(out)@ + spec_varint(n as nat),
{
    let ghost target: Seq<u8> = old(out)@ + spec_varint(n as nat);
    let mut m: u64 = n;
    while m >= 128
        invariant
            target == out@ + spec_varint(m as nat),
        decreases m,
    {
        let ghost m0 = m as nat;
        out.push(((m % 128) as u8) + 128);
        m = m / 128;
        proof {
            assert(out@ + spec_varint(m as nat) =~= target);
        }
    }
    out.push(m as u8);
    proof {
        assert(out@ =~= target);
    }
}

/// Appends one record (tag, varint length, payload) to `out`.
fn push_record(out: &mut Vec<u8>, tag: u8, payload: &Vec<u8>)
    ensures
        final(out)@ == old(out)@ + spec_record(tag, payload@),
{
    out.push(tag);
    push_varint(out, payload.len() as u64);
    out.extend_from_slice(payload.as_slice());
    proof {
        assert(out@ =~= old(out)@ + spec_record(tag, payload@));
    }
}

/// Reads one varint from the head of `s`. Fails exactly where the
/// specification fails, or where the value does not fit in 64 bits.
fn parse_varint(s: &[u8]) -> (r: Result<(u64, usize), SecioError>)
    ensures
        r is Ok ==> spec_parse_varint(s@) == Some(
            (((r->Ok_0).0) as nat, ((r->Ok_0).1) as nat),
        ) && 1 <= (r->Ok_0).1 <= s@.len(),
        r is Err ==> r->Err_0 == SecioError::MalformedMessage && (spec_parse_varint(s@) is None
            || (spec_parse_varint(s@)->0).0 > u64::MAX),
    decreases s@.len(),
{
    if s.len() == 0 {
        return Err(SecioError::MalformedMessage);
    }
    let b = s[0];
    if b < 128 {
        return Ok((b as u64, 1));
    }
    let rest = vstd::slice::slice_subrange(s, 1, s.len());
    proof {
        assert(rest@ =~= s@.skip(1));
    }
    match parse_varint(rest) {
        Err(e) => Err(e),
        Ok((v, used)) => {
            if v >= 0x200000000000000u64 {
                // The full value would be at least 128 times this, past u64.
                return Err(SecioError::MalformedMessage);
            }
            let value: u64 = v * 128 + ((b - 128) as u64);
            Ok((value, used + 1))
        },
    }
}

proof fn lemma_parse_varint_used(s: Seq<u8>)
    requires
        spec_parse_varint(s) is Some,
    ensures
        1 <= (spec_parse_varint(s)->0).1 <= s.len(),
    decreases s.len(),
{
    if s.len() > 0 && s[0] >= 128 {
        lemma_parse_varint_used(s.skip(1));
    }
}

/// Reads one record from the head of `s`: field number, payload, bytes
/// consumed.
fn parse_record(s: &[u8]) -> (r: Result<(u8, Vec<u8>, usize), SecioError>)
    ensures
        r is Ok ==> {
            &&& spec_parse_record(s@) is Some
            &&& ((r->Ok_0).0) as nat == (spec_parse_record(s@)->0).0
            &&& ((r->Ok_0).1)@ == (spec_parse_record(s@)->0).1
            &&& s@.skip(((r->Ok_0).2) as int) == (spec_parse_record(s@)->0).2
            &&& 2 <= (r->Ok_0).2 <= s@.len()
        },
        r is Err ==> r->Err_0 == SecioError::MalformedMessage && spec_parse_record(s@) is None,
{
    let n = s.len();
    if n == 0 {
        return Err(SecioError::MalformedMessage);
    }
    let tag = s[0];
    if tag >= 128 || tag % 8 != 2 {
        return Err(SecioError::MalformedMessage);
    }
    let after_tag = vstd::slice::slice_subrange(s, 1, n);
    proof {
        assert(after_tag@ =~= s@.skip(1));
    }
    match parse_varint(after_tag) {
        Err(e) => {
            proof {
                // Either the length varint itself is malformed, or its value
                // is past u64::MAX and so certainly exceeds the bytes left.
                if spec_parse_varint(s@.skip(1)) is Some {
                    let len = (spec_parse_varint(s@.skip(1))->0).0;
                    let used = (spec_parse_varint(s@.skip(1))->0).1;
                    lemma_parse_varint_used(s@.skip(1));
                    assert(s@.skip(1 + used as int).len() <= s@.len());
                    assert(len > s@.skip(1 + used as int).len());
                }
            }
            Err(e)
        },
        Ok((len64, used)) => {
            let header: usize = 1 + used;
            let avail: usize = s.len() - header;
            proof {
                assert(s@.skip(1).skip(used as int) =~= s@.skip(1 + used as int));
                assert(s@.skip(1 + used as int).len() == avail);
            }
            if len64 > avail as u64 {
                return Err(SecioError::MalformedMessage);
            }
            let len = len64 as usize;
            let payload = vstd::slice::slice_to_vec(
                vstd::slice::slice_subrange(s, header, header + len),
            );
            proof {
                assert(payload@ =~= s@.skip(1 + used as int).take(len64 as int));
                assert(s@.skip((header + len) as int) =~= s@.skip(1 + used as int).skip(
                    len64 as int,
                ));
            }
            Ok((tag / 8, payload, header + len))
        },
    }
}

impl Propose {
    /// Serializes this message; the result is what `parse_from_bytes`
    /// inverts (`lemma_propose_roundtrip`).
    pub fn write_to_bytes(&self) -> (r: Vec<u8>)
        ensures
            r@ == spec_encode_propose(self@),
    {
        let mut out: Vec<u8> = Vec::new();
        if let Some(v) = &self.rand {
            push_record(&mut out, 10, v);
        }
        if let Some(v) = &self.pubkey {
            push_record(&mut out, 18, v);
        }
        if let Some(v) = &self.exchanges {
            push_record(&mut out, 26, v);
        }
        if let Some(v) = &self.ciphers {
            push_record(&mut out, 34, v);
        }
        if let Some(v) = &self.hashes {
            push_record(&mut out, 42, v);
        }
        proof {
            assert(out@ =~= spec_encode_propose(self@));
        }
        out
    }

    /// Number of bytes `write_to_bytes` produces.
    pub fn compute_size(&self) -> (r: usize)
        ensures
            r == spec_encode_propose(self@).len(),
    {
        self.write_to_bytes().len()
    }

    /// Decodes one `Propose`; fails with `MalformedMessage` exactly on the
    /// byte strings the wire grammar rejects.
    pub fn parse_from_bytes(s: &[u8]) -> (r: Result<Propose, SecioError>)
        ensures
            r is Ok ==> spec_parse_propose(s@) == Some(r->Ok_0@),
            r is Err ==> r->Err_0 == SecioError::MalformedMessage && spec_parse_propose(
                s@,
            ) is None,
    {
        let mut p = Propose::new();
        proof {
            assert(p@ == spec_empty_propose());
        }
        let mut pos: usize = 0;
        proof {
            assert(s@.skip(0) =~= s@);
        }
        while pos < s.len()
            invariant
                pos <= s@.len(),
                spec_parse_propose(s@) == spec_parse_propose_from(s@.skip(pos as int), p@),
            decreases s@.len() - pos,
        {
            let sub = vstd::slice::slice_subrange(s, pos, s.len());
            proof {
                assert(sub@ =~= s@.skip(pos as int));
            }
            match parse_record(sub) {
                Err(e) => {
                    return Err(e);
                },
                Ok((field, payload, consumed)) => {
                    if field == 1 {
                        p.rand = Some(payload);
                    } else if field == 2 {
                        p.pubkey = Some(payload);
                    } else if field == 3 {
                        p.exchanges = Some(payload);
                    } else if field == 4 {
                        p.ciphers = Some(payload);
                    } else if field == 5 {
                        p.hashes = Some(payload);
                    } else {
                        return Err(SecioError::MalformedMessage);
                    }
                    proof {
                        assert(s@.skip((pos + consumed) as int) =~= sub@.skip(consumed as int));
                    }
                    pos = pos + consumed;
                },
            }
        }
        proof {
            assert(s@.skip(pos as int) =~= Seq::<u8>::empty());
        }
        Ok(p)
    }
}

impl Exchange {
    /// Serializes this message; the result is what `parse_from_bytes`
    /// inverts (`lemma_exchange_roundtrip`).
    pub fn write_to_bytes(&self) -> (r: Vec<u8>)
        ensures
            r@ == spec_encode_exchange(self@),
    {
        let mut out: Vec<u8> = Vec::new();
        if let Some(v) = &self.epubkey {
            push_record(&mut out, 10, v);
        }
        if let Some(v) = &self.signature {
            push_record(&mut out, 18, v);
        }
        proof {
            assert(out@ =~= spec_encode_exchange(self@));
        }
        out
    }

    /// Number of bytes `write_to_bytes` produces.
    pub fn compute_size(&self) -> (r: usize)
        ensures
            r == spec_encode_exchange(self@).len(),
    {
        self.write_to_bytes().len()
    }

    /// Decodes one `Exchange`; fails with `MalformedMessage` exactly on the
    /// byte strings the wire grammar rejects.
    pub fn parse_from_bytes(s: &[u8]) -> (r: Result<Exchange, SecioError>)
        ensures
            r is Ok ==> spec_parse_exchange(s@) == Some(r->Ok_0@),
            r is Err ==> r->Err_0 == SecioError::MalformedMessage && spec_parse_exchange(
                s@,
            ) is None,
    {
        let mut e = Exchange::new();
        proof {
            assert(e@ == spec_empty_exchange());
        }
        let mut pos: usize = 0;
        proof {
            assert(s@.skip(0) =~= s@);
        }
        while pos < s.len()
            invariant
                pos <= s@.len(),
                spec_parse_exchange(s@) == spec_parse_exchange_from(s@.skip(pos as int), e@),
            decreases s@.len() - pos,
        {
            let sub = vstd::slice::slice_subrange(s, pos, s.len());
            proof {
                assert(sub@ =~= s@.skip(pos as int));
            }
            match parse_record(sub) {
                Err(err) => {
                    return Err(err);
                },
                Ok((field, payload, consumed)) => {
                    if field == 1 {
                        e.epubkey = Some(payload);
                    } else if field == 2 {
                        e.signature = Some(payload);
                    } else {
                        return Err(SecioError::MalformedMessage);
                    }
                    proof {
                        assert(s@.skip((pos + consumed) as int) =~= sub@.skip(consumed as int));
                    }
                    pos = pos + consumed;
                },
            }
        }
        proof {
            assert(s@.skip(pos as int) =~= Seq::<u8>::empty());
        }
        Ok(e)
    }
}

/// Every field of a parsed `Propose` is a slice of the input, so no field
/// is longer than the input.
pub proof fn lemma_parse_propose_bounded(s: Seq<u8>, acc: ProposeView, n: int)
    requires
        spec_parse_propose_from(s, acc) is Some,
        s.len() <= n,
        acc.rand is Some ==> acc.rand->0.len() <= n,
        acc.pubkey is Some ==> acc.pubkey->0.len() <= n,
        acc.exchanges is Some ==> acc.exchanges->0.len() <= n,
        acc.ciphers is Some ==> acc.ciphers->0.len() <= n,
        acc.hashes is Some ==> acc.hashes->0.len() <= n,
    ensures
        ({
            let p = spec_parse_propose_from(s, acc)->0;
            &&& p.rand is Some ==> p.rand->0.len() <= n
            &&& p.pubkey is Some ==> p.pubkey->0.len() <= n
            &&& p.exchanges is Some ==> p.exchanges->0.len() <= n
            &&& p.ciphers is Some ==> p.ciphers->0.len() <= n
            &&& p.hashes is Some ==> p.hashes->0.len() <= n
        }),
    decreases s.len(),
{
    if s.len() != 0 {
        let (field, payload, rest) = spec_parse_record(s)->0;
        assert(payload.len() <= s.len()) by {
            lemma_parse_varint_used(s.skip(1));
        }
        let acc2 = spec_propose_with_field(acc, field, payload)->0;
        lemma_parse_propose_bounded(rest, acc2, n);
    }
}

/// A varint followed by anything parses back to its own value, consuming
/// exactly its own bytes.
pub proof fn lemma_varint_roundtrip(n: nat, tail: Seq<u8>)
    ensures
        spec_parse_varint(spec_varint(n) + tail) == Some((n, spec_varint(n).len())),
    decreases n,
{
    let s = spec_varint(n) + tail;
    if n < 128 {
        assert(s[0] == n as u8);
    } else {
        assert(s[0] == (128 + n % 128) as u8);
        assert(s.skip(1) =~= spec_varint(n / 128) + tail);
        lemma_varint_roundtrip(n / 128, tail);
    }
}

/// A record followed by anything parses back to its own field and payload,
/// leaving exactly the tail.
pub proof fn lemma_record_roundtrip(tag: u8, payload: Seq<u8>, tail: Seq<u8>)
    requires
        tag < 128,
        tag % 8 == 2,
    ensures
        spec_parse_record(spec_record(tag, payload) + tail) == Some(
            ((tag / 8) as nat, payload, tail),
        ),
        spec_record(tag, payload).len() >= 2 + payload.len(),
{
    let s = spec_record(tag, payload) + tail;
    assert(s[0] == tag);
    assert(s.skip(1) =~= spec_varint(payload.len()) + (payload + tail));
    lemma_varint_roundtrip(payload.len(), payload + tail);
    let used = spec_varint(payload.len()).len() as int;
    assert(s.skip(1 + used) =~= payload + tail);
    assert((payload + tail).take(payload.len() as int) =~= payload);
    assert((payload + tail).skip(payload.len() as int) =~= tail);
}

proof fn lemma_parse_propose_step(acc: ProposeView, field: nat, tag: u8, payload: Seq<u8>, tail: Seq<u8>)
    requires
        1 <= field <= 5,
        tag == field * 8 + 2,
    ensures
        spec_parse_propose_from(spec_record(tag, payload) + tail, acc) == spec_parse_propose_from(
            tail,
            spec_propose_with_field(acc, field, payload)->0,
        ),
{
    lemma_record_roundtrip(tag, payload, tail);
}

proof fn lemma_parse_exchange_step(acc: ExchangeView, field: nat, tag: u8, payload: Seq<u8>, tail: Seq<u8>)
    requires
        1 <= field <= 2,
        tag == field * 8 + 2,
    ensures
        spec_parse_exchange_from(spec_record(tag, payload) + tail, acc)
            == spec_parse_exchange_from(tail, spec_exchange_with_field(acc, field, payload)->0),
{
    lemma_record_roundtrip(tag, payload, tail);
}

/// Round trip: parsing a serialized `Propose` yields the same message, for
/// every message, including ones with absent fields.
#[verifier::rlimit(100)]
pub proof fn lemma_propose_roundtrip(p: ProposeView)
    ensures
        spec_parse_propose(spec_encode_propose(p)) == Some(p),
{
    let e1 = spec_opt_record(10, p.rand);
    let e2 = spec_opt_record(18, p.pubkey);
    let e3 = spec_opt_record(26, p.exchanges);
    let e4 = spec_opt_record(34, p.ciphers);
    let e5 = spec_opt_record(42, p.hashes);
    let t5 = Seq::<u8>::empty();
    let t4 = e5 + t5;
    let t3 = e4 + t4;
    let t2 = e3 + t3;
    let t1 = e2 + t2;
    let t0 = e1 + t1;
    let acc0 = spec_empty_propose();
    let acc1 = if p.rand is Some { ProposeView { rand: p.rand, ..acc0 } } else { acc0 };
    let acc2 = if p.pubkey is Some { ProposeView { pubkey: p.pubkey, ..acc1 } } else { acc1 };
    let acc3 = if p.exchanges is Some {
        ProposeView { exchanges: p.exchanges, ..acc2 }
    } else {
        acc2
    };
    let acc4 = if p.ciphers is Some { ProposeView { ciphers: p.ciphers, ..acc3 } } else { acc3 };
    let acc5 = if p.hashes is Some { ProposeView { hashes: p.hashes, ..acc4 } } else { acc4 };
    assert(spec_encode_propose(p) =~= t0);
    assert(spec_parse_propose_from(t0, acc0) == spec_parse_propose_from(t1, acc1)) by {
        if p.rand is Some {
            lemma_parse_propose_step(acc0, 1, 10, p.rand->0, t1);
        } else {
            assert(t0 =~= t1);
        }
    }
    assert(spec_parse_propose_from(t1, acc1) == spec_parse_propose_from(t2, acc2)) by {
        if p.pubkey is Some {
            lemma_parse_propose_step(acc1, 2, 18, p.pubkey->0, t2);
        } else {
            assert(t1 =~= t2);
        }
    }
    assert(spec_parse_propose_from(t2, acc2) == spec_parse_propose_from(t3, acc3)) by {
        if p.exchanges is Some {
            lemma_parse_propose_step(acc2, 3, 26, p.exchanges->0, t3);
        } else {
            assert(t2 =~= t3);
        }
    }
    assert(spec_parse_propose_from(t3, acc3) == spec_parse_propose_from(t4, acc4)) by {
        if p.ciphers is Some {
            lemma_parse_propose_step(acc3, 4, 34, p.ciphers->0, t4);
        } else {
            assert(t3 =~= t4);
        }
    }
    assert(spec_parse_propose_from(t4, acc4) == spec_parse_propose_from(t5, acc5)) by {
        if p.hashes is Some {
            lemma_parse_propose_step(acc4, 5, 42, p.hashes->0, t5);
        } else {
            assert(t4 =~= t5);
        }
    }
    assert(spec_parse_propose_from(t5, acc5) == Some(acc5));
    assert(acc5 == p);
}

/// Round trip: parsing a serialized `Exchange` yields the same message.
#[verifier::rlimit(50)]
pub proof fn lemma_exchange_roundtrip(e: ExchangeView)
    ensures
        spec_parse_exchange(spec_encode_exchange(e)) == Some(e),
{
    let e1 = spec_opt_record(10, e.epubkey);
    let e2 = spec_opt_record(18, e.signature);
    let acc0 = spec_empty_exchange();
    let acc1 = if e.epubkey is Some { ExchangeView { epubkey: e.epubkey, ..acc0 } } else { acc0 };
    let acc2 = if e.signature is Some {
        ExchangeView { signature: e.signature, ..acc1 }
    } else {
        acc1
    };
    assert(spec_encode_exchange(e) =~= e1 + (e2 + Seq::<u8>::empty()));
    if e.epubkey is Some {
        lemma_parse_exchange_step(acc0, 1, 10, e.epubkey->0, e2 + Seq::<u8>::empty());
    }
    if e.signature is Some {
        lemma_parse_exchange_step(acc1, 2, 18, e.signature->0, Seq::<u8>::empty());
    }
    assert(spec_parse_exchange_from(Seq::<u8>::empty(), acc2) == Some(acc2));
    assert(acc2 == e);
}

} // verus!
