//! The two-message negotiation handshake, as a resumable state machine.
//!
//! Each step consumes one whole incoming frame and/or produces one whole
//! outgoing frame; the caller moves the frames over its transport and may
//! suspend between steps — all accumulated state (nonce, proposal bytes,
//! selected algorithms, ephemeral key) lives in the step values and nothing
//! is recomputed on resume. Every failure is terminal for the attempt.

use vstd::prelude::*;

use crate::cipher::CipherAlgorithm;
use crate::curve::{CurveAlgorithm, CurvePrivateKey};
use crate::data::{
    lemma_exchange_roundtrip, lemma_propose_roundtrip, spec_encode_exchange, spec_encode_propose,
    spec_parse_exchange, spec_parse_propose, Exchange, ExchangeView, Propose, ProposeView,
};
use crate::ecdh::spec_shared_algorithms;
use crate::hash::HashAlgorithm;
use crate::identity::{ed25519_verifies, HostId, PeerId};
use crate::secstream::{
    spec_after_receive, spec_after_send, spec_decode_ciphertext, spec_encode_frame, spec_frame_ok,
    spec_mac_ok, SecStream, SecStreamView,
};
use crate::sha2::{max_hash_input, sha256, sha256_of};
use crate::AlgorithmCategory;
use crate::SecioError;

verus! {

/// Number of random bytes in a proposal nonce.
pub open spec fn spec_nonce_size() -> int {
    16
}

/// Byte-wise equality of two slices.
pub fn bytes_eq(a: &[u8], b: &[u8]) -> (r: bool)
    ensures
        r == (a@ == b@),
{
    if a.len() != b.len() {
        proof {
            assert(a@ != b@);
        }
        return false;
    }
    let mut i: usize = 0;
    while i < a.len()
        invariant
            i <= a@.len(),
            a@.len() == b@.len(),
            forall|j: int| 0 <= j < i ==> a@[j] == b@[j],
        decreases a@.len() - i,
    {
        if a[i] != b[i] {
            proof {
                assert(a@[i as int] != b@[i as int]);
            }
            return false;
        }
        i = i + 1;
    }
    proof {
        assert(a@ =~= b@);
    }
    true
}

/// Relies on ring::rand::SystemRandom and SecureRandom::fill: `n` fresh
/// random bytes, or failure of the system random source. Nothing else can
/// be said of the bytes.
#[verifier::external_body]
fn random_bytes(n: usize) -> (r: Result<Vec<u8>, ()>)
    ensures
        r is Ok ==> (r->Ok_0)@.len() == n,
{
    let mut buf = vec![0u8; n];
    let rng = ring::rand::SystemRandom::new();
    match ring::rand::SecureRandom::fill(&rng, &mut buf) {
        Ok(_) => Ok(buf),
        Err(_) => Err(()),
    }
}

// ---------------------------------------------------------------------------
// Role ordering
// ---------------------------------------------------------------------------

/// The deterministic role order: who uses which half of the derived key
/// material.
#[derive(Eq, PartialEq, Debug, Clone, Copy, Structural)]
pub enum Order {
    Less,
    Equal,
    Greater,
}

/// The opposite role order.
pub open spec fn spec_order_flip(o: Order) -> Order {
    match o {
        Order::Less => Order::Greater,
        Order::Equal => Order::Equal,
        Order::Greater => Order::Less,
    }
}

/// Lexicographic byte comparison, shorter prefixes first.
pub open spec fn spec_lex_cmp(a: Seq<u8>, b: Seq<u8>) -> Order
    decreases a.len(),
{
    if a.len() == 0 && b.len() == 0 {
        Order::Equal
    } else if a.len() == 0 {
        Order::Less
    } else if b.len() == 0 {
        Order::Greater
    } else if a[0] < b[0] {
        Order::Less
    } else if a[0] > b[0] {
        Order::Greater
    } else {
        spec_lex_cmp(a.skip(1), b.skip(1))
    }
}

proof fn lemma_lex_cmp_antisymmetric(a: Seq<u8>, b: Seq<u8>)
    ensures
        spec_lex_cmp(b, a) == spec_order_flip(spec_lex_cmp(a, b)),
    decreases a.len(),
{
    if a.len() > 0 && b.len() > 0 && a[0] == b[0] {
        lemma_lex_cmp_antisymmetric(a.skip(1), b.skip(1));
    }
}

proof fn lemma_lex_cmp_reflexive(a: Seq<u8>)
    ensures
        spec_lex_cmp(a, a) == Order::Equal,
    decreases a.len(),
{
    if a.len() > 0 {
        lemma_lex_cmp_reflexive(a.skip(1));
    }
}

fn compare_bytes(a: &[u8], b: &[u8]) -> (r: Order)
    ensures
        r == spec_lex_cmp(a@, b@),
    decreases a@.len(),
{
    if a.len() == 0 && b.len() == 0 {
        Order::Equal
    } else if a.len() == 0 {
        Order::Less
    } else if b.len() == 0 {
        Order::Greater
    } else if a[0] < b[0] {
        Order::Less
    } else if a[0] > b[0] {
        Order::Greater
    } else {
        let ra = vstd::slice::slice_subrange(a, 1, a.len());
        let rb = vstd::slice::slice_subrange(b, 1, b.len());
        proof {
            assert(ra@ =~= a@.skip(1));
            assert(rb@ =~= b@.skip(1));
        }
        compare_bytes(ra, rb)
    }
}

/// The role order a peer computes from its own proposal and the peer's:
/// the big-endian comparison of `digest(their_pub ‖ my_nonce)` against
/// `digest(my_pub ‖ their_nonce)`.
pub open spec fn spec_order_of(
    my_pub: Seq<u8>,
    my_nonce: Seq<u8>,
    their_pub: Seq<u8>,
    their_nonce: Seq<u8>,
) -> Order {
    spec_lex_cmp(sha256_of(their_pub + my_nonce), sha256_of(my_pub + their_nonce))
}

/// Computes the role order both sides agree on.
pub fn compute_order(my_pub: &[u8], my_nonce: &[u8], their_pub: &[u8], their_nonce: &[u8]) -> (r:
    Order)
    requires
        their_pub@.len() + my_nonce@.len() < max_hash_input(),
        my_pub@.len() + their_nonce@.len() < max_hash_input(),
    ensures
        r == spec_order_of(my_pub@, my_nonce@, their_pub@, their_nonce@),
{
    let mut buf1: Vec<u8> = Vec::new();
    buf1.extend_from_slice(their_pub);
    buf1.extend_from_slice(my_nonce);
    proof {
        assert(buf1@ =~= their_pub@ + my_nonce@);
    }
    let d1 = sha256(buf1.as_slice());
    let mut buf2: Vec<u8> = Vec::new();
    buf2.extend_from_slice(my_pub);
    buf2.extend_from_slice(their_nonce);
    proof {
        assert(buf2@ =~= my_pub@ + their_nonce@);
    }
    let d2 = sha256(buf2.as_slice());
    compare_bytes(d1.as_slice(), d2.as_slice())
}

/// Ordering is complementary between the two peers: for any two proposals,
/// the order one side computes is the flip of the order the other side
/// computes, so the two can never claim the same role.
pub proof fn lemma_order_complementary(
    a_pub: Seq<u8>,
    a_nonce: Seq<u8>,
    b_pub: Seq<u8>,
    b_nonce: Seq<u8>,
)
    ensures
        spec_order_of(b_pub, b_nonce, a_pub, a_nonce) == spec_order_flip(
            spec_order_of(a_pub, a_nonce, b_pub, b_nonce),
        ),
{
    lemma_lex_cmp_antisymmetric(sha256_of(b_pub + a_nonce), sha256_of(a_pub + b_nonce));
}

/// A proposal ordered against itself is `Equal`: a handshake that sees its
/// own proposal reflected back is talking to itself.
pub proof fn lemma_order_self(pub_key: Seq<u8>, nonce: Seq<u8>)
    ensures
        spec_order_of(pub_key, nonce, pub_key, nonce) == Order::Equal,
{
    lemma_lex_cmp_reflexive(sha256_of(pub_key + nonce));
}

// ---------------------------------------------------------------------------
// Algorithm selection
// ---------------------------------------------------------------------------

/// The comma-separated segments of a name list, with `cur` the segment
/// accumulated so far.
pub open spec fn spec_split_acc(s: Seq<u8>, cur: Seq<u8>) -> Seq<Seq<u8>>
    decreases s.len(),
{
    if s.len() == 0 {
        seq![cur]
    } else if s[0] == 44 {
        seq![cur] + spec_split_acc(s.skip(1), Seq::empty())
    } else {
        spec_split_acc(s.skip(1), cur.push(s[0]))
    }
}

/// The comma-separated segments of a name list.
pub open spec fn spec_split_commas(s: Seq<u8>) -> Seq<Seq<u8>> {
    spec_split_acc(s, Seq::empty())
}

proof fn lemma_contains_concat<T>(x: Seq<T>, y: Seq<T>, e: T)
    ensures
        (x + y).contains(e) == (x.contains(e) || y.contains(e)),
{
    if (x + y).contains(e) {
        let i = choose|i: int| 0 <= i < (x + y).len() && (x + y)[i] == e;
        if i < x.len() {
            assert(x[i] == e);
        } else {
            assert(y[i - x.len()] == e);
        }
    }
    if x.contains(e) {
        let i = choose|i: int| 0 <= i < x.len() && x[i] == e;
        assert((x + y)[i] == e);
    }
    if y.contains(e) {
        let i = choose|i: int| 0 <= i < y.len() && y[i] == e;
        assert((x + y)[x.len() + i] == e);
    }
}

fn list_contains_from(s: &[u8], cur: Vec<u8>, name: &[u8]) -> (r: bool)
    ensures
        r == spec_split_acc(s@, cur@).contains(name@),
    decreases s@.len(),
{
    if s.len() == 0 {
        let eq = bytes_eq(cur.as_slice(), name);
        proof {
            assert(spec_split_acc(s@, cur@) == seq![cur@]);
            assert(seq![cur@].contains(name@) == (cur@ == name@)) by {
                if cur@ == name@ {
                    assert(seq![cur@][0] == name@);
                }
            }
        }
        return eq;
    }
    let c = s[0];
    let rest = vstd::slice::slice_subrange(s, 1, s.len());
    proof {
        assert(rest@ =~= s@.skip(1));
    }
    if c == 44 {
        let head_eq = bytes_eq(cur.as_slice(), name);
        let tail_has = list_contains_from(rest, Vec::new(), name);
        proof {
            lemma_contains_concat(seq![cur@], spec_split_acc(s@.skip(1), Seq::empty()), name@);
            assert(seq![cur@].contains(name@) == (cur@ == name@)) by {
                if cur@ == name@ {
                    assert(seq![cur@][0] == name@);
                }
            }
        }
        head_eq || tail_has
    } else {
        let mut cur2 = cur;
        cur2.push(c);
        list_contains_from(rest, cur2, name)
    }
}

/// Whether the comma-separated `list` contains `name` as one of its
/// segments.
pub fn list_contains(list: &[u8], name: &[u8]) -> (r: bool)
    ensures
        r == spec_split_commas(list@).contains(name@),
{
    list_contains_from(list, Vec::new(), name)
}

pub open spec fn opt_or_empty(o: Option<Seq<u8>>) -> Seq<u8> {
    match o {
        Some(s) => s,
        None => Seq::empty(),
    }
}

/// Whether the peer's advertised curve list names a curve of the local
/// catalog.
pub open spec fn spec_curve_ok(p: ProposeView) -> bool {
    spec_split_commas(opt_or_empty(p.exchanges)).contains(CurveAlgorithm::EcdhP384.spec_wire_name())
}

/// Whether the peer's advertised cipher list names a cipher of the local
/// catalog.
pub open spec fn spec_cipher_ok(p: ProposeView) -> bool {
    spec_split_commas(opt_or_empty(p.ciphers)).contains(CipherAlgorithm::Aes256.spec_wire_name())
}

/// Whether the peer's advertised hash list names a keyed hash of the local
/// catalog.
pub open spec fn spec_hash_ok(p: ProposeView) -> bool {
    spec_split_commas(opt_or_empty(p.hashes)).contains(HashAlgorithm::Sha2256.spec_wire_name())
}

/// Whether a common curve, cipher and hash all exist.
pub open spec fn spec_selection_ok(p: ProposeView) -> bool {
    spec_curve_ok(p) && spec_cipher_ok(p) && spec_hash_ok(p)
}

/// The error `select` reports, naming the first category (curve, then
/// cipher, then hash) with no common entry.
pub open spec fn spec_selection_error(p: ProposeView) -> SecioError {
    if !spec_curve_ok(p) {
        SecioError::NoCommonAlgorithm(AlgorithmCategory::Curve)
    } else if !spec_cipher_ok(p) {
        SecioError::NoCommonAlgorithm(AlgorithmCategory::Cipher)
    } else {
        SecioError::NoCommonAlgorithm(AlgorithmCategory::Hash)
    }
}

/// Selects one common curve, cipher and hash by intersecting the peer's
/// advertised comma-separated lists with the local catalogs; an empty
/// intersection in any category is fatal and names the category.
pub fn select(proposal: &Propose) -> (r: Result<
    (CurveAlgorithm, CipherAlgorithm, HashAlgorithm),
    SecioError,
>)
    ensures
        r is Ok <==> spec_selection_ok(proposal@),
        r is Ok ==> r->Ok_0 == (CurveAlgorithm::EcdhP384, CipherAlgorithm::Aes256,
        HashAlgorithm::Sha2256),
        r is Err ==> r->Err_0 == spec_selection_error(proposal@),
{
    let curves = CurveAlgorithm::all();
    let curve = curves[0];
    let curve_name = curve.wire_name();
    if !list_contains(proposal.get_exchanges(), curve_name.as_slice()) {
        return Err(SecioError::NoCommonAlgorithm(AlgorithmCategory::Curve));
    }
    let ciphers = CipherAlgorithm::all();
    let cipher = ciphers[0];
    let cipher_name = cipher.wire_name();
    if !list_contains(proposal.get_ciphers(), cipher_name.as_slice()) {
        return Err(SecioError::NoCommonAlgorithm(AlgorithmCategory::Cipher));
    }
    let hashes = HashAlgorithm::all();
    let hash = hashes[0];
    let hash_name = hash.wire_name();
    if !list_contains(proposal.get_hashes(), hash_name.as_slice()) {
        return Err(SecioError::NoCommonAlgorithm(AlgorithmCategory::Hash));
    }
    Ok((curve, cipher, hash))
}

// ---------------------------------------------------------------------------
// The handshake state machine
// ---------------------------------------------------------------------------

/// The proposal a host with public key `host` and nonce `nonce` builds:
/// the nonce, the identity key, and the catalogs' full name lists.
pub open spec fn spec_local_proposal(host: Seq<u8>, nonce: Seq<u8>) -> ProposeView {
    ProposeView {
        rand: Some(nonce),
        pubkey: Some(host),
        exchanges: Some(CurveAlgorithm::EcdhP384.spec_wire_name()),
        ciphers: Some(CipherAlgorithm::Aes256.spec_wire_name()),
        hashes: Some(HashAlgorithm::Sha2256.spec_wire_name()),
    }
}

/// Mathematical image of a handshake that has sent its proposal.
pub struct ProposalSentView {
    pub host: Seq<u8>,
    pub expected: Option<Seq<u8>>,
    pub my_nonce: Seq<u8>,
    pub my_proposal_bytes: Seq<u8>,
}

/// A handshake that has produced its proposal frame (step 1) and waits for
/// the peer's.
pub struct ProposalSent {
    host: HostId,
    expected: PeerId,
    my_nonce: Vec<u8>,
    my_proposal_bytes: Vec<u8>,
}

impl View for ProposalSent {
    type V = ProposalSentView;

    closed spec fn view(&self) -> ProposalSentView {
        ProposalSentView {
            host: self.host@,
            expected: self.expected@,
            my_nonce: self.my_nonce@,
            my_proposal_bytes: self.my_proposal_bytes@,
        }
    }
}

impl ProposalSent {
    /// The state carries a fixed-size nonce and the serialized form of
    /// exactly the local proposal, retained verbatim.
    pub open spec fn wf(&self) -> bool {
        &&& self@.host.len() == 32
        &&& self@.my_nonce.len() == spec_nonce_size()
        &&& self@.my_proposal_bytes == spec_encode_propose(
            spec_local_proposal(self@.host, self@.my_nonce),
        )
    }
}

/// Step 1 (Propose): draws a fresh nonce, builds the local proposal
/// listing the catalogs' full name lists, and serializes it, retaining the
/// bytes verbatim for the later signature transcript. Returns the new
/// state and the proposal frame to send. Fails only if the system random
/// source does.
pub fn propose(host: HostId, expected: PeerId) -> (r: Result<(ProposalSent, Vec<u8>), SecioError>)
    requires
        host@.len() == 32,
    ensures
        r is Err ==> r->Err_0 == SecioError::KeyGenerationFailed,
        r is Ok ==> ({
            let st = (r->Ok_0).0;
            let frame = (r->Ok_0).1;
            &&& st.wf()
            &&& st@.host == host@
            &&& st@.expected == expected@
            &&& frame@ == st@.my_proposal_bytes
        }),
{
    let my_nonce = match random_bytes(16) {
        Ok(n) => n,
        Err(_) => {
            return Err(SecioError::KeyGenerationFailed);
        },
    };
    let mut proposal = Propose::new();
    proposal.set_rand(vstd::slice::slice_to_vec(my_nonce.as_slice()));
    proposal.set_pubkey(vstd::slice::slice_to_vec(host.pub_key()));
    proposal.set_exchanges(CurveAlgorithm::EcdhP384.wire_name());
    proposal.set_ciphers(CipherAlgorithm::Aes256.wire_name());
    proposal.set_hashes(HashAlgorithm::Sha2256.wire_name());
    proof {
        assert(proposal@ == spec_local_proposal(host@, my_nonce@));
    }
    let bytes = proposal.write_to_bytes();
    let frame = vstd::slice::slice_to_vec(bytes.as_slice());
    Ok((ProposalSent { host, expected, my_nonce, my_proposal_bytes: bytes }, frame))
}

/// What a received proposal is rejected for, in checking order: it must
/// parse, carry an identity key of the right size, match the expected peer
/// if one was given, not be our own reflection, and advertise a common
/// algorithm in every category. `None` when every deterministic check
/// passes; only ephemeral key generation can fail after that.
pub open spec fn spec_proposal_reject(st: ProposalSentView, bytes: Seq<u8>) -> Option<SecioError> {
    match spec_parse_propose(bytes) {
        None => Some(SecioError::MalformedMessage),
        Some(p) => {
            if opt_or_empty(p.pubkey).len() != 32 {
                Some(SecioError::MalformedMessage)
            } else if st.expected is Some && st.expected != Some(opt_or_empty(p.pubkey)) {
                Some(SecioError::IdentityMismatch)
            } else if spec_order_of(
                st.host,
                st.my_nonce,
                opt_or_empty(p.pubkey),
                opt_or_empty(p.rand),
            ) == Order::Equal {
                Some(SecioError::TalkingToSelf)
            } else if !spec_selection_ok(p) {
                Some(spec_selection_error(p))
            } else {
                None
            }
        },
    }
}

/// Mathematical image of a handshake that has sent its exchange.
pub struct ExchangeSentView {
    pub host: Seq<u8>,
    pub peer: Seq<u8>,
    pub my_nonce: Seq<u8>,
    pub their_nonce: Seq<u8>,
    pub my_proposal_bytes: Seq<u8>,
    pub their_proposal_bytes: Seq<u8>,
    pub order: Order,
    pub curve: CurveAlgorithm,
    pub cipher: CipherAlgorithm,
    pub hash: HashAlgorithm,
    pub eph_pub: Seq<u8>,
}

/// A handshake that has processed the peer's proposal and produced its
/// exchange frame (steps 2-4): identity verified, order computed,
/// algorithms selected, ephemeral key generated, transcript signed.
pub struct ExchangeSent {
    host: HostId,
    peer: Vec<u8>,
    my_nonce: Vec<u8>,
    their_nonce: Vec<u8>,
    my_proposal_bytes: Vec<u8>,
    their_proposal_bytes: Vec<u8>,
    order: Order,
    curve: CurveAlgorithm,
    cipher: CipherAlgorithm,
    hash: HashAlgorithm,
    eph_key: CurvePrivateKey,
}

impl View for ExchangeSent {
    type V = ExchangeSentView;

    closed spec fn view(&self) -> ExchangeSentView {
        ExchangeSentView {
            host: self.host@,
            peer: self.peer@,
            my_nonce: self.my_nonce@,
            their_nonce: self.their_nonce@,
            my_proposal_bytes: self.my_proposal_bytes@,
            their_proposal_bytes: self.their_proposal_bytes@,
            order: self.order,
            curve: self.curve,
            cipher: self.cipher,
            hash: self.hash,
            eph_pub: self.eph_key@,
        }
    }
}

impl ExchangeSent {
    /// The peer is identified, the roles are distinct, and the retained
    /// nonce is small enough to echo through the session later.
    pub open spec fn wf(&self) -> bool {
        &&& self@.peer.len() == 32
        &&& self@.order != Order::Equal
        &&& self@.their_nonce.len() < max_hash_input()
    }
}

impl ProposalSent {
    /// Steps 2-4 (Identify, Order, Select, Exchange): consumes the peer's
    /// proposal bytes, retained verbatim; derives the peer's identity and
    /// checks it against the expected one before anything else; computes
    /// the role order and rejects a reflected proposal; selects the
    /// algorithms; generates the ephemeral key; signs the transcript
    /// `my_proposal ‖ their_proposal ‖ my_ephemeral_public_key`; and
    /// returns the exchange frame to send.
    pub fn on_proposal(self, their_proposal_bytes: Vec<u8>) -> (r: Result<
        (ExchangeSent, Vec<u8>),
        SecioError,
    >)
        requires
            self.wf(),
            their_proposal_bytes@.len() + 48 < max_hash_input(),
        ensures
            spec_proposal_reject(self@, their_proposal_bytes@) is Some ==> r is Err && r->Err_0
                == spec_proposal_reject(self@, their_proposal_bytes@)->0,
            r is Err ==> spec_proposal_reject(self@, their_proposal_bytes@) is Some || r->Err_0
                == SecioError::KeyGenerationFailed,
            r is Ok ==> spec_proposal_reject(self@, their_proposal_bytes@) is None,
            r is Ok ==> ({
                let st = (r->Ok_0).0;
                let frame = (r->Ok_0).1;
                let p = spec_parse_propose(their_proposal_bytes@)->0;
                &&& st.wf()
                &&& st@.host == self@.host
                &&& st@.my_nonce == self@.my_nonce
                &&& st@.my_proposal_bytes == self@.my_proposal_bytes
                &&& st@.their_proposal_bytes == their_proposal_bytes@
                &&& st@.peer == opt_or_empty(p.pubkey)
                &&& st@.their_nonce == opt_or_empty(p.rand)
                &&& st@.order == spec_order_of(
                    self@.host,
                    self@.my_nonce,
                    st@.peer,
                    st@.their_nonce,
                )
                &&& st@.curve == CurveAlgorithm::EcdhP384
                &&& st@.cipher == CipherAlgorithm::Aes256
                &&& st@.hash == HashAlgorithm::Sha2256
                &&& exists|sig: Seq<u8>|
                    ed25519_verifies(
                        self@.host,
                        self@.my_proposal_bytes + their_proposal_bytes@ + st@.eph_pub,
                        sig,
                    ) && frame@ == spec_encode_exchange(
                        ExchangeView { epubkey: Some(st@.eph_pub), signature: Some(sig) },
                    )
            }),
    {
        let their_proposal = match Propose::parse_from_bytes(their_proposal_bytes.as_slice()) {
            Ok(p) => p,
            Err(e) => {
                return Err(e);
            },
        };
        proof {
            crate::data::lemma_parse_propose_bounded(
                their_proposal_bytes@,
                crate::data::spec_empty_propose(),
                their_proposal_bytes@.len() as int,
            );
        }
        let actual_id = match PeerId::from_pub_key_bytes(their_proposal.get_pubkey()) {
            Ok(id) => id,
            Err(e) => {
                return Err(e);
            },
        };
        if !self.expected.is_unknown() {
            if !actual_id.matches(&self.expected) {
                return Err(SecioError::IdentityMismatch);
            }
        }
        let order = compute_order(
            self.host.pub_key(),
            self.my_nonce.as_slice(),
            their_proposal.get_pubkey(),
            their_proposal.get_rand(),
        );
        if order == Order::Equal {
            return Err(SecioError::TalkingToSelf);
        }
        let (curve, cipher, hash) = match select(&their_proposal) {
            Ok(sel) => sel,
            Err(e) => {
                return Err(e);
            },
        };
        let eph_key = match curve.generate_priv_key() {
            Ok(k) => k,
            Err(e) => {
                return Err(e);
            },
        };
        let mut corpus: Vec<u8> = Vec::new();
        corpus.extend_from_slice(self.my_proposal_bytes.as_slice());
        corpus.extend_from_slice(their_proposal_bytes.as_slice());
        corpus.extend_from_slice(eph_key.pub_key());
        proof {
            assert(corpus@ =~= self@.my_proposal_bytes + their_proposal_bytes@ + eph_key@);
        }
        let signature = self.host.sign(corpus.as_slice());
        let ghost sig_view = signature@;
        let mut exchange = Exchange::new();
        exchange.set_epubkey(vstd::slice::slice_to_vec(eph_key.pub_key()));
        exchange.set_signature(signature);
        let frame = exchange.write_to_bytes();
        proof {
            assert(ed25519_verifies(
                self@.host,
                self@.my_proposal_bytes + their_proposal_bytes@ + eph_key@,
                sig_view,
            ) && frame@ == spec_encode_exchange(
                ExchangeView { epubkey: Some(eph_key@), signature: Some(sig_view) },
            ));
        }
        let st = ExchangeSent {
            host: self.host,
            peer: vstd::slice::slice_to_vec(their_proposal.get_pubkey()),
            my_nonce: self.my_nonce,
            their_nonce: {
                let mut tp = their_proposal;
                tp.take_rand()
            },
            my_proposal_bytes: self.my_proposal_bytes,
            their_proposal_bytes,
            order,
            curve,
            cipher,
            hash,
            eph_key,
        };
        proof {
            let p = spec_parse_propose(their_proposal_bytes@)->0;
            assert(spec_proposal_reject(self@, their_proposal_bytes@) is None);
            assert(st.wf());
            assert(st@.host == self@.host);
            assert(st@.my_nonce == self@.my_nonce);
            assert(st@.my_proposal_bytes == self@.my_proposal_bytes);
            assert(st@.their_proposal_bytes == their_proposal_bytes@);
            assert(st@.peer == opt_or_empty(p.pubkey));
            assert(st@.their_nonce == opt_or_empty(p.rand));
            assert(st@.order == spec_order_of(self@.host, self@.my_nonce, st@.peer,
                st@.their_nonce));
            assert(st@.curve == CurveAlgorithm::EcdhP384);
            assert(exists|sig: Seq<u8>|
                ed25519_verifies(
                    self@.host,
                    self@.my_proposal_bytes + their_proposal_bytes@ + st@.eph_pub,
                    sig,
                ) && frame@ == spec_encode_exchange(
                    ExchangeView { epubkey: Some(st@.eph_pub), signature: Some(sig) },
                ));
        }
        Ok((st, frame))
    }
}

/// What a received exchange is rejected for: it must parse, and its
/// signature must verify over the peer-first transcript
/// `their_proposal ‖ my_proposal ‖ their_ephemeral_public_key` under the
/// peer's identity key. `None` when those pass; only the key agreement can
/// fail after that.
pub open spec fn spec_exchange_reject(st: ExchangeSentView, bytes: Seq<u8>) -> Option<SecioError> {
    match spec_parse_exchange(bytes) {
        None => Some(SecioError::MalformedMessage),
        Some(e) => {
            if !ed25519_verifies(
                st.peer,
                st.their_proposal_bytes + st.my_proposal_bytes + opt_or_empty(e.epubkey),
                opt_or_empty(e.signature),
            ) {
                Some(SecioError::SignatureVerificationFailed)
            } else {
                None
            }
        },
    }
}

/// The session bundle a peer with role `order` derives from a raw shared
/// secret: the `Less` side sends with the second half.
pub open spec fn spec_session_for(
    secret: Seq<u8>,
    hash: HashAlgorithm,
    cipher: CipherAlgorithm,
    order: Order,
) -> crate::shared::SharedView {
    spec_shared_algorithms(secret, hash, cipher, order == Order::Less)
}

/// Mathematical image of a handshake awaiting the nonce confirmation.
pub struct ConfirmingView {
    pub peer: Seq<u8>,
    pub my_nonce: Seq<u8>,
    pub stream: SecStreamView,
}

/// A handshake that has derived the session keys and produced its
/// confirmation frame (steps 5-6): it waits for the peer's echo of the
/// local nonce through the secure session.
pub struct Confirming {
    peer: Vec<u8>,
    my_nonce: Vec<u8>,
    stream: SecStream,
}

impl View for Confirming {
    type V = ConfirmingView;

    closed spec fn view(&self) -> ConfirmingView {
        ConfirmingView { peer: self.peer@, my_nonce: self.my_nonce@, stream: self.stream@ }
    }
}

impl Confirming {
    /// The session stream is consistent and still open, and the peer is
    /// identified.
    pub closed spec fn wf(&self) -> bool {
        &&& self.stream.wf()
        &&& !self.stream@.done
        &&& self.peer@.len() == 32
    }
}

impl ExchangeSent {
    /// Steps 5-6 (Verify, Derive): parses the peer's exchange; rebuilds
    /// the transcript with the peer's proposal first, from the literal
    /// received bytes, never a re-serialization; verifies the signature
    /// under the peer's identity key; consumes the ephemeral key in the
    /// key agreement, the role order choosing which derived half this side
    /// sends with; and wraps the result into the secure session. Returns
    /// the confirmation frame: the peer's nonce echoed through that
    /// session.
    pub fn on_exchange(self, their_exchange_bytes: Vec<u8>) -> (r: Result<
        (Confirming, Vec<u8>),
        SecioError,
    >)
        requires
            self.wf(),
        ensures
            spec_exchange_reject(self@, their_exchange_bytes@) is Some ==> r is Err && r->Err_0
                == spec_exchange_reject(self@, their_exchange_bytes@)->0,
            r is Err ==> spec_exchange_reject(self@, their_exchange_bytes@) is Some || r->Err_0
                == SecioError::KeyAgreementFailed,
            r is Ok ==> spec_exchange_reject(self@, their_exchange_bytes@) is None,
            r is Ok ==> ({
                let st = (r->Ok_0).0;
                let frame = (r->Ok_0).1;
                &&& st.wf()
                &&& st@.peer == self@.peer
                &&& st@.my_nonce == self@.my_nonce
                &&& st@.stream.buffered == Seq::<u8>::empty()
                &&& !st@.stream.done
                &&& exists|secret: Seq<u8>|
                    frame@ == spec_encode_frame(
                        #[trigger] spec_session_for(secret, self@.hash, self@.cipher, self@.order),
                        self@.their_nonce,
                    ) && st@.stream.algos == spec_after_send(
                        spec_session_for(secret, self@.hash, self@.cipher, self@.order),
                        self@.their_nonce.len(),
                    )
            }),
    {
        let their_exchange = match Exchange::parse_from_bytes(their_exchange_bytes.as_slice()) {
            Ok(e) => e,
            Err(e) => {
                return Err(e);
            },
        };
        let mut corpus: Vec<u8> = Vec::new();
        corpus.extend_from_slice(self.their_proposal_bytes.as_slice());
        corpus.extend_from_slice(self.my_proposal_bytes.as_slice());
        corpus.extend_from_slice(their_exchange.get_epubkey());
        proof {
            assert(corpus@ =~= self@.their_proposal_bytes + self@.my_proposal_bytes
                + opt_or_empty(spec_parse_exchange(their_exchange_bytes@)->0.epubkey));
        }
        if !crate::identity::ed25519_verify(
            self.peer.as_slice(),
            corpus.as_slice(),
            their_exchange.get_signature(),
        ) {
            return Err(SecioError::SignatureVerificationFailed);
        }
        let swapped = self.order == Order::Less;
        let algos = match self.eph_key.agree_with(
            their_exchange.get_epubkey(),
            self.hash,
            self.cipher,
            swapped,
        ) {
            Ok(a) => a,
            Err(e) => {
                return Err(e);
            },
        };
        let ghost algos_view = algos@;
        let mut stream = SecStream::new(algos);
        let frame = match stream.encode(self.their_nonce.as_slice()) {
            Ok(f) => f,
            Err(_) => unreached(),
        };
        let st = Confirming { peer: self.peer, my_nonce: self.my_nonce, stream };
        proof {
            let secret = choose|s: Seq<u8>|
                algos_view == #[trigger] spec_shared_algorithms(s, self@.hash, self@.cipher, swapped);
            assert(algos_view == spec_session_for(secret, self@.hash, self@.cipher, self@.order));
            assert(frame@ == spec_encode_frame(
                spec_session_for(secret, self@.hash, self@.cipher, self@.order),
                self@.their_nonce,
            ));
            assert(st@.stream.algos == spec_after_send(
                spec_session_for(secret, self@.hash, self@.cipher, self@.order),
                self@.their_nonce.len(),
            ));
        }
        Ok((st, frame))
    }
}

proof fn lemma_split_acc_no_comma(s: Seq<u8>, cur: Seq<u8>)
    requires
        forall|i: int| 0 <= i < s.len() ==> s[i] != 44,
    ensures
        spec_split_acc(s, cur) == seq![cur + s],
    decreases s.len(),
{
    if s.len() == 0 {
        assert(cur + s =~= cur);
    } else {
        lemma_split_acc_no_comma(s.skip(1), cur.push(s[0]));
        assert(cur.push(s[0]) + s.skip(1) =~= cur + s);
    }
}

/// A name list that consists of one name without commas contains exactly
/// that name.
pub proof fn lemma_single_name_list(name: Seq<u8>)
    requires
        forall|i: int| 0 <= i < name.len() ==> name[i] != 44,
    ensures
        spec_split_commas(name).contains(name),
{
    lemma_split_acc_no_comma(name, Seq::empty());
    assert(Seq::empty() + name =~= name);
    assert(spec_split_commas(name)[0] == name);
}

proof fn lemma_catalog_names_have_no_commas()
    ensures
        forall|i: int|
            0 <= i < CurveAlgorithm::EcdhP384.spec_wire_name().len()
                ==> CurveAlgorithm::EcdhP384.spec_wire_name()[i] != 44,
        forall|i: int|
            0 <= i < CipherAlgorithm::Aes256.spec_wire_name().len()
                ==> CipherAlgorithm::Aes256.spec_wire_name()[i] != 44,
        forall|i: int|
            0 <= i < HashAlgorithm::Sha2256.spec_wire_name().len()
                ==> HashAlgorithm::Sha2256.spec_wire_name()[i] != 44,
{
    let c = CurveAlgorithm::EcdhP384.spec_wire_name();
    assert forall|i: int| 0 <= i < c.len() implies c[i] != 44 by {
        if i == 0 {
            assert(c[0] == 80);
        } else if i == 1 {
            assert(c[1] == 45);
        } else if i == 2 {
            assert(c[2] == 51);
        } else if i == 3 {
            assert(c[3] == 56);
        } else {
            assert(c[4] == 52);
        }
    }
    let b = CipherAlgorithm::Aes256.spec_wire_name();
    assert forall|i: int| 0 <= i < b.len() implies b[i] != 44 by {
        if i == 0 {
            assert(b[0] == 65);
        } else if i == 1 {
            assert(b[1] == 69);
        } else if i == 2 {
            assert(b[2] == 83);
        } else if i == 3 {
            assert(b[3] == 45);
        } else if i == 4 {
            assert(b[4] == 50);
        } else if i == 5 {
            assert(b[5] == 53);
        } else {
            assert(b[6] == 54);
        }
    }
    let h = HashAlgorithm::Sha2256.spec_wire_name();
    assert forall|i: int| 0 <= i < h.len() implies h[i] != 44 by {
        if i == 0 {
            assert(h[0] == 83);
        } else if i == 1 {
            assert(h[1] == 72);
        } else if i == 2 {
            assert(h[2] == 65);
        } else if i == 3 {
            assert(h[3] == 50);
        } else if i == 4 {
            assert(h[4] == 53);
        } else {
            assert(h[5] == 54);
        }
    }
}

/// Honest peers agree at the proposal step: a proposal built by `propose`
/// for a 32-byte identity key passes every deterministic check of a peer
/// that expects this host (or none), except when the role order comes out
/// `Equal` — which, by `lemma_order_complementary`, happens on both sides
/// or neither.
pub proof fn lemma_honest_proposal_accepted(st: ProposalSentView, host: Seq<u8>, nonce: Seq<u8>)
    requires
        host.len() == 32,
    ensures
        (st.expected is None || st.expected == Some(host)) && spec_order_of(
            st.host,
            st.my_nonce,
            host,
            nonce,
        ) != Order::Equal ==> spec_proposal_reject(
            st,
            spec_encode_propose(spec_local_proposal(host, nonce)),
        ) is None,
{
    lemma_propose_roundtrip(spec_local_proposal(host, nonce));
    lemma_catalog_names_have_no_commas();
    lemma_single_name_list(CurveAlgorithm::EcdhP384.spec_wire_name());
    lemma_single_name_list(CipherAlgorithm::Aes256.spec_wire_name());
    lemma_single_name_list(HashAlgorithm::Sha2256.spec_wire_name());
}

/// Honest peers agree at the exchange step: an exchange frame carrying an
/// ephemeral key and a signature that verifies over the receiver's view of
/// the transcript passes the receiver's deterministic checks.
pub proof fn lemma_honest_exchange_accepted(b: ExchangeSentView, epub: Seq<u8>, sig: Seq<u8>)
    ensures
        ed25519_verifies(b.peer, b.their_proposal_bytes + b.my_proposal_bytes + epub, sig)
            ==> spec_exchange_reject(
            b,
            spec_encode_exchange(ExchangeView { epubkey: Some(epub), signature: Some(sig) }),
        ) is None,
{
    lemma_exchange_roundtrip(ExchangeView { epubkey: Some(epub), signature: Some(sig) });
}

impl Confirming {
    /// Step 7 (Confirm): decodes the peer's confirmation frame through the
    /// secure session — MAC first, then decrypt — and compares the echoed
    /// nonce byte for byte against our own. A mismatch means the two sides
    /// derived different keys or a relay interfered. On success, yields
    /// the authenticated peer identity and the open secure stream.
    pub fn on_confirmation(self, frame: &[u8]) -> (r: Result<(PeerId, SecStream), SecioError>)
        requires
            self.wf(),
            self@.stream.algos.decryptor.offset + frame@.len() <= u64::MAX,
            frame@.len() < max_hash_input(),
        ensures
            !spec_frame_ok(frame@) ==> r is Err && r->Err_0 == SecioError::MalformedMessage,
            spec_frame_ok(frame@) && !spec_mac_ok(self@.stream.algos, frame@) ==> r is Err
                && r->Err_0 == SecioError::MacVerificationFailed,
            spec_frame_ok(frame@) && spec_mac_ok(self@.stream.algos, frame@)
                && spec_decode_ciphertext(self@.stream.algos, frame@.take(frame@.len() - 32))
                != self@.my_nonce ==> r is Err && r->Err_0 == SecioError::NonceMismatch,
            spec_frame_ok(frame@) && spec_mac_ok(self@.stream.algos, frame@)
                && spec_decode_ciphertext(self@.stream.algos, frame@.take(frame@.len() - 32))
                == self@.my_nonce ==> r is Ok && (r->Ok_0).0@ == Some(self@.peer) && (r->Ok_0).1@
                == (SecStreamView {
                algos: spec_after_receive(self@.stream.algos, (frame@.len() - 32) as nat),
                ..self@.stream
            }),
            r is Ok ==> (r->Ok_0).1.wf() && !(r->Ok_0).1@.done,
    {
        let mut stream = self.stream;
        let nonce_echo = match stream.decode(frame) {
            Ok(p) => p,
            Err(e) => {
                return Err(e);
            },
        };
        proof {
            assert(spec_frame_ok(frame@) && spec_mac_ok(self@.stream.algos, frame@));
            assert(nonce_echo@ == spec_decode_ciphertext(
                self@.stream.algos,
                frame@.take(frame@.len() - 32),
            ));
            assert(stream@ == (SecStreamView {
                algos: spec_after_receive(self@.stream.algos, (frame@.len() - 32) as nat),
                ..self@.stream
            }));
        }
        if !bytes_eq(nonce_echo.as_slice(), self.my_nonce.as_slice()) {
            return Err(SecioError::NonceMismatch);
        }
        Ok((PeerId::Key(self.peer), stream))
    }
}

} // verus!
