//! The sequenced AES-128-GCM secure channel.
//!
//! Each record on the wire is `u32 length (big-endian) || 12-byte nonce
//! || ciphertext || 16-byte tag`, where the length counts everything
//! after itself. The plaintext of a record is an 8-byte big-endian
//! sequence number followed by payload bytes; the receiver requires the
//! sequence number to equal its own counter, so a removed, replayed or
//! reordered record is a fatal integrity error.
//!
//! The writer buffers payload bytes and emits one record per
//! `capacity`-sized chunk or per flush; the reader buffers one decrypted
//! record and serves reads from it. Delivery — that the concatenation
//! of reads equals the concatenation of writes — is proved in
//! [`lemma_channel_delivery`]; rejection of out-of-sequence records in
//! [`lemma_out_of_sequence_rejected`].
//!
//! Sealing itself is delegated to an outside provider under the name
//! [`gcm_seal_of`]; everything the channel concludes from a record goes
//! through [`sealed_record`], which also carries the uniqueness of the
//! sealed plaintext.

use vstd::prelude::*;

use crate::error::{ChannelError, CryptoError};
use crate::random::random_bytes;
use crate::wire::{
    append_bytes, bytes_eq, copy_bytes, spec_u32_be, spec_u32_from_be, spec_u64_be, u32_be,
    u32_from_be, u64_be,
};

verus! {

pub const GCM_KEY_LEN: usize = 16;

pub const GCM_NONCE_LEN: usize = 12;

pub const GCM_TAG_LEN: usize = 16;

/// Bytes of a record counted by its length field that are not payload:
/// nonce, sequence prefix, tag.
pub const RECORD_OVERHEAD: usize = 36;

pub const DEFAULT_CAPACITY: usize = 0x100000;

/// The AES-128-GCM ciphertext-with-tag for a key, nonce and plaintext:
/// a pure function of the three. No contract says its value on any
/// input.
pub uninterp spec fn gcm_seal_of(key: Seq<u8>, nonce: Seq<u8>, plaintext: Seq<u8>) -> Seq<u8>;

/// `body` is the sealing of `pt` under `key` and `nonce`: it is 16
/// bytes (the tag) longer than `pt`, and no other plaintext seals to it
/// under the same key and nonce — decryption is exact.
pub open spec fn sealed_record(key: Seq<u8>, nonce: Seq<u8>, pt: Seq<u8>, body: Seq<u8>) -> bool {
    &&& body == gcm_seal_of(key, nonce, pt)
    &&& body.len() == pt.len() + 16
    &&& forall|p2: Seq<u8>| gcm_seal_of(key, nonce, p2) == body ==> p2 == pt
}

/// Relies on ring's AES-128-GCM `seal_in_place_append_tag` (empty AAD):
/// deterministic in key, nonce and plaintext; appends a 16-byte tag;
/// `open_in_place` recovers exactly the plaintext, so no other
/// plaintext seals to the same bytes under the same key and nonce.
#[verifier::external_body]
fn gcm_seal(key: &[u8], nonce: &[u8], plaintext: &[u8]) -> (r: Result<Vec<u8>, CryptoError>)
    requires
        key@.len() == 16,
        nonce@.len() == 12,
    ensures
        match r {
            Ok(body) => sealed_record(key@, nonce@, plaintext@, body@),
            Err(e) => e == CryptoError::Provider,
        },
{
    let unbound = ring::aead::UnboundKey::new(&ring::aead::AES_128_GCM, key)
        .map_err(|_| CryptoError::Provider)?;
    let sealing_key = ring::aead::LessSafeKey::new(unbound);
    let nonce = ring::aead::Nonce::try_assume_unique_for_key(nonce)
        .map_err(|_| CryptoError::Provider)?;
    let mut in_out = plaintext.to_vec();
    sealing_key.seal_in_place_append_tag(nonce, ring::aead::Aad::empty(), &mut in_out)
        .map_err(|_| CryptoError::Provider)?;
    Ok(in_out)
}

/// Relies on ring's AES-128-GCM `open_in_place` (empty AAD): it succeeds
/// exactly on the output of sealing under the same key and nonce, and
/// then returns that plaintext.
#[verifier::external_body]
fn gcm_open(key: &[u8], nonce: &[u8], body: &[u8]) -> (r: Option<Vec<u8>>)
    requires
        key@.len() == 16,
        nonce@.len() == 12,
    ensures
        match r {
            Some(pt) => sealed_record(key@, nonce@, pt@, body@),
            None => forall|p: Seq<u8>| gcm_seal_of(key@, nonce@, p) != body@,
        },
{
    let unbound = ring::aead::UnboundKey::new(&ring::aead::AES_128_GCM, key).ok()?;
    let opening_key = ring::aead::LessSafeKey::new(unbound);
    let nonce = ring::aead::Nonce::try_assume_unique_for_key(nonce).ok()?;
    let mut in_out = body.to_vec();
    let pt = opening_key.open_in_place(nonce, ring::aead::Aad::empty(), &mut in_out).ok()?;
    Some(pt.to_vec())
}

/// A full wire record: length header, nonce, ciphertext-with-tag.
pub open spec fn spec_frame(nonce: Seq<u8>, body: Seq<u8>) -> Seq<u8>
    recommends
        12 + body.len() <= 0xffff_ffff,
{
    spec_u32_be((12 + body.len()) as u32) + nonce + body
}

/// `frame` carries `chunk` as the record with sequence number `seq`.
pub open spec fn is_record_for(key: Seq<u8>, seq: u64, chunk: Seq<u8>, frame: Seq<u8>) -> bool {
    exists|nonce: Seq<u8>, body: Seq<u8>|
        #![trigger sealed_record(key, nonce, spec_u64_be(seq) + chunk, body)]
        {
            &&& nonce.len() == 12
            &&& sealed_record(key, nonce, spec_u64_be(seq) + chunk, body)
            &&& frame == spec_frame(nonce, body)
        }
}

/// `frames` carry exactly `payload`, split in order, with consecutive
/// sequence numbers from `start_seq`.
pub open spec fn records_deliver(
    key: Seq<u8>,
    start_seq: int,
    frames: Seq<Seq<u8>>,
    payload: Seq<u8>,
) -> bool
    decreases frames.len(),
{
    if frames.len() == 0 {
        payload.len() == 0
    } else {
        &&& 0 <= start_seq <= u64::MAX
        &&& exists|k: int|
            #![trigger payload.take(k)]
            {
                &&& 0 <= k <= payload.len()
                &&& is_record_for(key, start_seq as u64, payload.take(k), frames[0])
                &&& records_deliver(key, start_seq + 1, frames.drop_first(), payload.skip(k))
            }
    }
}

/// Appending one more record extends the delivered payload.
pub proof fn lemma_records_deliver_snoc(
    key: Seq<u8>,
    start_seq: int,
    frames: Seq<Seq<u8>>,
    payload: Seq<u8>,
    chunk: Seq<u8>,
    frame: Seq<u8>,
)
    requires
        records_deliver(key, start_seq, frames, payload),
        0 <= start_seq,
        start_seq + frames.len() <= u64::MAX,
        is_record_for(key, (start_seq + frames.len()) as u64, chunk, frame),
    ensures
        records_deliver(key, start_seq, frames.push(frame), payload + chunk),
    decreases frames.len(),
{
    if frames.len() == 0 {
        assert(payload.len() == 0);
        assert(payload + chunk =~= chunk);
        let all = payload + chunk;
        assert(all.take(all.len() as int) =~= chunk);
        assert(all.skip(all.len() as int).len() == 0);
        assert(frames.push(frame)[0] == frame);
        assert(frames.push(frame).drop_first() =~= Seq::<Seq<u8>>::empty());
        assert(records_deliver(key, start_seq + 1, frames.push(frame).drop_first(), all.skip(
            all.len() as int,
        )));
        assert(is_record_for(key, start_seq as u64, all.take(all.len() as int), frames.push(
            frame,
        )[0]));
    } else {
        let k = choose|k: int|
            #![trigger payload.take(k)]
            {
                &&& 0 <= k <= payload.len()
                &&& is_record_for(key, start_seq as u64, payload.take(k), frames[0])
                &&& records_deliver(key, start_seq + 1, frames.drop_first(), payload.skip(k))
            };
        lemma_records_deliver_snoc(
            key,
            start_seq + 1,
            frames.drop_first(),
            payload.skip(k),
            chunk,
            frame,
        );
        let all = payload + chunk;
        assert(all.take(k) =~= payload.take(k));
        assert(all.skip(k) =~= payload.skip(k) + chunk);
        assert(frames.push(frame).drop_first() =~= frames.drop_first().push(frame));
        assert(frames.push(frame)[0] == frames[0]);
        assert(is_record_for(key, start_seq as u64, all.take(k), frames.push(frame)[0]));
    }
}

/// The most records one `write` call can emit: one per full payload
/// chunk, plus one for the partially filled buffer.
pub open spec fn spec_flush_bound(buffered: int, data_len: int, capacity: int) -> int
    recommends
        capacity > 36,
{
    (buffered + data_len) / (capacity - 36) + 1
}

/// The writing half: buffers payload bytes, emits sealed records.
pub struct EncryptedWriter {
    key: Vec<u8>,
    seq: u64,
    buf: Vec<u8>,
    capacity: usize,
    sent: Ghost<Seq<u8>>,
}

impl EncryptedWriter {
    pub closed spec fn key_view(&self) -> Seq<u8> {
        self.key@
    }

    pub closed spec fn seq_view(&self) -> u64 {
        self.seq
    }

    /// Payload bytes not yet emitted in a record.
    pub closed spec fn buffered_view(&self) -> Seq<u8> {
        self.buf@
    }

    /// Payload bytes already emitted in records.
    pub closed spec fn sent_view(&self) -> Seq<u8> {
        self.sent@
    }

    /// The largest record length this writer emits (the value of the
    /// u32 length field).
    pub closed spec fn capacity_spec(&self) -> usize {
        self.capacity
    }

    pub closed spec fn wf(&self) -> bool {
        &&& self.key@.len() == 16
        &&& 36 < self.capacity <= 0xffff_ffff
        &&& self.buf@.len() < self.capacity - 36
    }

    pub fn with_capacity(capacity: usize, key: &[u8]) -> (r: Self)
        requires
            36 < capacity <= 0xffff_ffff,
            key@.len() == 16,
        ensures
            r.wf(),
            r.key_view() == key@,
            r.capacity_spec() == capacity,
            r.seq_view() == 0,
            r.buffered_view().len() == 0,
            r.sent_view().len() == 0,
    {
        let k = copy_bytes(key, 0, key.len());
        proof {
            assert(key@.subrange(0, key@.len() as int) =~= key@);
        }
        Self { key: k, seq: 0, buf: Vec::new(), capacity, sent: Ghost(Seq::empty()) }
    }

    pub fn new(key: &[u8]) -> (r: Self)
        requires
            key@.len() == 16,
        ensures
            r.wf(),
            r.key_view() == key@,
            r.capacity_spec() == DEFAULT_CAPACITY,
            r.seq_view() == 0,
            r.buffered_view().len() == 0,
            r.sent_view().len() == 0,
    {
        Self::with_capacity(DEFAULT_CAPACITY, key)
    }

    /// Seal the buffered payload as one record and reset the buffer.
    fn emit_record(&mut self) -> (r: Result<Vec<u8>, ChannelError>)
        requires
            old(self).key_view().len() == 16,
            36 < old(self).capacity_spec() <= 0xffff_ffff,
            old(self).buffered_view().len() <= old(self).capacity_spec() - 36,
            old(self).seq_view() < u64::MAX,
        ensures
            match r {
                Ok(frame) => {
                    &&& final(self).wf()
                    &&& is_record_for(
                        old(self).key_view(),
                        old(self).seq_view(),
                        old(self).buffered_view(),
                        frame@,
                    )
                    &&& final(self).key_view() == old(self).key_view()
                    &&& final(self).capacity_spec() == old(self).capacity_spec()
                    &&& final(self).seq_view() == old(self).seq_view() + 1
                    &&& final(self).buffered_view().len() == 0
                    &&& final(self).sent_view() == old(self).sent_view() + old(self).buffered_view()
                },
                Err(e) => {
                    &&& *final(self) == *old(self)
                    &&& e == ChannelError::Crypto(CryptoError::Provider)
                },
            },
    {
        let nonce = match random_bytes(12) {
            Ok(n) => n,
            Err(e) => {
                return Err(ChannelError::Crypto(e));
            },
        };
        let mut pt = u64_be(self.seq);
        append_bytes(&mut pt, self.buf.as_slice());
        let body = match gcm_seal(self.key.as_slice(), nonce.as_slice(), pt.as_slice()) {
            Ok(b) => b,
            Err(e) => {
                return Err(ChannelError::Crypto(e));
            },
        };
        let len32: u32 = (12 + body.len()) as u32;
        let mut frame = u32_be(len32);
        append_bytes(&mut frame, nonce.as_slice());
        append_bytes(&mut frame, body.as_slice());
        let ghost old_buf = self.buf@;
        let ghost old_seq = self.seq;
        proof {
            self.sent@ = self.sent@ + self.buf@;
        }
        self.buf = Vec::new();
        self.seq = self.seq + 1;
        proof {
            assert(pt@ =~= spec_u64_be(old_seq) + old_buf);
            assert(frame@ =~= spec_frame(nonce@, body@));
            assert(sealed_record(self.key@, nonce@, spec_u64_be(old_seq) + old_buf, body@));
        }
        Ok(frame)
    }

    /// Buffer `data`, emitting one record for each full
    /// `capacity - 36` bytes of payload. The returned frames, in
    /// order, carry exactly the payload that left the buffer. The
    /// sequence space runs out exactly when the worst-case record
    /// count would pass the last sequence number; a write that only
    /// buffers cannot fail.
    pub fn write(&mut self, data: &[u8]) -> (r: Result<Vec<Vec<u8>>, ChannelError>)
        requires
            old(self).wf(),
        ensures
            match r {
                Ok(records) => ({
                    let all = old(self).buffered_view() + data@;
                    let flushed = all.take(all.len() - final(self).buffered_view().len());
                    &&& final(self).wf()
                    &&& final(self).key_view() == old(self).key_view()
                    &&& final(self).capacity_spec() == old(self).capacity_spec()
                    &&& final(self).buffered_view() == all.skip(
                        all.len() - final(self).buffered_view().len(),
                    )
                    &&& final(self).sent_view() == old(self).sent_view() + flushed
                    &&& final(self).seq_view() == old(self).seq_view() + records@.len()
                    &&& records_deliver(
                        old(self).key_view(),
                        old(self).seq_view() as int,
                        records@.map_values(|v: Vec<u8>| v@),
                        flushed,
                    )
                }),
                Err(e) => {
                    &&& final(self).key_view() == old(self).key_view()
                    &&& final(self).capacity_spec() == old(self).capacity_spec()
                    &&& (e == ChannelError::SequenceExhausted || e == ChannelError::Crypto(
                        CryptoError::Provider,
                    ))
                    &&& (e == ChannelError::SequenceExhausted ==> *final(self) == *old(self))
                },
            },
            r == Err::<Vec<Vec<u8>>, ChannelError>(ChannelError::SequenceExhausted)
                <==> old(self).seq_view() + spec_flush_bound(
                old(self).buffered_view().len() as int,
                data@.len() as int,
                old(self).capacity_spec() as int,
            ) > u64::MAX,
            (old(self).buffered_view().len() + data@.len() < old(self).capacity_spec() - 36
                && old(self).seq_view() < u64::MAX) ==> r is Ok,
    {
        let cap_payload: usize = self.capacity - 36;
        let max_flushes: u128 = (self.buf.len() as u128 + data.len() as u128) / (
        cap_payload as u128) + 1;
        if max_flushes > u64::MAX as u128 || self.seq as u128 > u64::MAX as u128 - max_flushes {
            proof {
                let total = self.buf@.len() + data@.len();
                if total < cap_payload {
                    assert((total as int) / (cap_payload as int) == 0) by (nonlinear_arith)
                        requires
                            0 <= total < cap_payload as int,
                            cap_payload > 0,
                    ;
                }
            }
            return Err(ChannelError::SequenceExhausted);
        }
        let mut records: Vec<Vec<u8>> = Vec::new();
        let mut i: usize = 0;
        let ghost mut flushed: Seq<u8> = Seq::empty();
        let ghost key0 = self.key@;
        let ghost seq0 = self.seq;
        let ghost sent0 = self.sent@;
        let ghost buf0 = self.buf@;
        let ghost cap0 = self.capacity;
        while i < data.len()
            invariant
                0 <= i <= data@.len(),
                self.wf(),
                self.key@ == key0,
                self.capacity == cap0,
                key0 == old(self).key_view(),
                cap0 == old(self).capacity_spec(),
                seq0 == old(self).seq_view(),
                sent0 == old(self).sent_view(),
                buf0 == old(self).buffered_view(),
                36 < cap0 <= 0xffff_ffff,
                cap_payload == cap0 - 36,
                self.sent@ == sent0 + flushed,
                flushed + self.buf@ == buf0 + data@.take(i as int),
                self.seq == seq0 + records@.len(),
                records@.len() * (cap_payload as int) == flushed.len(),
                seq0 + max_flushes <= u64::MAX,
                buf0.len() < cap_payload,
                max_flushes == ((buf0.len() + data@.len()) as int) / (cap_payload as int) + 1,
                records_deliver(key0, seq0 as int, records@.map_values(|v: Vec<u8>| v@), flushed),
            decreases data@.len() - i,
        {
            let ghost buf_before = self.buf@;
            self.buf.push(data[i]);
            i += 1;
            proof {
                assert(self.buf@ == buf_before.push(data@[i - 1]));
                assert(data@.take(i as int) =~= data@.take(i - 1).push(data@[i - 1]));
                assert(flushed + buf_before =~= buf0 + data@.take(i - 1));
                assert(flushed + self.buf@ =~= (flushed + buf_before).push(data@[i - 1]));
                assert(buf0 + data@.take(i as int) =~= (buf0 + data@.take(i - 1)).push(
                    data@[i - 1],
                ));
                assert(flushed + self.buf@ =~= buf0 + data@.take(i as int));
            }
            if self.buf.len() == cap_payload {
                proof {
                    assert(flushed.len() + cap_payload <= buf0.len() + data@.len());
                    assert((records@.len() + 1) * (cap_payload as int) == flushed.len()
                        + cap_payload) by (nonlinear_arith)
                        requires
                            records@.len() * (cap_payload as int) == flushed.len(),
                    ;
                    assert(records@.len() + 1 <= ((buf0.len() + data@.len()) as int) / (
                    cap_payload as int)) by (nonlinear_arith)
                        requires
                            (records@.len() + 1) * (cap_payload as int) <= buf0.len()
                                + data@.len(),
                            cap_payload > 0,
                    ;
                }
                let ghost chunk = self.buf@;
                let ghost records_before = records@;
                let frame = match self.emit_record() {
                    Ok(f) => f,
                    Err(e) => {
                        return Err(e);
                    },
                };
                proof {
                    lemma_records_deliver_snoc(
                        key0,
                        seq0 as int,
                        records@.map_values(|v: Vec<u8>| v@),
                        flushed,
                        chunk,
                        frame@,
                    );
                    flushed = flushed + chunk;
                }
                records.push(frame);
                proof {
                    assert(records@.drop_last() =~= records_before);
                    assert(records@.map_values(|v: Vec<u8>| v@) =~= records_before.map_values(
                        |v: Vec<u8>| v@,
                    ).push(frame@));
                    assert(self.sent@ =~= sent0 + flushed);
                    assert(flushed + self.buf@ =~= flushed);
                    assert(flushed + self.buf@ =~= buf0 + data@.take(i as int));
                }
            }
        }
        proof {
            assert(data@.take(data@.len() as int) =~= data@);
            let all = buf0 + data@;
            assert(flushed =~= all.take(all.len() - self.buf@.len()));
            assert(self.buf@ =~= all.skip(all.len() - self.buf@.len()));
        }
        Ok(records)
    }

    /// Emit the buffered payload, if any, as one record. An empty
    /// buffer flushes to nothing, so a repeated flush emits no second
    /// record.
    pub fn flush(&mut self) -> (r: Result<Option<Vec<u8>>, ChannelError>)
        requires
            old(self).wf(),
        ensures
            match r {
                Ok(opt) => match opt {
                    Some(frame) => {
                        &&& old(self).buffered_view().len() > 0
                        &&& final(self).wf()
                        &&& is_record_for(
                            old(self).key_view(),
                            old(self).seq_view(),
                            old(self).buffered_view(),
                            frame@,
                        )
                        &&& final(self).key_view() == old(self).key_view()
                        &&& final(self).capacity_spec() == old(self).capacity_spec()
                        &&& final(self).seq_view() == old(self).seq_view() + 1
                        &&& final(self).buffered_view().len() == 0
                        &&& final(self).sent_view() == old(self).sent_view() + old(self).buffered_view()
                    },
                    None => *final(self) == *old(self) && old(self).buffered_view().len() == 0,
                },
                Err(ChannelError::SequenceExhausted) => {
                    &&& *final(self) == *old(self)
                    &&& old(self).seq_view() == u64::MAX
                    &&& old(self).buffered_view().len() > 0
                },
                Err(ChannelError::Crypto(e)) => *final(self) == *old(self) && e
                    == CryptoError::Provider,
                Err(_) => false,
            },
            old(self).buffered_view().len() == 0 ==> r == Ok::<Option<Vec<u8>>, ChannelError>(
                None,
            ),
    {
        if self.buf.len() == 0 {
            return Ok(None);
        }
        if self.seq == u64::MAX {
            return Err(ChannelError::SequenceExhausted);
        }
        match self.emit_record() {
            Ok(frame) => Ok(Some(frame)),
            Err(e) => Err(e),
        }
    }
}

/// The reading half: checks headers, opens records in sequence, serves
/// the decrypted payload.
pub struct EncryptedReader {
    key: Vec<u8>,
    expected_seq: u64,
    buf: Vec<u8>,
    cursor: usize,
    capacity: usize,
    delivered: Ghost<Seq<u8>>,
    consumed: Ghost<Seq<u8>>,
}

impl EncryptedReader {
    pub closed spec fn key_view(&self) -> Seq<u8> {
        self.key@
    }

    pub closed spec fn seq_view(&self) -> u64 {
        self.expected_seq
    }

    pub closed spec fn capacity_spec(&self) -> usize {
        self.capacity
    }

    /// Decrypted payload bytes not yet read.
    pub closed spec fn pending(&self) -> Seq<u8> {
        self.buf@.skip(self.cursor as int)
    }

    /// All payload bytes of accepted records, in order.
    pub closed spec fn delivered_view(&self) -> Seq<u8> {
        self.delivered@
    }

    /// Payload bytes already handed out by `read`.
    pub closed spec fn consumed_view(&self) -> Seq<u8> {
        self.consumed@
    }

    pub closed spec fn wf(&self) -> bool {
        &&& self.key@.len() == 16
        &&& 36 < self.capacity <= 0xffff_ffff
        &&& self.cursor <= self.buf@.len()
        &&& self.consumed@ + self.pending() == self.delivered@
    }

    pub fn with_capacity(capacity: usize, key: &[u8]) -> (r: Self)
        requires
            36 < capacity <= 0xffff_ffff,
            key@.len() == 16,
        ensures
            r.wf(),
            r.key_view() == key@,
            r.capacity_spec() == capacity,
            r.seq_view() == 0,
            r.pending().len() == 0,
            r.delivered_view().len() == 0,
            r.consumed_view().len() == 0,
    {
        let k = copy_bytes(key, 0, key.len());
        proof {
            assert(key@.subrange(0, key@.len() as int) =~= key@);
        }
        let r = Self {
            key: k,
            expected_seq: 0,
            buf: Vec::new(),
            cursor: 0,
            capacity,
            delivered: Ghost(Seq::empty()),
            consumed: Ghost(Seq::empty()),
        };
        proof {
            assert(r.consumed@ + r.pending() =~= r.delivered@);
        }
        r
    }

    pub fn new(key: &[u8]) -> (r: Self)
        requires
            key@.len() == 16,
        ensures
            r.wf(),
            r.key_view() == key@,
            r.capacity_spec() == DEFAULT_CAPACITY,
            r.seq_view() == 0,
            r.pending().len() == 0,
            r.delivered_view().len() == 0,
            r.consumed_view().len() == 0,
    {
        Self::with_capacity(DEFAULT_CAPACITY, key)
    }

    /// Check a record's length header before anything else is read: a
    /// declared length beyond the capacity is an invalid-input error,
    /// and one too short to hold a nonce is as well. On success the
    /// result is how many bytes follow the 12-byte nonce.
    pub fn check_header(&self, header: &[u8]) -> (r: Result<usize, ChannelError>)
        requires
            self.wf(),
            header@.len() == 4,
        ensures
            ({
                let declared = spec_u32_from_be(header@[0], header@[1], header@[2], header@[3])
                    as int;
                match r {
                    Ok(n) => 12 <= declared <= self.capacity_spec() && n == declared - 12,
                    Err(e) => e == ChannelError::InvalidInput && (declared < 12 || declared
                        > self.capacity_spec()),
                }
            }),
    {
        let declared = u32_from_be(header[0], header[1], header[2], header[3]);
        if declared < 12 {
            return Err(ChannelError::InvalidInput);
        }
        if declared as u64 > self.capacity as u64 {
            return Err(ChannelError::InvalidInput);
        }
        Ok((declared - 12) as usize)
    }

    /// Open one record. It is accepted exactly when it is a sealing,
    /// under this channel's key and the record's nonce, of this
    /// receiver's expected sequence number followed by payload; the
    /// payload then becomes readable. Anything else — wrong key, wrong
    /// tag, wrong sequence number — is one and the same integrity
    /// error, and the reader is unchanged.
    pub fn accept_record(&mut self, nonce: &[u8], body: &[u8]) -> (r: Result<(), ChannelError>)
        requires
            old(self).wf(),
            nonce@.len() == 12,
            old(self).pending().len() == 0,
            old(self).seq_view() < u64::MAX,
        ensures
            match r {
                Ok(()) => {
                    &&& final(self).wf()
                    &&& final(self).key_view() == old(self).key_view()
                    &&& final(self).capacity_spec() == old(self).capacity_spec()
                    &&& final(self).seq_view() == old(self).seq_view() + 1
                    &&& final(self).consumed_view() == old(self).consumed_view()
                    &&& final(self).delivered_view() == old(self).delivered_view() + final(self).pending()
                    &&& sealed_record(
                        old(self).key_view(),
                        nonce@,
                        spec_u64_be(old(self).seq_view()) + final(self).pending(),
                        body@,
                    )
                },
                Err(e) => {
                    &&& *final(self) == *old(self)
                    &&& e == ChannelError::Integrity
                    &&& forall|p: Seq<u8>|
                        body@ != gcm_seal_of(
                            old(self).key_view(),
                            nonce@,
                            spec_u64_be(old(self).seq_view()) + p,
                        )
                },
            },
    {
        let pt = match gcm_open(self.key.as_slice(), nonce, body) {
            Some(pt) => pt,
            None => {
                return Err(ChannelError::Integrity);
            },
        };
        if pt.len() < 8 {
            proof {
                assert forall|p: Seq<u8>|
                    body@ != gcm_seal_of(self.key@, nonce@, spec_u64_be(self.expected_seq) + p) by {
                    if body@ == gcm_seal_of(self.key@, nonce@, spec_u64_be(self.expected_seq) + p) {
                        assert(spec_u64_be(self.expected_seq) + p =~= pt@);
                        crate::wire::lemma_u64_be_roundtrip(self.expected_seq);
                    }
                }
            }
            return Err(ChannelError::Integrity);
        }
        let seq_bytes = u64_be(self.expected_seq);
        let prefix = &pt.as_slice()[0..8];
        if !bytes_eq(seq_bytes.as_slice(), prefix) {
            proof {
                assert forall|p: Seq<u8>|
                    body@ != gcm_seal_of(self.key@, nonce@, spec_u64_be(self.expected_seq) + p) by {
                    if body@ == gcm_seal_of(self.key@, nonce@, spec_u64_be(self.expected_seq) + p) {
                        assert(spec_u64_be(self.expected_seq) + p =~= pt@);
                        crate::wire::lemma_u64_be_roundtrip(self.expected_seq);
                        assert(pt@.subrange(0, 8) =~= spec_u64_be(self.expected_seq));
                    }
                }
            }
            return Err(ChannelError::Integrity);
        }
        let payload = copy_bytes(pt.as_slice(), 8, pt.len());
        proof {
            crate::wire::lemma_u64_be_roundtrip(self.expected_seq);
            assert(spec_u64_be(self.expected_seq) + payload@ =~= pt@);
        }
        self.buf = payload;
        self.cursor = 0;
        self.expected_seq = self.expected_seq + 1;
        proof {
            self.delivered@ = self.delivered@ + self.buf@;
            assert(self.pending() =~= self.buf@);
            assert(self.consumed@ + self.pending() =~= self.delivered@);
        }
        Ok(())
    }

    /// The sequence number the next record must carry.
    pub fn expected_seq(&self) -> (r: u64)
        ensures
            r == self.seq_view(),
    {
        self.expected_seq
    }

    /// How many decrypted bytes are ready to read.
    pub fn available(&self) -> (r: usize)
        requires
            self.wf(),
        ensures
            r == self.pending().len(),
    {
        self.buf.len() - self.cursor
    }

    /// Read up to `n` bytes of the decrypted payload, in order.
    pub fn read(&mut self, n: usize) -> (r: Vec<u8>)
        requires
            old(self).wf(),
        ensures
            final(self).wf(),
            final(self).key_view() == old(self).key_view(),
            final(self).capacity_spec() == old(self).capacity_spec(),
            final(self).seq_view() == old(self).seq_view(),
            final(self).delivered_view() == old(self).delivered_view(),
            r@ == old(self).pending().take(
                if n <= old(self).pending().len() {
                    n as int
                } else {
                    old(self).pending().len() as int
                },
            ),
            final(self).pending() == old(self).pending().skip(r@.len() as int),
            final(self).consumed_view() == old(self).consumed_view() + r@,
    {
        let avail = self.buf.len() - self.cursor;
        let take_n = if n < avail {
            n
        } else {
            avail
        };
        let r = copy_bytes(self.buf.as_slice(), self.cursor, self.cursor + take_n);
        self.cursor = self.cursor + take_n;
        proof {
            self.consumed@ = self.consumed@ + r@;
            assert(r@ =~= old(self).pending().take(
                if n <= old(self).pending().len() {
                    n as int
                } else {
                    old(self).pending().len() as int
                },
            ));
            assert(self.pending() =~= old(self).pending().skip(r@.len() as int));
            assert(self.consumed@ + self.pending() =~= self.delivered@);
        }
        r
    }
}

/// Equal concatenations with the same head have the same tail.
proof fn lemma_concat_cancel_left(a: Seq<u8>, x: Seq<u8>, y: Seq<u8>)
    requires
        a + x == a + y,
    ensures
        x == y,
{
    assert((a + x).len() == a.len() + x.len());
    assert((a + y).len() == a.len() + y.len());
    assert forall|n: int| 0 <= n < x.len() implies x[n] == y[n] by {
        assert((a + x)[a.len() + n] == x[n]);
        assert((a + y)[a.len() + n] == y[n]);
    }
    assert(x =~= y);
}

/// Concatenation of a sequence of byte chunks.
pub open spec fn concat_all(chunks: Seq<Seq<u8>>) -> Seq<u8>
    decreases chunks.len(),
{
    if chunks.len() == 0 {
        Seq::empty()
    } else {
        chunks[0] + concat_all(chunks.drop_first())
    }
}

/// A frame determines its nonce and body.
proof fn lemma_frame_parts(nonce1: Seq<u8>, body1: Seq<u8>, nonce2: Seq<u8>, body2: Seq<u8>)
    requires
        nonce1.len() == 12,
        nonce2.len() == 12,
        spec_frame(nonce1, body1) == spec_frame(nonce2, body2),
    ensures
        nonce1 == nonce2,
        body1 == body2,
{
    let f1 = spec_frame(nonce1, body1);
    let f2 = spec_frame(nonce2, body2);
    assert(f1.len() == 16 + body1.len());
    assert(f2.len() == 16 + body2.len());
    assert(nonce1 =~= f1.subrange(4, 16));
    assert(nonce2 =~= f2.subrange(4, 16));
    assert(body1 =~= f1.subrange(16, f1.len() as int));
    assert(body2 =~= f2.subrange(16, f2.len() as int));
}

/// Delivery: if a writer emitted `frames` carrying `payload` starting
/// at sequence `start_seq`, and a reader starting at the same sequence
/// accepted each frame's record in order (taking chunk `accepted[i]`
/// from the record with nonce `nonces[i]` and body `bodies[i]`), then
/// the reader's chunks concatenate to exactly `payload`: the channel
/// delivers the written bytes, in order, nothing more and nothing less.
pub proof fn lemma_channel_delivery(
    key: Seq<u8>,
    start_seq: int,
    frames: Seq<Seq<u8>>,
    payload: Seq<u8>,
    nonces: Seq<Seq<u8>>,
    bodies: Seq<Seq<u8>>,
    accepted: Seq<Seq<u8>>,
)
    requires
        records_deliver(key, start_seq, frames, payload),
        nonces.len() == frames.len(),
        bodies.len() == frames.len(),
        accepted.len() == frames.len(),
        forall|i: int| 0 <= i < frames.len() ==> nonces[i].len() == 12,
        forall|i: int|
            0 <= i < frames.len() ==> frames[i] == spec_frame(nonces[i], bodies[i]),
        forall|i: int|
            0 <= i < frames.len() ==> sealed_record(
                key,
                nonces[i],
                spec_u64_be((start_seq + i) as u64) + accepted[i],
                bodies[i],
            ),
    ensures
        concat_all(accepted) == payload,
    decreases frames.len(),
{
    if frames.len() == 0 {
        assert(concat_all(accepted) =~= payload);
    } else {
        let k = choose|k: int|
            #![trigger payload.take(k)]
            {
                &&& 0 <= k <= payload.len()
                &&& is_record_for(key, start_seq as u64, payload.take(k), frames[0])
                &&& records_deliver(key, start_seq + 1, frames.drop_first(), payload.skip(k))
            };
        let (wnonce, wbody) = choose|nonce: Seq<u8>, body: Seq<u8>|
            #![trigger sealed_record(key, nonce, spec_u64_be(start_seq as u64) + payload.take(k), body)]
            {
                &&& nonce.len() == 12
                &&& sealed_record(key, nonce, spec_u64_be(start_seq as u64) + payload.take(k), body)
                &&& frames[0] == spec_frame(nonce, body)
            };
        lemma_frame_parts(wnonce, wbody, nonces[0], bodies[0]);
        crate::wire::lemma_u64_be_roundtrip(start_seq as u64);
        assert(sealed_record(key, nonces[0], spec_u64_be(start_seq as u64) + accepted[0], bodies[0]));
        assert(gcm_seal_of(key, nonces[0], spec_u64_be(start_seq as u64) + accepted[0]) == bodies[0]);
        assert(spec_u64_be(start_seq as u64) + accepted[0] == spec_u64_be(start_seq as u64)
            + payload.take(k));
        lemma_concat_cancel_left(spec_u64_be(start_seq as u64), accepted[0], payload.take(k));
        assert(accepted[0] =~= payload.take(k));
        lemma_channel_delivery(
            key,
            start_seq + 1,
            frames.drop_first(),
            payload.skip(k),
            nonces.drop_first(),
            bodies.drop_first(),
            accepted.drop_first(),
        );
        assert(concat_all(accepted) == accepted[0] + concat_all(accepted.drop_first()));
        assert(concat_all(accepted) =~= payload);
    }
}

/// Replay and reordering: a record sealed with sequence number `i`
/// cannot be accepted by a receiver expecting `j != i` — no payload at
/// all makes its body a valid record for `j`.
pub proof fn lemma_out_of_sequence_rejected(
    key: Seq<u8>,
    nonce: Seq<u8>,
    body: Seq<u8>,
    i: u64,
    p: Seq<u8>,
    j: u64,
)
    requires
        sealed_record(key, nonce, spec_u64_be(i) + p, body),
        i != j,
    ensures
        forall|q: Seq<u8>| body != gcm_seal_of(key, nonce, spec_u64_be(j) + q),
{
    assert forall|q: Seq<u8>| body != gcm_seal_of(key, nonce, spec_u64_be(j) + q) by {
        if body == gcm_seal_of(key, nonce, spec_u64_be(j) + q) {
            assert(spec_u64_be(j) + q =~= spec_u64_be(i) + p);
            crate::wire::lemma_u64_be_roundtrip(i);
            crate::wire::lemma_u64_be_roundtrip(j);
            assert(spec_u64_be(j) =~= (spec_u64_be(j) + q).take(8));
            assert(spec_u64_be(i) =~= (spec_u64_be(i) + p).take(8));
        }
    }
}

} // verus!
