//! Streaming uploads: the size cap checked chunk by chunk, the running
//! SHA-256, the first 4 MiB kept for the image check and thumbnail, and the
//! 8 MiB parts handed to the object store.
use vstd::prelude::*;

use sha2::Digest as _;

use super::magic::{image_magic_ok, image_magic_spec};
use super::{too_large_message, MAX_FILE_BYTES};
use crate::crypto::{extend_bytes, sha256_digest};
use crate::error::{bad_request, lit, AppError};

verus! {

/// A running SHA-256: sha2's `Sha256`, held privately and seen only through
/// the bytes fed to it (`hashed_input`).
#[verifier::external_body]
pub struct RunningSha256 {
    inner: sha2::Sha256,
}

/// The bytes fed so far to a running SHA-256.
pub uninterp spec fn hashed_input(h: RunningSha256) -> Seq<u8>;

/// `Sha256::new()`: a hash of nothing yet.
#[verifier::external_body]
fn sha256_new() -> (h: RunningSha256)
    ensures
        hashed_input(h) == Seq::<u8>::empty(),
{
    RunningSha256 { inner: sha2::Sha256::new() }
}

/// `Digest::update`: feeds `data`.
#[verifier::external_body]
fn sha256_update(h: &mut RunningSha256, data: &[u8])
    ensures
        hashed_input(*final(h)) == hashed_input(*old(h)) + data@,
{
    h.inner.update(data)
}

/// `Digest::finalize`: the digest of everything fed.
#[verifier::external_body]
fn sha256_finalize(h: RunningSha256) -> (r: Vec<u8>)
    ensures
        r@ == sha256_digest(hashed_input(h)),
{
    h.inner.finalize().to_vec()
}

/// Bytes of an upload kept for the image check and the thumbnail (4 MiB).
pub const HEAD_CAP: usize = 4_194_304;

/// Size of the parts sent to the object store (8 MiB).
pub const PART_BYTES: usize = 8_388_608;

/// An upload in progress.
pub struct UploadProgress {
    /// Bytes received.
    total: usize,
    /// Received bytes not yet sent as a part.
    buf: Vec<u8>,
    /// The first received bytes, up to `HEAD_CAP`.
    head: Vec<u8>,
    hasher: RunningSha256,
    /// Everything received.
    received: Ghost<Seq<u8>>,
    /// The parts handed out so far, concatenated.
    sent: Ghost<Seq<u8>>,
}

/// Appends to `head` as much of `chunk` as fits under `HEAD_CAP`.
fn extend_head(head: &mut Vec<u8>, chunk: &[u8])
    requires
        old(head)@.len() <= HEAD_CAP,
    ensures
        final(head)@ == old(head)@ + chunk@.subrange(
            0,
            if HEAD_CAP - old(head)@.len() < chunk@.len() {
                HEAD_CAP - old(head)@.len()
            } else {
                chunk@.len() as int
            },
        ),
{
    let room = HEAD_CAP - head.len();
    let take = if room < chunk.len() {
        room
    } else {
        chunk.len()
    };
    let mut i: usize = 0;
    while i < take
        invariant
            i <= take <= chunk@.len(),
            head@ == old(head)@ + chunk@.subrange(0, i as int),
        decreases take - i,
    {
        head.push(chunk[i]);
        assert(chunk@.subrange(0, i + 1) == chunk@.subrange(0, i as int).push(chunk@[i as int]));
        i = i + 1;
    }
}

/// The first `min(len, HEAD_CAP)` bytes.
pub open spec fn head_of(data: Seq<u8>) -> Seq<u8> {
    if data.len() <= HEAD_CAP {
        data
    } else {
        data.subrange(0, HEAD_CAP as int)
    }
}

impl UploadProgress {
    /// The bytes received so far.
    pub closed spec fn received(&self) -> Seq<u8> {
        self.received@
    }

    /// The bytes handed out as parts so far, in order.
    pub closed spec fn sent(&self) -> Seq<u8> {
        self.sent@
    }

    /// The bytes received and not yet handed out.
    pub closed spec fn pending(&self) -> Seq<u8> {
        self.buf@
    }

    /// The consistency of the counters, the buffer, the head and the hash.
    pub closed spec fn wf(&self) -> bool {
        &&& self.total == self.received@.len()
        &&& self.total <= MAX_FILE_BYTES
        &&& self.sent@ + self.buf@ == self.received@
        &&& self.buf@.len() < PART_BYTES
        &&& self.head@ == head_of(self.received@)
        &&& hashed_input(self.hasher) == self.received@
    }

    /// An upload with nothing received.
    pub fn new() -> (r: UploadProgress)
        ensures
            r.wf(),
            r.received() == Seq::<u8>::empty(),
            r.sent() == Seq::<u8>::empty(),
    {
        let r = UploadProgress {
            total: 0,
            buf: Vec::new(),
            head: Vec::new(),
            hasher: sha256_new(),
            received: Ghost(Seq::empty()),
            sent: Ghost(Seq::empty()),
        };
        assert(r.sent@ + r.buf@ =~= r.received@);
        r
    }

    /// Takes in one chunk. Over 50 MiB in all, the upload is refused (and the
    /// caller aborts the stored parts). Otherwise the chunk is counted,
    /// hashed and buffered, and once 8 MiB are buffered they are handed out
    /// as the next part.
    pub fn push_chunk(&mut self, chunk: &[u8]) -> (r: Result<Option<Vec<u8>>, AppError>)
        requires
            old(self).wf(),
        ensures
            old(self).received().len() + chunk@.len() > MAX_FILE_BYTES ==> bad_request(r, too_large_message())
                && *final(self) == *old(self),
            old(self).received().len() + chunk@.len() <= MAX_FILE_BYTES ==> {
                &&& final(self).wf()
                &&& final(self).received() == old(self).received() + chunk@
                &&& match r {
                    Ok(Some(part)) => final(self).sent() == old(self).sent() + part@
                        && part@.len() >= PART_BYTES && final(self).pending().len() == 0,
                    Ok(None) => final(self).sent() == old(self).sent(),
                    Err(_) => false,
                }
            },
    {
        if chunk.len() > MAX_FILE_BYTES - self.total {
            return Err(AppError::BadRequest(lit("file too large: max 52428800 bytes")));
        }
        let ghost before = self.received@;
        self.total = self.total + chunk.len();
        sha256_update(&mut self.hasher, chunk);
        extend_head(&mut self.head, chunk);
        proof {
            if before.len() < HEAD_CAP {
                assert(head_of(before) == before);
                if before.len() + chunk@.len() <= HEAD_CAP {
                    assert(chunk@.subrange(0, chunk@.len() as int) == chunk@);
                } else {
                    assert((before + chunk@).subrange(0, HEAD_CAP as int) =~= before
                        + chunk@.subrange(0, HEAD_CAP - before.len()));
                }
            } else {
                assert(head_of(before + chunk@) =~= head_of(before));
                assert(chunk@.subrange(0, 0) =~= Seq::<u8>::empty());
            }
        }
        assert(self.head@ =~= head_of(before + chunk@));
        extend_bytes(&mut self.buf, chunk);
        self.received = Ghost(before + chunk@);
        assert(self.sent@ + self.buf@ =~= self.received@);
        if self.buf.len() >= PART_BYTES {
            let mut part: Vec<u8> = Vec::new();
            std::mem::swap(&mut part, &mut self.buf);
            self.sent = Ghost(self.sent@ + part@);
            assert(self.sent@ + self.buf@ =~= self.received@);
            Ok(Some(part))
        } else {
            Ok(None)
        }
    }

    /// Ends the upload: the last part (when bytes are pending), the size, the
    /// SHA-256 of everything received, and the first bytes.
    pub fn finish(self) -> (r: (Option<Vec<u8>>, usize, Vec<u8>, Vec<u8>))
        requires
            self.wf(),
        ensures
            match r.0 {
                Some(part) => self.sent() + part@ == self.received() && part@.len() > 0,
                None => self.sent() == self.received(),
            },
            r.1 == self.received().len(),
            r.1 <= MAX_FILE_BYTES,
            r.2@ == sha256_digest(self.received()),
            r.3@ == head_of(self.received()),
    {
        let UploadProgress { total, buf, head, hasher, received, sent } = self;
        let digest = sha256_finalize(hasher);
        let last = if buf.len() > 0 {
            Some(buf)
        } else {
            assert(sent@ + buf@ =~= sent@);
            None
        };
        (last, total, digest, head)
    }
}

/// The byte strings of `s` one after another.
pub open spec fn concat(s: Seq<Seq<u8>>) -> Seq<u8>
    decreases s.len(),
{
    if s.len() == 0 {
        Seq::empty()
    } else {
        concat(s.drop_last()) + s.last()
    }
}

/// Everything received goes out as parts, in order: along the states of an
/// upload from `new` (each next state after one accepted `push_chunk` of
/// `chunks[i]` that handed out `parts[i]`, empty for no part), the parts and
/// the last part that `finish` hands out are, concatenated, the chunks.
pub proof fn lemma_parts_cover_upload(
    states: Seq<UploadProgress>,
    chunks: Seq<Seq<u8>>,
    parts: Seq<Seq<u8>>,
    last: Seq<u8>,
)
    requires
        states.len() == chunks.len() + 1,
        parts.len() == chunks.len(),
        states[0].received() == Seq::<u8>::empty(),
        states[0].sent() == Seq::<u8>::empty(),
        forall|i: int|
            0 <= i < chunks.len() ==> (#[trigger] states[i + 1]).received() == states[i].received() + chunks[i]
                && states[i + 1].sent() == states[i].sent() + parts[i],
        states.last().sent() + last == states.last().received(),
    ensures
        concat(parts) + last == concat(chunks),
    decreases chunks.len(),
{
    lemma_states_are_prefixes(states, chunks, parts, chunks.len() as int);
    assert(chunks.subrange(0, chunks.len() as int) == chunks);
    assert(parts.subrange(0, parts.len() as int) == parts);
}

proof fn lemma_states_are_prefixes(
    states: Seq<UploadProgress>,
    chunks: Seq<Seq<u8>>,
    parts: Seq<Seq<u8>>,
    k: int,
)
    requires
        states.len() == chunks.len() + 1,
        parts.len() == chunks.len(),
        0 <= k <= chunks.len(),
        states[0].received() == Seq::<u8>::empty(),
        states[0].sent() == Seq::<u8>::empty(),
        forall|i: int|
            0 <= i < chunks.len() ==> (#[trigger] states[i + 1]).received() == states[i].received() + chunks[i]
                && states[i + 1].sent() == states[i].sent() + parts[i],
    ensures
        states[k].received() == concat(chunks.subrange(0, k)),
        states[k].sent() == concat(parts.subrange(0, k)),
    decreases k,
{
    if k == 0 {
        assert(chunks.subrange(0, 0).len() == 0);
        assert(parts.subrange(0, 0).len() == 0);
    } else {
        lemma_states_are_prefixes(states, chunks, parts, k - 1);
        assert(chunks.subrange(0, k).drop_last() == chunks.subrange(0, k - 1));
        assert(parts.subrange(0, k).drop_last() == parts.subrange(0, k - 1));
        assert(states[(k - 1) + 1].received() == states[k - 1].received() + chunks[k - 1]);
    }
}

/// The name of a multipart upload without one.
pub fn upload_filename(given: Option<&str>) -> (r: String)
    ensures
        r@ == match given {
            Some(n) => n@,
            None => "upload"@,
        },
{
    match given {
        Some(n) => n.to_owned(),
        None => lit("upload"),
    }
}

/// The content type of a multipart upload without one.
pub fn upload_content_type(given: Option<&str>) -> (r: String)
    ensures
        r@ == match given {
            Some(t) => t@,
            None => "application/octet-stream"@,
        },
{
    match given {
        Some(t) => t.to_owned(),
        None => lit("application/octet-stream"),
    }
}

/// After a streamed upload, a file declared as an image whose first bytes do
/// not look like one is refused (and the stored object removed).
pub fn check_uploaded_image(content_type: &str, head: &[u8]) -> (r: Result<(), AppError>)
    ensures
        image_magic_spec(content_type@, head@) ==> r is Ok,
        !image_magic_spec(content_type@, head@) ==> bad_request(r, "image magic-byte check failed"@),
{
    if !image_magic_ok(content_type, head) {
        return Err(AppError::BadRequest(lit("image magic-byte check failed")));
    }
    Ok(())
}

/// The head kept of an upload: its first bytes, all of them up to 4 MiB and
/// exactly 4 MiB of a longer upload.
pub proof fn lemma_head_is_first_bytes(data: Seq<u8>)
    ensures
        head_of(data).len() == (if data.len() <= 4_194_304 { data.len() as int } else { 4_194_304 }),
        forall|i: int| 0 <= i < head_of(data).len() ==> #[trigger] head_of(data)[i] == data[i],
{
}

} // verus!
