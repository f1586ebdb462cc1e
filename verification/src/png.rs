//! The container: a fixed 8-byte signature followed by an ordered sequence
//! of chunks, with parsing, serialization, lookup, insertion, removal and a
//! human-readable listing.

use vstd::prelude::*;

use crate::chunk::{lemma_chunk_parse_exact, spec_parse_chunk, Chunk, ChunkModel};
use crate::chunk_type::spec_code_matches;
use crate::error::PngError;
use crate::text::chars_of_bytes;

verus! {

use vstd::slice::slice_subrange;
use vstd::string::StringExecFns;
use vstd::utf8::{decode_utf8, valid_utf8};

/// The fixed 8 bytes that every container starts with.
pub open spec fn spec_signature() -> Seq<u8> {
    seq![0x89u8, 0x50u8, 0x4eu8, 0x47u8, 0x0du8, 0x0au8, 0x1au8, 0x0au8]
}

/// The models of a sequence of chunks.
pub open spec fn views_of(chunks: Seq<Chunk>) -> Seq<ChunkModel> {
    Seq::new(chunks.len(), |i: int| chunks[i]@)
}

/// The serialized chunk stream: each chunk's bytes, concatenated in order.
pub open spec fn spec_chunks_bytes(cs: Seq<ChunkModel>) -> Seq<u8>
    decreases cs.len(),
{
    if cs.len() == 0 {
        Seq::empty()
    } else {
        cs[0].spec_bytes() + spec_chunks_bytes(cs.drop_first())
    }
}

/// The container's serialized form: the signature, then the chunk stream.
pub open spec fn spec_png_bytes(cs: Seq<ChunkModel>) -> Seq<u8> {
    spec_signature() + spec_chunks_bytes(cs)
}

/// What parsing a chunk stream yields: chunks parsed one after the other
/// until the bytes run out, any chunk-level failure propagated unchanged.
pub open spec fn spec_parse_chunks(b: Seq<u8>) -> Result<Seq<ChunkModel>, PngError>
    decreases b.len(),
{
    if b.len() == 0 {
        Ok(Seq::empty())
    } else {
        match spec_parse_chunk(b) {
            Err(e) => Err(e),
            Ok(m) => if 0 < m.size() <= b.len() {
                match spec_parse_chunks(b.skip(m.size())) {
                    Err(e) => Err(e),
                    Ok(rest) => Ok(seq![m] + rest),
                }
            } else {
                Err(PngError::Truncated)
            },
        }
    }
}

/// What parsing a whole container yields: the signature is demanded first,
/// then the chunk stream fills the rest of the buffer exactly.
pub open spec fn spec_parse_png(b: Seq<u8>) -> Result<Seq<ChunkModel>, PngError> {
    if b.len() < 8 || b.subrange(0, 8) != spec_signature() {
        Err(PngError::BadSignature)
    } else {
        spec_parse_chunks(b.skip(8))
    }
}

/// A parsed prefix grafted onto the outcome of parsing the rest.
spec fn spec_graft(
    prefix: Seq<ChunkModel>,
    rest: Result<Seq<ChunkModel>, PngError>,
) -> Result<Seq<ChunkModel>, PngError> {
    match rest {
        Ok(cs) => Ok(prefix + cs),
        Err(e) => Err(e),
    }
}

/// Appending one chunk extends the serialized stream by that chunk's bytes.
proof fn lemma_chunks_bytes_snoc(cs: Seq<ChunkModel>, m: ChunkModel)
    ensures
        spec_chunks_bytes(cs.push(m)) == spec_chunks_bytes(cs) + m.spec_bytes(),
    decreases cs.len(),
{
    let s = cs.push(m);
    assert(s.len() == cs.len() + 1);
    if cs.len() == 0 {
        assert(s[0] == m);
        assert(s.drop_first() =~= Seq::<ChunkModel>::empty());
        assert(spec_chunks_bytes(s) == m.spec_bytes() + spec_chunks_bytes(
            Seq::<ChunkModel>::empty(),
        ));
        assert(spec_chunks_bytes(s) =~= spec_chunks_bytes(cs) + m.spec_bytes());
    } else {
        assert(s[0] == cs[0]);
        assert(s.drop_first() =~= cs.drop_first().push(m));
        lemma_chunks_bytes_snoc(cs.drop_first(), m);
        assert(spec_chunks_bytes(s) == cs[0].spec_bytes() + (spec_chunks_bytes(cs.drop_first())
            + m.spec_bytes()));
        assert(spec_chunks_bytes(s) =~= spec_chunks_bytes(cs) + m.spec_bytes());
    }
}

/// A byte sequence splits into the part before `k` and the part from `k` on.
proof fn lemma_split_concat(b: Seq<u8>, k: int)
    requires
        0 <= k <= b.len(),
    ensures
        b.subrange(0, k) + b.skip(k) == b,
{
    assert(b.subrange(0, k) + b.skip(k) =~= b);
}

/// A chunk stream that parses serializes back to exactly the same bytes.
#[verifier::spinoff_prover]
#[verifier::rlimit(50)]
proof fn lemma_chunks_round_trip(b: Seq<u8>)
    ensures
        spec_parse_chunks(b) matches Ok(cs) ==> spec_chunks_bytes(cs) == b,
    decreases b.len(),
{
    if spec_parse_chunks(b) is Ok && b.len() > 0 {
        let m = spec_parse_chunk(b)->Ok_0;
        lemma_chunk_parse_exact(b);
        let rest = b.skip(m.size());
        lemma_chunks_round_trip(rest);
        let cs = spec_parse_chunks(b)->Ok_0;
        let cs_rest = spec_parse_chunks(rest)->Ok_0;
        assert(cs == seq![m] + cs_rest);
        assert(cs.len() == 1 + cs_rest.len());
        assert(cs[0] == m);
        assert(cs.drop_first() =~= cs_rest);
        assert(spec_chunks_bytes(cs) == cs[0].spec_bytes() + spec_chunks_bytes(cs.drop_first()));
        assert(spec_chunks_bytes(cs_rest) == rest);
        assert(spec_chunks_bytes(cs) == m.spec_bytes() + rest);
        assert(m.spec_bytes() == b.subrange(0, m.size()));
        lemma_split_concat(b, m.size());
        assert(spec_chunks_bytes(cs) == b);
    }
}

/// Round trip: any byte buffer that parses as a container serializes back
/// to exactly those bytes.
pub proof fn lemma_png_round_trip(b: Seq<u8>)
    ensures
        spec_parse_png(b) matches Ok(cs) ==> spec_png_bytes(cs) == b,
{
    if spec_parse_png(b) is Ok {
        let cs = spec_parse_png(b)->Ok_0;
        lemma_chunks_round_trip(b.skip(8));
        assert(spec_chunks_bytes(cs) == b.skip(8));
        assert(b.subrange(0, 8) == spec_signature());
        assert(b.subrange(0, 8) + b.skip(8) =~= b);
        assert(spec_png_bytes(cs) == b);
    }
}

/// The position of the first chunk whose type spells `code`, if any.
pub open spec fn spec_find(cs: Seq<ChunkModel>, code: Seq<char>) -> Option<int>
    decreases cs.len(),
{
    if cs.len() == 0 {
        None
    } else if spec_code_matches(cs[0].type_bytes, code) {
        Some(0)
    } else {
        match spec_find(cs.drop_first(), code) {
            None => None,
            Some(i) => Some(i + 1),
        }
    }
}

/// `spec_find` yields the first matching position: a hit matches and
/// nothing before it does; a miss means nothing matches at all.
pub proof fn lemma_find_first(cs: Seq<ChunkModel>, code: Seq<char>)
    ensures
        match spec_find(cs, code) {
            Some(i) => 0 <= i < cs.len() && spec_code_matches(cs[i].type_bytes, code) && forall|
                j: int,
            | 0 <= j < i ==> !spec_code_matches(#[trigger] cs[j].type_bytes, code),
            None => forall|j: int|
                0 <= j < cs.len() ==> !spec_code_matches(#[trigger] cs[j].type_bytes, code),
        },
    decreases cs.len(),
{
    if cs.len() > 0 && !spec_code_matches(cs[0].type_bytes, code) {
        lemma_find_first(cs.drop_first(), code);
        assert forall|j: int| 0 <= j < cs.len() && j >= 1 implies cs.drop_first()[j - 1]
            == cs[j] by {}
    }
}

/// If nothing matches before position `i`, then a match at `i` makes it the
/// found position, and reaching the end without one makes the search miss.
proof fn lemma_find_at(cs: Seq<ChunkModel>, code: Seq<char>, i: int)
    requires
        0 <= i <= cs.len(),
        forall|j: int| 0 <= j < i ==> !spec_code_matches(#[trigger] cs[j].type_bytes, code),
    ensures
        i < cs.len() && spec_code_matches(cs[i].type_bytes, code) ==> spec_find(cs, code) == Some(
            i,
        ),
        i == cs.len() ==> spec_find(cs, code) is None,
    decreases cs.len(),
{
    if cs.len() > 0 && i > 0 {
        assert(!spec_code_matches(cs[0].type_bytes, code));
        assert forall|j: int| 0 <= j < i - 1 implies !spec_code_matches(
            #[trigger] cs.drop_first()[j].type_bytes,
            code,
        ) by {
            assert(cs.drop_first()[j] == cs[j + 1]);
        }
        lemma_find_at(cs.drop_first(), code, i - 1);
        if i < cs.len() {
            assert(cs.drop_first()[i - 1] == cs[i - 1 + 1]);
        }
    }
}

/// Appending a chunk whose type spells `code` makes a search for `code`
/// succeed: it finds the appended chunk when no earlier chunk matched, and
/// the same earlier chunk as before otherwise.
pub proof fn lemma_find_appended(cs: Seq<ChunkModel>, m: ChunkModel, code: Seq<char>)
    requires
        spec_code_matches(m.type_bytes, code),
    ensures
        spec_find(cs.push(m), code) is Some,
        spec_find(cs, code) is None ==> spec_find(cs.push(m), code) == Some(cs.len() as int),
        spec_find(cs, code) matches Some(i) ==> spec_find(cs.push(m), code) == Some(i),
    decreases cs.len(),
{
    if cs.len() == 0 {
        assert(cs.push(m)[0] == m);
    } else {
        assert(cs.push(m)[0] == cs[0]);
        assert(cs.push(m).drop_first() =~= cs.drop_first().push(m));
        lemma_find_appended(cs.drop_first(), m, code);
    }
}

/// One line of the listing: the chunk's type, a separator, and the payload
/// as text when it is valid UTF-8, a fixed placeholder otherwise.
pub open spec fn spec_render_chunk(m: ChunkModel) -> Seq<char> {
    chars_of_bytes(m.type_bytes) + ": "@ + (if valid_utf8(m.data) {
        decode_utf8(m.data)
    } else {
        "<invalid data>"@
    }) + "\n"@
}

/// The listing of all chunks, one line each, in stream order.
pub open spec fn spec_render(cs: Seq<ChunkModel>) -> Seq<char>
    decreases cs.len(),
{
    if cs.len() == 0 {
        Seq::empty()
    } else {
        spec_render_chunk(cs[0]) + spec_render(cs.drop_first())
    }
}

/// Rendering one more chunk appends exactly that chunk's line.
proof fn lemma_render_snoc(cs: Seq<ChunkModel>, m: ChunkModel)
    ensures
        spec_render(cs.push(m)) == spec_render(cs) + spec_render_chunk(m),
    decreases cs.len(),
{
    let s = cs.push(m);
    assert(s.len() == cs.len() + 1);
    if cs.len() == 0 {
        assert(s[0] == m);
        assert(s.drop_first() =~= Seq::<ChunkModel>::empty());
        assert(spec_render(s) == spec_render_chunk(m) + spec_render(Seq::<ChunkModel>::empty()));
        assert(spec_render(s) =~= spec_render(cs) + spec_render_chunk(m));
    } else {
        assert(s[0] == cs[0]);
        assert(s.drop_first() =~= cs.drop_first().push(m));
        lemma_render_snoc(cs.drop_first(), m);
        assert(spec_render(s) == spec_render_chunk(cs[0]) + (spec_render(cs.drop_first())
            + spec_render_chunk(m)));
        assert(spec_render(s) =~= spec_render(cs) + spec_render_chunk(m));
    }
}

/// The buffer starts with the container signature.
fn has_signature(bytes: &[u8]) -> (r: bool)
    requires
        bytes@.len() >= 8,
    ensures
        r == (bytes@.subrange(0, 8) == spec_signature()),
{
    let r = bytes[0] == 0x89 && bytes[1] == 0x50 && bytes[2] == 0x4e && bytes[3] == 0x47
        && bytes[4] == 0x0d && bytes[5] == 0x0a && bytes[6] == 0x1a && bytes[7] == 0x0a;
    proof {
        let s = bytes@.subrange(0, 8);
        if r {
            assert(s =~= spec_signature());
        } else {
            assert(s != spec_signature()) by {
                if s == spec_signature() {
                    assert(s[0] == 0x89 && s[1] == 0x50 && s[2] == 0x4e && s[3] == 0x47 && s[4]
                        == 0x0d && s[5] == 0x0a && s[6] == 0x1a && s[7] == 0x0a);
                }
            }
        }
    }
    r
}

/// The container: an ordered sequence of chunks. Its view is the sequence
/// of their models, in stream order.
#[derive(Debug)]
pub struct Png {
    chunks: Vec<Chunk>,
}

impl View for Png {
    type V = Seq<ChunkModel>;

    closed spec fn view(&self) -> Seq<ChunkModel> {
        views_of(self.chunks@)
    }
}

impl Png {
    /// An empty container.
    pub fn new() -> (r: Png)
        ensures
            r@ == Seq::<ChunkModel>::empty(),
    {
        let p = Png { chunks: Vec::new() };
        proof {
            assert(p@ =~= Seq::<ChunkModel>::empty());
        }
        p
    }

    /// Parses a full buffer: the signature, then chunks until the bytes run
    /// out, propagating any chunk-level failure unchanged.
    pub fn parse(bytes: &[u8]) -> (r: Result<Png, PngError>)
        ensures
            match r {
                Ok(p) => spec_parse_png(bytes@) == Ok::<Seq<ChunkModel>, PngError>(p@),
                Err(e) => spec_parse_png(bytes@) == Err::<Seq<ChunkModel>, PngError>(e),
            },
    {
        if bytes.len() < 8 {
            return Err(PngError::BadSignature);
        }
        if !has_signature(bytes) {
            return Err(PngError::BadSignature);
        }
        let mut chunks: Vec<Chunk> = Vec::new();
        let mut offset: usize = 8;
        while offset < bytes.len()
            invariant
                8 <= offset <= bytes@.len(),
                bytes@.len() >= 8,
                bytes@.subrange(0, 8) == spec_signature(),
                spec_parse_chunks(bytes@.skip(8)) == spec_graft(
                    views_of(chunks@),
                    spec_parse_chunks(bytes@.skip(offset as int)),
                ),
            decreases bytes@.len() - offset,
        {
            let tail = slice_subrange(bytes, offset, bytes.len());
            proof {
                assert(tail@ =~= bytes@.skip(offset as int));
            }
            let c = match Chunk::parse(tail) {
                Ok(c) => c,
                Err(e) => {
                    return Err(e);
                },
            };
            let ghost m = c@;
            proof {
                lemma_chunk_parse_exact(tail@);
            }
            let len = c.length() as usize;
            let ghost prev = views_of(chunks@);
            chunks.push(c);
            proof {
                assert(views_of(chunks@) =~= prev.push(m));
                let tailseq = bytes@.skip(offset as int);
                let next = bytes@.skip(offset as int + m.size());
                assert(tailseq.skip(m.size()) =~= next);
                match spec_parse_chunks(next) {
                    Ok(rest) => {
                        assert(spec_parse_chunks(tailseq) == Ok::<Seq<ChunkModel>, PngError>(
                            seq![m] + rest,
                        ));
                        assert(prev + (seq![m] + rest) =~= prev.push(m) + rest);
                    },
                    Err(_) => {},
                }
            }
            offset = offset + 12 + len;
        }
        let ghost vs = views_of(chunks@);
        let p = Png { chunks };
        proof {
            assert(bytes@.skip(offset as int) =~= Seq::<u8>::empty());
            assert(p@ =~= vs + Seq::<ChunkModel>::empty());
        }
        Ok(p)
    }

    /// The container's exact serialized form: signature, then every chunk.
    pub fn as_bytes(&self) -> (r: Vec<u8>)
        ensures
            r@ == spec_png_bytes(self@),
    {
        let mut out: Vec<u8> = Vec::new();
        out.push(0x89);
        out.push(0x50);
        out.push(0x4e);
        out.push(0x47);
        out.push(0x0d);
        out.push(0x0a);
        out.push(0x1a);
        out.push(0x0a);
        proof {
            assert(out@ =~= spec_signature());
            assert(self@.subrange(0, 0) =~= Seq::<ChunkModel>::empty());
        }
        let mut i: usize = 0;
        while i < self.chunks.len()
            invariant
                i <= self.chunks@.len(),
                self@.len() == self.chunks@.len(),
                out@ == spec_signature() + spec_chunks_bytes(self@.subrange(0, i as int)),
            decreases self.chunks@.len() - i,
        {
            let mut cb = self.chunks[i].as_bytes();
            proof {
                assert(self.chunks@[i as int]@ == self@[i as int]);
                lemma_chunks_bytes_snoc(self@.subrange(0, i as int), self@[i as int]);
                assert(self@.subrange(0, i as int).push(self@[i as int]) =~= self@.subrange(
                    0,
                    i as int + 1,
                ));
            }
            out.append(&mut cb);
            proof {
                assert(out@ =~= spec_signature() + spec_chunks_bytes(
                    self@.subrange(0, i as int + 1),
                ));
            }
            i += 1;
        }
        proof {
            assert(self@.subrange(0, self@.len() as int) =~= self@);
        }
        out
    }

    /// Appends a chunk at the end of the sequence; always succeeds.
    pub fn append_chunk(&mut self, chunk: Chunk)
        ensures
            final(self)@ == old(self)@.push(chunk@),
    {
        let ghost m = chunk@;
        self.chunks.push(chunk);
        proof {
            assert(self@ =~= old(self)@.push(m));
        }
    }

    /// The first chunk whose type spells `type_code`, scanned in stream
    /// order; absence is a normal outcome, not an error.
    pub fn find_first_by_type(&self, type_code: &str) -> (r: Option<&Chunk>)
        ensures
            r is Some <==> spec_find(self@, type_code@) is Some,
            r matches Some(c) ==> (spec_find(self@, type_code@) matches Some(i) && c@
                == self@[i]),
    {
        let mut i: usize = 0;
        while i < self.chunks.len()
            invariant
                i <= self.chunks@.len(),
                self@.len() == self.chunks@.len(),
                forall|j: int|
                    0 <= j < i ==> !spec_code_matches(#[trigger] self@[j].type_bytes, type_code@),
            decreases self.chunks@.len() - i,
        {
            let c = &self.chunks[i];
            proof {
                assert(c@ == self@[i as int]);
            }
            if c.chunk_type().matches_code(type_code) {
                proof {
                    lemma_find_at(self@, type_code@, i as int);
                }
                return Some(c);
            }
            i += 1;
        }
        proof {
            lemma_find_at(self@, type_code@, self@.len() as int);
        }
        None
    }

    /// Removes and returns the first chunk whose type spells `type_code`,
    /// keeping every other chunk in its original relative order; fails with
    /// the not-found error when no chunk matches.
    pub fn remove_first_by_type(&mut self, type_code: &str) -> (r: Result<Chunk, PngError>)
        ensures
            r is Ok <==> spec_find(old(self)@, type_code@) is Some,
            r matches Ok(c) ==> (spec_find(old(self)@, type_code@) matches Some(i) && c@ == old(
                self,
            )@[i] && final(self)@ == old(self)@.remove(i)),
            r matches Err(e) ==> e == PngError::ChunkNotFound && final(self)@ == old(self)@,
    {
        let mut i: usize = 0;
        while i < self.chunks.len()
            invariant
                i <= self.chunks@.len(),
                self@.len() == self.chunks@.len(),
                self@ == old(self)@,
                forall|j: int|
                    0 <= j < i ==> !spec_code_matches(#[trigger] self@[j].type_bytes, type_code@),
            decreases self.chunks@.len() - i,
        {
            let matched = {
                let c = &self.chunks[i];
                proof {
                    assert(c@ == self@[i as int]);
                }
                c.chunk_type().matches_code(type_code)
            };
            if matched {
                proof {
                    lemma_find_at(self@, type_code@, i as int);
                }
                let c = self.chunks.remove(i);
                proof {
                    assert(self@ =~= old(self)@.remove(i as int));
                }
                return Ok(c);
            }
            i += 1;
        }
        proof {
            lemma_find_at(self@, type_code@, self@.len() as int);
        }
        Err(PngError::ChunkNotFound)
    }

    /// The listing of all chunks, one line per chunk, never failing: a
    /// payload that is not text is shown as a fixed placeholder.
    pub fn render(&self) -> (r: String)
        ensures
            r@ == spec_render(self@),
    {
        let mut out = String::new();
        proof {
            assert(self@.subrange(0, 0) =~= Seq::<ChunkModel>::empty());
        }
        let mut i: usize = 0;
        while i < self.chunks.len()
            invariant
                i <= self.chunks@.len(),
                self@.len() == self.chunks@.len(),
                out@ == spec_render(self@.subrange(0, i as int)),
            decreases self.chunks@.len() - i,
        {
            let c = &self.chunks[i];
            proof {
                assert(c@ == self@[i as int]);
            }
            let ts = c.chunk_type().to_string();
            out.append(ts.as_str());
            out.append(": ");
            match c.data_as_string() {
                Ok(t) => out.append(t.as_str()),
                Err(_) => out.append("<invalid data>"),
            }
            out.append("\n");
            proof {
                lemma_render_snoc(self@.subrange(0, i as int), self@[i as int]);
                assert(self@.subrange(0, i as int).push(self@[i as int]) =~= self@.subrange(
                    0,
                    i as int + 1,
                ));
                assert(out@ =~= spec_render(self@.subrange(0, i as int + 1)));
            }
            i += 1;
        }
        proof {
            assert(self@.subrange(0, self@.len() as int) =~= self@);
        }
        out
    }
}

} // verus!
