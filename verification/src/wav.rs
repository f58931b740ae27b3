//! WAV containers: the repair of headers that were written to a stream.

use vstd::prelude::*;

verus! {

/// The largest value of a 32-bit size field.
pub const MAX_FIELD: u32 = 4_294_967_295;

/// The 16-bit little-endian field at an offset.
pub open spec fn field16(s: Seq<u8>, at: int) -> nat {
    (s[at] + 256 * s[at + 1]) as nat
}

/// The 32-bit little-endian field at an offset.
pub open spec fn field32(s: Seq<u8>, at: int) -> nat {
    (s[at] + 256 * s[at + 1] + 65536 * s[at + 2] + 16777216 * s[at + 3]) as nat
}

/// The byte of a number at a place of the base 256.
pub open spec fn byte_at(n: nat, place: nat) -> u8 {
    (n / place % 256) as u8
}

/// The bytes with a 32-bit little-endian field overwritten.
pub open spec fn with_field32(s: Seq<u8>, at: int, n: nat) -> Seq<u8> {
    s.update(at, byte_at(n, 1)).update(at + 1, byte_at(n, 256)).update(
        at + 2,
        byte_at(n, 65536),
    ).update(at + 3, byte_at(n, 16777216))
}

/// Four given bytes stand at an offset.
pub open spec fn tagged(s: Seq<u8>, at: int, a: char, b: char, c: char, d: char) -> bool {
    &&& at + 4 <= s.len()
    &&& s[at] == a as u8
    &&& s[at + 1] == b as u8
    &&& s[at + 2] == c as u8
    &&& s[at + 3] == d as u8
}

pub open spec fn has_riff_tag(s: Seq<u8>) -> bool {
    tagged(s, 0, 'R', 'I', 'F', 'F')
}

pub open spec fn has_wave_tag(s: Seq<u8>) -> bool {
    tagged(s, 8, 'W', 'A', 'V', 'E')
}

/// The length of a chunk with its header and padding.
pub open spec fn chunk_len(s: Seq<u8>, at: int) -> int {
    let size = field32(s, at + 4) as int;
    8 + size + size % 2
}

/// The offset of the first `data` chunk, found by walking the chunks from an
/// offset. The walk ends at a chunk that does not fit.
pub open spec fn data_chunk(s: Seq<u8>, at: int) -> Option<int>
    decreases s.len() - at,
{
    if at + 8 > s.len() {
        None
    } else if tagged(s, at, 'd', 'a', 't', 'a') {
        Some(at)
    } else if at + chunk_len(s, at) > s.len() {
        None
    } else {
        data_chunk(s, at + chunk_len(s, at))
    }
}

/// A size that fits its field.
pub open spec fn capped(n: int) -> nat {
    if n > MAX_FIELD {
        MAX_FIELD as nat
    } else {
        n as nat
    }
}

/// The stream with its RIFF size and the size of its `data` chunk set to what is
/// really there. Anything but a WAV stream is left as it is.
pub open spec fn resized(s: Seq<u8>) -> Seq<u8> {
    if !has_riff_tag(s) || !has_wave_tag(s) {
        s
    } else {
        let t = with_field32(s, 4, capped(s.len() - 8));
        match data_chunk(s, 12) {
            None => t,
            Some(at) => with_field32(t, at + 4, capped(s.len() - at - 8)),
        }
    }
}

/// Two byte sequences that agree everywhere except in the four bytes from `gap`.
spec fn same_but(a: Seq<u8>, b: Seq<u8>, gap: int) -> bool {
    &&& a.len() == b.len()
    &&& forall|i: int| 0 <= i < a.len() && !(gap <= i < gap + 4) ==> #[trigger] a[i] == b[i]
}

/// The walk does not depend on bytes before its start.
proof fn lemma_walk_ignores_front(a: Seq<u8>, b: Seq<u8>, gap: int, at: int)
    requires
        same_but(a, b, gap),
        0 <= gap,
        gap + 4 <= at,
    ensures
        data_chunk(a, at) == data_chunk(b, at),
    decreases a.len() - at,
{
    if at + 8 <= a.len() {
        assert(field32(a, at + 4) == field32(b, at + 4));
        if at + chunk_len(a, at) <= a.len() {
            lemma_walk_ignores_front(a, b, gap, at + chunk_len(a, at));
        }
    }
}

/// The walk does not depend on the size field of the chunk it finds.
proof fn lemma_walk_ignores_found_size(a: Seq<u8>, b: Seq<u8>, found: int, at: int)
    requires
        0 <= at,
        data_chunk(a, at) == Some(found),
        same_but(a, b, found + 4),
    ensures
        data_chunk(b, at) == Some(found),
        at <= found,
        found + 8 <= a.len(),
    decreases a.len() - at,
{
    if !tagged(a, at, 'd', 'a', 't', 'a') {
        let next = at + chunk_len(a, at);
        lemma_walk_ignores_found_size(a, b, found, next);
        assert(field32(a, at + 4) == field32(b, at + 4));
    }
}

/// A found chunk has its whole header within the bytes.
proof fn lemma_walk_within(s: Seq<u8>, at: int)
    requires
        0 <= at,
    ensures
        data_chunk(s, at) matches Some(found) ==> at <= found && found + 8 <= s.len() && tagged(
            s,
            found,
            'd',
            'a',
            't',
            'a',
        ),
    decreases s.len() - at,
{
    if at + 8 <= s.len() && !tagged(s, at, 'd', 'a', 't', 'a') && at + chunk_len(s, at)
        <= s.len() {
        lemma_walk_within(s, at + chunk_len(s, at));
    }
}

/// A field reads back what was written to it.
proof fn lemma_field32_written(s: Seq<u8>, at: int, n: nat)
    requires
        0 <= at,
        at + 4 <= s.len(),
        n <= MAX_FIELD,
    ensures
        field32(with_field32(s, at, n), at) == n,
        same_but(s, with_field32(s, at, n), at),
{
    let t = with_field32(s, at, n);
    assert(t[at] == byte_at(n, 1));
    assert(t[at + 1] == byte_at(n, 256));
    assert(t[at + 2] == byte_at(n, 65536));
    assert(t[at + 3] == byte_at(n, 16777216));
    assert(n == n / 1 % 256 + 256 * (n / 256 % 256) + 65536 * (n / 65536 % 256) + 16777216 * (n
        / 16777216 % 256));
}

fn read_field32(s: &Vec<u8>, at: usize) -> (n: u32)
    requires
        at + 4 <= s.len(),
    ensures
        n == field32(s@, at as int),
{
    s[at] as u32 + 256 * (s[at + 1] as u32) + 65536 * (s[at + 2] as u32) + 16777216 * (s[at
        + 3] as u32)
}

fn write_field32(s: &mut Vec<u8>, at: usize, n: u32)
    requires
        at + 4 <= old(s).len(),
    ensures
        final(s)@ == with_field32(old(s)@, at as int, n as nat),
{
    s.set(at, (n / 1 % 256) as u8);
    s.set(at + 1, (n / 256 % 256) as u8);
    s.set(at + 2, (n / 65536 % 256) as u8);
    s.set(at + 3, (n / 16777216 % 256) as u8);
}

fn field_for(n: usize) -> (r: u32)
    ensures
        r == capped(n as int),
{
    if n as u64 > MAX_FIELD as u64 {
        MAX_FIELD
    } else {
        n as u32
    }
}

fn has_tag(s: &Vec<u8>, at: usize, a: char, b: char, c: char, d: char) -> (r: bool)
    ensures
        r == tagged(s@, at as int, a, b, c, d),
{
    let len: usize = s.len();
    len >= 4 && at <= len - 4 && s[at] == a as u8 && s[at + 1] == b as u8 && s[at + 2] == c as u8
        && s[at + 3] == d as u8
}

/// Copies bytes.
fn copied(bytes: &[u8]) -> (r: Vec<u8>)
    ensures
        r@ == bytes@,
{
    let mut out: Vec<u8> = Vec::new();
    let mut i: usize = 0;
    while i < bytes.len()
        invariant
            i <= bytes.len(),
            out@ == bytes@.take(i as int),
        decreases bytes.len() - i,
    {
        out.push(bytes[i]);
        assert(bytes@.take(i + 1) == bytes@.take(i as int).push(bytes@[i as int]));
        i += 1;
    }
    assert(bytes@.take(bytes.len() as int) == bytes@);
    out
}

/// Repairs the size fields of a WAV stream whose writer could not seek back.
pub fn normalize_streamed_wav(wav_bytes: &[u8]) -> (r: Vec<u8>)
    ensures
        r@ == resized(wav_bytes@),
        r@.len() == wav_bytes@.len(),
{
    let mut out = copied(wav_bytes);
    if !has_tag(&out, 0, 'R', 'I', 'F', 'F') || !has_tag(&out, 8, 'W', 'A', 'V', 'E') {
        return out;
    }
    let ghost s = wav_bytes@;
    let len: usize = out.len();
    write_field32(&mut out, 4, field_for(len - 8));
    let ghost t = out@;
    proof {
        lemma_field32_written(s, 4, capped(s.len() - 8));
        lemma_walk_ignores_front(s, t, 4, 12);
    }
    let mut offset: usize = 12;
    while offset <= len - 8
        invariant
            12 <= offset <= len,
            len == out@.len(),
            len == s.len(),
            s == wav_bytes@,
            out@ == t,
            has_riff_tag(s),
            has_wave_tag(s),
            t == with_field32(s, 4, capped(s.len() - 8)),
            data_chunk(s, 12) == data_chunk(t, offset as int),
        decreases len - offset,
    {
        let declared: u64 = read_field32(&out, offset + 4) as u64;
        if has_tag(&out, offset, 'd', 'a', 't', 'a') {
            write_field32(&mut out, offset + 4, field_for(len - (offset + 8)));
            return out;
        }
        let total: u64 = 8 + declared + declared % 2;
        assert(total == chunk_len(t, offset as int));
        if total > (len - offset) as u64 {
            return out;
        }
        offset = offset + total as usize;
    }
    out
}

/// Resizing keeps the length, and outside of the two size fields every byte.
pub proof fn law_resizing_touches_only_size_fields(s: Seq<u8>)
    ensures
        resized(s).len() == s.len(),
        forall|i: int|
            0 <= i < s.len() && !(4 <= i < 8) && !(data_chunk(s, 12) matches Some(at) && at + 4 <= i
                < at + 8) ==> #[trigger] resized(s)[i] == s[i],
{
    lemma_walk_within(s, 12);
}

/// After resizing, the RIFF size and the size of the `data` chunk are the sizes
/// of what follows them, up to the largest value of their fields.
pub proof fn law_resized_fields_match_the_stream(s: Seq<u8>)
    requires
        has_riff_tag(s),
        has_wave_tag(s),
    ensures
        field32(resized(s), 4) == capped(s.len() - 8),
        data_chunk(resized(s), 12) == data_chunk(s, 12),
        data_chunk(s, 12) matches Some(at) ==> field32(resized(s), at + 4) == capped(
            s.len() - at - 8,
        ),
{
    let t = with_field32(s, 4, capped(s.len() - 8));
    lemma_field32_written(s, 4, capped(s.len() - 8));
    lemma_walk_ignores_front(s, t, 4, 12);
    lemma_walk_within(t, 12);
    if let Some(at) = data_chunk(s, 12) {
        lemma_field32_written(t, at + 4, capped(s.len() - at - 8));
        lemma_walk_ignores_found_size(t, resized(s), at, 12);
        assert(field32(resized(s), 4) == field32(t, 4));
    }
}

/// Writing to a field what it holds changes nothing.
proof fn lemma_field32_rewritten(s: Seq<u8>, at: int)
    requires
        0 <= at,
        at + 4 <= s.len(),
    ensures
        with_field32(s, at, field32(s, at)) == s,
{
    let (a, b, c, d) = (s[at], s[at + 1], s[at + 2], s[at + 3]);
    let n = field32(s, at);
    assert(n / 1 % 256 == a && n / 256 % 256 == b && n / 65536 % 256 == c && n / 16777216 % 256
        == d);
    assert(with_field32(s, at, n) =~= s);
}

/// Resizing a second time changes nothing.
pub proof fn law_resizing_is_idempotent(s: Seq<u8>)
    ensures
        resized(resized(s)) == resized(s),
{
    if has_riff_tag(s) && has_wave_tag(s) {
        let r = resized(s);
        law_resized_fields_match_the_stream(s);
        law_resizing_touches_only_size_fields(s);
        lemma_walk_within(s, 12);
        assert(has_riff_tag(r) && has_wave_tag(r));
        lemma_field32_rewritten(r, 4);
        if let Some(at) = data_chunk(s, 12) {
            lemma_field32_rewritten(r, at + 4);
        }
    }
}

/// A stream that is no WAV stream is left as it is.
pub proof fn law_other_streams_are_left_alone(s: Seq<u8>)
    requires
        s.len() < 12 || s.take(4) != seq![82u8, 73, 70, 70] || s.subrange(8, 12) != seq![
            87u8,
            65,
            86,
            69,
        ],
    ensures
        resized(s) == s,
{
    if has_riff_tag(s) && has_wave_tag(s) {
        assert(s.take(4) == seq![82u8, 73, 70, 70]);
        assert(s.subrange(8, 12) == seq![87u8, 65, 86, 69]);
    }
}

/// The four bytes of a number, the least significant first.
pub open spec fn le32(n: nat) -> Seq<u8> {
    seq![
        (n % 256) as u8,
        (n / 256 % 256) as u8,
        (n / 65536 % 256) as u8,
        (n / 16777216 % 256) as u8,
    ]
}

/// A field holds the number whose bytes stand there.
pub proof fn law_fields_hold_their_number(before: Seq<u8>, n: nat, after: Seq<u8>)
    requires
        n <= MAX_FIELD,
    ensures
        field32(before + le32(n) + after, before.len() as int) == n,
{
    let s = before + le32(n) + after;
    let at = before.len() as int;
    assert(s[at] == le32(n)[0] && s[at + 1] == le32(n)[1]);
    assert(s[at + 2] == le32(n)[2] && s[at + 3] == le32(n)[3]);
    assert(n == n % 256 + 256 * (n / 256 % 256) + 65536 * (n / 65536 % 256) + 16777216 * (n
        / 16777216 % 256));
}

/// A chunk of a WAV stream.
pub ghost struct Chunk {
    pub tag: Seq<u8>,
    pub body: Seq<u8>,
}

/// A chunk that can stand before the `data` chunk.
pub open spec fn other_chunk(c: Chunk) -> bool {
    &&& c.tag.len() == 4
    &&& c.tag != seq![100u8, 97, 116, 97]
    &&& c.body.len() <= MAX_FIELD
}

/// A chunk as it is written: its tag, its size, its body, and a byte of padding behind a
/// body of odd length.
pub open spec fn chunk_bytes(c: Chunk) -> Seq<u8> {
    c.tag + le32(c.body.len()) + c.body + (if c.body.len() % 2 == 1 {
        seq![0u8]
    } else {
        seq![]
    })
}

/// Chunks one after the other.
pub open spec fn chunks_bytes(chunks: Seq<Chunk>) -> Seq<u8>
    decreases chunks.len(),
{
    if chunks.len() == 0 {
        seq![]
    } else {
        chunk_bytes(chunks[0]) + chunks_bytes(chunks.drop_first())
    }
}

/// A chunk of another tag is passed by its size.
#[verifier::spinoff_prover]
proof fn lemma_walk_passes_chunk(before: Seq<u8>, tag: Seq<u8>, n: nat, behind: Seq<u8>)
    requires
        tag.len() == 4,
        tag != seq![100u8, 97, 116, 97],
        n <= MAX_FIELD,
    ensures
        ({
            let s = before + tag + le32(n) + behind;
            let at = before.len() as int;
            &&& chunk_len(s, at) == 8 + n + n % 2
            &&& !tagged(s, at, 'd', 'a', 't', 'a')
        }),
{
    let s = before + tag + le32(n) + behind;
    let at = before.len() as int;
    law_fields_hold_their_number(before + tag, n, behind);
    if tagged(s, at, 'd', 'a', 't', 'a') {
        assert(s[at] == tag[0] && s[at + 1] == tag[1]);
        assert(s[at + 2] == tag[2] && s[at + 3] == tag[3]);
        assert(tag =~= seq![100u8, 97, 116, 97]);
    }
}

/// The walk finds the `data` chunk behind other chunks.
#[verifier::spinoff_prover]
proof fn lemma_walk_finds_data(
    before: Seq<u8>,
    chunks: Seq<Chunk>,
    size: Seq<u8>,
    samples: Seq<u8>,
)
    requires
        forall|i: int| 0 <= i < chunks.len() ==> other_chunk(#[trigger] chunks[i]),
        size.len() == 4,
    ensures
        data_chunk(
            before + chunks_bytes(chunks) + seq![100u8, 97, 116, 97] + size + samples,
            before.len() as int,
        ) == Some(before.len() + chunks_bytes(chunks).len() as int),
    decreases chunks.len(),
{
    let data = seq![100u8, 97, 116, 97];
    let s = before + chunks_bytes(chunks) + data + size + samples;
    let at = before.len() as int;
    if chunks.len() == 0 {
        assert(s[at] == data[0] && s[at + 1] == data[1]);
        assert(s[at + 2] == data[2] && s[at + 3] == data[3]);
    } else {
        let c = chunks[0];
        let rest = chunks.drop_first();
        assert(other_chunk(c));
        let bytes = chunk_bytes(c);
        let n = c.body.len();
        let padding = if n % 2 == 1 {
            seq![0u8]
        } else {
            seq![]
        };
        let behind = c.body + padding + chunks_bytes(rest) + data + size + samples;
        assert(s =~= before + c.tag + le32(n) + behind);
        lemma_walk_passes_chunk(before, c.tag, n, behind);
        assert(bytes.len() == chunk_len(s, at));
        assert forall|i: int| 0 <= i < rest.len() implies other_chunk(#[trigger] rest[i]) by {
            assert(rest[i] == chunks[i + 1]);
        }
        lemma_walk_finds_data(before + bytes, rest, size, samples);
        assert(s == (before + bytes) + chunks_bytes(rest) + data + size + samples);
    }
}

/// Whatever sizes the writer of a WAV stream left in it, and whatever chunks stand before
/// the samples, the repaired stream is the one that a writer who could seek back would
/// have left: the same chunks and samples, under their true sizes.
#[verifier::spinoff_prover]
pub proof fn law_streamed_wav_gets_its_true_sizes(
    riff_size: Seq<u8>,
    chunks: Seq<Chunk>,
    data_size: Seq<u8>,
    samples: Seq<u8>,
)
    requires
        riff_size.len() == 4,
        data_size.len() == 4,
        forall|i: int| 0 <= i < chunks.len() ==> other_chunk(#[trigger] chunks[i]),
        12 + chunks_bytes(chunks).len() + samples.len() <= MAX_FIELD,
    ensures
        ({
            let (riff, wave, data) = (
                seq![82u8, 73, 70, 70],
                seq![87u8, 65, 86, 69],
                seq![100u8, 97, 116, 97],
            );
            let middle = chunks_bytes(chunks);
            resized(riff + riff_size + wave + middle + data + data_size + samples) == riff + le32(
                12 + middle.len() + samples.len(),
            ) + wave + middle + data + le32(samples.len()) + samples
        }),
{
    let (riff, wave, data) = (
        seq![82u8, 73, 70, 70],
        seq![87u8, 65, 86, 69],
        seq![100u8, 97, 116, 97],
    );
    let middle = chunks_bytes(chunks);
    let s = riff + riff_size + wave + middle + data + data_size + samples;
    let start = riff + riff_size + wave;
    assert(start.len() == 12);
    lemma_walk_finds_data(start, chunks, data_size, samples);
    assert(has_riff_tag(s)) by {
        assert(s[0] == riff[0] && s[1] == riff[1] && s[2] == riff[2] && s[3] == riff[3]);
    }
    assert(has_wave_tag(s)) by {
        assert(s[8] == wave[0] && s[9] == wave[1] && s[10] == wave[2] && s[11] == wave[3]);
    }
    let at = 12 + middle.len() as int;
    assert(data_chunk(s, 12) == Some(at));
    let whole = (12 + middle.len() + samples.len()) as nat;
    assert(capped(s.len() - 8) == whole);
    assert(capped(s.len() - at - 8) == samples.len());
    let t = riff + le32(whole) + wave + middle + data + le32(samples.len()) + samples;
    assert(resized(s) =~= t);
}

/// The size fields of a repaired stream hold the true sizes, and the largest number there
/// is where a size is too large for its field.
pub proof fn law_sizes_are_true_up_to_the_largest(s: Seq<u8>)
    requires
        has_riff_tag(s),
        has_wave_tag(s),
    ensures
        s.len() - 8 <= 0xffff_ffff ==> field32(resized(s), 4) == s.len() - 8,
        s.len() - 8 > 0xffff_ffff ==> field32(resized(s), 4) == 0xffff_ffff,
        data_chunk(s, 12) matches Some(at) ==> {
            let behind = s.len() - at - 8;
            &&& behind <= 0xffff_ffff ==> field32(resized(s), at + 4) == behind
            &&& behind > 0xffff_ffff ==> field32(resized(s), at + 4) == 0xffff_ffff
        },
{
    law_resized_fields_match_the_stream(s);
    lemma_walk_within(s, 12);
}

/// The walk over chunks goes on behind the last of them.
proof fn lemma_walk_goes_on(before: Seq<u8>, chunks: Seq<Chunk>, rest: Seq<u8>)
    requires
        forall|i: int| 0 <= i < chunks.len() ==> other_chunk(#[trigger] chunks[i]),
    ensures
        ({
            let s = before + chunks_bytes(chunks) + rest;
            data_chunk(s, before.len() as int) == data_chunk(
                s,
                (before + chunks_bytes(chunks)).len() as int,
            )
        }),
    decreases chunks.len(),
{
    let s = before + chunks_bytes(chunks) + rest;
    let at = before.len() as int;
    if chunks.len() > 0 {
        let c = chunks[0];
        let more = chunks.drop_first();
        assert(other_chunk(c));
        let n = c.body.len();
        let padding = if n % 2 == 1 {
            seq![0u8]
        } else {
            seq![]
        };
        let behind = c.body + padding + chunks_bytes(more) + rest;
        assert(s =~= before + c.tag + le32(n) + behind);
        lemma_walk_passes_chunk(before, c.tag, n, behind);
        let bytes = chunk_bytes(c);
        assert(bytes.len() == chunk_len(s, at));
        assert forall|i: int| 0 <= i < more.len() implies other_chunk(#[trigger] more[i]) by {
            assert(more[i] == chunks[i + 1]);
        }
        lemma_walk_goes_on(before + bytes, more, rest);
        assert(s =~= (before + bytes) + chunks_bytes(more) + rest);
        assert((before + bytes + chunks_bytes(more)).len() == (before + chunks_bytes(
            chunks,
        )).len());
    }
}

/// A WAV stream in which a chunk declares more than is left, or in which no `data` chunk
/// stands, gets its RIFF size and keeps every other byte.
#[verifier::spinoff_prover]
pub proof fn law_streams_without_samples_get_their_size(
    riff_size: Seq<u8>,
    chunks: Seq<Chunk>,
    tag: Seq<u8>,
    declared: nat,
    rest: Seq<u8>,
)
    requires
        riff_size.len() == 4,
        forall|i: int| 0 <= i < chunks.len() ==> other_chunk(#[trigger] chunks[i]),
        tag.len() == 4,
        tag != seq![100u8, 97, 116, 97],
        rest.len() < declared <= MAX_FIELD,
        12 + chunks_bytes(chunks).len() + rest.len() <= MAX_FIELD,
    ensures
        ({
            let (riff, wave) = (seq![82u8, 73, 70, 70], seq![87u8, 65, 86, 69]);
            let middle = chunks_bytes(chunks);
            let end = tag + le32(declared) + rest;
            &&& resized(riff + riff_size + wave + middle + end) == riff + le32(
                12 + middle.len() + rest.len(),
            ) + wave + middle + end
            &&& resized(riff + riff_size + wave + middle) == riff + le32(4 + middle.len()) + wave
                + middle
        }),
{
    let (riff, wave) = (seq![82u8, 73, 70, 70], seq![87u8, 65, 86, 69]);
    let middle = chunks_bytes(chunks);
    let start = riff + riff_size + wave;
    let end = tag + le32(declared) + rest;
    let nothing = Seq::<u8>::empty();
    assert(start.len() == 12);
    assert forall|tail: Seq<u8>| has_riff_tag(#[trigger] (start + middle + tail)) && has_wave_tag(
        start + middle + tail,
    ) by {
        let s = start + middle + tail;
        assert(s[0] == riff[0] && s[1] == riff[1] && s[2] == riff[2] && s[3] == riff[3]);
        assert(s[8] == wave[0] && s[9] == wave[1] && s[10] == wave[2] && s[11] == wave[3]);
    }
    let s = start + middle + end;
    lemma_walk_goes_on(start, chunks, end);
    assert(s =~= (start + middle) + tag + le32(declared) + rest);
    lemma_walk_passes_chunk(start + middle, tag, declared, rest);
    assert(data_chunk(s, 12) is None);
    assert(resized(s) =~= riff + le32((12 + middle.len() + rest.len()) as nat) + wave + middle
        + end);
    let t = start + middle + nothing;
    lemma_walk_goes_on(start, chunks, nothing);
    assert(data_chunk(t, 12) is None);
    assert(t =~= start + middle);
    assert(resized(t) =~= riff + le32((4 + middle.len()) as nat) + wave + middle);
}

} // verus!
