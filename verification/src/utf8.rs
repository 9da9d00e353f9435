//! Incremental UTF-8 decoding for PTY output.
//!
//! Reads off a PTY land on arbitrary byte boundaries, so a multi-byte
//! character can straddle two chunks. `Utf8Stream` holds back the bytes of a
//! truncated character until the rest arrives, and replaces genuinely invalid
//! bytes with U+FFFD (one replacement per maximal ill-formed subpart, as
//! `String::from_utf8_lossy` does) instead of stalling.
use vstd::prelude::*;
use vstd::utf8::*;

use crate::text::{char_from_scalar, push_char};

verus! {

broadcast use vstd::seq::group_seq_axioms, vstd::seq_lib::group_seq_properties;

/// U+FFFD, the character that stands in for ill-formed input.
pub const REPLACEMENT: char = '\u{FFFD}';

// ---------------------------------------------------------------------------
// Specification (Unicode Table 3-7, "Well-Formed UTF-8 Byte Sequences")
// ---------------------------------------------------------------------------

/// Number of bytes in the well-formed sequence that `b0` leads, or 0 when no
/// well-formed sequence can start with `b0`.
pub open spec fn sequence_width(b0: u8) -> int {
    if b0 <= 0x7f {
        1
    } else if 0xc2 <= b0 <= 0xdf {
        2
    } else if 0xe0 <= b0 <= 0xef {
        3
    } else if 0xf0 <= b0 <= 0xf4 {
        4
    } else {
        0
    }
}

/// Whether `b` may stand at position `j` (1, 2 or 3) of a sequence led by `b0`.
pub open spec fn fits_at(b0: u8, j: int, b: u8) -> bool {
    if j == 1 {
        if b0 == 0xe0 {
            0xa0 <= b <= 0xbf
        } else if b0 == 0xed {
            0x80 <= b <= 0x9f
        } else if b0 == 0xf0 {
            0x90 <= b <= 0xbf
        } else if b0 == 0xf4 {
            0x80 <= b <= 0x8f
        } else {
            0x80 <= b <= 0xbf
        }
    } else {
        0x80 <= b <= 0xbf
    }
}

/// Length of the longest prefix of `s` (at most the width its first byte
/// announces) that can begin a well-formed sequence. 0 for a byte that can
/// never lead one.
pub open spec fn matched_len(s: Seq<u8>) -> int
    recommends
        s.len() > 0,
{
    let w = sequence_width(s[0]);
    if w == 0 {
        0
    } else if w == 1 || s.len() < 2 || !fits_at(s[0], 1, s[1]) {
        1
    } else if w == 2 || s.len() < 3 || !fits_at(s[0], 2, s[2]) {
        2
    } else if w == 3 || s.len() < 4 || !fits_at(s[0], 3, s[3]) {
        3
    } else {
        4
    }
}

/// `s` starts with a complete well-formed sequence.
pub open spec fn starts_char(s: Seq<u8>) -> bool {
    s.len() > 0 && sequence_width(s[0]) > 0 && matched_len(s) == sequence_width(s[0])
}

/// All of `s` is a proper prefix of some well-formed sequence: more bytes
/// could still complete it.
pub open spec fn is_truncated(s: Seq<u8>) -> bool {
    &&& s.len() > 0
    &&& sequence_width(s[0]) > 0
    &&& matched_len(s) < sequence_width(s[0])
    &&& matched_len(s) == s.len()
}

/// Bytes consumed by one decoding step at the start of `s`: the whole
/// character, or the maximal ill-formed subpart (at least one byte).
pub open spec fn step_len(s: Seq<u8>) -> int {
    if starts_char(s) {
        sequence_width(s[0])
    } else if sequence_width(s[0]) == 0 {
        1
    } else {
        matched_len(s)
    }
}

/// Character produced by one decoding step at the start of `s`.
pub open spec fn step_char(s: Seq<u8>) -> char {
    if starts_char(s) {
        decode_first_scalar(s) as char
    } else {
        REPLACEMENT
    }
}

/// Decodes as much of `s` as can be decided now: the characters produced,
/// and the truncated tail held back for more input (empty when none).
pub open spec fn decode_stream(s: Seq<u8>) -> (Seq<char>, Seq<u8>)
    decreases s.len(),
{
    if s.len() == 0 || is_truncated(s) {
        (seq![], s)
    } else {
        proof {
            lemma_step_len_bounds(s);
        }
        let rest = decode_stream(s.skip(step_len(s)));
        (seq![step_char(s)] + rest.0, rest.1)
    }
}

/// Lossy decoding of a complete byte stream: a truncated tail at the very
/// end becomes one U+FFFD.
pub open spec fn decode_lossy(s: Seq<u8>) -> Seq<char> {
    let r = decode_stream(s);
    if r.1.len() == 0 {
        r.0
    } else {
        r.0.push(REPLACEMENT)
    }
}

/// What is decoded, and what is left pending, after feeding `chunks` one by
/// one to a stream that already held `pending`.
pub open spec fn feed_chunks(pending: Seq<u8>, chunks: Seq<Seq<u8>>) -> (Seq<char>, Seq<u8>)
    decreases chunks.len(),
{
    if chunks.len() == 0 {
        (seq![], pending)
    } else {
        let first = decode_stream(pending + chunks[0]);
        let rest = feed_chunks(first.1, chunks.drop_first());
        (first.0 + rest.0, rest.1)
    }
}

/// The bytes a stream may hold back between pushes: nothing, or the
/// truncated start of one character.
pub open spec fn holds_partial(p: Seq<u8>) -> bool {
    p.len() == 0 || is_truncated(p)
}

// ---------------------------------------------------------------------------
// Lemmas
// ---------------------------------------------------------------------------

pub proof fn lemma_step_len_bounds(s: Seq<u8>)
    requires
        s.len() > 0,
        !is_truncated(s),
    ensures
        1 <= step_len(s) <= s.len(),
{
}

/// A truncated sequence is at most three bytes long.
proof fn lemma_truncated_short(s: Seq<u8>)
    requires
        is_truncated(s),
    ensures
        1 <= s.len() <= 3,
{
}

/// The tail that decoding holds back is always a (possibly empty) truncated
/// character.
pub proof fn lemma_tail_is_partial(s: Seq<u8>)
    ensures
        holds_partial(decode_stream(s).1),
        decode_stream(s).1.len() <= 3,
    decreases s.len(),
{
    if s.len() == 0 || is_truncated(s) {
        if is_truncated(s) {
            lemma_truncated_short(s);
        }
    } else {
        lemma_step_len_bounds(s);
        lemma_tail_is_partial(s.skip(step_len(s)));
    }
}

/// Decoding a held-back tail on its own produces nothing and keeps it whole.
proof fn lemma_partial_is_fixed(p: Seq<u8>)
    requires
        holds_partial(p),
    ensures
        decode_stream(p) == (Seq::<char>::empty(), p),
{
}

/// Appending bytes after a decided step does not change that step.
proof fn lemma_step_stable(a: Seq<u8>, b: Seq<u8>)
    requires
        a.len() > 0,
        !is_truncated(a),
    ensures
        !is_truncated(a + b),
        starts_char(a + b) == starts_char(a),
        step_len(a + b) == step_len(a),
        step_char(a + b) == step_char(a),
{
    let ab = a + b;
    assert(ab[0] == a[0]);
    if a.len() >= 2 {
        assert(ab[1] == a[1]);
    }
    if a.len() >= 3 {
        assert(ab[2] == a[2]);
    }
    if a.len() >= 4 {
        assert(ab[3] == a[3]);
    }
    assert(matched_len(ab) == matched_len(a));
    if starts_char(a) {
        assert(decode_first_scalar(ab) == decode_first_scalar(a));
    }
}

/// Decoding `a + b` is decoding `a`, then decoding what `a` held back
/// followed by `b`.
pub proof fn lemma_decode_split(a: Seq<u8>, b: Seq<u8>)
    ensures
        decode_stream(a + b) == (
            decode_stream(a).0 + decode_stream(decode_stream(a).1 + b).0,
            decode_stream(decode_stream(a).1 + b).1,
        ),
    decreases a.len(),
{
    if a.len() == 0 {
        assert(a + b =~= b);
        assert(decode_stream(a).1 =~= a);
        assert(decode_stream(a).0 + decode_stream(b).0 =~= decode_stream(b).0);
    } else if is_truncated(a) {
        assert(decode_stream(a).0 + decode_stream(a + b).0 =~= decode_stream(a + b).0);
    } else {
        lemma_step_len_bounds(a);
        lemma_step_stable(a, b);
        let k = step_len(a);
        let ab = a + b;
        assert(ab.len() > 0);
        assert(ab.skip(k) =~= a.skip(k) + b);
        lemma_decode_split(a.skip(k), b);
        let ra = decode_stream(a.skip(k));
        let rt = decode_stream(ra.1 + b);
        assert(decode_stream(ab) == (seq![step_char(a)] + decode_stream(a.skip(k) + b).0, decode_stream(a.skip(k) + b).1));
        assert(seq![step_char(a)] + (ra.0 + rt.0) =~= (seq![step_char(a)] + ra.0) + rt.0);
    }
}

/// Feeding chunks one at a time to a stream holding a partial character
/// decodes exactly what decoding their concatenation in one go would.
pub proof fn lemma_feed_is_decode(pending: Seq<u8>, chunks: Seq<Seq<u8>>)
    requires
        holds_partial(pending),
    ensures
        feed_chunks(pending, chunks) == decode_stream(pending + chunks.flatten()),
    decreases chunks.len(),
{
    if chunks.len() == 0 {
        assert(pending + chunks.flatten() =~= pending);
        lemma_partial_is_fixed(pending);
    } else {
        let first = decode_stream(pending + chunks[0]);
        lemma_tail_is_partial(pending + chunks[0]);
        lemma_feed_is_decode(first.1, chunks.drop_first());
        lemma_decode_split(pending + chunks[0], chunks.drop_first().flatten());
        assert(chunks.flatten() =~= chunks[0] + chunks.drop_first().flatten());
        assert(pending + chunks.flatten() =~= (pending + chunks[0]) + chunks.drop_first().flatten());
    }
}

/// Bit facts for two-byte sequences.
proof fn lemma_width2_bits(b0: u8, b1: u8)
    by (bit_vector)
    requires
        0xc0 <= b0 <= 0xdf,
        0x80 <= b1 <= 0xbf,
    ensures
        (0xc2 <= b0) == (0x80 <= codepoint_width_2(b0, b1)),
        codepoint_width_2(b0, b1) <= 0x7ff,
{
}

/// Bit facts for three-byte sequences.
proof fn lemma_width3_bits(b0: u8, b1: u8, b2: u8)
    by (bit_vector)
    requires
        0xe0 <= b0 <= 0xef,
        0x80 <= b1 <= 0xbf,
        0x80 <= b2 <= 0xbf,
    ensures
        (0x800 <= codepoint_width_3(b0, b1, b2) && !(0xd800 <= codepoint_width_3(b0, b1, b2)
            <= 0xdfff)) == (if b0 == 0xe0 {
            0xa0 <= b1
        } else if b0 == 0xed {
            b1 <= 0x9f
        } else {
            true
        }),
        codepoint_width_3(b0, b1, b2) <= 0xffff,
{
}

/// Bit facts for four-byte sequences.
proof fn lemma_width4_bits(b0: u8, b1: u8, b2: u8, b3: u8)
    by (bit_vector)
    requires
        0xf0 <= b0 <= 0xf7,
        0x80 <= b1 <= 0xbf,
        0x80 <= b2 <= 0xbf,
        0x80 <= b3 <= 0xbf,
    ensures
        (0x10000 <= codepoint_width_4(b0, b1, b2, b3) && codepoint_width_4(b0, b1, b2, b3)
            <= 0x10ffff) == (b0 <= 0xf4 && (if b0 == 0xf0 {
            0x90 <= b1
        } else if b0 == 0xf4 {
            b1 <= 0x8f
        } else {
            true
        })),
{
}

/// The table-driven notion of a complete character agrees with the
/// bit-level definition of a valid first scalar, and its value is a scalar.
pub proof fn lemma_starts_char_iff_valid(s: Seq<u8>)
    requires
        s.len() > 0,
    ensures
        starts_char(s) <==> valid_first_scalar(s),
        starts_char(s) ==> length_of_first_scalar(s) == sequence_width(s[0]),
        starts_char(s) ==> is_scalar(decode_first_scalar(s)),
{
    let b0 = s[0];
    if 0xc0 <= b0 <= 0xdf && s.len() >= 2 && 0x80 <= s[1] <= 0xbf {
        lemma_width2_bits(b0, s[1]);
    }
    if 0xe0 <= b0 <= 0xef && s.len() >= 3 && 0x80 <= s[1] <= 0xbf && 0x80 <= s[2] <= 0xbf {
        lemma_width3_bits(b0, s[1], s[2]);
    }
    if 0xf0 <= b0 <= 0xf7 && s.len() >= 4 && 0x80 <= s[1] <= 0xbf && 0x80 <= s[2] <= 0xbf && 0x80
        <= s[3] <= 0xbf {
        lemma_width4_bits(b0, s[1], s[2], s[3]);
    }
}

/// Well-formed UTF-8 decodes to exactly its characters, with nothing held back.
pub proof fn lemma_valid_decodes_exactly(s: Seq<u8>)
    requires
        valid_utf8(s),
    ensures
        decode_stream(s) == (decode_utf8(s), Seq::<u8>::empty()),
    decreases s.len(),
{
    if s.len() > 0 {
        lemma_starts_char_iff_valid(s);
        assert(!is_truncated(s));
        assert(s.skip(step_len(s)) =~= pop_first_scalar(s));
        lemma_valid_decodes_exactly(pop_first_scalar(s));
    } else {
        assert(decode_stream(s).1 =~= Seq::<u8>::empty());
    }
}

// ---------------------------------------------------------------------------
// Laws
// ---------------------------------------------------------------------------

/// However a byte stream is cut into chunks, pushing the chunks one by one
/// and then finishing yields the same text as decoding the whole stream at
/// once: a character split across reads is never corrupted.
pub proof fn law_chunking_is_invisible(chunks: Seq<Seq<u8>>)
    ensures
        feed_chunks(Seq::<u8>::empty(), chunks).0 + decode_lossy(
            feed_chunks(Seq::<u8>::empty(), chunks).1,
        ) == decode_lossy(chunks.flatten()),
{
    let empty = Seq::<u8>::empty();
    lemma_feed_is_decode(empty, chunks);
    assert(empty + chunks.flatten() =~= chunks.flatten());
    let r = decode_stream(chunks.flatten());
    lemma_tail_is_partial(chunks.flatten());
    lemma_partial_is_fixed(r.1);
    if r.1.len() == 0 {
        assert(r.0 + Seq::<char>::empty() =~= r.0);
    } else {
        assert(r.0 + seq![REPLACEMENT] =~= r.0.push(REPLACEMENT));
    }
}

/// Well-formed UTF-8 passes through unchanged: it decodes to exactly the
/// characters it encodes, with nothing held back and nothing replaced.
pub proof fn law_valid_utf8_passes_through(s: Seq<u8>)
    requires
        valid_utf8(s),
    ensures
        decode_stream(s) == (decode_utf8(s), Seq::<u8>::empty()),
        decode_lossy(s) == decode_utf8(s),
{
    lemma_valid_decodes_exactly(s);
}

/// A stream never holds back more than the first three bytes of a single
/// character, so it cannot stall on bad input.
pub proof fn law_held_back_bytes_are_one_partial_character(s: Seq<u8>)
    ensures
        holds_partial(decode_stream(s).1),
        decode_stream(s).1.len() <= 3,
{
    lemma_tail_is_partial(s);
}

/// The held-back tail is the end of the input, never longer than it.
proof fn lemma_tail_is_suffix(s: Seq<u8>)
    ensures
        decode_stream(s).1.len() <= s.len(),
        s.skip(s.len() - decode_stream(s).1.len()) == decode_stream(s).1,
    decreases s.len(),
{
    if s.len() == 0 || is_truncated(s) {
        assert(s.skip(0) =~= s);
    } else {
        lemma_step_len_bounds(s);
        let k = step_len(s);
        lemma_tail_is_suffix(s.skip(k));
        let t = decode_stream(s).1;
        assert(s.skip(k).skip(s.skip(k).len() - t.len()) =~= s.skip(s.len() - t.len()));
    }
}

/// A truncated character followed by what ends up held back as the final
/// tail decodes to exactly one replacement character: the truncated bytes
/// were cut off by what follows them.
proof fn lemma_cut_off_then_tail(p: Seq<u8>, t: Seq<u8>)
    requires
        is_truncated(p),
        holds_partial(t),
        decode_stream(p + t).1 == t,
    ensures
        decode_stream(p + t).0 == seq![REPLACEMENT],
{
    let x = p + t;
    assert(x[0] == p[0]);
    if is_truncated(x) {
        assert(decode_stream(x).1.len() == x.len());
        assert(false);
    }
    lemma_step_len_bounds(x);
    let k = step_len(x);
    lemma_tail_is_suffix(x.skip(k));
    assert(k <= p.len());
    if p.len() >= 2 {
        assert(x[1] == p[1]);
    }
    if p.len() >= 3 {
        assert(x[2] == p[2]);
    }
    assert(matched_len(x) >= p.len());
    assert(!starts_char(x));
    assert(k == p.len());
    assert(x.skip(k) =~= t);
    lemma_partial_is_fixed(t);
}

/// At any moment, the text a stream has produced is the lossy decoding of
/// the bytes it has completed, that is every byte fed to it but the held
/// tail, which is the input's truncated last character (at most three
/// bytes); finishing then adds one U+FFFD for that tail, or nothing.
pub proof fn law_output_is_the_lossy_decoding_of_completed_bytes(s: Seq<u8>)
    ensures
        ({
            let (out, tail) = decode_stream(s);
            &&& tail.len() <= 3
            &&& s == s.take(s.len() - tail.len()) + tail
            &&& out == decode_lossy(s.take(s.len() - tail.len()))
            &&& decode_lossy(tail) == (if tail.len() == 0 {
                Seq::<char>::empty()
            } else {
                seq![REPLACEMENT]
            })
        }),
{
    let (out, t) = decode_stream(s);
    lemma_tail_is_partial(s);
    lemma_tail_is_suffix(s);
    let c = s.take(s.len() - t.len());
    assert(s =~= c + t);
    lemma_decode_split(c, t);
    let dc = decode_stream(c);
    lemma_tail_is_partial(c);
    lemma_partial_is_fixed(t);
    if dc.1.len() == 0 {
        assert(dc.1 + t =~= t);
        assert(dc.0 + Seq::<char>::empty() =~= dc.0);
    } else {
        lemma_cut_off_then_tail(dc.1, t);
    }
    if t.len() > 0 {
        assert(Seq::<char>::empty().push(REPLACEMENT) =~= seq![REPLACEMENT]);
    }
}

/// `outs` and `held` are what a fresh stream returns from, and holds after,
/// pushing each of `chunks` in turn, as `Utf8Stream::push` promises.
pub open spec fn push_history(chunks: Seq<Seq<u8>>, outs: Seq<Seq<char>>, held: Seq<Seq<u8>>) -> bool {
    &&& outs.len() == chunks.len()
    &&& held.len() == chunks.len() + 1
    &&& held[0] == Seq::<u8>::empty()
    &&& forall|i: int|
        0 <= i < chunks.len() ==> (#[trigger] outs[i], held[i + 1]) == decode_stream(
            held[i] + chunks[i],
        )
}

/// After the first `k` pushes of a history, the text returned so far and
/// the bytes held are those of decoding the first `k` chunks in one go.
proof fn lemma_history_is_decode(chunks: Seq<Seq<u8>>, outs: Seq<Seq<char>>, held: Seq<Seq<u8>>, k: int)
    requires
        push_history(chunks, outs, held),
        0 <= k <= chunks.len(),
    ensures
        outs.take(k).flatten() == decode_stream(chunks.take(k).flatten()).0,
        held[k] == decode_stream(chunks.take(k).flatten()).1,
    decreases k,
{
    broadcast use Seq::lemma_flatten_push;

    if k == 0 {
        assert(outs.take(0) =~= Seq::<Seq<char>>::empty());
        assert(chunks.take(0) =~= Seq::<Seq<u8>>::empty());
    } else {
        lemma_history_is_decode(chunks, outs, held, k - 1);
        let b = chunks.take(k - 1).flatten();
        assert(chunks.take(k) =~= chunks.take(k - 1).push(chunks[k - 1]));
        assert(outs.take(k) =~= outs.take(k - 1).push(outs[k - 1]));
        lemma_decode_split(b, chunks[k - 1]);
        assert(outs[k - 1] == decode_stream(held[k - 1] + chunks[k - 1]).0);
    }
}

/// After `k` pushes of a history: the stream holds at most three bytes, the
/// last ones pushed, and what it has returned is the lossy decoding of the
/// bytes before them.
pub open spec fn output_so_far_is_lossy(
    chunks: Seq<Seq<u8>>,
    outs: Seq<Seq<char>>,
    held: Seq<Seq<u8>>,
    k: int,
) -> bool {
    let b = chunks.take(k).flatten();
    &&& held[k].len() <= 3
    &&& b == b.take(b.len() - held[k].len()) + held[k]
    &&& outs.take(k).flatten() == decode_lossy(b.take(b.len() - held[k].len()))
}

/// Pushing chunks one by one, then finishing: after every push, the text
/// returned so far is the lossy decoding of the bytes pushed so far less
/// the held tail (the truncated last character, at most three bytes); and
/// everything returned, finish included, is the lossy decoding of all the
/// bytes, however they were cut.
pub proof fn law_pushes_then_finish(chunks: Seq<Seq<u8>>, outs: Seq<Seq<char>>, held: Seq<Seq<u8>>)
    requires
        push_history(chunks, outs, held),
    ensures
        forall|k: int| 0 <= k <= chunks.len() ==> #[trigger] output_so_far_is_lossy(chunks, outs, held, k),
        outs.flatten() + decode_lossy(held[chunks.len() as int]) == decode_lossy(chunks.flatten()),
{
    assert forall|k: int| 0 <= k <= chunks.len() implies #[trigger] output_so_far_is_lossy(
        chunks,
        outs,
        held,
        k,
    ) by {
        lemma_history_is_decode(chunks, outs, held, k);
        law_output_is_the_lossy_decoding_of_completed_bytes(chunks.take(k).flatten());
    }
    let n = chunks.len() as int;
    lemma_history_is_decode(chunks, outs, held, n);
    assert(chunks.take(n) =~= chunks);
    assert(outs.take(n) =~= outs);
    let all = chunks.flatten();
    let r = decode_stream(all);
    lemma_tail_is_partial(all);
    lemma_partial_is_fixed(r.1);
    if r.1.len() == 0 {
        assert(r.0 + Seq::<char>::empty() =~= r.0);
    } else {
        assert(decode_lossy(r.1) =~= seq![REPLACEMENT]);
        assert(r.0 + seq![REPLACEMENT] =~= r.0.push(REPLACEMENT));
    }
}

// ---------------------------------------------------------------------------
// Implementation
// ---------------------------------------------------------------------------

/// One decoding step, as found in a buffer.
enum Step {
    Char(char, usize),
    Invalid(usize),
    Partial,
}

fn width_of(b0: u8) -> (w: usize)
    ensures
        w == sequence_width(b0),
{
    if b0 <= 0x7f {
        1
    } else if 0xc2 <= b0 && b0 <= 0xdf {
        2
    } else if 0xe0 <= b0 && b0 <= 0xef {
        3
    } else if 0xf0 <= b0 && b0 <= 0xf4 {
        4
    } else {
        0
    }
}

fn byte_fits(b0: u8, j: usize, b: u8) -> (r: bool)
    ensures
        r == fits_at(b0, j as int, b),
{
    if j == 1 {
        if b0 == 0xe0 {
            0xa0 <= b && b <= 0xbf
        } else if b0 == 0xed {
            0x80 <= b && b <= 0x9f
        } else if b0 == 0xf0 {
            0x90 <= b && b <= 0xbf
        } else if b0 == 0xf4 {
            0x80 <= b && b <= 0x8f
        } else {
            0x80 <= b && b <= 0xbf
        }
    } else {
        0x80 <= b && b <= 0xbf
    }
}

/// Classifies the bytes of `buf` from `i` on.
fn scan_at(buf: &Vec<u8>, i: usize) -> (st: Step)
    requires
        i < buf.len(),
    ensures
        ({
            let s = buf@.skip(i as int);
            match st {
                Step::Partial => is_truncated(s),
                Step::Char(c, n) => !is_truncated(s) && starts_char(s) && c == step_char(s) && n
                    == step_len(s),
                Step::Invalid(n) => !is_truncated(s) && !starts_char(s) && n == step_len(s),
            }
        }),
{
    let ghost s = buf@.skip(i as int);
    let n = buf.len();
    let b0 = buf[i];
    assert(s[0] == b0);
    let w = width_of(b0);
    if w == 0 {
        return Step::Invalid(1);
    }
    let m: usize = if w == 1 || i + 1 >= n || !byte_fits(b0, 1, buf[i + 1]) {
        1
    } else if w == 2 || i + 2 >= n || !byte_fits(b0, 2, buf[i + 2]) {
        2
    } else if w == 3 || i + 3 >= n || !byte_fits(b0, 3, buf[i + 3]) {
        3
    } else {
        4
    };
    proof {
        if i + 1 < n {
            assert(s[1] == buf@[i + 1]);
        }
        if i + 2 < n {
            assert(s[2] == buf@[i + 2]);
        }
        if i + 3 < n {
            assert(s[3] == buf@[i + 3]);
        }
        assert(m == matched_len(s));
    }
    if m == w {
        let cp: u32 = if w == 1 {
            (b0 & 0x7f) as u32
        } else if w == 2 {
            (((b0 & 0x1f) as u32) << 6u32) | ((buf[i + 1] & 0x3f) as u32)
        } else if w == 3 {
            (((b0 & 0x0f) as u32) << 12u32) | (((buf[i + 1] & 0x3f) as u32) << 6u32) | ((buf[i
                + 2] & 0x3f) as u32)
        } else {
            (((b0 & 0x07) as u32) << 18u32) | (((buf[i + 1] & 0x3f) as u32) << 12u32) | (((buf[i
                + 2] & 0x3f) as u32) << 6u32) | ((buf[i + 3] & 0x3f) as u32)
        };
        proof {
            lemma_starts_char_iff_valid(s);
            assert(cp == decode_first_scalar(s));
        }
        match char_from_scalar(cp) {
            Some(c) => Step::Char(c, w),
            None => vstd::pervasive::unreached(),
        }
    } else if i + m == n {
        Step::Partial
    } else {
        Step::Invalid(m)
    }
}

/// Buffers the trailing bytes of a truncated character until the rest arrives.
#[derive(Debug)]
pub struct Utf8Stream {
    pending: Vec<u8>,
}

impl View for Utf8Stream {
    type V = Seq<u8>;

    /// The bytes held back for the next push.
    closed spec fn view(&self) -> Seq<u8> {
        self.pending@
    }
}

impl Utf8Stream {
    #[verifier::type_invariant]
    spec fn holds_only_a_partial_character(self) -> bool {
        holds_partial(self.pending@)
    }

    /// A stream with nothing held back.
    pub fn new() -> (stream: Self)
        ensures
            stream@ == Seq::<u8>::empty(),
    {
        Utf8Stream { pending: Vec::new() }
    }

    /// Decodes everything currently decodable, holding back a partial tail.
    ///
    /// Genuinely invalid bytes become U+FFFD rather than stalling the stream:
    /// a PTY can legitimately carry binary noise (a stray `cat` of a binary),
    /// and dropping the session over it would be worse than showing garbage.
    pub fn push(&mut self, chunk: &[u8]) -> (out: String)
        ensures
            out@ == decode_stream(old(self)@ + chunk@).0,
            final(self)@ == decode_stream(old(self)@ + chunk@).1,
            holds_partial(final(self)@),
    {
        proof {
            use_type_invariant(&*self);
        }
        let mut buf: Vec<u8> = Vec::new();
        let mut j: usize = 0;
        while j < self.pending.len()
            invariant
                j <= self.pending@.len(),
                buf@ =~= self.pending@.take(j as int),
            decreases self.pending@.len() - j,
        {
            buf.push(self.pending[j]);
            j += 1;
        }
        let mut j: usize = 0;
        while j < chunk.len()
            invariant
                j <= chunk@.len(),
                buf@ =~= self.pending@ + chunk@.take(j as int),
            decreases chunk@.len() - j,
        {
            buf.push(chunk[j]);
            j += 1;
        }
        assert(buf@ =~= old(self)@ + chunk@);
        let n = buf.len();
        let mut out = String::new();
        let mut i: usize = 0;
        assert(buf@.skip(0) =~= buf@);
        loop
            invariant
                i <= n == buf@.len(),
                decode_stream(buf@) == (out@ + decode_stream(buf@.skip(i as int)).0, decode_stream(
                    buf@.skip(i as int),
                ).1),
            ensures
                i <= n == buf@.len(),
                decode_stream(buf@) == (out@ + decode_stream(buf@.skip(i as int)).0, decode_stream(
                    buf@.skip(i as int),
                ).1),
                i == n || is_truncated(buf@.skip(i as int)),
            decreases n - i,
        {
            if i == n {
                break;
            }
            let ghost s = buf@.skip(i as int);
            match scan_at(&buf, i) {
                Step::Partial => {
                    break;
                },
                Step::Char(c, k) => {
                    proof {
                        lemma_step_len_bounds(s);
                        assert(s.skip(k as int) =~= buf@.skip(i + k));
                        assert(out@.push(c) + decode_stream(s.skip(k as int)).0 =~= out@ + (seq![c]
                            + decode_stream(s.skip(k as int)).0));
                    }
                    push_char(&mut out, c);
                    i = i + k;
                },
                Step::Invalid(k) => {
                    proof {
                        lemma_step_len_bounds(s);
                        assert(s.skip(k as int) =~= buf@.skip(i + k));
                        assert(out@.push(REPLACEMENT) + decode_stream(s.skip(k as int)).0 =~= out@
                            + (seq![REPLACEMENT] + decode_stream(s.skip(k as int)).0));
                    }
                    push_char(&mut out, REPLACEMENT);
                    i = i + k;
                },
            }
        }
        proof {
            let s = buf@.skip(i as int);
            if i == n {
                assert(s.len() == 0);
            }
            assert(decode_stream(s).0 =~= Seq::<char>::empty());
            assert(out@ + Seq::<char>::empty() =~= out@);
            lemma_tail_is_partial(buf@);
        }
        let mut rest: Vec<u8> = Vec::new();
        let mut j: usize = i;
        while j < n
            invariant
                i <= j <= n == buf@.len(),
                rest@ =~= buf@.subrange(i as int, j as int),
            decreases n - j,
        {
            rest.push(buf[j]);
            j += 1;
        }
        assert(rest@ =~= buf@.skip(i as int));
        self.pending = rest;
        out
    }

    /// Flushes any bytes still held back, at end of stream: a dangling
    /// partial character becomes one U+FFFD.
    pub fn finish(&mut self) -> (out: String)
        ensures
            out@ == decode_lossy(old(self)@),
            out@ == (if old(self)@.len() == 0 {
                Seq::<char>::empty()
            } else {
                seq![REPLACEMENT]
            }),
            final(self)@ == Seq::<u8>::empty(),
    {
        proof {
            use_type_invariant(&*self);
            lemma_partial_is_fixed(self.pending@);
        }
        let mut out = String::new();
        if self.pending.len() > 0 {
            push_char(&mut out, REPLACEMENT);
            assert(out@ =~= Seq::<char>::empty().push(REPLACEMENT));
        }
        self.pending = Vec::new();
        out
    }
}

impl Default for Utf8Stream {
    fn default() -> (stream: Self)
        ensures
            stream@ == Seq::<u8>::empty(),
    {
        Utf8Stream::new()
    }
}

} // verus!
