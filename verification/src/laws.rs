//! What holds of the codec and of the session on every input.

use crate::client::{reaction, serve, Reaction};
use crate::command::DownstreamCommand;
use crate::packet::{
    decode, decode_clipboard, decode_options, decode_payload, fixed, frame, known_tag, options,
    pair_name, pair_value, text_of, PacketView, CALV, CCLP, CIAK, CINN, CNOP, COUT, CROP, DCLP,
    DINF, DKDN, DKUP, DMDN, DMMV, DMUP, DMWM, DSOP, EUNK, QINF,
};
use crate::packet_reader::PacketError;
use crate::wire::{be16, be32, lemma_u16_round_trip, lemma_u32_round_trip, u16_bytes, u32_bytes};
use vstd::prelude::*;

verus! {

/// A payload of fixed length leaves a tail of the payload unread.
proof fn lemma_fixed_stays_in_bounds(payload: Seq<u8>, n: int, packet: PacketView)
    requires
        n >= 0,
    ensures
        fixed(payload, n, packet).rest.len() <= payload.len(),
        fixed(payload, n, packet).rest == payload.skip(
            payload.len() - fixed(payload, n, packet).rest.len(),
        ),
        fixed(payload, n, packet).result is Ok ==> fixed(payload, n, packet).rest.len() + n
            == payload.len(),
{
    assert(fixed(payload, n, packet).rest =~= payload.skip(
        payload.len() - fixed(payload, n, packet).rest.len(),
    ));
}

/// Whatever the outcome, a message's payload leaves a tail of itself unread.
proof fn lemma_payload_stays_in_bounds(size: u32, code: Seq<u8>, payload: Seq<u8>)
    requires
        size >= 4,
    ensures
        decode_payload(size, code, payload).rest.len() <= payload.len(),
        decode_payload(size, code, payload).rest == payload.skip(
            payload.len() - decode_payload(size, code, payload).rest.len(),
        ),
{
    let d = decode_payload(size, code, payload);
    assert(d.rest.len() <= payload.len() && d.rest =~= payload.skip(payload.len() - d.rest.len()))
        by {
        if d == decode_options(payload) {
            if payload.len() >= 4 {
                let n = be32(payload) / 2;
                if payload.skip(4).len() >= 8 * n {
                    assert(payload.skip(4).skip(8 * n) =~= payload.skip(4 + 8 * n));
                }
            }
        } else if d == decode_clipboard(payload) {
            if payload.len() >= 10 {
                let block = payload.skip(6);
                if block.len() - 4 >= be32(block) {
                    assert(block.skip(4 + be32(block)) =~= payload.skip(10 + be32(block)));
                }
            }
        } else {
            lemma_fixed_stays_in_bounds(payload, 0, d.result->Ok_0);
            lemma_fixed_stays_in_bounds(payload, 1, d.result->Ok_0);
            lemma_fixed_stays_in_bounds(payload, 4, d.result->Ok_0);
            lemma_fixed_stays_in_bounds(payload, 5, d.result->Ok_0);
            lemma_fixed_stays_in_bounds(payload, 6, d.result->Ok_0);
            lemma_fixed_stays_in_bounds(payload, 10, d.result->Ok_0);
            lemma_fixed_stays_in_bounds(payload, size - 4, d.result->Ok_0);
        }
    }
}

/// A read never goes beyond its input: what it leaves unread is a tail of
/// the input, and a message takes at least the eight bytes of its length
/// and tag.
pub proof fn lemma_decode_stays_in_bounds(input: Seq<u8>)
    ensures
        decode(input).rest.len() <= input.len(),
        decode(input).rest == input.skip(input.len() - decode(input).rest.len()),
        decode(input).result is Ok ==> decode(input).rest.len() + 8 <= input.len(),
{
    let d = decode(input);
    if input.len() >= 8 && be32(input) >= 4 {
        let payload = input.skip(8);
        lemma_payload_stays_in_bounds(be32(input), input.subrange(4, 8), payload);
        assert(payload.skip(payload.len() - d.rest.len()) =~= input.skip(
            input.len() - d.rest.len(),
        ));
    } else {
        assert(d.rest =~= input.skip(input.len() - d.rest.len()));
    }
}

/// A declared length under four is refused whatever follows it, and that
/// many bytes after the length are skipped, or all of them where fewer are
/// left.
pub proof fn lemma_small_frame_is_refused(input: Seq<u8>)
    requires
        input.len() >= 4,
        be32(input) < 4,
    ensures
        decode(input).result == Err::<PacketView, PacketError>(PacketError::PacketTooSmall),
        input.len() >= 4 + be32(input) ==> decode(input).rest == input.skip(4 + be32(input)),
        input.len() < 4 + be32(input) ==> decode(input).rest == Seq::<u8>::empty(),
{
}

/// A tag of plain ASCII bytes is, as text, the characters that the bytes
/// stand for.
pub proof fn lemma_ascii_tag_text(code: Seq<u8>)
    requires
        forall|i: int| 0 <= i < code.len() ==> code[i] < 0x80,
    ensures
        text_of(code) == Seq::new(code.len(), |i: int| code[i] as char),
{
    let chars = Seq::new(code.len(), |i: int| code[i] as char);
    assert(vstd::utf8::is_ascii_chars(chars));
    vstd::utf8::is_ascii_chars_encode_utf8(chars);
    assert(vstd::utf8::encode_utf8(chars) =~= code);
    vstd::utf8::encode_utf8_valid_utf8(chars);
    vstd::utf8::encode_utf8_decode_utf8(chars);
}

/// A whole frame with a tag that has no layout is skipped: the read takes
/// the length, the tag and as many bytes as the length counts beyond the
/// tag, and gives the tag as text.
pub proof fn lemma_unknown_frame_is_skipped(input: Seq<u8>)
    requires
        input.len() >= 8,
        be32(input) >= 4,
        !known_tag(be32(input.skip(4))),
        input.len() >= 4 + be32(input),
    ensures
        decode(input).result == Ok::<PacketView, PacketError>(
            PacketView::Unknown(text_of(input.subrange(4, 8))),
        ),
        decode(input).rest == input.skip(4 + be32(input)),
{
    assert(be32(input.subrange(4, 8)) == be32(input.skip(4)));
    assert(input.skip(8).skip(be32(input) - 4) =~= input.skip(4 + be32(input)));
}

/// A frame cut anywhere before its end is not read as a message: the read
/// fails for want of bytes.
pub proof fn lemma_truncated_frame_fails(input: Seq<u8>, k: int)
    requires
        decode(input).result is Ok,
        0 <= k < input.len() - decode(input).rest.len(),
    ensures
        decode(input.take(k)).result == Err::<PacketView, PacketError>(PacketError::IoError)
            || decode(input.take(k)).result == Err::<PacketView, PacketError>(
            PacketError::InsufficientDataError,
        ),
        decode(input.take(k)).rest == Seq::<u8>::empty(),
{
    lemma_decode_stays_in_bounds(input);
    let cut = input.take(k);
    if k >= 8 {
        let size = be32(input);
        let code = input.subrange(4, 8);
        let payload = input.skip(8);
        let short = cut.skip(8);
        assert(be32(cut) == size);
        assert(cut.subrange(4, 8) =~= code);
        assert(short =~= payload.take(k - 8));
        let whole = decode_payload(size, code, payload);
        if whole == decode_options(payload) {
            if short.len() >= 4 {
                assert(be32(short) == be32(payload));
            }
        } else if whole == decode_clipboard(payload) {
            if short.len() >= 10 {
                assert(be32(short.skip(6)) == be32(payload.skip(6)));
            }
        }
    }
}

/// The options depend on the bytes of their pairs alone.
proof fn lemma_options_depend_on_their_pairs(a: Seq<u8>, b: Seq<u8>, n: nat)
    requires
        a.len() >= 8 * n,
        b.len() >= 8 * n,
        a.take(8 * (n as int)) == b.take(8 * (n as int)),
    ensures
        options(a, n) == options(b, n),
    decreases n,
{
    if n > 0 {
        let whole: int = 8 * (n as int);
        let before: int = whole - 8;
        assert(a.take(before) =~= a.take(whole).take(before));
        assert(b.take(before) =~= b.take(whole).take(before));
        lemma_options_depend_on_their_pairs(a, b, (n - 1) as nat);
        assert forall|i: int| before <= i < whole implies a[i] == b[i] by {
            assert(a[i] == a.take(whole)[i]);
            assert(b[i] == b.take(whole)[i]);
        }
        assert(pair_name(a, n - 1) == pair_name(b, n - 1));
        assert(pair_value(a, n - 1) == pair_value(b, n - 1));
    }
}

/// What a payload holds does not depend on what follows it.
proof fn lemma_payload_ignores_what_follows(
    size: u32,
    code: Seq<u8>,
    payload: Seq<u8>,
    other: Seq<u8>,
)
    requires
        size >= 4,
        decode_payload(size, code, payload).result is Ok,
    ensures
        ({
            let whole = decode_payload(size, code, payload);
            let n = payload.len() - whole.rest.len();
            let again = decode_payload(size, code, payload.take(n) + other);
            again.result == whole.result && again.rest == other
        }),
{
    lemma_payload_stays_in_bounds(size, code, payload);
    let whole = decode_payload(size, code, payload);
    let n = payload.len() - whole.rest.len();
    let joined = payload.take(n) + other;
    let again = decode_payload(size, code, joined);
    assert forall|i: int| 0 <= i < n implies joined[i] == payload[i] by {}
    assert(joined.skip(n) =~= other);
    if whole == decode_options(payload) {
        let count: int = be32(payload) as int / 2;
        assert(be32(joined) == be32(payload));
        assert(n == 4 + 8 * count);
        assert(joined.skip(4).take(8 * count) =~= payload.skip(4).take(8 * count));
        lemma_options_depend_on_their_pairs(joined.skip(4), payload.skip(4), count as nat);
        assert(joined.skip(4).skip(8 * count) =~= other);
    } else if whole == decode_clipboard(payload) {
        let len = be32(payload.skip(6));
        assert(be32(joined.skip(6)) == len);
        assert(be32(joined.skip(1)) == be32(payload.skip(1)));
        assert(n == 10 + len);
        assert(joined.skip(6).subrange(4, 4 + len) =~= payload.skip(6).subrange(4, 4 + len));
        assert(joined.skip(6).skip(4 + len) =~= other);
    } else {
        if n >= 2 {
            assert(be16(joined) == be16(payload));
        }
        if n >= 4 {
            assert(be16(joined.skip(2)) == be16(payload.skip(2)));
        }
        if n >= 5 {
            assert(be32(joined.skip(1)) == be32(payload.skip(1)));
        }
        if n >= 6 {
            assert(be16(joined.skip(4)) == be16(payload.skip(4)));
        }
        if n >= 10 {
            assert(be32(joined.skip(4)) == be32(payload.skip(4)));
            assert(be16(joined.skip(8)) == be16(payload.skip(8)));
        }
    }
}

/// A frame is read for itself: what follows it changes neither the message
/// nor where the read stops.
pub proof fn lemma_decode_ignores_what_follows(input: Seq<u8>, other: Seq<u8>)
    requires
        decode(input).result is Ok,
    ensures
        ({
            let n = input.len() - decode(input).rest.len();
            let again = decode(input.take(n) + other);
            again.result == decode(input).result && again.rest == other
        }),
{
    lemma_decode_stays_in_bounds(input);
    let n = input.len() - decode(input).rest.len();
    let joined = input.take(n) + other;
    let payload = input.skip(8);
    let whole = decode_payload(be32(input), input.subrange(4, 8), payload);
    assert(be32(joined) == be32(input));
    assert(joined.subrange(4, 8) =~= input.subrange(4, 8));
    assert(payload.len() - whole.rest.len() == n - 8);
    assert(joined.skip(8) =~= payload.take(n - 8) + other);
    lemma_payload_ignores_what_follows(be32(input), input.subrange(4, 8), payload, other);
}

/// A frame is its length, its tag and its payload, in that order, and the
/// length counts the tag and the payload.
pub proof fn lemma_frame_splits(tag: u32, payload: Seq<u8>, tail: Seq<u8>)
    requires
        4 + payload.len() <= u32::MAX,
    ensures
        (frame(tag, payload) + tail).len() == 8 + payload.len() + tail.len(),
        be32(frame(tag, payload) + tail) == 4 + payload.len(),
        (frame(tag, payload) + tail).subrange(4, 8) == u32_bytes(tag),
        be32(u32_bytes(tag)) == tag,
        (frame(tag, payload) + tail).skip(8) == payload + tail,
{
    let len = (4 + payload.len()) as u32;
    let input = frame(tag, payload) + tail;
    assert(input =~= u32_bytes(len) + (u32_bytes(tag) + (payload + tail)));
    lemma_u32_round_trip(len, u32_bytes(tag) + (payload + tail));
    lemma_u32_round_trip(tag, Seq::empty());
    assert(u32_bytes(tag) + Seq::<u8>::empty() =~= u32_bytes(tag));
    assert(input.subrange(4, 8) =~= u32_bytes(tag));
    assert(input.skip(8) =~= payload + tail);
}

/// The length that opens the frame of an outbound message counts exactly
/// the bytes behind it.
pub proof fn lemma_frame_length(packet: PacketView)
    requires
        packet.outbound(),
    ensures
        packet.wire_form().len() == 4 + be32(packet.wire_form()),
{
    match packet {
        PacketView::QueryInfo => {
            lemma_frame_splits(QINF, Seq::empty(), Seq::empty());
        },
        PacketView::ClientNoOp => {
            lemma_frame_splits(CNOP, Seq::empty(), Seq::empty());
        },
        PacketView::InfoAck => {
            lemma_frame_splits(CIAK, Seq::empty(), Seq::empty());
        },
        PacketView::KeepAlive => {
            lemma_frame_splits(CALV, Seq::empty(), Seq::empty());
        },
        PacketView::ErrorUnknownDevice => {
            lemma_frame_splits(EUNK, Seq::empty(), Seq::empty());
        },
        PacketView::MouseMoveAbs { x, y } => {
            lemma_frame_splits(DMMV, u16_bytes(x) + u16_bytes(y), Seq::empty());
        },
        PacketView::DeviceInfo { x, y, w, h, dummy, mx, my } => {
            lemma_frame_splits(
                DINF,
                u16_bytes(x) + u16_bytes(y) + u16_bytes(w) + u16_bytes(h) + u16_bytes(0)
                    + u16_bytes(mx) + u16_bytes(my),
                Seq::empty(),
            );
        },
        _ => {},
    }
    assert(packet.wire_form() + Seq::<u8>::empty() =~= packet.wire_form());
}

/// An outbound message whose tag has a layout when read comes back from
/// its own frame unchanged, and the read stops where the frame ends.
pub proof fn lemma_round_trip(packet: PacketView, tail: Seq<u8>)
    requires
        packet.outbound(),
        !(packet is DeviceInfo),
        !(packet is ClientNoOp),
    ensures
        decode(packet.wire_form() + tail).result == Ok::<PacketView, PacketError>(packet),
        decode(packet.wire_form() + tail).rest == tail,
{
    assert(tail.skip(0) =~= tail);
    assert(Seq::<u8>::empty() + tail =~= tail);
    match packet {
        PacketView::QueryInfo => {
            lemma_frame_splits(QINF, Seq::empty(), tail);
        },
        PacketView::InfoAck => {
            lemma_frame_splits(CIAK, Seq::empty(), tail);
        },
        PacketView::KeepAlive => {
            lemma_frame_splits(CALV, Seq::empty(), tail);
        },
        PacketView::ErrorUnknownDevice => {
            lemma_frame_splits(EUNK, Seq::empty(), tail);
        },
        PacketView::MouseMoveAbs { x, y } => {
            lemma_frame_splits(DMMV, u16_bytes(x) + u16_bytes(y), tail);
            let body = u16_bytes(x) + u16_bytes(y) + tail;
            assert(body =~= u16_bytes(x) + (u16_bytes(y) + tail));
            lemma_u16_round_trip(x, u16_bytes(y) + tail);
            lemma_u16_round_trip(y, tail);
            assert(body.skip(4) =~= tail);
        },
        _ => {},
    }
}

/// The frame of the screen's size is read as an unknown message that holds
/// its tag as text, since that tag has no layout when read; the read stops
/// where the frame ends.
pub proof fn lemma_device_info_reads_as_unknown(packet: PacketView, tail: Seq<u8>)
    requires
        packet is DeviceInfo,
    ensures
        decode(packet.wire_form() + tail).result == Ok::<PacketView, PacketError>(
            PacketView::Unknown(seq!['D', 'I', 'N', 'F']),
        ),
        decode(packet.wire_form() + tail).rest == tail,
{
    let input = packet.wire_form() + tail;
    match packet {
        PacketView::DeviceInfo { x, y, w, h, dummy, mx, my } => {
            let fields = u16_bytes(x) + u16_bytes(y) + u16_bytes(w) + u16_bytes(h) + u16_bytes(0)
                + u16_bytes(mx) + u16_bytes(my);
            let body = fields + tail;
            assert(fields.len() == 14);
            lemma_frame_splits(DINF, fields, tail);
            assert(body.skip(14) =~= tail);
            assert(!known_tag(DINF));
            assert(decode(input) == decode_payload(18, u32_bytes(DINF), body));
            assert(decode_payload(18, u32_bytes(DINF), body) == fixed(
                body,
                14,
                PacketView::Unknown(text_of(u32_bytes(DINF))),
            ));
            lemma_tag_letters();
            lemma_ascii_tag_text(u32_bytes(DINF));
            assert(text_of(u32_bytes(DINF)) =~= seq!['D', 'I', 'N', 'F']);
        },
        _ => {},
    }
}

/// The frame of the no-op is read as an unknown message that holds its tag
/// as text, since that tag has no layout when read; the read stops where the
/// frame ends.
pub proof fn lemma_no_op_reads_as_unknown(tail: Seq<u8>)
    ensures
        decode(PacketView::ClientNoOp.wire_form() + tail).result == Ok::<PacketView, PacketError>(
            PacketView::Unknown(seq!['C', 'N', 'O', 'P']),
        ),
        decode(PacketView::ClientNoOp.wire_form() + tail).rest == tail,
{
    let input = PacketView::ClientNoOp.wire_form() + tail;
    lemma_frame_splits(CNOP, Seq::empty(), tail);
    assert(Seq::<u8>::empty() + tail =~= tail);
    assert(tail.skip(0) =~= tail);
    assert(!known_tag(CNOP));
    assert(decode(input) == decode_payload(4, u32_bytes(CNOP), tail));
    lemma_tag_letters();
    lemma_ascii_tag_text(u32_bytes(CNOP));
    assert(text_of(u32_bytes(CNOP)) =~= seq!['C', 'N', 'O', 'P']);
}

/// A name is set exactly where one of the pairs has it.
pub proof fn lemma_options_names(pairs: Seq<u8>, n: nat, name: u32)
    ensures
        options(pairs, n).contains_key(name) <==> exists|i: int|
            0 <= i < n && #[trigger] pair_name(pairs, i) == name,
    decreases n,
{
    if n > 0 {
        let before = options(pairs, (n - 1) as nat);
        lemma_options_names(pairs, (n - 1) as nat, name);
        if options(pairs, n).contains_key(name) {
            if pair_name(pairs, n - 1) == name {
            } else {
                assert(before.contains_key(name));
                let i = choose|i: int| 0 <= i < n - 1 && #[trigger] pair_name(pairs, i) == name;
                assert(0 <= i < n && pair_name(pairs, i) == name);
            }
        }
        if exists|i: int| 0 <= i < n && #[trigger] pair_name(pairs, i) == name {
            let i = choose|i: int| 0 <= i < n && #[trigger] pair_name(pairs, i) == name;
            if i < n - 1 {
                assert(0 <= i < n - 1 && pair_name(pairs, i) == name);
            }
        }
    }
}

/// The value of a name is that of the last pair that has it.
pub proof fn lemma_options_value(pairs: Seq<u8>, n: nat, i: int)
    requires
        0 <= i < n,
        forall|j: int| i < j < n ==> #[trigger] pair_name(pairs, j) != pair_name(pairs, i),
    ensures
        options(pairs, n).contains_key(pair_name(pairs, i)),
        options(pairs, n)[pair_name(pairs, i)] == pair_value(pairs, i),
    decreases n,
{
    if i < n - 1 {
        assert(pair_name(pairs, n - 1) != pair_name(pairs, i));
        lemma_options_value(pairs, (n - 1) as nat, i);
    }
}

/// There are at most as many options as pairs, and exactly as many where
/// no name comes twice.
pub proof fn lemma_options_count(pairs: Seq<u8>, n: nat)
    ensures
        options(pairs, n).dom().finite(),
        options(pairs, n).len() <= n,
        (forall|i: int, j: int|
            0 <= i < j < n ==> #[trigger] pair_name(pairs, i) != #[trigger] pair_name(pairs, j))
            ==> options(pairs, n).len() == n,
    decreases n,
{
    if n > 0 {
        let before = options(pairs, (n - 1) as nat);
        let last = pair_name(pairs, n - 1);
        lemma_options_count(pairs, (n - 1) as nat);
        if forall|i: int, j: int|
            0 <= i < j < n ==> #[trigger] pair_name(pairs, i) != #[trigger] pair_name(pairs, j) {
            lemma_options_names(pairs, (n - 1) as nat, last);
            if before.contains_key(last) {
                let i = choose|i: int| 0 <= i < n - 1 && #[trigger] pair_name(pairs, i) == last;
                assert(pair_name(pairs, i) != pair_name(pairs, n - 1));
            }
            assert(!before.contains_key(last));
        }
    }
}

/// Each tag is four letters, read as one big-endian number.
pub proof fn lemma_tag_letters()
    ensures
        u32_bytes(QINF) == seq!['Q' as u8, 'I' as u8, 'N' as u8, 'F' as u8],
        u32_bytes(DINF) == seq!['D' as u8, 'I' as u8, 'N' as u8, 'F' as u8],
        u32_bytes(CIAK) == seq!['C' as u8, 'I' as u8, 'A' as u8, 'K' as u8],
        u32_bytes(CALV) == seq!['C' as u8, 'A' as u8, 'L' as u8, 'V' as u8],
        u32_bytes(CROP) == seq!['C' as u8, 'R' as u8, 'O' as u8, 'P' as u8],
        u32_bytes(CNOP) == seq!['C' as u8, 'N' as u8, 'O' as u8, 'P' as u8],
        u32_bytes(DSOP) == seq!['D' as u8, 'S' as u8, 'O' as u8, 'P' as u8],
        u32_bytes(EUNK) == seq!['E' as u8, 'U' as u8, 'N' as u8, 'K' as u8],
        u32_bytes(DMMV) == seq!['D' as u8, 'M' as u8, 'M' as u8, 'V' as u8],
        u32_bytes(CINN) == seq!['C' as u8, 'I' as u8, 'N' as u8, 'N' as u8],
        u32_bytes(COUT) == seq!['C' as u8, 'O' as u8, 'U' as u8, 'T' as u8],
        u32_bytes(CCLP) == seq!['C' as u8, 'C' as u8, 'L' as u8, 'P' as u8],
        u32_bytes(DCLP) == seq!['D' as u8, 'C' as u8, 'L' as u8, 'P' as u8],
        u32_bytes(DMUP) == seq!['D' as u8, 'M' as u8, 'U' as u8, 'P' as u8],
        u32_bytes(DMDN) == seq!['D' as u8, 'M' as u8, 'D' as u8, 'N' as u8],
        u32_bytes(DKUP) == seq!['D' as u8, 'K' as u8, 'U' as u8, 'P' as u8],
        u32_bytes(DKDN) == seq!['D' as u8, 'K' as u8, 'D' as u8, 'N' as u8],
        u32_bytes(DMWM) == seq!['D' as u8, 'M' as u8, 'W' as u8, 'M' as u8],
{
}

/// The session reacts to the first message and goes on with what follows.
pub proof fn lemma_serve_unfolds(input: Seq<u8>, screen_size: (u16, u16))
    requires
        decode(input).result is Ok,
    ensures
        serve(input, screen_size).replies == reaction(
            decode(input).result->Ok_0,
            screen_size,
        ).reply_bytes() + serve(decode(input).rest, screen_size).replies,
        serve(input, screen_size).commands == reaction(
            decode(input).result->Ok_0,
            screen_size,
        ).command_bytes() + serve(decode(input).rest, screen_size).commands,
        serve(input, screen_size).rest == serve(decode(input).rest, screen_size).rest,
{
    reveal(serve);
    lemma_decode_stays_in_bounds(input);
}

/// The session ends where a read fails: nothing more is sent, and the bytes
/// that the failed read left are left.
pub proof fn lemma_serve_ends(input: Seq<u8>, screen_size: (u16, u16))
    requires
        decode(input).result is Err,
    ensures
        serve(input, screen_size).replies == Seq::<u8>::empty(),
        serve(input, screen_size).commands == Seq::<u8>::empty(),
        serve(input, screen_size).rest == decode(input).rest,
{
    reveal(serve);
}

/// A query for the screen's size is answered with exactly one message, which
/// holds the session's screen size and zero in every other field; nothing
/// goes to the device, and the session goes on with what follows.
pub proof fn lemma_query_info_is_answered(screen_size: (u16, u16), tail: Seq<u8>)
    ensures
        serve(PacketView::QueryInfo.wire_form() + tail, screen_size).replies
            == (PacketView::DeviceInfo {
            x: 0,
            y: 0,
            w: screen_size.0,
            h: screen_size.1,
            dummy: 0,
            mx: 0,
            my: 0,
        }).wire_form() + serve(tail, screen_size).replies,
        serve(PacketView::QueryInfo.wire_form() + tail, screen_size).commands == serve(
            tail,
            screen_size,
        ).commands,
{
    let input = PacketView::QueryInfo.wire_form() + tail;
    lemma_round_trip(PacketView::QueryInfo, tail);
    lemma_serve_unfolds(input, screen_size);
    assert(Seq::<u8>::empty() + serve(tail, screen_size).commands =~= serve(
        tail,
        screen_size,
    ).commands);
}

/// The frame in which the server says that a key went down.
pub open spec fn key_down_frame(id: u16, mask: u16, button: u16) -> Seq<u8> {
    frame(DKDN, u16_bytes(id) + u16_bytes(mask) + u16_bytes(button))
}

/// The frame of a key that went down is read as that message.
proof fn lemma_key_down_is_read(id: u16, mask: u16, button: u16, tail: Seq<u8>)
    ensures
        decode(key_down_frame(id, mask, button) + tail).result == Ok::<PacketView, PacketError>(
            PacketView::KeyDown { id, mask, button },
        ),
        decode(key_down_frame(id, mask, button) + tail).rest == tail,
{
    let body = u16_bytes(id) + u16_bytes(mask) + u16_bytes(button) + tail;
    lemma_frame_splits(DKDN, u16_bytes(id) + u16_bytes(mask) + u16_bytes(button), tail);
    assert(body =~= u16_bytes(id) + (u16_bytes(mask) + (u16_bytes(button) + tail)));
    lemma_u16_round_trip(id, u16_bytes(mask) + (u16_bytes(button) + tail));
    lemma_u16_round_trip(mask, u16_bytes(button) + tail);
    lemma_u16_round_trip(button, tail);
    assert(body.skip(2) =~= u16_bytes(mask) + (u16_bytes(button) + tail));
    assert(body.skip(4) =~= u16_bytes(button) + tail);
    assert(body.skip(6) =~= tail);
}

/// A key that goes down gives exactly one command to the device, the one
/// for a key that goes down, with the same three fields; nothing goes back
/// to the server, and the session goes on with what follows.
pub proof fn lemma_key_down_is_forwarded(
    id: u16,
    mask: u16,
    button: u16,
    screen_size: (u16, u16),
    tail: Seq<u8>,
)
    ensures
        serve(key_down_frame(id, mask, button) + tail, screen_size).commands
            == (DownstreamCommand::KeyDown { id, mask, button }).wire_form() + serve(
            tail,
            screen_size,
        ).commands,
        serve(key_down_frame(id, mask, button) + tail, screen_size).replies == serve(
            tail,
            screen_size,
        ).replies,
        (DownstreamCommand::KeyDown { id, mask, button }).opcode() == 3,
{
    let input = key_down_frame(id, mask, button) + tail;
    lemma_key_down_is_read(id, mask, button, tail);
    lemma_serve_unfolds(input, screen_size);
    assert(Seq::<u8>::empty() + serve(tail, screen_size).replies =~= serve(
        tail,
        screen_size,
    ).replies);
}

} // verus!
