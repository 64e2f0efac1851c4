//! The Kitty terminal graphics protocol: base64 payloads and the escape
//! sequences that place, crop and clear images.
use crate::text::{decimal, decimal_chars, push_char, push_str, string_of};
use vstd::prelude::*;

verus! {

// ---------------------------------------------------------------------------
// Base64
// ---------------------------------------------------------------------------

/// The standard base64 alphabet: `A-Z`, `a-z`, `0-9`, `+`, `/`.
pub open spec fn b64_char(i: int) -> char {
    if i < 26 {
        (65 + i) as char
    } else if i < 52 {
        (97 + i - 26) as char
    } else if i < 62 {
        (48 + i - 52) as char
    } else if i == 62 {
        '+'
    } else {
        '/'
    }
}

/// The four characters encoding a group of one to three bytes, `=`-padded.
pub open spec fn b64_group(g: Seq<u8>) -> Seq<char> {
    let b0 = g[0] as int;
    let b1 = if g.len() > 1 { g[1] as int } else { 0 };
    let b2 = if g.len() > 2 { g[2] as int } else { 0 };
    seq![
        b64_char(b0 / 4),
        b64_char((b0 % 4) * 16 + b1 / 16),
        if g.len() > 1 { b64_char((b1 % 16) * 4 + b2 / 64) } else { '=' },
        if g.len() > 2 { b64_char(b2 % 64) } else { '=' },
    ]
}

/// Standard padded base64 of `data`.
pub open spec fn base64(data: Seq<u8>) -> Seq<char>
    decreases data.len(),
{
    if data.len() == 0 {
        seq![]
    } else if data.len() <= 3 {
        b64_group(data)
    } else {
        b64_group(data.take(3)) + base64(data.skip(3))
    }
}

/// A character of the base64 alphabet (not the padding `=`).
pub open spec fn is_b64_symbol(c: char) -> bool {
    ('A' <= c && c <= 'Z') || ('a' <= c && c <= 'z') || ('0' <= c && c <= '9') || c == '+' || c == '/'
}

/// How many `=` pad the encoding of `n` bytes.
pub open spec fn b64_padding(n: nat) -> int {
    (3 - (n % 3) as int) % 3
}

proof fn lemma_b64_char_symbol(i: int)
    requires
        0 <= i < 64,
    ensures
        is_b64_symbol(b64_char(i)),
{
}

proof fn lemma_b64_group_shape(g: Seq<u8>)
    requires
        1 <= g.len() <= 3,
    ensures
        b64_group(g).len() == 4,
        forall|k: int| 0 <= k < 4 - b64_padding(g.len()) ==> is_b64_symbol(#[trigger] b64_group(g)[k]),
        forall|k: int| 4 - b64_padding(g.len()) <= k < 4 ==> #[trigger] b64_group(g)[k] == '=',
{
    let b0 = g[0] as int;
    let b1 = if g.len() > 1 { g[1] as int } else { 0 };
    let b2 = if g.len() > 2 { g[2] as int } else { 0 };
    lemma_b64_char_symbol(b0 / 4);
    lemma_b64_char_symbol((b0 % 4) * 16 + b1 / 16);
    lemma_b64_char_symbol((b1 % 16) * 4 + b2 / 64);
    lemma_b64_char_symbol(b2 % 64);
}

/// Base64 of `n` bytes takes `4 * ceil(n / 3)` characters, all of the
/// alphabet except the `=` that pad the end to a multiple of four
/// (`(3 - n % 3) % 3` of them).
pub proof fn base64_shape(data: Seq<u8>)
    ensures
        base64(data).len() == 4 * ((data.len() + 2) / 3),
        forall|k: int| 0 <= k < base64(data).len() - b64_padding(data.len()) ==> is_b64_symbol(#[trigger] base64(data)[k]),
        forall|k: int|
            base64(data).len() - b64_padding(data.len()) <= k < base64(data).len() ==> #[trigger] base64(data)[k] == '=',
    decreases data.len(),
{
    if data.len() == 0 {
    } else if data.len() <= 3 {
        lemma_b64_group_shape(data);
    } else {
        let g = data.take(3);
        let rest = data.skip(3);
        lemma_b64_group_shape(g);
        base64_shape(rest);
        let e = base64(data);
        let h = b64_group(g);
        let t = base64(rest);
        assert(e == h + t);
        assert(rest.len() % 3 == data.len() % 3);
        assert forall|k: int| 0 <= k < e.len() - b64_padding(data.len()) implies is_b64_symbol(#[trigger] e[k]) by {
            if k < 4 {
                assert(e[k] == h[k]);
            } else {
                assert(e[k] == t[k - 4]);
            }
        }
        assert forall|k: int| e.len() - b64_padding(data.len()) <= k < e.len() implies #[trigger] e[k] == '=' by {
            assert(e[k] == t[k - 4]);
        }
    }
}

/// The number a base64 character stands for.
pub open spec fn b64_value(c: char) -> int {
    if 'A' <= c && c <= 'Z' {
        c as int - 65
    } else if 'a' <= c && c <= 'z' {
        c as int - 97 + 26
    } else if '0' <= c && c <= '9' {
        c as int - 48 + 52
    } else if c == '+' {
        62
    } else {
        63
    }
}

/// The bytes four base64 characters stand for: three, or fewer when the
/// group ends in `=`.
pub open spec fn b64_decode_group(q: Seq<char>) -> Seq<u8> {
    let x0 = b64_value(q[0]);
    let x1 = b64_value(q[1]);
    let x2 = b64_value(q[2]);
    let x3 = b64_value(q[3]);
    let y0 = (x0 * 4 + x1 / 16) as u8;
    let y1 = ((x1 % 16) * 16 + x2 / 4) as u8;
    let y2 = ((x2 % 4) * 64 + x3) as u8;
    if q[2] == '=' {
        seq![y0]
    } else if q[3] == '=' {
        seq![y0, y1]
    } else {
        seq![y0, y1, y2]
    }
}

/// Standard base64 decoding, group by group.
pub open spec fn base64_decode(s: Seq<char>) -> Seq<u8>
    decreases s.len(),
{
    if s.len() < 4 {
        seq![]
    } else {
        b64_decode_group(s.take(4)) + base64_decode(s.skip(4))
    }
}

proof fn lemma_b64_value(i: int)
    requires
        0 <= i < 64,
    ensures
        b64_value(b64_char(i)) == i,
        b64_char(i) != '=',
{
}

proof fn lemma_byte_split(b0: int, b1: int, b2: int)
    requires
        0 <= b0 < 256,
        0 <= b1 < 256,
        0 <= b2 < 256,
    ensures
        (b0 / 4) * 4 + ((b0 % 4) * 16 + b1 / 16) / 16 == b0,
        (((b0 % 4) * 16 + b1 / 16) % 16) * 16 + ((b1 % 16) * 4 + b2 / 64) / 4 == b1,
        (((b1 % 16) * 4 + b2 / 64) % 4) * 64 + b2 % 64 == b2,
        0 <= (b0 % 4) * 16 + b1 / 16 < 64,
        0 <= (b1 % 16) * 4 + b2 / 64 < 64,
{
    assert((b0 / 4) * 4 + ((b0 % 4) * 16 + b1 / 16) / 16 == b0) by (nonlinear_arith)
        requires 0 <= b0 < 256, 0 <= b1 < 256;
    assert((((b0 % 4) * 16 + b1 / 16) % 16) * 16 + ((b1 % 16) * 4 + b2 / 64) / 4 == b1) by (nonlinear_arith)
        requires 0 <= b0 < 256, 0 <= b1 < 256, 0 <= b2 < 256;
    assert((((b1 % 16) * 4 + b2 / 64) % 4) * 64 + b2 % 64 == b2) by (nonlinear_arith)
        requires 0 <= b1 < 256, 0 <= b2 < 256;
    assert(0 <= (b0 % 4) * 16 + b1 / 16 < 64) by (nonlinear_arith)
        requires 0 <= b0 < 256, 0 <= b1 < 256;
    assert(0 <= (b1 % 16) * 4 + b2 / 64 < 64) by (nonlinear_arith)
        requires 0 <= b1 < 256, 0 <= b2 < 256;
}

proof fn lemma_group_round_trip(g: Seq<u8>)
    requires
        1 <= g.len() <= 3,
    ensures
        b64_decode_group(b64_group(g)) == g,
{
    let b0 = g[0] as int;
    let b1 = if g.len() > 1 { g[1] as int } else { 0 };
    let b2 = if g.len() > 2 { g[2] as int } else { 0 };
    lemma_byte_split(b0, b1, b2);
    lemma_b64_value(b0 / 4);
    lemma_b64_value((b0 % 4) * 16 + b1 / 16);
    lemma_b64_value((b1 % 16) * 4 + b2 / 64);
    lemma_b64_value(b2 % 64);
    assert(b64_decode_group(b64_group(g)) =~= g);
}

/// Decoding the base64 of some bytes gives the bytes back.
pub proof fn base64_round_trip(data: Seq<u8>)
    ensures
        base64_decode(base64(data)) == data,
    decreases data.len(),
{
    if data.len() == 0 {
    } else if data.len() <= 3 {
        lemma_group_round_trip(data);
        lemma_b64_group_shape(data);
        let e = base64(data);
        assert(e.take(4) =~= e);
        assert(e.skip(4) =~= Seq::<char>::empty());
        assert(base64_decode(e.skip(4)) =~= Seq::<u8>::empty());
        assert(base64_decode(e) =~= data);
    } else {
        let g = data.take(3);
        let rest = data.skip(3);
        lemma_group_round_trip(g);
        lemma_b64_group_shape(g);
        base64_round_trip(rest);
        base64_shape(rest);
        let e = base64(data);
        let h = b64_group(g);
        let t = base64(rest);
        assert(e == h + t);
        assert(e.take(4) =~= h);
        assert(e.skip(4) =~= t);
        assert(g + rest =~= data);
    }
}

fn b64_char_exec(i: u32) -> (c: char)
    requires
        i < 64,
    ensures
        c == b64_char(i as int),
{
    if i < 26 {
        ((65 + i) as u8) as char
    } else if i < 52 {
        ((97 + i - 26) as u8) as char
    } else if i < 62 {
        ((48 + i - 52) as u8) as char
    } else if i == 62 {
        '+'
    } else {
        '/'
    }
}

/// Encodes `data` as standard padded base64.
pub fn base64_encode(data: &[u8]) -> (r: String)
    ensures
        r@ == base64(data@),
{
    let mut out = String::new();
    let mut i: usize = 0;
    assert(data@.skip(0) =~= data@);
    assert(out@ + base64(data@) =~= base64(data@));
    while i < data.len()
        invariant
            i <= data.len(),
            base64(data@) == out@ + base64(data@.skip(i as int)),
        decreases data.len() - i,
    {
        let n = if data.len() - i >= 3 { 3 } else { data.len() - i };
        let b0 = data[i] as u32;
        let b1 = if n > 1 { data[i + 1] as u32 } else { 0 };
        let b2 = if n > 2 { data[i + 2] as u32 } else { 0 };
        let triple: u32 = (b0 << 16) | (b1 << 8) | b2;
        assert((triple >> 18) & 0x3F == b0 / 4 && (triple >> 12) & 0x3F == (b0 % 4) * 16 + b1 / 16
            && (triple >> 6) & 0x3F == (b1 % 16) * 4 + b2 / 64 && triple & 0x3F == b2 % 64) by (bit_vector)
            requires
                b0 < 256 && b1 < 256 && b2 < 256,
                triple == (b0 << 16) | (b1 << 8) | b2,
        ;
        let ghost before = out@;
        let ghost rest = data@.skip(i as int);
        let ghost g = if rest.len() <= 3 { rest } else { rest.take(3) };
        proof {
            assert(g.len() == n);
            assert(g[0] == data@[i as int]);
            if n > 1 {
                assert(g[1] == data@[i + 1]);
            }
            if n > 2 {
                assert(g[2] == data@[i + 2]);
            }
        }
        push_char(&mut out, b64_char_exec((triple >> 18) & 0x3F));
        push_char(&mut out, b64_char_exec((triple >> 12) & 0x3F));
        push_char(&mut out, if n > 1 { b64_char_exec((triple >> 6) & 0x3F) } else { '=' });
        push_char(&mut out, if n > 2 { b64_char_exec(triple & 0x3F) } else { '=' });
        proof {
            assert(out@ =~= before + b64_group(g));
            if rest.len() > 3 {
                assert(rest.skip(3) =~= data@.skip(i + 3));
                assert(base64(rest) == b64_group(g) + base64(rest.skip(3)));
            } else {
                assert(data@.skip(i + n) =~= Seq::<u8>::empty());
            }
        }
        i += n;
    }
    assert(data@.skip(data.len() as int) =~= Seq::<u8>::empty());
    assert(out@ + Seq::<char>::empty() =~= out@);
    out
}

// ---------------------------------------------------------------------------
// Escape sequences
// ---------------------------------------------------------------------------

/// The bytes of an ASCII character sequence.
pub open spec fn ascii_bytes(s: Seq<char>) -> Seq<u8> {
    s.map_values(|c: char| c as u8)
}

/// The decimal digits of `n`, as bytes.
pub open spec fn decimal_bytes(n: nat) -> Seq<u8> {
    ascii_bytes(decimal(n))
}

/// Deletes every image the terminal shows: `ESC _ G a=d ESC \`.
pub open spec fn clear_images_sequence() -> Seq<u8> {
    seq![27u8, 95, 71, 97, 61, 100, 27, 92]
}

/// The bytes that clear all Kitty images.
pub fn clear_all_kitty_images() -> (r: Vec<u8>)
    ensures
        r@ == clear_images_sequence(),
{
    let r = vec![27u8, 95, 71, 97, 61, 100, 27, 92];
    assert(r@ =~= clear_images_sequence());
    r
}

/// Where and how large an image is drawn, and how many of its text rows are
/// cut off above and below the visible area.
#[derive(Clone, Copy, Debug, PartialEq, Eq, Structural)]
pub struct KittyImageArgs {
    pub screen_x: u16,
    pub screen_y: u16,
    pub cols: u16,
    pub rows: u16,
    pub crop_top_lines: u16,
    pub crop_bot_lines: u16,
}

/// The piece of the payload starting at byte `k`.
pub open spec fn chunk_at(b: Seq<u8>, k: int) -> Seq<u8> {
    b.subrange(k, if k + 4096 <= b.len() { k + 4096 } else { b.len() as int })
}

/// A piece as it is written: its bytes when they are UTF-8, nothing otherwise.
pub open spec fn chunk_text(c: Seq<u8>) -> Seq<u8> {
    if vstd::utf8::valid_utf8(c) {
        c
    } else {
        seq![]
    }
}

/// The `,y=..,h=..` source rectangle when rows are cropped.
pub open spec fn crop_part(args: KittyImageArgs, img_h: u32) -> Seq<u8> {
    let total = args.rows + args.crop_top_lines + args.crop_bot_lines;
    if total > 0 && (args.crop_top_lines > 0 || args.crop_bot_lines > 0) {
        ascii_bytes(",y="@) + decimal_bytes(((args.crop_top_lines * img_h) / total) as nat) + ascii_bytes(",h="@)
            + decimal_bytes(((args.rows * img_h) / total) as nat)
    } else {
        seq![]
    }
}

/// The sums the placement computes stay within `u16`, and, when rows are
/// cropped, the products within `u32`.
pub open spec fn kitty_args_in_range(args: KittyImageArgs, img_h: u32) -> bool {
    &&& args.rows + args.crop_top_lines <= u16::MAX
    &&& args.rows + args.crop_top_lines + args.crop_bot_lines <= u16::MAX
    &&& (args.crop_top_lines > 0 || args.crop_bot_lines > 0) ==> {
        &&& args.crop_top_lines * img_h <= u32::MAX
        &&& args.rows * img_h <= u32::MAX
    }
}

/// The transmission of the pieces from byte `k` on: each later piece as
/// `ESC _ G m=<more>;<piece> ESC \`.
pub open spec fn continuation_chunks(b: Seq<u8>, k: int) -> Seq<u8>
    decreases b.len() + 4096 - k,
{
    if k < 0 || k >= b.len() {
        seq![]
    } else {
        let more: nat = if k + 4096 < b.len() { 1 } else { 0 };
        ascii_bytes("\x1b_Gm="@) + decimal_bytes(more) + ascii_bytes(";"@) + chunk_text(chunk_at(b, k))
            + ascii_bytes("\x1b\\"@) + continuation_chunks(b, k + 4096)
    }
}

/// The whole transmission of an RGBA image whose base64 payload is `b`:
/// the first piece carries the format, size, cell area and crop; the rest
/// follow; nothing is sent for an empty payload.
pub open spec fn kitty_transmission(b: Seq<u8>, img_w: u32, img_h: u32, args: KittyImageArgs) -> Seq<u8> {
    if b.len() == 0 {
        seq![]
    } else {
        let more: nat = if 4096 < b.len() { 1 } else { 0 };
        ascii_bytes("\x1b_Ga=T,f=32,s="@) + decimal_bytes(img_w as nat) + ascii_bytes(",v="@) + decimal_bytes(
            img_h as nat,
        ) + ascii_bytes(",c="@) + decimal_bytes(args.cols as nat) + ascii_bytes(",r="@) + decimal_bytes(
            args.rows as nat,
        ) + ascii_bytes(",m="@) + decimal_bytes(more) + crop_part(args, img_h) + ascii_bytes(";"@) + chunk_text(
            chunk_at(b, 0),
        ) + ascii_bytes("\x1b\\"@) + continuation_chunks(b, 4096)
    }
}

/// `str::from_utf8(bytes).is_ok()`.
#[verifier::external_body]
fn bytes_are_utf8(bytes: &[u8]) -> (r: bool)
    ensures
        r == vstd::utf8::valid_utf8(bytes@),
{
    std::str::from_utf8(bytes).is_ok()
}

fn push_ascii(out: &mut Vec<u8>, lit: &str)
    ensures
        final(out)@ == old(out)@ + ascii_bytes(lit@),
{
    let cs = crate::text::to_chars(lit);
    let mut i: usize = 0;
    while i < cs.len()
        invariant
            i <= cs.len(),
            out@ == old(out)@ + ascii_bytes(cs@.take(i as int)),
        decreases cs.len() - i,
    {
        out.push(cs[i] as u8);
        assert(ascii_bytes(cs@.take(i + 1)) =~= ascii_bytes(cs@.take(i as int)).push(cs@[i as int] as u8));
        i += 1;
    }
    assert(cs@.take(cs.len() as int) =~= cs@);
}

fn push_decimal(out: &mut Vec<u8>, n: u64)
    ensures
        final(out)@ == old(out)@ + decimal_bytes(n as nat),
{
    let cs = decimal_chars(n);
    let mut i: usize = 0;
    while i < cs.len()
        invariant
            i <= cs.len(),
            cs@ == decimal(n as nat),
            out@ == old(out)@ + ascii_bytes(cs@.take(i as int)),
        decreases cs.len() - i,
    {
        out.push(cs[i] as u8);
        assert(ascii_bytes(cs@.take(i + 1)) =~= ascii_bytes(cs@.take(i as int)).push(cs@[i as int] as u8));
        i += 1;
    }
    assert(cs@.take(cs.len() as int) =~= cs@);
}

fn push_bytes(out: &mut Vec<u8>, b: &[u8], from: usize, to: usize)
    requires
        from <= to <= b@.len(),
    ensures
        final(out)@ == old(out)@ + b@.subrange(from as int, to as int),
{
    let mut i = from;
    while i < to
        invariant
            from <= i <= to <= b@.len(),
            out@ == old(out)@ + b@.subrange(from as int, i as int),
        decreases to - i,
    {
        out.push(b[i]);
        assert(b@.subrange(from as int, i + 1) =~= b@.subrange(from as int, i as int).push(b@[i as int]));
        i += 1;
    }
}

/// The piece of `b` from `k` as it is written.
fn push_chunk(out: &mut Vec<u8>, b: &[u8], k: usize)
    requires
        k < b@.len(),
    ensures
        final(out)@ == old(out)@ + chunk_text(chunk_at(b@, k as int)),
{
    let end = if b.len() - k > 4096 { k + 4096 } else { b.len() };
    let mut piece: Vec<u8> = Vec::new();
    push_bytes(&mut piece, b, k, end);
    assert(piece@ =~= chunk_at(b@, k as int));
    if bytes_are_utf8(piece.as_slice()) {
        push_bytes(out, piece.as_slice(), 0, piece.len());
        assert(piece@.subrange(0, piece@.len() as int) =~= piece@);
    } else {
        assert(old(out)@ + Seq::<u8>::empty() =~= old(out)@);
    }
}

/// The escape sequences that transmit and place an RGBA image whose base64
/// payload is `rgba_base64`, in pieces of 4096 bytes.
#[verifier::rlimit(40)]
#[verifier::spinoff_prover]
pub fn render_kitty_rgba_chunked(rgba_base64: &str, img_w: u32, img_h: u32, args: &KittyImageArgs) -> (r: Vec<
    u8,
>)
    requires
        kitty_args_in_range(*args, img_h),
    ensures
        r@ == kitty_transmission(vstd::utf8::encode_utf8(rgba_base64@), img_w, img_h, *args),
{
    let b = rgba_base64.as_bytes();
    let mut out: Vec<u8> = Vec::new();
    if b.len() == 0 {
        return out;
    }
    let total_lines = (args.rows + args.crop_top_lines + args.crop_bot_lines) as u32;
    push_ascii(&mut out, "\x1b_Ga=T,f=32,s=");
    push_decimal(&mut out, img_w as u64);
    push_ascii(&mut out, ",v=");
    push_decimal(&mut out, img_h as u64);
    push_ascii(&mut out, ",c=");
    push_decimal(&mut out, args.cols as u64);
    push_ascii(&mut out, ",r=");
    push_decimal(&mut out, args.rows as u64);
    push_ascii(&mut out, ",m=");
    push_decimal(&mut out, if b.len() > 4096 { 1 } else { 0 });
    let ghost before_crop = out@;
    if total_lines > 0 && (args.crop_top_lines > 0 || args.crop_bot_lines > 0) {
        let y_pixel = (args.crop_top_lines as u32 * img_h) / total_lines;
        let h_pixel = (args.rows as u32 * img_h) / total_lines;
        push_ascii(&mut out, ",y=");
        push_decimal(&mut out, y_pixel as u64);
        push_ascii(&mut out, ",h=");
        push_decimal(&mut out, h_pixel as u64);
    }
    assert(out@ =~= before_crop + crop_part(*args, img_h));
    push_ascii(&mut out, ";");
    push_chunk(&mut out, b, 0);
    push_ascii(&mut out, "\x1b\\");
    let ghost head = out@;
    let mut k: usize = 0;
    proof {
        assert(kitty_transmission(b@, img_w, img_h, *args) =~= head + continuation_chunks(b@, 4096));
    }
    while b.len() - k > 4096
        invariant
            k < b@.len(),
            kitty_transmission(b@, img_w, img_h, *args) == out@ + continuation_chunks(b@, k + 4096),
        decreases b@.len() - k,
    {
        k = k + 4096;
        let ghost before = out@;
        push_ascii(&mut out, "\x1b_Gm=");
        push_decimal(&mut out, if b.len() - k > 4096 { 1 } else { 0 });
        push_ascii(&mut out, ";");
        push_chunk(&mut out, b, k);
        push_ascii(&mut out, "\x1b\\");
        proof {
            assert(out@ + continuation_chunks(b@, k + 4096) =~= before + continuation_chunks(b@, k as int));
        }
    }
    assert(continuation_chunks(b@, k + 4096) == Seq::<u8>::empty());
    assert(out@ + Seq::<u8>::empty() =~= out@);
    out
}

/// A colour channel `c` of a pixel with opacity `a`, laid over white.
pub open spec fn over_white(c: int, a: int) -> int {
    (c * a + 255 * (255 - a)) / 255
}

/// RGBA pixels laid over a white background: a pixel that is not fully
/// opaque gets its colour mixed with white by its opacity and becomes
/// opaque; opaque pixels stay.
pub open spec fn composited(px: Seq<u8>) -> Seq<u8> {
    Seq::new(
        px.len(),
        |i: int|
            {
                let a = px[i - i % 4 + 3];
                if a == 255 {
                    px[i]
                } else if i % 4 == 3 {
                    255u8
                } else {
                    over_white(px[i] as int, a as int) as u8
                }
            },
    )
}

proof fn lemma_over_white_bounds(c: int, a: int)
    requires
        0 <= c < 256,
        0 <= a < 256,
    ensures
        0 <= c * a + 255 * (255 - a) <= 255 * 255,
        0 <= over_white(c, a) <= 255,
{
    assert(0 <= c * a + 255 * (255 - a) <= 255 * 255) by (nonlinear_arith)
        requires 0 <= c < 256, 0 <= a < 256;
}

/// Lays RGBA pixels over a white background (see `composited`), as is done
/// before an image is sent to the terminal.
pub fn composite_over_white(rgba: &mut Vec<u8>)
    requires
        old(rgba)@.len() % 4 == 0,
    ensures
        final(rgba)@ == composited(old(rgba)@),
{
    let ghost orig = rgba@;
    let n = rgba.len();
    let mut p: usize = 0;
    while p < n
        invariant
            n == orig.len(),
            n % 4 == 0,
            rgba@.len() == n,
            p % 4 == 0,
            p <= n,
            forall|i: int| 0 <= i < p ==> #[trigger] rgba@[i] == composited(orig)[i],
            forall|i: int| p <= i < n ==> #[trigger] rgba@[i] == orig[i],
        decreases n - p,
    {
        let a = rgba[p + 3];
        if a < 255 {
            let inv: u32 = 255 - a as u32;
            let mut k: usize = 0;
            while k < 3
                invariant
                    k <= 3,
                    p + 3 < n,
                    n == orig.len(),
                    p % 4 == 0,
                    rgba@.len() == n,
                    a == orig[p + 3],
                    a < 255,
                    inv == 255 - a,
                    forall|i: int| 0 <= i < p ==> #[trigger] rgba@[i] == composited(orig)[i],
                    forall|i: int| p <= i < p + k ==> #[trigger] rgba@[i] == over_white(orig[i] as int, a as int) as u8,
                    forall|i: int| p + k <= i < n ==> #[trigger] rgba@[i] == orig[i],
                decreases 3 - k,
            {
                let c = rgba[p + k] as u32;
                proof {
                    lemma_over_white_bounds(c as int, a as int);
                }
                let v = (c * a as u32 + 255 * inv) / 255;
                rgba.set(p + k, v as u8);
                k += 1;
            }
            rgba.set(p + 3, 255);
        }
        proof {
            assert forall|i: int| 0 <= i < p + 4 implies #[trigger] rgba@[i] == composited(orig)[i] by {
                if i >= p {
                    assert(i - i % 4 == p as int);
                }
            }
        }
        p += 4;
    }
}

} // verus!
