//! A small PNG encoder for RGBA8 snapshots: CRC-32, Adler-32, zlib stored
//! blocks and PNG chunk framing.

use vstd::prelude::*;

use crate::bytes::extend_range;

verus! {

/// The Adler-32 modulus.
pub const ADLER_MOD: u32 = 65521;

/// Sum of the bytes of `s`.
pub open spec fn byte_sum(s: Seq<u8>) -> int
    decreases s.len(),
{
    if s.len() == 0 {
        0
    } else {
        byte_sum(s.drop_last()) + s.last()
    }
}

/// Adler-32 running sum `A` (before reduction): one plus the sum of all bytes.
pub open spec fn adler_a(s: Seq<u8>) -> int {
    1 + byte_sum(s)
}

/// Adler-32 running sum `B` (before reduction): the sum of the `A` values of
/// every non-empty prefix of `s`.
pub open spec fn adler_b(s: Seq<u8>) -> int
    decreases s.len(),
{
    if s.len() == 0 {
        0
    } else {
        adler_b(s.drop_last()) + adler_a(s)
    }
}

/// The Adler-32 checksum of `s`: `B mod 65521` in the high half and
/// `A mod 65521` in the low half.
pub open spec fn adler32_spec(s: Seq<u8>) -> u32 {
    ((adler_b(s) % (ADLER_MOD as int)) * 65536 + adler_a(s) % (ADLER_MOD as int)) as u32
}

proof fn lemma_pack_halves(a: u32, b: u32)
    requires
        a < 65536,
        b < 65536,
    ensures
        (b << 16u32) | a == b * 65536 + a,
{
    assert((b << 16u32) | a == b * 65536 + a) by (bit_vector)
        requires
            a < 65536,
            b < 65536,
    ;
}

/// Adler-32 checksum of `data`.
pub fn adler32(data: &[u8]) -> (r: u32)
    ensures
        r == adler32_spec(data@),
{
    let mut a: u32 = 1;
    let mut b: u32 = 0;
    let n = data.len();
    let mut i: usize = 0;
    while i < n
        invariant
            n == data@.len(),
            i <= n,
            a < ADLER_MOD,
            b < ADLER_MOD,
            a as int == adler_a(data@.subrange(0, i as int)) % (ADLER_MOD as int),
            b as int == adler_b(data@.subrange(0, i as int)) % (ADLER_MOD as int),
        decreases n - i,
    {
        let x = data[i];
        proof {
            let pre = data@.subrange(0, i as int);
            let post = data@.subrange(0, i as int + 1);
            assert(post.drop_last() =~= pre);
            assert(post.last() == x);
            vstd::arithmetic::div_mod::lemma_add_mod_noop(adler_a(pre), x as int, ADLER_MOD as int);
            assert((x as int) % (ADLER_MOD as int) == x as int);
        }
        a = (a + x as u32) % ADLER_MOD;
        proof {
            let pre = data@.subrange(0, i as int);
            let post = data@.subrange(0, i as int + 1);
            vstd::arithmetic::div_mod::lemma_add_mod_noop(adler_b(pre), adler_a(post), ADLER_MOD as int);
            vstd::arithmetic::div_mod::lemma_mod_twice(adler_a(post), ADLER_MOD as int);
        }
        b = (b + a) % ADLER_MOD;
        i = i + 1;
    }
    proof {
        assert(data@.subrange(0, n as int) =~= data@);
        lemma_pack_halves(a, b);
    }
    (b << 16u32) | a
}


/// One bit of the reflected CRC-32 shift register (polynomial 0xEDB88320).
pub open spec fn crc_bit_step(c: u32) -> u32 {
    if c & 1u32 != 0u32 {
        0xedb8_8320u32 ^ (c >> 1u32)
    } else {
        c >> 1u32
    }
}

/// Eight bit steps of the shift register: the effect of one byte.
pub open spec fn crc_byte_steps(c: u32) -> u32 {
    crc_bit_step(crc_bit_step(crc_bit_step(crc_bit_step(
        crc_bit_step(crc_bit_step(crc_bit_step(crc_bit_step(c))))))))
}

/// `k` bit steps of the shift register.
pub open spec fn crc_steps(c: u32, k: nat) -> u32
    decreases k,
{
    if k == 0 {
        c
    } else {
        crc_bit_step(crc_steps(c, (k - 1) as nat))
    }
}

/// The CRC register after feeding `s`, starting from all ones, before the
/// final inversion.
pub open spec fn crc_register(s: Seq<u8>) -> u32
    decreases s.len(),
{
    if s.len() == 0 {
        0xffff_ffffu32
    } else {
        crc_byte_steps(crc_register(s.drop_last()) ^ (s.last() as u32))
    }
}

/// The CRC-32 (ISO-HDLC, as used by PNG and zlib) of `s`.
pub open spec fn crc32_spec(s: Seq<u8>) -> u32 {
    crc_register(s) ^ 0xffff_ffffu32
}

proof fn lemma_crc_steps_eight(c: u32)
    ensures
        crc_steps(c, 8) == crc_byte_steps(c),
{
    reveal_with_fuel(crc_steps, 9);
}

/// Feeding a byte through the register depends on the low byte only
/// through a table lookup; the high bytes just shift down.
proof fn lemma_crc_byte_table(c: u32, b: u8)
    ensures
        crc_byte_steps(c ^ (b as u32)) == crc_byte_steps((c ^ (b as u32)) & 0xffu32) ^ (c >> 8u32),
{
    let bb = b as u32;
    assert(bb < 256);
    assert(crc_byte_steps(c ^ bb) == crc_byte_steps((c ^ bb) & 0xffu32) ^ (c >> 8u32)) by (bit_vector)
        requires
            bb < 256,
    ;
}

fn crc_table() -> (table: Vec<u32>)
    ensures
        table@.len() == 256,
        forall|n: int| 0 <= n < 256 ==> #[trigger] table@[n] == crc_byte_steps(n as u32),
{
    let mut table: Vec<u32> = Vec::new();
    let mut n: u32 = 0;
    while n < 256
        invariant
            n <= 256,
            table@.len() == n,
            forall|m: int| 0 <= m < n ==> #[trigger] table@[m] == crc_byte_steps(m as u32),
        decreases 256 - n,
    {
        let mut c = n;
        let mut k: u32 = 0;
        while k < 8
            invariant
                k <= 8,
                c == crc_steps(n, k as nat),
            decreases 8 - k,
        {
            c = if c & 1 != 0 { 0xedb8_8320u32 ^ (c >> 1) } else { c >> 1 };
            k = k + 1;
        }
        proof {
            lemma_crc_steps_eight(n);
        }
        table.push(c);
        n = n + 1;
    }
    table
}

/// CRC-32 of `buf`, computed with a 256-entry lookup table.
pub fn crc32(buf: &[u8]) -> (r: u32)
    ensures
        r == crc32_spec(buf@),
{
    let table = crc_table();
    let mut crc: u32 = 0xffff_ffff;
    let n = buf.len();
    let mut i: usize = 0;
    while i < n
        invariant
            n == buf@.len(),
            i <= n,
            table@.len() == 256,
            forall|m: int| 0 <= m < 256 ==> #[trigger] table@[m] == crc_byte_steps(m as u32),
            crc == crc_register(buf@.subrange(0, i as int)),
        decreases n - i,
    {
        let b = buf[i];
        let idx = ((crc ^ b as u32) & 0xff) as usize;
        proof {
            let pre = buf@.subrange(0, i as int);
            let post = buf@.subrange(0, i as int + 1);
            assert(post.drop_last() =~= pre);
            lemma_crc_byte_table(crc, b);
            assert(((crc ^ b as u32) & 0xffu32) < 256) by (bit_vector);
        }
        crc = table[idx] ^ (crc >> 8);
        i = i + 1;
    }
    proof {
        assert(buf@.subrange(0, n as int) =~= buf@);
    }
    crc ^ 0xffff_ffff
}


/// Largest payload of one stored deflate block.
pub const MAX_STORED_BLOCK: usize = 0xFFFF;

/// `x` as two little-endian bytes.
pub open spec fn le16(x: u16) -> Seq<u8> {
    seq![(x & 0xffu16) as u8, (x >> 8u16) as u8]
}

/// `x` as four big-endian bytes.
pub open spec fn be32(x: u32) -> Seq<u8> {
    seq![(x >> 24u32) as u8, (x >> 16u32) as u8, (x >> 8u32) as u8, x as u8]
}

/// One stored deflate block: the BFINAL/BTYPE byte, LEN and NLEN in
/// little-endian order, then the payload.
pub open spec fn stored_block(chunk: Seq<u8>, last: bool) -> Seq<u8> {
    seq![if last { 1u8 } else { 0u8 }] + le16(chunk.len() as u16) + le16(!(chunk.len() as u16))
        + chunk
}

/// `s` cut into stored blocks of at most 65535 bytes, the last one marked final.
pub open spec fn stored_blocks(s: Seq<u8>) -> Seq<u8>
    decreases s.len(),
{
    if s.len() <= MAX_STORED_BLOCK {
        stored_block(s, true)
    } else {
        stored_block(s.take(MAX_STORED_BLOCK as int), false) + stored_blocks(
            s.skip(MAX_STORED_BLOCK as int),
        )
    }
}

/// The zlib stream that `zlib_store` produces for `s`: the header 78 01,
/// the stored blocks (one empty final block for empty input), then the
/// Adler-32 checksum in big-endian order.
pub open spec fn zlib_store_spec(s: Seq<u8>) -> Seq<u8> {
    seq![0x78u8, 0x01u8] + stored_blocks(s) + be32(adler32_spec(s))
}

fn push_le16(out: &mut Vec<u8>, x: u16)
    ensures
        final(out)@ == old(out)@ + le16(x),
{
    out.push((x & 0xff) as u8);
    out.push((x >> 8) as u8);
    proof {
        assert(final(out)@ =~= old(out)@ + le16(x));
    }
}

fn push_be32(out: &mut Vec<u8>, x: u32)
    ensures
        final(out)@ == old(out)@ + be32(x),
{
    out.push((x >> 24) as u8);
    out.push((x >> 16) as u8);
    out.push((x >> 8) as u8);
    out.push(x as u8);
    proof {
        assert(final(out)@ =~= old(out)@ + be32(x));
    }
}

/// Wraps `data` in a valid zlib stream of stored (uncompressed) deflate blocks.
pub fn zlib_store(data: &[u8]) -> (out: Vec<u8>)
    ensures
        out@ == zlib_store_spec(data@),
{
    let mut out: Vec<u8> = Vec::new();
    out.push(0x78);
    out.push(0x01);
    let ghost header = seq![0x78u8, 0x01u8];
    assert(out@ =~= header);
    let n = data.len();
    if n == 0 {
        out.push(0x01);
        push_le16(&mut out, 0);
        push_le16(&mut out, !0u16);
        push_be32(&mut out, adler32(data));
        proof {
            assert(data@ =~= Seq::<u8>::empty());
            assert(out@ =~= zlib_store_spec(data@));
        }
        return out;
    }
    let mut off: usize = 0;
    assert(data@.subrange(0, n as int) =~= data@);
    while off < n
        invariant
            n == data@.len(),
            n > 0,
            off <= n,
            off < n ==> out@ + stored_blocks(data@.subrange(off as int, n as int)) =~= header
                + stored_blocks(data@),
            off == n ==> out@ =~= header + stored_blocks(data@),
        decreases n - off,
    {
        let ghost rest = data@.subrange(off as int, n as int);
        let ghost before = out@;
        let remaining = n - off;
        let is_last = remaining <= MAX_STORED_BLOCK;
        let len: usize = if is_last { remaining } else { MAX_STORED_BLOCK };
        let end = off + len;
        out.push(if is_last { 0x01 } else { 0x00 });
        let len16 = len as u16;
        push_le16(&mut out, len16);
        push_le16(&mut out, !len16);
        extend_range(&mut out, data, off, end);
        proof {
            let chunk = data@.subrange(off as int, end as int);
            assert(out@ =~= before + stored_block(chunk, is_last));
            if is_last {
                assert(chunk =~= rest);
            } else {
                assert(rest.take(MAX_STORED_BLOCK as int) =~= chunk);
                assert(rest.skip(MAX_STORED_BLOCK as int) =~= data@.subrange(end as int, n as int));
                assert(stored_blocks(rest) =~= stored_block(chunk, false) + stored_blocks(
                    data@.subrange(end as int, n as int),
                ));
            }
        }
        off = end;
    }
    push_be32(&mut out, adler32(data));
    proof {
        assert(out@ =~= zlib_store_spec(data@));
    }
    out
}


/// A PNG chunk: big-endian length, the four-byte type, the payload, and the
/// CRC-32 of type and payload.
pub open spec fn png_chunk(kind: Seq<u8>, data: Seq<u8>) -> Seq<u8> {
    be32(data.len() as u32) + kind + data + be32(crc32_spec(kind + data))
}

/// Appends one PNG chunk of type `kind` holding `data` to `out`.
pub fn write_chunk(out: &mut Vec<u8>, kind: &[u8; 4], data: &[u8])
    ensures
        final(out)@ == old(out)@ + png_chunk(kind@, data@),
{
    let len = data.len() as u32;
    push_be32(out, len);
    extend_range(out, kind, 0, 4);
    extend_range(out, data, 0, data.len());
    let mut crc_input: Vec<u8> = Vec::new();
    extend_range(&mut crc_input, kind, 0, 4);
    extend_range(&mut crc_input, data, 0, data.len());
    push_be32(out, crc32(crc_input.as_slice()));
    proof {
        assert(kind@.subrange(0, 4) =~= kind@);
        assert(data@.subrange(0, data@.len() as int) =~= data@);
        assert(crc_input@ =~= kind@ + data@);
        assert(final(out)@ =~= old(out)@ + png_chunk(kind@, data@));
    }
}

/// The eight-byte PNG file signature.
pub open spec fn png_signature() -> Seq<u8> {
    seq![137u8, 80u8, 78u8, 71u8, 13u8, 10u8, 26u8, 10u8]
}

/// The chunk type `IHDR`.
pub open spec fn kind_ihdr() -> Seq<u8> {
    seq![73u8, 72u8, 68u8, 82u8]
}

/// The chunk type `IDAT`.
pub open spec fn kind_idat() -> Seq<u8> {
    seq![73u8, 68u8, 65u8, 84u8]
}

/// The chunk type `IEND`.
pub open spec fn kind_iend() -> Seq<u8> {
    seq![73u8, 69u8, 78u8, 68u8]
}

/// IHDR payload: width, height, bit depth 8, color type 6 (RGBA),
/// compression 0, filter 0, no interlace.
pub open spec fn ihdr_payload(width: u32, height: u32) -> Seq<u8> {
    be32(width) + be32(height) + seq![8u8, 6u8, 0u8, 0u8, 0u8]
}

/// The filtered image data of the first `rows` rows: each row is a filter
/// byte 0 followed by the `width * 4` valid bytes of that row, which starts
/// `padded_row` bytes after the previous one in `rgba`.
pub open spec fn scanlines(width: u32, rows: nat, padded_row: u32, rgba: Seq<u8>) -> Seq<u8>
    decreases rows,
{
    if rows == 0 {
        Seq::empty()
    } else {
        let y = rows - 1;
        let start = y * padded_row;
        scanlines(width, (rows - 1) as nat, padded_row, rgba) + seq![0u8] + rgba.subrange(
            start,
            start + width * 4,
        )
    }
}

/// The complete PNG file for an RGBA8 image of `width` by `height` pixels
/// whose rows lie `padded_row` bytes apart in `rgba`.
pub open spec fn png_file(width: u32, height: u32, padded_row: u32, rgba: Seq<u8>) -> Seq<u8> {
    png_signature() + png_chunk(kind_ihdr(), ihdr_payload(width, height)) + png_chunk(
        kind_idat(),
        zlib_store_spec(scanlines(width, height as nat, padded_row, rgba)),
    ) + png_chunk(kind_iend(), Seq::empty())
}

/// What `encode_png_rgba` needs of its arguments: the row arithmetic fits in
/// `u32` and every row lies inside `rgba`.
pub open spec fn png_input_ok(width: u32, height: u32, padded_row: u32, rgba_len: nat) -> bool {
    &&& (padded_row + 1) * height <= u32::MAX
    &&& height > 0 ==> (height - 1) * padded_row + width * 4 <= rgba_len
}

/// Encodes an RGBA8 image as a PNG file (filter 0 on every row, stored
/// zlib blocks). The padding at the end of each `padded_row`-byte row is
/// dropped.
pub fn encode_png_rgba(width: u32, height: u32, padded_row: u32, rgba: &[u8]) -> (out: Vec<u8>)
    requires
        png_input_ok(width, height, padded_row, rgba@.len()),
    ensures
        out@ == png_file(width, height, padded_row, rgba@),
{
    let mut raw: Vec<u8> = Vec::new();
    let total = rgba.len();
    let mut y: u32 = 0;
    while y < height
        invariant
            total == rgba@.len(),
            y <= height,
            png_input_ok(width, height, padded_row, rgba@.len()),
            raw@ == scanlines(width, y as nat, padded_row, rgba@),
        decreases height - y,
    {
        raw.push(0u8);
        proof {
            assert(y * padded_row <= (height - 1) * padded_row) by (nonlinear_arith)
                requires
                    y < height,
            ;
            assert(y * padded_row <= (padded_row + 1) * height) by (nonlinear_arith)
                requires
                    y < height,
            ;
        }
        assert(y * padded_row + width * 4 <= total);
        let start = (y * padded_row) as usize;
        let end = start + (width as usize) * 4;
        extend_range(&mut raw, rgba, start, end);
        y = y + 1;
    }
    let compressed = zlib_store(raw.as_slice());
    let mut out: Vec<u8> = Vec::new();
    out.push(137);
    out.push(80);
    out.push(78);
    out.push(71);
    out.push(13);
    out.push(10);
    out.push(26);
    out.push(10);
    let mut header: Vec<u8> = Vec::new();
    push_be32(&mut header, width);
    push_be32(&mut header, height);
    header.push(8);
    header.push(6);
    header.push(0);
    header.push(0);
    header.push(0);
    let ihdr: [u8; 4] = [73, 72, 68, 82];
    let idat: [u8; 4] = [73, 68, 65, 84];
    let iend: [u8; 4] = [73, 69, 78, 68];
    let empty: Vec<u8> = Vec::new();
    proof {
        assert(out@ =~= png_signature());
        assert(header@ =~= ihdr_payload(width, height));
        assert(ihdr@ =~= kind_ihdr());
        assert(idat@ =~= kind_idat());
        assert(iend@ =~= kind_iend());
        assert(empty@ =~= Seq::<u8>::empty());
    }
    write_chunk(&mut out, &ihdr, header.as_slice());
    write_chunk(&mut out, &idat, compressed.as_slice());
    write_chunk(&mut out, &iend, empty.as_slice());
    out
}

/// Row pitch alignment that GPU texture-to-buffer copies require.
pub const COPY_ROW_ALIGNMENT: u32 = 256;

/// Bytes per row of a GPU readback buffer for an RGBA8 image `width` pixels
/// wide: `width * 4` rounded up to a multiple of 256.
pub fn padded_row_bytes(width: u32) -> (r: u32)
    requires
        width * 4 + COPY_ROW_ALIGNMENT - 1 <= u32::MAX,
    ensures
        r % COPY_ROW_ALIGNMENT == 0,
        width * 4 <= r < width * 4 + COPY_ROW_ALIGNMENT,
{
    let row_size = width * 4;
    let bumped = row_size + (COPY_ROW_ALIGNMENT - 1);
    let r = bumped & !(COPY_ROW_ALIGNMENT - 1);
    assert(r % 256u32 == 0u32 && bumped - 255u32 <= r && r <= bumped) by (bit_vector)
        requires
            r == bumped & !255u32,
            bumped >= 255u32,
    ;
    r
}


/// Reads a sequence of stored deflate blocks from the front of `s`: each
/// block is a BFINAL/BTYPE byte of 0 or 1, LEN and NLEN in little-endian
/// order with NLEN the complement of LEN, and LEN payload bytes. Returns the
/// concatenated payloads and what follows the final block, or `None` when
/// `s` is not such a sequence.
pub open spec fn parse_stored_blocks(s: Seq<u8>) -> Option<(Seq<u8>, Seq<u8>)>
    decreases s.len(),
{
    if s.len() < 5 {
        None
    } else {
        let flag = s[0];
        let len = s[1] as int + 256 * s[2] as int;
        let nlen = s[3] as int + 256 * s[4] as int;
        if (flag != 0 && flag != 1) || len + nlen != 65535 || s.len() < 5 + len {
            None
        } else {
            let body = s.subrange(5, 5 + len);
            let rest = s.skip(5 + len);
            if flag == 1 {
                Some((body, rest))
            } else {
                match parse_stored_blocks(rest) {
                    Some((more, tail)) => Some((body + more, tail)),
                    None => None,
                }
            }
        }
    }
}

proof fn lemma_le16_fields(x: u16)
    ensures
        le16(x)[0] as int + 256 * le16(x)[1] as int == x as int,
        (!x) as int == 65535 - x as int,
{
    assert(((x & 0xffu16) as u8) as u16 + 256u16 * (((x >> 8u16) as u8) as u16) == x) by (bit_vector);
    assert((!x) as int == 65535 - x as int) by (bit_vector);
}

proof fn lemma_stored_block_parse(chunk: Seq<u8>, last: bool, tail: Seq<u8>)
    requires
        chunk.len() <= MAX_STORED_BLOCK,
    ensures
        ({
            let s = stored_block(chunk, last) + tail;
            &&& s.len() >= 5
            &&& s[0] == (if last { 1u8 } else { 0u8 })
            &&& s[1] as int + 256 * s[2] as int == chunk.len()
            &&& s[3] as int + 256 * s[4] as int == 65535 - chunk.len()
            &&& s.subrange(5, 5 + chunk.len() as int) == chunk
            &&& s.skip(5 + chunk.len() as int) == tail
        }),
{
    let n = chunk.len() as u16;
    assert(n as int == chunk.len());
    lemma_le16_fields(n);
    lemma_le16_fields(!n);
    let s = stored_block(chunk, last) + tail;
    assert(s.subrange(5, 5 + chunk.len() as int) =~= chunk);
    assert(s.skip(5 + chunk.len() as int) =~= tail);
}

/// Stored blocks read back: parsing `stored_blocks(d)` followed by any
/// `tail` gives back `d` and `tail`.
pub proof fn law_stored_blocks_round_trip(d: Seq<u8>, tail: Seq<u8>)
    ensures
        parse_stored_blocks(stored_blocks(d) + tail) == Some((d, tail)),
    decreases d.len(),
{
    if d.len() <= MAX_STORED_BLOCK {
        lemma_stored_block_parse(d, true, tail);
    } else {
        let head = d.take(MAX_STORED_BLOCK as int);
        let rest = d.skip(MAX_STORED_BLOCK as int);
        law_stored_blocks_round_trip(rest, tail);
        let later = stored_blocks(rest) + tail;
        lemma_stored_block_parse(head, false, later);
        assert(stored_blocks(d) + tail =~= stored_block(head, false) + later);
        assert(head + rest =~= d);
    }
}

/// What `zlib_store` writes decodes back: after the two-byte zlib header the
/// stored blocks hold exactly `d`, followed by the Adler-32 trailer.
pub proof fn law_zlib_store_round_trip(d: Seq<u8>)
    ensures
        zlib_store_spec(d).take(2) == seq![0x78u8, 0x01u8],
        parse_stored_blocks(zlib_store_spec(d).skip(2)) == Some((d, be32(adler32_spec(d)))),
{
    let z = zlib_store_spec(d);
    assert(z.take(2) =~= seq![0x78u8, 0x01u8]);
    assert(z.skip(2) =~= stored_blocks(d) + be32(adler32_spec(d)));
    law_stored_blocks_round_trip(d, be32(adler32_spec(d)));
}


/// Every encoded file opens with the PNG signature followed by a 13-byte
/// IHDR chunk that records the width and height.
pub proof fn law_png_starts_with_header(width: u32, height: u32, padded_row: u32, rgba: Seq<u8>)
    ensures
        png_file(width, height, padded_row, rgba).subrange(0, 8) == png_signature(),
        png_file(width, height, padded_row, rgba).subrange(8, 12) == be32(13),
        png_file(width, height, padded_row, rgba).subrange(12, 16) == kind_ihdr(),
        png_file(width, height, padded_row, rgba).subrange(16, 24) == be32(width) + be32(height),
{
    let f = png_file(width, height, padded_row, rgba);
    let payload = ihdr_payload(width, height);
    assert(payload.len() == 13);
    assert((13nat as u32) == 13u32);
    assert(f.subrange(0, 8) =~= png_signature());
    assert(f.subrange(8, 12) =~= be32(13));
    assert(f.subrange(12, 16) =~= kind_ihdr());
    assert(f.subrange(16, 24) =~= be32(width) + be32(height));
}

/// Two buffers agree on the valid bytes of the first `rows` rows: the
/// `width * 4` bytes at the start of each `padded_row`-byte row.
pub open spec fn same_pixels(width: u32, rows: nat, padded_row: u32, a: Seq<u8>, b: Seq<u8>) -> bool {
    forall|y: int, j: int|
        0 <= y < rows && 0 <= j < width * 4 ==> #[trigger] a[y * padded_row + j] == #[trigger] b[y
            * padded_row + j]
}

proof fn lemma_row_inside(width: u32, height: u32, padded_row: u32, len: nat, y: int)
    requires
        png_input_ok(width, height, padded_row, len),
        0 <= y < height,
    ensures
        y * padded_row + width * 4 <= len,
{
    assert(y * padded_row <= (height - 1) * padded_row) by (nonlinear_arith)
        requires
            0 <= y <= height - 1,
            padded_row >= 0,
    ;
}

proof fn lemma_scanlines_same(
    width: u32,
    height: u32,
    rows: nat,
    padded_row: u32,
    a: Seq<u8>,
    b: Seq<u8>,
)
    requires
        rows <= height,
        png_input_ok(width, height, padded_row, a.len()),
        png_input_ok(width, height, padded_row, b.len()),
        same_pixels(width, height as nat, padded_row, a, b),
    ensures
        scanlines(width, rows, padded_row, a) == scanlines(width, rows, padded_row, b),
    decreases rows,
{
    if rows > 0 {
        lemma_scanlines_same(width, height, (rows - 1) as nat, padded_row, a, b);
        let y = rows - 1;
        let start = y * padded_row;
        lemma_row_inside(width, height, padded_row, a.len(), y);
        lemma_row_inside(width, height, padded_row, b.len(), y);
        let ra = a.subrange(start, start + width * 4);
        let rb = b.subrange(start, start + width * 4);
        assert forall|k: int| 0 <= k < width * 4 implies #[trigger] ra[k] == rb[k] by {
            assert(a[y * padded_row + k] == b[y * padded_row + k]);
        }
        assert(a.subrange(start, start + width * 4) =~= b.subrange(start, start + width * 4));
    }
}

/// Padding never reaches the file: two buffers that agree on every row's
/// `width * 4` valid bytes encode to the same PNG file, whatever their
/// padding bytes hold.
pub proof fn law_padding_ignored(width: u32, height: u32, padded_row: u32, a: Seq<u8>, b: Seq<u8>)
    requires
        png_input_ok(width, height, padded_row, a.len()),
        png_input_ok(width, height, padded_row, b.len()),
        same_pixels(width, height as nat, padded_row, a, b),
    ensures
        png_file(width, height, padded_row, a) == png_file(width, height, padded_row, b),
{
    lemma_scanlines_same(width, height, height as nat, padded_row, a, b);
}

/// Byte `y * (width * 4 + 1)` of decompressed image data: the filter type
/// of row `y`.
pub open spec fn row_filter_byte(raw: Seq<u8>, width: u32, y: int) -> u8 {
    raw[y * (width * 4 + 1)]
}

/// Byte `j` of row `y`'s pixel data in decompressed image data (after the
/// row's filter byte).
pub open spec fn row_pixel_byte(raw: Seq<u8>, width: u32, y: int, j: int) -> u8 {
    raw[y * (width * 4 + 1) + 1 + j]
}

/// Decompressed image data `raw` holds `height` rows of filter type 0
/// (None), row `y` carrying the `width * 4` bytes that start at
/// `y * padded_row` in `rgba`, so that undoing the filters gives back
/// exactly the valid pixel bytes.
pub open spec fn unfiltered_rows(
    raw: Seq<u8>,
    width: u32,
    height: u32,
    padded_row: u32,
    rgba: Seq<u8>,
) -> bool {
    &&& raw.len() == height * (width * 4 + 1)
    &&& forall|y: int| 0 <= y < height ==> #[trigger] row_filter_byte(raw, width, y) == 0
    &&& forall|y: int, j: int|
        0 <= y < height && 0 <= j < width * 4 ==> #[trigger] row_pixel_byte(raw, width, y, j)
            == rgba[y * padded_row + j]
}

/// The data that stored deflate blocks `s` carry (empty when they do not
/// parse).
pub open spec fn stored_payload(s: Seq<u8>) -> Seq<u8> {
    match parse_stored_blocks(s) {
        Some((data, _)) => data,
        None => Seq::empty(),
    }
}

/// `z` is a zlib stream (header 78 01, stored deflate blocks) whose
/// decompressed data is `height` unfiltered rows of `rgba`.
pub open spec fn zlib_of_rows(
    z: Seq<u8>,
    width: u32,
    height: u32,
    padded_row: u32,
    rgba: Seq<u8>,
) -> bool {
    &&& z.take(2) == seq![0x78u8, 0x01u8]
    &&& parse_stored_blocks(z.skip(2)) is Some
    &&& unfiltered_rows(stored_payload(z.skip(2)), width, height, padded_row, rgba)
}

proof fn lemma_scanlines_rows(width: u32, height: u32, rows: nat, padded_row: u32, rgba: Seq<u8>)
    requires
        rows <= height,
        png_input_ok(width, height, padded_row, rgba.len()),
    ensures
        unfiltered_rows(scanlines(width, rows, padded_row, rgba), width, rows as u32, padded_row, rgba),
    decreases rows,
{
    let w4 = width * 4;
    let s = scanlines(width, rows, padded_row, rgba);
    if rows == 0 {
        assert(s.len() == 0);
    } else {
        lemma_scanlines_rows(width, height, (rows - 1) as nat, padded_row, rgba);
        let p = scanlines(width, (rows - 1) as nat, padded_row, rgba);
        let y0 = rows - 1;
        let start = y0 * padded_row;
        lemma_row_inside(width, height, padded_row, rgba.len(), y0);
        let row = rgba.subrange(start, start + w4);
        assert(s == p + seq![0u8] + row);
        assert(p.len() == y0 * (w4 + 1));
        assert(s.len() == rows * (w4 + 1)) by (nonlinear_arith)
            requires
                s.len() == p.len() + 1 + w4,
                p.len() == y0 * (w4 + 1),
                y0 == rows - 1,
        ;
        assert forall|y: int| 0 <= y < rows implies #[trigger] row_filter_byte(s, width, y) == 0 by {
            if y < y0 {
                assert(y * (w4 + 1) + 1 <= y0 * (w4 + 1)) by (nonlinear_arith)
                    requires
                        0 <= y < y0,
                        w4 >= 0,
                ;
                assert(row_filter_byte(p, width, y) == 0);
            } else {
                assert(y * (w4 + 1) == p.len());
            }
        }
        assert forall|y: int, j: int| 0 <= y < rows && 0 <= j < w4 implies #[trigger] row_pixel_byte(
            s,
            width,
            y,
            j,
        ) == rgba[y * padded_row + j] by {
            if y < y0 {
                assert(y * (w4 + 1) + 1 + j < y0 * (w4 + 1)) by (nonlinear_arith)
                    requires
                        0 <= y < y0,
                        0 <= j < w4,
                ;
                assert(row_pixel_byte(p, width, y, j) == rgba[y * padded_row + j]);
            } else {
                assert(y * (w4 + 1) == p.len());
                assert(s[p.len() + 1 + j] == row[j]);
            }
        }
    }
}

/// A PNG decoder gives back the image: the chunk after IHDR is IDAT, and
/// its data is a zlib stream whose decompressed bytes are one filter-0
/// (None) row per image row, holding exactly the row's `width * 4` valid
/// pixel bytes of `rgba`.
pub proof fn law_png_decodes_to_pixels(width: u32, height: u32, padded_row: u32, rgba: Seq<u8>)
    requires
        png_input_ok(width, height, padded_row, rgba.len()),
    ensures
        png_file(width, height, padded_row, rgba).subrange(37, 41) == seq![73u8, 68u8, 65u8, 84u8],
        exists|z: Seq<u8>|
            #[trigger] zlib_of_rows(z, width, height, padded_row, rgba) && png_file(
                width,
                height,
                padded_row,
                rgba,
            ).subrange(41, 41 + z.len() as int) == z,
{
    let raw = scanlines(width, height as nat, padded_row, rgba);
    let z = zlib_store_spec(raw);
    let f = png_file(width, height, padded_row, rgba);
    let ihdr = png_chunk(kind_ihdr(), ihdr_payload(width, height));
    assert(ihdr_payload(width, height).len() == 13);
    assert(ihdr.len() == 25);
    let idat = png_chunk(kind_idat(), z);
    assert(f == png_signature() + ihdr + idat + png_chunk(kind_iend(), Seq::empty()));
    assert(f.subrange(37, 41) =~= kind_idat());
    assert(f.subrange(41, 41 + z.len() as int) =~= z);
    lemma_scanlines_rows(width, height, height as nat, padded_row, rgba);
    law_zlib_store_round_trip(raw);
    assert(zlib_of_rows(z, width, height, padded_row, rgba));
}

proof fn lemma_byte_sum_concat(s: Seq<u8>, t: Seq<u8>)
    ensures
        byte_sum(s + t) == byte_sum(s) + byte_sum(t),
    decreases t.len(),
{
    if t.len() > 0 {
        lemma_byte_sum_concat(s, t.drop_last());
        assert((s + t).drop_last() =~= s + t.drop_last());
    } else {
        assert(s + t =~= s);
    }
}

/// Adler-32 of joined data: `A` adds the byte sum of the second part, and
/// `B` adds the second part's own `B` plus its length times the first
/// part's byte sum. The checksum holds `B mod 65521` above `A mod 65521`,
/// and the checksum of no bytes is 1.
pub proof fn law_adler_combine(s: Seq<u8>, t: Seq<u8>)
    ensures
        adler_a(s + t) == adler_a(s) + byte_sum(t),
        adler_b(s + t) == adler_b(s) + t.len() * byte_sum(s) + adler_b(t),
        adler32_spec(s) as int == (adler_b(s) % 65521) * 65536 + adler_a(s) % 65521,
        adler32_spec(Seq::<u8>::empty()) == 1,
    decreases t.len(),
{
    lemma_byte_sum_concat(s, t);
    if t.len() > 0 {
        law_adler_combine(s, t.drop_last());
        assert((s + t).drop_last() =~= s + t.drop_last());
        lemma_byte_sum_concat(s, t.drop_last());
        let t0 = t.drop_last();
        assert(adler_b(s + t) == adler_b(s + t0) + adler_a(s + t));
        assert(adler_b(t) == adler_b(t0) + adler_a(t));
        assert(t.len() * byte_sum(s) == t0.len() * byte_sum(s) + byte_sum(s)) by (nonlinear_arith)
            requires
                t.len() == t0.len() + 1,
        ;
    } else {
        assert(s + t =~= s);
    }
    assert(adler_b(s) >= 0 && adler_a(s) >= 1) by {
        lemma_adler_nonneg(s);
    }
}

proof fn lemma_adler_nonneg(s: Seq<u8>)
    ensures
        byte_sum(s) >= 0,
        adler_a(s) >= 1,
        adler_b(s) >= 0,
    decreases s.len(),
{
    if s.len() > 0 {
        lemma_adler_nonneg(s.drop_last());
    }
}

/// `x` as four little-endian bytes, the order in which a CRC is appended
/// to the data it checks.
pub open spec fn le32(x: u32) -> Seq<u8> {
    seq![(x & 0xffu32) as u8, ((x >> 8u32) & 0xffu32) as u8, ((x >> 16u32) & 0xffu32) as u8, ((x
        >> 24u32) & 0xffu32) as u8]
}

/// Feeding the four bytes of `r ^ 0xFFFFFFFF`, low byte first, into the
/// register `r` leaves 0xDEBB20E3, whatever `r` is.
proof fn lemma_crc_residue_bits(r: u32)
    ensures
        ({
            let x = r ^ 0xffff_ffffu32;
            let y1 = crc_byte_steps(r ^ (x & 0xffu32));
            let y2 = crc_byte_steps(y1 ^ ((x >> 8u32) & 0xffu32));
            let y3 = crc_byte_steps(y2 ^ ((x >> 16u32) & 0xffu32));
            crc_byte_steps(y3 ^ ((x >> 24u32) & 0xffu32))
        }) == 0xdebb_20e3u32,
{
    let x = r ^ 0xffff_ffffu32;
    let y1 = crc_byte_steps(r ^ (x & 0xffu32));
    assert(y1 == 0x2dfd_1072u32 ^ (x >> 8u32)) by (bit_vector)
        requires
            x == r ^ 0xffff_ffffu32,
            y1 == crc_byte_steps(r ^ (x & 0xffu32)),
    ;
    let y2 = crc_byte_steps(y1 ^ ((x >> 8u32) & 0xffu32));
    assert(y2 == 0xbe26_ed00u32 ^ (x >> 16u32)) by (bit_vector)
        requires
            y1 == 0x2dfd_1072u32 ^ (x >> 8u32),
            y2 == crc_byte_steps(y1 ^ ((x >> 8u32) & 0xffu32)),
    ;
    let y3 = crc_byte_steps(y2 ^ ((x >> 16u32) & 0xffu32));
    assert(y3 == 0x00be_26edu32 ^ (x >> 24u32)) by (bit_vector)
        requires
            y2 == 0xbe26_ed00u32 ^ (x >> 16u32),
            y3 == crc_byte_steps(y2 ^ ((x >> 16u32) & 0xffu32)),
    ;
    let y4 = crc_byte_steps(y3 ^ ((x >> 24u32) & 0xffu32));
    assert(y4 == 0xdebb_20e3u32) by (bit_vector)
        requires
            y3 == 0x00be_26edu32 ^ (x >> 24u32),
            y4 == crc_byte_steps(y3 ^ ((x >> 24u32) & 0xffu32)),
    ;
}

/// The CRC-32 check: appending a message's CRC to it, low byte first, gives
/// data whose CRC is the fixed residue 0x2144DF1C, whatever the message.
pub proof fn law_crc_residue(s: Seq<u8>)
    ensures
        crc32_spec(s + le32(crc32_spec(s))) == 0x2144_df1cu32,
{
    let r = crc_register(s);
    let c = crc32_spec(s);
    let t = s + le32(c);
    assert(t.drop_last().drop_last().drop_last().drop_last() =~= s);
    let t3 = t.drop_last();
    let t2 = t3.drop_last();
    let t1 = t2.drop_last();
    assert(t1.last() == (c & 0xffu32) as u8);
    assert(t2.last() == ((c >> 8u32) & 0xffu32) as u8);
    assert(t3.last() == ((c >> 16u32) & 0xffu32) as u8);
    assert(t.last() == ((c >> 24u32) & 0xffu32) as u8);
    assert(((c & 0xffu32) as u8) as u32 == c & 0xffu32) by (bit_vector);
    assert((((c >> 8u32) & 0xffu32) as u8) as u32 == (c >> 8u32) & 0xffu32) by (bit_vector);
    assert((((c >> 16u32) & 0xffu32) as u8) as u32 == (c >> 16u32) & 0xffu32) by (bit_vector);
    assert((((c >> 24u32) & 0xffu32) as u8) as u32 == (c >> 24u32) & 0xffu32) by (bit_vector);
    lemma_crc_residue_bits(r);
    assert(crc_register(t1) == crc_byte_steps(r ^ (c & 0xffu32)));
    assert(crc_register(t2) == crc_byte_steps(crc_register(t1) ^ ((c >> 8u32) & 0xffu32)));
    assert(crc_register(t3) == crc_byte_steps(crc_register(t2) ^ ((c >> 16u32) & 0xffu32)));
    assert(crc_register(t) == crc_byte_steps(crc_register(t3) ^ ((c >> 24u32) & 0xffu32)));
    assert(0xdebb_20e3u32 ^ 0xffff_ffffu32 == 0x2144_df1cu32) by (bit_vector);
}

/// `be32(x)` is `x` written most significant byte first: the four bytes
/// read back as `x`. Every chunk length and the IHDR width and height are
/// written this way.
pub proof fn law_be32_reads_back(x: u32)
    ensures
        be32(x).len() == 4,
        be32(x)[0] as int * 16777216 + be32(x)[1] as int * 65536 + be32(x)[2] as int * 256
            + be32(x)[3] as int == x as int,
{
    assert(((x >> 24u32) as u8) as u32 * 16777216u32 + ((x >> 16u32) as u8) as u32 * 65536u32
        + ((x >> 8u32) as u8) as u32 * 256u32 + (x as u8) as u32 == x) by (bit_vector);
}

} // verus!
