//! Repair of WAV headers written to a pipe.
//!
//! A WAV stream written to a pipe cannot seek back, so its RIFF size and
//! `data` chunk size are left as 0. Once all bytes are in, both sizes can be
//! filled in.

use vstd::prelude::*;

verus! {

/// The little-endian `u32` stored at `off`.
pub open spec fn le32_at(s: Seq<u8>, off: int) -> int {
    s[off] + s[off + 1] * 256 + s[off + 2] * 65536 + s[off + 3] * 16777216
}

/// `s` with the little-endian `u32` `v` written at `off`.
pub open spec fn put_le32(s: Seq<u8>, off: int, v: int) -> Seq<u8> {
    s.update(off, (v % 256) as u8).update(off + 1, ((v / 256) % 256) as u8).update(
        off + 2,
        ((v / 65536) % 256) as u8,
    ).update(off + 3, ((v / 16777216) % 256) as u8)
}

/// The four bytes at `pos` spell `data`.
pub open spec fn is_data_tag(s: Seq<u8>, pos: int) -> bool {
    s[pos] == 100u8 && s[pos + 1] == 97u8 && s[pos + 2] == 116u8 && s[pos + 3] == 97u8
}

/// Walking the RIFF chunk list from `pos` (each chunk: 4-byte id, 4-byte
/// little-endian size, payload padded to an even length), the offset of the
/// first chunk whose id is `data`.
pub open spec fn data_chunk_from(s: Seq<u8>, pos: int) -> Option<int>
    decreases s.len() - pos,
{
    if pos < 0 || pos + 8 > s.len() {
        None
    } else if is_data_tag(s, pos) {
        Some(pos)
    } else {
        let size = le32_at(s, pos + 4);
        let next = pos + 8 + size + size % 2;
        if next > s.len() {
            None
        } else {
            data_chunk_from(s, next)
        }
    }
}

/// The bytes of `s` once the RIFF size (at offset 4) is set to the length
/// minus 8, and the size of the first `data` chunk found by walking the
/// chunk list from offset 12 is set to the number of bytes after its
/// header. Sizes are taken modulo 2^32, as a `u32` holds them.
pub open spec fn fixed_wav(s: Seq<u8>) -> Seq<u8> {
    if s.len() < 12 {
        s
    } else {
        let s1 = put_le32(s, 4, (s.len() - 8) % 0x1_0000_0000);
        match data_chunk_from(s1, 12) {
            Some(p) => put_le32(s1, p + 4, (s1.len() - p - 8) % 0x1_0000_0000),
            None => s1,
        }
    }
}

fn write_le32(wav: &mut Vec<u8>, off: usize, v: u64)
    requires
        off + 4 <= old(wav)@.len(),
    ensures
        final(wav)@ == put_le32(old(wav)@, off as int, v as int),
{
    let n = wav.len();
    wav.set(off, (v % 256) as u8);
    wav.set(off + 1, ((v / 256) % 256) as u8);
    wav.set(off + 2, ((v / 65536) % 256) as u8);
    wav.set(off + 3, ((v / 16777216) % 256) as u8);
}

/// Patches the RIFF size and the `data` chunk size of a WAV stream in place.
pub fn fix_wav_header(wav: &mut Vec<u8>)
    ensures
        final(wav)@ == fixed_wav(old(wav)@),
{
    let file_size = wav.len();
    if file_size < 12 {
        return;
    }
    let riff_size = ((file_size - 8) as u64) % 0x1_0000_0000;
    write_le32(wav, 4, riff_size);
    let ghost s1 = wav@;
    let mut pos: usize = 12;
    while pos <= file_size && 8 <= file_size - pos
        invariant
            file_size == wav@.len(),
            file_size == old(wav)@.len(),
            12 <= file_size,
            s1 == put_le32(old(wav)@, 4, (old(wav)@.len() - 8) % 0x1_0000_0000),
            wav@ == s1,
            12 <= pos,
            data_chunk_from(s1, 12) == data_chunk_from(s1, pos as int),
        decreases file_size - pos,
    {
        if wav[pos] == 100u8 && wav[pos + 1] == 97u8 && wav[pos + 2] == 116u8 && wav[pos + 3]
            == 97u8 {
            let data_size = ((file_size - pos - 8) as u64) % 0x1_0000_0000;
            write_le32(wav, pos + 4, data_size);
            return;
        }
        let size: u64 = wav[pos + 4] as u64 + wav[pos + 5] as u64 * 256 + wav[pos + 6] as u64
            * 65536 + wav[pos + 7] as u64 * 16777216;
        assert(size == le32_at(s1, pos + 4));
        let next: u128 = pos as u128 + 8 + size as u128 + (size % 2) as u128;
        if next > file_size as u128 {
            return;
        }
        pos = next as usize;
    }
}


proof fn lemma_le32_roundtrip(v: u32)
    ensures
        (v % 256) + ((v / 256) % 256) * 256 + ((v / 65536) % 256) * 65536 + ((v / 16777216) % 256)
            * 16777216 == v,
{
    assert((v % 256) + ((v / 256) % 256) * 256 + ((v / 65536) % 256) * 65536 + ((v / 16777216)
        % 256) * 16777216 == v) by (bit_vector);
}

/// What `put_le32` writes reads back as `v`, and no other byte changes.
proof fn lemma_put_le32(s: Seq<u8>, off: int, v: int)
    requires
        0 <= off,
        off + 4 <= s.len(),
        0 <= v < 0x1_0000_0000,
    ensures
        put_le32(s, off, v).len() == s.len(),
        le32_at(put_le32(s, off, v), off) == v,
        forall|i: int| 0 <= i < s.len() && !(off <= i < off + 4) ==> #[trigger] put_le32(s, off, v)[i] == s[i],
{
    let t = put_le32(s, off, v);
    lemma_le32_roundtrip(v as u32);
    assert(t[off] == (v % 256) as u8);
    assert(t[off + 1] == ((v / 256) % 256) as u8);
    assert(t[off + 2] == ((v / 65536) % 256) as u8);
    assert(t[off + 3] == ((v / 16777216) % 256) as u8);
}

/// The chunk walk reads only bytes from where it starts on.
proof fn lemma_walk_same(s: Seq<u8>, t: Seq<u8>, from: int, pos: int)
    requires
        s.len() == t.len(),
        0 <= from <= pos,
        forall|i: int| from <= i < s.len() ==> #[trigger] s[i] == t[i],
    ensures
        data_chunk_from(s, pos) == data_chunk_from(t, pos),
        data_chunk_from(s, pos) matches Some(p) ==> pos <= p && p + 8 <= s.len(),
    decreases s.len() - pos,
{
    if pos + 8 <= s.len() {
        assert(s[pos] == t[pos] && s[pos + 1] == t[pos + 1] && s[pos + 2] == t[pos + 2] && s[pos
            + 3] == t[pos + 3]);
        assert(s[pos + 4] == t[pos + 4] && s[pos + 5] == t[pos + 5] && s[pos + 6] == t[pos + 6]
            && s[pos + 7] == t[pos + 7]);
        if !is_data_tag(s, pos) {
            let size = le32_at(s, pos + 4);
            let next = pos + 8 + size + size % 2;
            if next <= s.len() {
                lemma_walk_same(s, t, from, next);
            }
        }
    }
}

/// What a repaired header says: the length is kept; the RIFF size reads as
/// the length minus 8; when the chunk walk from offset 12 finds a `data`
/// chunk at `p`, its size reads as the number of bytes after its header
/// (both modulo 2^32); every other byte is as it was. Shorter streams than
/// a header are left alone.
pub proof fn law_wav_sizes_read_back(s: Seq<u8>)
    ensures
        fixed_wav(s).len() == s.len(),
        s.len() < 12 ==> fixed_wav(s) == s,
        s.len() >= 12 ==> le32_at(fixed_wav(s), 4) == (s.len() - 8) % 0x1_0000_0000,
        s.len() >= 12 ==> match data_chunk_from(s, 12) {
            Some(p) => {
                &&& 12 <= p && p + 8 <= s.len()
                &&& le32_at(fixed_wav(s), p + 4) == (s.len() - p - 8) % 0x1_0000_0000
                &&& forall|i: int| 0 <= i < s.len() && !(4 <= i < 8) && !(p + 4 <= i < p + 8)
                    ==> #[trigger] fixed_wav(s)[i] == s[i]
            },
            None => forall|i: int| 0 <= i < s.len() && !(4 <= i < 8) ==> #[trigger] fixed_wav(s)[i] == s[i],
        },
{
    if s.len() >= 12 {
        let v1 = (s.len() - 8) % 0x1_0000_0000;
        let s1 = put_le32(s, 4, v1);
        lemma_put_le32(s, 4, v1);
        lemma_walk_same(s, s1, 12, 12);
        match data_chunk_from(s1, 12) {
            Some(p) => {
                let v2 = (s1.len() - p - 8) % 0x1_0000_0000;
                lemma_put_le32(s1, p + 4, v2);
                let f = put_le32(s1, p + 4, v2);
                assert(f[4] == s1[4] && f[5] == s1[5] && f[6] == s1[6] && f[7] == s1[7]);
                assert(le32_at(f, 4) == le32_at(s1, 4));
            },
            None => {},
        }
    }
}

} // verus!
