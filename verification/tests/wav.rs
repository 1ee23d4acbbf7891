use playlist_core::wav::fix_wav_header;

fn build_wav(list_payload: &[u8], pcm: &[u8]) -> Vec<u8> {
    let mut wav = Vec::new();
    wav.extend_from_slice(b"RIFF");
    wav.extend_from_slice(&0u32.to_le_bytes());
    wav.extend_from_slice(b"WAVE");
    wav.extend_from_slice(b"LIST");
    wav.extend_from_slice(&(list_payload.len() as u32).to_le_bytes());
    wav.extend_from_slice(list_payload);
    wav.extend_from_slice(b"data");
    wav.extend_from_slice(&0u32.to_le_bytes());
    wav.extend_from_slice(pcm);
    wav
}

fn u32_at(wav: &[u8], off: usize) -> u32 {
    u32::from_le_bytes([wav[off], wav[off + 1], wav[off + 2], wav[off + 3]])
}

#[test]
fn patches_data_chunk_after_list_containing_data_text() {
    let payload = b"INFOICMTmetadata database data";
    let pcm = [0u8; 100];
    let mut wav = build_wav(payload, &pcm);
    fix_wav_header(&mut wav);
    let data_off = 12 + 8 + payload.len();
    assert_eq!(u32_at(&wav, data_off + 4) as usize, pcm.len());
    assert_eq!(u32_at(&wav, 4) as usize, wav.len() - 8);
}

#[test]
fn patches_plain_data_only_wav() {
    let pcm = [1u8, 2, 3, 4];
    let mut wav = build_wav(b"", &pcm);
    fix_wav_header(&mut wav);
    let data_off = 12 + 8;
    assert_eq!(u32_at(&wav, data_off + 4) as usize, pcm.len());
}

#[test]
fn odd_chunks_are_padded_and_short_streams_untouched() {
    let payload = b"abc";
    let pcm = [9u8; 7];
    let mut wav = build_wav(payload, &pcm);
    // an odd-sized chunk carries one pad byte before the next chunk
    wav.insert(12 + 8 + 3, 0);
    fix_wav_header(&mut wav);
    let data_off = 12 + 8 + 4;
    assert_eq!(u32_at(&wav, data_off + 4), 7);
    assert_eq!(u32_at(&wav, 4), (wav.len() - 8) as u32);

    let mut short = vec![1u8, 2, 3, 4, 5, 6, 7, 8, 9, 10, 11];
    fix_wav_header(&mut short);
    assert_eq!(short, vec![1u8, 2, 3, 4, 5, 6, 7, 8, 9, 10, 11]);

    let mut no_data = build_wav(b"xy", &[]);
    no_data.truncate(12 + 8 + 2);
    fix_wav_header(&mut no_data);
    assert_eq!(u32_at(&no_data, 4), (no_data.len() - 8) as u32);
    assert_eq!(&no_data[12..16], b"LIST");
    assert_eq!(u32_at(&no_data, 16), 2);
}
