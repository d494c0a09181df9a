use fivetris::media::wav::{
    WavError, WavLayout, channel_samples, layout_readable, read_wav_layout, wav_frames, wav_samples,
};

fn chunk(tag: &[u8; 4], body: &[u8]) -> Vec<u8> {
    let mut out = tag.to_vec();
    out.extend_from_slice(&(body.len() as u32).to_le_bytes());
    out.extend_from_slice(body);
    if body.len() % 2 == 1 {
        out.push(0);
    }
    out
}

fn fmt_body(audio: u16, channels: u16, rate: u32, bits: u16) -> Vec<u8> {
    let mut body = Vec::new();
    body.extend_from_slice(&audio.to_le_bytes());
    body.extend_from_slice(&channels.to_le_bytes());
    body.extend_from_slice(&rate.to_le_bytes());
    let block = channels * (bits / 8);
    body.extend_from_slice(&(rate * block as u32).to_le_bytes());
    body.extend_from_slice(&block.to_le_bytes());
    body.extend_from_slice(&bits.to_le_bytes());
    body
}

fn wav(chunks: &[Vec<u8>]) -> Vec<u8> {
    let mut inner = b"WAVE".to_vec();
    for c in chunks {
        inner.extend_from_slice(c);
    }
    let mut out = b"RIFF".to_vec();
    out.extend_from_slice(&(inner.len() as u32).to_le_bytes());
    out.extend_from_slice(&inner);
    out
}

#[test]
fn reads_a_sixteen_bit_stereo_file() {
    let samples: Vec<u8> = [1i16, -1, 32767, -32768]
        .iter()
        .flat_map(|s| s.to_le_bytes())
        .collect();
    let data = wav(&[chunk(b"fmt ", &fmt_body(1, 2, 22050, 16)), chunk(b"data", &samples)]);
    let layout = read_wav_layout(&data).unwrap();
    assert_eq!(layout.channels, 2);
    assert_eq!(layout.sample_rate, 22050);
    assert_eq!(layout.bits_per_sample, 16);
    assert_eq!(layout.data_end - layout.data_start, 8);
    assert!(layout_readable(&layout, data.len()));
    assert_eq!(wav_frames(&layout), 2);
    let values = wav_samples(&data, &layout).unwrap();
    assert_eq!(values, vec![1, -1, 32767, -32768]);
    assert_eq!(channel_samples(&values, 2, 0), vec![1, 32767]);
    assert_eq!(channel_samples(&values, 2, 1), vec![-1, -32768]);
}

#[test]
fn eight_bit_samples_are_centred_on_zero() {
    let data = wav(&[
        chunk(b"LIST", b"abc"),
        chunk(b"fmt ", &fmt_body(1, 1, 8000, 8)),
        chunk(b"data", &[0, 128, 255, 130]),
    ]);
    let layout = read_wav_layout(&data).unwrap();
    assert_eq!(layout.bits_per_sample, 8);
    assert_eq!(wav_samples(&data, &layout).unwrap(), vec![-128, 0, 127, 2]);
}

#[test]
fn without_a_format_chunk_the_defaults_hold() {
    let data = wav(&[chunk(b"data", &[0u8; 40])]);
    let layout = read_wav_layout(&data).unwrap();
    assert_eq!(
        (layout.channels, layout.sample_rate, layout.bits_per_sample),
        (1, 44100, 16)
    );
    assert_eq!(wav_frames(&layout), 20);
}

#[test]
fn a_data_chunk_is_cut_at_the_end_of_the_file() {
    let mut data = wav(&[chunk(b"fmt ", &fmt_body(1, 1, 8000, 8)), chunk(b"data", &[1, 2, 3, 4])]);
    let len = data.len();
    data.truncate(len - 2);
    let layout = read_wav_layout(&data).unwrap();
    assert_eq!(layout.data_end, data.len());
    assert_eq!(wav_samples(&data, &layout).unwrap(), vec![-127, -126]);
}

#[test]
fn refuses_files_that_are_not_wave() {
    assert_eq!(read_wav_layout(b"RIFF"), Err(WavError::NotWav));
    let mut data = wav(&[chunk(b"data", &[0u8; 40])]);
    data[8] = b'X';
    assert_eq!(read_wav_layout(&data), Err(WavError::NotWav));
    assert_eq!(WavError::NotWav.message(), "not a WAV file");
}

#[test]
fn refuses_compressed_samples() {
    let data = wav(&[chunk(b"fmt ", &fmt_body(3, 1, 8000, 16)), chunk(b"data", &[0u8; 20])]);
    assert_eq!(read_wav_layout(&data), Err(WavError::NotPcm));
}

#[test]
fn refuses_files_without_samples() {
    let data = wav(&[chunk(b"fmt ", &fmt_body(1, 1, 8000, 16)), chunk(b"junk", &[0u8; 20])]);
    assert_eq!(read_wav_layout(&data), Err(WavError::NoDataChunk));
    assert_eq!(WavError::NoDataChunk.message(), "no data chunk");
}

#[test]
fn refuses_data_without_a_whole_frame_and_odd_widths() {
    let layout = WavLayout { channels: 2, sample_rate: 8000, bits_per_sample: 16, data_start: 0, data_end: 2 };
    assert_eq!(wav_samples(&[0, 0], &layout), Err(WavError::EmptyAudio));
    let layout = WavLayout { channels: 1, sample_rate: 8000, bits_per_sample: 24, data_start: 0, data_end: 6 };
    assert!(layout_readable(&layout, 6));
    assert_eq!(wav_samples(&[0; 6], &layout), Err(WavError::UnsupportedBitDepth));
    let layout = WavLayout { channels: 0, sample_rate: 8000, bits_per_sample: 16, data_start: 0, data_end: 6 };
    assert!(!layout_readable(&layout, 6));
}
