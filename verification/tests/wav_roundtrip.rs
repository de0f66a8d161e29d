// Regression guard on the storage boundary, outside the verified core:
// encoding a PCM buffer to WAV and decoding it back is lossless, and
// re-encoding the decoded samples reproduces the bytes exactly.

use std::io::Cursor;

fn to_wav(samples: &[f32]) -> Vec<u8> {
    let spec = hound::WavSpec {
        channels: 1,
        sample_rate: 32000,
        bits_per_sample: 32,
        sample_format: hound::SampleFormat::Float,
    };
    let mut buffer: Vec<u8> = Vec::new();
    {
        let cursor = Cursor::new(&mut buffer);
        let mut writer = hound::WavWriter::new(cursor, spec).expect("writer");
        for s in samples {
            writer.write_sample(*s).expect("write sample");
        }
        writer.finalize().expect("finalize");
    }
    buffer
}

#[test]
fn wav_round_trip_is_byte_identical() {
    let samples: Vec<f32> = vec![0.0, 0.25, -0.5, 1.0, -1.0, 0.125];
    let bytes = to_wav(&samples);

    let reader = hound::WavReader::new(Cursor::new(&bytes)).expect("reader");
    let decoded: Vec<f32> = reader
        .into_samples::<f32>()
        .map(|s| s.expect("sample"))
        .collect();
    assert_eq!(decoded, samples);

    let bytes_again = to_wav(&decoded);
    assert_eq!(bytes_again, bytes);
}
