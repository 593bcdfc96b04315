use riff::wav::{check_segment, encode_wav};
use std::io::Cursor;

#[test]
fn an_empty_file_is_a_header() {
    let bytes = encode_wav(&Vec::new()).unwrap();
    assert_eq!(
        bytes,
        vec![
            b'R', b'I', b'F', b'F', 36, 0, 0, 0, b'W', b'A', b'V', b'E', b'f', b'm', b't', b' ', 16,
            0, 0, 0, 1, 0, 1, 0, 0x80, 0x3e, 0, 0, 0x00, 0x7d, 0, 0, 2, 0, 16, 0, b'd', b'a', b't',
            b'a', 0, 0, 0, 0,
        ]
    );
}

#[test]
fn samples_follow_the_header() {
    let bytes = encode_wav(&vec![1, -1, i16::MAX, i16::MIN, 0x1234]).unwrap();
    assert_eq!(bytes.len(), 54);
    assert_eq!(&bytes[4..8], &[46, 0, 0, 0]);
    assert_eq!(&bytes[40..44], &[10, 0, 0, 0]);
    assert_eq!(&bytes[44..], &[1, 0, 0xff, 0xff, 0xff, 0x7f, 0, 0x80, 0x34, 0x12]);
}

#[test]
fn a_reader_gets_the_samples_back() {
    let pcm: Vec<i16> = (0..5000).map(|i| (i * 37 % 65536 - 32768) as i16).collect();
    let bytes = encode_wav(&pcm).unwrap();
    let mut reader = hound::WavReader::new(Cursor::new(bytes)).unwrap();
    assert_eq!(reader.spec().channels, 1);
    assert_eq!(reader.spec().sample_rate, 16_000);
    assert_eq!(reader.spec().bits_per_sample, 16);
    let back: Vec<i16> = reader.samples::<i16>().map(|s| s.unwrap()).collect();
    assert_eq!(back, pcm);
}

#[test]
fn segments_without_voice_are_refused() {
    assert_eq!(check_segment(0, 1.0f32.to_bits()), Err("segmento vacío".to_string()));
    assert_eq!(check_segment(0, 0), Err("segmento vacío".to_string()));
    assert_eq!(check_segment(1, 0.0449f32.to_bits()), Err("sin voz".to_string()));
    assert_eq!(check_segment(1, 0.045f32.to_bits()), Ok(()));
}
