//! Segments as WAV files in memory, ready to be sent for transcription.

use crate::audio::VOICE_PEAK;
use vstd::prelude::*;

verus! {

/// The rate that the transcription model expects, in samples per second.
pub const TARGET_SAMPLE_RATE: u32 = 16_000;

/// The most samples that a WAV file holds: its sizes are 32-bit numbers of bytes.
pub const MAX_PCM: usize = 2_147_483_629;

/// The layout of the samples in a WAV file.
pub struct WavFormat {
    pub channels: u16,
    pub sample_rate: u32,
    pub bits_per_sample: u16,
}

/// `x`, modulo 2 to the 16, in two bytes, the low one first.
pub open spec fn le16(x: int) -> Seq<u8> {
    seq![(x % 256) as u8, (x / 256 % 256) as u8]
}

/// `x`, modulo 2 to the 32, in four bytes, the lowest first.
pub open spec fn le32(x: int) -> Seq<u8> {
    le16(x) + le16(x / 65536)
}

/// The samples, each in two bytes, the low one first, negative ones in two's complement.
pub open spec fn pcm_bytes(samples: Seq<i16>) -> Seq<u8> {
    Seq::new(2 * samples.len(), |i: int| le16(samples[i / 2] as int)[i % 2])
}

/// The part of a WAV header between the two sizes: `WAVE`, the description of the format, and the
/// word `data`.
pub open spec fn wav_format_bytes(format: WavFormat) -> Seq<u8> {
    let block: int = format.channels * (format.bits_per_sample / 8);
    seq![0x57u8, 0x41, 0x56, 0x45, 0x66, 0x6d, 0x74, 0x20] + le32(16) + le16(1) + le16(
        format.channels as int,
    ) + le32(format.sample_rate as int) + le32(format.sample_rate * block) + le16(block) + le16(
        format.bits_per_sample as int,
    ) + seq![0x64u8, 0x61, 0x74, 0x61]
}

/// The header of a WAV file with `data` bytes of integer samples: `RIFF`, the size of all that
/// follows, the format, and the size of the samples.
pub open spec fn wav_header(format: WavFormat, data: int) -> Seq<u8> {
    seq![0x52u8, 0x49, 0x46, 0x46] + le32(36 + data) + wav_format_bytes(format) + le32(data)
}

/// The WAV file that holds 16-bit `samples`.
pub open spec fn wav_file(format: WavFormat, samples: Seq<i16>) -> Seq<u8> {
    wav_header(format, 2 * samples.len() as int) + pcm_bytes(samples)
}

/// Writes `samples` with `hound::WavWriter`: `new` on an empty cursor in memory, `write_sample` for
/// each sample in turn, and `finalize`. Claims that this succeeds, and that the cursor then holds
/// the 44-byte header of integer PCM with the sizes filled in, and the samples in little-endian
/// order. Hound's other failures are an unsupported number of bits and an incomplete frame, which
/// the conditions leave out, as they do numbers of bytes that overflow 32 bits or a `Vec`.
#[verifier::external_body]
fn write_wav(format: &WavFormat, samples: &[i16]) -> (r: Result<Vec<u8>, String>)
    requires
        1 <= format.channels <= 2,
        format.bits_per_sample == 16,
        samples@.len() % (format.channels as nat) == 0,
        1 <= format.sample_rate,
        format.sample_rate * 2 * format.channels <= u32::MAX,
        2 * samples@.len() + 36 <= u32::MAX,
        2 * samples@.len() + 44 <= isize::MAX,
    ensures
        r is Ok,
        r->Ok_0@ == wav_file(*format, samples@),
{
    let spec = hound::WavSpec {
        channels: format.channels,
        sample_rate: format.sample_rate,
        bits_per_sample: format.bits_per_sample,
        sample_format: hound::SampleFormat::Int,
    };
    let mut cursor = std::io::Cursor::new(Vec::<u8>::new());
    let mut writer = hound::WavWriter::new(&mut cursor, spec).map_err(|e| e.to_string())?;
    for sample in samples {
        writer.write_sample(*sample).map_err(|e| e.to_string())?;
    }
    writer.finalize().map_err(|e| e.to_string())?;
    Ok(cursor.into_inner())
}

/// Why a segment is not worth encoding.
pub open spec fn segment_refusal(len: int, peak: u32) -> Option<Seq<char>> {
    if len == 0 {
        Some("segmento vacío"@)
    } else if peak < VOICE_PEAK {
        Some("sin voz"@)
    } else {
        None
    }
}

/// Whether a segment of `len` samples, whose peak has the bits `peak`, is worth encoding.
pub fn check_segment(len: usize, peak: u32) -> (r: Result<(), String>)
    ensures
        (match r {
            Ok(()) => segment_refusal(len as int, peak) is None,
            Err(e) => segment_refusal(len as int, peak) == Some(e@),
        }),
{
    if len == 0 {
        Err("segmento vacío".to_string())
    } else if peak < VOICE_PEAK {
        Err("sin voz".to_string())
    } else {
        Ok(())
    }
}

/// The format of the files that are sent: one channel of 16-bit samples.
pub open spec fn mono() -> WavFormat {
    WavFormat { channels: 1, sample_rate: TARGET_SAMPLE_RATE, bits_per_sample: 16 }
}

/// A WAV file in memory that holds `pcm`, at the rate that the transcription model expects. Both the
/// format and a `Vec` limit how long it can be.
pub fn encode_wav(pcm: &Vec<i16>) -> (r: Result<Vec<u8>, String>)
    requires
        pcm@.len() <= MAX_PCM,
        2 * pcm@.len() + 44 <= isize::MAX,
    ensures
        r is Ok,
        r->Ok_0@ == wav_file(mono(), pcm@),
{
    let format = WavFormat {
        channels: 1,
        sample_rate: TARGET_SAMPLE_RATE,
        bits_per_sample: 16,
    };
    match write_wav(&format, pcm.as_slice()) {
        Ok(bytes) => Ok(bytes),
        Err(e) => Err("wav: ".to_string().concat(e.as_str())),
    }
}

/// The number in the four bytes of `bytes` from `at` on, the lowest first.
pub open spec fn read_le32(bytes: Seq<u8>, at: int) -> int {
    bytes[at] + 256 * bytes[at + 1] + 65536 * bytes[at + 2] + 16777216 * bytes[at + 3]
}

/// The signed number in the two bytes of `bytes` from `at` on, the low one first.
pub open spec fn read_le_i16(bytes: Seq<u8>, at: int) -> int {
    let x = bytes[at] + 256 * bytes[at + 1];
    if x < 32768 {
        x
    } else {
        x - 65536
    }
}

proof fn lemma_read_le32(bytes: Seq<u8>, at: int, x: int)
    requires
        0 <= at <= bytes.len() - 4,
        bytes.subrange(at, at + 4) == le32(x),
        0 <= x <= u32::MAX,
    ensures
        read_le32(bytes, at) == x,
{
    let four = bytes.subrange(at, at + 4);
    assert(bytes[at] == four[0] && bytes[at + 1] == four[1] && bytes[at + 2] == four[2] && bytes[at
        + 3] == four[3]);
}

proof fn lemma_header(format: WavFormat, data: int)
    ensures
        wav_header(format, data).len() == 44,
        wav_header(format, data).subrange(4, 8) == le32(36 + data),
        wav_header(format, data).subrange(40, 44) == le32(data),
{
    assert(wav_format_bytes(format).len() == 32);
    assert(wav_header(format, data).subrange(4, 8) =~= le32(36 + data));
    assert(wav_header(format, data).subrange(40, 44) =~= le32(data));
}

proof fn lemma_sample(samples: Seq<i16>, i: int)
    requires
        0 <= i < samples.len(),
    ensures
        read_le_i16(pcm_bytes(samples), 2 * i) == samples[i],
{
    assert((2 * i) / 2 == i && (2 * i) % 2 == 0);
    assert((2 * i + 1) / 2 == i && (2 * i + 1) % 2 == 1);
}

/// The sizes in a WAV file are true, and every sample can be read back from it.
pub proof fn law_wav_holds_the_samples(format: WavFormat, samples: Seq<i16>)
    requires
        samples.len() <= MAX_PCM,
    ensures
        wav_file(format, samples).len() == 44 + 2 * samples.len(),
        read_le32(wav_file(format, samples), 4) == wav_file(format, samples).len() - 8,
        read_le32(wav_file(format, samples), 40) == 2 * samples.len(),
        forall|i: int|
            0 <= i < samples.len() ==> read_le_i16(wav_file(format, samples), 44 + 2 * i)
                == #[trigger] samples[i],
{
    let file = wav_file(format, samples);
    let data: int = 2 * samples.len() as int;
    let header = wav_header(format, data);
    let body = pcm_bytes(samples);
    lemma_header(format, data);
    assert(file.subrange(4, 8) =~= header.subrange(4, 8));
    assert(file.subrange(40, 44) =~= header.subrange(40, 44));
    lemma_read_le32(file, 4, 36 + data);
    lemma_read_le32(file, 40, data);
    assert forall|i: int| 0 <= i < samples.len() implies read_le_i16(file, 44 + 2 * i)
        == #[trigger] samples[i] by {
        lemma_sample(samples, i);
        assert(file[44 + 2 * i] == body[2 * i]);
        assert(file[44 + 2 * i + 1] == body[2 * i + 1]);
    }
}

/// The files that are sent say what they hold: one channel of 16-bit samples, 16000 of them a second.
pub proof fn law_wav_header_is_true(samples: Seq<i16>)
    ensures
        ({
            let file = wav_file(mono(), samples);
            &&& file.len() >= 44
            &&& file[0] == 'R' as u8 && file[1] == 'I' as u8 && file[2] == 'F' as u8 && file[3] == 'F' as u8
            &&& file[8] == 'W' as u8 && file[9] == 'A' as u8 && file[10] == 'V' as u8 && file[11] == 'E' as u8
            &&& file[12] == 'f' as u8 && file[13] == 'm' as u8 && file[14] == 't' as u8 && file[15] == ' ' as u8
            &&& file[36] == 'd' as u8 && file[37] == 'a' as u8 && file[38] == 't' as u8 && file[39] == 'a' as u8
            &&& read_le32(file, 16) == 16
            &&& file[20] == 1 && file[21] == 0
            &&& file[22] == 1 && file[23] == 0
            &&& read_le32(file, 24) == 16_000
            &&& read_le32(file, 28) == 32_000
            &&& file[32] == 2 && file[33] == 0
            &&& file[34] == 16 && file[35] == 0
        }),
{
    let format = mono();
    let file = wav_file(format, samples);
    let data: int = 2 * samples.len() as int;
    lemma_header(format, data);
    let header = wav_header(format, data);
    assert(wav_format_bytes(format).len() == 32);
    assert(forall|i: int| 0 <= i < 44 ==> file[i] == header[i]);
    assert(forall|i: int| 0 <= i < 32 ==> header[8 + i] == #[trigger] wav_format_bytes(format)[i]);
    let f = wav_format_bytes(format);
    assert(file[8] == f[0] && file[9] == f[1] && file[10] == f[2] && file[11] == f[3]);
    assert(file[12] == f[4] && file[13] == f[5] && file[14] == f[6] && file[15] == f[7]);
    assert(file[20] == f[12] && file[21] == f[13] && file[22] == f[14] && file[23] == f[15]);
    assert(file[32] == f[24] && file[33] == f[25] && file[34] == f[26] && file[35] == f[27]);
    assert(file[36] == f[28] && file[37] == f[29] && file[38] == f[30] && file[39] == f[31]);
    assert(file.subrange(16, 20) =~= le32(16)) by {
        assert(f.subrange(8, 12) =~= le32(16));
        assert(forall|i: int| 0 <= i < 4 ==> file[16 + i] == #[trigger] f[8 + i]);
    }
    assert(file.subrange(24, 28) =~= le32(16_000)) by {
        assert(f.subrange(16, 20) =~= le32(16_000));
        assert(forall|i: int| 0 <= i < 4 ==> file[24 + i] == #[trigger] f[16 + i]);
    }
    assert(file.subrange(28, 32) =~= le32(32_000)) by {
        assert(f.subrange(20, 24) =~= le32(32_000));
        assert(forall|i: int| 0 <= i < 4 ==> file[28 + i] == #[trigger] f[20 + i]);
    }
    lemma_read_le32(file, 16, 16);
    lemma_read_le32(file, 24, 16_000);
    lemma_read_le32(file, 28, 32_000);
}

/// A segment is encoded exactly when it is not empty and reaches the level of speech; an empty one is
/// said to be empty, and a quiet one to be without a voice. A louder segment is never refused where a
/// quieter one is not.
pub proof fn law_only_speech_is_encoded(len: int, peak: u32, louder: u32)
    requires
        len >= 0,
        peak <= louder,
    ensures
        segment_refusal(len, peak) is None <==> len > 0 && peak >= 0x3d38_51ec,
        len == 0 ==> segment_refusal(len, peak) == Some("segmento vacío"@),
        len > 0 && peak < 0x3d38_51ec ==> segment_refusal(len, peak) == Some("sin voz"@),
        segment_refusal(len, peak) is None ==> segment_refusal(len, louder) is None,
{
}

} // verus!
