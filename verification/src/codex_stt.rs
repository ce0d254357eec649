//! The batch transcription request: the multipart body, the audio bytes,
//! and what each HTTP answer leads to.
use vstd::prelude::*;
use vstd::string::StringSliceAdditionalSpecFns;
use vstd::utf8::{decode_utf8, encode_utf8};
use crate::text::{trim_str, trim_ws};

verus! {

broadcast use vstd::string::group_string_axioms;

/// Appends `bytes` to `v`.
fn extend_bytes(v: &mut Vec<u8>, bytes: &[u8])
    ensures
        final(v)@ == old(v)@ + bytes@,
{
    let mut i: usize = 0;
    let ghost start = v@;
    while i < bytes.len()
        invariant
            i <= bytes@.len(),
            v@ == start + bytes@.take(i as int),
        decreases bytes@.len() - i,
    {
        v.push(bytes[i]);
        assert(bytes@.take(i as int).push(bytes@[i as int]) =~= bytes@.take(i + 1));
        i += 1;
    }
    assert(bytes@.take(bytes@.len() as int) =~= bytes@);
}

/// Appends the UTF-8 encoding of `s` to `v`.
fn extend_text(v: &mut Vec<u8>, s: &str)
    ensures
        final(v)@ == old(v)@ + encode_utf8(s@),
{
    extend_bytes(v, s.as_bytes());
}

/// The head of the file part: boundary line and part headers.
pub open spec fn file_part_head(boundary: Seq<char>, filename: Seq<char>, content_type: Seq<char>) -> Seq<char> {
    "--"@ + boundary + "\r\n"@ + "Content-Disposition: form-data; name=\"file\"; filename=\""@
        + filename + "\"\r\n"@ + "Content-Type: "@ + content_type + "\r\n"@ + "\r\n"@
}

/// The optional language part.
pub open spec fn language_part(boundary: Seq<char>, language: Seq<char>) -> Seq<char> {
    "--"@ + boundary + "\r\n"@ + "Content-Disposition: form-data; name=\"language\"\r\n"@ + "\r\n"@
        + language + "\r\n"@
}

/// The closing boundary line.
pub open spec fn closing_boundary(boundary: Seq<char>) -> Seq<char> {
    "--"@ + boundary + "--\r\n"@
}

/// A `multipart/form-data` body with the audio as the `file` part and, when
/// given, a `language` part.
pub open spec fn multipart_body(
    audio: Seq<u8>,
    boundary: Seq<char>,
    filename: Seq<char>,
    content_type: Seq<char>,
    language: Option<Seq<char>>,
) -> Seq<u8> {
    encode_utf8(file_part_head(boundary, filename, content_type)) + audio + encode_utf8("\r\n"@)
        + match language {
        Some(l) => encode_utf8(language_part(boundary, l)),
        None => Seq::<u8>::empty(),
    } + encode_utf8(closing_boundary(boundary))
}

/// The `multipart/form-data` body of a transcription request.
pub fn build_multipart_body(
    audio_data: &[u8],
    boundary: &str,
    filename: &str,
    content_type: &str,
    language: Option<&str>,
) -> (body: Vec<u8>)
    ensures
        body@ == multipart_body(
            audio_data@,
            boundary@,
            filename@,
            content_type@,
            match language {
                Some(l) => Some(l@),
                None => None,
            },
        ),
{
    let mut head = "--".to_string();
    head.append(boundary);
    head.append("\r\n");
    head.append("Content-Disposition: form-data; name=\"file\"; filename=\"");
    head.append(filename);
    head.append("\"\r\n");
    head.append("Content-Type: ");
    head.append(content_type);
    head.append("\r\n");
    head.append("\r\n");
    let mut body: Vec<u8> = Vec::new();
    extend_text(&mut body, head.as_str());
    extend_bytes(&mut body, audio_data);
    extend_text(&mut body, "\r\n");
    let ghost after_file = body@;
    if let Some(lang) = language {
        let mut part = "--".to_string();
        part.append(boundary);
        part.append("\r\n");
        part.append("Content-Disposition: form-data; name=\"language\"\r\n");
        part.append("\r\n");
        part.append(lang);
        part.append("\r\n");
        extend_text(&mut body, part.as_str());
    }
    let ghost after_language = body@;
    let mut closing = "--".to_string();
    closing.append(boundary);
    closing.append("--\r\n");
    extend_text(&mut body, closing.as_str());
    proof {
        let lang_bytes = match language {
            Some(l) => encode_utf8(language_part(boundary@, l@)),
            None => Seq::<u8>::empty(),
        };
        assert(after_language =~= after_file + lang_bytes);
    }
    body
}

/// The audio of a body lies verbatim right after the head of the file part,
/// and the body ends with the closing boundary line.
pub proof fn law_multipart_framing(
    audio: Seq<u8>,
    boundary: Seq<char>,
    filename: Seq<char>,
    content_type: Seq<char>,
    language: Option<Seq<char>>,
)
    ensures
        ({
            let body = multipart_body(audio, boundary, filename, content_type, language);
            let h = encode_utf8(file_part_head(boundary, filename, content_type)).len();
            let c = encode_utf8(closing_boundary(boundary));
            &&& body.subrange(h as int, (h + audio.len()) as int) == audio
            &&& c.is_suffix_of(body)
            &&& body.take(h as int) == encode_utf8(file_part_head(boundary, filename, content_type))
        }),
{
    let body = multipart_body(audio, boundary, filename, content_type, language);
    let head = encode_utf8(file_part_head(boundary, filename, content_type));
    let lang = match language {
        Some(l) => encode_utf8(language_part(boundary, l)),
        None => Seq::<u8>::empty(),
    };
    let c = encode_utf8(closing_boundary(boundary));
    let rest = encode_utf8("\r\n"@) + lang + c;
    assert(body =~= head + audio + rest);
    assert(body.subrange(head.len() as int, (head.len() + audio.len()) as int) =~= audio);
    assert(body.take(head.len() as int) =~= head);
    assert(body.subrange(body.len() - c.len(), body.len() as int) =~= c);
}

proof fn lemma_encode_utf8_concat(a: Seq<char>, b: Seq<char>)
    ensures
        encode_utf8(a + b) == encode_utf8(a) + encode_utf8(b),
    decreases a.len(),
{
    if a.len() > 0 {
        assert((a + b).drop_first() =~= a.drop_first() + b);
        assert((a + b)[0] == a[0]);
        lemma_encode_utf8_concat(a.drop_first(), b);
        assert(encode_utf8(a + b) =~= encode_utf8(a) + encode_utf8(b));
    } else {
        assert(a + b =~= b);
        assert(encode_utf8(a) + encode_utf8(b) =~= encode_utf8(b));
    }
}

proof fn lemma_ascii_len(s: Seq<char>)
    requires
        vstd::utf8::is_ascii_chars(s),
    ensures
        encode_utf8(s).len() == s.len(),
{
    vstd::utf8::is_ascii_chars_encode_utf8(s);
}

proof fn lemma_head_len(boundary: Seq<char>, filename: Seq<char>, content_type: Seq<char>)
    ensures
        encode_utf8(file_part_head(boundary, filename, content_type)).len() == encode_utf8(boundary).len()
            + encode_utf8(filename).len() + encode_utf8(content_type).len() + 80,
{
    reveal_strlit("--");
    reveal_strlit("\r\n");
    reveal_strlit("Content-Disposition: form-data; name=\"file\"; filename=\"");
    reveal_strlit("\"\r\n");
    reveal_strlit("Content-Type: ");
    lemma_ascii_len("--"@);
    lemma_ascii_len("\r\n"@);
    lemma_ascii_len("Content-Disposition: form-data; name=\"file\"; filename=\""@);
    lemma_ascii_len("\"\r\n"@);
    lemma_ascii_len("Content-Type: "@);
    let p1 = "--"@ + boundary;
    let p2 = p1 + "\r\n"@;
    let p3 = p2 + "Content-Disposition: form-data; name=\"file\"; filename=\""@;
    let p4 = p3 + filename;
    let p5 = p4 + "\"\r\n"@;
    let p6 = p5 + "Content-Type: "@;
    let p7 = p6 + content_type;
    let p8 = p7 + "\r\n"@;
    lemma_encode_utf8_concat("--"@, boundary);
    lemma_encode_utf8_concat(p1, "\r\n"@);
    lemma_encode_utf8_concat(p2, "Content-Disposition: form-data; name=\"file\"; filename=\""@);
    lemma_encode_utf8_concat(p3, filename);
    lemma_encode_utf8_concat(p4, "\"\r\n"@);
    lemma_encode_utf8_concat(p5, "Content-Type: "@);
    lemma_encode_utf8_concat(p6, content_type);
    lemma_encode_utf8_concat(p7, "\r\n"@);
    lemma_encode_utf8_concat(p8, "\r\n"@);
}

proof fn lemma_language_part_len(boundary: Seq<char>, language: Seq<char>)
    ensures
        encode_utf8(language_part(boundary, language)).len() == encode_utf8(boundary).len()
            + encode_utf8(language).len() + 57,
{
    reveal_strlit("--");
    reveal_strlit("\r\n");
    reveal_strlit("Content-Disposition: form-data; name=\"language\"\r\n");
    lemma_ascii_len("--"@);
    lemma_ascii_len("\r\n"@);
    lemma_ascii_len("Content-Disposition: form-data; name=\"language\"\r\n"@);
    let p1 = "--"@ + boundary;
    let p2 = p1 + "\r\n"@;
    let p3 = p2 + "Content-Disposition: form-data; name=\"language\"\r\n"@;
    let p4 = p3 + "\r\n"@;
    let p5 = p4 + language;
    lemma_encode_utf8_concat("--"@, boundary);
    lemma_encode_utf8_concat(p1, "\r\n"@);
    lemma_encode_utf8_concat(p2, "Content-Disposition: form-data; name=\"language\"\r\n"@);
    lemma_encode_utf8_concat(p3, "\r\n"@);
    lemma_encode_utf8_concat(p4, language);
    lemma_encode_utf8_concat(p5, "\r\n"@);
}

proof fn lemma_closing_len(boundary: Seq<char>)
    ensures
        encode_utf8(closing_boundary(boundary)).len() == encode_utf8(boundary).len() + 6,
{
    reveal_strlit("--");
    reveal_strlit("--\r\n");
    lemma_ascii_len("--"@);
    lemma_ascii_len("--\r\n"@);
    lemma_encode_utf8_concat("--"@, boundary);
    lemma_encode_utf8_concat("--"@ + boundary, "--\r\n"@);
}

/// A language part goes just before the closing boundary line, and the
/// sizes are fixed apart from the texts: the body without a language part
/// has 88 bytes besides the audio, the boundary (twice), the file name and the
/// media type; a language part adds 57 bytes besides the boundary and the
/// language.
pub proof fn law_multipart_lengths(
    audio: Seq<u8>,
    boundary: Seq<char>,
    filename: Seq<char>,
    content_type: Seq<char>,
    language: Seq<char>,
)
    ensures
        ({
            let n = multipart_body(audio, boundary, filename, content_type, None);
            let s = multipart_body(audio, boundary, filename, content_type, Some(language));
            let k = encode_utf8(boundary).len() + 6;
            &&& s == n.take(n.len() - k) + encode_utf8(language_part(boundary, language)) + n.skip(
                n.len() - k,
            )
            &&& n.len() == audio.len() + 2 * encode_utf8(boundary).len() + encode_utf8(filename).len()
                + encode_utf8(content_type).len() + 88
            &&& s.len() == n.len() + encode_utf8(boundary).len() + encode_utf8(language).len() + 57
        }),
{
    reveal_strlit("\r\n");
    lemma_ascii_len("\r\n"@);
    lemma_head_len(boundary, filename, content_type);
    lemma_language_part_len(boundary, language);
    lemma_closing_len(boundary);
    let head = encode_utf8(file_part_head(boundary, filename, content_type));
    let lang = encode_utf8(language_part(boundary, language));
    let c = encode_utf8(closing_boundary(boundary));
    let crlf = encode_utf8("\r\n"@);
    let n = multipart_body(audio, boundary, filename, content_type, None);
    let s = multipart_body(audio, boundary, filename, content_type, Some(language));
    assert(n =~= head + audio + crlf + c);
    assert(s =~= head + audio + crlf + lang + c);
    assert(n.take(n.len() - c.len()) =~= head + audio + crlf);
    assert(n.skip(n.len() - c.len()) =~= c);
}

/// The little-endian bytes of a 16-bit sample: low byte first.
pub open spec fn sample_le_bytes(x: i16) -> Seq<u8> {
    seq![(x as u16 % 256) as u8, (x as u16 / 256) as u8]
}

/// The 16-bit sample that two little-endian bytes hold (`i16::from_le_bytes`).
pub open spec fn sample_from_le_bytes(lo: u8, hi: u8) -> i16 {
    (lo as u16 + hi as u16 * 256) as i16
}

/// Raw 16-bit little-endian PCM: each sample's two bytes, in order.
pub open spec fn pcm16_le(samples: Seq<i16>) -> Seq<u8> {
    Seq::new(
        2 * samples.len(),
        |i: int|
            if i % 2 == 0 {
                sample_le_bytes(samples[i / 2])[0]
            } else {
                sample_le_bytes(samples[i / 2])[1]
            },
    )
}

/// Raw 16-bit little-endian PCM: each sample's two bytes, in order.
pub fn pcm16_le_bytes(samples: &[i16]) -> (bytes: Vec<u8>)
    requires
        samples@.len() * 2 <= usize::MAX,
    ensures
        bytes@ == pcm16_le(samples@),
        bytes@.len() == 2 * samples@.len(),
        forall|i: int|
            0 <= i < samples@.len() ==> bytes@.subrange(2 * i, 2 * i + 2) == sample_le_bytes(
                #[trigger] samples@[i],
            ),
{
    let mut bytes: Vec<u8> = Vec::new();
    let mut i: usize = 0;
    while i < samples.len()
        invariant
            i <= samples@.len(),
            bytes@.len() == 2 * i,
            forall|k: int|
                0 <= k < i ==> bytes@.subrange(2 * k, 2 * k + 2) == sample_le_bytes(
                    #[trigger] samples@[k],
                ),
        decreases samples@.len() - i,
    {
        let u = samples[i] as u16;
        let ghost before = bytes@;
        bytes.push((u % 256) as u8);
        bytes.push((u / 256) as u8);
        assert forall|k: int| 0 <= k < i + 1 implies bytes@.subrange(2 * k, 2 * k + 2)
            == sample_le_bytes(#[trigger] samples@[k]) by {
            if k < i {
                assert(bytes@.subrange(2 * k, 2 * k + 2) =~= before.subrange(2 * k, 2 * k + 2));
            } else {
                assert(bytes@.subrange(2 * k, 2 * k + 2) =~= sample_le_bytes(samples@[k]));
            }
        }
        i += 1;
    }
    assert forall|j: int| 0 <= j < bytes@.len() implies bytes@[j] == #[trigger] pcm16_le(samples@)[j] by {
        let k = j / 2;
        assert(bytes@.subrange(2 * k, 2 * k + 2) == sample_le_bytes(samples@[k]));
        if j % 2 == 0 {
            assert(bytes@[j] == bytes@.subrange(2 * k, 2 * k + 2)[0]);
        } else {
            assert(bytes@[j] == bytes@.subrange(2 * k, 2 * k + 2)[1]);
        }
    }
    assert(bytes@ =~= pcm16_le(samples@));
    bytes
}

proof fn lemma_sample_round_trip(x: i16)
    ensures
        sample_from_le_bytes(sample_le_bytes(x)[0], sample_le_bytes(x)[1]) == x,
{
    let u = x as u16;
    assert(((u % 256) as u8 as u16 + (u / 256) as u8 as u16 * 256) as i16 == x) by (bit_vector)
        requires
            u == x as u16,
    ;
}

/// Reading the bytes back as little-endian samples gives the samples that were written.
pub proof fn law_pcm_round_trip(samples: Seq<i16>, bytes: Seq<u8>)
    requires
        bytes.len() == 2 * samples.len(),
        forall|i: int|
            0 <= i < samples.len() ==> bytes.subrange(2 * i, 2 * i + 2) == sample_le_bytes(
                #[trigger] samples[i],
            ),
    ensures
        forall|i: int|
            0 <= i < samples.len() ==> sample_from_le_bytes(bytes[2 * i], bytes[2 * i + 1])
                == #[trigger] samples[i],
{
    assert forall|i: int| 0 <= i < samples.len() implies sample_from_le_bytes(
        bytes[2 * i],
        bytes[2 * i + 1],
    ) == #[trigger] samples[i] by {
        lemma_sample_round_trip(samples[i]);
        assert(bytes.subrange(2 * i, 2 * i + 2)[0] == bytes[2 * i]);
        assert(bytes.subrange(2 * i, 2 * i + 2)[1] == bytes[2 * i + 1]);
    }
}


/// The four bytes of `x`, least significant first.
pub open spec fn le32(x: u32) -> Seq<u8> {
    seq![(x % 256) as u8, ((x / 256) % 256) as u8, ((x / 65536) % 256) as u8, (x / 16777216) as u8]
}

/// The two bytes of `x`, least significant first.
pub open spec fn le16(x: u16) -> Seq<u8> {
    seq![(x % 256) as u8, (x / 256) as u8]
}

/// The 44-byte header of a WAVE file of `num_samples` 16-bit mono integer
/// samples at `sample_rate`: the RIFF chunk, the PCM `fmt ` chunk and the
/// head of the `data` chunk.
pub open spec fn wav_header(num_samples: nat, sample_rate: u32) -> Seq<u8> {
    let data_len = (2 * num_samples) as u32;
    seq![0x52u8, 0x49, 0x46, 0x46] + le32((36 + 2 * num_samples) as u32) + seq![0x57u8, 0x41, 0x56, 0x45]
        + seq![0x66u8, 0x6d, 0x74, 0x20] + le32(16) + le16(1) + le16(1) + le32(sample_rate) + le32(
        (sample_rate * 2) as u32,
    ) + le16(2) + le16(16) + seq![0x64u8, 0x61, 0x74, 0x61] + le32(data_len)
}

/// The number that the four bytes of `b` from index `i` hold, least
/// significant first.
pub open spec fn le32_value(b: Seq<u8>, i: int) -> int {
    b[i] as int + 256 * (b[i + 1] as int) + 65536 * (b[i + 2] as int) + 16777216 * (b[i + 3] as int)
}

/// The number that the two bytes of `b` from index `i` hold, least
/// significant first.
pub open spec fn le16_value(b: Seq<u8>, i: int) -> int {
    b[i] as int + 256 * (b[i + 1] as int)
}

proof fn lemma_le32_value(x: u32)
    ensures
        le32(x).len() == 4,
        le32_value(le32(x), 0) == x,
{
    assert(x == (x % 256) + 256 * ((x / 256) % 256) + 65536 * ((x / 65536) % 256) + 16777216 * (x
        / 16777216)) by (bit_vector);
    assert(x / 16777216 < 256) by (bit_vector);
}

/// The header's numeric fields are the real figures of the recording: the
/// RIFF size is the file length less 8 (36 bytes of header after it plus two
/// bytes a sample), the data size is two bytes a sample, the rate is the
/// sample rate and the byte rate twice it, whatever the number of samples.
pub proof fn law_wav_header_sizes(num_samples: nat, sample_rate: u32)
    requires
        36 + 2 * num_samples <= u32::MAX,
        2 * sample_rate <= u32::MAX,
    ensures
        wav_header(num_samples, sample_rate).len() == 44,
        le32_value(wav_header(num_samples, sample_rate), 4) == 36 + 2 * num_samples,
        le32_value(wav_header(num_samples, sample_rate), 24) == sample_rate,
        le32_value(wav_header(num_samples, sample_rate), 28) == 2 * sample_rate,
        le32_value(wav_header(num_samples, sample_rate), 40) == 2 * num_samples,
        wav_header(num_samples, sample_rate).subrange(0, 4) == seq![0x52u8, 0x49, 0x46, 0x46],
        wav_header(num_samples, sample_rate).subrange(8, 16) == seq![0x57u8, 0x41, 0x56, 0x45, 0x66, 0x6d, 0x74, 0x20],
        wav_header(num_samples, sample_rate).subrange(36, 40) == seq![0x64u8, 0x61, 0x74, 0x61],
        le32_value(wav_header(num_samples, sample_rate), 16) == 16,
        le16_value(wav_header(num_samples, sample_rate), 20) == 1,
        le16_value(wav_header(num_samples, sample_rate), 22) == 1,
        le16_value(wav_header(num_samples, sample_rate), 32) == 2,
        le16_value(wav_header(num_samples, sample_rate), 34) == 16,
{
    let h = wav_header(num_samples, sample_rate);
    let riff = (36 + 2 * num_samples) as u32;
    let data = (2 * num_samples) as u32;
    let rate2 = (sample_rate * 2) as u32;
    lemma_le32_value(riff);
    lemma_le32_value(data);
    lemma_le32_value(sample_rate);
    lemma_le32_value(rate2);
    lemma_le32_value(16);
    assert(h.subrange(4, 8) =~= le32(riff));
    assert(h.subrange(24, 28) =~= le32(sample_rate));
    assert(h.subrange(28, 32) =~= le32(rate2));
    assert(h.subrange(40, 44) =~= le32(data));
    assert(le32_value(h, 4) == le32_value(h.subrange(4, 8), 0));
    assert(le32_value(h, 24) == le32_value(h.subrange(24, 28), 0));
    assert(le32_value(h, 28) == le32_value(h.subrange(28, 32), 0));
    assert(le32_value(h, 40) == le32_value(h.subrange(40, 44), 0));
    assert(h.subrange(16, 20) =~= le32(16));
    assert(le32_value(h, 16) == le32_value(h.subrange(16, 20), 0));
    assert(h.subrange(0, 4) =~= seq![0x52u8, 0x49, 0x46, 0x46]);
    assert(h.subrange(8, 16) =~= seq![0x57u8, 0x41, 0x56, 0x45, 0x66, 0x6d, 0x74, 0x20]);
    assert(h.subrange(36, 40) =~= seq![0x64u8, 0x61, 0x74, 0x61]);
}

/// A WAVE file of 16-bit mono integer PCM: the header, then the samples little-endian.
pub open spec fn wav_pcm16_mono(samples: Seq<i16>, sample_rate: u32) -> Seq<u8> {
    wav_header(samples.len(), sample_rate) + pcm16_le(samples)
}

fn push_le32(v: &mut Vec<u8>, x: u32)
    ensures
        final(v)@ == old(v)@ + le32(x),
{
    v.push((x % 256) as u8);
    v.push(((x / 256) % 256) as u8);
    v.push(((x / 65536) % 256) as u8);
    v.push((x / 16777216) as u8);
    assert(final(v)@ =~= old(v)@ + le32(x));
}

fn push_le16(v: &mut Vec<u8>, x: u16)
    ensures
        final(v)@ == old(v)@ + le16(x),
{
    v.push((x % 256) as u8);
    v.push((x / 256) as u8);
    assert(final(v)@ =~= old(v)@ + le16(x));
}

fn push_tag(v: &mut Vec<u8>, a: u8, b: u8, c: u8, d: u8)
    ensures
        final(v)@ == old(v)@ + seq![a, b, c, d],
{
    v.push(a);
    v.push(b);
    v.push(c);
    v.push(d);
    assert(final(v)@ =~= old(v)@ + seq![a, b, c, d]);
}

/// The WAVE file of 16-bit mono integer samples at `sample_rate`, as hound's
/// `WavWriter` writes it for that format. The sizes in the header must fit
/// 32 bits, and the rate must not be zero (the block alignment is the byte
/// rate divided by the sample rate).
pub fn encode_wav(samples: &[i16], sample_rate: u32) -> (wav: Vec<u8>)
    requires
        sample_rate > 0,
        36 + 2 * samples@.len() <= u32::MAX,
        2 * sample_rate <= u32::MAX,
    ensures
        wav@ == wav_pcm16_mono(samples@, sample_rate),
        wav@.len() == 44 + 2 * samples@.len(),
        le32_value(wav@, 4) == wav@.len() - 8,
        le32_value(wav@, 40) == wav@.len() - 44,
        le32_value(wav@, 40) == 2 * samples@.len(),
        le32_value(wav@, 24) == sample_rate,
{
    let n = samples.len();
    let data_len: u32 = (2 * n) as u32;
    let mut wav: Vec<u8> = Vec::new();
    push_tag(&mut wav, 0x52, 0x49, 0x46, 0x46);
    push_le32(&mut wav, 36 + data_len);
    push_tag(&mut wav, 0x57, 0x41, 0x56, 0x45);
    push_tag(&mut wav, 0x66, 0x6d, 0x74, 0x20);
    push_le32(&mut wav, 16);
    push_le16(&mut wav, 1);
    push_le16(&mut wav, 1);
    push_le32(&mut wav, sample_rate);
    push_le32(&mut wav, sample_rate * 2);
    push_le16(&mut wav, 2);
    push_le16(&mut wav, 16);
    push_tag(&mut wav, 0x64, 0x61, 0x74, 0x61);
    push_le32(&mut wav, data_len);
    assert(wav@ =~= wav_header(samples@.len(), sample_rate));
    let pcm = pcm16_le_bytes(samples);
    extend_bytes(&mut wav, pcm.as_slice());
    proof {
        law_wav_header_sizes(samples@.len(), sample_rate);
        let h = wav_header(samples@.len(), sample_rate);
        assert(wav@.subrange(0, 44) =~= h);
        assert(le32_value(wav@, 4) == le32_value(h, 4));
        assert(le32_value(wav@, 24) == le32_value(h, 24));
        assert(le32_value(wav@, 40) == le32_value(h, 40));
    }
    wav
}

/// The byte length at which an error body is cut for a message: at most 500 bytes.
pub open spec fn snippet_len(body: &str) -> int {
    if body.spec_bytes().len() < 500 {
        body.spec_bytes().len() as int
    } else {
        500
    }
}

/// The message for a failed HTTP exchange: what failed, the status as
/// displayed, and the first 500 bytes of the answer's body.
pub open spec fn failure_message(what: Seq<char>, status: Seq<char>, body: &str) -> Seq<char> {
    what + ": HTTP "@ + status + " — "@ + decode_utf8(body.spec_bytes().take(snippet_len(body)))
}

/// The message for a failed HTTP exchange. The body is cut after 500 bytes,
/// which must fall on a character boundary.
pub fn http_failure_message(what: &str, status: &str, body: &str) -> (msg: String)
    requires
        vstd::utf8::is_char_boundary(body.spec_bytes(), snippet_len(body)),
    ensures
        msg@ == failure_message(what@, status@, body),
{
    broadcast use vstd::utf8::encode_utf8_decode_utf8;

    let byte_len = body.as_bytes().len();
    let n: usize = if byte_len < 500 {
        byte_len
    } else {
        500
    };
    let (head, _) = body.split_at(n);
    let mut msg = what.to_string();
    msg.append(": HTTP ");
    msg.append(status);
    msg.append(" — ");
    msg.append(head);
    proof {
        assert(head@ == decode_utf8(encode_utf8(head@)));
        assert(head.spec_bytes() =~= body.spec_bytes().take(n as int));
    }
    msg
}

/// What follows an answer of the transcription endpoint.
#[derive(Debug)]
pub enum ResponseAction {
    /// Reload the credentials, get a valid token and send the request once more.
    RefreshAndRetry,
    /// Fail, with this description of what failed.
    Reject(String),
    /// Read the transcript from the body.
    Accept,
}

/// A `ResponseAction` as the contracts see it.
pub enum ActionModel {
    RefreshAndRetry,
    Reject(Seq<char>),
    Accept,
}

impl View for ResponseAction {
    type V = ActionModel;

    open spec fn view(&self) -> ActionModel {
        match self {
            ResponseAction::RefreshAndRetry => ActionModel::RefreshAndRetry,
            ResponseAction::Reject(w) => ActionModel::Reject(w@),
            ResponseAction::Accept => ActionModel::Accept,
        }
    }
}

/// Whether an HTTP status reports success.
pub open spec fn is_success(status: u16) -> bool {
    200 <= status < 300
}

/// What follows an answer with `status`; `is_retry` tells whether the request
/// already was the retry: a first 401 leads to one retry with a fresh token; a
/// success is accepted; anything else is rejected.
pub open spec fn transcribe_action(status: u16, is_retry: bool) -> ActionModel {
    if !is_retry && status == 401 {
        ActionModel::RefreshAndRetry
    } else if is_success(status) {
        ActionModel::Accept
    } else if is_retry {
        ActionModel::Reject("Transcription failed after retry"@)
    } else {
        ActionModel::Reject("Transcription failed"@)
    }
}

/// What follows an answer with `status`; `is_retry` tells whether the request
/// already was the retry.
pub fn response_action(status: u16, is_retry: bool) -> (a: ResponseAction)
    ensures
        a@ == transcribe_action(status, is_retry),
        a is RefreshAndRetry <==> !is_retry && status == 401,
        a is Accept <==> 200 <= status < 300,
{
    if !is_retry && status == 401 {
        ResponseAction::RefreshAndRetry
    } else if 200 <= status && status < 300 {
        ResponseAction::Accept
    } else if is_retry {
        ResponseAction::Reject("Transcription failed after retry".to_string())
    } else {
        ResponseAction::Reject("Transcription failed".to_string())
    }
}

/// On the first request only a 401 leads to a token refresh and a second
/// request; a success is accepted and any other status (a 403, a 429, a 500)
/// fails at once.
pub proof fn law_refresh_only_on_first_401(status: u16)
    ensures
        transcribe_action(status, false) is RefreshAndRetry <==> status == 401,
        200 <= status < 300 ==> transcribe_action(status, false) is Accept,
        !(200 <= status < 300) && status != 401 ==> transcribe_action(status, false) == ActionModel::Reject(
            "Transcription failed"@,
        ),
        !(200 <= status < 300) ==> transcribe_action(status, true) == ActionModel::Reject(
            "Transcription failed after retry"@,
        ),
{
}

/// A transcription sends at most two requests: the answer to a retry is
/// always accepted or rejected, never retried again.
pub proof fn law_single_retry(status: u16)
    ensures
        !(transcribe_action(status, true) is RefreshAndRetry),
        transcribe_action(status, true) is Accept <==> is_success(status),
{
}

/// The transcript in an accepted answer: its text without surrounding white space.
pub fn transcript_from_response(text: &str) -> (t: String)
    ensures
        t@ == trim_ws(text@),
{
    trim_str(text)
}

/// The rate at which audio is recorded for transcription, in samples per second.
pub const SAMPLE_RATE: u32 = 16000;

/// The name under which the recording is sent.
pub const AUDIO_FILENAME: &'static str = "codex.wav";

/// The media type of the recording.
pub const AUDIO_CONTENT_TYPE: &'static str = "audio/wav";

/// The transcription endpoint below an API base.
pub fn transcribe_url(api_base: &str) -> (url: String)
    ensures
        url@ == api_base@ + "/transcribe"@,
{
    let mut url = api_base.to_string();
    url.append("/transcribe");
    url
}

/// The `Content-Type` of a multipart body with `boundary`.
pub fn multipart_content_type(boundary: &str) -> (ct: String)
    ensures
        ct@ == "multipart/form-data; boundary="@ + boundary@,
{
    let mut ct = "multipart/form-data; boundary=".to_string();
    ct.append(boundary);
    ct
}

/// The lower-case hexadecimal digit for `n` (below 16).
pub open spec fn hex_digit(n: u8) -> char {
    seq!['0', '1', '2', '3', '4', '5', '6', '7', '8', '9', 'a', 'b', 'c', 'd', 'e', 'f'][n as int]
}

/// Each byte as two lower-case hexadecimal digits, high nibble first.
pub open spec fn hex_bytes(b: Seq<u8>) -> Seq<char>
    decreases b.len(),
{
    if b.len() == 0 {
        seq![]
    } else {
        seq![hex_digit(b[0] / 16), hex_digit(b[0] % 16)] + hex_bytes(b.drop_first())
    }
}

/// The bytes of a version 4 (random) UUID made from 16 random bytes: the
/// version nibble of byte 6 set to 4, the top bits of byte 8 set to `10`.
pub open spec fn uuid_v4_bytes(random: Seq<u8>) -> Seq<u8> {
    random.update(6, ((random[6] & 0x0f) | 0x40) as u8).update(8, ((random[8] & 0x3f) | 0x80) as u8)
}

/// The hyphenated lower-case text of the version 4 UUID made from `random`:
/// groups of 4, 2, 2, 2 and 6 bytes in hexadecimal, joined by `-`.
pub open spec fn uuid_v4_text(random: Seq<u8>) -> Seq<char> {
    let u = uuid_v4_bytes(random);
    hex_bytes(u.subrange(0, 4)) + seq!['-'] + hex_bytes(u.subrange(4, 6)) + seq!['-'] + hex_bytes(
        u.subrange(6, 8),
    ) + seq!['-'] + hex_bytes(u.subrange(8, 10)) + seq!['-'] + hex_bytes(u.subrange(10, 16))
}

/// Whether `c` is a lower-case hexadecimal digit.
pub open spec fn is_lower_hex(c: char) -> bool {
    ('0' <= c <= '9') || ('a' <= c <= 'f')
}

/// Whether `s` is the text of a version 4 UUID: 36 characters, hyphens at 8,
/// 13, 18 and 23, `4` at 14, one of `8 9 a b` at 19, lower-case hexadecimal
/// digits elsewhere.
pub open spec fn is_uuid_v4_text(s: Seq<char>) -> bool {
    &&& s.len() == 36
    &&& forall|i: int|
        0 <= i < 36 ==> if i == 8 || i == 13 || i == 18 || i == 23 {
            s[i] == '-'
        } else {
            is_lower_hex(#[trigger] s[i])
        }
    &&& s[14] == '4'
    &&& (s[19] == '8' || s[19] == '9' || s[19] == 'a' || s[19] == 'b')
}

/// `getrandom::Error`, carried through opaquely.
#[verifier::external_type_specification]
#[verifier::external_body]
pub struct ExRandomError(getrandom::Error);

/// 16 bytes from the operating system's random source (`getrandom::fill`).
/// Nothing is claimed of the bytes; a failure of the source is reported as
/// the error.
#[verifier::external_body]
fn os_random_16() -> (r: Result<[u8; 16], getrandom::Error>) {
    let mut bytes = [0u8; 16];
    getrandom::fill(&mut bytes)?;
    Ok(bytes)
}

/// The hyphenated text of the version 4 UUID built from `random`
/// (`uuid::Builder::from_random_bytes`, displayed). Claimed, from the
/// source: the version and variant bits are set as `uuid_v4_bytes` says and
/// the bytes are printed as lower-case hexadecimal in groups of 4-2-2-2-6.
#[verifier::external_body]
fn uuid_v4_hyphenated(random: [u8; 16]) -> (s: String)
    ensures
        s@ == uuid_v4_text(random@),
{
    uuid::Builder::from_random_bytes(random).into_uuid().hyphenated().to_string()
}

proof fn lemma_hex_bytes(b: Seq<u8>)
    ensures
        hex_bytes(b).len() == 2 * b.len(),
        forall|i: int| 0 <= i < hex_bytes(b).len() ==> is_lower_hex(#[trigger] hex_bytes(b)[i]),
        b.len() > 0 ==> hex_bytes(b)[0] == hex_digit(b[0] / 16),
    decreases b.len(),
{
    if b.len() > 0 {
        lemma_hex_bytes(b.drop_first());
        let head = seq![hex_digit(b[0] / 16), hex_digit(b[0] % 16)];
        let t = hex_bytes(b.drop_first());
        assert forall|i: int| 0 <= i < hex_bytes(b).len() implies is_lower_hex(#[trigger] hex_bytes(b)[i]) by {
            if i >= 2 {
                assert(hex_bytes(b)[i] == t[i - 2]);
            }
        }
    }
}

/// Every UUID text built from random bytes has the version 4 form.
pub proof fn law_uuid_v4_text_form(random: Seq<u8>)
    requires
        random.len() == 16,
    ensures
        is_uuid_v4_text(uuid_v4_text(random)),
{
    let u = uuid_v4_bytes(random);
    let g0 = u.subrange(0, 4);
    let g1 = u.subrange(4, 6);
    let g2 = u.subrange(6, 8);
    let g3 = u.subrange(8, 10);
    let g4 = u.subrange(10, 16);
    lemma_hex_bytes(g0);
    lemma_hex_bytes(g1);
    lemma_hex_bytes(g2);
    lemma_hex_bytes(g3);
    lemma_hex_bytes(g4);
    let s = uuid_v4_text(random);
    let b6 = random[6];
    let b8 = random[8];
    assert((((b6 & 0x0f) | 0x40) as u8) / 16 == 4) by (bit_vector);
    assert(8 <= (((b8 & 0x3f) | 0x80) as u8) / 16 <= 11) by (bit_vector);
    assert(g2[0] == ((b6 & 0x0f) | 0x40) as u8);
    assert(g3[0] == ((b8 & 0x3f) | 0x80) as u8);
    assert(s[14] == hex_bytes(g2)[0]);
    assert(s[19] == hex_bytes(g3)[0]);
    assert forall|i: int| 0 <= i < 36 implies if i == 8 || i == 13 || i == 18 || i == 23 {
        s[i] == '-'
    } else {
        is_lower_hex(#[trigger] s[i])
    } by {
        if i < 8 {
            assert(s[i] == hex_bytes(g0)[i]);
        } else if i == 8 {
        } else if i < 13 {
            assert(s[i] == hex_bytes(g1)[i - 9]);
        } else if i == 13 {
        } else if i < 18 {
            assert(s[i] == hex_bytes(g2)[i - 14]);
        } else if i == 18 {
        } else if i < 23 {
            assert(s[i] == hex_bytes(g3)[i - 19]);
        } else if i == 23 {
        } else {
            assert(s[i] == hex_bytes(g4)[i - 24]);
        }
    }
}

/// The prefix of every multipart boundary.
pub open spec fn boundary_prefix() -> Seq<char> {
    "----codex-transcribe-"@
}

/// The multipart boundary whose UUID is built from `random`.
pub fn boundary_from_random(random: [u8; 16]) -> (b: String)
    ensures
        b@ == boundary_prefix() + uuid_v4_text(random@),
{
    let u = uuid_v4_hyphenated(random);
    let mut b = "----codex-transcribe-".to_string();
    b.append(u.as_str());
    b
}

/// The operating system's random source could not deliver bytes.
#[derive(Debug)]
pub struct RandomnessUnavailable;

/// A fresh multipart boundary: a fixed prefix and a random version 4 UUID;
/// an error when the random source fails.
pub fn new_boundary() -> (r: Result<String, RandomnessUnavailable>)
    ensures
        r matches Ok(b) ==> exists|u: Seq<char>| is_uuid_v4_text(u) && b@ == boundary_prefix() + u,
{
    match os_random_16() {
        Ok(random) => {
            let b = boundary_from_random(random);
            proof {
                law_uuid_v4_text_form(random@);
            }
            Ok(b)
        },
        Err(_) => Err(RandomnessUnavailable),
    }
}

} // verus!
