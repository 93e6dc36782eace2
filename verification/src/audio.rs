//! Voice files and what speech recognition says of them.

use vstd::prelude::*;
use vstd::slice::{slice_subrange, slice_to_vec};

use crate::bytes::{
    find_subslice_prefix, first_occurrence, law_occurs_at, matches_at, occurs_at,
};
use crate::text::same_text;

verus! {

// ---------------------------------------------------------------------------
// Formats
// ---------------------------------------------------------------------------

/// The format of a voice file.
#[derive(Debug)]
pub enum AudioFormat {
    Silk,
    Amr,
    Wav,
    Mp3,
    M4a,
    Bin,
    /// What the message's source says the format is.
    Reported(String),
}

impl AudioFormat {
    /// The format's name.
    pub open spec fn name(self) -> Seq<char> {
        match self {
            AudioFormat::Silk => "silk"@,
            AudioFormat::Amr => "amr"@,
            AudioFormat::Wav => "wav"@,
            AudioFormat::Mp3 => "mp3"@,
            AudioFormat::M4a => "m4a"@,
            AudioFormat::Bin => "bin"@,
            AudioFormat::Reported(name) => name@,
        }
    }

    /// The format's name.
    pub fn as_str(&self) -> (name: &str)
        ensures
            name@ == self.name(),
    {
        match self {
            AudioFormat::Silk => "silk",
            AudioFormat::Amr => "amr",
            AudioFormat::Wav => "wav",
            AudioFormat::Mp3 => "mp3",
            AudioFormat::M4a => "m4a",
            AudioFormat::Bin => "bin",
            AudioFormat::Reported(name) => name.as_str(),
        }
    }
}

/// `#!SILK`.
pub open spec fn silk_header() -> Seq<u8> {
    seq![0x23u8, 0x21, 0x53, 0x49, 0x4c, 0x4b]
}

/// `#!AMR`.
pub open spec fn amr_header() -> Seq<u8> {
    seq![0x23u8, 0x21, 0x41, 0x4d, 0x52]
}

/// `RIFF`, and `WAVE` behind the length.
pub open spec fn is_wave(bytes: Seq<u8>) -> bool {
    occurs_at(bytes, seq![0x52u8, 0x49, 0x46, 0x46], 0) && occurs_at(
        bytes,
        seq![0x57u8, 0x41, 0x56, 0x45],
        8,
    )
}

/// A tag `ID3`, or the first bytes of an MPEG frame.
pub open spec fn is_mp3(bytes: Seq<u8>) -> bool {
    occurs_at(bytes, seq![0x49u8, 0x44, 0x33], 0) || occurs_at(bytes, seq![0xffu8, 0xfb], 0)
}

/// `ftyp` behind a length, in a file long enough to say which type it is.
pub open spec fn is_m4a(bytes: Seq<u8>) -> bool {
    bytes.len() >= 12 && occurs_at(bytes, seq![0x66u8, 0x74, 0x79, 0x70], 4)
}

/// The lowest position from `at` to 8 at which the header of SILK stands.
pub open spec fn silk_offset_from(bytes: Seq<u8>, at: int) -> Option<usize>
    decreases 9 - at,
{
    if at > 8 {
        None
    } else if occurs_at(bytes, silk_header(), at) {
        Some(at as usize)
    } else {
        silk_offset_from(bytes, at + 1)
    }
}

/// The position of the header of SILK, which may have up to 8 bytes before it.
pub open spec fn silk_offset(bytes: Seq<u8>) -> Option<usize> {
    silk_offset_from(bytes, 0)
}

proof fn lemma_silk_offset(bytes: Seq<u8>, from: int)
    requires
        0 <= from <= 9,
        forall|j: int| 0 <= j < from ==> !#[trigger] occurs_at(bytes, silk_header(), j),
    ensures
        match silk_offset_from(bytes, from) {
            Some(at) => at <= 8 && first_occurrence(bytes, silk_header(), at as int),
            None => forall|j: int| j <= 8 ==> !#[trigger] occurs_at(bytes, silk_header(), j),
        },
    decreases 9 - from,
{
    if from <= 8 && !occurs_at(bytes, silk_header(), from) {
        lemma_silk_offset(bytes, from + 1);
    }
}

/// The header of SILK is found exactly where it first stands, if that is not
/// behind the first 8 bytes.
pub proof fn law_silk_offset(bytes: Seq<u8>, at: usize)
    ensures
        silk_offset(bytes) == Some(at) <==> at <= 8 && first_occurrence(
            bytes,
            silk_header(),
            at as int,
        ),
{
    lemma_silk_offset(bytes, 0);
    if let Some(found) = silk_offset(bytes) {
        if at <= 8 && first_occurrence(bytes, silk_header(), at as int) {
            assert(!(found < at));
            assert(!(at < found));
        }
    }
}

/// The format that a file's extension stands for.
pub open spec fn format_of_extension(extension: Seq<char>) -> AudioFormat {
    if extension == "amr"@ {
        AudioFormat::Amr
    } else if extension == "wav"@ {
        AudioFormat::Wav
    } else if extension == "m4a"@ {
        AudioFormat::M4a
    } else if extension == "mp3"@ {
        AudioFormat::Mp3
    } else if extension == "silk"@ || extension == "slk"@ {
        AudioFormat::Silk
    } else {
        AudioFormat::Bin
    }
}

/// A source's word for a format that says something.
pub open spec fn is_telling(reported: Seq<char>) -> bool {
    reported.len() > 0 && reported != "bin"@ && reported != "dat"@
}

/// The format of a file: what its bytes show, else what its source says, else
/// what its extension stands for.
pub open spec fn audio_format(
    reported: Option<String>,
    bytes: Seq<u8>,
    extension: Seq<char>,
) -> AudioFormat {
    if silk_offset(bytes) is Some {
        AudioFormat::Silk
    } else if occurs_at(bytes, amr_header(), 0) {
        AudioFormat::Amr
    } else if is_wave(bytes) {
        AudioFormat::Wav
    } else if is_mp3(bytes) {
        AudioFormat::Mp3
    } else if is_m4a(bytes) {
        AudioFormat::M4a
    } else {
        match reported {
            Some(name) if is_telling(name@) => AudioFormat::Reported(name),
            _ => format_of_extension(extension),
        }
    }
}

/// Finds the header of SILK.
pub fn find_silk_header(bytes: &[u8]) -> (offset: Option<usize>)
    ensures
        offset == silk_offset(bytes@),
{
    let header: [u8; 6] = [0x23, 0x21, 0x53, 0x49, 0x4c, 0x4b];
    assert(header@ =~= silk_header());
    let found = find_subslice_prefix(bytes, header.as_slice(), 8);
    proof {
        lemma_silk_offset(bytes@, 0);
        if let Some(at) = found {
            law_silk_offset(bytes@, at);
        }
    }
    found
}

/// Takes the format that an extension stands for.
fn extension_format(extension: &str) -> (format: AudioFormat)
    ensures
        format == format_of_extension(extension@),
{
    if same_text(extension, "amr") {
        AudioFormat::Amr
    } else if same_text(extension, "wav") {
        AudioFormat::Wav
    } else if same_text(extension, "m4a") {
        AudioFormat::M4a
    } else if same_text(extension, "mp3") {
        AudioFormat::Mp3
    } else if same_text(extension, "silk") || same_text(extension, "slk") {
        AudioFormat::Silk
    } else {
        AudioFormat::Bin
    }
}

/// Tells the format of a file.
pub fn detect_audio_format(reported: Option<String>, bytes: &[u8], extension: &str) -> (format:
    AudioFormat)
    ensures
        format == audio_format(reported, bytes@, extension@),
{
    let amr: [u8; 5] = [0x23, 0x21, 0x41, 0x4d, 0x52];
    let riff: [u8; 4] = [0x52, 0x49, 0x46, 0x46];
    let wave: [u8; 4] = [0x57, 0x41, 0x56, 0x45];
    let id3: [u8; 3] = [0x49, 0x44, 0x33];
    let frame: [u8; 2] = [0xff, 0xfb];
    let ftyp: [u8; 4] = [0x66, 0x74, 0x79, 0x70];
    assert(amr@ =~= amr_header());
    assert(riff@ =~= seq![0x52u8, 0x49, 0x46, 0x46]);
    assert(wave@ =~= seq![0x57u8, 0x41, 0x56, 0x45]);
    assert(id3@ =~= seq![0x49u8, 0x44, 0x33]);
    assert(frame@ =~= seq![0xffu8, 0xfb]);
    assert(ftyp@ =~= seq![0x66u8, 0x74, 0x79, 0x70]);
    if find_silk_header(bytes).is_some() {
        return AudioFormat::Silk;
    }
    if matches_at(bytes, amr.as_slice(), 0) {
        return AudioFormat::Amr;
    }
    if matches_at(bytes, riff.as_slice(), 0) && matches_at(bytes, wave.as_slice(), 8) {
        return AudioFormat::Wav;
    }
    if matches_at(bytes, id3.as_slice(), 0) || matches_at(bytes, frame.as_slice(), 0) {
        return AudioFormat::Mp3;
    }
    if bytes.len() >= 12 && matches_at(bytes, ftyp.as_slice(), 4) {
        return AudioFormat::M4a;
    }
    if let Some(name) = reported {
        let empty = name.as_str().unicode_len() == 0;
        if !empty && !same_text(name.as_str(), "bin") && !same_text(name.as_str(), "dat") {
            return AudioFormat::Reported(name);
        }
    }
    extension_format(extension)
}

/// Takes from a voice file what a SILK decoder reads: everything from the header
/// on. Nothing where there is no header.
pub fn write_normalized_silk(bytes: &[u8]) -> (silk: Option<(usize, Vec<u8>)>)
    ensures
        match silk {
            Some((offset, silk)) => {
                &&& silk_offset(bytes@) == Some(offset)
                &&& silk@ == bytes@.skip(offset as int)
            },
            None => silk_offset(bytes@) is None,
        },
{
    match find_silk_header(bytes) {
        Some(offset) => {
            proof {
                law_silk_offset(bytes@, offset);
            }
            let silk = slice_to_vec(slice_subrange(bytes, offset, bytes.len()));
            assert(silk@ =~= bytes@.skip(offset as int));
            Some((offset, silk))
        },
        None => None,
    }
}

/// What a SILK decoder is given starts with the header.
pub proof fn law_normalized_silk_starts_with_the_header(bytes: Seq<u8>, offset: usize)
    requires
        silk_offset(bytes) == Some(offset),
    ensures
        silk_header().is_prefix_of(bytes.skip(offset as int)),
        silk_offset(bytes.skip(offset as int)) == Some(0usize),
{
    law_silk_offset(bytes, offset);
    let silk = bytes.skip(offset as int);
    assert(silk.subrange(0, 6) =~= bytes.subrange(offset as int, offset + 6));
    assert(occurs_at(silk, silk_header(), 0));
}

// ---------------------------------------------------------------------------
// What the bytes show
// ---------------------------------------------------------------------------

/// The header of SILK is seen behind any bytes, of which there may be 8 at most,
/// whatever stands behind it; and what a decoder is given is everything from there
/// on.
pub proof fn law_silk_is_seen(
    before: Seq<u8>,
    behind: Seq<u8>,
    reported: Option<String>,
    extension: Seq<char>,
)
    requires
        before.len() <= 8,
    ensures
        ({
            let bytes = before + seq![0x23u8, 0x21, 0x53, 0x49, 0x4c, 0x4b] + behind;
            &&& silk_offset(bytes) matches Some(at) && at <= before.len() && occurs_at(
                bytes,
                seq![0x23u8, 0x21, 0x53, 0x49, 0x4c, 0x4b],
                at as int,
            )
            &&& audio_format(reported, bytes, extension) == AudioFormat::Silk
        }),
{
    let bytes = before + seq![0x23u8, 0x21, 0x53, 0x49, 0x4c, 0x4b] + behind;
    let at = before.len() as int;
    assert(silk_header() =~= seq![0x23u8, 0x21, 0x53, 0x49, 0x4c, 0x4b]);
    assert(bytes.subrange(at, at + 6) =~= silk_header());
    assert(occurs_at(bytes, silk_header(), at));
    lemma_silk_offset(bytes, 0);
}

/// Without the header of SILK in its first bytes, a file that starts with the
/// header of AMR is AMR; one with `RIFF` and, behind four bytes, `WAVE` is a WAV
/// file, whatever its length says; one with `ID3` or an MPEG frame is MP3; and one
/// with `ftyp` behind four bytes is M4A. What its source says does not count then.
pub proof fn law_formats_are_seen(
    bytes: Seq<u8>,
    reported: Option<String>,
    extension: Seq<char>,
)
    requires
        silk_offset(bytes) is None,
    ensures
        bytes.len() >= 5 && bytes[0] == 0x23 && bytes[1] == 0x21 && bytes[2] == 0x41 && bytes[3]
            == 0x4d && bytes[4] == 0x52 ==> audio_format(reported, bytes, extension)
            == AudioFormat::Amr,
        bytes.len() >= 12 && bytes[0] == 0x52 && bytes[1] == 0x49 && bytes[2] == 0x46 && bytes[3]
            == 0x46 && bytes[8] == 0x57 && bytes[9] == 0x41 && bytes[10] == 0x56 && bytes[11]
            == 0x45 ==> audio_format(reported, bytes, extension) == AudioFormat::Wav,
        bytes.len() >= 3 && bytes[0] == 0x49 && bytes[1] == 0x44 && bytes[2] == 0x33
            ==> audio_format(reported, bytes, extension) == AudioFormat::Mp3,
        bytes.len() >= 2 && bytes[0] == 0xff && bytes[1] == 0xfb ==> audio_format(
            reported,
            bytes,
            extension,
        ) == AudioFormat::Mp3,
        bytes.len() >= 12 && bytes[0] == 0 && bytes[4] == 0x66 && bytes[5] == 0x74 && bytes[6]
            == 0x79 && bytes[7] == 0x70 ==> audio_format(reported, bytes, extension)
            == AudioFormat::M4a,
{
    law_occurs_at(bytes, amr_header(), 0);
    law_occurs_at(bytes, seq![0x52u8, 0x49, 0x46, 0x46], 0);
    law_occurs_at(bytes, seq![0x57u8, 0x41, 0x56, 0x45], 8);
    law_occurs_at(bytes, seq![0x49u8, 0x44, 0x33], 0);
    law_occurs_at(bytes, seq![0xffu8, 0xfb], 0);
    law_occurs_at(bytes, seq![0x66u8, 0x74, 0x79, 0x70], 4);
    assert(occurs_at(bytes, amr_header(), 0) ==> bytes[0] == amr_header()[0]);
    let riff = seq![0x52u8, 0x49, 0x46, 0x46];
    assert(occurs_at(bytes, riff, 0) ==> bytes[0] == riff[0]);
    let id3 = seq![0x49u8, 0x44, 0x33];
    assert(occurs_at(bytes, id3, 0) ==> bytes[0] == id3[0]);
    let frame = seq![0xffu8, 0xfb];
    assert(occurs_at(bytes, frame, 0) ==> bytes[0] == frame[0]);
}

/// A format is claimed on the bytes' account only where they show it.
pub proof fn law_formats_are_shown(
    bytes: Seq<u8>,
    reported: Option<String>,
    extension: Seq<char>,
)
    requires
        extension == "aud"@,
        !(audio_format(reported, bytes, extension) is Reported),
        !(audio_format(reported, bytes, extension) is Bin),
    ensures
        audio_format(reported, bytes, extension) is Silk ==> exists|at: int|
            0 <= at <= 8 && #[trigger] occurs_at(bytes, silk_header(), at),
        audio_format(reported, bytes, extension) is Amr ==> bytes.len() >= 5 && bytes[0] == 0x23
            && bytes[1] == 0x21 && bytes[2] == 0x41 && bytes[3] == 0x4d && bytes[4] == 0x52,
        audio_format(reported, bytes, extension) is Wav ==> bytes.len() >= 12 && bytes[0] == 0x52
            && bytes[1] == 0x49 && bytes[2] == 0x46 && bytes[3] == 0x46 && bytes[8] == 0x57
            && bytes[9] == 0x41 && bytes[10] == 0x56 && bytes[11] == 0x45,
        audio_format(reported, bytes, extension) is Mp3 ==> bytes.len() >= 2 && (bytes[0] == 0xff
            && bytes[1] == 0xfb || bytes.len() >= 3 && bytes[0] == 0x49 && bytes[1] == 0x44
            && bytes[2] == 0x33),
        audio_format(reported, bytes, extension) is M4a ==> bytes.len() >= 12 && bytes[4] == 0x66
            && bytes[5] == 0x74 && bytes[6] == 0x79 && bytes[7] == 0x70,
{
    reveal_strlit("aud");
    reveal_strlit("amr");
    reveal_strlit("wav");
    reveal_strlit("m4a");
    reveal_strlit("mp3");
    reveal_strlit("silk");
    reveal_strlit("slk");
    assert("aud"@[1] == 'u' && "amr"@[1] == 'm' && "wav"@[1] == 'a' && "m4a"@[1] == '4'
        && "mp3"@[1] == 'p' && "slk"@[1] == 'l' && "silk"@.len() == 4 && "aud"@.len() == 3);
    lemma_silk_offset(bytes, 0);
    law_occurs_at(bytes, amr_header(), 0);
    law_occurs_at(bytes, seq![0x52u8, 0x49, 0x46, 0x46], 0);
    law_occurs_at(bytes, seq![0x57u8, 0x41, 0x56, 0x45], 8);
    law_occurs_at(bytes, seq![0x49u8, 0x44, 0x33], 0);
    law_occurs_at(bytes, seq![0xffu8, 0xfb], 0);
    law_occurs_at(bytes, seq![0x66u8, 0x74, 0x79, 0x70], 4);
    lemma_heads(bytes);
}

proof fn lemma_heads(bytes: Seq<u8>)
    ensures
        occurs_at(bytes, amr_header(), 0) ==> bytes.len() >= 5 && bytes[0] == 0x23 && bytes[1]
            == 0x21 && bytes[2] == 0x41 && bytes[3] == 0x4d && bytes[4] == 0x52,
        is_wave(bytes) ==> bytes.len() >= 12 && bytes[0] == 0x52 && bytes[1] == 0x49 && bytes[2]
            == 0x46 && bytes[3] == 0x46 && bytes[8] == 0x57 && bytes[9] == 0x41 && bytes[10]
            == 0x56 && bytes[11] == 0x45,
        is_mp3(bytes) ==> bytes.len() >= 2 && (bytes[0] == 0xff && bytes[1] == 0xfb || bytes.len()
            >= 3 && bytes[0] == 0x49 && bytes[1] == 0x44 && bytes[2] == 0x33),
        is_m4a(bytes) ==> bytes.len() >= 12 && bytes[4] == 0x66 && bytes[5] == 0x74 && bytes[6]
            == 0x79 && bytes[7] == 0x70,
{
    if occurs_at(bytes, amr_header(), 0) {
        let there = bytes.subrange(0, 5);
        assert(there[0] == amr_header()[0] && there[1] == amr_header()[1] && there[2]
            == amr_header()[2] && there[3] == amr_header()[3] && there[4] == amr_header()[4]);
    }
    if is_wave(bytes) {
        let riff = bytes.subrange(0, 4);
        let wave = bytes.subrange(8, 12);
        assert(riff[0] == 0x52 && riff[1] == 0x49 && riff[2] == 0x46 && riff[3] == 0x46);
        assert(wave[0] == 0x57 && wave[1] == 0x41 && wave[2] == 0x56 && wave[3] == 0x45);
    }
    if occurs_at(bytes, seq![0x49u8, 0x44, 0x33], 0) {
        let id3 = bytes.subrange(0, 3);
        assert(id3[0] == 0x49 && id3[1] == 0x44 && id3[2] == 0x33);
    }
    if occurs_at(bytes, seq![0xffu8, 0xfb], 0) {
        let frame = bytes.subrange(0, 2);
        assert(frame[0] == 0xff && frame[1] == 0xfb);
    }
    if is_m4a(bytes) {
        let ftyp = bytes.subrange(4, 8);
        assert(ftyp[0] == 0x66 && ftyp[1] == 0x74 && ftyp[2] == 0x79 && ftyp[3] == 0x70);
    }
}

/// Where the bytes show nothing, a source's word is taken as it is, unless it says
/// nothing, and else the file's extension counts.
pub proof fn law_reported_format(bytes: Seq<u8>, reported: Option<String>, extension: Seq<char>)
    requires
        silk_offset(bytes) is None,
        !occurs_at(bytes, amr_header(), 0),
        !is_wave(bytes),
        !is_mp3(bytes),
        !is_m4a(bytes),
    ensures
        reported is Some && reported->0@.len() > 0 && reported->0@ != "bin"@ && reported->0@
            != "dat"@ ==> audio_format(reported, bytes, extension).name() == reported->0@,
        (reported is None || reported->0@.len() == 0 || reported->0@ == "bin"@ || reported->0@
            == "dat"@) ==> audio_format(reported, bytes, extension).name() == (if extension
            == "slk"@ {
            "silk"@
        } else if extension == "amr"@ || extension == "wav"@ || extension == "m4a"@ || extension
            == "mp3"@ || extension == "silk"@ {
            extension
        } else {
            "bin"@
        }),
{
    reveal_strlit("amr");
    reveal_strlit("wav");
    reveal_strlit("m4a");
    reveal_strlit("mp3");
    reveal_strlit("silk");
    reveal_strlit("slk");
    assert("amr"@[0] == 'a' && "wav"@[0] == 'w' && "m4a"@[1] == '4' && "mp3"@[1] == 'p'
        && "slk"@[0] == 's' && "silk"@.len() == 4 && "slk"@.len() == 3 && "m4a"@[0] == 'm'
        && "mp3"@[0] == 'm');
}

/// Each format that the bytes show has its own name, and one that a source names
/// keeps that name.
pub proof fn law_format_names(word: String)
    ensures
        AudioFormat::Silk.name() == "silk"@,
        AudioFormat::Amr.name() == "amr"@,
        AudioFormat::Wav.name() == "wav"@,
        AudioFormat::Mp3.name() == "mp3"@,
        AudioFormat::M4a.name() == "m4a"@,
        AudioFormat::Bin.name() == "bin"@,
        AudioFormat::Reported(word).name() == word@,
{
}

} // verus!
