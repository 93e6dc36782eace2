//! The WXGF image container.
//!
//! A container starts with the letters `wxgf`; its fifth byte is the length of
//! its header. Behind the header lie HEVC bitstreams in Annex B form, each with
//! its length, in four bytes and big-endian, right before its start code.

use vstd::prelude::*;
use vstd::slice::{slice_subrange, slice_to_vec};

use crate::bytes::{
    be_bytes, be_u32, law_be_bytes, law_be_u32, matches_at, occurs_at, read_be_u32,
};
use crate::command::{args_view, text_arg, Arg, ArgView, FileSlot};
use crate::text::{
    chars_of, decimal, decimal_text, law_numbered_names_differ, lossy_text, string_of, trim,
    trimmed, utf8_lossy,
};

verus! {

/// A bitstream inside a container.
#[derive(Debug, Clone, Copy, PartialEq, Eq, Structural)]
pub struct WxgfPartition {
    pub offset: usize,
    /// Partition byte length, including the HEVC start code at `offset`.
    pub size: usize,
    /// Byte length of the container, of which the partition takes the share
    /// `size / container_len`.
    pub container_len: usize,
}

/// Why a container gives no picture.
#[derive(Debug, PartialEq, Eq)]
pub enum WxgfError {
    /// The data is too short, or does not start with the container's letters.
    InvalidContainer,
    /// The header is said to be as long as the data, or longer.
    InvalidHeaderLength(usize),
    /// No start code with a usable length was found.
    NoPartition,
    /// ffmpeg reported a failure, with these words.
    FfmpegFailed(String),
    /// ffmpeg reported success and wrote nothing.
    EmptyOutput,
}

impl WxgfError {
    /// The words for an error.
    pub open spec fn words(self) -> Seq<char> {
        match self {
            WxgfError::InvalidContainer => "invalid WXGF image container"@,
            WxgfError::InvalidHeaderLength(n) => "invalid WXGF header length "@ + decimal(n as nat),
            WxgfError::NoPartition => "WXGF image has no valid HEVC partition"@,
            WxgfError::FfmpegFailed(stderr) => "ffmpeg 转码 WXGF/HEVC 失败："@ + stderr@,
            WxgfError::EmptyOutput => "ffmpeg 转码 WXGF/HEVC 成功但没有输出 JPEG 数据"@,
        }
    }

    /// Says what went wrong.
    pub fn message(&self) -> (message: String)
        ensures
            message@ == self.words(),
    {
        match self {
            WxgfError::InvalidContainer => "invalid WXGF image container".to_owned(),
            WxgfError::InvalidHeaderLength(n) => {
                let mut message = "invalid WXGF header length ".to_owned();
                message.append(decimal_text(*n as u128).as_str());
                message
            },
            WxgfError::NoPartition => "WXGF image has no valid HEVC partition".to_owned(),
            WxgfError::FfmpegFailed(stderr) => {
                let mut message = "ffmpeg 转码 WXGF/HEVC 失败：".to_owned();
                message.append(stderr.as_str());
                message
            },
            WxgfError::EmptyOutput => "ffmpeg 转码 WXGF/HEVC 成功但没有输出 JPEG 数据".to_owned(),
        }
    }
}

// ---------------------------------------------------------------------------
// The format
// ---------------------------------------------------------------------------

/// The letters `wxgf`.
pub open spec fn magic() -> Seq<u8> {
    seq![0x77u8, 0x78, 0x67, 0x66]
}

/// The start code that is looked for first.
pub open spec fn long_start_code() -> Seq<u8> {
    seq![0u8, 0, 0, 1]
}

/// The start code that is looked for where the long one gives nothing.
pub open spec fn short_start_code() -> Seq<u8> {
    seq![0u8, 0, 1]
}

/// Is the data long enough for a container, and does it start like one?
pub open spec fn is_container(data: Seq<u8>) -> bool {
    data.len() >= 15 && data.subrange(0, 4) == magic()
}

/// A partition starts at `at`: the start code stands there, and the length
/// before it counts the start code and stays inside the data.
pub open spec fn partition_at(data: Seq<u8>, code: Seq<u8>, at: int) -> bool {
    &&& occurs_at(data, code, at)
    &&& at >= 4
    &&& 0 < code.len() <= be_u32(data, at - 4)
    &&& at + be_u32(data, at - 4) <= data.len()
}

/// The partitions from `from` on, in order, as pairs of offset and size. A
/// partition is not searched for others.
pub open spec fn partitions(data: Seq<u8>, code: Seq<u8>, from: int) -> Seq<(int, int)>
    decreases data.len() - from,
{
    if from < 0 || from >= data.len() {
        Seq::empty()
    } else if partition_at(data, code, from) {
        let size = be_u32(data, from - 4);
        seq![(from, size)] + partitions(data, code, from + size)
    } else {
        partitions(data, code, from + 1)
    }
}

/// The partitions that count: those of the long start code, or, if there is
/// none, those of the short one.
pub open spec fn container_partitions(data: Seq<u8>) -> Seq<(int, int)> {
    let long = partitions(data, long_start_code(), data[4] as int);
    if long.len() > 0 {
        long
    } else {
        partitions(data, short_start_code(), data[4] as int)
    }
}

/// `(offset, size)` is the largest of `parts`; of several largest, the last.
pub open spec fn is_last_largest(parts: Seq<(int, int)>, offset: int, size: int) -> bool {
    exists|k: int|
        {
            &&& 0 <= k < parts.len()
            &&& #[trigger] parts[k] == (offset, size)
            &&& forall|j: int| 0 <= j < parts.len() ==> (#[trigger] parts[j]).1 <= size
            &&& forall|j: int| k < j < parts.len() ==> (#[trigger] parts[j]).1 < size
        }
}

/// Every one of `parts` is a partition of its stated size at or behind `from`,
/// and ends before the next begins.
pub open spec fn laid_out(
    data: Seq<u8>,
    code: Seq<u8>,
    from: int,
    parts: Seq<(int, int)>,
) -> bool {
    &&& forall|i: int|
        0 <= i < parts.len() ==> {
            let part = #[trigger] parts[i];
            &&& from <= part.0
            &&& partition_at(data, code, part.0)
            &&& part.1 == be_u32(data, part.0 - 4)
        }
    &&& forall|i: int, j: int|
        0 <= i < j < parts.len() ==> (#[trigger] parts[i]).0 + parts[i].1 <= (
        #[trigger] parts[j]).0
}

/// The listed partitions are partitions, in order, and do not overlap.
pub proof fn law_partitions_are_disjoint(data: Seq<u8>, code: Seq<u8>, from: int)
    requires
        0 <= from,
    ensures
        laid_out(data, code, from, partitions(data, code, from)),
    decreases data.len() - from,
{
    let parts = partitions(data, code, from);
    if from < data.len() {
        if partition_at(data, code, from) {
            let size = be_u32(data, from - 4);
            law_partitions_are_disjoint(data, code, from + size);
            let rest = partitions(data, code, from + size);
            assert(parts == seq![(from, size)] + rest);
            assert forall|i: int| 0 <= i < parts.len() implies {
                let part = #[trigger] parts[i];
                &&& from <= part.0
                &&& partition_at(data, code, part.0)
                &&& part.1 == be_u32(data, part.0 - 4)
            } by {
                if i > 0 {
                    assert(parts[i] == rest[i - 1]);
                }
            }
            assert forall|i: int, j: int| 0 <= i < j < parts.len() implies (#[trigger] parts[i]).0
                + parts[i].1 <= (#[trigger] parts[j]).0 by {
                assert(parts[j] == rest[j - 1]);
                if i > 0 {
                    assert(parts[i] == rest[i - 1]);
                }
            }
        } else {
            law_partitions_are_disjoint(data, code, from + 1);
        }
    }
}

/// No partition is missed: wherever one starts, a listed one covers the place.
pub proof fn law_partitions_miss_nothing(data: Seq<u8>, code: Seq<u8>, from: int, at: int)
    requires
        0 <= from <= at,
        partition_at(data, code, at),
    ensures
        exists|i: int|
            0 <= i < partitions(data, code, from).len() && (#[trigger] partitions(
                data,
                code,
                from,
            )[i]).0 <= at < partitions(data, code, from)[i].0 + partitions(data, code, from)[i].1,
    decreases data.len() - from,
{
    let parts = partitions(data, code, from);
    if partition_at(data, code, from) {
        let size = be_u32(data, from - 4);
        if at < from + size {
            assert(parts[0] == (from, size));
        } else {
            law_partitions_miss_nothing(data, code, from + size, at);
            let rest = partitions(data, code, from + size);
            let i = choose|i: int|
                0 <= i < rest.len() && (#[trigger] rest[i]).0 <= at < rest[i].0 + rest[i].1;
            assert(parts[i + 1] == rest[i]);
        }
    } else {
        law_partitions_miss_nothing(data, code, from + 1, at);
    }
}

/// Bytes start with one of the start codes.
pub open spec fn starts_with_a_code(bytes: Seq<u8>) -> bool {
    long_start_code().is_prefix_of(bytes) || short_start_code().is_prefix_of(bytes)
}

/// The bytes of a listed partition start with its start code.
pub proof fn law_partitions_hold_their_code(data: Seq<u8>, code: Seq<u8>, from: int, i: int)
    requires
        0 <= from,
        0 <= i < partitions(data, code, from).len(),
    ensures
        ({
            let part = partitions(data, code, from)[i];
            &&& 0 <= part.0 <= part.0 + part.1 <= data.len()
            &&& code.is_prefix_of(data.subrange(part.0, part.0 + part.1))
        }),
{
    law_partitions_are_disjoint(data, code, from);
    let parts = partitions(data, code, from);
    let part = parts[i];
    assert(partition_at(data, code, part.0));
    let bytes = data.subrange(part.0, part.0 + part.1);
    assert(bytes.subrange(0, code.len() as int) =~= data.subrange(part.0, part.0 + code.len()));
}

/// The size of the partition that starts at `at`, if one does.
fn partition_size(data: &[u8], code: &[u8], at: usize) -> (size: Option<usize>)
    ensures
        match size {
            Some(n) => partition_at(data@, code@, at as int) && n == be_u32(data@, at - 4),
            None => !partition_at(data@, code@, at as int),
        },
{
    if at < 4 || !matches_at(data, code, at) {
        return None;
    }
    let size: usize = read_be_u32(data, at - 4) as usize;
    if code.len() > 0 && size >= code.len() && size <= data.len() - at {
        Some(size)
    } else {
        None
    }
}

/// Lists the partitions from `from` on.
fn scan(data: &[u8], code: &[u8], from: usize) -> (parts: Vec<(usize, usize)>)
    requires
        from <= data@.len(),
    ensures
        parts@.map_values(|p: (usize, usize)| (p.0 as int, p.1 as int)) == partitions(
            data@,
            code@,
            from as int,
        ),
{
    let mut parts: Vec<(usize, usize)> = Vec::new();
    let mut at: usize = from;
    let ghost f = |p: (usize, usize)| (p.0 as int, p.1 as int);
    assert(parts@.map_values(f) =~= Seq::<(int, int)>::empty());
    while at < data.len()
        invariant
            at <= data@.len(),
            f == (|p: (usize, usize)| (p.0 as int, p.1 as int)),
            parts@.map_values(f) + partitions(data@, code@, at as int) =~= partitions(
                data@,
                code@,
                from as int,
            ),
        decreases data@.len() - at,
    {
        match partition_size(data, code, at) {
            Some(size) => {
                let ghost before = parts@.map_values(f);
                parts.push((at, size));
                assert(parts@.map_values(f) =~= before.push((at as int, size as int)));
                at += size;
            },
            None => {
                at += 1;
            },
        }
    }
    parts
}

/// The last of the largest entries.
fn last_largest(parts: &Vec<(usize, usize)>) -> (best: Option<(usize, usize)>)
    ensures
        best is None <==> parts@.len() == 0,
        best matches Some(b) ==> is_last_largest(
            parts@.map_values(|p: (usize, usize)| (p.0 as int, p.1 as int)),
            b.0 as int,
            b.1 as int,
        ),
{
    if parts.len() == 0 {
        return None;
    }
    let mut k: usize = 0;
    let mut i: usize = 1;
    while i < parts.len()
        invariant
            k < i <= parts@.len(),
            forall|j: int| 0 <= j < i ==> (#[trigger] parts@[j]).1 <= parts@[k as int].1,
            forall|j: int| k < j < i ==> (#[trigger] parts@[j]).1 < parts@[k as int].1,
        decreases parts@.len() - i,
    {
        if parts[i].1 >= parts[k].1 {
            k = i;
        }
        i += 1;
    }
    proof {
        let view = parts@.map_values(|p: (usize, usize)| (p.0 as int, p.1 as int));
        assert(view[k as int] == (parts@[k as int].0 as int, parts@[k as int].1 as int));
    }
    Some(parts[k])
}

/// Return the largest HEVC Annex B partition inside a WXGF/WXAM container.
pub fn largest_partition(data: &[u8]) -> (result: Result<WxgfPartition, WxgfError>)
    ensures
        match result {
            Ok(p) => {
                &&& is_container(data@)
                &&& data@[4] < data@.len()
                &&& is_last_largest(container_partitions(data@), p.offset as int, p.size as int)
                &&& p.container_len == data@.len()
                &&& p.offset + p.size <= data@.len()
                &&& starts_with_a_code(data@.subrange(p.offset as int, p.offset + p.size))
            },
            Err(WxgfError::InvalidContainer) => !is_container(data@),
            Err(WxgfError::InvalidHeaderLength(n)) => {
                is_container(data@) && n == data@[4] && n >= data@.len()
            },
            Err(WxgfError::NoPartition) => {
                &&& is_container(data@)
                &&& data@[4] < data@.len()
                &&& container_partitions(data@).len() == 0
            },
            Err(_) => false,
        },
{
    if data.len() < 15 {
        return Err(WxgfError::InvalidContainer);
    }
    let letters: [u8; 4] = [0x77, 0x78, 0x67, 0x66];
    assert(letters@ =~= magic());
    if !matches_at(data, letters.as_slice(), 0) {
        return Err(WxgfError::InvalidContainer);
    }
    let header_len: usize = data[4] as usize;
    if header_len >= data.len() {
        return Err(WxgfError::InvalidHeaderLength(header_len));
    }
    let long: [u8; 4] = [0, 0, 0, 1];
    let short: [u8; 3] = [0, 0, 1];
    assert(long@ =~= long_start_code());
    assert(short@ =~= short_start_code());
    let mut parts = scan(data, long.as_slice(), header_len);
    if parts.len() == 0 {
        parts = scan(data, short.as_slice(), header_len);
    }
    proof {
        law_partitions_are_disjoint(data@, long_start_code(), header_len as int);
        law_partitions_are_disjoint(data@, short_start_code(), header_len as int);
    }
    match last_largest(&parts) {
        Some((offset, size)) => {
            proof {
                let long = partitions(data@, long_start_code(), header_len as int);
                let code = if long.len() > 0 {
                    long_start_code()
                } else {
                    short_start_code()
                };
                let all = partitions(data@, code, header_len as int);
                let k = choose|k: int|
                    0 <= k < all.len() && #[trigger] all[k] == (offset as int, size as int);
                law_partitions_hold_their_code(data@, code, header_len as int, k);
            }
            Ok(WxgfPartition { offset, size, container_len: data.len() })
        },
        None => Err(WxgfError::NoPartition),
    }
}

// ---------------------------------------------------------------------------
// Turning a container into a JPEG with ffmpeg
// ---------------------------------------------------------------------------

/// A bitstream that ffmpeg is to turn into a picture.
#[derive(Debug)]
pub struct TranscodeJob {
    /// The bitstream, to be written to ffmpeg's input file.
    pub hevc: Vec<u8>,
    pub partition: WxgfPartition,
    /// The program to start.
    pub ffmpeg: String,
}

/// A picture made from a container.
#[derive(Debug)]
pub struct WxgfJpeg {
    pub data: Vec<u8>,
    pub partition: WxgfPartition,
    pub ffmpeg: String,
}

/// Names for ffmpeg's input and output files.
#[derive(Debug)]
pub struct TempNames {
    pub input: String,
    pub output: String,
}

/// The environment variable that names ffmpeg.
pub fn ffmpeg_env() -> (name: &'static str)
    ensures
        name@ == "WX_FFMPEG"@,
{
    "WX_FFMPEG"
}

/// Plans the conversion of a WXGF/WXAM image to JPEG through ffmpeg.
///
/// ffmpeg is the program that the environment names, and `ffmpeg` where it
/// names none.
pub fn transcode_to_jpeg(data: &[u8], configured: Option<String>) -> (result: Result<
    TranscodeJob,
    WxgfError,
>)
    ensures
        match result {
            Ok(job) => {
                let p = job.partition;
                &&& is_container(data@)
                &&& data@[4] < data@.len()
                &&& is_last_largest(container_partitions(data@), p.offset as int, p.size as int)
                &&& p.container_len == data@.len()
                &&& job.hevc@ == data@.subrange(p.offset as int, p.offset + p.size)
                &&& starts_with_a_code(job.hevc@)
                &&& match configured {
                    Some(name) => job.ffmpeg == name,
                    None => job.ffmpeg@ == "ffmpeg"@,
                }
            },
            Err(WxgfError::InvalidContainer) => !is_container(data@),
            Err(WxgfError::InvalidHeaderLength(n)) => {
                is_container(data@) && n == data@[4] && n >= data@.len()
            },
            Err(WxgfError::NoPartition) => {
                &&& is_container(data@)
                &&& data@[4] < data@.len()
                &&& container_partitions(data@).len() == 0
            },
            Err(_) => false,
        },
{
    let partition = match largest_partition(data) {
        Ok(partition) => partition,
        Err(error) => {
            return Err(error);
        },
    };
    let hevc = slice_to_vec(
        slice_subrange(data, partition.offset, partition.offset + partition.size),
    );
    let ffmpeg = match configured {
        Some(name) => name,
        None => "ffmpeg".to_owned(),
    };
    Ok(TranscodeJob { hevc, partition, ffmpeg })
}

/// The arguments with which ffmpeg decodes one picture.
pub fn transcode_args() -> (args: Vec<Arg>)
    ensures
        args_view(args@) == seq![
            ArgView::Text("-y"@),
            ArgView::Text("-hide_banner"@),
            ArgView::Text("-loglevel"@),
            ArgView::Text("error"@),
            ArgView::Text("-f"@),
            ArgView::Text("hevc"@),
            ArgView::Text("-i"@),
            ArgView::File(FileSlot::Input),
            ArgView::Text("-vframes"@),
            ArgView::Text("1"@),
            ArgView::Text("-c:v"@),
            ArgView::Text("mjpeg"@),
            ArgView::Text("-q:v"@),
            ArgView::Text("4"@),
            ArgView::File(FileSlot::Output),
        ],
{
    let args = vec![
        text_arg("-y"),
        text_arg("-hide_banner"),
        text_arg("-loglevel"),
        text_arg("error"),
        text_arg("-f"),
        text_arg("hevc"),
        text_arg("-i"),
        Arg::File(FileSlot::Input),
        text_arg("-vframes"),
        text_arg("1"),
        text_arg("-c:v"),
        text_arg("mjpeg"),
        text_arg("-q:v"),
        text_arg("4"),
        Arg::File(FileSlot::Output),
    ];
    args
}

/// The first `n` characters of a text, or all of it.
pub open spec fn first_chars(text: Seq<char>, n: int) -> Seq<char> {
    if text.len() <= n {
        text
    } else {
        text.take(n)
    }
}

/// Judges how ffmpeg ended: a failure is reported with the first words that
/// ffmpeg wrote about it.
pub fn check_transcode(success: bool, stderr: &[u8]) -> (result: Result<(), WxgfError>)
    ensures
        match result {
            Ok(_) => success,
            Err(WxgfError::FfmpegFailed(words)) => !success && words@ == first_chars(
                trimmed(utf8_lossy(stderr@)),
                800,
            ),
            Err(_) => false,
        },
{
    if success {
        return Ok(());
    }
    let core = trim(lossy_text(stderr).as_str());
    let shown = chars_of(core.as_str());
    let to: usize = if shown.len() <= 800 {
        shown.len()
    } else {
        800
    };
    let words = string_of(shown.as_slice(), 0, to);
    assert(words@ =~= first_chars(trimmed(utf8_lossy(stderr@)), 800));
    Err(WxgfError::FfmpegFailed(words))
}

/// Takes what ffmpeg wrote as the picture; nothing is no picture.
pub fn finish_transcode(job: TranscodeJob, output: Vec<u8>) -> (result: Result<WxgfJpeg, WxgfError>)
    ensures
        match result {
            Ok(jpeg) => {
                &&& output@.len() > 0
                &&& jpeg.data == output
                &&& jpeg.partition == job.partition
                &&& jpeg.ffmpeg == job.ffmpeg
            },
            Err(WxgfError::EmptyOutput) => output@.len() == 0,
            Err(_) => false,
        },
{
    if output.len() == 0 {
        return Err(WxgfError::EmptyOutput);
    }
    Ok(WxgfJpeg { data: output, partition: job.partition, ffmpeg: job.ffmpeg })
}

/// What the names of one conversion's files have in common.
pub open spec fn temp_stem(pid: nat, nanos: nat, seq: nat) -> Seq<char> {
    "wx-cli-wxgf-"@ + decimal(pid) + "-"@ + decimal(nanos) + "-"@ + decimal(seq)
}

/// Names ffmpeg's files by the process, the time and a running number.
pub fn temp_names(pid: u32, nanos: u128, seq: u64) -> (names: TempNames)
    ensures
        names.input@ == temp_stem(pid as nat, nanos as nat, seq as nat) + ".hevc"@,
        names.output@ == temp_stem(pid as nat, nanos as nat, seq as nat) + ".jpg"@,
{
    let mut input = "wx-cli-wxgf-".to_owned();
    input.append(decimal_text(pid as u128).as_str());
    input.append("-");
    input.append(decimal_text(nanos).as_str());
    input.append("-");
    input.append(decimal_text(seq as u128).as_str());
    let mut output = input.clone();
    input.append(".hevc");
    output.append(".jpg");
    TempNames { input, output }
}

// ---------------------------------------------------------------------------
// What a container gives
// ---------------------------------------------------------------------------

/// A container is known by its first four bytes, and has at least fifteen.
pub proof fn law_is_container(data: Seq<u8>)
    ensures
        is_container(data) <==> data.len() >= 15 && data[0] == 0x77 && data[1] == 0x78 && data[2]
            == 0x67 && data[3] == 0x66,
{
    if data.len() >= 15 {
        let start = data.subrange(0, 4);
        assert(start[0] == data[0] && start[1] == data[1] && start[2] == data[2] && start[3]
            == data[3]);
        if data[0] == 0x77 && data[1] == 0x78 && data[2] == 0x67 && data[3] == 0x66 {
            assert(start =~= magic());
        }
    }
}

proof fn lemma_skips(data: Seq<u8>, code: Seq<u8>, from: int, to: int)
    requires
        0 <= from <= to <= data.len(),
        forall|j: int| from <= j < to ==> !#[trigger] occurs_at(data, code, j),
    ensures
        partitions(data, code, from) == partitions(data, code, to),
    decreases to - from,
{
    if from < to {
        assert(!occurs_at(data, code, from));
        lemma_skips(data, code, from + 1, to);
    }
}

/// A bitstream with its length before it, which is the only one of its start code,
/// is the only partition, whatever its length: it starts with the start code and
/// has exactly that many bytes.
pub proof fn law_one_bitstream(
    front: Seq<u8>,
    hevc: Seq<u8>,
    behind: Seq<u8>,
    code: Seq<u8>,
    from: int,
)
    requires
        0 < code.len() <= hevc.len() < 0x1_0000_0000,
        code.is_prefix_of(hevc),
        0 <= from <= front.len() + 4,
        ({
            let data = front + be_bytes(hevc.len() as int) + hevc + behind;
            forall|j: int|
                from <= j < data.len() && j != front.len() + 4 ==> !#[trigger] occurs_at(
                    data,
                    code,
                    j,
                )
        }),
    ensures
        ({
            let data = front + be_bytes(hevc.len() as int) + hevc + behind;
            let at = front.len() as int + 4;
            &&& partitions(data, code, from) == seq![(at, hevc.len() as int)]
            &&& data.subrange(at, at + hevc.len()) == hevc
        }),
{
    let n = hevc.len() as int;
    let data = front + be_bytes(n) + hevc + behind;
    let at = front.len() as int + 4;
    assert(data =~= front + be_bytes(n) + (hevc + behind));
    law_be_u32(front, n, hevc + behind);
    assert(data.subrange(at, at + n) =~= hevc);
    assert(data.subrange(at, at + code.len()) =~= hevc.take(code.len() as int));
    assert(occurs_at(data, code, at));
    assert(partition_at(data, code, at));
    lemma_skips(data, code, from, at);
    lemma_skips(data, code, at + n, data.len() as int);
    assert(partitions(data, code, at + n) =~= Seq::empty());
    assert(partitions(data, code, at) =~= seq![(at, n)]);
}

/// A container with one bitstream gives that bitstream, whatever its length: the
/// largest partition is exactly it.
pub proof fn law_container_with_one_bitstream(
    front: Seq<u8>,
    hevc: Seq<u8>,
    behind: Seq<u8>,
    offset: int,
    size: int,
)
    requires
        4 <= hevc.len() < 0x1_0000_0000,
        long_start_code().is_prefix_of(hevc),
        front.len() > 4,
        front[4] <= front.len() + 4,
        ({
            let data = front + be_bytes(hevc.len() as int) + hevc + behind;
            &&& forall|j: int|
                front[4] <= j < data.len() && j != front.len() + 4 ==> !#[trigger] occurs_at(
                    data,
                    long_start_code(),
                    j,
                )
            &&& is_last_largest(container_partitions(data), offset, size)
        }),
    ensures
        offset == front.len() + 4,
        size == hevc.len(),
        (front + be_bytes(hevc.len() as int) + hevc + behind).subrange(offset, offset + size)
            == hevc,
{
    let data = front + be_bytes(hevc.len() as int) + hevc + behind;
    assert(data[4] == front[4]);
    law_one_bitstream(front, hevc, behind, long_start_code(), front[4] as int);
    let parts = container_partitions(data);
    assert(parts =~= seq![(front.len() as int + 4, hevc.len() as int)]);
    let k = choose|k: int| 0 <= k < parts.len() && #[trigger] parts[k] == (offset, size);
}

/// The largest partition has the length that the four bytes before it say. No
/// bitstream of the long start code is larger, unless it lies inside another one;
/// and where there is one of the long start code, the largest starts with it.
pub proof fn law_largest_partition(data: Seq<u8>, offset: int, size: int, at: int, n: int)
    requires
        data.len() > 4,
        is_last_largest(container_partitions(data), offset, size),
    ensures
        4 <= offset <= offset + size <= data.len(),
        0 <= size < 0x1_0000_0000,
        data.subrange(offset - 4, offset) == be_bytes(size),
        4 <= n < 0x1_0000_0000 && data[4] <= at && 4 <= at && at + n <= data.len() && occurs_at(
            data,
            seq![0u8, 0, 0, 1],
            at,
        ) && data.subrange(at - 4, at) == be_bytes(n) ==> {
            &&& occurs_at(data, seq![0u8, 0, 0, 1], offset)
            &&& n <= size || exists|i: int|
                0 <= i < container_partitions(data).len() && (#[trigger] container_partitions(
                    data,
                )[i]).0 < at < container_partitions(data)[i].0 + container_partitions(data)[i].1
        },
{
    let from = data[4] as int;
    let long = partitions(data, long_start_code(), from);
    let code = if long.len() > 0 {
        long_start_code()
    } else {
        short_start_code()
    };
    let parts = container_partitions(data);
    law_partitions_are_disjoint(data, code, from);
    let k = choose|k: int| 0 <= k < parts.len() && #[trigger] parts[k] == (offset, size);
    assert(partition_at(data, code, offset) && size == be_u32(data, offset - 4));
    law_be_bytes(data, offset - 4);
    if 4 <= n < 0x1_0000_0000 && from <= at && 4 <= at && at + n <= data.len() && occurs_at(
        data,
        seq![0u8, 0, 0, 1],
        at,
    ) && data.subrange(at - 4, at) == be_bytes(n) {
        let before = data.take(at - 4);
        assert(data =~= before + be_bytes(n) + data.skip(at));
        law_be_u32(before, n, data.skip(at));
        assert(long_start_code() =~= seq![0u8, 0, 0, 1]);
        assert(partition_at(data, long_start_code(), at));
        law_partitions_miss_nothing(data, long_start_code(), from, at);
        let i = choose|i: int|
            0 <= i < long.len() && (#[trigger] long[i]).0 <= at < long[i].0 + long[i].1;
        assert(parts == long);
        assert(parts[i].1 <= size);
        law_partitions_are_disjoint(data, long_start_code(), from);
        if parts[i].0 == at {
            assert(parts[i].1 == be_u32(data, at - 4));
        }
    }
}

/// Where no bitstream of the long start code is there, those of the short one
/// count: none of them is larger than the largest, unless it lies inside another.
pub proof fn law_short_codes_count(data: Seq<u8>, at: int, n: int)
    requires
        data.len() > 4,
        3 <= n < 0x1_0000_0000,
        data[4] <= at,
        4 <= at,
        at + n <= data.len(),
        occurs_at(data, seq![0u8, 0, 1], at),
        data.subrange(at - 4, at) == be_bytes(n),
        forall|j: int| data[4] <= j ==> !#[trigger] occurs_at(data, long_start_code(), j),
    ensures
        exists|i: int|
            0 <= i < container_partitions(data).len() && (#[trigger] container_partitions(data)[i]).0
                <= at < container_partitions(data)[i].0 + container_partitions(data)[i].1,
{
    let from = data[4] as int;
    let long = partitions(data, long_start_code(), from);
    assert(long_start_code() =~= seq![0u8, 0, 0, 1]);
    assert(short_start_code() =~= seq![0u8, 0, 1]);
    lemma_skips(data, long_start_code(), from, data.len() as int);
    let before = data.take(at - 4);
    assert(data =~= before + be_bytes(n) + data.skip(at));
    law_be_u32(before, n, data.skip(at));
    law_partitions_miss_nothing(data, short_start_code(), from, at);
    let short = partitions(data, short_start_code(), from);
    let i = choose|i: int|
        0 <= i < short.len() && (#[trigger] short[i]).0 <= at < short[i].0 + short[i].1;
    assert(long.len() == 0);
    assert(container_partitions(data)[i] == short[i]);
}

/// Of a text that is too long its beginning is taken, and of any other all of it.
pub proof fn law_first_chars(text: Seq<char>, n: int)
    requires
        0 <= n,
    ensures
        first_chars(text, n).is_prefix_of(text),
        text.len() <= n ==> first_chars(text, n) == text,
        text.len() > n ==> first_chars(text, n).len() == n,
{
    assert(text.take(text.len() as int) =~= text);
}

/// Files of different conversions have different names.
pub proof fn law_temp_names_differ(a: (nat, nat, nat), b: (nat, nat, nat))
    ensures
        temp_stem(a.0, a.1, a.2) == temp_stem(b.0, b.1, b.2) ==> a == b,
{
    if temp_stem(a.0, a.1, a.2) == temp_stem(b.0, b.1, b.2) {
        reveal_strlit("-");
        law_numbered_names_differ("wx-cli-wxgf-"@, a, b);
    }
}

/// The partition that is taken is one of the list, none is larger, and of those
/// that are as large it stands farthest behind.
pub proof fn law_last_largest(parts: Seq<(int, int)>, offset: int, size: int, j: int)
    requires
        is_last_largest(parts, offset, size),
        forall|a: int, b: int|
            0 <= a < b < parts.len() ==> (#[trigger] parts[a]).0 < (#[trigger] parts[b]).0,
        0 <= j < parts.len(),
    ensures
        parts.contains((offset, size)),
        parts[j].1 <= size,
        parts[j].1 == size ==> parts[j].0 <= offset,
{
    let k = choose|k: int|
        {
            &&& 0 <= k < parts.len()
            &&& #[trigger] parts[k] == (offset, size)
            &&& forall|j: int| 0 <= j < parts.len() ==> (#[trigger] parts[j]).1 <= size
            &&& forall|j: int| k < j < parts.len() ==> (#[trigger] parts[j]).1 < size
        };
    assert(parts[k] == (offset, size));
    if parts[j].1 == size && j < k {
        assert(parts[j].0 < parts[k].0);
    }
}

} // verus!
