//! Turning a voice message into text with programs of this machine.
//!
//! The daemon writes the voice message to a file of its own. A SILK decoder turns
//! SILK into samples, ffmpeg turns samples or any other format into a WAV file,
//! and whisper.cpp turns that into text.
//!
//! Here stands what is decided on the way. The caller does what an action says
//! and tells what came of it.

use vstd::prelude::*;

use crate::audio::{
    audio_format, detect_audio_format, find_silk_header, silk_offset, write_normalized_silk,
    AudioFormat,
};
use crate::command::{args_view, text_arg, Arg, ArgView, FileSlot};
use crate::request::{extract_voice, Request};
use crate::text::{
    decimal, decimal_text, holds_text, law_holds_text, law_numbered_names_differ, lossy_text,
    same_text, trim, trimmed, utf8_lossy,
};
use crate::tools::{Need, ToolError, ToolPath, ToolPathView};
use crate::transcript::{clean_text, clean_whisper_stdout};

verus! {

// ---------------------------------------------------------------------------
// Files and programs
// ---------------------------------------------------------------------------

/// A file in the work directory.
#[derive(Debug, Clone, Copy, PartialEq, Eq, Structural)]
pub enum WorkFile {
    /// The voice message as it is stored.
    Raw,
    /// The voice message as a SILK decoder reads it.
    Silk,
    /// Samples.
    Pcm,
    Wav,
}

impl WorkFile {
    /// The file's name.
    pub open spec fn name(self) -> Seq<char> {
        match self {
            WorkFile::Raw => "voice.aud"@,
            WorkFile::Silk => "voice.silk"@,
            WorkFile::Pcm => "voice.pcm"@,
            WorkFile::Wav => "voice.wav"@,
        }
    }

    /// The file's name.
    pub fn file_name(self) -> (name: &'static str)
        ensures
            name@ == self.name(),
    {
        match self {
            WorkFile::Raw => "voice.aud",
            WorkFile::Silk => "voice.silk",
            WorkFile::Pcm => "voice.pcm",
            WorkFile::Wav => "voice.wav",
        }
    }
}

/// A run of a program.
#[derive(Debug, Clone, Copy, PartialEq, Eq, Structural)]
pub enum Conversion {
    /// From SILK to samples.
    Decode,
    /// From samples to WAV.
    PcmToWav,
    /// From any other format to WAV.
    AudioToWav,
    /// From WAV to text.
    Recognize,
}

/// Samples come at 24 kHz, and whisper.cpp reads 16 kHz, both with one channel
/// of 16 bits.
pub open spec fn pcm_to_wav_args() -> Seq<ArgView> {
    seq![
        ArgView::Text("-y"@),
        ArgView::Text("-f"@),
        ArgView::Text("s16le"@),
        ArgView::Text("-ar"@),
        ArgView::Text("24000"@),
        ArgView::Text("-ac"@),
        ArgView::Text("1"@),
        ArgView::Text("-i"@),
        ArgView::File(FileSlot::Input),
        ArgView::Text("-ar"@),
        ArgView::Text("16000"@),
        ArgView::Text("-ac"@),
        ArgView::Text("1"@),
        ArgView::Text("-c:a"@),
        ArgView::Text("pcm_s16le"@),
        ArgView::File(FileSlot::Output),
    ]
}

/// ffmpeg finds out itself what other formats hold.
pub open spec fn audio_to_wav_args() -> Seq<ArgView> {
    seq![
        ArgView::Text("-y"@),
        ArgView::Text("-i"@),
        ArgView::File(FileSlot::Input),
        ArgView::Text("-ar"@),
        ArgView::Text("16000"@),
        ArgView::Text("-ac"@),
        ArgView::Text("1"@),
        ArgView::Text("-c:a"@),
        ArgView::Text("pcm_s16le"@),
        ArgView::File(FileSlot::Output),
    ]
}

/// whisper.cpp is to print text without times and without notes.
pub open spec fn recognize_args(language: Seq<char>) -> Seq<ArgView> {
    seq![
        ArgView::Text("-m"@),
        ArgView::File(FileSlot::Model),
        ArgView::Text("-f"@),
        ArgView::File(FileSlot::Input),
        ArgView::Text("-l"@),
        ArgView::Text(language),
        ArgView::Text("-nt"@),
        ArgView::Text("-np"@),
    ]
}

impl Conversion {
    /// How the run is spoken of.
    pub open spec fn title(self) -> Seq<char> {
        match self {
            Conversion::Decode => "SILK decoder"@,
            Conversion::PcmToWav => "ffmpeg PCM -> WAV"@,
            Conversion::AudioToWav => "ffmpeg audio -> WAV"@,
            Conversion::Recognize => "whisper-cli"@,
        }
    }

    /// The file that the program reads.
    pub open spec fn reads(self) -> WorkFile {
        match self {
            Conversion::Decode => WorkFile::Silk,
            Conversion::PcmToWav => WorkFile::Pcm,
            Conversion::AudioToWav => WorkFile::Raw,
            Conversion::Recognize => WorkFile::Wav,
        }
    }

    /// The file that the program writes.
    pub open spec fn writes(self) -> Option<WorkFile> {
        match self {
            Conversion::Decode => Some(WorkFile::Pcm),
            Conversion::PcmToWav => Some(WorkFile::Wav),
            Conversion::AudioToWav => Some(WorkFile::Wav),
            Conversion::Recognize => None,
        }
    }

    /// The arguments of the program.
    pub open spec fn arguments(self, language: Seq<char>) -> Seq<ArgView> {
        match self {
            Conversion::Decode => seq![
                ArgView::File(FileSlot::Input),
                ArgView::File(FileSlot::Output),
            ],
            Conversion::PcmToWav => pcm_to_wav_args(),
            Conversion::AudioToWav => audio_to_wav_args(),
            Conversion::Recognize => recognize_args(language),
        }
    }

    /// How the run is spoken of.
    pub fn stage_name(self) -> (name: &'static str)
        ensures
            name@ == self.title(),
    {
        match self {
            Conversion::Decode => "SILK decoder",
            Conversion::PcmToWav => "ffmpeg PCM -> WAV",
            Conversion::AudioToWav => "ffmpeg audio -> WAV",
            Conversion::Recognize => "whisper-cli",
        }
    }

    /// The file that the program reads.
    pub fn input(self) -> (file: WorkFile)
        ensures
            file == self.reads(),
    {
        match self {
            Conversion::Decode => WorkFile::Silk,
            Conversion::PcmToWav => WorkFile::Pcm,
            Conversion::AudioToWav => WorkFile::Raw,
            Conversion::Recognize => WorkFile::Wav,
        }
    }

    /// The file that the program writes.
    pub fn output(self) -> (file: Option<WorkFile>)
        ensures
            file == self.writes(),
    {
        match self {
            Conversion::Decode => Some(WorkFile::Pcm),
            Conversion::PcmToWav => Some(WorkFile::Wav),
            Conversion::AudioToWav => Some(WorkFile::Wav),
            Conversion::Recognize => None,
        }
    }

    /// The arguments of the program.
    pub fn args(self, language: &str) -> (args: Vec<Arg>)
        ensures
            args_view(args@) == self.arguments(language@),
    {
        let args = match self {
            Conversion::Decode => run_silk_decoder(),
            Conversion::PcmToWav => run_ffmpeg_pcm_to_wav(),
            Conversion::AudioToWav => run_ffmpeg_audio_to_wav(),
            Conversion::Recognize => run_whisper(language),
        };
        args
    }
}

/// The arguments of a SILK decoder.
pub fn run_silk_decoder() -> (args: Vec<Arg>)
    ensures
        args_view(args@) == seq![ArgView::File(FileSlot::Input), ArgView::File(FileSlot::Output)],
{
    vec![Arg::File(FileSlot::Input), Arg::File(FileSlot::Output)]
}

/// The arguments with which ffmpeg turns samples into WAV.
pub fn run_ffmpeg_pcm_to_wav() -> (args: Vec<Arg>)
    ensures
        args_view(args@) == pcm_to_wav_args(),
{
    vec![
        text_arg("-y"),
        text_arg("-f"),
        text_arg("s16le"),
        text_arg("-ar"),
        text_arg("24000"),
        text_arg("-ac"),
        text_arg("1"),
        text_arg("-i"),
        Arg::File(FileSlot::Input),
        text_arg("-ar"),
        text_arg("16000"),
        text_arg("-ac"),
        text_arg("1"),
        text_arg("-c:a"),
        text_arg("pcm_s16le"),
        Arg::File(FileSlot::Output),
    ]
}

/// The arguments with which ffmpeg turns any format into WAV.
pub fn run_ffmpeg_audio_to_wav() -> (args: Vec<Arg>)
    ensures
        args_view(args@) == audio_to_wav_args(),
{
    vec![
        text_arg("-y"),
        text_arg("-i"),
        Arg::File(FileSlot::Input),
        text_arg("-ar"),
        text_arg("16000"),
        text_arg("-ac"),
        text_arg("1"),
        text_arg("-c:a"),
        text_arg("pcm_s16le"),
        Arg::File(FileSlot::Output),
    ]
}

/// The arguments with which whisper.cpp turns WAV into text.
pub fn run_whisper(language: &str) -> (args: Vec<Arg>)
    ensures
        args_view(args@) == recognize_args(language@),
{
    vec![
        text_arg("-m"),
        Arg::File(FileSlot::Model),
        text_arg("-f"),
        Arg::File(FileSlot::Input),
        text_arg("-l"),
        text_arg(language),
        text_arg("-nt"),
        text_arg("-np"),
    ]
}

// ---------------------------------------------------------------------------
// The way to the text
// ---------------------------------------------------------------------------

/// The tools that every voice message needs.
#[derive(Debug)]
pub struct Tools {
    pub model: ToolPath,
    pub whisper: ToolPath,
    pub ffmpeg: ToolPath,
}

/// What a voice message was before it became a WAV file.
#[derive(Debug)]
pub enum VoiceSource {
    /// SILK, with the header at this offset, decoded by this program.
    Silk { decoder: ToolPath, offset: usize },
    Other(AudioFormat),
}

impl VoiceSource {
    /// The name of the voice message's format.
    pub open spec fn name(self) -> Seq<char> {
        match self {
            VoiceSource::Silk { .. } => "silk"@,
            VoiceSource::Other(format) => format.name(),
        }
    }

    /// Where the header of SILK stands; nowhere in other formats.
    pub fn silk_header_offset(&self) -> (offset: Option<usize>)
        ensures
            offset == match *self {
                VoiceSource::Silk { offset, .. } => Some(offset),
                VoiceSource::Other(_) => None,
            },
    {
        match self {
            VoiceSource::Silk { offset, .. } => Some(*offset),
            VoiceSource::Other(_) => None,
        }
    }

    /// The name of the voice message's format.
    pub fn format_name(&self) -> (name: &str)
        ensures
            name@ == self.name(),
    {
        match self {
            VoiceSource::Silk { .. } => "silk",
            VoiceSource::Other(format) => format.as_str(),
        }
    }
}

/// How a program ended.
#[derive(Debug)]
pub struct RunOutcome {
    pub success: bool,
    /// The exit status in words.
    pub status: String,
    pub stdout: Vec<u8>,
    pub stderr: Vec<u8>,
    /// Is the file there that the program was to write?
    pub wrote: bool,
}

/// A voice message that became text.
#[derive(Debug)]
pub struct TranscribeReport {
    pub tools: Tools,
    pub source: VoiceSource,
    /// What whisper.cpp printed.
    pub whisper: RunOutcome,
}

impl TranscribeReport {
    /// The text of the voice message.
    pub fn transcript(&self) -> (text: String)
        ensures
            text@ == clean_text(utf8_lossy(self.whisper.stdout@)),
    {
        clean_whisper_stdout(lossy_text(self.whisper.stdout.as_slice()).as_str())
    }

    /// What whisper.cpp printed besides the text.
    pub fn notes(&self) -> (text: String)
        ensures
            text@ == trimmed(utf8_lossy(self.whisper.stderr@)),
    {
        trim(lossy_text(self.whisper.stderr.as_slice()).as_str())
    }
}

/// The work directory and its files, as their paths are shown.
#[derive(Debug)]
pub struct WorkPaths {
    pub dir: String,
    pub raw: String,
    pub silk: String,
    pub pcm: String,
    pub wav: String,
    /// Is the decoder's input there?
    pub silk_there: bool,
    /// Are the samples there?
    pub pcm_there: bool,
}

/// What stays behind of the work on a voice message.
#[derive(Debug)]
pub struct KeptFiles {
    pub temp_dir: String,
    pub raw: String,
    pub silk: Option<String>,
    pub pcm: Option<String>,
    pub wav: String,
}

/// What is told of a voice message that became text.
#[derive(Debug)]
pub struct ReportFields {
    pub transcript: String,
    pub language: String,
    pub engine: String,
    pub tools: Tools,
    /// The name of the voice message's format.
    pub format: String,
    pub silk_header_offset: Option<usize>,
    pub silk_decoder: Option<ToolPath>,
    /// What whisper.cpp printed besides the text.
    pub whisper_stderr: String,
    pub kept_temp: bool,
    /// What stays behind, where it is kept.
    pub kept: Option<KeptFiles>,
}

/// What stays behind: the files that every voice message has, and the others where
/// they are there.
pub open spec fn files_kept(work: WorkPaths) -> KeptFiles {
    KeptFiles {
        temp_dir: work.dir,
        raw: work.raw,
        silk: if work.silk_there {
            Some(work.silk)
        } else {
            None
        },
        pcm: if work.pcm_there {
            Some(work.pcm)
        } else {
            None
        },
        wav: work.wav,
    }
}

/// The fields tell of a voice message that became text.
pub open spec fn is_report(
    fields: ReportFields,
    done: TranscribeReport,
    language: String,
    keep_temp: bool,
    work: WorkPaths,
) -> bool {
    &&& fields.transcript@ == clean_text(utf8_lossy(done.whisper.stdout@))
    &&& fields.language == language
    &&& fields.engine@ == "whisper.cpp"@
    &&& fields.tools == done.tools
    &&& fields.format@ == done.source.name()
    &&& match done.source {
        VoiceSource::Silk { decoder, offset } => fields.silk_header_offset == Some(offset)
            && fields.silk_decoder == Some(decoder),
        VoiceSource::Other(_) => fields.silk_header_offset is None && fields.silk_decoder is None,
    }
    &&& fields.whisper_stderr@ == trimmed(utf8_lossy(done.whisper.stderr@))
    &&& fields.kept_temp == keep_temp
    &&& fields.kept == if keep_temp {
        Some(files_kept(work))
    } else {
        None
    }
}

/// Why a voice message did not become text.
#[derive(Debug)]
pub enum TranscribeError {
    Tool(ToolError),
    /// The attachment is of this kind, or of none.
    NotVoice(Option<String>),
    /// The message is said to be SILK and has no header.
    NoSilkHeader,
    /// A program failed.
    RunFailed { conversion: Conversion, status: String, stderr: Vec<u8> },
}

impl TranscribeError {
    /// The words for an error.
    pub open spec fn words(self) -> Seq<char> {
        match self {
            TranscribeError::Tool(error) => error.words(),
            TranscribeError::NotVoice(kind) => {
                "attachment_id 不是语音资源（kind="@ + (match kind {
                    Some(kind) => kind@,
                    None => ""@,
                }) + "），请先用 `wx attachments CHAT --kind voice` 获取语音 ID"@
            },
            TranscribeError::NoSilkHeader => {
                "语音报告为 SILK，但前 8 字节内找不到 #!SILK header，无法调用 SILK decoder"@
            },
            TranscribeError::RunFailed { conversion, status, stderr } => {
                conversion.title() + " 失败："@ + status@ + "\n"@ + trimmed(utf8_lossy(stderr@))
            },
        }
    }

    /// Says what went wrong.
    pub fn message(&self) -> (message: String)
        ensures
            message@ == self.words(),
    {
        match self {
            TranscribeError::Tool(error) => error.message(),
            TranscribeError::NotVoice(kind) => {
                let mut message = "attachment_id 不是语音资源（kind=".to_owned();
                match kind {
                    Some(kind) => message.append(kind.as_str()),
                    None => message.append(""),
                }
                message.append("），请先用 `wx attachments CHAT --kind voice` 获取语音 ID");
                message
            },
            TranscribeError::NoSilkHeader => {
                "语音报告为 SILK，但前 8 字节内找不到 #!SILK header，无法调用 SILK decoder".to_owned()
            },
            TranscribeError::RunFailed { conversion, status, stderr } => {
                let mut message = conversion.stage_name().to_owned();
                message.append(" 失败：");
                message.append(status.as_str());
                message.append("\n");
                message.append(trim(lossy_text(stderr.as_slice()).as_str()).as_str());
                message
            },
        }
    }
}

/// Where a voice message stands on its way.
#[derive(Debug)]
pub enum TranscribeStage {
    /// The model is wanted.
    Model,
    /// whisper.cpp is wanted.
    Whisper { model: ToolPath },
    /// ffmpeg is wanted.
    Ffmpeg { model: ToolPath, whisper: ToolPath },
    /// A directory to work in is wanted.
    WorkDir { tools: Tools },
    /// The voice message is wanted.
    Extract { tools: Tools },
    /// The voice message is to be made private. Its source says this of it.
    ProtectRaw { tools: Tools, kind: Option<String>, format: Option<String> },
    /// The bytes of the voice message are wanted.
    ReadRaw { tools: Tools, format: Option<String> },
    /// The decoder is wanted.
    Decoder { tools: Tools, raw: Vec<u8> },
    /// The decoder's input is to be written: the voice message from the offset on.
    WriteSilk { tools: Tools, decoder: ToolPath, offset: usize, raw: Vec<u8> },
    /// The decoder is to be run.
    Decode { tools: Tools, decoder: ToolPath, offset: usize },
    /// The samples are to be made private.
    ProtectPcm { tools: Tools, decoder: ToolPath, offset: usize },
    /// ffmpeg is to be run on the samples.
    PcmToWav { tools: Tools, decoder: ToolPath, offset: usize },
    /// ffmpeg is to be run on the voice message.
    AudioToWav { tools: Tools, format: AudioFormat },
    /// The WAV file is to be made private.
    ProtectWav { tools: Tools, source: VoiceSource },
    /// whisper.cpp is to be run.
    Recognize { tools: Tools, source: VoiceSource },
    /// The voice message became text.
    Done(TranscribeReport),
    /// The voice message did not become text.
    Failed(TranscribeError),
}

/// What is to be done next.
#[derive(Debug)]
pub enum TranscribeAction {
    /// Find a tool.
    Find(Need),
    /// Make a directory to work in.
    MakeWorkDir,
    /// Have the daemon write the attachment to the file.
    Extract(WorkFile),
    /// Let nobody else read or write the file.
    Protect(WorkFile),
    /// Read the file.
    Read(WorkFile),
    /// Write the bytes to a new, private file.
    Write(WorkFile, Vec<u8>),
    /// Run the program.
    Run { program: ToolPath, conversion: Conversion },
    /// Nothing: the voice message is at its end.
    Nothing,
}

/// What came of an action.
#[derive(Debug)]
pub enum TranscribeEvent {
    Found(Result<ToolPath, ToolError>),
    /// The directory is made, the file is protected or written.
    Done,
    /// The file is written. Its source says this of it.
    Extracted { kind: Option<String>, format: Option<String> },
    Read(Vec<u8>),
    Ran(RunOutcome),
}

/// A voice message on its way to text.
#[derive(Debug)]
pub struct Transcription {
    pub attachment_id: String,
    pub language: String,
    /// The work directory stays behind.
    pub keep_temp: bool,
    pub stage: TranscribeStage,
}

/// A failed run.
pub open spec fn run_failed(conversion: Conversion, outcome: RunOutcome) -> TranscribeStage {
    TranscribeStage::Failed(
        TranscribeError::RunFailed { conversion, status: outcome.status, stderr: outcome.stderr },
    )
}

/// Goes on with a voice message whose bytes are known.
pub open spec fn behind_read(tools: Tools, reported: Option<String>, raw: Vec<u8>) -> TranscribeStage {
    let format = audio_format(reported, raw@, "aud"@);
    if format.name() == "silk"@ {
        TranscribeStage::Decoder { tools, raw }
    } else {
        TranscribeStage::AudioToWav { tools, format }
    }
}

/// How an event moves a voice message on. An event that does not belong to the
/// action does not.
pub open spec fn next_transcribe_stage(
    stage: TranscribeStage,
    event: TranscribeEvent,
) -> TranscribeStage {
    match (stage, event) {
        (TranscribeStage::Model, TranscribeEvent::Found(found)) => match found {
            Ok(model) => TranscribeStage::Whisper { model },
            Err(error) => TranscribeStage::Failed(TranscribeError::Tool(error)),
        },
        (TranscribeStage::Whisper { model }, TranscribeEvent::Found(found)) => match found {
            Ok(whisper) => TranscribeStage::Ffmpeg { model, whisper },
            Err(error) => TranscribeStage::Failed(TranscribeError::Tool(error)),
        },
        (TranscribeStage::Ffmpeg { model, whisper }, TranscribeEvent::Found(found)) => match found {
            Ok(ffmpeg) => TranscribeStage::WorkDir { tools: Tools { model, whisper, ffmpeg } },
            Err(error) => TranscribeStage::Failed(TranscribeError::Tool(error)),
        },
        (TranscribeStage::WorkDir { tools }, TranscribeEvent::Done) => TranscribeStage::Extract {
            tools,
        },
        (TranscribeStage::Extract { tools }, TranscribeEvent::Extracted { kind, format }) => {
            TranscribeStage::ProtectRaw { tools, kind, format }
        },
        (TranscribeStage::ProtectRaw { tools, kind, format }, TranscribeEvent::Done) => {
            if kind matches Some(name) && name@ == "voice"@ {
                TranscribeStage::ReadRaw { tools, format }
            } else {
                TranscribeStage::Failed(TranscribeError::NotVoice(kind))
            }
        },
        (TranscribeStage::ReadRaw { tools, format }, TranscribeEvent::Read(raw)) => behind_read(
            tools,
            format,
            raw,
        ),
        (TranscribeStage::Decoder { tools, raw }, TranscribeEvent::Found(found)) => match (
            found,
            silk_offset(raw@),
        ) {
            (Err(error), _) => TranscribeStage::Failed(TranscribeError::Tool(error)),
            (Ok(_), None) => TranscribeStage::Failed(TranscribeError::NoSilkHeader),
            (Ok(decoder), Some(offset)) => TranscribeStage::WriteSilk {
                tools,
                decoder,
                offset,
                raw,
            },
        },
        (TranscribeStage::WriteSilk { tools, decoder, offset, .. }, TranscribeEvent::Done) => {
            TranscribeStage::Decode { tools, decoder, offset }
        },
        (TranscribeStage::Decode { tools, decoder, offset }, TranscribeEvent::Ran(outcome)) => {
            if outcome.success && outcome.wrote {
                TranscribeStage::ProtectPcm { tools, decoder, offset }
            } else {
                run_failed(Conversion::Decode, outcome)
            }
        },
        (TranscribeStage::ProtectPcm { tools, decoder, offset }, TranscribeEvent::Done) => {
            TranscribeStage::PcmToWav { tools, decoder, offset }
        },
        (TranscribeStage::PcmToWav { tools, decoder, offset }, TranscribeEvent::Ran(outcome)) => {
            if outcome.success {
                TranscribeStage::ProtectWav { tools, source: VoiceSource::Silk { decoder, offset } }
            } else {
                run_failed(Conversion::PcmToWav, outcome)
            }
        },
        (TranscribeStage::AudioToWav { tools, format }, TranscribeEvent::Ran(outcome)) => {
            if outcome.success {
                TranscribeStage::ProtectWav { tools, source: VoiceSource::Other(format) }
            } else {
                run_failed(Conversion::AudioToWav, outcome)
            }
        },
        (TranscribeStage::ProtectWav { tools, source }, TranscribeEvent::Done) => {
            TranscribeStage::Recognize { tools, source }
        },
        (TranscribeStage::Recognize { tools, source }, TranscribeEvent::Ran(whisper)) => {
            if whisper.success {
                TranscribeStage::Done(TranscribeReport { tools, source, whisper })
            } else {
                run_failed(Conversion::Recognize, whisper)
            }
        },
        (stage, _) => stage,
    }
}

/// What is to be done at a stage. Paths and bytes are said by what they hold.
pub enum TranscribeActionView {
    Find(Need),
    MakeWorkDir,
    Extract(WorkFile),
    Protect(WorkFile),
    Read(WorkFile),
    Write(WorkFile, Seq<u8>),
    Run { program: ToolPathView, conversion: Conversion },
    Nothing,
}

impl View for TranscribeAction {
    type V = TranscribeActionView;

    open spec fn view(&self) -> TranscribeActionView {
        match self {
            TranscribeAction::Find(need) => TranscribeActionView::Find(*need),
            TranscribeAction::MakeWorkDir => TranscribeActionView::MakeWorkDir,
            TranscribeAction::Extract(file) => TranscribeActionView::Extract(*file),
            TranscribeAction::Protect(file) => TranscribeActionView::Protect(*file),
            TranscribeAction::Read(file) => TranscribeActionView::Read(*file),
            TranscribeAction::Write(file, bytes) => TranscribeActionView::Write(*file, bytes@),
            TranscribeAction::Run { program, conversion } => TranscribeActionView::Run {
                program: program@,
                conversion: *conversion,
            },
            TranscribeAction::Nothing => TranscribeActionView::Nothing,
        }
    }
}

/// What is to be done at a stage.
pub open spec fn action_at(stage: TranscribeStage) -> TranscribeActionView {
    match stage {
        TranscribeStage::Model => TranscribeActionView::Find(Need::Model),
        TranscribeStage::Whisper { .. } => TranscribeActionView::Find(Need::Whisper),
        TranscribeStage::Ffmpeg { .. } => TranscribeActionView::Find(Need::Ffmpeg),
        TranscribeStage::WorkDir { .. } => TranscribeActionView::MakeWorkDir,
        TranscribeStage::Extract { .. } => TranscribeActionView::Extract(WorkFile::Raw),
        TranscribeStage::ProtectRaw { .. } => TranscribeActionView::Protect(WorkFile::Raw),
        TranscribeStage::ReadRaw { .. } => TranscribeActionView::Read(WorkFile::Raw),
        TranscribeStage::Decoder { .. } => TranscribeActionView::Find(Need::SilkDecoder),
        TranscribeStage::WriteSilk { offset, raw, .. } => TranscribeActionView::Write(
            WorkFile::Silk,
            raw@.skip(offset as int),
        ),
        TranscribeStage::Decode { decoder, .. } => TranscribeActionView::Run {
            program: decoder@,
            conversion: Conversion::Decode,
        },
        TranscribeStage::ProtectPcm { .. } => TranscribeActionView::Protect(WorkFile::Pcm),
        TranscribeStage::PcmToWav { tools, .. } => TranscribeActionView::Run {
            program: tools.ffmpeg@,
            conversion: Conversion::PcmToWav,
        },
        TranscribeStage::AudioToWav { tools, .. } => TranscribeActionView::Run {
            program: tools.ffmpeg@,
            conversion: Conversion::AudioToWav,
        },
        TranscribeStage::ProtectWav { .. } => TranscribeActionView::Protect(WorkFile::Wav),
        TranscribeStage::Recognize { tools, .. } => TranscribeActionView::Run {
            program: tools.whisper@,
            conversion: Conversion::Recognize,
        },
        TranscribeStage::Done(_) => TranscribeActionView::Nothing,
        TranscribeStage::Failed(_) => TranscribeActionView::Nothing,
    }
}

/// Starts a voice message on its way to text in a language.
pub fn cmd_transcribe(attachment_id: String, language: String, keep_temp: bool) -> (start:
    Transcription)
    ensures
        start == (Transcription {
            attachment_id,
            language,
            keep_temp,
            stage: TranscribeStage::Model,
        }),
        start.wf(),
{
    Transcription { attachment_id, language, keep_temp, stage: TranscribeStage::Model }
}

/// Judges a run: it must have succeeded.
fn failed_run(conversion: Conversion, outcome: RunOutcome) -> (stage: TranscribeStage)
    ensures
        stage == run_failed(conversion, outcome),
{
    TranscribeStage::Failed(
        TranscribeError::RunFailed { conversion, status: outcome.status, stderr: outcome.stderr },
    )
}

/// Goes on with a voice message whose bytes are known.
fn stage_behind_read(tools: Tools, reported: Option<String>, raw: Vec<u8>) -> (stage: TranscribeStage)
    ensures
        stage == behind_read(tools, reported, raw),
{
    let format = detect_audio_format(reported, raw.as_slice(), "aud");
    if same_text(format.as_str(), "silk") {
        TranscribeStage::Decoder { tools, raw }
    } else {
        TranscribeStage::AudioToWav { tools, format }
    }
}

impl Transcription {
    /// What a decoder is to read starts at the header.
    pub open spec fn wf(self) -> bool {
        self.stage matches TranscribeStage::WriteSilk { offset, raw, .. } ==> silk_offset(raw@)
            == Some(offset)
    }

    /// What is to be done next.
    pub fn action(&self) -> (action: TranscribeAction)
        requires
            self.wf(),
        ensures
            action@ == action_at(self.stage),
    {
        match &self.stage {
            TranscribeStage::Model => TranscribeAction::Find(Need::Model),
            TranscribeStage::Whisper { .. } => TranscribeAction::Find(Need::Whisper),
            TranscribeStage::Ffmpeg { .. } => TranscribeAction::Find(Need::Ffmpeg),
            TranscribeStage::WorkDir { .. } => TranscribeAction::MakeWorkDir,
            TranscribeStage::Extract { .. } => TranscribeAction::Extract(WorkFile::Raw),
            TranscribeStage::ProtectRaw { .. } => TranscribeAction::Protect(WorkFile::Raw),
            TranscribeStage::ReadRaw { .. } => TranscribeAction::Read(WorkFile::Raw),
            TranscribeStage::Decoder { .. } => TranscribeAction::Find(Need::SilkDecoder),
            TranscribeStage::WriteSilk { raw, .. } => match write_normalized_silk(raw.as_slice()) {
                Some((_, silk)) => TranscribeAction::Write(WorkFile::Silk, silk),
                None => TranscribeAction::Nothing,
            },
            TranscribeStage::Decode { decoder, .. } => TranscribeAction::Run {
                program: decoder.copy(),
                conversion: Conversion::Decode,
            },
            TranscribeStage::ProtectPcm { .. } => TranscribeAction::Protect(WorkFile::Pcm),
            TranscribeStage::PcmToWav { tools, .. } => TranscribeAction::Run {
                program: tools.ffmpeg.copy(),
                conversion: Conversion::PcmToWav,
            },
            TranscribeStage::AudioToWav { tools, .. } => TranscribeAction::Run {
                program: tools.ffmpeg.copy(),
                conversion: Conversion::AudioToWav,
            },
            TranscribeStage::ProtectWav { .. } => TranscribeAction::Protect(WorkFile::Wav),
            TranscribeStage::Recognize { tools, .. } => TranscribeAction::Run {
                program: tools.whisper.copy(),
                conversion: Conversion::Recognize,
            },
            TranscribeStage::Done(_) => TranscribeAction::Nothing,
            TranscribeStage::Failed(_) => TranscribeAction::Nothing,
        }
    }

    /// The request for the voice message, which is to be written to this path.
    pub fn request(&self, raw_path: String) -> (request: Request)
        ensures
            request matches Request::Extract { attachment_id, output, overwrite } && attachment_id@
                == self.attachment_id@ && output == raw_path && overwrite,
    {
        extract_voice(self.attachment_id.as_str(), raw_path)
    }

    /// The arguments of a run.
    pub fn args(&self, conversion: Conversion) -> (args: Vec<Arg>)
        ensures
            args_view(args@) == conversion.arguments(self.language@),
    {
        conversion.args(self.language.as_str())
    }

    /// Takes what came of the action.
    pub fn answer(self, event: TranscribeEvent) -> (next: Transcription)
        requires
            self.wf(),
        ensures
            next.wf(),
            next.attachment_id == self.attachment_id,
            next.language == self.language,
            next.keep_temp == self.keep_temp,
            next.stage == next_transcribe_stage(self.stage, event),
    {
        let Transcription { attachment_id, language, keep_temp, stage } = self;
        let stage = match (stage, event) {
            (TranscribeStage::Model, TranscribeEvent::Found(found)) => match found {
                Ok(model) => TranscribeStage::Whisper { model },
                Err(error) => TranscribeStage::Failed(TranscribeError::Tool(error)),
            },
            (TranscribeStage::Whisper { model }, TranscribeEvent::Found(found)) => match found {
                Ok(whisper) => TranscribeStage::Ffmpeg { model, whisper },
                Err(error) => TranscribeStage::Failed(TranscribeError::Tool(error)),
            },
            (TranscribeStage::Ffmpeg { model, whisper }, TranscribeEvent::Found(found)) => {
                match found {
                    Ok(ffmpeg) => TranscribeStage::WorkDir {
                        tools: Tools { model, whisper, ffmpeg },
                    },
                    Err(error) => TranscribeStage::Failed(TranscribeError::Tool(error)),
                }
            },
            (TranscribeStage::WorkDir { tools }, TranscribeEvent::Done) => {
                TranscribeStage::Extract { tools }
            },
            (TranscribeStage::Extract { tools }, TranscribeEvent::Extracted { kind, format }) => {
                TranscribeStage::ProtectRaw { tools, kind, format }
            },
            (TranscribeStage::ProtectRaw { tools, kind, format }, TranscribeEvent::Done) => {
                let voice = match &kind {
                    Some(name) => same_text(name.as_str(), "voice"),
                    None => false,
                };
                if voice {
                    TranscribeStage::ReadRaw { tools, format }
                } else {
                    TranscribeStage::Failed(TranscribeError::NotVoice(kind))
                }
            },
            (TranscribeStage::ReadRaw { tools, format }, TranscribeEvent::Read(raw)) => {
                stage_behind_read(tools, format, raw)
            },
            (TranscribeStage::Decoder { tools, raw }, TranscribeEvent::Found(found)) => match found {
                Err(error) => TranscribeStage::Failed(TranscribeError::Tool(error)),
                Ok(decoder) => match find_silk_header(raw.as_slice()) {
                    None => TranscribeStage::Failed(TranscribeError::NoSilkHeader),
                    Some(offset) => TranscribeStage::WriteSilk { tools, decoder, offset, raw },
                },
            },
            (
                TranscribeStage::WriteSilk { tools, decoder, offset, .. },
                TranscribeEvent::Done,
            ) => TranscribeStage::Decode { tools, decoder, offset },
            (TranscribeStage::Decode { tools, decoder, offset }, TranscribeEvent::Ran(outcome)) => {
                if outcome.success && outcome.wrote {
                    TranscribeStage::ProtectPcm { tools, decoder, offset }
                } else {
                    failed_run(Conversion::Decode, outcome)
                }
            },
            (TranscribeStage::ProtectPcm { tools, decoder, offset }, TranscribeEvent::Done) => {
                TranscribeStage::PcmToWav { tools, decoder, offset }
            },
            (TranscribeStage::PcmToWav { tools, decoder, offset }, TranscribeEvent::Ran(outcome)) => {
                if outcome.success {
                    TranscribeStage::ProtectWav {
                        tools,
                        source: VoiceSource::Silk { decoder, offset },
                    }
                } else {
                    failed_run(Conversion::PcmToWav, outcome)
                }
            },
            (TranscribeStage::AudioToWav { tools, format }, TranscribeEvent::Ran(outcome)) => {
                if outcome.success {
                    TranscribeStage::ProtectWav { tools, source: VoiceSource::Other(format) }
                } else {
                    failed_run(Conversion::AudioToWav, outcome)
                }
            },
            (TranscribeStage::ProtectWav { tools, source }, TranscribeEvent::Done) => {
                TranscribeStage::Recognize { tools, source }
            },
            (TranscribeStage::Recognize { tools, source }, TranscribeEvent::Ran(whisper)) => {
                if whisper.success {
                    TranscribeStage::Done(TranscribeReport { tools, source, whisper })
                } else {
                    failed_run(Conversion::Recognize, whisper)
                }
            },
            (stage, _) => stage,
        };
        Transcription { attachment_id, language, keep_temp, stage }
    }

    /// Tells whether the work directory is to be removed in the end.
    pub fn removes_work_dir(&self) -> (removes: bool)
        ensures
            removes == !self.keep_temp,
    {
        !self.keep_temp
    }

    /// Reports a voice message that became text. Others have no report.
    pub fn report(self, work: WorkPaths) -> (report: Option<ReportFields>)
        ensures
            match self.stage {
                TranscribeStage::Done(done) => report matches Some(fields) && is_report(
                    fields,
                    done,
                    self.language,
                    self.keep_temp,
                    work,
                ),
                _ => report is None,
            },
    {
        let Transcription { language, keep_temp, stage, .. } = self;
        match stage {
            TranscribeStage::Done(done) => {
                let transcript = done.transcript();
                let whisper_stderr = done.notes();
                let format = done.source.format_name().to_owned();
                let silk_header_offset = done.source.silk_header_offset();
                let silk_decoder = match done.source {
                    VoiceSource::Silk { decoder, .. } => Some(decoder),
                    VoiceSource::Other(_) => None,
                };
                Some(
                    ReportFields {
                        transcript,
                        language,
                        engine: "whisper.cpp".to_owned(),
                        tools: done.tools,
                        format,
                        silk_header_offset,
                        silk_decoder,
                        whisper_stderr,
                        kept_temp: keep_temp,
                        kept: if keep_temp {
                            Some(kept_files(work))
                        } else {
                            None
                        },
                    },
                )
            },
            _ => None,
        }
    }
}

/// Lists what stays behind.
fn kept_files(work: WorkPaths) -> (kept: KeptFiles)
    ensures
        kept == files_kept(work),
{
    KeptFiles {
        temp_dir: work.dir,
        raw: work.raw,
        silk: if work.silk_there {
            Some(work.silk)
        } else {
            None
        },
        pcm: if work.pcm_there {
            Some(work.pcm)
        } else {
            None
        },
        wav: work.wav,
    }
}

// ---------------------------------------------------------------------------
// What comes of a voice message
// ---------------------------------------------------------------------------

/// What comes of every action for one voice message.
pub struct VoiceWorld {
    pub model: Result<ToolPath, ToolError>,
    pub whisper: Result<ToolPath, ToolError>,
    pub ffmpeg: Result<ToolPath, ToolError>,
    pub decoder: Result<ToolPath, ToolError>,
    pub kind: Option<String>,
    pub format: Option<String>,
    pub raw: Vec<u8>,
    pub run: spec_fn(Conversion) -> RunOutcome,
}

/// What comes of an action.
pub open spec fn event_of(world: VoiceWorld, action: TranscribeActionView) -> TranscribeEvent {
    match action {
        TranscribeActionView::Find(Need::Model) => TranscribeEvent::Found(world.model),
        TranscribeActionView::Find(Need::Whisper) => TranscribeEvent::Found(world.whisper),
        TranscribeActionView::Find(Need::Ffmpeg) => TranscribeEvent::Found(world.ffmpeg),
        TranscribeActionView::Find(Need::SilkDecoder) => TranscribeEvent::Found(world.decoder),
        TranscribeActionView::Extract(_) => TranscribeEvent::Extracted {
            kind: world.kind,
            format: world.format,
        },
        TranscribeActionView::Read(_) => TranscribeEvent::Read(world.raw),
        TranscribeActionView::Run { conversion, .. } => TranscribeEvent::Ran(
            (world.run)(conversion),
        ),
        _ => TranscribeEvent::Done,
    }
}

/// Where a voice message stands behind `n` actions.
pub open spec fn run_transcription(world: VoiceWorld, stage: TranscribeStage, n: nat) -> TranscribeStage
    decreases n,
{
    if n == 0 {
        stage
    } else {
        run_transcription(
            world,
            next_transcribe_stage(stage, event_of(world, action_at(stage))),
            (n - 1) as nat,
        )
    }
}

/// What comes of a WAV file: text, where whisper.cpp succeeds.
pub open spec fn recognized(world: VoiceWorld, tools: Tools, source: VoiceSource) -> TranscribeStage {
    let whisper = (world.run)(Conversion::Recognize);
    if whisper.success {
        TranscribeStage::Done(TranscribeReport { tools, source, whisper })
    } else {
        run_failed(Conversion::Recognize, whisper)
    }
}

/// What comes of a message in SILK.
pub open spec fn silk_transcribed(world: VoiceWorld, tools: Tools) -> TranscribeStage {
    let decoded = (world.run)(Conversion::Decode);
    let converted = (world.run)(Conversion::PcmToWav);
    match (world.decoder, silk_offset(world.raw@)) {
        (Err(error), _) => TranscribeStage::Failed(TranscribeError::Tool(error)),
        (Ok(_), None) => TranscribeStage::Failed(TranscribeError::NoSilkHeader),
        (Ok(decoder), Some(offset)) => if !(decoded.success && decoded.wrote) {
            run_failed(Conversion::Decode, decoded)
        } else if !converted.success {
            run_failed(Conversion::PcmToWav, converted)
        } else {
            recognized(world, tools, VoiceSource::Silk { decoder, offset })
        },
    }
}

/// What comes of a message in another format.
pub open spec fn other_transcribed(world: VoiceWorld, tools: Tools, format: AudioFormat) -> TranscribeStage {
    let converted = (world.run)(Conversion::AudioToWav);
    if converted.success {
        recognized(world, tools, VoiceSource::Other(format))
    } else {
        run_failed(Conversion::AudioToWav, converted)
    }
}

/// What comes of an attachment for which the tools are there.
pub open spec fn attachment_transcribed(world: VoiceWorld, tools: Tools) -> TranscribeStage {
    let format = audio_format(world.format, world.raw@, "aud"@);
    if !(world.kind matches Some(kind) && kind@ == "voice"@) {
        TranscribeStage::Failed(TranscribeError::NotVoice(world.kind))
    } else if format.name() == "silk"@ {
        silk_transcribed(world, tools)
    } else {
        other_transcribed(world, tools, format)
    }
}

/// What comes of an attachment.
pub open spec fn transcribed(world: VoiceWorld) -> TranscribeStage {
    match (world.model, world.whisper, world.ffmpeg) {
        (Err(error), _, _) => TranscribeStage::Failed(TranscribeError::Tool(error)),
        (_, Err(error), _) => TranscribeStage::Failed(TranscribeError::Tool(error)),
        (_, _, Err(error)) => TranscribeStage::Failed(TranscribeError::Tool(error)),
        (Ok(model), Ok(whisper), Ok(ffmpeg)) => attachment_transcribed(
            world,
            Tools { model, whisper, ffmpeg },
        ),
    }
}

/// What a stage will come to.
spec fn outlook(world: VoiceWorld, stage: TranscribeStage) -> TranscribeStage {
    match stage {
        TranscribeStage::Model => transcribed(world),
        TranscribeStage::Whisper { model } => transcribed(VoiceWorld { model: Ok(model), ..world }),
        TranscribeStage::Ffmpeg { model, whisper } => transcribed(
            VoiceWorld { model: Ok(model), whisper: Ok(whisper), ..world },
        ),
        TranscribeStage::WorkDir { tools } => attachment_transcribed(world, tools),
        TranscribeStage::Extract { tools } => attachment_transcribed(world, tools),
        TranscribeStage::ProtectRaw { tools, kind, format } => attachment_transcribed(
            VoiceWorld { kind, format, ..world },
            tools,
        ),
        TranscribeStage::ReadRaw { tools, format } => {
            let detected = audio_format(format, world.raw@, "aud"@);
            if detected.name() == "silk"@ {
                silk_transcribed(world, tools)
            } else {
                other_transcribed(world, tools, detected)
            }
        },
        TranscribeStage::Decoder { tools, raw } => silk_transcribed(
            VoiceWorld { raw, ..world },
            tools,
        ),
        TranscribeStage::WriteSilk { tools, decoder, offset, .. } => decoded_at(
            world,
            tools,
            decoder,
            offset,
        ),
        TranscribeStage::Decode { tools, decoder, offset } => decoded_at(
            world,
            tools,
            decoder,
            offset,
        ),
        TranscribeStage::ProtectPcm { tools, decoder, offset } => converted_at(
            world,
            tools,
            decoder,
            offset,
        ),
        TranscribeStage::PcmToWav { tools, decoder, offset } => converted_at(
            world,
            tools,
            decoder,
            offset,
        ),
        TranscribeStage::AudioToWav { tools, format } => other_transcribed(world, tools, format),
        TranscribeStage::ProtectWav { tools, source } => recognized(world, tools, source),
        TranscribeStage::Recognize { tools, source } => recognized(world, tools, source),
        stage => stage,
    }
}

/// What comes of the decoder's input.
spec fn decoded_at(world: VoiceWorld, tools: Tools, decoder: ToolPath, offset: usize) -> TranscribeStage {
    let decoded = (world.run)(Conversion::Decode);
    if decoded.success && decoded.wrote {
        converted_at(world, tools, decoder, offset)
    } else {
        run_failed(Conversion::Decode, decoded)
    }
}

/// What comes of samples.
spec fn converted_at(world: VoiceWorld, tools: Tools, decoder: ToolPath, offset: usize) -> TranscribeStage {
    let converted = (world.run)(Conversion::PcmToWav);
    if converted.success {
        recognized(world, tools, VoiceSource::Silk { decoder, offset })
    } else {
        run_failed(Conversion::PcmToWav, converted)
    }
}

/// How many actions a stage is from the end, at most.
spec fn actions_left(stage: TranscribeStage) -> nat {
    match stage {
        TranscribeStage::Model => 14,
        TranscribeStage::Whisper { .. } => 13,
        TranscribeStage::Ffmpeg { .. } => 12,
        TranscribeStage::WorkDir { .. } => 11,
        TranscribeStage::Extract { .. } => 10,
        TranscribeStage::ProtectRaw { .. } => 9,
        TranscribeStage::ReadRaw { .. } => 8,
        TranscribeStage::Decoder { .. } => 7,
        TranscribeStage::WriteSilk { .. } => 6,
        TranscribeStage::Decode { .. } => 5,
        TranscribeStage::ProtectPcm { .. } => 4,
        TranscribeStage::PcmToWav { .. } => 3,
        TranscribeStage::AudioToWav { .. } => 3,
        TranscribeStage::ProtectWav { .. } => 2,
        TranscribeStage::Recognize { .. } => 1,
        _ => 0,
    }
}

/// A stage comes to its outlook.
proof fn lemma_comes_to(world: VoiceWorld, stage: TranscribeStage, n: nat)
    requires
        n >= actions_left(stage),
        stage matches TranscribeStage::Decoder { raw, .. } ==> raw == world.raw,
        stage matches TranscribeStage::Whisper { model } ==> world.model == Ok::<
            ToolPath,
            ToolError,
        >(model),
        stage matches TranscribeStage::Ffmpeg { model, whisper } ==> world.model == Ok::<
            ToolPath,
            ToolError,
        >(model) && world.whisper == Ok::<ToolPath, ToolError>(whisper),
        stage matches TranscribeStage::ProtectRaw { kind, format, .. } ==> kind == world.kind
            && format == world.format,
        stage matches TranscribeStage::ReadRaw { format, .. } ==> format == world.format,
    ensures
        run_transcription(world, stage, n) == outlook(world, stage),
    decreases n,
{
    if n > 0 {
        let next = next_transcribe_stage(stage, event_of(world, action_at(stage)));
        if let TranscribeStage::Decoder { raw, .. } = stage {
            assert(VoiceWorld { raw, ..world } == world);
        }
        if let TranscribeStage::ReadRaw { tools, format } = stage {
            assert(VoiceWorld { raw: world.raw, ..world } == world);
        }
        if let TranscribeStage::ProtectRaw { kind, format, .. } = stage {
            assert(VoiceWorld { kind, format, ..world } == world);
        }
        assert(outlook(world, next) == outlook(world, stage));
        lemma_comes_to(world, next, (n - 1) as nat);
    }
}

/// Behind 14 actions at most, every attachment has become what its world says:
/// text where the tools are there, the attachment is a voice message and the
/// programs succeed, and else the first error.
pub proof fn law_transcription(world: VoiceWorld, n: nat)
    requires
        n >= 14,
    ensures
        run_transcription(world, TranscribeStage::Model, n) == transcribed(world),
{
    lemma_comes_to(world, TranscribeStage::Model, n);
}

/// The file that an action makes and that others may read.
pub open spec fn makes(action: TranscribeActionView) -> Option<WorkFile> {
    match action {
        TranscribeActionView::Extract(file) => Some(file),
        TranscribeActionView::Run { conversion, .. } => conversion.writes(),
        _ => None,
    }
}

/// A file that the daemon or a program makes is made private before anything
/// else is done, unless its maker failed.
pub proof fn law_files_are_protected_at_once(stage: TranscribeStage, event: TranscribeEvent)
    ensures
        ({
            let next = next_transcribe_stage(stage, event);
            makes(action_at(stage)) matches Some(file) ==> {
                ||| next == stage
                ||| next is Failed
                ||| action_at(next) == TranscribeActionView::Protect(file)
            }
        }),
{
}

// ---------------------------------------------------------------------------
// The work directory
// ---------------------------------------------------------------------------

/// The mode of a directory that only its owner can use.
pub const PRIVATE_DIR_MODE: u32 = 0o700;

/// The mode of a file that only its owner can use.
pub const PRIVATE_FILE_MODE: u32 = 0o600;

/// How the search for a work directory stands.
#[derive(Debug, Clone, Copy, PartialEq, Eq, Structural)]
pub enum WorkDirStage {
    /// A directory is to be made. This is the number of the attempt.
    Try(u32),
    /// The directory of this attempt is made.
    Made(u32),
    /// Every name was taken.
    GaveUp,
}

/// How an attempt to make a directory moves the search on: it ends with the
/// directory, and else has 128 attempts.
pub open spec fn next_work_dir(stage: WorkDirStage, made: bool) -> WorkDirStage {
    match stage {
        WorkDirStage::Try(attempt) => if made {
            WorkDirStage::Made(attempt)
        } else if attempt < 127 {
            WorkDirStage::Try((attempt + 1) as u32)
        } else {
            WorkDirStage::GaveUp
        },
        stage => stage,
    }
}

/// The name of a work directory.
pub open spec fn work_dir_words(pid: nat, nanos: nat, attempt: nat) -> Seq<char> {
    "wx-transcribe-"@ + decimal(pid) + "-"@ + decimal(nanos) + "-"@ + decimal(attempt)
}

/// Names a work directory by the process, the time and the attempt.
pub fn work_dir_name(pid: u32, nanos: u128, attempt: u32) -> (name: String)
    ensures
        name@ == work_dir_words(pid as nat, nanos as nat, attempt as nat),
{
    let mut name = "wx-transcribe-".to_owned();
    name.append(decimal_text(pid as u128).as_str());
    name.append("-");
    name.append(decimal_text(nanos).as_str());
    name.append("-");
    name.append(decimal_text(attempt as u128).as_str());
    name
}

impl WorkDirStage {
    /// Starts the search for a work directory.
    pub fn new() -> (stage: WorkDirStage)
        ensures
            stage == WorkDirStage::Try(0),
    {
        WorkDirStage::Try(0)
    }

    /// Takes the outcome of an attempt: the directory was made, or its name was
    /// taken.
    pub fn answer(self, made: bool) -> (next: WorkDirStage)
        ensures
            next == next_work_dir(self, made),
    {
        match self {
            WorkDirStage::Try(attempt) => if made {
                WorkDirStage::Made(attempt)
            } else if attempt < 127 {
                WorkDirStage::Try(attempt + 1)
            } else {
                WorkDirStage::GaveUp
            },
            stage => stage,
        }
    }
}

/// Says that every name was taken.
pub fn no_work_dir_message() -> (message: String)
    ensures
        message@ == "创建临时目录失败：连续 128 次命名冲突"@,
{
    "创建临时目录失败：连续 128 次命名冲突".to_owned()
}

/// The search for a work directory behind attempts that all found the name taken.
pub open spec fn taken(n: nat) -> WorkDirStage
    decreases n,
{
    if n == 0 {
        WorkDirStage::Try(0)
    } else {
        next_work_dir(taken((n - 1) as nat), false)
    }
}

/// A work directory is tried 128 times, with another number each time, and then
/// no more.
pub proof fn law_work_dir_attempts(n: nat)
    ensures
        taken(n) == if n < 128 {
            WorkDirStage::Try(n as u32)
        } else {
            WorkDirStage::GaveUp
        },
    decreases n,
{
    if n > 0 {
        law_work_dir_attempts((n - 1) as nat);
    }
}

// ---------------------------------------------------------------------------
// What the programs are told
// ---------------------------------------------------------------------------

/// An argument stands directly behind another one.
pub open spec fn follows(args: Seq<ArgView>, first: ArgView, second: ArgView) -> bool {
    exists|i: int| 0 <= i < args.len() - 1 && #[trigger] args[i] == first && args[i + 1] == second
}

/// For every language, speech recognition is told that very language, directly
/// behind `-l`; the model, behind `-m`; and the file that it reads, behind `-f`.
pub proof fn law_language_is_told(language: Seq<char>)
    ensures
        follows(
            Conversion::Recognize.arguments(language),
            ArgView::Text("-l"@),
            ArgView::Text(language),
        ),
        follows(
            Conversion::Recognize.arguments(language),
            ArgView::Text("-m"@),
            ArgView::File(FileSlot::Model),
        ),
        follows(
            Conversion::Recognize.arguments(language),
            ArgView::Text("-f"@),
            ArgView::File(FileSlot::Input),
        ),
        Conversion::Recognize.arguments(language).contains(ArgView::Text("-nt"@)),
        Conversion::Recognize.arguments(language).contains(ArgView::Text("-np"@)),
{
    let args = Conversion::Recognize.arguments(language);
    assert(args[4] == ArgView::Text("-l"@) && args[5] == ArgView::Text(language));
    assert(args[0] == ArgView::Text("-m"@) && args[1] == ArgView::File(FileSlot::Model));
    assert(args[2] == ArgView::Text("-f"@) && args[3] == ArgView::File(FileSlot::Input));
    assert(args[6] == ArgView::Text("-nt"@));
    assert(args[7] == ArgView::Text("-np"@));
}

/// The runs for two languages have different arguments, and the other runs do not
/// depend on the language.
pub proof fn law_languages_differ(a: Seq<char>, b: Seq<char>, conversion: Conversion)
    ensures
        Conversion::Recognize.arguments(a) == Conversion::Recognize.arguments(b) ==> a == b,
        !(conversion is Recognize) ==> conversion.arguments(a) == conversion.arguments(b),
{
    let x = Conversion::Recognize.arguments(a);
    let y = Conversion::Recognize.arguments(b);
    if x == y {
        assert(x[5] == ArgView::Text(a));
        assert(y[5] == ArgView::Text(b));
    }
}

/// Every program is given the file that it reads, once, and every one that writes a
/// file is given that file as its last argument. ffmpeg reads what stands behind
/// `-i` and is told to write 16 bits at 16 kHz with one channel.
pub proof fn law_files_are_told(conversion: Conversion, language: Seq<char>)
    ensures
        conversion.arguments(language).contains(ArgView::File(FileSlot::Input)),
        forall|i: int, j: int|
            0 <= i < j < conversion.arguments(language).len()
                && #[trigger] conversion.arguments(language)[i] == ArgView::File(FileSlot::Input)
                ==> #[trigger] conversion.arguments(language)[j] != ArgView::File(FileSlot::Input),
        conversion.writes() is Some ==> conversion.arguments(language).last() == ArgView::File(
            FileSlot::Output,
        ),
        conversion is PcmToWav || conversion is AudioToWav ==> {
            let args = conversion.arguments(language);
            &&& follows(args, ArgView::Text("-i"@), ArgView::File(FileSlot::Input))
            &&& follows(args, ArgView::Text("-ar"@), ArgView::Text("16000"@))
            &&& follows(args, ArgView::Text("-ac"@), ArgView::Text("1"@))
            &&& follows(args, ArgView::Text("-c:a"@), ArgView::Text("pcm_s16le"@))
        },
        conversion is PcmToWav ==> {
            let args = conversion.arguments(language);
            &&& follows(args, ArgView::Text("-f"@), ArgView::Text("s16le"@))
            &&& follows(args, ArgView::Text("-ar"@), ArgView::Text("24000"@))
        },
{
    let args = conversion.arguments(language);
    match conversion {
        Conversion::Decode => {
            assert(args[0] == ArgView::File(FileSlot::Input));
        },
        Conversion::PcmToWav => {
            assert(args[1] == ArgView::Text("-f"@) && args[2] == ArgView::Text("s16le"@));
            assert(args[3] == ArgView::Text("-ar"@) && args[4] == ArgView::Text("24000"@));
            assert(args[5] == ArgView::Text("-ac"@) && args[6] == ArgView::Text("1"@));
            assert(args[7] == ArgView::Text("-i"@) && args[8] == ArgView::File(FileSlot::Input));
            assert(args[9] == ArgView::Text("-ar"@) && args[10] == ArgView::Text("16000"@));
            assert(args[13] == ArgView::Text("-c:a"@) && args[14] == ArgView::Text("pcm_s16le"@));
        },
        Conversion::AudioToWav => {
            assert(args[1] == ArgView::Text("-i"@) && args[2] == ArgView::File(FileSlot::Input));
            assert(args[3] == ArgView::Text("-ar"@) && args[4] == ArgView::Text("16000"@));
            assert(args[5] == ArgView::Text("-ac"@) && args[6] == ArgView::Text("1"@));
            assert(args[7] == ArgView::Text("-c:a"@) && args[8] == ArgView::Text("pcm_s16le"@));
        },
        Conversion::Recognize => {
            assert(args[3] == ArgView::File(FileSlot::Input));
        },
    }
}

/// Each program reads what the one before it wrote: a decoder the file in SILK that
/// was written for it, ffmpeg the decoder's samples or the voice message as it is
/// stored, and speech recognition the WAV file. Different files have different
/// names.
pub proof fn law_files_are_handed_on(a: WorkFile, b: WorkFile)
    ensures
        Conversion::Decode.reads() is Silk,
        Conversion::Decode.writes() == Some(Conversion::PcmToWav.reads()),
        Conversion::AudioToWav.reads() is Raw,
        Conversion::PcmToWav.writes() == Some(Conversion::Recognize.reads()),
        Conversion::AudioToWav.writes() == Some(Conversion::Recognize.reads()),
        Conversion::Decode.reads() != Conversion::PcmToWav.reads(),
        Conversion::PcmToWav.reads() != Conversion::Recognize.reads(),
        Conversion::Recognize.reads() != Conversion::AudioToWav.reads(),
        a.name() == b.name() ==> a == b,
{
    reveal_strlit("voice.aud");
    reveal_strlit("voice.silk");
    reveal_strlit("voice.pcm");
    reveal_strlit("voice.wav");
    assert("voice.silk"@.len() == 10 && "voice.aud"@.len() == 9 && "voice.pcm"@.len() == 9
        && "voice.wav"@.len() == 9);
    assert("voice.aud"@[6] == 'a' && "voice.pcm"@[6] == 'p' && "voice.wav"@[6] == 'w');
}

/// A decoder is given all of a voice message from the header of SILK on, and every
/// run is made with the program that was found for it.
pub proof fn law_programs_get_their_files(
    before: Seq<u8>,
    silk: Seq<u8>,
    tools: Tools,
    decoder: ToolPath,
    raw: Vec<u8>,
    offset: usize,
    source: VoiceSource,
    format: AudioFormat,
)
    requires
        raw@ == before + silk,
        offset == before.len(),
    ensures
        action_at(TranscribeStage::WriteSilk { tools, decoder, offset, raw })
            == TranscribeActionView::Write(WorkFile::Silk, silk),
        action_at(TranscribeStage::Decode { tools, decoder, offset }) == (
        TranscribeActionView::Run { program: decoder@, conversion: Conversion::Decode }),
        action_at(TranscribeStage::PcmToWav { tools, decoder, offset }) == (
        TranscribeActionView::Run { program: tools.ffmpeg@, conversion: Conversion::PcmToWav }),
        action_at(TranscribeStage::AudioToWav { tools, format }) == (
        TranscribeActionView::Run { program: tools.ffmpeg@, conversion: Conversion::AudioToWav }),
        action_at(TranscribeStage::Recognize { tools, source }) == (
        TranscribeActionView::Run { program: tools.whisper@, conversion: Conversion::Recognize }),
{
    assert(raw@.skip(offset as int) =~= silk);
}

/// An action says what is to be done: with which file, which bytes, and which
/// program.
pub proof fn law_action_view(action: TranscribeAction)
    ensures
        match action {
            TranscribeAction::Find(need) => action@ == TranscribeActionView::Find(need),
            TranscribeAction::MakeWorkDir => action@ == TranscribeActionView::MakeWorkDir,
            TranscribeAction::Extract(file) => action@ == TranscribeActionView::Extract(file),
            TranscribeAction::Protect(file) => action@ == TranscribeActionView::Protect(file),
            TranscribeAction::Read(file) => action@ == TranscribeActionView::Read(file),
            TranscribeAction::Write(file, bytes) => action@ == TranscribeActionView::Write(
                file,
                bytes@,
            ),
            TranscribeAction::Run { program, conversion } => action@ == (
            TranscribeActionView::Run { program: program@, conversion }),
            TranscribeAction::Nothing => action@ == TranscribeActionView::Nothing,
        },
{
}

// ---------------------------------------------------------------------------
// When there is text
// ---------------------------------------------------------------------------

/// The runs that a voice message needs succeed: for SILK the decoder, which must
/// also have written its file, and ffmpeg; for other formats ffmpeg; and for each
/// speech recognition.
pub open spec fn runs_succeed(world: VoiceWorld) -> bool {
    &&& (world.run)(Conversion::Recognize).success
    &&& if audio_format(world.format, world.raw@, "aud"@).name() == "silk"@ {
        &&& world.decoder is Ok
        &&& silk_offset(world.raw@) is Some
        &&& (world.run)(Conversion::Decode).success
        &&& (world.run)(Conversion::Decode).wrote
        &&& (world.run)(Conversion::PcmToWav).success
    } else {
        (world.run)(Conversion::AudioToWav).success
    }
}

/// There is text exactly where the model, whisper.cpp and ffmpeg are found, the
/// attachment is a voice message, and the runs that it needs succeed. The report
/// names the tools that were found, and holds what speech recognition printed.
pub proof fn law_when_there_is_text(world: VoiceWorld, n: nat)
    requires
        n >= 14,
    ensures
        ({
            let end = run_transcription(world, TranscribeStage::Model, n);
            &&& end is Done <==> {
                &&& world.model is Ok
                &&& world.whisper is Ok
                &&& world.ffmpeg is Ok
                &&& world.kind is Some
                &&& world.kind->0@ == "voice"@
                &&& runs_succeed(world)
            }
            &&& end is Done || end is Failed
            &&& end matches TranscribeStage::Done(report) ==> {
                &&& report.tools.model == world.model->Ok_0
                &&& report.tools.whisper == world.whisper->Ok_0
                &&& report.tools.ffmpeg == world.ffmpeg->Ok_0
                &&& report.whisper == (world.run)(Conversion::Recognize)
                &&& if audio_format(world.format, world.raw@, "aud"@).name() == "silk"@ {
                    report.source == (VoiceSource::Silk {
                        decoder: world.decoder->Ok_0,
                        offset: silk_offset(world.raw@)->0,
                    })
                } else {
                    report.source == VoiceSource::Other(
                        audio_format(world.format, world.raw@, "aud"@),
                    )
                }
            }
        }),
{
    law_transcription(world, n);
}

/// What went wrong first is told: a missing tool before anything else, then an
/// attachment that is no voice message, and then the first run that failed, with
/// its status and what it printed.
pub proof fn law_first_error_is_told(world: VoiceWorld, n: nat)
    requires
        n >= 14,
    ensures
        ({
            let end = run_transcription(world, TranscribeStage::Model, n);
            let tools = world.model is Ok && world.whisper is Ok && world.ffmpeg is Ok;
            let voice = world.kind is Some && world.kind->0@ == "voice"@;
            let silk = audio_format(world.format, world.raw@, "aud"@).name() == "silk"@;
            let failed = |conversion: Conversion|
                TranscribeStage::Failed(
                    TranscribeError::RunFailed {
                        conversion,
                        status: (world.run)(conversion).status,
                        stderr: (world.run)(conversion).stderr,
                    },
                );
            let decoded = (world.run)(Conversion::Decode).success && (world.run)(
                Conversion::Decode,
            ).wrote;
            let header = world.decoder is Ok && silk_offset(world.raw@) is Some;
            &&& world.model is Err ==> end == TranscribeStage::Failed(
                TranscribeError::Tool(world.model->Err_0),
            )
            &&& world.model is Ok && world.whisper is Err ==> end == TranscribeStage::Failed(
                TranscribeError::Tool(world.whisper->Err_0),
            )
            &&& world.model is Ok && world.whisper is Ok && world.ffmpeg is Err ==> end
                == TranscribeStage::Failed(TranscribeError::Tool(world.ffmpeg->Err_0))
            &&& tools && !voice ==> end == TranscribeStage::Failed(
                TranscribeError::NotVoice(world.kind),
            )
            &&& tools && voice && silk && world.decoder is Err ==> end == TranscribeStage::Failed(
                TranscribeError::Tool(world.decoder->Err_0),
            )
            &&& tools && voice && silk && world.decoder is Ok && silk_offset(world.raw@) is None
                ==> end == TranscribeStage::Failed(TranscribeError::NoSilkHeader)
            &&& tools && voice && silk && header && !decoded ==> end == failed(Conversion::Decode)
            &&& tools && voice && silk && header && decoded && !(world.run)(
                Conversion::PcmToWav,
            ).success ==> end == failed(Conversion::PcmToWav)
            &&& tools && voice && !silk && !(world.run)(Conversion::AudioToWav).success ==> end
                == failed(Conversion::AudioToWav)
            &&& tools && voice && !(world.run)(Conversion::Recognize).success && (if silk {
                header && decoded && (world.run)(Conversion::PcmToWav).success
            } else {
                (world.run)(Conversion::AudioToWav).success
            }) ==> end == failed(Conversion::Recognize)
        }),
{
    law_transcription(world, n);
}

/// A report holds the text without empty lines and without white space at the ends
/// of lines, the user's language, the tools, what the voice message was, and the
/// files that stay behind, where they do.
pub proof fn law_report(
    fields: ReportFields,
    done: TranscribeReport,
    language: String,
    keep_temp: bool,
    work: WorkPaths,
)
    requires
        is_report(fields, done, language, keep_temp, work),
    ensures
        fields.transcript@ == clean_text(utf8_lossy(done.whisper.stdout@)),
        fields.whisper_stderr@ == trimmed(utf8_lossy(done.whisper.stderr@)),
        fields.language == language,
        fields.engine@ == "whisper.cpp"@,
        fields.tools == done.tools,
        fields.kept_temp == keep_temp,
        done.source matches VoiceSource::Silk { decoder, offset } ==> fields.format@ == "silk"@
            && fields.silk_decoder == Some(decoder) && fields.silk_header_offset == Some(offset),
        done.source matches VoiceSource::Other(format) ==> fields.format@ == format.name()
            && fields.silk_decoder is None && fields.silk_header_offset is None,
        !keep_temp ==> fields.kept is None,
        keep_temp ==> {
            &&& fields.kept is Some
            &&& fields.kept->0.temp_dir == work.dir
            &&& fields.kept->0.raw == work.raw
            &&& fields.kept->0.wav == work.wav
            &&& work.silk_there ==> fields.kept->0.silk == Some(work.silk)
            &&& !work.silk_there ==> fields.kept->0.silk is None
            &&& work.pcm_there ==> fields.kept->0.pcm == Some(work.pcm)
            &&& !work.pcm_there ==> fields.kept->0.pcm is None
        },
{
}

/// The words for a failed run name the program, its status and all that it printed
/// about the failure.
pub proof fn law_words_for_a_failed_run(conversion: Conversion, status: String, stderr: Vec<u8>)
    ensures
        ({
            let words = TranscribeError::RunFailed { conversion, status, stderr }.words();
            &&& conversion.title().is_prefix_of(words)
            &&& holds_text(words, status@)
            &&& holds_text(words, trimmed(utf8_lossy(stderr@)))
        }),
{
    let words = TranscribeError::RunFailed { conversion, status, stderr }.words();
    let printed = trimmed(utf8_lossy(stderr@));
    let a = conversion.title() + " 失败："@;
    law_holds_text(a, status@, "\n"@ + printed);
    assert(words =~= a + status@ + ("\n"@ + printed));
    law_holds_text(a + status@ + "\n"@, printed, Seq::empty());
    assert(words =~= a + status@ + "\n"@ + printed + Seq::<char>::empty());
    assert(words.take(conversion.title().len() as int) =~= conversion.title());
}

/// The words for an attachment that is no voice message name its kind.
pub proof fn law_words_for_another_kind(kind: String)
    ensures
        holds_text(TranscribeError::NotVoice(Some(kind)).words(), kind@),
{
    let words = TranscribeError::NotVoice(Some(kind)).words();
    let a = "attachment_id 不是语音资源（kind="@;
    let b = "），请先用 `wx attachments CHAT --kind voice` 获取语音 ID"@;
    law_holds_text(a, kind@, b);
    assert(words =~= a + kind@ + b);
}

/// Different attempts, times and processes have different work directories.
pub proof fn law_work_dirs_differ(a: (nat, nat, nat), b: (nat, nat, nat))
    ensures
        work_dir_words(a.0, a.1, a.2) == work_dir_words(b.0, b.1, b.2) ==> a == b,
{
    law_numbered_names_differ("wx-transcribe-"@, a, b);
}

/// An attempt that makes the directory ends the search with its number.
pub proof fn law_made_dir_is_taken(attempt: u32, made: bool)
    ensures
        next_work_dir(WorkDirStage::Try(attempt), true) == WorkDirStage::Made(attempt),
        next_work_dir(WorkDirStage::Made(attempt), made) == WorkDirStage::Made(attempt),
        next_work_dir(WorkDirStage::GaveUp, made) == WorkDirStage::GaveUp,
{
}

/// An event that does not belong to the action does not move a voice message, and
/// nothing moves one at its end.
pub proof fn law_other_events_do_not_count(stage: TranscribeStage, event: TranscribeEvent)
    ensures
        (stage is Model || stage is Whisper || stage is Ffmpeg || stage is Decoder) && !(
        event is Found) ==> next_transcribe_stage(stage, event) == stage,
        (stage is WorkDir || stage is ProtectRaw || stage is WriteSilk || stage is ProtectPcm
            || stage is ProtectWav) && !(event is Done) ==> next_transcribe_stage(stage, event)
            == stage,
        stage is Extract && !(event is Extracted) ==> next_transcribe_stage(stage, event) == stage,
        stage is ReadRaw && !(event is Read) ==> next_transcribe_stage(stage, event) == stage,
        (stage is Decode || stage is PcmToWav || stage is AudioToWav || stage is Recognize) && !(
        event is Ran) ==> next_transcribe_stage(stage, event) == stage,
        stage is Done || stage is Failed ==> next_transcribe_stage(stage, event) == stage,
{
}

/// The files and the runs are called by these names.
pub proof fn law_names_of_files(file: WorkFile, conversion: Conversion)
    ensures
        file is Raw ==> file.name() == "voice.aud"@,
        file is Silk ==> file.name() == "voice.silk"@,
        file is Pcm ==> file.name() == "voice.pcm"@,
        file is Wav ==> file.name() == "voice.wav"@,
        conversion is Decode ==> conversion.title() == "SILK decoder"@,
        conversion is PcmToWav ==> conversion.title() == "ffmpeg PCM -> WAV"@,
        conversion is AudioToWav ==> conversion.title() == "ffmpeg audio -> WAV"@,
        conversion is Recognize ==> conversion.title() == "whisper-cli"@,
{
}

} // verus!
