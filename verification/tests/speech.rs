use wx_cli::audio::{detect_audio_format, find_silk_header, write_normalized_silk};
use wx_cli::command::{Arg, FileSlot};
use wx_cli::request::{cmd_extract, Request};
use wx_cli::tools::{
    require_existing_file, resolve_required_model, resolve_tool, Need, Program, ToolError,
    ToolPath, ToolQuestion, ToolReply, ToolSearch, ToolStage,
};
use wx_cli::transcribe::{
    cmd_transcribe, no_work_dir_message, work_dir_name, Conversion, RunOutcome, TranscribeAction,
    TranscribeError, TranscribeEvent, TranscribeReport, TranscribeStage, Transcription,
    VoiceSource, WorkDirStage, WorkFile, WorkPaths, PRIVATE_DIR_MODE, PRIVATE_FILE_MODE,
};
use wx_cli::transcript::clean_whisper_stdout;

#[test]
fn clean_whisper_stdout_keeps_non_empty_lines() {
    assert_eq!(clean_whisper_stdout("\n  你好  \n\n世界\n"), "你好\n世界");
}

#[test]
fn cleaning_twice_is_cleaning_once() {
    let once = clean_whisper_stdout("\t a b \r\n\u{3000}\n c\u{a0}\r\n\r\n");
    assert_eq!(once, "a b\nc");
    assert_eq!(clean_whisper_stdout(&once), once);
    assert_eq!(clean_whisper_stdout(" \n \n"), "");
    assert_eq!(clean_whisper_stdout(""), "");
}

fn format_of(reported: Option<&str>, bytes: &[u8], extension: &str) -> String {
    detect_audio_format(reported.map(str::to_string), bytes, extension)
        .as_str()
        .to_string()
}

#[test]
fn formats_by_bytes_report_and_extension() {
    assert_eq!(format_of(Some("amr"), b"\x02#!SILK_V3", "wav"), "silk");
    assert_eq!(format_of(None, b"12345678#!SILK", "aud"), "silk");
    assert_eq!(format_of(None, b"123456789#!SILK", "aud"), "bin");
    assert_eq!(format_of(None, b"#!AMR\n", "aud"), "amr");
    assert_eq!(format_of(None, b"RIFF\0\0\0\0WAVE", "aud"), "wav");
    assert_eq!(format_of(None, b"RIFF\0\0\0\0WAV", "aud"), "bin");
    assert_eq!(format_of(None, b"ID3\x04", "aud"), "mp3");
    assert_eq!(format_of(None, &[0xff, 0xfb, 0], "aud"), "mp3");
    assert_eq!(format_of(None, b"\0\0\0\x20ftypM4A ", "aud"), "m4a");
    assert_eq!(format_of(None, b"\0\0\0\x20ftypM4A", "aud"), "bin");
    assert_eq!(format_of(Some("opus"), b"xx", "wav"), "opus");
    assert_eq!(format_of(Some("bin"), b"xx", "wav"), "wav");
    assert_eq!(format_of(Some("dat"), b"xx", "m4a"), "m4a");
    assert_eq!(format_of(Some(""), b"xx", "mp3"), "mp3");
    assert_eq!(format_of(None, b"", "slk"), "silk");
    assert_eq!(format_of(None, b"", "silk"), "silk");
    assert_eq!(format_of(None, b"", "amr"), "amr");
    assert_eq!(format_of(None, b"", "aud"), "bin");
}

#[test]
fn silk_is_cut_at_its_header() {
    assert_eq!(
        write_normalized_silk(b"\x02#!SILK_V3"),
        Some((1, b"#!SILK_V3".to_vec()))
    );
    assert_eq!(write_normalized_silk(b"no header"), None);
    assert_eq!(find_silk_header(b"12345678#!SILK#!SILK"), Some(8));
    assert_eq!(find_silk_header(b"123456789#!SILK"), None);
}

// ---------------------------------------------------------------------------
// Tools
// ---------------------------------------------------------------------------

struct FakeMachine {
    files: Vec<&'static str>,
    env: Option<&'static str>,
    path: Option<Vec<&'static str>>,
}

impl FakeMachine {
    fn has(&self, path: &str) -> bool {
        self.files.iter().any(|f| *f == path)
    }

    fn locate(&self, search: ToolSearch) -> Result<ToolPath, ToolError> {
        let mut search = search;
        loop {
            let reply = match search.question() {
                ToolQuestion::IsFile(path) => {
                    ToolReply::IsFile(self.has(&String::from_utf8_lossy(&path)))
                }
                ToolQuestion::IsFileIn { dir, name } => ToolReply::IsFile(self.has(&format!(
                    "{}/{}",
                    String::from_utf8(dir).unwrap(),
                    name
                ))),
                ToolQuestion::Env(_) => ToolReply::Env(self.env.map(|e| e.as_bytes().to_vec())),
                ToolQuestion::PathDirs => ToolReply::PathDirs(
                    self.path
                        .as_ref()
                        .map(|dirs| dirs.iter().map(|d| d.as_bytes().to_vec()).collect()),
                ),
                ToolQuestion::Nothing => break,
            };
            search = search.answer(reply);
        }
        match search.stage {
            ToolStage::Done(result) => result,
            _ => panic!("the search has not ended"),
        }
    }
}

fn at(path: &str) -> ToolPath {
    ToolPath::At(path.as_bytes().to_vec())
}

fn shown_tool(path: &ToolPath) -> String {
    match path {
        ToolPath::At(path) => String::from_utf8(path.clone()).unwrap(),
        ToolPath::In { dir, program } => format!(
            "{}/{}",
            String::from_utf8(dir.clone()).unwrap(),
            program.file_name()
        ),
    }
}

#[test]
fn a_given_path_wins_and_must_be_a_file() {
    let machine = FakeMachine {
        files: vec!["/opt/w", "/env/w", "/bin/whisper-cli"],
        env: Some("/env/w"),
        path: Some(vec!["/bin"]),
    };
    let search = |given: Option<&str>| {
        resolve_tool(Need::Whisper, given.map(|g| g.as_bytes().to_vec()))
    };
    assert_eq!(shown_tool(&machine.locate(search(Some("/opt/w"))).unwrap()), "/opt/w");
    assert_eq!(
        machine.locate(search(Some("/none"))).unwrap_err().message(),
        "WX_WHISPER_BIN 指向的文件不存在：/none"
    );
    assert_eq!(shown_tool(&machine.locate(search(None)).unwrap()), "/env/w");
}

#[test]
fn the_environment_comes_before_the_search_path() {
    let machine = FakeMachine {
        files: vec!["/bin/ffmpeg"],
        env: Some("/gone"),
        path: Some(vec!["/bin"]),
    };
    assert_eq!(
        machine
            .locate(resolve_tool(Need::Ffmpeg, None))
            .unwrap_err()
            .message(),
        "WX_FFMPEG 指向的文件不存在：/gone"
    );
}

#[test]
fn names_are_tried_before_directories() {
    let machine = FakeMachine {
        files: vec!["/b/silk_v3_decoder", "/a/silk_decoder", "/c/silk_v3_decoder"],
        env: None,
        path: Some(vec!["/a", "/b", "/c"]),
    };
    let found = machine.locate(resolve_tool(Need::SilkDecoder, None)).unwrap();
    assert_eq!(shown_tool(&found), "/b/silk_v3_decoder");
    match found {
        ToolPath::In { program, .. } => assert_eq!(program, Program::SilkV3Decoder),
        ToolPath::At(_) => panic!("not in a directory"),
    }
}

#[test]
fn missing_tools_are_named() {
    let machine = FakeMachine {
        files: Vec::new(),
        env: None,
        path: None,
    };
    let missing = |need: Need| machine.locate(resolve_tool(need, None)).unwrap_err().message();
    assert_eq!(
        missing(Need::Whisper),
        "找不到 whisper.cpp 的 whisper-cli；请用 --whisper-bin 指定路径，或设置 WX_WHISPER_BIN"
    );
    assert_eq!(
        missing(Need::Ffmpeg),
        "找不到 ffmpeg；请安装 ffmpeg，或用 --ffmpeg 指定路径"
    );
    assert_eq!(
        missing(Need::SilkDecoder),
        "找不到 SILK v3 decoder；请用 --silk-decoder 指定 kn007/silk-v3-decoder 的 silk/decoder 路径，或设置 WX_SILK_DECODER"
    );
    assert_eq!(
        machine
            .locate(resolve_required_model(None))
            .unwrap_err()
            .message(),
        "缺少 whisper.cpp 模型路径；请传 --model /path/to/ggml-large-v3-turbo.bin，或设置 WX_WHISPER_MODEL"
    );
    assert_eq!(
        machine
            .locate(resolve_required_model(Some(b"m\xff".to_vec())))
            .unwrap_err()
            .message(),
        "--model 指向的文件不存在：m\u{fffd}"
    );
    assert!(require_existing_file(Need::Model, true, b"m".to_vec(), true).is_ok());
    assert_eq!(Need::Model.env_name(), "WX_WHISPER_MODEL");
}

// ---------------------------------------------------------------------------
// The way to the text
// ---------------------------------------------------------------------------

fn ran(success: bool, stdout: &[u8], stderr: &[u8]) -> RunOutcome {
    RunOutcome {
        success,
        status: "exit status: 1".to_string(),
        stdout: stdout.to_vec(),
        stderr: stderr.to_vec(),
        wrote: true,
    }
}

fn step_name(action: &TranscribeAction) -> String {
    match action {
        TranscribeAction::Find(need) => format!("find {:?}", need),
        TranscribeAction::MakeWorkDir => "dir".to_string(),
        TranscribeAction::Extract(file) => format!("extract {}", file.file_name()),
        TranscribeAction::Protect(file) => format!("protect {}", file.file_name()),
        TranscribeAction::Read(file) => format!("read {}", file.file_name()),
        TranscribeAction::Write(file, bytes) => {
            format!("write {} {}", file.file_name(), bytes.len())
        }
        TranscribeAction::Run {
            program,
            conversion,
        } => format!("run {} {}", shown_tool(program), conversion.stage_name()),
        TranscribeAction::Nothing => "nothing".to_string(),
    }
}

/// Runs a transcription in which every step succeeds but the named conversion.
fn transcribe(
    kind: Option<&str>,
    format: Option<&str>,
    raw: &[u8],
    fails: Option<Conversion>,
) -> (Transcription, Vec<String>) {
    let mut way = cmd_transcribe("id-1".to_string(), "zh".to_string(), true);
    let mut steps = Vec::new();
    loop {
        let action = way.action();
        steps.push(step_name(&action));
        let event = match action {
            TranscribeAction::Find(Need::Model) => TranscribeEvent::Found(Ok(at("/model"))),
            TranscribeAction::Find(Need::Whisper) => TranscribeEvent::Found(Ok(at("/whisper"))),
            TranscribeAction::Find(Need::Ffmpeg) => TranscribeEvent::Found(Ok(at("/ffmpeg"))),
            TranscribeAction::Find(Need::SilkDecoder) => TranscribeEvent::Found(Ok(at("/silk"))),
            TranscribeAction::Extract(_) => TranscribeEvent::Extracted {
                kind: kind.map(str::to_string),
                format: format.map(str::to_string),
            },
            TranscribeAction::Read(_) => TranscribeEvent::Read(raw.to_vec()),
            TranscribeAction::Run { conversion, .. } => TranscribeEvent::Ran(ran(
                fails != Some(conversion),
                " 你好 \n".as_bytes(),
                b" note \xff\n",
            )),
            TranscribeAction::Nothing => break,
            _ => TranscribeEvent::Done,
        };
        way = way.answer(event);
    }
    (way, steps)
}

fn report_of(way: Transcription) -> TranscribeReport {
    match way.stage {
        TranscribeStage::Done(report) => report,
        _ => panic!("no text"),
    }
}

fn error_of(way: Transcription) -> TranscribeError {
    match way.stage {
        TranscribeStage::Failed(error) => error,
        _ => panic!("no error"),
    }
}

#[test]
fn silk_goes_through_decoder_and_ffmpeg() {
    let (way, steps) = transcribe(Some("voice"), None, b"\x02#!SILK_V3", None);
    assert_eq!(
        steps,
        vec![
            "find Model",
            "find Whisper",
            "find Ffmpeg",
            "dir",
            "extract voice.aud",
            "protect voice.aud",
            "read voice.aud",
            "find SilkDecoder",
            "write voice.silk 9",
            "run /silk SILK decoder",
            "protect voice.pcm",
            "run /ffmpeg ffmpeg PCM -> WAV",
            "protect voice.wav",
            "run /whisper whisper-cli",
            "nothing",
        ]
    );
    let report = report_of(way);
    assert_eq!(report.transcript(), "你好");
    assert_eq!(report.notes(), "note \u{fffd}");
    assert_eq!(report.source.format_name(), "silk");
    assert_eq!(report.source.silk_header_offset(), Some(1));
    assert_eq!(shown_tool(&report.tools.model), "/model");
}

fn work_paths(silk_there: bool, pcm_there: bool) -> WorkPaths {
    WorkPaths {
        dir: "/w".to_string(),
        raw: "/w/voice.aud".to_string(),
        silk: "/w/voice.silk".to_string(),
        pcm: "/w/voice.pcm".to_string(),
        wav: "/w/voice.wav".to_string(),
        silk_there,
        pcm_there,
    }
}

#[test]
fn a_report_of_silk_with_kept_files() {
    let (way, _) = transcribe(Some("voice"), None, b"\x02#!SILK_V3", None);
    assert!(!way.removes_work_dir());
    let report = way.report(work_paths(true, false)).unwrap();
    assert_eq!(report.transcript, "你好");
    assert_eq!(report.language, "zh");
    assert_eq!(report.engine, "whisper.cpp");
    assert_eq!(report.format, "silk");
    assert_eq!(report.silk_header_offset, Some(1));
    assert_eq!(shown_tool(&report.silk_decoder.unwrap()), "/silk");
    assert_eq!(shown_tool(&report.tools.ffmpeg), "/ffmpeg");
    assert_eq!(report.whisper_stderr, "note \u{fffd}");
    assert!(report.kept_temp);
    let kept = report.kept.unwrap();
    assert_eq!(kept.temp_dir, "/w");
    assert_eq!(kept.raw, "/w/voice.aud");
    assert_eq!(kept.silk, Some("/w/voice.silk".to_string()));
    assert_eq!(kept.pcm, None);
    assert_eq!(kept.wav, "/w/voice.wav");
}

#[test]
fn a_report_of_another_format_without_kept_files() {
    let (mut way, _) = transcribe(Some("voice"), Some("opus"), b"OggS", None);
    way.keep_temp = false;
    assert!(way.removes_work_dir());
    let report = way.report(work_paths(false, true)).unwrap();
    assert_eq!(report.format, "opus");
    assert_eq!(report.silk_header_offset, None);
    assert!(report.silk_decoder.is_none());
    assert!(!report.kept_temp);
    assert!(report.kept.is_none());
    let (way, _) = transcribe(Some("image"), None, b"", None);
    assert!(way.report(work_paths(false, false)).is_none());
}

#[test]
fn other_formats_go_through_ffmpeg_alone() {
    let (way, steps) = transcribe(Some("voice"), Some("opus"), b"OggS", None);
    assert_eq!(
        steps[7..].to_vec(),
        vec![
            "run /ffmpeg ffmpeg audio -> WAV",
            "protect voice.wav",
            "run /whisper whisper-cli",
            "nothing",
        ]
    );
    let source = report_of(way).source;
    assert_eq!(source.format_name(), "opus");
    assert_eq!(source.silk_header_offset(), None);
}

#[test]
fn other_attachments_are_refused() {
    let (way, steps) = transcribe(Some("image"), None, b"", None);
    assert_eq!(steps.len(), 7);
    assert_eq!(
        error_of(way).message(),
        "attachment_id 不是语音资源（kind=image），请先用 `wx attachments CHAT --kind voice` 获取语音 ID"
    );
    let (way, _) = transcribe(None, None, b"", None);
    assert_eq!(
        error_of(way).message(),
        "attachment_id 不是语音资源（kind=），请先用 `wx attachments CHAT --kind voice` 获取语音 ID"
    );
}

#[test]
fn silk_without_a_header_is_refused() {
    let (way, steps) = transcribe(Some("voice"), Some("silk"), b"no header", None);
    assert_eq!(steps[7], "find SilkDecoder");
    assert_eq!(
        error_of(way).message(),
        "语音报告为 SILK，但前 8 字节内找不到 #!SILK header，无法调用 SILK decoder"
    );
}

#[test]
fn failed_programs_are_reported() {
    let failure = |raw: &[u8], conversion: Conversion| {
        let (way, _) = transcribe(Some("voice"), None, raw, Some(conversion));
        error_of(way).message()
    };
    assert_eq!(
        failure(b"#!SILK", Conversion::Decode),
        "SILK decoder 失败：exit status: 1\nnote \u{fffd}"
    );
    assert_eq!(
        failure(b"#!SILK", Conversion::PcmToWav),
        "ffmpeg PCM -> WAV 失败：exit status: 1\nnote \u{fffd}"
    );
    assert_eq!(
        failure(b"#!AMR", Conversion::AudioToWav),
        "ffmpeg audio -> WAV 失败：exit status: 1\nnote \u{fffd}"
    );
    assert_eq!(
        failure(b"#!AMR", Conversion::Recognize),
        "whisper-cli 失败：exit status: 1\nnote \u{fffd}"
    );
}

#[test]
fn a_decoder_must_have_written_its_file() {
    let mut way = cmd_transcribe("id".to_string(), "zh".to_string(), false);
    way.stage = match transcribe(Some("voice"), None, b"#!SILK", None).0.stage {
        TranscribeStage::Done(report) => match report.source {
            VoiceSource::Silk { decoder, offset } => TranscribeStage::Decode {
                tools: report.tools,
                decoder,
                offset,
            },
            VoiceSource::Other(_) => panic!("not SILK"),
        },
        _ => panic!("no text"),
    };
    let mut outcome = ran(true, b"", b"");
    outcome.wrote = false;
    let way = way.answer(TranscribeEvent::Ran(outcome));
    assert_eq!(
        error_of(way).message(),
        "SILK decoder 失败：exit status: 1\n"
    );
}

#[test]
fn a_missing_tool_ends_the_way() {
    let way = cmd_transcribe("id".to_string(), "zh".to_string(), false)
        .answer(TranscribeEvent::Found(Err(ToolError::Missing(Need::Model))));
    assert!(error_of(way).message().starts_with("缺少 whisper.cpp 模型路径"));
}

fn words(args: &[Arg]) -> Vec<String> {
    args.iter()
        .map(|a| match a {
            Arg::Text(t) => t.clone(),
            Arg::File(FileSlot::Input) => "<in>".to_string(),
            Arg::File(FileSlot::Output) => "<out>".to_string(),
            Arg::File(FileSlot::Model) => "<model>".to_string(),
        })
        .collect()
}

#[test]
fn arguments_of_the_programs() {
    let way = cmd_transcribe("id".to_string(), "zh".to_string(), false);
    assert_eq!(words(&way.args(Conversion::Decode)), vec!["<in>", "<out>"]);
    assert_eq!(
        words(&way.args(Conversion::PcmToWav)).join(" "),
        "-y -f s16le -ar 24000 -ac 1 -i <in> -ar 16000 -ac 1 -c:a pcm_s16le <out>"
    );
    assert_eq!(
        words(&way.args(Conversion::AudioToWav)).join(" "),
        "-y -i <in> -ar 16000 -ac 1 -c:a pcm_s16le <out>"
    );
    assert_eq!(
        words(&way.args(Conversion::Recognize)).join(" "),
        "-m <model> -f <in> -l zh -nt -np"
    );
    assert_eq!(Conversion::Recognize.input(), WorkFile::Wav);
    assert_eq!(Conversion::Recognize.output(), None);
    assert_eq!(Conversion::Decode.output(), Some(WorkFile::Pcm));
}

#[test]
fn requests_for_attachments() {
    let command = cmd_extract("id".to_string(), "/tmp/x".to_string(), false, true);
    assert!(command.json);
    match command.request {
        Request::Extract {
            attachment_id,
            output,
            overwrite,
        } => {
            assert_eq!(attachment_id, "id");
            assert_eq!(output, "/tmp/x");
            assert!(!overwrite);
        }
    }
    let way = cmd_transcribe("voice-id".to_string(), "zh".to_string(), false);
    match way.request("/w/voice.aud".to_string()) {
        Request::Extract {
            attachment_id,
            output,
            overwrite,
        } => {
            assert_eq!(attachment_id, "voice-id");
            assert_eq!(output, "/w/voice.aud");
            assert!(overwrite);
        }
    }
}

#[test]
fn work_directories_are_tried_128_times() {
    let mut stage = WorkDirStage::new();
    for attempt in 0..128u32 {
        assert_eq!(stage, WorkDirStage::Try(attempt));
        stage = stage.answer(false);
    }
    assert_eq!(stage, WorkDirStage::GaveUp);
    assert_eq!(stage.answer(true), WorkDirStage::GaveUp);
    assert_eq!(WorkDirStage::Try(3).answer(true), WorkDirStage::Made(3));
    assert_eq!(work_dir_name(7, 1234, 5), "wx-transcribe-7-1234-5");
    assert_eq!(
        no_work_dir_message(),
        "创建临时目录失败：连续 128 次命名冲突"
    );
    assert_eq!(PRIVATE_DIR_MODE, 0o700);
    assert_eq!(PRIVATE_FILE_MODE, 0o600);
}
