//! Finding the programs and the model that speech recognition needs.
//!
//! A path that the user gives is taken, else the one that the environment names.
//! Either must lead to a file. Where neither is there, the directories of `PATH`
//! are searched, one name of the program behind the other.

use vstd::prelude::*;
use vstd::slice::slice_to_vec;

use crate::text::{lossy_text, utf8_lossy};

verus! {

/// Something that speech recognition needs.
#[derive(Debug, Clone, Copy, PartialEq, Eq, Structural)]
pub enum Need {
    /// The model of whisper.cpp.
    Model,
    /// The program of whisper.cpp.
    Whisper,
    Ffmpeg,
    /// The decoder for SILK v3.
    SilkDecoder,
}

/// A program that is looked for by its name.
#[derive(Debug, Clone, Copy, PartialEq, Eq, Structural)]
pub enum Program {
    WhisperCli,
    Ffmpeg,
    SilkDecoder,
    SilkV3Decoder,
    SilkDecoderUnderscored,
}

impl Program {
    /// The program's name.
    pub open spec fn name(self) -> Seq<char> {
        match self {
            Program::WhisperCli => "whisper-cli"@,
            Program::Ffmpeg => "ffmpeg"@,
            Program::SilkDecoder => "silk-decoder"@,
            Program::SilkV3Decoder => "silk_v3_decoder"@,
            Program::SilkDecoderUnderscored => "silk_decoder"@,
        }
    }

    /// The program's name.
    pub fn file_name(self) -> (name: &'static str)
        ensures
            name@ == self.name(),
    {
        match self {
            Program::WhisperCli => "whisper-cli",
            Program::Ffmpeg => "ffmpeg",
            Program::SilkDecoder => "silk-decoder",
            Program::SilkV3Decoder => "silk_v3_decoder",
            Program::SilkDecoderUnderscored => "silk_decoder",
        }
    }
}

impl Need {
    /// The environment variable that names the file.
    pub open spec fn env(self) -> Seq<char> {
        match self {
            Need::Model => "WX_WHISPER_MODEL"@,
            Need::Whisper => "WX_WHISPER_BIN"@,
            Need::Ffmpeg => "WX_FFMPEG"@,
            Need::SilkDecoder => "WX_SILK_DECODER"@,
        }
    }

    /// How a path that the user gave is spoken of.
    pub open spec fn label(self) -> Seq<char> {
        match self {
            Need::Model => "--model"@,
            _ => self.env(),
        }
    }

    /// The programs that serve the need, the preferred first.
    pub open spec fn programs(self) -> Seq<Program> {
        match self {
            Need::Model => Seq::empty(),
            Need::Whisper => seq![Program::WhisperCli],
            Need::Ffmpeg => seq![Program::Ffmpeg],
            Need::SilkDecoder => seq![
                Program::SilkDecoder,
                Program::SilkV3Decoder,
                Program::SilkDecoderUnderscored,
            ],
        }
    }

    /// What is said where nothing serves the need.
    pub open spec fn missing(self) -> Seq<char> {
        match self {
            Need::Model => "缺少 whisper.cpp 模型路径；请传 --model /path/to/ggml-large-v3-turbo.bin，或设置 WX_WHISPER_MODEL"@,
            Need::Whisper => "找不到 whisper.cpp 的 whisper-cli；请用 --whisper-bin 指定路径，或设置 WX_WHISPER_BIN"@,
            Need::Ffmpeg => "找不到 ffmpeg；请安装 ffmpeg，或用 --ffmpeg 指定路径"@,
            Need::SilkDecoder => "找不到 SILK v3 decoder；请用 --silk-decoder 指定 kn007/silk-v3-decoder 的 silk/decoder 路径，或设置 WX_SILK_DECODER"@,
        }
    }

    /// The environment variable that names the file.
    pub fn env_name(self) -> (name: &'static str)
        ensures
            name@ == self.env(),
    {
        match self {
            Need::Model => "WX_WHISPER_MODEL",
            Need::Whisper => "WX_WHISPER_BIN",
            Need::Ffmpeg => "WX_FFMPEG",
            Need::SilkDecoder => "WX_SILK_DECODER",
        }
    }

    /// How a path that the user gave is spoken of.
    fn given_label(self) -> (name: &'static str)
        ensures
            name@ == self.label(),
    {
        match self {
            Need::Model => "--model",
            _ => self.env_name(),
        }
    }

    /// What is said where nothing serves the need.
    fn missing_message(self) -> (message: String)
        ensures
            message@ == self.missing(),
    {
        match self {
            Need::Model => "缺少 whisper.cpp 模型路径；请传 --model /path/to/ggml-large-v3-turbo.bin，或设置 WX_WHISPER_MODEL".to_owned(),
            Need::Whisper => "找不到 whisper.cpp 的 whisper-cli；请用 --whisper-bin 指定路径，或设置 WX_WHISPER_BIN".to_owned(),
            Need::Ffmpeg => "找不到 ffmpeg；请安装 ffmpeg，或用 --ffmpeg 指定路径".to_owned(),
            Need::SilkDecoder => "找不到 SILK v3 decoder；请用 --silk-decoder 指定 kn007/silk-v3-decoder 的 silk/decoder 路径，或设置 WX_SILK_DECODER".to_owned(),
        }
    }

    /// The programs that serve the need, the preferred first.
    fn program_list(self) -> (list: Vec<Program>)
        ensures
            list@ == self.programs(),
    {
        match self {
            Need::Model => Vec::new(),
            Need::Whisper => vec![Program::WhisperCli],
            Need::Ffmpeg => vec![Program::Ffmpeg],
            Need::SilkDecoder => vec![
                Program::SilkDecoder,
                Program::SilkV3Decoder,
                Program::SilkDecoderUnderscored,
            ],
        }
    }
}

/// A file that serves a need.
#[derive(Debug)]
pub enum ToolPath {
    /// A path by its bytes.
    At(Vec<u8>),
    /// A program in a directory, which is given by the bytes of its path.
    In { dir: Vec<u8>, program: Program },
}

/// A file that serves a need.
pub enum ToolPathView {
    At(Seq<u8>),
    In { dir: Seq<u8>, program: Program },
}

impl View for ToolPath {
    type V = ToolPathView;

    open spec fn view(&self) -> ToolPathView {
        match self {
            ToolPath::At(path) => ToolPathView::At(path@),
            ToolPath::In { dir, program } => ToolPathView::In { dir: dir@, program: *program },
        }
    }
}

impl ToolPath {
    /// The same file again.
    pub fn copy(&self) -> (path: ToolPath)
        ensures
            path@ == self@,
    {
        match self {
            ToolPath::At(path) => ToolPath::At(slice_to_vec(path.as_slice())),
            ToolPath::In { dir, program } => ToolPath::In {
                dir: slice_to_vec(dir.as_slice()),
                program: *program,
            },
        }
    }
}

/// Why a need is not served.
#[derive(Debug)]
pub enum ToolError {
    /// The path that was `given`, or that the environment names, leads to no file.
    NotAFile { need: Need, given: bool, path: Vec<u8> },
    /// There is no path, and no program was found.
    Missing(Need),
}

impl ToolError {
    /// The words for an error.
    pub open spec fn words(self) -> Seq<char> {
        match self {
            ToolError::NotAFile { need, given, path } => (if given {
                need.label()
            } else {
                need.env()
            }) + " 指向的文件不存在："@ + utf8_lossy(path@),
            ToolError::Missing(need) => need.missing(),
        }
    }

    /// Says what went wrong.
    pub fn message(&self) -> (message: String)
        ensures
            message@ == self.words(),
    {
        match self {
            ToolError::NotAFile { need, given, path } => {
                let mut message = if *given {
                    need.given_label().to_owned()
                } else {
                    need.env_name().to_owned()
                };
                message.append(" 指向的文件不存在：");
                message.append(lossy_text(path.as_slice()).as_str());
                message
            },
            ToolError::Missing(need) => need.missing_message(),
        }
    }
}

// ---------------------------------------------------------------------------
// The search
// ---------------------------------------------------------------------------

/// Where the search for a tool stands.
#[derive(Debug)]
pub enum ToolStage {
    /// Does the given path lead to a file?
    Given(Vec<u8>),
    /// What does the environment name?
    Env,
    /// Does the path that the environment names lead to a file?
    FromEnv(Vec<u8>),
    /// What directories does `PATH` list, for the program of this rank?
    Dirs { rank: usize },
    /// Is the program of this rank in the directory at this place?
    InDir { rank: usize, dirs: Vec<Vec<u8>>, at: usize },
    /// The search is over.
    Done(Result<ToolPath, ToolError>),
}

/// What the search for a tool wants to know.
#[derive(Debug)]
pub enum ToolQuestion {
    /// Is there a file at this path?
    IsFile(Vec<u8>),
    /// Is there a file of this name in the directory?
    IsFileIn { dir: Vec<u8>, name: &'static str },
    /// What does the environment variable say?
    Env(&'static str),
    /// What directories does `PATH` list?
    PathDirs,
    /// Nothing: the search is over.
    Nothing,
}

/// An answer to a question.
#[derive(Debug)]
pub enum ToolReply {
    IsFile(bool),
    /// `None` where the variable is not set, or holds no text.
    Env(Option<Vec<u8>>),
    /// `None` where `PATH` is not set.
    PathDirs(Option<Vec<Vec<u8>>>),
}

/// A search for a tool.
#[derive(Debug)]
pub struct ToolSearch {
    pub need: Need,
    pub stage: ToolStage,
}

/// What a path is worth that leads to a file, or does not.
pub open spec fn required_file(need: Need, given: bool, path: Vec<u8>, is_file: bool) -> Result<
    ToolPath,
    ToolError,
> {
    if is_file {
        Ok(ToolPath::At(path))
    } else {
        Err(ToolError::NotAFile { need, given, path })
    }
}

/// Goes on with the program of a rank.
pub open spec fn try_program(need: Need, rank: int) -> ToolStage {
    if rank < need.programs().len() {
        ToolStage::Dirs { rank: rank as usize }
    } else {
        ToolStage::Done(Err(ToolError::Missing(need)))
    }
}

/// Goes on with the directory at a place.
pub open spec fn try_dir(need: Need, rank: usize, dirs: Vec<Vec<u8>>, at: int) -> ToolStage {
    if at < dirs@.len() {
        ToolStage::InDir { rank, dirs, at: at as usize }
    } else {
        try_program(need, rank + 1)
    }
}

/// How an answer moves the search for a tool on. An answer to another question
/// does not.
pub open spec fn next_tool_stage(need: Need, stage: ToolStage, reply: ToolReply) -> ToolStage {
    match (stage, reply) {
        (ToolStage::Given(path), ToolReply::IsFile(is_file)) => ToolStage::Done(
            required_file(need, true, path, is_file),
        ),
        (ToolStage::Env, ToolReply::Env(Some(path))) => ToolStage::FromEnv(path),
        (ToolStage::Env, ToolReply::Env(None)) => try_program(need, 0),
        (ToolStage::FromEnv(path), ToolReply::IsFile(is_file)) => ToolStage::Done(
            required_file(need, false, path, is_file),
        ),
        (ToolStage::Dirs { rank }, ToolReply::PathDirs(Some(dirs))) => try_dir(need, rank, dirs, 0),
        (ToolStage::Dirs { rank }, ToolReply::PathDirs(None)) => try_program(need, rank + 1),
        (ToolStage::InDir { rank, dirs, at }, ToolReply::IsFile(is_file)) => if is_file {
            ToolStage::Done(
                Ok(
                    ToolPath::In {
                        dir: dirs@[at as int],
                        program: need.programs()[rank as int],
                    },
                ),
            )
        } else {
            try_dir(need, rank, dirs, at + 1)
        },
        (stage, _) => stage,
    }
}

/// Takes a path that leads to a file, or says that it does not.
pub fn require_existing_file(need: Need, given: bool, path: Vec<u8>, is_file: bool) -> (result:
    Result<ToolPath, ToolError>)
    ensures
        result == required_file(need, given, path, is_file),
{
    if is_file {
        Ok(ToolPath::At(path))
    } else {
        Err(ToolError::NotAFile { need, given, path })
    }
}

/// Goes on with the program of a rank.
fn stage_for_program(need: Need, rank: usize) -> (stage: ToolStage)
    ensures
        stage == try_program(need, rank as int),
{
    if rank < need.program_list().len() {
        ToolStage::Dirs { rank }
    } else {
        ToolStage::Done(Err(ToolError::Missing(need)))
    }
}

/// Goes on with the directory at a place.
fn stage_for_dir(need: Need, rank: usize, dirs: Vec<Vec<u8>>, at: usize) -> (stage: ToolStage)
    requires
        rank < need.programs().len(),
    ensures
        stage == try_dir(need, rank, dirs, at as int),
{
    if at < dirs.len() {
        ToolStage::InDir { rank, dirs, at }
    } else {
        stage_for_program(need, rank + 1)
    }
}

/// Where a search starts.
pub open spec fn first_stage(given: Option<Vec<u8>>) -> ToolStage {
    match given {
        Some(path) => ToolStage::Given(path),
        None => ToolStage::Env,
    }
}

/// Starts the search for a tool, with the path that the user gave.
pub fn resolve_tool(need: Need, given: Option<Vec<u8>>) -> (search: ToolSearch)
    ensures
        search.wf(),
        search.need == need,
        search.stage == first_stage(given),
{
    let stage = match given {
        Some(path) => ToolStage::Given(path),
        None => ToolStage::Env,
    };
    ToolSearch { need, stage }
}

/// Starts the search for the model, with the path that the user gave.
pub fn resolve_required_model(given: Option<Vec<u8>>) -> (search: ToolSearch)
    ensures
        search.wf(),
        search.need == Need::Model,
        search.stage == first_stage(given),
{
    resolve_tool(Need::Model, given)
}

impl ToolSearch {
    /// Ranks are ranks of programs, and places are places of directories.
    pub open spec fn wf(self) -> bool {
        match self.stage {
            ToolStage::Dirs { rank } => rank < self.need.programs().len(),
            ToolStage::InDir { rank, dirs, at } => {
                rank < self.need.programs().len() && at < dirs@.len()
            },
            _ => true,
        }
    }

    /// What the search wants to know next.
    pub fn question(&self) -> (question: ToolQuestion)
        requires
            self.wf(),
        ensures
            match self.stage {
                ToolStage::Given(path) => {
                    question matches ToolQuestion::IsFile(asked) && asked@ == path@
                },
                ToolStage::Env => {
                    question matches ToolQuestion::Env(name) && name@ == self.need.env()
                },
                ToolStage::FromEnv(path) => {
                    question matches ToolQuestion::IsFile(asked) && asked@ == path@
                },
                ToolStage::Dirs { .. } => question is PathDirs,
                ToolStage::InDir { rank, dirs, at } => {
                    &&& question matches ToolQuestion::IsFileIn { dir, name }
                    &&& dir@ == dirs@[at as int]@
                    &&& name@ == self.need.programs()[rank as int].name()
                },
                ToolStage::Done(_) => question is Nothing,
            },
    {
        match &self.stage {
            ToolStage::Given(path) => ToolQuestion::IsFile(slice_to_vec(path.as_slice())),
            ToolStage::Env => ToolQuestion::Env(self.need.env_name()),
            ToolStage::FromEnv(path) => ToolQuestion::IsFile(slice_to_vec(path.as_slice())),
            ToolStage::Dirs { .. } => ToolQuestion::PathDirs,
            ToolStage::InDir { rank, dirs, at } => {
                let programs = self.need.program_list();
                ToolQuestion::IsFileIn {
                    dir: slice_to_vec(dirs[*at].as_slice()),
                    name: programs[*rank].file_name(),
                }
            },
            ToolStage::Done(_) => ToolQuestion::Nothing,
        }
    }

    /// Takes the answer to the question.
    pub fn answer(self, reply: ToolReply) -> (search: ToolSearch)
        requires
            self.wf(),
        ensures
            search.wf(),
            search.need == self.need,
            search.stage == next_tool_stage(self.need, self.stage, reply),
    {
        let ToolSearch { need, stage } = self;
        let stage = match (stage, reply) {
            (ToolStage::Given(path), ToolReply::IsFile(is_file)) => ToolStage::Done(
                require_existing_file(need, true, path, is_file),
            ),
            (ToolStage::Env, ToolReply::Env(Some(path))) => ToolStage::FromEnv(path),
            (ToolStage::Env, ToolReply::Env(None)) => stage_for_program(need, 0),
            (ToolStage::FromEnv(path), ToolReply::IsFile(is_file)) => ToolStage::Done(
                require_existing_file(need, false, path, is_file),
            ),
            (ToolStage::Dirs { rank }, ToolReply::PathDirs(Some(dirs))) => stage_for_dir(
                need,
                rank,
                dirs,
                0,
            ),
            (ToolStage::Dirs { rank }, ToolReply::PathDirs(None)) => stage_for_program(
                need,
                rank + 1,
            ),
            (ToolStage::InDir { rank, dirs, at }, ToolReply::IsFile(is_file)) => {
                let mut dirs = dirs;
                let count: usize = dirs.len();
                assert(at < count);
                if is_file {
                    let programs = need.program_list();
                    ToolStage::Done(
                        Ok(ToolPath::In { dir: dirs.swap_remove(at), program: programs[rank] }),
                    )
                } else {
                    stage_for_dir(need, rank, dirs, at + 1)
                }
            },
            (stage, _) => stage,
        };
        ToolSearch { need, stage }
    }
}

// ---------------------------------------------------------------------------
// What is found
// ---------------------------------------------------------------------------

/// What a machine says of files and of the environment.
pub struct Machine {
    pub is_file: spec_fn(ToolPath) -> bool,
    pub env: Option<Vec<u8>>,
    pub path_dirs: Option<Vec<Vec<u8>>>,
}

/// The answer of a machine to what a stage wants to know.
pub open spec fn machine_reply(machine: Machine, need: Need, stage: ToolStage) -> ToolReply {
    match stage {
        ToolStage::Given(path) => ToolReply::IsFile((machine.is_file)(ToolPath::At(path))),
        ToolStage::Env => ToolReply::Env(machine.env),
        ToolStage::FromEnv(path) => ToolReply::IsFile((machine.is_file)(ToolPath::At(path))),
        ToolStage::Dirs { .. } => ToolReply::PathDirs(machine.path_dirs),
        ToolStage::InDir { rank, dirs, at } => ToolReply::IsFile(
            (machine.is_file)(
                ToolPath::In {
                    dir: dirs@[at as int],
                    program: need.programs()[rank as int],
                },
            ),
        ),
        ToolStage::Done(_) => ToolReply::IsFile(false),
    }
}

/// The first of several directories, from a place on, that has a program.
pub open spec fn first_dir_with(
    machine: Machine,
    program: Program,
    dirs: Seq<Vec<u8>>,
    at: int,
) -> Option<ToolPath>
    decreases dirs.len() - at,
{
    if at >= dirs.len() {
        None
    } else if (machine.is_file)(ToolPath::In { dir: dirs[at], program }) {
        Some(ToolPath::In { dir: dirs[at], program })
    } else {
        first_dir_with(machine, program, dirs, at + 1)
    }
}

/// Where `PATH` has a program.
pub open spec fn in_path(machine: Machine, program: Program) -> Option<ToolPath> {
    match machine.path_dirs {
        Some(dirs) => first_dir_with(machine, program, dirs@, 0),
        None => None,
    }
}

/// Where `PATH` has the first program, from a rank on, that it has at all.
pub open spec fn first_program(machine: Machine, need: Need, rank: int) -> Result<
    ToolPath,
    ToolError,
>
    decreases need.programs().len() - rank,
{
    if rank >= need.programs().len() {
        Err(ToolError::Missing(need))
    } else {
        match in_path(machine, need.programs()[rank]) {
            Some(path) => Ok(path),
            None => first_program(machine, need, rank + 1),
        }
    }
}

/// What serves a need on a machine: the given path, else the one that the
/// environment names, else the first program that `PATH` has.
pub open spec fn located(machine: Machine, need: Need, given: Option<Vec<u8>>) -> Result<
    ToolPath,
    ToolError,
> {
    match (given, machine.env) {
        (Some(path), _) => required_file(
            need,
            true,
            path,
            (machine.is_file)(ToolPath::At(path)),
        ),
        (None, Some(path)) => required_file(
            need,
            false,
            path,
            (machine.is_file)(ToolPath::At(path)),
        ),
        (None, None) => first_program(machine, need, 0),
    }
}

/// What a search that stands at a stage will come to.
spec fn outlook(machine: Machine, need: Need, stage: ToolStage) -> Result<ToolPath, ToolError> {
    match stage {
        ToolStage::Given(path) => located(machine, need, Some(path)),
        ToolStage::Env => located(machine, need, None),
        ToolStage::FromEnv(path) => required_file(
            need,
            false,
            path,
            (machine.is_file)(ToolPath::At(path)),
        ),
        ToolStage::Dirs { rank } => first_program(machine, need, rank as int),
        ToolStage::InDir { rank, dirs, at } => match first_dir_with(
            machine,
            need.programs()[rank as int],
            dirs@,
            at as int,
        ) {
            Some(path) => Ok(path),
            None => first_program(machine, need, rank + 1),
        },
        ToolStage::Done(result) => result,
    }
}

/// A search that is answered `n` times.
pub open spec fn run_tool_search(machine: Machine, need: Need, stage: ToolStage, n: nat) -> ToolStage
    decreases n,
{
    if n == 0 {
        stage
    } else {
        run_tool_search(
            machine,
            need,
            next_tool_stage(need, stage, machine_reply(machine, need, stage)),
            (n - 1) as nat,
        )
    }
}

/// How far a stage is from the end.
spec fn stages_left(stage: ToolStage) -> nat {
    match stage {
        ToolStage::Env => 3,
        ToolStage::Given(_) => 1,
        ToolStage::FromEnv(_) => 1,
        ToolStage::Dirs { .. } => 2,
        ToolStage::InDir { .. } => 2,
        ToolStage::Done(_) => 0,
    }
}

/// How many programs, and how many directories for the present one, are left.
spec fn tries_left(need: Need, stage: ToolStage) -> (nat, nat) {
    match stage {
        ToolStage::Dirs { rank } => ((need.programs().len() - rank) as nat, usize::MAX as nat + 1),
        ToolStage::InDir { rank, dirs, at } => (
            (need.programs().len() - rank) as nat,
            (dirs@.len() - at) as nat,
        ),
        _ => (0, 0),
    }
}

/// A search comes to what its outlook says. It gives the number of answers.
proof fn lemma_comes_to(machine: Machine, need: Need, stage: ToolStage) -> (n: nat)
    requires
        (ToolSearch { need, stage }).wf(),
        stage matches ToolStage::InDir { dirs, .. } ==> machine.path_dirs == Some(dirs),
    ensures
        run_tool_search(machine, need, stage, n) == ToolStage::Done(outlook(machine, need, stage)),
    decreases stages_left(stage), tries_left(need, stage).0, tries_left(need, stage).1,
{
    if stage is Done {
        0
    } else {
        let next = next_tool_stage(need, stage, machine_reply(machine, need, stage));
        if let Some(dirs) = machine.path_dirs {
            assert(dirs@.len() == dirs.len());
        }
        reveal_with_fuel(first_program, 2);
        reveal_with_fuel(first_dir_with, 2);
        assert(outlook(machine, need, next) == outlook(machine, need, stage));
        lemma_comes_to(machine, need, next) + 1
    }
}

/// Every search for a tool ends, with what serves the need on the machine.
pub proof fn law_tool_search(machine: Machine, need: Need, given: Option<Vec<u8>>)
    ensures
        exists|n: nat| #[trigger]
            run_tool_search(machine, need, first_stage(given), n) == ToolStage::Done(
                located(machine, need, given),
            ),
{
    let start = first_stage(given);
    let n = lemma_comes_to(machine, need, start);
    assert(run_tool_search(machine, need, start, n) == ToolStage::Done(
        located(machine, need, given),
    ));
}

// ---------------------------------------------------------------------------
// Which file is taken
// ---------------------------------------------------------------------------

/// A path that the user gave is taken as it is, if it leads to a file, and else
/// nothing is: neither the environment nor `PATH` counts then. Without one, the path
/// that the environment names is taken in the same way.
pub proof fn law_paths_come_first(machine: Machine, need: Need, path: Vec<u8>)
    ensures
        (machine.is_file)(ToolPath::At(path)) ==> located(machine, need, Some(path)) == Ok::<
            ToolPath,
            ToolError,
        >(ToolPath::At(path)),
        !(machine.is_file)(ToolPath::At(path)) ==> located(machine, need, Some(path)) == Err::<
            ToolPath,
            ToolError,
        >(ToolError::NotAFile { need, given: true, path }),
        machine.env == Some(path) && (machine.is_file)(ToolPath::At(path)) ==> located(
            machine,
            need,
            None,
        ) == Ok::<ToolPath, ToolError>(ToolPath::At(path)),
        machine.env == Some(path) && !(machine.is_file)(ToolPath::At(path)) ==> located(
            machine,
            need,
            None,
        ) == Err::<ToolPath, ToolError>(ToolError::NotAFile { need, given: false, path }),
{
}

/// `PATH` has a program in some directory.
pub open spec fn path_has(machine: Machine, program: Program) -> bool {
    machine.path_dirs matches Some(dirs) && exists|i: int|
        0 <= i < dirs@.len() && (machine.is_file)(
            ToolPath::In { dir: #[trigger] dirs@[i], program },
        )
}

proof fn lemma_first_dir(machine: Machine, program: Program, dirs: Seq<Vec<u8>>, at: int)
    requires
        0 <= at <= dirs.len(),
    ensures
        match first_dir_with(machine, program, dirs, at) {
            None => forall|i: int|
                at <= i < dirs.len() ==> !(machine.is_file)(
                    ToolPath::In { dir: #[trigger] dirs[i], program },
                ),
            Some(path) => exists|i: int|
                {
                    &&& at <= i < dirs.len()
                    &&& path == (ToolPath::In { dir: #[trigger] dirs[i], program })
                    &&& (machine.is_file)(path)
                    &&& forall|j: int|
                        at <= j < i ==> !(machine.is_file)(
                            ToolPath::In { dir: #[trigger] dirs[j], program },
                        )
                },
        },
    decreases dirs.len() - at,
{
    if at < dirs.len() {
        if (machine.is_file)(ToolPath::In { dir: dirs[at], program }) {
            assert(first_dir_with(machine, program, dirs, at) == Some(
                ToolPath::In { dir: dirs[at], program },
            ));
        } else {
            lemma_first_dir(machine, program, dirs, at + 1);
        }
    }
}

/// Where `PATH` has a program, it is found, in the first directory that has it.
pub proof fn law_first_directory_counts(machine: Machine, program: Program)
    ensures
        in_path(machine, program) is Some <==> path_has(machine, program),
        in_path(machine, program) matches Some(path) ==> machine.path_dirs is Some && exists|i: int|
            {
                &&& 0 <= i < machine.path_dirs->0@.len()
                &&& path == (ToolPath::In { dir: #[trigger] machine.path_dirs->0@[i], program })
                &&& (machine.is_file)(path)
                &&& forall|j: int|
                    0 <= j < i ==> !(machine.is_file)(
                        ToolPath::In { dir: #[trigger] machine.path_dirs->0@[j], program },
                    )
            },
{
    if let Some(dirs) = machine.path_dirs {
        lemma_first_dir(machine, program, dirs@, 0);
    }
}

proof fn lemma_first_program(machine: Machine, need: Need, rank: int)
    requires
        0 <= rank <= need.programs().len(),
    ensures
        match first_program(machine, need, rank) {
            Err(error) => error == ToolError::Missing(need) && forall|r: int|
                rank <= r < need.programs().len() ==> in_path(
                    machine,
                    #[trigger] need.programs()[r],
                ) is None,
            Ok(path) => exists|r: int|
                {
                    &&& rank <= r < need.programs().len()
                    &&& in_path(machine, #[trigger] need.programs()[r]) == Some(path)
                    &&& forall|q: int|
                        rank <= q < r ==> in_path(machine, #[trigger] need.programs()[q]) is None
                },
        },
    decreases need.programs().len() - rank,
{
    if rank < need.programs().len() {
        if in_path(machine, need.programs()[rank]) is None {
            lemma_first_program(machine, need, rank + 1);
        } else {
            assert(in_path(machine, need.programs()[rank]) is Some);
        }
    }
}

/// Without a path, the first of the programs that serve a need is taken that `PATH`
/// has; where it has none of them, the need is not served.
pub proof fn law_first_program_counts(machine: Machine, need: Need)
    requires
        machine.env is None,
    ensures
        match located(machine, need, None) {
            Err(error) => error == ToolError::Missing(need) && forall|r: int|
                0 <= r < need.programs().len() ==> !path_has(
                    machine,
                    #[trigger] need.programs()[r],
                ),
            Ok(path) => exists|r: int|
                {
                    &&& 0 <= r < need.programs().len()
                    &&& in_path(machine, #[trigger] need.programs()[r]) == Some(path)
                    &&& forall|q: int|
                        0 <= q < r ==> !path_has(machine, #[trigger] need.programs()[q])
                },
        },
{
    lemma_first_program(machine, need, 0);
    assert forall|r: int| 0 <= r < need.programs().len() implies (in_path(
        machine,
        #[trigger] need.programs()[r],
    ) is Some <==> path_has(machine, need.programs()[r])) by {
        law_first_directory_counts(machine, need.programs()[r]);
    }
    if let Ok(path) = located(machine, need, None) {
        let r = choose|r: int|
            {
                &&& 0 <= r < need.programs().len()
                &&& in_path(machine, #[trigger] need.programs()[r]) == Some(path)
                &&& forall|q: int|
                    0 <= q < r ==> in_path(machine, #[trigger] need.programs()[q]) is None
            };
        assert forall|q: int| 0 <= q < r implies !path_has(
            machine,
            #[trigger] need.programs()[q],
        ) by {
            assert(in_path(machine, need.programs()[q]) is None);
        }
    }
}

/// Each need has its own programs and its own environment variable: the model has
/// no program, and the decoder may have any of three names.
pub proof fn law_needs_differ(a: Need, b: Need)
    ensures
        a.env() == b.env() ==> a == b,
        Need::Model.programs().len() == 0,
        Need::Whisper.programs() == seq![Program::WhisperCli],
        Need::Ffmpeg.programs() == seq![Program::Ffmpeg],
        Need::SilkDecoder.programs() == seq![
            Program::SilkDecoder,
            Program::SilkV3Decoder,
            Program::SilkDecoderUnderscored,
        ],
        a != Need::Model ==> a.label() == a.env(),
        Need::Model.label() == "--model"@,
{
    reveal_strlit("WX_WHISPER_MODEL");
    reveal_strlit("WX_WHISPER_BIN");
    reveal_strlit("WX_FFMPEG");
    reveal_strlit("WX_SILK_DECODER");
    assert("WX_WHISPER_MODEL"@.len() == 16 && "WX_WHISPER_BIN"@.len() == 14 && "WX_FFMPEG"@.len()
        == 9 && "WX_SILK_DECODER"@.len() == 15);
}

/// Different programs have different names.
pub proof fn law_programs_differ(a: Program, b: Program)
    ensures
        a.name() == b.name() ==> a == b,
{
    reveal_strlit("whisper-cli");
    reveal_strlit("ffmpeg");
    reveal_strlit("silk-decoder");
    reveal_strlit("silk_v3_decoder");
    reveal_strlit("silk_decoder");
    assert("whisper-cli"@.len() == 11 && "ffmpeg"@.len() == 6 && "silk-decoder"@.len() == 12
        && "silk_v3_decoder"@.len() == 15 && "silk_decoder"@.len() == 12);
    assert("silk-decoder"@[4] == '-' && "silk_decoder"@[4] == '_');
}

/// A tool's path says all its bytes.
pub proof fn law_tool_path_view(path: ToolPath)
    ensures
        path matches ToolPath::At(bytes) ==> path@ == ToolPathView::At(bytes@),
        path matches ToolPath::In { dir, program } ==> path@ == (ToolPathView::In {
            dir: dir@,
            program,
        }),
{
}

/// The words for a path that leads to no file start with who named it, and end with
/// the path.
pub proof fn law_words_for_a_path(need: Need, given: bool, path: Vec<u8>)
    ensures
        ({
            let words = ToolError::NotAFile { need, given, path }.words();
            &&& given ==> need.label().is_prefix_of(words)
            &&& !given ==> need.env().is_prefix_of(words)
            &&& utf8_lossy(path@).is_suffix_of(words)
        }),
{
    let words = ToolError::NotAFile { need, given, path }.words();
    let name = if given {
        need.label()
    } else {
        need.env()
    };
    let shown = utf8_lossy(path@);
    assert(words.take(name.len() as int) =~= name);
    assert(words.subrange(words.len() - shown.len(), words.len() as int) =~= shown);
}

/// An answer to another question does not move a search, and nothing moves one that
/// is over.
pub proof fn law_other_answers_do_not_count(need: Need, stage: ToolStage, reply: ToolReply)
    ensures
        (stage is Given || stage is FromEnv || stage is InDir) && !(reply is IsFile)
            ==> next_tool_stage(need, stage, reply) == stage,
        stage is Env && !(reply is Env) ==> next_tool_stage(need, stage, reply) == stage,
        stage is Dirs && !(reply is PathDirs) ==> next_tool_stage(need, stage, reply) == stage,
        stage is Done ==> next_tool_stage(need, stage, reply) == stage,
{
}

/// The programs and the environment variables are called by these names.
pub proof fn law_names_of_programs(program: Program, need: Need)
    ensures
        program is WhisperCli ==> program.name() == "whisper-cli"@,
        program is Ffmpeg ==> program.name() == "ffmpeg"@,
        program is SilkDecoder ==> program.name() == "silk-decoder"@,
        program is SilkV3Decoder ==> program.name() == "silk_v3_decoder"@,
        program is SilkDecoderUnderscored ==> program.name() == "silk_decoder"@,
        need is Model ==> need.env() == "WX_WHISPER_MODEL"@,
        need is Whisper ==> need.env() == "WX_WHISPER_BIN"@,
        need is Ffmpeg ==> need.env() == "WX_FFMPEG"@,
        need is SilkDecoder ==> need.env() == "WX_SILK_DECODER"@,
{
}

} // verus!
