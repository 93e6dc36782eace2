//! Searching the attachment directory for a file.
//!
//! Attachments lie in `<root>/<digest of the chat's name>/<month>/`, in a
//! directory for their kind. The month of the message's time and the months beside
//! it are tried first, then every month of the chat, and for voice messages, whose
//! place is less sure, the whole tree. The months around the message's time are
//! tried one behind the other as they follow each other; for an image its own
//! month comes before the months beside it. Of the months that are tried together,
//! an image's full file is taken wherever it lies, else the larger preview, else
//! the smaller one.
//!
//! The search does not read the disk. It says what it wants to know and takes
//! the answer.

use vstd::prelude::*;
use vstd::slice::slice_to_vec;
use vstd::utf8::{encode_utf8, encode_utf8_valid_utf8, valid_utf8};

use crate::attachment::{exact_media_names, media_names, name_endings, AttachmentKind};
use crate::bytes::matches_at;
use crate::calendar::{
    has_date, local_month, month_names_around, own_month_first, search_order,
    three_month_candidates,
};
use crate::digest::{hex, md5_digest, md5_hex};
use crate::ordering::{
    first_largest, largest_size, law_names_are_ordered, name_order, names_view, not_after,
    sort_names,
};
use crate::paths::{paths_view, PathParts};
use crate::text::texts_view;

verus! {

// ---------------------------------------------------------------------------
// Questions and answers
// ---------------------------------------------------------------------------

/// A path below the attachment directory, as the names on it.
pub type Place = Seq<Seq<u8>>;

/// What a name in a directory stands for. Links are followed.
#[derive(Debug, Clone, Copy, PartialEq, Eq, Structural)]
pub enum EntryKind {
    Dir,
    File,
    Other,
}

/// What a directory holds under one name.
#[derive(Debug)]
pub struct DirEntry {
    pub name: Vec<u8>,
    pub kind: EntryKind,
}

/// What a directory holds under one name.
pub struct DirEntryView {
    pub name: Seq<u8>,
    pub kind: EntryKind,
}

impl View for DirEntry {
    type V = DirEntryView;

    open spec fn view(&self) -> DirEntryView {
        DirEntryView { name: self.name@, kind: self.kind }
    }
}

/// What several entries say.
pub open spec fn entries_view(entries: Seq<DirEntry>) -> Seq<DirEntryView> {
    entries.map_values(|e: DirEntry| e@)
}

/// What a search wants to know next.
#[derive(Debug)]
pub enum SearchQuestion {
    /// Is there a directory?
    IsDir(PathParts),
    /// Is there a file?
    IsFile(PathParts),
    /// What does the directory hold? `None` where it cannot be read.
    Entries(PathParts),
    /// How many bytes has each file? 0 where it cannot be told.
    Sizes(Vec<PathParts>),
    /// Nothing: the search is over, with this file.
    Nothing(Option<PathParts>),
}

/// What a search wants to know next.
pub enum SearchQuestionView {
    IsDir(Place),
    IsFile(Place),
    Entries(Place),
    Sizes(Seq<Place>),
    Nothing(Option<Place>),
}

impl View for SearchQuestion {
    type V = SearchQuestionView;

    open spec fn view(&self) -> SearchQuestionView {
        match self {
            SearchQuestion::IsDir(path) => SearchQuestionView::IsDir(path@),
            SearchQuestion::IsFile(path) => SearchQuestionView::IsFile(path@),
            SearchQuestion::Entries(path) => SearchQuestionView::Entries(path@),
            SearchQuestion::Sizes(paths) => SearchQuestionView::Sizes(paths_view(paths@)),
            SearchQuestion::Nothing(None) => SearchQuestionView::Nothing(None),
            SearchQuestion::Nothing(Some(path)) => SearchQuestionView::Nothing(Some(path@)),
        }
    }
}

/// An answer to a question.
#[derive(Debug)]
pub enum SearchAnswer {
    Yes(bool),
    Entries(Option<Vec<DirEntry>>),
    Sizes(Vec<u64>),
}

/// An answer to a question.
pub enum SearchAnswerView {
    Yes(bool),
    Entries(Option<Seq<DirEntryView>>),
    Sizes(Seq<u64>),
}

impl View for SearchAnswer {
    type V = SearchAnswerView;

    open spec fn view(&self) -> SearchAnswerView {
        match self {
            SearchAnswer::Yes(yes) => SearchAnswerView::Yes(*yes),
            SearchAnswer::Entries(None) => SearchAnswerView::Entries(None),
            SearchAnswer::Entries(Some(entries)) => SearchAnswerView::Entries(
                Some(entries_view(entries@)),
            ),
            SearchAnswer::Sizes(sizes) => SearchAnswerView::Sizes(sizes@),
        }
    }
}

// ---------------------------------------------------------------------------
// What is searched for
// ---------------------------------------------------------------------------

/// What a search looks for.
#[derive(Debug)]
pub struct SearchKey {
    pub kind: AttachmentKind,
    pub file_md5: String,
    /// The name of the chat's directory.
    pub chat_dir: String,
}

/// What a search looks for.
pub struct SearchKeyView {
    pub kind: AttachmentKind,
    pub file_md5: Seq<char>,
    pub chat_dir: Seq<char>,
}

impl View for SearchKey {
    type V = SearchKeyView;

    open spec fn view(&self) -> SearchKeyView {
        SearchKeyView { kind: self.kind, file_md5: self.file_md5@, chat_dir: self.chat_dir@ }
    }
}

/// The chat's directory.
pub open spec fn chat_place(key: SearchKeyView) -> Place {
    seq![encode_utf8(key.chat_dir)]
}

/// The directories of a month in which files of a kind lie, in the order in
/// which they are tried.
pub open spec fn kind_dirs(kind: AttachmentKind, month: Place) -> Seq<Place> {
    match kind {
        AttachmentKind::Image => seq![month.push(encode_utf8("Img"@))],
        AttachmentKind::Voice => seq![
            month.push(encode_utf8("Voice"@)),
            month.push(encode_utf8("Audio"@)),
            month.push(encode_utf8("Aud"@)),
        ],
        AttachmentKind::Video => seq![month.push(encode_utf8("Video"@))],
        AttachmentKind::File => seq![month],
    }
}

/// The directories of several months in which files of a kind lie.
pub open spec fn media_dirs(key: SearchKeyView, months: Seq<Seq<u8>>) -> Seq<Place>
    decreases months.len(),
{
    if months.len() == 0 {
        Seq::empty()
    } else {
        media_dirs(key, months.drop_last()) + kind_dirs(
            key.kind,
            chat_place(key).push(months.last()),
        )
    }
}

/// The names of a directory's directories, in the order of names.
pub open spec fn month_dirs(entries: Seq<DirEntryView>) -> Seq<Seq<u8>> {
    dir_names(entries).sort_by(name_order())
}

/// The names of a directory's directories, as listed.
pub open spec fn dir_names(entries: Seq<DirEntryView>) -> Seq<Seq<u8>>
    decreases entries.len(),
{
    if entries.len() == 0 {
        Seq::empty()
    } else if entries.last().kind == EntryKind::Dir {
        dir_names(entries.drop_last()).push(entries.last().name)
    } else {
        dir_names(entries.drop_last())
    }
}

/// The places of files in several directories: the first name in each directory,
/// then the next name in each, and so on.
pub open spec fn places_named(names: Seq<Seq<char>>, dirs: Seq<Place>) -> Seq<Place>
    decreases names.len(),
{
    if names.len() == 0 {
        Seq::empty()
    } else {
        places_named(names.drop_last(), dirs) + dirs.map_values(
            |dir: Place| dir.push(encode_utf8(names.last())),
        )
    }
}

/// The places of an image in several directories: every full file comes before
/// every larger preview, and that before every smaller one.
pub open spec fn image_places(file_md5: Seq<char>, dirs: Seq<Place>) -> Seq<Place> {
    places_named(media_names(file_md5, AttachmentKind::Image), dirs)
}

/// A name is text and starts with the digest.
pub open spec fn name_fits(name: Seq<u8>, file_md5: Seq<char>) -> bool {
    valid_utf8(name) && encode_utf8(file_md5).is_prefix_of(name)
}

proof fn lemma_encode_joined(a: Seq<char>, b: Seq<char>)
    ensures
        encode_utf8(a + b) == encode_utf8(a) + encode_utf8(b),
    decreases a.len(),
{
    if a.len() == 0 {
        assert(a + b =~= b);
        assert(encode_utf8(a) + encode_utf8(b) =~= encode_utf8(b));
    } else {
        lemma_encode_joined(a.drop_first(), b);
        assert((a + b).drop_first() =~= a.drop_first() + b);
        assert(encode_utf8(a + b) =~= encode_utf8(a) + encode_utf8(b));
    }
}

/// Every preferred name of a kind fits: a search that takes any name that fits
/// misses none of them.
pub proof fn law_preferred_names_fit(file_md5: Seq<char>, kind: AttachmentKind, i: int)
    requires
        0 <= i < media_names(file_md5, kind).len(),
    ensures
        name_fits(encode_utf8(media_names(file_md5, kind)[i]), file_md5),
{
    let ending = name_endings(kind)[i];
    lemma_encode_joined(file_md5, ending);
    encode_utf8_valid_utf8(file_md5 + ending);
    let name = encode_utf8(file_md5) + encode_utf8(ending);
    assert(name.subrange(0, encode_utf8(file_md5).len() as int) =~= encode_utf8(file_md5));
}

/// The files of a directory whose name fits, as listed.
pub open spec fn fitting_files(
    dir: Place,
    entries: Seq<DirEntryView>,
    file_md5: Seq<char>,
) -> Seq<Place>
    decreases entries.len(),
{
    if entries.len() == 0 {
        Seq::empty()
    } else {
        let front = fitting_files(dir, entries.drop_last(), file_md5);
        let last = entries.last();
        if last.kind == EntryKind::File && name_fits(last.name, file_md5) {
            front.push(dir.push(last.name))
        } else {
            front
        }
    }
}

/// The directories in a directory, as listed.
pub open spec fn subdirs(dir: Place, entries: Seq<DirEntryView>) -> Seq<Place> {
    dir_names(entries).map_values(|name: Seq<u8>| dir.push(name))
}

// ---------------------------------------------------------------------------
// The search, step by step
// ---------------------------------------------------------------------------

/// Where a search stands.
#[derive(Debug)]
pub enum SearchStage {
    /// Does the chat have a directory? These months are to be tried first.
    Chat { months: Vec<String> },
    /// Is an image's file at `place`? Behind it `rest` is to be tried, and, unless
    /// all months are `listed`, the other months.
    Place { place: PathParts, rest: Vec<PathParts>, listed: bool },
    /// Is `dir` there? Behind it `rest` is to be tried, and, unless all months
    /// are `listed`, the other months.
    Dir { dir: PathParts, rest: Vec<PathParts>, listed: bool },
    /// Is `name` in `dir`? Behind it `names` are to be tried.
    Name {
        dir: PathParts,
        rest: Vec<PathParts>,
        listed: bool,
        name: String,
        names: Vec<String>,
    },
    /// What does `dir` hold?
    Listing { dir: PathParts, rest: Vec<PathParts>, listed: bool },
    /// What months does the chat have?
    Months,
    /// Is there an attachment directory?
    Root,
    /// What does `dir` hold, on the way through the whole tree? Behind it `stack`
    /// is to be visited, from its end; `found` are the files found so far.
    Walk { dir: PathParts, stack: Vec<PathParts>, found: Vec<PathParts> },
    /// How large are the files found?
    Sizes { found: Vec<PathParts> },
    /// The search is over.
    Done(Option<PathParts>),
}

/// Where a search stands.
pub enum SearchStageView {
    Chat { months: Seq<Seq<char>> },
    Place { place: Place, rest: Seq<Place>, listed: bool },
    Dir { dir: Place, rest: Seq<Place>, listed: bool },
    Name {
        dir: Place,
        rest: Seq<Place>,
        listed: bool,
        name: Seq<char>,
        names: Seq<Seq<char>>,
    },
    Listing { dir: Place, rest: Seq<Place>, listed: bool },
    Months,
    Root,
    Walk { dir: Place, stack: Seq<Place>, found: Seq<Place> },
    Sizes { found: Seq<Place> },
    Done(Option<Place>),
}

impl View for SearchStage {
    type V = SearchStageView;

    open spec fn view(&self) -> SearchStageView {
        match self {
            SearchStage::Chat { months } => SearchStageView::Chat { months: texts_view(months@) },
            SearchStage::Place { place, rest, listed } => SearchStageView::Place {
                place: place@,
                rest: paths_view(rest@),
                listed: *listed,
            },
            SearchStage::Dir { dir, rest, listed } => SearchStageView::Dir {
                dir: dir@,
                rest: paths_view(rest@),
                listed: *listed,
            },
            SearchStage::Name { dir, rest, listed, name, names } => SearchStageView::Name {
                dir: dir@,
                rest: paths_view(rest@),
                listed: *listed,
                name: name@,
                names: texts_view(names@),
            },
            SearchStage::Listing { dir, rest, listed } => SearchStageView::Listing {
                dir: dir@,
                rest: paths_view(rest@),
                listed: *listed,
            },
            SearchStage::Months => SearchStageView::Months,
            SearchStage::Root => SearchStageView::Root,
            SearchStage::Walk { dir, stack, found } => SearchStageView::Walk {
                dir: dir@,
                stack: paths_view(stack@),
                found: paths_view(found@),
            },
            SearchStage::Sizes { found } => SearchStageView::Sizes { found: paths_view(found@) },
            SearchStage::Done(None) => SearchStageView::Done(None),
            SearchStage::Done(Some(path)) => SearchStageView::Done(Some(path@)),
        }
    }
}

/// What a stage wants to know.
pub open spec fn question_of(key: SearchKeyView, stage: SearchStageView) -> SearchQuestionView {
    match stage {
        SearchStageView::Chat { .. } => SearchQuestionView::IsDir(chat_place(key)),
        SearchStageView::Place { place, .. } => SearchQuestionView::IsFile(place),
        SearchStageView::Dir { dir, .. } => SearchQuestionView::IsDir(dir),
        SearchStageView::Name { dir, name, .. } => SearchQuestionView::IsFile(
            dir.push(encode_utf8(name)),
        ),
        SearchStageView::Listing { dir, .. } => SearchQuestionView::Entries(dir),
        SearchStageView::Months => SearchQuestionView::Entries(chat_place(key)),
        SearchStageView::Root => SearchQuestionView::IsDir(Seq::empty()),
        SearchStageView::Walk { dir, .. } => SearchQuestionView::Entries(dir),
        SearchStageView::Sizes { found } => SearchQuestionView::Sizes(found),
        SearchStageView::Done(path) => SearchQuestionView::Nothing(path),
    }
}

/// What is left when no month has the file: for a voice message the whole tree.
pub open spec fn beyond_months(kind: AttachmentKind) -> SearchStageView {
    if kind == AttachmentKind::Voice {
        SearchStageView::Root
    } else {
        SearchStageView::Done(None)
    }
}

/// Goes on when no directory is left: with the other months, if they are not
/// `listed` yet.
pub open spec fn beyond_dirs(kind: AttachmentKind, listed: bool) -> SearchStageView {
    if !listed {
        SearchStageView::Months
    } else {
        beyond_months(kind)
    }
}

/// Goes on with the first of several places of an image.
pub open spec fn try_places(
    kind: AttachmentKind,
    places: Seq<Place>,
    listed: bool,
) -> SearchStageView {
    if places.len() > 0 {
        SearchStageView::Place { place: places[0], rest: places.drop_first(), listed }
    } else {
        beyond_dirs(kind, listed)
    }
}

/// Goes on with several directories: for an image with its places in all of them,
/// for other kinds with the first directory.
pub open spec fn try_dirs(key: SearchKeyView, dirs: Seq<Place>, listed: bool) -> SearchStageView {
    if key.kind == AttachmentKind::Image {
        try_places(key.kind, image_places(key.file_md5, dirs), listed)
    } else if dirs.len() > 0 {
        SearchStageView::Dir { dir: dirs[0], rest: dirs.drop_first(), listed }
    } else {
        beyond_dirs(key.kind, listed)
    }
}

/// Goes on with the first of several names in a directory, and behind the last one
/// with any name that fits.
pub open spec fn try_names(
    dir: Place,
    rest: Seq<Place>,
    listed: bool,
    names: Seq<Seq<char>>,
) -> SearchStageView {
    if names.len() > 0 {
        SearchStageView::Name { dir, rest, listed, name: names[0], names: names.drop_first() }
    } else {
        SearchStageView::Listing { dir, rest, listed }
    }
}

/// Goes on with the last of several directories of the tree.
pub open spec fn walk_on(stack: Seq<Place>, found: Seq<Place>) -> SearchStageView {
    if stack.len() > 0 {
        SearchStageView::Walk { dir: stack.last(), stack: stack.drop_last(), found }
    } else if found.len() > 0 {
        SearchStageView::Sizes { found }
    } else {
        SearchStageView::Done(None)
    }
}

/// How an answer moves a search on. An answer to another question does not.
pub open spec fn next_search_stage(
    key: SearchKeyView,
    stage: SearchStageView,
    answer: SearchAnswerView,
) -> SearchStageView {
    match (stage, answer) {
        (SearchStageView::Chat { months }, SearchAnswerView::Yes(yes)) => if yes {
            try_dirs(
                key,
                media_dirs(key, months.map_values(|m: Seq<char>| encode_utf8(m))),
                false,
            )
        } else {
            beyond_months(key.kind)
        },
        (SearchStageView::Place { place, rest, listed }, SearchAnswerView::Yes(yes)) => if yes {
            SearchStageView::Done(Some(place))
        } else {
            try_places(key.kind, rest, listed)
        },
        (SearchStageView::Dir { dir, rest, listed }, SearchAnswerView::Yes(yes)) => if yes {
            try_names(dir, rest, listed, media_names(key.file_md5, key.kind))
        } else {
            try_dirs(key, rest, listed)
        },
        (
            SearchStageView::Name { dir, rest, listed, name, names },
            SearchAnswerView::Yes(yes),
        ) => if yes {
            SearchStageView::Done(Some(dir.push(encode_utf8(name))))
        } else {
            try_names(dir, rest, listed, names)
        },
        (
            SearchStageView::Listing { dir, rest, listed },
            SearchAnswerView::Entries(entries),
        ) => match entries {
            Some(entries) if fitting_files(dir, entries, key.file_md5).len()
                > 0 => SearchStageView::Sizes {
                found: fitting_files(dir, entries, key.file_md5),
            },
            _ => try_dirs(key, rest, listed),
        },
        (SearchStageView::Months, SearchAnswerView::Entries(entries)) => match entries {
            Some(entries) => try_dirs(key, media_dirs(key, month_dirs(entries)), true),
            None => SearchStageView::Done(None),
        },
        (SearchStageView::Root, SearchAnswerView::Yes(yes)) => if yes {
            walk_on(seq![Seq::empty()], Seq::empty())
        } else {
            SearchStageView::Done(None)
        },
        (
            SearchStageView::Walk { dir, stack, found },
            SearchAnswerView::Entries(entries),
        ) => match entries {
            Some(entries) => walk_on(
                stack + subdirs(dir, entries),
                found + fitting_files(dir, entries, key.file_md5),
            ),
            None => walk_on(stack, found),
        },
        (SearchStageView::Sizes { found }, SearchAnswerView::Sizes(sizes)) => if sizes.len()
            != found.len() {
            stage
        } else if found.len() == 0 {
            SearchStageView::Done(None)
        } else {
            SearchStageView::Done(Some(found[first_largest(sizes)]))
        },
        (stage, _) => stage,
    }
}

/// Tells whether bytes are UTF-8.
///
/// It calls `core::str::from_utf8`, which gives a text for UTF-8 and an error for
/// anything else.
#[verifier::external_body]
fn is_utf8(bytes: &[u8]) -> (valid: bool)
    ensures
        valid == valid_utf8(bytes@),
{
    core::str::from_utf8(bytes).is_ok()
}

/// Tells whether a name is text and starts with a digest.
fn fits(name: &[u8], file_md5: &str) -> (yes: bool)
    ensures
        yes == name_fits(name@, file_md5@),
{
    is_utf8(name) && matches_at(name, file_md5.as_bytes(), 0)
}

/// Adds the directories of a month in which files of a kind lie.
fn push_kind_dirs(dirs: &mut Vec<PathParts>, kind: AttachmentKind, month: PathParts)
    ensures
        paths_view(final(dirs)@) == paths_view(old(dirs)@) + kind_dirs(kind, month@),
{
    let ghost before = dirs@;
    match kind {
        AttachmentKind::Image => {
            dirs.push(month.join("Img"));
        },
        AttachmentKind::Voice => {
            dirs.push(month.join("Voice"));
            dirs.push(month.join("Audio"));
            dirs.push(month.join("Aud"));
        },
        AttachmentKind::Video => {
            dirs.push(month.join("Video"));
        },
        AttachmentKind::File => {
            dirs.push(month);
        },
    }
    assert(paths_view(dirs@) =~= paths_view(before) + kind_dirs(kind, month@));
}

/// The chat's directory.
fn chat_path(key: &SearchKey) -> (path: PathParts)
    ensures
        path@ == chat_place(key@),
{
    let path = PathParts::here().join(key.chat_dir.as_str());
    assert(path@ =~= chat_place(key@));
    path
}

/// The directories of several months in which files of a kind lie.
fn media_dir_list(key: &SearchKey, months: &Vec<Vec<u8>>) -> (dirs: Vec<PathParts>)
    ensures
        paths_view(dirs@) == media_dirs(key@, names_view(months@)),
{
    let chat = chat_path(key);
    let ghost view = names_view(months@);
    let mut dirs: Vec<PathParts> = Vec::new();
    let mut i: usize = 0;
    assert(view.take(0) =~= Seq::empty());
    assert(paths_view(dirs@) =~= Seq::empty());
    while i < months.len()
        invariant
            i <= months@.len(),
            chat@ == chat_place(key@),
            view == names_view(months@),
            paths_view(dirs@) == media_dirs(key@, view.take(i as int)),
        decreases months@.len() - i,
    {
        assert(view.take(i + 1).drop_last() =~= view.take(i as int));
        assert(view.take(i + 1).last() == months@[i as int]@);
        push_kind_dirs(&mut dirs, key.kind, chat.join_bytes(months[i].as_slice()));
        i += 1;
    }
    assert(view.take(view.len() as int) =~= view);
    dirs
}

/// The bytes of several texts.
fn texts_as_bytes(texts: &Vec<String>) -> (names: Vec<Vec<u8>>)
    ensures
        names_view(names@) == texts_view(texts@).map_values(|t: Seq<char>| encode_utf8(t)),
{
    let ghost wanted = texts_view(texts@).map_values(|t: Seq<char>| encode_utf8(t));
    let mut names: Vec<Vec<u8>> = Vec::new();
    let mut i: usize = 0;
    while i < texts.len()
        invariant
            i <= texts@.len(),
            names@.len() == i,
            wanted.len() == texts@.len(),
            forall|j: int| 0 <= j < texts@.len() ==> #[trigger] wanted[j] == encode_utf8(texts@[j]@),
            forall|j: int| 0 <= j < i ==> (#[trigger] names@[j])@ == wanted[j],
        decreases texts@.len() - i,
    {
        names.push(slice_to_vec(texts[i].as_str().as_bytes()));
        assert(wanted[i as int] == encode_utf8(texts@[i as int]@));
        i += 1;
    }
    assert(names_view(names@) =~= wanted);
    names
}

/// The names of a directory's directories, as listed.
fn dir_name_list(entries: &Vec<DirEntry>) -> (names: Vec<Vec<u8>>)
    ensures
        names_view(names@) == dir_names(entries_view(entries@)),
{
    let ghost view = entries_view(entries@);
    let mut names: Vec<Vec<u8>> = Vec::new();
    let mut i: usize = 0;
    assert(view.take(0) =~= Seq::empty());
    assert(names_view(names@) =~= Seq::empty());
    while i < entries.len()
        invariant
            i <= entries@.len(),
            view == entries_view(entries@),
            names_view(names@) == dir_names(view.take(i as int)),
        decreases entries@.len() - i,
    {
        assert(view.take(i + 1).drop_last() =~= view.take(i as int));
        assert(view.take(i + 1).last() == entries@[i as int]@);
        if entries[i].kind == EntryKind::Dir {
            let ghost before = names@;
            names.push(slice_to_vec(entries[i].name.as_slice()));
            assert(names_view(names@) =~= names_view(before).push(entries@[i as int].name@));
        }
        i += 1;
    }
    assert(view.take(view.len() as int) =~= view);
    names
}

/// Adds the files of a directory whose name fits.
fn push_fitting(
    found: &mut Vec<PathParts>,
    dir: &PathParts,
    entries: &Vec<DirEntry>,
    file_md5: &str,
)
    ensures
        paths_view(final(found)@) == paths_view(old(found)@) + fitting_files(
            dir@,
            entries_view(entries@),
            file_md5@,
        ),
{
    let ghost view = entries_view(entries@);
    let ghost before = paths_view(found@);
    let mut i: usize = 0;
    assert(view.take(0) =~= Seq::empty());
    assert(before + Seq::<Place>::empty() =~= before);
    while i < entries.len()
        invariant
            i <= entries@.len(),
            view == entries_view(entries@),
            paths_view(found@) == before + fitting_files(dir@, view.take(i as int), file_md5@),
        decreases entries@.len() - i,
    {
        assert(view.take(i + 1).drop_last() =~= view.take(i as int));
        assert(view.take(i + 1).last() == entries@[i as int]@);
        if entries[i].kind == EntryKind::File && fits(entries[i].name.as_slice(), file_md5) {
            let ghost so_far = found@;
            let path = dir.join_bytes(entries[i].name.as_slice());
            found.push(path);
            assert(paths_view(found@) =~= paths_view(so_far).push(path@));
            assert(before + fitting_files(dir@, view.take(i as int), file_md5@).push(path@) =~= (
            before + fitting_files(dir@, view.take(i as int), file_md5@)).push(path@));
        }
        i += 1;
    }
    assert(view.take(view.len() as int) =~= view);
}

/// Adds the directories in a directory.
fn push_subdirs(stack: &mut Vec<PathParts>, dir: &PathParts, entries: &Vec<DirEntry>)
    ensures
        paths_view(final(stack)@) == paths_view(old(stack)@) + subdirs(
            dir@,
            entries_view(entries@),
        ),
{
    let names = dir_name_list(entries);
    let ghost before = paths_view(stack@);
    let ghost wanted = subdirs(dir@, entries_view(entries@));
    let mut i: usize = 0;
    assert(before + wanted.take(0) =~= before);
    while i < names.len()
        invariant
            i <= names@.len(),
            wanted == names_view(names@).map_values(|name: Seq<u8>| dir@.push(name)),
            paths_view(stack@) == before + wanted.take(i as int),
        decreases names@.len() - i,
    {
        let ghost so_far = stack@;
        let path = dir.join_bytes(names[i].as_slice());
        stack.push(path);
        assert(wanted[i as int] == path@);
        assert(paths_view(stack@) =~= paths_view(so_far).push(path@));
        i += 1;
        assert(before + wanted.take(i as int) =~= (before + wanted.take(i - 1)).push(path@));
    }
    assert(wanted.take(wanted.len() as int) =~= wanted);
}

/// What is left when no month has the file.
fn stage_beyond_months(kind: AttachmentKind) -> (stage: SearchStage)
    ensures
        stage@ == beyond_months(kind),
{
    if kind == AttachmentKind::Voice {
        SearchStage::Root
    } else {
        SearchStage::Done(None)
    }
}

/// Goes on when no directory is left.
fn stage_beyond_dirs(kind: AttachmentKind, listed: bool) -> (stage: SearchStage)
    ensures
        stage@ == beyond_dirs(kind, listed),
{
    if !listed {
        SearchStage::Months
    } else {
        stage_beyond_months(kind)
    }
}

/// The places of an image in several directories.
fn image_place_list(file_md5: &str, dirs: &Vec<PathParts>) -> (places: Vec<PathParts>)
    ensures
        paths_view(places@) == image_places(file_md5@, paths_view(dirs@)),
{
    let names = exact_media_names(file_md5, AttachmentKind::Image);
    let ghost all = texts_view(names@);
    let ghost dirs_view = paths_view(dirs@);
    let mut places: Vec<PathParts> = Vec::new();
    let mut i: usize = 0;
    assert(all.take(0) =~= Seq::empty());
    assert(paths_view(places@) =~= Seq::empty());
    while i < names.len()
        invariant
            i <= names@.len(),
            all == texts_view(names@),
            dirs_view == paths_view(dirs@),
            paths_view(places@) == places_named(all.take(i as int), dirs_view),
        decreases names@.len() - i,
    {
        assert(all.take(i + 1).drop_last() =~= all.take(i as int));
        assert(all.take(i + 1).last() == names@[i as int]@);
        push_name_in_dirs(&mut places, dirs, names[i].as_str());
        i += 1;
    }
    assert(all.take(all.len() as int) =~= all);
    places
}

/// Adds the places of one name in several directories.
fn push_name_in_dirs(places: &mut Vec<PathParts>, dirs: &Vec<PathParts>, name: &str)
    ensures
        paths_view(final(places)@) == paths_view(old(places)@) + paths_view(dirs@).map_values(
            |dir: Place| dir.push(encode_utf8(name@)),
        ),
{
    let ghost before = paths_view(places@);
    let ghost wanted = paths_view(dirs@).map_values(|dir: Place| dir.push(encode_utf8(name@)));
    let mut i: usize = 0;
    assert(before + wanted.take(0) =~= before);
    while i < dirs.len()
        invariant
            i <= dirs@.len(),
            wanted == paths_view(dirs@).map_values(|dir: Place| dir.push(encode_utf8(name@))),
            paths_view(places@) == before + wanted.take(i as int),
        decreases dirs@.len() - i,
    {
        let ghost so_far = places@;
        let path = dirs[i].join(name);
        places.push(path);
        assert(paths_view(dirs@)[i as int] == dirs@[i as int]@);
        assert(wanted[i as int] == path@);
        assert(paths_view(places@) =~= paths_view(so_far).push(path@));
        i += 1;
        assert(before + wanted.take(i as int) =~= (before + wanted.take(i - 1)).push(path@));
    }
    assert(wanted.take(wanted.len() as int) =~= wanted);
}

/// Goes on with the first of several places of an image.
fn stage_for_places(kind: AttachmentKind, places: Vec<PathParts>, listed: bool) -> (stage:
    SearchStage)
    ensures
        stage@ == try_places(kind, paths_view(places@), listed),
{
    let mut rest = places;
    if rest.len() > 0 {
        let place = rest.remove(0);
        assert(paths_view(rest@) =~= paths_view(places@).drop_first());
        SearchStage::Place { place, rest, listed }
    } else {
        stage_beyond_dirs(kind, listed)
    }
}

/// Goes on with several directories.
fn stage_for_dirs(key: &SearchKey, dirs: Vec<PathParts>, listed: bool) -> (stage: SearchStage)
    ensures
        stage@ == try_dirs(key@, paths_view(dirs@), listed),
{
    if key.kind == AttachmentKind::Image {
        let places = image_place_list(key.file_md5.as_str(), &dirs);
        return stage_for_places(key.kind, places, listed);
    }
    let mut rest = dirs;
    if rest.len() > 0 {
        let dir = rest.remove(0);
        assert(paths_view(rest@) =~= paths_view(dirs@).drop_first());
        SearchStage::Dir { dir, rest, listed }
    } else {
        stage_beyond_dirs(key.kind, listed)
    }
}

/// Goes on with the first of several names in a directory.
fn stage_for_names(
    dir: PathParts,
    rest: Vec<PathParts>,
    listed: bool,
    names: Vec<String>,
) -> (stage: SearchStage)
    ensures
        stage@ == try_names(dir@, paths_view(rest@), listed, texts_view(names@)),
{
    let mut later = names;
    if later.len() > 0 {
        let name = later.remove(0);
        assert(texts_view(later@) =~= texts_view(names@).drop_first());
        SearchStage::Name { dir, rest, listed, name, names: later }
    } else {
        SearchStage::Listing { dir, rest, listed }
    }
}

/// Goes on with the last of several directories of the tree.
fn stage_for_walk(stack: Vec<PathParts>, found: Vec<PathParts>) -> (stage: SearchStage)
    ensures
        stage@ == walk_on(paths_view(stack@), paths_view(found@)),
{
    let mut stack = stack;
    let ghost before = stack@;
    match stack.pop() {
        Some(dir) => {
            assert(paths_view(stack@) =~= paths_view(before).drop_last());
            SearchStage::Walk { dir, stack, found }
        },
        None => if found.len() > 0 {
            SearchStage::Sizes { found }
        } else {
            SearchStage::Done(None)
        },
    }
}

/// A search for an attachment's file.
#[derive(Debug)]
pub struct MediaSearch {
    pub key: SearchKey,
    pub stage: SearchStage,
}

impl MediaSearch {
    /// What the search wants to know next.
    pub fn question(&self) -> (question: SearchQuestion)
        ensures
            question@ == question_of(self.key@, self.stage@),
    {
        match &self.stage {
            SearchStage::Chat { .. } => SearchQuestion::IsDir(chat_path(&self.key)),
            SearchStage::Place { place, .. } => SearchQuestion::IsFile(place.copy()),
            SearchStage::Dir { dir, .. } => SearchQuestion::IsDir(dir.copy()),
            SearchStage::Name { dir, name, .. } => SearchQuestion::IsFile(dir.join(name.as_str())),
            SearchStage::Listing { dir, .. } => SearchQuestion::Entries(dir.copy()),
            SearchStage::Months => SearchQuestion::Entries(chat_path(&self.key)),
            SearchStage::Root => SearchQuestion::IsDir(PathParts::here()),
            SearchStage::Walk { dir, .. } => SearchQuestion::Entries(dir.copy()),
            SearchStage::Sizes { found } => {
                let mut paths: Vec<PathParts> = Vec::new();
                let mut i: usize = 0;
                while i < found.len()
                    invariant
                        i <= found@.len(),
                        paths@.len() == i,
                        forall|j: int| 0 <= j < i ==> (#[trigger] paths@[j])@ == found@[j]@,
                    decreases found@.len() - i,
                {
                    paths.push(found[i].copy());
                    i += 1;
                }
                assert(paths_view(paths@) =~= paths_view(found@));
                SearchQuestion::Sizes(paths)
            },
            SearchStage::Done(None) => SearchQuestion::Nothing(None),
            SearchStage::Done(Some(path)) => SearchQuestion::Nothing(Some(path.copy())),
        }
    }

    /// Takes the answer to the question.
    pub fn answer(self, answer: SearchAnswer) -> (search: MediaSearch)
        ensures
            search.key == self.key,
            search.stage@ == next_search_stage(self.key@, self.stage@, answer@),
    {
        let MediaSearch { key, stage } = self;
        let stage = match (stage, answer) {
            (SearchStage::Chat { months }, SearchAnswer::Yes(yes)) => if yes {
                let names = texts_as_bytes(&months);
                stage_for_dirs(&key, media_dir_list(&key, &names), false)
            } else {
                stage_beyond_months(key.kind)
            },
            (SearchStage::Place { place, rest, listed }, SearchAnswer::Yes(yes)) => if yes {
                SearchStage::Done(Some(place))
            } else {
                stage_for_places(key.kind, rest, listed)
            },
            (SearchStage::Dir { dir, rest, listed }, SearchAnswer::Yes(yes)) => if yes {
                let names = exact_media_names(key.file_md5.as_str(), key.kind);
                stage_for_names(dir, rest, listed, names)
            } else {
                stage_for_dirs(&key, rest, listed)
            },
            (SearchStage::Name { dir, rest, listed, name, names }, SearchAnswer::Yes(yes)) => {
                if yes {
                    SearchStage::Done(Some(dir.join(name.as_str())))
                } else {
                    stage_for_names(dir, rest, listed, names)
                }
            },
            (SearchStage::Listing { dir, rest, listed }, SearchAnswer::Entries(entries)) => {
                let mut found: Vec<PathParts> = Vec::new();
                assert(paths_view(found@) =~= Seq::<Place>::empty());
                if let Some(entries) = entries {
                    push_fitting(&mut found, &dir, &entries, key.file_md5.as_str());
                    assert(paths_view(found@) =~= fitting_files(
                        dir@,
                        entries_view(entries@),
                        key.file_md5@,
                    ));
                }
                if found.len() > 0 {
                    SearchStage::Sizes { found }
                } else {
                    stage_for_dirs(&key, rest, listed)
                }
            },
            (SearchStage::Months, SearchAnswer::Entries(entries)) => match entries {
                Some(entries) => {
                    let months = sort_names(dir_name_list(&entries));
                    stage_for_dirs(&key, media_dir_list(&key, &months), true)
                },
                None => SearchStage::Done(None),
            },
            (SearchStage::Root, SearchAnswer::Yes(yes)) => if yes {
                let stack = vec![PathParts::here()];
                let found: Vec<PathParts> = Vec::new();
                assert(paths_view(stack@) =~= seq![Seq::<Seq<u8>>::empty()]);
                assert(paths_view(found@) =~= Seq::<Place>::empty());
                stage_for_walk(stack, found)
            } else {
                SearchStage::Done(None)
            },
            (SearchStage::Walk { dir, stack, found }, SearchAnswer::Entries(entries)) => {
                let mut stack = stack;
                let mut found = found;
                if let Some(entries) = entries {
                    push_subdirs(&mut stack, &dir, &entries);
                    push_fitting(&mut found, &dir, &entries, key.file_md5.as_str());
                }
                stage_for_walk(stack, found)
            },
            (SearchStage::Sizes { found }, SearchAnswer::Sizes(sizes)) => {
                let ghost places = paths_view(found@);
                let mut found = found;
                if sizes.len() != found.len() {
                    SearchStage::Sizes { found }
                } else {
                    match largest_size(&sizes) {
                        Some(k) => {
                            assert(places[k as int] == found@[k as int]@);
                            SearchStage::Done(Some(found.swap_remove(k)))
                        },
                        None => SearchStage::Done(None),
                    }
                }
            },
            (stage, _) => stage,
        };
        MediaSearch { key, stage }
    }
}

/// Starts a search in a chat's directory, with the months to be tried first.
pub fn search_from(
    chat_dir: String,
    months: Vec<String>,
    file_md5: String,
    kind: AttachmentKind,
) -> (search: MediaSearch)
    ensures
        search.key == (SearchKey { kind, file_md5, chat_dir }),
        search.stage@ == (SearchStageView::Chat { months: texts_view(months@) }),
{
    MediaSearch {
        key: SearchKey { kind, file_md5, chat_dir },
        stage: SearchStage::Chat { months },
    }
}

/// Starts a search for an image's file in one directory.
pub fn pick_best_in_img_dir(img_dir: PathParts, file_md5: String) -> (search: MediaSearch)
    ensures
        search.key.kind == AttachmentKind::Image,
        search.key.file_md5 == file_md5,
        search.stage@ == try_dirs(search.key@, seq![img_dir@], true),
{
    let key = SearchKey { kind: AttachmentKind::Image, file_md5, chat_dir: String::new() };
    let dirs = vec![img_dir];
    assert(paths_view(dirs@) =~= seq![img_dir@]);
    let stage = stage_for_dirs(&key, dirs, true);
    MediaSearch { key, stage }
}

/// The order in which months that follow each other are searched for a kind: for
/// an image the one in the middle comes first.
pub open spec fn order_for(kind: AttachmentKind, names: Seq<Seq<char>>) -> Seq<Seq<char>> {
    if kind == AttachmentKind::Image {
        own_month_first(names)
    } else {
        names
    }
}

/// The months that are searched first for a moment and a kind: the month before
/// its local month, that month and the month behind. A moment without a date has
/// none.
pub open spec fn first_months(
    create_time: int,
    kind: AttachmentKind,
    months: Seq<Seq<char>>,
) -> bool {
    if has_date(create_time) {
        exists|year: int, month: int| #[trigger]
            local_month(create_time, year, month) && months == order_for(
                kind,
                month_names_around(year, month),
            )
    } else {
        months.len() == 0
    }
}

/// A search starts at the chat's directory, with the months around a moment.
pub open spec fn search_starts(
    search: MediaSearch,
    chat: Seq<char>,
    file_md5: Seq<char>,
    create_time: int,
    kind: AttachmentKind,
) -> bool {
    &&& search.key.kind == kind
    &&& search.key.file_md5@ == file_md5
    &&& search.key.chat_dir@ == hex(md5_digest(encode_utf8(chat)))
    &&& search.stage@ matches SearchStageView::Chat { months }
    &&& first_months(create_time, kind, months)
}

/// Names the months that are searched first for a moment and a kind.
pub fn months_to_search(create_time: i64, kind: AttachmentKind) -> (months: Vec<String>)
    ensures
        first_months(create_time as int, kind, texts_view(months@)),
{
    let names = three_month_candidates(create_time);
    assert(texts_view(names@).len() == names@.len());
    if kind == AttachmentKind::Image {
        search_order(names)
    } else {
        names
    }
}

/// Starts a search for an attachment's file of a kind.
pub fn find_media_file(
    chat: &str,
    file_md5: String,
    create_time: i64,
    kind: AttachmentKind,
) -> (search: MediaSearch)
    ensures
        search_starts(search, chat@, file_md5@, create_time as int, kind),
{
    let chat_dir = md5_hex(chat);
    search_from(chat_dir, months_to_search(create_time, kind), file_md5, kind)
}

/// Starts a search for an image's file.
pub fn find_dat_file(chat: &str, file_md5: String, create_time: i64) -> (search: MediaSearch)
    ensures
        search_starts(search, chat@, file_md5@, create_time as int, AttachmentKind::Image),
{
    find_media_file(chat, file_md5, create_time, AttachmentKind::Image)
}

// ---------------------------------------------------------------------------
// What is a candidate
// ---------------------------------------------------------------------------

/// Whatever stands behind the digest, a name that starts with it fits.
pub proof fn law_any_ending_fits(file_md5: Seq<char>, ending: Seq<char>)
    ensures
        name_fits(encode_utf8(file_md5 + ending), file_md5),
{
    lemma_encode_joined(file_md5, ending);
    encode_utf8_valid_utf8(file_md5 + ending);
    let name = encode_utf8(file_md5) + encode_utf8(ending);
    assert(name.subrange(0, encode_utf8(file_md5).len() as int) =~= encode_utf8(file_md5));
}

/// A name fits only where it is text and its first bytes are those of the digest.
/// Whatever is put behind a name that fits, it still fits, if it is text.
pub proof fn law_names_that_fit(name: Seq<u8>, file_md5: Seq<char>, more: Seq<u8>)
    ensures
        name_fits(name, file_md5) ==> {
            &&& valid_utf8(name)
            &&& encode_utf8(file_md5).len() <= name.len()
            &&& forall|i: int|
                0 <= i < encode_utf8(file_md5).len() ==> name[i] == #[trigger] encode_utf8(
                    file_md5,
                )[i]
        },
        name_fits(name, file_md5) && valid_utf8(name + more) ==> name_fits(name + more, file_md5),
        valid_utf8(encode_utf8(file_md5) + more) ==> name_fits(
            encode_utf8(file_md5) + more,
            file_md5,
        ),
{
    let digest = encode_utf8(file_md5);
    if name_fits(name, file_md5) {
        assert forall|i: int| 0 <= i < digest.len() implies name[i] == #[trigger] digest[i] by {
            assert(name.subrange(0, digest.len() as int)[i] == digest[i]);
        }
        assert((name + more).subrange(0, digest.len() as int) =~= name.subrange(
            0,
            digest.len() as int,
        ));
    }
    assert((digest + more).subrange(0, digest.len() as int) =~= digest);
}

/// Every file in a directory whose name starts with the digest is a candidate,
/// whatever stands behind the digest.
pub proof fn law_every_ending_is_a_candidate(
    dir: Place,
    entries: Seq<DirEntryView>,
    i: int,
    file_md5: Seq<char>,
    ending: Seq<char>,
)
    requires
        0 <= i < entries.len(),
        entries[i].kind == EntryKind::File,
        entries[i].name == encode_utf8(file_md5 + ending),
    ensures
        fitting_files(dir, entries, file_md5).contains(dir.push(entries[i].name)),
{
    law_any_ending_fits(file_md5, ending);
    lemma_fitting_member(dir, entries, i, file_md5);
}

proof fn lemma_fitting_member(
    dir: Place,
    entries: Seq<DirEntryView>,
    i: int,
    file_md5: Seq<char>,
)
    requires
        0 <= i < entries.len(),
        entries[i].kind == EntryKind::File,
        name_fits(entries[i].name, file_md5),
    ensures
        fitting_files(dir, entries, file_md5).contains(dir.push(entries[i].name)),
    decreases entries.len(),
{
    let front = entries.drop_last();
    let all = fitting_files(dir, entries, file_md5);
    if i == entries.len() - 1 {
        assert(all[all.len() - 1] == dir.push(entries[i].name));
    } else {
        lemma_fitting_member(dir, front, i, file_md5);
        let before = fitting_files(dir, front, file_md5);
        let k = choose|k: int|
            0 <= k < before.len() && before[k] == dir.push(front[i].name);
        assert(all[k] == dir.push(entries[i].name));
    }
}

/// Only files of the directory whose name starts with the digest are candidates,
/// each as often as it is listed, in the order in which they are listed.
pub proof fn law_candidates(
    dir: Place,
    entries: Seq<DirEntryView>,
    entry: DirEntryView,
    file_md5: Seq<char>,
)
    ensures
        fitting_files(dir, Seq::empty(), file_md5) == Seq::<Place>::empty(),
        entry.kind == EntryKind::File && name_fits(entry.name, file_md5) ==> fitting_files(
            dir,
            entries.push(entry),
            file_md5,
        ) == fitting_files(dir, entries, file_md5).push(dir.push(entry.name)),
        entry.kind != EntryKind::File || !name_fits(entry.name, file_md5) ==> fitting_files(
            dir,
            entries.push(entry),
            file_md5,
        ) == fitting_files(dir, entries, file_md5),
{
    assert(entries.push(entry).drop_last() =~= entries);
}

/// The directories of a directory are all that are listed as such, in the order in
/// which they are listed.
pub proof fn law_dir_names(dir: Place, entries: Seq<DirEntryView>, entry: DirEntryView)
    ensures
        dir_names(Seq::empty()) == Seq::<Seq<u8>>::empty(),
        entry.kind == EntryKind::Dir ==> dir_names(entries.push(entry)) == dir_names(entries).push(
            entry.name,
        ),
        entry.kind != EntryKind::Dir ==> dir_names(entries.push(entry)) == dir_names(entries),
        subdirs(dir, entries).len() == dir_names(entries).len(),
        forall|i: int|
            0 <= i < dir_names(entries).len() ==> #[trigger] subdirs(dir, entries)[i] == dir.push(
                dir_names(entries)[i],
            ),
{
    assert(entries.push(entry).drop_last() =~= entries);
}

/// The months of a chat are all its directories, by rising name.
pub proof fn law_month_dirs(entries: Seq<DirEntryView>)
    ensures
        month_dirs(entries).to_multiset() == dir_names(entries).to_multiset(),
        forall|i: int, j: int|
            0 <= i < j < month_dirs(entries).len() ==> not_after(
                #[trigger] month_dirs(entries)[i],
                #[trigger] month_dirs(entries)[j],
            ),
{
    law_names_are_ordered();
    let names = dir_names(entries);
    let sorted = month_dirs(entries);
    names.lemma_sort_by_ensures(name_order());
    assert forall|i: int, j: int| 0 <= i < j < sorted.len() implies not_after(
        #[trigger] sorted[i],
        #[trigger] sorted[j],
    ) by {
        assert(name_order()(sorted[i], sorted[j]));
    }
}

/// In every month, images lie in `Img`, voice messages in `Voice`, `Audio` or
/// `Aud`, tried in this order, videos in `Video`, and files in the month itself.
pub proof fn law_kind_dirs(month: Place)
    ensures
        kind_dirs(AttachmentKind::Image, month) == seq![month.push(encode_utf8("Img"@))],
        kind_dirs(AttachmentKind::Voice, month) == seq![
            month.push(encode_utf8("Voice"@)),
            month.push(encode_utf8("Audio"@)),
            month.push(encode_utf8("Aud"@)),
        ],
        kind_dirs(AttachmentKind::Video, month) == seq![month.push(encode_utf8("Video"@))],
        kind_dirs(AttachmentKind::File, month) == seq![month],
{
}

/// The directories of several months are those of each month in the chat's
/// directory, one month behind the other.
pub proof fn law_media_dirs(key: SearchKeyView, months: Seq<Seq<u8>>, month: Seq<u8>)
    ensures
        media_dirs(key, Seq::empty()) == Seq::<Place>::empty(),
        media_dirs(key, months.push(month)) == media_dirs(key, months) + kind_dirs(
            key.kind,
            seq![encode_utf8(key.chat_dir), month],
        ),
{
    assert(months.push(month).drop_last() =~= months);
    assert(chat_place(key).push(month) =~= seq![encode_utf8(key.chat_dir), month]);
}

/// The directory of a month is among those that are tried.
pub proof fn law_no_month_is_left_out(
    key: SearchKeyView,
    months: Seq<Seq<u8>>,
    i: int,
    j: int,
)
    requires
        0 <= i < months.len(),
        0 <= j < kind_dirs(key.kind, chat_place(key).push(months[i])).len(),
    ensures
        media_dirs(key, months).contains(kind_dirs(key.kind, chat_place(key).push(months[i]))[j]),
    decreases months.len(),
{
    let front = media_dirs(key, months.drop_last());
    let all = media_dirs(key, months);
    let wanted = kind_dirs(key.kind, chat_place(key).push(months[i]))[j];
    if i == months.len() - 1 {
        assert(all[front.len() + j] == wanted);
    } else {
        law_no_month_is_left_out(key, months.drop_last(), i, j);
        let k = choose|k: int| 0 <= k < front.len() && front[k] == wanted;
        assert(all[k] == wanted);
    }
}

/// The months around a message's time are tried as they follow each other, but for
/// an image its own month comes first.
pub proof fn law_order_of_months(
    kind: AttachmentKind,
    before: Seq<char>,
    own: Seq<char>,
    behind: Seq<char>,
)
    ensures
        kind == AttachmentKind::Image ==> order_for(kind, seq![before, own, behind]) == seq![
            own,
            before,
            behind,
        ],
        kind != AttachmentKind::Image ==> order_for(kind, seq![before, own, behind]) == seq![
            before,
            own,
            behind,
        ],
{
}

/// A moment with a date has three first months, which are those around its local
/// month; one without has none.
pub proof fn law_first_months(create_time: int, kind: AttachmentKind, months: Seq<Seq<char>>)
    requires
        first_months(create_time, kind, months),
    ensures
        !has_date(create_time) ==> months.len() == 0,
        has_date(create_time) ==> months.len() == 3 && exists|year: int, month: int|
            #![trigger local_month(create_time, year, month)]
            local_month(create_time, year, month) && months.to_multiset() == month_names_around(
                year,
                month,
            ).to_multiset(),
{
    broadcast use vstd::seq_lib::group_to_multiset_ensures;

    if has_date(create_time) {
        let (year, month) = choose|year: int, month: int| #[trigger]
            local_month(create_time, year, month) && months == order_for(
                kind,
                month_names_around(year, month),
            );
        let names = month_names_around(year, month);
        if kind == AttachmentKind::Image {
            let a = seq![names[1]];
            let b = a.push(names[0]);
            assert(months =~= b.push(names[2]));
            let c = seq![names[0]];
            let d = c.push(names[1]);
            assert(names =~= d.push(names[2]));
            assert(a =~= Seq::<Seq<char>>::empty().push(names[1]));
            assert(c =~= Seq::<Seq<char>>::empty().push(names[0]));
            assert(b.to_multiset() =~= d.to_multiset());
        }
        assert(months.to_multiset() =~= names.to_multiset());
    }
}

// ---------------------------------------------------------------------------
// What is said
// ---------------------------------------------------------------------------

/// An entry says its name and what it stands for, and entries do so in their
/// order.
pub proof fn law_entries_view(entries: Seq<DirEntry>, i: int)
    requires
        0 <= i < entries.len(),
    ensures
        entries_view(entries).len() == entries.len(),
        entries_view(entries)[i].name == entries[i].name@,
        entries_view(entries)[i].kind == entries[i].kind,
{
}

/// A key says its kind, its digest and its chat's directory.
pub proof fn law_key_view(key: SearchKey)
    ensures
        key@.kind == key.kind,
        key@.file_md5 == key.file_md5@,
        key@.chat_dir == key.chat_dir@,
{
}

/// A question says what it asks for.
pub proof fn law_question_view(question: SearchQuestion)
    ensures
        match question {
            SearchQuestion::IsDir(path) => question@ == SearchQuestionView::IsDir(path@),
            SearchQuestion::IsFile(path) => question@ == SearchQuestionView::IsFile(path@),
            SearchQuestion::Entries(path) => question@ == SearchQuestionView::Entries(path@),
            SearchQuestion::Sizes(paths) => question@ == SearchQuestionView::Sizes(
                paths@.map_values(|p: PathParts| p@),
            ),
            SearchQuestion::Nothing(Some(path)) => question@ == SearchQuestionView::Nothing(
                Some(path@),
            ),
            SearchQuestion::Nothing(None) => question@ == SearchQuestionView::Nothing(None),
        },
{
}

/// An answer says what was answered.
pub proof fn law_answer_view(answer: SearchAnswer)
    ensures
        match answer {
            SearchAnswer::Yes(yes) => answer@ == SearchAnswerView::Yes(yes),
            SearchAnswer::Entries(None) => answer@ == SearchAnswerView::Entries(None),
            SearchAnswer::Entries(Some(entries)) => answer@ == SearchAnswerView::Entries(
                Some(entries@.map_values(|e: DirEntry| e@)),
            ),
            SearchAnswer::Sizes(sizes) => answer@ == SearchAnswerView::Sizes(sizes@),
        },
{
}

/// A stage says the places, names and months that are still to be tried.
pub proof fn law_stage_view(stage: SearchStage)
    ensures
        match stage {
            SearchStage::Chat { months } => stage@ == (SearchStageView::Chat {
                months: texts_view(months@),
            }),
            SearchStage::Place { place, rest, listed } => stage@ == (SearchStageView::Place {
                place: place@,
                rest: paths_view(rest@),
                listed,
            }),
            SearchStage::Dir { dir, rest, listed } => stage@ == (SearchStageView::Dir {
                dir: dir@,
                rest: paths_view(rest@),
                listed,
            }),
            SearchStage::Name { dir, rest, listed, name, names } => stage@ == (
            SearchStageView::Name {
                dir: dir@,
                rest: paths_view(rest@),
                listed,
                name: name@,
                names: texts_view(names@),
            }),
            SearchStage::Listing { dir, rest, listed } => stage@ == (SearchStageView::Listing {
                dir: dir@,
                rest: paths_view(rest@),
                listed,
            }),
            SearchStage::Walk { dir, stack, found } => stage@ == (SearchStageView::Walk {
                dir: dir@,
                stack: paths_view(stack@),
                found: paths_view(found@),
            }),
            SearchStage::Sizes { found } => stage@ == (SearchStageView::Sizes {
                found: paths_view(found@),
            }),
            SearchStage::Done(Some(path)) => stage@ == SearchStageView::Done(Some(path@)),
            SearchStage::Done(None) => stage@ == SearchStageView::Done(None),
            SearchStage::Months => stage@ == SearchStageView::Months,
            SearchStage::Root => stage@ == SearchStageView::Root,
        },
{
}

/// A search looks for the very digest and kind that it was started with, first in
/// the directory whose name is the digest of the chat's whole name, and there in the
/// months around the message's time.
pub proof fn law_search_starts(
    search: MediaSearch,
    chat: Seq<char>,
    file_md5: Seq<char>,
    create_time: int,
    kind: AttachmentKind,
)
    requires
        search_starts(search, chat, file_md5, create_time, kind),
    ensures
        search.key.kind == kind,
        search.key.file_md5@ == file_md5,
        search.key.chat_dir@ == hex(md5_digest(encode_utf8(chat))),
        chat_place(search.key@) == seq![encode_utf8(hex(md5_digest(encode_utf8(chat))))],
        search.stage@ is Chat,
        first_months(create_time, kind, search.stage@->months),
        question_of(search.key@, search.stage@) == SearchQuestionView::IsDir(
            chat_place(search.key@),
        ),
{
}

/// An answer to another question does not move a search, nor does one with another
/// number of sizes than was asked for; and nothing moves a search that is over.
pub proof fn law_other_answers_do_not_count(
    key: SearchKeyView,
    stage: SearchStageView,
    answer: SearchAnswerView,
)
    ensures
        (stage is Chat || stage is Place || stage is Dir || stage is Name || stage is Root) && !(
        answer is Yes) ==> next_search_stage(key, stage, answer) == stage,
        (stage is Listing || stage is Months || stage is Walk) && !(answer is Entries)
            ==> next_search_stage(key, stage, answer) == stage,
        stage is Sizes && !(answer is Sizes) ==> next_search_stage(key, stage, answer) == stage,
        stage matches SearchStageView::Sizes { found } && answer matches SearchAnswerView::Sizes(
            sizes,
        ) && sizes.len() != found.len() ==> next_search_stage(key, stage, answer) == stage,
        stage is Done ==> next_search_stage(key, stage, answer) == stage,
{
}

} // verus!
