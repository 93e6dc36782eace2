//! What a search finds on a disk that does not change meanwhile.

use vstd::prelude::*;
use vstd::utf8::encode_utf8;

use crate::attachment::{media_names, AttachmentKind};
use crate::calendar::{month_name, month_names_around, own_month_first};
use crate::media_search::{
    beyond_months, chat_place, dir_names, fitting_files, image_places, kind_dirs,
    law_every_ending_is_a_candidate, law_month_dirs, law_no_month_is_left_out, media_dirs,
    month_dirs,
    name_fits, next_search_stage, places_named, question_of, subdirs, try_dirs, try_names,
    try_places, walk_on, DirEntryView, EntryKind, Place, SearchAnswerView, SearchKeyView,
    SearchQuestionView, SearchStageView,
};
use crate::ordering::{first_largest, law_first_largest};

verus! {

/// What a disk holds below the attachment directory.
pub struct Disk {
    pub is_dir: spec_fn(Place) -> bool,
    pub is_file: spec_fn(Place) -> bool,
    pub entries: spec_fn(Place) -> Option<Seq<DirEntryView>>,
    pub size: spec_fn(Place) -> u64,
}

/// The answer that a disk gives to a question.
pub open spec fn answer_of(disk: Disk, question: SearchQuestionView) -> SearchAnswerView {
    match question {
        SearchQuestionView::IsDir(place) => SearchAnswerView::Yes((disk.is_dir)(place)),
        SearchQuestionView::IsFile(place) => SearchAnswerView::Yes((disk.is_file)(place)),
        SearchQuestionView::Entries(place) => SearchAnswerView::Entries((disk.entries)(place)),
        SearchQuestionView::Sizes(places) => SearchAnswerView::Sizes(places.map_values(disk.size)),
        SearchQuestionView::Nothing(_) => SearchAnswerView::Yes(false),
    }
}

// ---------------------------------------------------------------------------
// What is to be found
// ---------------------------------------------------------------------------

/// The largest of several files; of several largest, the first.
pub open spec fn largest_file(disk: Disk, found: Seq<Place>) -> Option<Place> {
    if found.len() == 0 {
        None
    } else {
        Some(found[first_largest(found.map_values(disk.size))])
    }
}

/// The first of several names that a directory has a file of.
pub open spec fn first_named(disk: Disk, dir: Place, names: Seq<Seq<char>>) -> Option<Place>
    decreases names.len(),
{
    if names.len() == 0 {
        None
    } else if (disk.is_file)(dir.push(encode_utf8(names[0]))) {
        Some(dir.push(encode_utf8(names[0])))
    } else {
        first_named(disk, dir, names.drop_first())
    }
}

/// The largest file of a directory whose name fits.
pub open spec fn best_fitting(disk: Disk, key: SearchKeyView, dir: Place) -> Option<Place> {
    match (disk.entries)(dir) {
        Some(entries) => largest_file(disk, fitting_files(dir, entries, key.file_md5)),
        None => None,
    }
}

/// The best file in a directory: the first of the preferred names, or any that
/// fits.
pub open spec fn best_in_dir(disk: Disk, key: SearchKeyView, dir: Place) -> Option<Place> {
    if !(disk.is_dir)(dir) {
        None
    } else {
        match first_named(disk, dir, media_names(key.file_md5, key.kind)) {
            Some(place) => Some(place),
            None => best_fitting(disk, key, dir),
        }
    }
}

/// The best file in the first of several directories that has one.
pub open spec fn best_in_first_dir(disk: Disk, key: SearchKeyView, dirs: Seq<Place>) -> Option<
    Place,
>
    decreases dirs.len(),
{
    if dirs.len() == 0 {
        None
    } else {
        match best_in_dir(disk, key, dirs[0]) {
            Some(place) => Some(place),
            None => best_in_first_dir(disk, key, dirs.drop_first()),
        }
    }
}

/// The first of several places that has a file.
pub open spec fn first_file(disk: Disk, places: Seq<Place>) -> Option<Place>
    decreases places.len(),
{
    if places.len() == 0 {
        None
    } else if (disk.is_file)(places[0]) {
        Some(places[0])
    } else {
        first_file(disk, places.drop_first())
    }
}

/// The best file in several directories: of an image the best variant that any of
/// them has, of other kinds the best file in the first directory that has one.
pub open spec fn best_in_dirs(disk: Disk, key: SearchKeyView, dirs: Seq<Place>) -> Option<Place> {
    if key.kind == AttachmentKind::Image {
        first_file(disk, image_places(key.file_md5, dirs))
    } else {
        best_in_first_dir(disk, key, dirs)
    }
}

/// The fitting files of a tree, visited from the end of `stack`, behind those
/// found so far. `None` where the tree has not ended after `limit` directories.
pub open spec fn walked(
    disk: Disk,
    key: SearchKeyView,
    stack: Seq<Place>,
    found: Seq<Place>,
    limit: nat,
) -> Option<Seq<Place>>
    decreases limit,
{
    if stack.len() == 0 {
        Some(found)
    } else if limit == 0 {
        None
    } else {
        let dir = stack.last();
        match (disk.entries)(dir) {
            Some(entries) => walked(
                disk,
                key,
                stack.drop_last() + subdirs(dir, entries),
                found + fitting_files(dir, entries, key.file_md5),
                (limit - 1) as nat,
            ),
            None => walked(disk, key, stack.drop_last(), found, (limit - 1) as nat),
        }
    }
}

/// The largest fitting file of a tree.
pub open spec fn best_in_tree(
    disk: Disk,
    key: SearchKeyView,
    stack: Seq<Place>,
    found: Seq<Place>,
    limit: nat,
) -> Option<Option<Place>> {
    match walked(disk, key, stack, found, limit) {
        Some(found) => Some(largest_file(disk, found)),
        None => None,
    }
}

/// The file beyond the months: for a voice message the largest in the whole tree
/// whose name fits.
pub open spec fn found_beyond_months(disk: Disk, key: SearchKeyView, limit: nat) -> Option<
    Option<Place>,
> {
    if key.kind != AttachmentKind::Voice || !(disk.is_dir)(Seq::empty()) {
        Some(None)
    } else {
        best_in_tree(disk, key, seq![Seq::empty()], Seq::empty(), limit)
    }
}

/// The file in any of the chat's months, or beyond them. A chat's directory that
/// cannot be read ends the search.
pub open spec fn found_in_all_months(disk: Disk, key: SearchKeyView, limit: nat) -> Option<
    Option<Place>,
> {
    match (disk.entries)(chat_place(key)) {
        Some(entries) => match best_in_dirs(disk, key, media_dirs(key, month_dirs(entries))) {
            Some(place) => Some(Some(place)),
            None => found_beyond_months(disk, key, limit),
        },
        None => Some(None),
    }
}

/// The file that a disk has for a key: in the given months, else in any month,
/// else beyond. `None` where the tree has not ended after `limit` directories.
pub open spec fn media_file(
    disk: Disk,
    key: SearchKeyView,
    months: Seq<Seq<char>>,
    limit: nat,
) -> Option<Option<Place>> {
    if !(disk.is_dir)(chat_place(key)) {
        found_beyond_months(disk, key, limit)
    } else {
        match best_in_dirs(
            disk,
            key,
            media_dirs(key, months.map_values(|m: Seq<char>| encode_utf8(m))),
        ) {
            Some(place) => Some(Some(place)),
            None => found_in_all_months(disk, key, limit),
        }
    }
}

// ---------------------------------------------------------------------------
// What a search finds
// ---------------------------------------------------------------------------

/// What is found behind the directories that are still to be tried.
spec fn behind_dirs(
    disk: Disk,
    key: SearchKeyView,
    dirs: Seq<Place>,
    listed: bool,
    limit: nat,
) -> Option<Option<Place>> {
    match best_in_dirs(disk, key, dirs) {
        Some(place) => Some(Some(place)),
        None => if listed {
            found_beyond_months(disk, key, limit)
        } else {
            found_in_all_months(disk, key, limit)
        },
    }
}

/// What is found behind the places that are still to be tried.
spec fn behind_places(
    disk: Disk,
    key: SearchKeyView,
    places: Seq<Place>,
    listed: bool,
    limit: nat,
) -> Option<Option<Place>> {
    match first_file(disk, places) {
        Some(place) => Some(Some(place)),
        None => if listed {
            found_beyond_months(disk, key, limit)
        } else {
            found_in_all_months(disk, key, limit)
        },
    }
}

/// What a search that stands at a stage will find.
spec fn outlook(disk: Disk, key: SearchKeyView, stage: SearchStageView, limit: nat) -> Option<
    Option<Place>,
> {
    match stage {
        SearchStageView::Chat { months } => media_file(disk, key, months, limit),
        SearchStageView::Place { place, rest, listed } => behind_places(
            disk,
            key,
            seq![place] + rest,
            listed,
            limit,
        ),
        SearchStageView::Dir { dir, rest, listed } => behind_dirs(
            disk,
            key,
            seq![dir] + rest,
            listed,
            limit,
        ),
        SearchStageView::Name { dir, rest, listed, name, names } => match first_named(
            disk,
            dir,
            seq![name] + names,
        ) {
            Some(place) => Some(Some(place)),
            None => match best_fitting(disk, key, dir) {
                Some(place) => Some(Some(place)),
                None => behind_dirs(disk, key, rest, listed, limit),
            },
        },
        SearchStageView::Listing { dir, rest, listed } => match (disk.entries)(dir) {
            Some(entries) if fitting_files(dir, entries, key.file_md5).len() > 0 => Some(
                largest_file(disk, fitting_files(dir, entries, key.file_md5)),
            ),
            _ => behind_dirs(disk, key, rest, listed, limit),
        },
        SearchStageView::Months => found_in_all_months(disk, key, limit),
        SearchStageView::Root => found_beyond_months(
            disk,
            SearchKeyView { kind: AttachmentKind::Voice, ..key },
            limit,
        ),
        SearchStageView::Walk { dir, stack, found } => best_in_tree(
            disk,
            key,
            stack.push(dir),
            found,
            limit,
        ),
        SearchStageView::Sizes { found } => Some(largest_file(disk, found)),
        SearchStageView::Done(place) => Some(place),
    }
}

/// A search that is answered `n` times.
pub open spec fn run_search(disk: Disk, key: SearchKeyView, stage: SearchStageView, n: nat) -> SearchStageView
    decreases n,
{
    if n == 0 {
        stage
    } else {
        let answer = answer_of(disk, question_of(key, stage));
        run_search(disk, key, next_search_stage(key, stage, answer), (n - 1) as nat)
    }
}

/// Whole-tree visits happen for voice messages only, and images are not searched
/// for directory by directory.
spec fn fits_kind(key: SearchKeyView, stage: SearchStageView) -> bool {
    &&& stage is Root || stage is Walk ==> key.kind == AttachmentKind::Voice
    &&& stage is Dir || stage is Name || stage is Listing ==> key.kind != AttachmentKind::Image
}

proof fn lemma_try_places(
    disk: Disk,
    key: SearchKeyView,
    places: Seq<Place>,
    listed: bool,
    limit: nat,
)
    ensures
        outlook(disk, key, try_places(key.kind, places, listed), limit) == behind_places(
            disk,
            key,
            places,
            listed,
            limit,
        ),
        fits_kind(key, try_places(key.kind, places, listed)),
{
    if places.len() > 0 {
        assert(seq![places[0]] + places.drop_first() =~= places);
    } else {
        lemma_beyond_months(disk, key, limit);
    }
}

proof fn lemma_try_dirs(disk: Disk, key: SearchKeyView, dirs: Seq<Place>, listed: bool, limit: nat)
    ensures
        outlook(disk, key, try_dirs(key, dirs, listed), limit) == behind_dirs(
            disk,
            key,
            dirs,
            listed,
            limit,
        ),
        fits_kind(key, try_dirs(key, dirs, listed)),
{
    if key.kind == AttachmentKind::Image {
        lemma_try_places(disk, key, image_places(key.file_md5, dirs), listed, limit);
    } else if dirs.len() > 0 {
        assert(seq![dirs[0]] + dirs.drop_first() =~= dirs);
    } else {
        lemma_beyond_months(disk, key, limit);
    }
}

proof fn lemma_beyond_months(disk: Disk, key: SearchKeyView, limit: nat)
    ensures
        outlook(disk, key, beyond_months(key.kind), limit) == found_beyond_months(disk, key, limit),
        fits_kind(key, beyond_months(key.kind)),
{
    if key.kind == AttachmentKind::Voice {
        assert(SearchKeyView { kind: AttachmentKind::Voice, ..key } == key);
    }
}

proof fn lemma_try_names(
    disk: Disk,
    key: SearchKeyView,
    dir: Place,
    rest: Seq<Place>,
    listed: bool,
    names: Seq<Seq<char>>,
    limit: nat,
)
    requires
        key.kind != AttachmentKind::Image,
    ensures
        outlook(disk, key, try_names(dir, rest, listed, names), limit) == match first_named(
            disk,
            dir,
            names,
        ) {
            Some(place) => Some(Some(place)),
            None => match best_fitting(disk, key, dir) {
                Some(place) => Some(Some(place)),
                None => behind_dirs(disk, key, rest, listed, limit),
            },
        },
        fits_kind(key, try_names(dir, rest, listed, names)),
{
    if names.len() > 0 {
        assert(seq![names[0]] + names.drop_first() =~= names);
    }
}

proof fn lemma_walk_on(
    disk: Disk,
    key: SearchKeyView,
    stack: Seq<Place>,
    found: Seq<Place>,
    limit: nat,
)
    ensures
        outlook(disk, key, walk_on(stack, found), limit) == best_in_tree(
            disk,
            key,
            stack,
            found,
            limit,
        ),
{
    if stack.len() > 0 {
        assert(stack.drop_last().push(stack.last()) =~= stack);
    }
}

/// One answer keeps what a search will find.
proof fn lemma_step(disk: Disk, key: SearchKeyView, stage: SearchStageView, limit: nat)
    requires
        fits_kind(key, stage),
        stage is Walk ==> limit > 0,
    ensures
        ({
            let next = next_search_stage(
                key,
                stage,
                answer_of(disk, question_of(key, stage)),
            );
            let left = if stage is Walk {
                (limit - 1) as nat
            } else {
                limit
            };
            &&& fits_kind(key, next)
            &&& outlook(disk, key, stage, limit) == outlook(disk, key, next, left)
        }),
{
    match stage {
        SearchStageView::Chat { months } => {
            lemma_beyond_months(disk, key, limit);
            lemma_try_dirs(
                disk,
                key,
                media_dirs(key, months.map_values(|m: Seq<char>| encode_utf8(m))),
                false,
                limit,
            );
        },
        SearchStageView::Place { place, rest, listed } => {
            assert((seq![place] + rest).drop_first() =~= rest);
            lemma_try_places(disk, key, rest, listed, limit);
        },
        SearchStageView::Dir { dir, rest, listed } => {
            assert((seq![dir] + rest).drop_first() =~= rest);
            lemma_try_dirs(disk, key, rest, listed, limit);
            lemma_try_names(
                disk,
                key,
                dir,
                rest,
                listed,
                media_names(key.file_md5, key.kind),
                limit,
            );
        },
        SearchStageView::Name { dir, rest, listed, name, names } => {
            assert((seq![name] + names).drop_first() =~= names);
            lemma_try_names(disk, key, dir, rest, listed, names, limit);
        },
        SearchStageView::Listing { dir, rest, listed } => {
            lemma_try_dirs(disk, key, rest, listed, limit);
        },
        SearchStageView::Months => {
            if let Some(entries) = (disk.entries)(chat_place(key)) {
                lemma_try_dirs(disk, key, media_dirs(key, month_dirs(entries)), true, limit);
            }
        },
        SearchStageView::Root => {
            assert(SearchKeyView { kind: AttachmentKind::Voice, ..key } == key);
            lemma_walk_on(disk, key, seq![Seq::empty()], Seq::empty(), limit);
        },
        SearchStageView::Walk { dir, stack, found } => {
            assert(stack.push(dir).drop_last() =~= stack);
            let left = (limit - 1) as nat;
            match (disk.entries)(dir) {
                Some(entries) => lemma_walk_on(
                    disk,
                    key,
                    stack + subdirs(dir, entries),
                    found + fitting_files(dir, entries, key.file_md5),
                    left,
                ),
                None => lemma_walk_on(disk, key, stack, found, left),
            }
        },
        SearchStageView::Sizes { found } => {},
        SearchStageView::Done(_) => {},
    }
}

proof fn lemma_walk_limit(
    disk: Disk,
    key: SearchKeyView,
    stack: Seq<Place>,
    found: Seq<Place>,
    limit: nat,
)
    ensures
        walked(disk, key, stack, found, limit) is Some ==> walked(
            disk,
            key,
            stack,
            found,
            limit + 1,
        ) == walked(disk, key, stack, found, limit),
    decreases limit,
{
    if stack.len() > 0 && limit > 0 {
        let dir = stack.last();
        match (disk.entries)(dir) {
            Some(entries) => lemma_walk_limit(
                disk,
                key,
                stack.drop_last() + subdirs(dir, entries),
                found + fitting_files(dir, entries, key.file_md5),
                (limit - 1) as nat,
            ),
            None => lemma_walk_limit(disk, key, stack.drop_last(), found, (limit - 1) as nat),
        }
    }
}

proof fn lemma_outlook_limit(disk: Disk, key: SearchKeyView, stage: SearchStageView, limit: nat)
    ensures
        outlook(disk, key, stage, limit) is Some ==> outlook(disk, key, stage, limit + 1)
            == outlook(disk, key, stage, limit),
{
    lemma_walk_limit(disk, key, seq![Seq::empty()], Seq::empty(), limit);
    let voice = SearchKeyView { kind: AttachmentKind::Voice, ..key };
    lemma_walk_limit(disk, voice, seq![Seq::empty()], Seq::empty(), limit);
    if let SearchStageView::Walk { dir, stack, found } = stage {
        lemma_walk_limit(disk, key, stack.push(dir), found, limit);
    }
}

proof fn lemma_run(disk: Disk, key: SearchKeyView, stage: SearchStageView, n: nat)
    requires
        fits_kind(key, stage),
    ensures
        run_search(disk, key, stage, n) matches SearchStageView::Done(place) ==> outlook(
            disk,
            key,
            stage,
            n,
        ) == Some(place),
    decreases n,
{
    if n > 0 {
        let next = next_search_stage(key, stage, answer_of(disk, question_of(key, stage)));
        lemma_step(disk, key, stage, n);
        lemma_run(disk, key, next, (n - 1) as nat);
        lemma_outlook_limit(disk, key, next, (n - 1) as nat);
    }
}

/// A tree that ends within a limit ends within every higher one, with the same
/// file.
pub proof fn lemma_media_file_limit(
    disk: Disk,
    key: SearchKeyView,
    months: Seq<Seq<char>>,
    limit: nat,
    higher: nat,
)
    requires
        limit <= higher,
        media_file(disk, key, months, limit) is Some,
    ensures
        media_file(disk, key, months, higher) == media_file(disk, key, months, limit),
    decreases higher,
{
    if limit < higher {
        let below = (higher - 1) as nat;
        lemma_media_file_limit(disk, key, months, limit, below);
        lemma_outlook_limit(disk, key, SearchStageView::Chat { months }, below);
    }
}

/// A search that ends has found the file that the disk has for its key.
pub proof fn law_search_finds_the_file(
    disk: Disk,
    key: SearchKeyView,
    months: Seq<Seq<char>>,
    answers: nat,
)
    ensures
        run_search(disk, key, SearchStageView::Chat { months }, answers) matches
            SearchStageView::Done(place) ==> media_file(disk, key, months, answers) == Some(place),
{
    lemma_run(disk, key, SearchStageView::Chat { months }, answers);
}

/// How far a stage is from the end, roughly.
spec fn distance(stage: SearchStageView) -> nat {
    match stage {
        SearchStageView::Chat { .. } => 7,
        SearchStageView::Place { listed, .. } => if listed {
            4
        } else {
            6
        },
        SearchStageView::Dir { listed, .. } => if listed {
            4
        } else {
            6
        },
        SearchStageView::Name { listed, .. } => if listed {
            4
        } else {
            6
        },
        SearchStageView::Listing { listed, .. } => if listed {
            4
        } else {
            6
        },
        SearchStageView::Months => 5,
        SearchStageView::Root => 3,
        SearchStageView::Walk { .. } => 2,
        SearchStageView::Sizes { .. } => 1,
        SearchStageView::Done(_) => 0,
    }
}

/// How many places or directories are left to be tried or visited.
spec fn dirs_left(stage: SearchStageView, limit: nat) -> nat {
    match stage {
        SearchStageView::Place { rest, .. } => rest.len(),
        SearchStageView::Dir { rest, .. } => rest.len(),
        SearchStageView::Name { rest, .. } => rest.len(),
        SearchStageView::Listing { rest, .. } => rest.len(),
        SearchStageView::Walk { .. } => limit,
        _ => 0,
    }
}

/// How much is left to be asked of a directory.
spec fn asks_left(stage: SearchStageView) -> nat {
    match stage {
        SearchStageView::Dir { .. } => 2,
        SearchStageView::Name { .. } => 1,
        _ => 0,
    }
}

/// How many names are left to be tried.
spec fn names_left(stage: SearchStageView) -> nat {
    match stage {
        SearchStageView::Name { names, .. } => names.len(),
        _ => 0,
    }
}

/// A search ends from every stage from which the tree ends within a limit. It
/// gives the number of answers.
proof fn lemma_ends(disk: Disk, key: SearchKeyView, stage: SearchStageView, limit: nat) -> (n: nat)
    requires
        fits_kind(key, stage),
        outlook(disk, key, stage, limit) is Some,
    ensures
        run_search(disk, key, stage, n) is Done,
    decreases distance(stage), dirs_left(stage, limit), asks_left(stage), names_left(stage),
{
    if stage is Done {
        0
    } else {
        let next = next_search_stage(key, stage, answer_of(disk, question_of(key, stage)));
        let left = if stage is Walk {
            (limit - 1) as nat
        } else {
            limit
        };
        lemma_step(disk, key, stage, limit);
        lemma_ends(disk, key, next, left) + 1
    }
}

/// A search ends: for every kind but voice messages on every disk, and for voice
/// messages where the tree of directories ends.
pub proof fn law_search_ends(
    disk: Disk,
    key: SearchKeyView,
    months: Seq<Seq<char>>,
    limit: nat,
)
    requires
        key.kind == AttachmentKind::Voice ==> media_file(disk, key, months, limit) is Some,
    ensures
        exists|n: nat| #[trigger]
            run_search(disk, key, SearchStageView::Chat { months }, n) is Done,
{
    let n = lemma_ends(disk, key, SearchStageView::Chat { months }, limit);
    assert(run_search(disk, key, SearchStageView::Chat { months }, n) is Done);
}

proof fn lemma_first_file_joined(disk: Disk, a: Seq<Place>, b: Seq<Place>)
    ensures
        first_file(disk, a + b) == match first_file(disk, a) {
            Some(place) => Some(place),
            None => first_file(disk, b),
        },
    decreases a.len(),
{
    if a.len() == 0 {
        assert(a + b =~= b);
    } else {
        lemma_first_file_joined(disk, a.drop_first(), b);
        assert((a + b).drop_first() =~= a.drop_first() + b);
    }
}

/// The file of a name in the first of several directories that has one.
pub open spec fn first_dir_with(disk: Disk, dirs: Seq<Place>, name: Seq<char>) -> Option<Place> {
    first_file(disk, dirs.map_values(|dir: Place| dir.push(encode_utf8(name))))
}

/// Of several directories that are tried together, an image's full file is found
/// in the first that has it; only where none has it, the larger preview; and only
/// where none has that, the smaller one.
pub proof fn law_image_preference(disk: Disk, key: SearchKeyView, dirs: Seq<Place>)
    requires
        key.kind == AttachmentKind::Image,
    ensures
        ({
            let full = first_dir_with(disk, dirs, key.file_md5 + ".dat"@);
            let larger = first_dir_with(disk, dirs, key.file_md5 + "_h.dat"@);
            let smaller = first_dir_with(disk, dirs, key.file_md5 + "_t.dat"@);
            best_in_dirs(disk, key, dirs) == if full is Some {
                full
            } else if larger is Some {
                larger
            } else {
                smaller
            }
        }),
{
    let names = media_names(key.file_md5, key.kind);
    let in_dirs = |name: Seq<char>| dirs.map_values(|dir: Place| dir.push(encode_utf8(name)));
    let two = names.drop_last();
    let one = two.drop_last();
    assert(names.last() == key.file_md5 + "_t.dat"@);
    assert(two.last() == key.file_md5 + "_h.dat"@);
    assert(one.last() == key.file_md5 + ".dat"@);
    assert(one.drop_last().len() == 0);
    assert(places_named(one.drop_last(), dirs) =~= Seq::empty());
    lemma_first_file_joined(disk, Seq::empty(), in_dirs(one.last()));
    lemma_first_file_joined(disk, places_named(one, dirs), in_dirs(two.last()));
    lemma_first_file_joined(disk, places_named(two, dirs), in_dirs(names.last()));
}

/// A search for an image in one directory that ends has found the best file of
/// that directory.
pub proof fn law_image_search(disk: Disk, key: SearchKeyView, dir: Place, answers: nat)
    requires
        key.kind == AttachmentKind::Image,
    ensures
        run_search(disk, key, try_dirs(key, seq![dir], true), answers) matches
            SearchStageView::Done(place) ==> place == best_in_dirs(disk, key, seq![dir]),
{
    lemma_try_dirs(disk, key, seq![dir], true, answers);
    lemma_run(disk, key, try_dirs(key, seq![dir], true), answers);
}

/// The directories for images of several months.
proof fn lemma_image_dirs(key: SearchKeyView, months: Seq<Seq<u8>>)
    requires
        key.kind == AttachmentKind::Image,
    ensures
        media_dirs(key, months).len() == months.len(),
        forall|i: int|
            0 <= i < months.len() ==> #[trigger] media_dirs(key, months)[i] == chat_place(key).push(
                months[i],
            ).push(encode_utf8("Img"@)),
    decreases months.len(),
{
    if months.len() > 0 {
        lemma_image_dirs(key, months.drop_last());
        let front = media_dirs(key, months.drop_last());
        let dirs = media_dirs(key, months);
        assert forall|i: int| 0 <= i < months.len() implies #[trigger] dirs[i] == chat_place(
            key,
        ).push(months[i]).push(encode_utf8("Img"@)) by {
            if i < months.len() - 1 {
                assert(dirs[i] == front[i]);
                assert(months.drop_last()[i] == months[i]);
            }
        }
    }
}

/// Where the month of the message's time has the full file of an image, that file
/// is found, whatever the months beside it have.
pub proof fn law_own_month_wins(
    disk: Disk,
    key: SearchKeyView,
    year: int,
    month: int,
    limit: nat,
)
    requires
        key.kind == AttachmentKind::Image,
        (disk.is_dir)(chat_place(key)),
        (disk.is_file)(
            chat_place(key).push(encode_utf8(month_name(year, month))).push(
                encode_utf8("Img"@),
            ).push(encode_utf8(key.file_md5 + ".dat"@)),
        ),
    ensures
        media_file(disk, key, own_month_first(month_names_around(year, month)), limit) == Some(
            Some(
                chat_place(key).push(encode_utf8(month_name(year, month))).push(
                    encode_utf8("Img"@),
                ).push(encode_utf8(key.file_md5 + ".dat"@)),
            ),
        ),
{
    let months = own_month_first(month_names_around(year, month)).map_values(
        |m: Seq<char>| encode_utf8(m),
    );
    let dirs = media_dirs(key, months);
    lemma_image_dirs(key, months);
    assert(months[0] == encode_utf8(month_name(year, month)));
    assert(dirs[0] == chat_place(key).push(months[0]).push(encode_utf8("Img"@)));
    law_image_preference(disk, key, dirs);
    let full = dirs.map_values(|dir: Place| dir.push(encode_utf8(key.file_md5 + ".dat"@)));
    assert(full[0] == dirs[0].push(encode_utf8(key.file_md5 + ".dat"@)));
}

// ---------------------------------------------------------------------------
// What a tree holds
// ---------------------------------------------------------------------------

/// A directory lists a name as something of a kind.
pub open spec fn lists_as(disk: Disk, dir: Place, name: Seq<u8>, kind: EntryKind) -> bool {
    (disk.entries)(dir) matches Some(entries) && entries.contains(DirEntryView { name, kind })
}

/// A fitting file lies below a directory, at any depth: each name on the way is
/// listed as a directory, and the last one as a file.
pub open spec fn fits_below(disk: Disk, key: SearchKeyView, dir: Place, file: Place) -> bool {
    &&& dir.len() < file.len()
    &&& dir.is_prefix_of(file)
    &&& forall|i: int|
        dir.len() <= i < file.len() - 1 ==> lists_as(
            disk,
            file.take(i),
            #[trigger] file[i],
            EntryKind::Dir,
        )
    &&& lists_as(disk, file.drop_last(), file.last(), EntryKind::File)
    &&& name_fits(file.last(), key.file_md5)
}

proof fn lemma_dir_names(entries: Seq<DirEntryView>, name: Seq<u8>)
    ensures
        dir_names(entries).contains(name) <==> entries.contains(
            DirEntryView { name, kind: EntryKind::Dir },
        ),
    decreases entries.len(),
{
    let wanted = DirEntryView { name, kind: EntryKind::Dir };
    if entries.len() > 0 {
        let front = entries.drop_last();
        lemma_dir_names(front, name);
        assert(front.push(entries.last()) =~= entries);
        lemma_contains_pushed(front, entries.last(), wanted);
        if entries.last().kind == EntryKind::Dir {
            lemma_contains_pushed(dir_names(front), entries.last().name, name);
        }
    }
}

proof fn lemma_contains_pushed<A>(front: Seq<A>, last: A, wanted: A)
    ensures
        front.push(last).contains(wanted) <==> front.contains(wanted) || last == wanted,
{
    let all = front.push(last);
    assert(all[front.len() as int] == last);
    if front.contains(wanted) {
        let i = choose|i: int| 0 <= i < front.len() && front[i] == wanted;
        assert(all[i] == wanted);
    }
    if all.contains(wanted) && last != wanted {
        let i = choose|i: int| 0 <= i < all.len() && all[i] == wanted;
        assert(front[i] == wanted);
    }
}

proof fn lemma_contains_joined<A>(a: Seq<A>, b: Seq<A>, wanted: A)
    ensures
        (a + b).contains(wanted) <==> a.contains(wanted) || b.contains(wanted),
{
    let all = a + b;
    if a.contains(wanted) {
        let i = choose|i: int| 0 <= i < a.len() && a[i] == wanted;
        assert(all[i] == wanted);
    }
    if b.contains(wanted) {
        let i = choose|i: int| 0 <= i < b.len() && b[i] == wanted;
        assert(all[a.len() + i] == wanted);
    }
    if all.contains(wanted) {
        let i = choose|i: int| 0 <= i < all.len() && all[i] == wanted;
        if i < a.len() {
            assert(a[i] == wanted);
        } else {
            assert(b[i - a.len()] == wanted);
        }
    }
}

proof fn lemma_fitting_files(
    dir: Place,
    entries: Seq<DirEntryView>,
    file_md5: Seq<char>,
    file: Place,
)
    ensures
        fitting_files(dir, entries, file_md5).contains(file) <==> {
            &&& file.len() == dir.len() + 1
            &&& file.drop_last() == dir
            &&& entries.contains(DirEntryView { name: file.last(), kind: EntryKind::File })
            &&& name_fits(file.last(), file_md5)
        },
    decreases entries.len(),
{
    if entries.len() > 0 {
        let front = entries.drop_last();
        let last = entries.last();
        lemma_fitting_files(dir, front, file_md5, file);
        assert(front.push(last) =~= entries);
        lemma_contains_pushed(
            front,
            last,
            DirEntryView { name: file.last(), kind: EntryKind::File },
        );
        if last.kind == EntryKind::File && name_fits(last.name, file_md5) {
            lemma_contains_pushed(fitting_files(dir, front, file_md5), dir.push(last.name), file);
            assert(dir.push(last.name).drop_last() =~= dir);
            if file.len() == dir.len() + 1 && file.drop_last() == dir {
                assert(dir.push(file.last()) =~= file);
            }
        }
    }
}

/// A fitting file below a directory lies in it, or below a directory in it.
proof fn lemma_fits_below_step(
    disk: Disk,
    key: SearchKeyView,
    dir: Place,
    entries: Seq<DirEntryView>,
    file: Place,
)
    requires
        (disk.entries)(dir) == Some(entries),
    ensures
        fits_below(disk, key, dir, file) <==> fitting_files(dir, entries, key.file_md5).contains(
            file,
        ) || (exists|child: Place| #[trigger]
            subdirs(dir, entries).contains(child) && fits_below(disk, key, child, file)),
{
    lemma_fitting_files(dir, entries, key.file_md5, file);
    let below = subdirs(dir, entries);
    if fits_below(disk, key, dir, file) {
        if file.len() == dir.len() + 1 {
            assert(file.drop_last() =~= dir);
        } else {
            let name = file[dir.len() as int];
            let child = dir.push(name);
            assert(file.take(dir.len() as int) =~= dir);
            assert(lists_as(disk, dir, name, EntryKind::Dir));
            lemma_dir_names(entries, name);
            let i = choose|i: int|
                0 <= i < dir_names(entries).len() && dir_names(entries)[i] == name;
            assert(below[i] == child);
            assert(below.contains(child));
            assert(child =~= file.subrange(0, child.len() as int));
            assert(fits_below(disk, key, child, file));
        }
    }
    if fitting_files(dir, entries, key.file_md5).contains(file) {
        assert(dir =~= file.subrange(0, dir.len() as int));
        assert(fits_below(disk, key, dir, file));
    }
    assert forall|child: Place| #[trigger]
        below.contains(child) && fits_below(disk, key, child, file) implies fits_below(
        disk,
        key,
        dir,
        file,
    ) by {
        let i = choose|i: int| 0 <= i < below.len() && below[i] == child;
        let name = dir_names(entries)[i];
        assert(child == dir.push(name));
        lemma_dir_names(entries, name);
        assert(child =~= file.subrange(0, child.len() as int));
        assert(dir =~= file.subrange(0, dir.len() as int));
        assert(file.take(dir.len() as int) =~= dir);
        assert(file[dir.len() as int] == child[dir.len() as int]);
        assert forall|j: int| dir.len() <= j < file.len() - 1 implies lists_as(
            disk,
            file.take(j),
            #[trigger] file[j],
            EntryKind::Dir,
        ) by {
            if j == dir.len() {
                assert(file[j] == name);
            }
        }
    }
}

/// A visit of several trees finds what lies below their roots.
proof fn lemma_walked(
    disk: Disk,
    key: SearchKeyView,
    stack: Seq<Place>,
    found: Seq<Place>,
    limit: nat,
    file: Place,
)
    requires
        walked(disk, key, stack, found, limit) is Some,
    ensures
        walked(disk, key, stack, found, limit)->0.contains(file) <==> found.contains(file) || (
        exists|dir: Place| #[trigger] stack.contains(dir) && fits_below(disk, key, dir, file)),
    decreases limit,
{
    if stack.len() > 0 {
        let dir = stack.last();
        let front = stack.drop_last();
        let left = (limit - 1) as nat;
        assert(front.push(dir) =~= stack);
        assert forall|d: Place| #[trigger] stack.contains(d) <==> front.contains(d) || d == dir by {
            lemma_contains_pushed(front, dir, d);
        }
        match (disk.entries)(dir) {
            Some(entries) => {
                let files = fitting_files(dir, entries, key.file_md5);
                let below = subdirs(dir, entries);
                lemma_walked(disk, key, front + below, found + files, left, file);
                lemma_contains_joined(found, files, file);
                lemma_fits_below_step(disk, key, dir, entries, file);
                assert forall|d: Place| #[trigger]
                    (front + below).contains(d) <==> front.contains(d) || below.contains(d) by {
                    lemma_contains_joined(front, below, d);
                }
                if stack.contains(dir) && fits_below(disk, key, dir, file) && !files.contains(
                    file,
                ) {
                    let child = choose|child: Place| #[trigger]
                        below.contains(child) && fits_below(disk, key, child, file);
                    assert((front + below).contains(child));
                }
                if exists|d: Place| #[trigger]
                    front.contains(d) && fits_below(disk, key, d, file) {
                    let d = choose|d: Place| #[trigger]
                        front.contains(d) && fits_below(disk, key, d, file);
                    assert((front + below).contains(d));
                    assert(stack.contains(d));
                }
                if exists|d: Place| #[trigger]
                    (front + below).contains(d) && fits_below(disk, key, d, file) {
                    let d = choose|d: Place| #[trigger]
                        (front + below).contains(d) && fits_below(disk, key, d, file);
                    if front.contains(d) {
                        assert(stack.contains(d));
                    } else {
                        assert(below.contains(d));
                        assert(stack.contains(dir));
                    }
                }
                if files.contains(file) {
                    assert(stack.contains(dir));
                }
            },
            None => {
                lemma_walked(disk, key, front, found, left, file);
                assert(!fits_below(disk, key, dir, file)) by {
                    if fits_below(disk, key, dir, file) {
                        assert(file.take(dir.len() as int) =~= dir);
                        if file.len() == dir.len() + 1 {
                            assert(file.drop_last() =~= dir);
                        } else {
                            assert(lists_as(
                                disk,
                                file.take(dir.len() as int),
                                file[dir.len() as int],
                                EntryKind::Dir,
                            ));
                        }
                    }
                }
                if exists|d: Place| #[trigger]
                    front.contains(d) && fits_below(disk, key, d, file) {
                    let d = choose|d: Place| #[trigger]
                        front.contains(d) && fits_below(disk, key, d, file);
                    assert(stack.contains(d));
                }
            },
        }
    }
}

/// A visit of the whole tree that ends has found every fitting file at any depth,
/// and nothing else.
pub proof fn law_tree_is_visited(disk: Disk, key: SearchKeyView, limit: nat, file: Place)
    requires
        walked(disk, key, seq![Seq::empty()], Seq::empty(), limit) is Some,
    ensures
        walked(disk, key, seq![Seq::empty()], Seq::empty(), limit)->0.contains(file)
            <==> fits_below(disk, key, Seq::empty(), file),
{
    let root = Seq::<Seq<u8>>::empty();
    let stack = seq![root];
    lemma_walked(disk, key, stack, Seq::empty(), limit, file);
    assert(stack[0] == root);
    assert(stack.contains(root));
    assert forall|d: Place| #[trigger] stack.contains(d) implies d == root by {}
}

// ---------------------------------------------------------------------------
// Which file is found
// ---------------------------------------------------------------------------

/// Of several files the largest is taken, and of several largest the first; there
/// is none only where there are no files.
pub proof fn law_largest_file(disk: Disk, found: Seq<Place>)
    ensures
        match largest_file(disk, found) {
            None => found.len() == 0,
            Some(place) => exists|k: int|
                {
                    &&& 0 <= k < found.len()
                    &&& #[trigger] found[k] == place
                    &&& forall|j: int|
                        0 <= j < found.len() ==> (disk.size)(#[trigger] found[j]) <= (disk.size)(
                            place,
                        )
                    &&& forall|j: int|
                        0 <= j < k ==> (disk.size)(#[trigger] found[j]) < (disk.size)(place)
                },
        },
{
    if found.len() > 0 {
        let sizes = found.map_values(disk.size);
        law_first_largest(sizes);
        let k = first_largest(sizes);
        assert(found[k] == largest_file(disk, found)->0);
        assert forall|j: int| 0 <= j < found.len() implies (disk.size)(#[trigger] found[j]) <= (
        disk.size)(found[k]) by {
            assert(sizes[j] <= sizes[k]);
        }
        assert forall|j: int| 0 <= j < k implies (disk.size)(#[trigger] found[j]) < (disk.size)(
            found[k],
        ) by {
            assert(sizes[j] < sizes[k]);
        }
    }
}

/// Of several names in a directory, the first is taken that there is a file of.
pub proof fn law_first_named(disk: Disk, dir: Place, names: Seq<Seq<char>>)
    ensures
        match first_named(disk, dir, names) {
            None => forall|i: int|
                0 <= i < names.len() ==> !(disk.is_file)(dir.push(encode_utf8(#[trigger] names[i]))),
            Some(place) => exists|i: int|
                {
                    &&& 0 <= i < names.len()
                    &&& place == dir.push(encode_utf8(#[trigger] names[i]))
                    &&& (disk.is_file)(place)
                    &&& forall|j: int|
                        0 <= j < i ==> !(disk.is_file)(dir.push(encode_utf8(#[trigger] names[j])))
                },
        },
    decreases names.len(),
{
    if names.len() > 0 {
        if (disk.is_file)(dir.push(encode_utf8(names[0]))) {
            assert(first_named(disk, dir, names) == Some(dir.push(encode_utf8(names[0]))));
        } else {
            let rest = names.drop_first();
            law_first_named(disk, dir, rest);
            match first_named(disk, dir, rest) {
                None => {
                    assert forall|i: int| 0 <= i < names.len() implies !(disk.is_file)(
                        dir.push(encode_utf8(#[trigger] names[i])),
                    ) by {
                        if i > 0 {
                            assert(rest[i - 1] == names[i]);
                        }
                    }
                },
                Some(place) => {
                    let i = choose|i: int|
                        {
                            &&& 0 <= i < rest.len()
                            &&& place == dir.push(encode_utf8(#[trigger] rest[i]))
                            &&& (disk.is_file)(place)
                            &&& forall|j: int|
                                0 <= j < i ==> !(disk.is_file)(
                                    dir.push(encode_utf8(#[trigger] rest[j])),
                                )
                        };
                    assert(names[i + 1] == rest[i]);
                    assert forall|j: int| 0 <= j < i + 1 implies !(disk.is_file)(
                        dir.push(encode_utf8(#[trigger] names[j])),
                    ) by {
                        if j > 0 {
                            assert(rest[j - 1] == names[j]);
                        }
                    }
                },
            }
        }
    }
}

/// Of several places, the first is taken that has a file.
pub proof fn law_first_file(disk: Disk, places: Seq<Place>)
    ensures
        match first_file(disk, places) {
            None => forall|i: int|
                0 <= i < places.len() ==> !(disk.is_file)(#[trigger] places[i]),
            Some(place) => exists|i: int|
                {
                    &&& 0 <= i < places.len()
                    &&& #[trigger] places[i] == place
                    &&& (disk.is_file)(place)
                    &&& forall|j: int| 0 <= j < i ==> !(disk.is_file)(#[trigger] places[j])
                },
        },
    decreases places.len(),
{
    if places.len() > 0 {
        if (disk.is_file)(places[0]) {
            assert(first_file(disk, places) == Some(places[0]));
        } else {
            let rest = places.drop_first();
            law_first_file(disk, rest);
            match first_file(disk, rest) {
                None => {
                    assert forall|i: int| 0 <= i < places.len() implies !(disk.is_file)(
                        #[trigger] places[i],
                    ) by {
                        if i > 0 {
                            assert(rest[i - 1] == places[i]);
                        }
                    }
                },
                Some(place) => {
                    let i = choose|i: int|
                        {
                            &&& 0 <= i < rest.len()
                            &&& #[trigger] rest[i] == place
                            &&& (disk.is_file)(place)
                            &&& forall|j: int| 0 <= j < i ==> !(disk.is_file)(#[trigger] rest[j])
                        };
                    assert(places[i + 1] == rest[i]);
                    assert forall|j: int| 0 <= j < i + 1 implies !(disk.is_file)(
                        #[trigger] places[j],
                    ) by {
                        if j > 0 {
                            assert(rest[j - 1] == places[j]);
                        }
                    }
                },
            }
        }
    }
}

/// Of several directories, the first decides in which something is found.
pub proof fn law_first_dir_decides(disk: Disk, key: SearchKeyView, dirs: Seq<Place>)
    ensures
        match best_in_first_dir(disk, key, dirs) {
            None => forall|i: int|
                0 <= i < dirs.len() ==> best_in_dir(disk, key, #[trigger] dirs[i]) is None,
            Some(place) => exists|i: int|
                {
                    &&& 0 <= i < dirs.len()
                    &&& best_in_dir(disk, key, #[trigger] dirs[i]) == Some(place)
                    &&& forall|j: int|
                        0 <= j < i ==> best_in_dir(disk, key, #[trigger] dirs[j]) is None
                },
        },
    decreases dirs.len(),
{
    if dirs.len() > 0 {
        if best_in_dir(disk, key, dirs[0]) is None {
            let rest = dirs.drop_first();
            law_first_dir_decides(disk, key, rest);
            match best_in_first_dir(disk, key, rest) {
                None => {
                    assert forall|i: int| 0 <= i < dirs.len() implies best_in_dir(
                        disk,
                        key,
                        #[trigger] dirs[i],
                    ) is None by {
                        if i > 0 {
                            assert(rest[i - 1] == dirs[i]);
                        }
                    }
                },
                Some(place) => {
                    let i = choose|i: int|
                        {
                            &&& 0 <= i < rest.len()
                            &&& best_in_dir(disk, key, #[trigger] rest[i]) == Some(place)
                            &&& forall|j: int|
                                0 <= j < i ==> best_in_dir(disk, key, #[trigger] rest[j]) is None
                        };
                    assert(dirs[i + 1] == rest[i]);
                    assert forall|j: int| 0 <= j < i + 1 implies best_in_dir(
                        disk,
                        key,
                        #[trigger] dirs[j],
                    ) is None by {
                        if j > 0 {
                            assert(rest[j - 1] == dirs[j]);
                        }
                    }
                },
            }
        } else {
            assert(best_in_dir(disk, key, dirs[0]) is Some);
        }
    }
}

/// In a directory that is there, a file with a preferred name is taken before any
/// other; where there is none, and the directory can be read, any file is found
/// whose name starts with the digest, whatever stands behind it, and none that is
/// smaller than another such file.
pub proof fn law_best_in_dir(
    disk: Disk,
    key: SearchKeyView,
    dir: Place,
    entries: Seq<DirEntryView>,
    i: int,
    ending: Seq<char>,
)
    requires
        (disk.is_dir)(dir),
        (disk.entries)(dir) == Some(entries),
    ensures
        forall|j: int|
            0 <= j < media_names(key.file_md5, key.kind).len() && (disk.is_file)(
                dir.push(encode_utf8(#[trigger] media_names(key.file_md5, key.kind)[j])),
            ) ==> best_in_dir(disk, key, dir) == first_named(
                disk,
                dir,
                media_names(key.file_md5, key.kind),
            ) && best_in_dir(disk, key, dir) is Some,
        0 <= i < entries.len() && entries[i].kind == EntryKind::File && entries[i].name
            == encode_utf8(key.file_md5 + ending) ==> {
            &&& best_in_dir(disk, key, dir) is Some
            &&& first_named(disk, dir, media_names(key.file_md5, key.kind)) is None ==> (disk.size)(
                dir.push(entries[i].name),
            ) <= (disk.size)(best_in_dir(disk, key, dir)->0)
        },
{
    let names = media_names(key.file_md5, key.kind);
    law_first_named(disk, dir, names);
    if 0 <= i < entries.len() && entries[i].kind == EntryKind::File && entries[i].name
        == encode_utf8(key.file_md5 + ending) {
        law_every_ending_is_a_candidate(dir, entries, i, key.file_md5, ending);
        let found = fitting_files(dir, entries, key.file_md5);
        let k = choose|k: int| 0 <= k < found.len() && found[k] == dir.push(entries[i].name);
        law_largest_file(disk, found);
        assert((disk.size)(found[k]) <= (disk.size)(largest_file(disk, found)->0));
    }
}

/// What is found is there: a file with a preferred name, or one that its directory
/// lists and whose name starts with the digest.
pub open spec fn is_there(disk: Disk, key: SearchKeyView, place: Place) -> bool {
    ||| place.len() > 0 && (disk.is_file)(place) && exists|i: int|
        0 <= i < media_names(key.file_md5, key.kind).len() && place.last() == encode_utf8(
            #[trigger] media_names(key.file_md5, key.kind)[i],
        )
    ||| place.len() > 0 && lists_as(disk, place.drop_last(), place.last(), EntryKind::File)
        && name_fits(place.last(), key.file_md5)
}

proof fn lemma_best_in_dir_is_there(disk: Disk, key: SearchKeyView, dir: Place)
    ensures
        best_in_dir(disk, key, dir) matches Some(place) ==> is_there(disk, key, place),
{
    if let Some(place) = best_in_dir(disk, key, dir) {
        let names = media_names(key.file_md5, key.kind);
        law_first_named(disk, dir, names);
        if first_named(disk, dir, names) is Some {
            let i = choose|i: int|
                0 <= i < names.len() && place == dir.push(encode_utf8(#[trigger] names[i]))
                    && (disk.is_file)(place);
            assert(place.last() == encode_utf8(names[i]));
        } else {
            let entries = (disk.entries)(dir)->0;
            let found = fitting_files(dir, entries, key.file_md5);
            law_largest_file(disk, found);
            let k = choose|k: int| 0 <= k < found.len() && #[trigger] found[k] == place;
            assert(found.contains(place));
            lemma_fitting_files(dir, entries, key.file_md5, place);
        }
    }
}

proof fn lemma_best_in_dirs_is_there(disk: Disk, key: SearchKeyView, dirs: Seq<Place>)
    ensures
        best_in_dirs(disk, key, dirs) matches Some(place) ==> is_there(disk, key, place),
{
    if let Some(place) = best_in_dirs(disk, key, dirs) {
        if key.kind == AttachmentKind::Image {
            let names = media_names(key.file_md5, AttachmentKind::Image);
            let places = places_named(names, dirs);
            law_first_file(disk, places);
            let i = choose|i: int| 0 <= i < places.len() && #[trigger] places[i] == place;
            lemma_places_named(names, dirs, i);
        } else {
            law_first_dir_decides(disk, key, dirs);
            let i = choose|i: int|
                0 <= i < dirs.len() && best_in_dir(disk, key, #[trigger] dirs[i]) == Some(place);
            lemma_best_in_dir_is_there(disk, key, dirs[i]);
        }
    }
}

proof fn lemma_places_named(names: Seq<Seq<char>>, dirs: Seq<Place>, i: int)
    requires
        0 <= i < places_named(names, dirs).len(),
    ensures
        places_named(names, dirs)[i].len() > 0,
        exists|j: int|
            0 <= j < names.len() && places_named(names, dirs)[i].last() == encode_utf8(
                #[trigger] names[j],
            ),
    decreases names.len(),
{
    if names.len() > 0 {
        let front = names.drop_last();
        let before = places_named(front, dirs);
        if i < before.len() {
            lemma_places_named(front, dirs, i);
            let j = choose|j: int|
                0 <= j < front.len() && before[i].last() == encode_utf8(#[trigger] front[j]);
            assert(names[j] == front[j]);
        } else {
            assert(places_named(names, dirs)[i] == dirs[i - before.len()].push(
                encode_utf8(names[names.len() - 1]),
            ));
        }
    }
}

/// Whatever a search finds is there.
pub proof fn law_found_file_is_there(
    disk: Disk,
    key: SearchKeyView,
    months: Seq<Seq<char>>,
    limit: nat,
)
    ensures
        media_file(disk, key, months, limit) matches Some(Some(place)) ==> is_there(
            disk,
            key,
            place,
        ),
{
    let first = media_dirs(key, months.map_values(|m: Seq<char>| encode_utf8(m)));
    lemma_best_in_dirs_is_there(disk, key, first);
    if let Some(entries) = (disk.entries)(chat_place(key)) {
        lemma_best_in_dirs_is_there(disk, key, media_dirs(key, month_dirs(entries)));
    }
    let root = Seq::<Seq<u8>>::empty();
    if let Some(found) = walked(disk, key, seq![root], Seq::empty(), limit) {
        law_largest_file(disk, found);
        if let Some(place) = largest_file(disk, found) {
            let k = choose|k: int| 0 <= k < found.len() && #[trigger] found[k] == place;
            assert(found.contains(place));
            law_tree_is_visited(disk, key, limit, place);
        }
    }
}

/// A directory has something for a key: a file with a preferred name or, for other
/// kinds than images, any file that it lists and whose name starts with the digest.
pub open spec fn has_something(disk: Disk, key: SearchKeyView, dir: Place) -> bool {
    ||| (disk.is_dir)(dir) && exists|i: int|
        0 <= i < media_names(key.file_md5, key.kind).len() && (disk.is_file)(
            dir.push(encode_utf8(#[trigger] media_names(key.file_md5, key.kind)[i])),
        )
    ||| key.kind != AttachmentKind::Image && (disk.is_dir)(dir) && exists|ending: Seq<char>|
        lists_as(
            disk,
            dir,
            #[trigger] encode_utf8(key.file_md5 + ending),
            EntryKind::File,
        )
}

proof fn lemma_something_in_dirs(disk: Disk, key: SearchKeyView, dirs: Seq<Place>, k: int)
    requires
        0 <= k < dirs.len(),
        has_something(disk, key, dirs[k]),
    ensures
        best_in_dirs(disk, key, dirs) is Some,
{
    let dir = dirs[k];
    let names = media_names(key.file_md5, key.kind);
    if key.kind == AttachmentKind::Image {
        let i = choose|i: int|
            0 <= i < names.len() && (disk.is_file)(dir.push(encode_utf8(#[trigger] names[i])));
        let places = places_named(names, dirs);
        let at = lemma_place_is_named(names, dirs, i, k);
        law_first_file(disk, places);
        assert((disk.is_file)(places[at]));
    } else {
        law_first_dir_decides(disk, key, dirs);
        law_first_named(disk, dir, names);
        if exists|i: int|
            0 <= i < names.len() && (disk.is_file)(dir.push(encode_utf8(#[trigger] names[i]))) {
            let i = choose|i: int|
                0 <= i < names.len() && (disk.is_file)(dir.push(encode_utf8(#[trigger] names[i])));
            assert(first_named(disk, dir, names) is Some);
        } else {
            let ending = choose|ending: Seq<char>|
                lists_as(
                    disk,
                    dir,
                    #[trigger] encode_utf8(key.file_md5 + ending),
                    EntryKind::File,
                );
            let entries = (disk.entries)(dir)->0;
            let wanted = DirEntryView {
                name: encode_utf8(key.file_md5 + ending),
                kind: EntryKind::File,
            };
            let i = choose|i: int| 0 <= i < entries.len() && entries[i] == wanted;
            law_best_in_dir(disk, key, dir, entries, i, ending);
        }
        assert(best_in_dir(disk, key, dirs[k]) is Some);
    }
}

proof fn lemma_place_is_named(names: Seq<Seq<char>>, dirs: Seq<Place>, i: int, k: int) -> (at: int)
    requires
        0 <= i < names.len(),
        0 <= k < dirs.len(),
    ensures
        0 <= at < places_named(names, dirs).len(),
        places_named(names, dirs)[at] == dirs[k].push(encode_utf8(names[i])),
    decreases names.len(),
{
    let front = names.drop_last();
    let before = places_named(front, dirs);
    if i == names.len() - 1 {
        before.len() + k
    } else {
        lemma_place_is_named(front, dirs, i, k)
    }
}

/// Nothing in the first months is missed: where a month's directory for the kind has
/// something, a file is found, and it comes from the directories of these months.
pub proof fn law_first_months_are_searched(
    disk: Disk,
    key: SearchKeyView,
    months: Seq<Seq<char>>,
    limit: nat,
    i: int,
    j: int,
)
    requires
        (disk.is_dir)(chat_place(key)),
        0 <= i < months.len(),
        0 <= j < kind_dirs(key.kind, chat_place(key).push(encode_utf8(months[i]))).len(),
        has_something(
            disk,
            key,
            kind_dirs(key.kind, chat_place(key).push(encode_utf8(months[i])))[j],
        ),
    ensures
        media_file(disk, key, months, limit) matches Some(Some(place)) && Some(place)
            == best_in_dirs(
            disk,
            key,
            media_dirs(key, months.map_values(|m: Seq<char>| encode_utf8(m))),
        ),
{
    let names = months.map_values(|m: Seq<char>| encode_utf8(m));
    let dirs = media_dirs(key, names);
    assert(names[i] == encode_utf8(months[i]));
    law_no_month_is_left_out(key, names, i, j);
    let dir = kind_dirs(key.kind, chat_place(key).push(names[i]))[j];
    let k = choose|k: int| 0 <= k < dirs.len() && dirs[k] == dir;
    lemma_something_in_dirs(disk, key, dirs, k);
}

/// Nothing in any other month is missed: where a directory of the chat has something
/// in its directory for the kind, a file is found.
pub proof fn law_all_months_are_searched(
    disk: Disk,
    key: SearchKeyView,
    months: Seq<Seq<char>>,
    limit: nat,
    month: Seq<u8>,
    j: int,
)
    requires
        (disk.is_dir)(chat_place(key)),
        lists_as(disk, chat_place(key), month, EntryKind::Dir),
        0 <= j < kind_dirs(key.kind, chat_place(key).push(month)).len(),
        has_something(disk, key, kind_dirs(key.kind, chat_place(key).push(month))[j]),
    ensures
        media_file(disk, key, months, limit) matches Some(Some(_)),
{
    let entries = (disk.entries)(chat_place(key))->0;
    let names = month_dirs(entries);
    lemma_dir_names(entries, month);
    law_month_dirs(entries);
    lemma_sorted_members(dir_names(entries), names, month);
    let i = choose|i: int| 0 <= i < names.len() && names[i] == month;
    law_no_month_is_left_out(key, names, i, j);
    let dirs = media_dirs(key, names);
    let dir = kind_dirs(key.kind, chat_place(key).push(month))[j];
    let k = choose|k: int| 0 <= k < dirs.len() && dirs[k] == dir;
    lemma_something_in_dirs(disk, key, dirs, k);
}

proof fn lemma_sorted_members(names: Seq<Seq<u8>>, sorted: Seq<Seq<u8>>, name: Seq<u8>)
    requires
        sorted.to_multiset() == names.to_multiset(),
    ensures
        sorted.contains(name) <==> names.contains(name),
{
    broadcast use vstd::seq_lib::group_to_multiset_ensures;

    assert(sorted.contains(name) <==> sorted.to_multiset().count(name) > 0);
    assert(names.contains(name) <==> names.to_multiset().count(name) > 0);
}

/// A voice message is found anywhere below the attachment directory, at any depth,
/// where no month has it, and none that is smaller than another; other kinds are
/// not searched for there.
pub proof fn law_tree_is_searched_for_voice(
    disk: Disk,
    key: SearchKeyView,
    months: Seq<Seq<char>>,
    limit: nat,
    file: Place,
)
    requires
        !(disk.is_dir)(chat_place(key)),
        media_file(disk, key, months, limit) is Some,
    ensures
        key.kind != AttachmentKind::Voice ==> media_file(disk, key, months, limit) == Some(
            None::<Place>,
        ),
        key.kind == AttachmentKind::Voice && (disk.is_dir)(Seq::empty()) && fits_below(
            disk,
            key,
            Seq::empty(),
            file,
        ) ==> {
            &&& media_file(disk, key, months, limit) matches Some(Some(place))
            &&& (disk.size)(file) <= (disk.size)(place)
            &&& fits_below(disk, key, Seq::empty(), place)
        },
{
    if key.kind == AttachmentKind::Voice && (disk.is_dir)(Seq::empty()) && fits_below(
        disk,
        key,
        Seq::empty(),
        file,
    ) {
        let root = Seq::<Seq<u8>>::empty();
        let found = walked(disk, key, seq![root], Seq::empty(), limit)->0;
        law_tree_is_visited(disk, key, limit, file);
        law_largest_file(disk, found);
        let i = choose|i: int| 0 <= i < found.len() && found[i] == file;
        let place = largest_file(disk, found)->0;
        assert((disk.size)(found[i]) <= (disk.size)(place));
        let k = choose|k: int| 0 <= k < found.len() && #[trigger] found[k] == place;
        assert(found.contains(place));
        law_tree_is_visited(disk, key, limit, place);
    }
}

/// A disk answers what it is asked.
pub proof fn law_answer_of(disk: Disk, place: Place, places: Seq<Place>)
    ensures
        answer_of(disk, SearchQuestionView::IsDir(place)) == SearchAnswerView::Yes(
            (disk.is_dir)(place),
        ),
        answer_of(disk, SearchQuestionView::IsFile(place)) == SearchAnswerView::Yes(
            (disk.is_file)(place),
        ),
        answer_of(disk, SearchQuestionView::Entries(place)) == SearchAnswerView::Entries(
            (disk.entries)(place),
        ),
        answer_of(disk, SearchQuestionView::Sizes(places)) == SearchAnswerView::Sizes(
            places.map_values(disk.size),
        ),
{
}

/// Where the first months have nothing, all months of the chat are tried by rising
/// name, and the first that has something decides; a chat's directory that cannot be
/// read ends the search. Only where no month has anything, and only for a voice
/// message, the whole tree is searched, and the largest file is taken.
pub proof fn law_order_of_the_search(
    disk: Disk,
    key: SearchKeyView,
    months: Seq<Seq<char>>,
    limit: nat,
)
    requires
        (disk.is_dir)(chat_place(key)),
        best_in_dirs(
            disk,
            key,
            media_dirs(key, months.map_values(|m: Seq<char>| encode_utf8(m))),
        ) is None,
    ensures
        ({
            let found = media_file(disk, key, months, limit);
            let entries = (disk.entries)(chat_place(key));
            let best = best_in_dirs(disk, key, media_dirs(key, month_dirs(entries->0)));
            let root = Seq::<Seq<u8>>::empty();
            let tree = walked(disk, key, seq![root], Seq::empty(), limit);
            &&& entries is None ==> found == Some(None::<Place>)
            &&& entries is Some && best is Some ==> found == Some(best)
            &&& entries is Some && best is None && (key.kind != AttachmentKind::Voice || !(
            disk.is_dir)(root)) ==> found == Some(None::<Place>)
            &&& entries is Some && best is None && key.kind == AttachmentKind::Voice && (
            disk.is_dir)(root) ==> {
                &&& tree is Some ==> found == Some(largest_file(disk, tree->0))
                &&& tree is None ==> found is None
            }
        }),
{
}

/// A directory of the tree is visited before those that were left before it. Its
/// files come behind those found before, and its directories are visited next, the
/// last one first. A directory that cannot be read is passed over.
pub proof fn law_order_of_the_walk(
    disk: Disk,
    key: SearchKeyView,
    stack: Seq<Place>,
    dir: Place,
    found: Seq<Place>,
    limit: nat,
)
    ensures
        walked(disk, key, Seq::empty(), found, limit) == Some(found),
        walked(disk, key, stack.push(dir), found, 0) is None,
        (disk.entries)(dir) is Some ==> walked(disk, key, stack.push(dir), found, limit + 1)
            == walked(
            disk,
            key,
            stack + subdirs(dir, (disk.entries)(dir)->0),
            found + fitting_files(dir, (disk.entries)(dir)->0, key.file_md5),
            limit,
        ),
        (disk.entries)(dir) is None ==> walked(disk, key, stack.push(dir), found, limit + 1)
            == walked(disk, key, stack, found, limit),
{
    assert(stack.push(dir).drop_last() =~= stack);
}

/// In a directory, the first of the preferred names that there is a file of is
/// taken; where there is none, the largest file that the directory lists and whose
/// name starts with the digest; and nothing where there is none, or where the
/// directory is not there or cannot be read.
pub proof fn law_what_a_directory_gives(disk: Disk, key: SearchKeyView, dir: Place)
    ensures
        ({
            let named = first_named(disk, dir, media_names(key.file_md5, key.kind));
            let entries = (disk.entries)(dir);
            &&& !(disk.is_dir)(dir) ==> best_in_dir(disk, key, dir) is None
            &&& (disk.is_dir)(dir) && named is Some ==> best_in_dir(disk, key, dir) == named
            &&& (disk.is_dir)(dir) && named is None && entries is None ==> best_in_dir(
                disk,
                key,
                dir,
            ) is None
            &&& (disk.is_dir)(dir) && named is None && entries is Some ==> best_in_dir(
                disk,
                key,
                dir,
            ) == largest_file(disk, fitting_files(dir, entries->0, key.file_md5))
        }),
{
}

/// For other kinds than images, the directories are tried one behind the other; for
/// an image all places in them, every full picture before every preview.
pub proof fn law_directories_are_tried_in_order(disk: Disk, key: SearchKeyView, dirs: Seq<Place>)
    ensures
        key.kind != AttachmentKind::Image ==> best_in_dirs(disk, key, dirs) == best_in_first_dir(
            disk,
            key,
            dirs,
        ),
        key.kind == AttachmentKind::Image ==> best_in_dirs(disk, key, dirs) == first_file(
            disk,
            places_named(
                seq![
                    key.file_md5 + ".dat"@,
                    key.file_md5 + "_h.dat"@,
                    key.file_md5 + "_t.dat"@,
                ],
                dirs,
            ),
        ),
{
    assert(media_names(key.file_md5, AttachmentKind::Image) =~= seq![
        key.file_md5 + ".dat"@,
        key.file_md5 + "_h.dat"@,
        key.file_md5 + "_t.dat"@,
    ]);
}

} // verus!
