//! Attachments, their kinds, and the names of their files.

use vstd::prelude::*;

use crate::text::texts_view;

verus! {

/// What an attachment is.
#[derive(Debug, Clone, Copy, PartialEq, Eq, Structural)]
pub enum AttachmentKind {
    Image,
    Voice,
    Video,
    File,
}

/// The name of a kind.
pub open spec fn kind_name(kind: AttachmentKind) -> Seq<char> {
    match kind {
        AttachmentKind::Image => "image"@,
        AttachmentKind::Voice => "voice"@,
        AttachmentKind::Video => "video"@,
        AttachmentKind::File => "file"@,
    }
}

/// The type of the messages that carry a kind, without its flags.
pub open spec fn kind_type(kind: AttachmentKind) -> i64 {
    match kind {
        AttachmentKind::Image => 3,
        AttachmentKind::Voice => 34,
        AttachmentKind::Video => 43,
        AttachmentKind::File => 49,
    }
}

impl AttachmentKind {
    /// The name of the kind.
    pub fn as_str(self) -> (name: &'static str)
        ensures
            name@ == kind_name(self),
    {
        match self {
            AttachmentKind::Image => "image",
            AttachmentKind::Voice => "voice",
            AttachmentKind::Video => "video",
            AttachmentKind::File => "file",
        }
    }

    /// The type of the messages that carry the kind, without its flags.
    pub fn message_type(self) -> (lo32: i64)
        ensures
            lo32 == kind_type(self),
    {
        match self {
            AttachmentKind::Image => 3,
            AttachmentKind::Voice => 34,
            AttachmentKind::Video => 43,
            AttachmentKind::File => 49,
        }
    }
}

/// The message that an attachment belongs to.
#[derive(Debug, Clone)]
pub struct AttachmentId {
    pub chat: String,
    pub local_id: i64,
    pub create_time: i64,
    pub kind: AttachmentKind,
}

// ---------------------------------------------------------------------------
// File names
// ---------------------------------------------------------------------------

/// What the name of a file of a kind may add to the digest, the preferred
/// first.
pub open spec fn name_endings(kind: AttachmentKind) -> Seq<Seq<char>> {
    match kind {
        AttachmentKind::Image => seq![".dat"@, "_h.dat"@, "_t.dat"@],
        AttachmentKind::Voice => seq![
            ""@,
            ".aud"@,
            ".amr"@,
            ".silk"@,
            ".wav"@,
            ".m4a"@,
            ".mp3"@,
            ".dat"@,
        ],
        AttachmentKind::Video => seq![".mp4"@, ".mov"@, ".m4v"@, ".dat"@],
        AttachmentKind::File => seq![""@],
    }
}

/// The names of a kind's files, the preferred first.
pub open spec fn media_names(file_md5: Seq<char>, kind: AttachmentKind) -> Seq<Seq<char>> {
    name_endings(kind).map_values(|ending: Seq<char>| file_md5 + ending)
}

/// What the name of a file of a kind may add to the digest.
fn endings(kind: AttachmentKind) -> (list: Vec<&'static str>)
    ensures
        list@.map_values(|e: &'static str| e@) == name_endings(kind),
{
    let list: Vec<&'static str> = match kind {
        AttachmentKind::Image => vec![".dat", "_h.dat", "_t.dat"],
        AttachmentKind::Voice => vec!["", ".aud", ".amr", ".silk", ".wav", ".m4a", ".mp3", ".dat"],
        AttachmentKind::Video => vec![".mp4", ".mov", ".m4v", ".dat"],
        AttachmentKind::File => vec![""],
    };
    assert(list@.map_values(|e: &'static str| e@) =~= name_endings(kind));
    list
}

/// Names the files of a kind with a digest, the preferred first.
pub fn exact_media_names(file_md5: &str, kind: AttachmentKind) -> (names: Vec<String>)
    ensures
        texts_view(names@) == media_names(file_md5@, kind),
{
    let list = endings(kind);
    let ghost wanted = media_names(file_md5@, kind);
    let ghost view = list@.map_values(|e: &'static str| e@);
    let mut names: Vec<String> = Vec::new();
    let mut i: usize = 0;
    while i < list.len()
        invariant
            i <= list@.len(),
            list@.len() == wanted.len(),
            view == list@.map_values(|e: &'static str| e@),
            view == name_endings(kind),
            wanted == media_names(file_md5@, kind),
            texts_view(names@) == wanted.take(i as int),
        decreases list@.len() - i,
    {
        let mut name = file_md5.to_owned();
        name.append(list[i]);
        assert(view[i as int] == list@[i as int]@);
        assert(name@ == wanted[i as int]);
        let ghost before = names@;
        names.push(name);
        assert(texts_view(names@) =~= texts_view(before).push(name@));
        i += 1;
        assert(wanted.take(i as int) =~= wanted.take(i - 1).push(wanted[i - 1]));
    }
    assert(wanted.take(wanted.len() as int) =~= wanted);
    names
}

// ---------------------------------------------------------------------------
// What holds of kinds and names
// ---------------------------------------------------------------------------

/// Every name of a kind's file is the digest and one of the kind's endings, in the
/// order of the endings.
pub proof fn law_media_names(file_md5: Seq<char>, kind: AttachmentKind, i: int)
    requires
        0 <= i < name_endings(kind).len(),
    ensures
        media_names(file_md5, kind).len() == name_endings(kind).len(),
        media_names(file_md5, kind)[i] == file_md5 + name_endings(kind)[i],
{
}

/// Of a picture, the full one is preferred to the large preview, and that to the
/// small one. A voice message or a file may have the digest alone for its name.
pub proof fn law_preferred_names(file_md5: Seq<char>)
    ensures
        media_names(file_md5, AttachmentKind::Image) == seq![
            file_md5 + ".dat"@,
            file_md5 + "_h.dat"@,
            file_md5 + "_t.dat"@,
        ],
        media_names(file_md5, AttachmentKind::Voice) == seq![
            file_md5,
            file_md5 + ".aud"@,
            file_md5 + ".amr"@,
            file_md5 + ".silk"@,
            file_md5 + ".wav"@,
            file_md5 + ".m4a"@,
            file_md5 + ".mp3"@,
            file_md5 + ".dat"@,
        ],
        media_names(file_md5, AttachmentKind::Video) == seq![
            file_md5 + ".mp4"@,
            file_md5 + ".mov"@,
            file_md5 + ".m4v"@,
            file_md5 + ".dat"@,
        ],
        media_names(file_md5, AttachmentKind::File) == seq![file_md5],
{
    reveal_strlit("");
    assert(file_md5 + ""@ =~= file_md5);
}

/// Different kinds have different names and different types of messages, which
/// fit in 32 bits.
pub proof fn law_kinds_differ(a: AttachmentKind, b: AttachmentKind)
    ensures
        kind_name(a) == kind_name(b) ==> a == b,
        kind_type(a) == kind_type(b) ==> a == b,
        0 <= kind_type(a) < 0x1_0000_0000,
{
    reveal_strlit("image");
    reveal_strlit("voice");
    reveal_strlit("video");
    reveal_strlit("file");
    assert("image"@[0] == 'i' && "voice"@[1] == 'o' && "video"@[1] == 'i' && "voice"@[0] == 'v'
        && "video"@[0] == 'v' && "file"@[0] == 'f');
}

/// Messages with a picture have the type 3, with a voice message 34, with a video 43
/// and with a file 49; each kind is called by its own word.
pub proof fn law_types_of_messages(kind: AttachmentKind)
    ensures
        kind is Image ==> kind_type(kind) == 3 && kind_name(kind) == "image"@,
        kind is Voice ==> kind_type(kind) == 34 && kind_name(kind) == "voice"@,
        kind is Video ==> kind_type(kind) == 43 && kind_name(kind) == "video"@,
        kind is File ==> kind_type(kind) == 49 && kind_name(kind) == "file"@,
{
}

} // verus!
