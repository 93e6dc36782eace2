//! Cleaning what speech recognition prints.

use vstd::prelude::*;

use crate::text::{
    chars_of, is_white_space, law_trimmed, lemma_trim_end, lemma_trim_start, trim_chars, trim_end,
    trim_start, trimmed,
};

verus! {

/// The lines of a text, without the line feeds between them.
pub open spec fn lines_of(text: Seq<char>) -> Seq<Seq<char>>
    decreases text.len(),
{
    if text.len() == 0 {
        seq![Seq::empty()]
    } else {
        let front = lines_of(text.drop_last());
        if text.last() == '\n' {
            front.push(Seq::empty())
        } else {
            front.drop_last().push(front.last().push(text.last()))
        }
    }
}

/// Lines without the white space at their ends, and without empty ones.
pub open spec fn kept_lines(lines: Seq<Seq<char>>) -> Seq<Seq<char>>
    decreases lines.len(),
{
    if lines.len() == 0 {
        Seq::empty()
    } else {
        let front = kept_lines(lines.drop_last());
        let core = trimmed(lines.last());
        if core.len() == 0 {
            front
        } else {
            front.push(core)
        }
    }
}

/// Lines with line feeds between them.
pub open spec fn joined_lines(lines: Seq<Seq<char>>) -> Seq<char>
    decreases lines.len(),
{
    if lines.len() == 0 {
        Seq::empty()
    } else if lines.len() == 1 {
        lines[0]
    } else {
        joined_lines(lines.drop_last()) + "\n"@ + lines.last()
    }
}

/// A text without empty lines and without white space at the ends of lines.
pub open spec fn clean_text(text: Seq<char>) -> Seq<char> {
    joined_lines(kept_lines(lines_of(text)))
}

proof fn lemma_lines_not_empty(text: Seq<char>)
    ensures
        lines_of(text).len() > 0,
    decreases text.len(),
{
    if text.len() > 0 {
        lemma_lines_not_empty(text.drop_last());
    }
}

/// Adds a line to those kept so far, unless nothing of it is left.
fn keep_line(
    kept: &mut String,
    none_yet: bool,
    line: &Vec<char>,
    Ghost(before): Ghost<Seq<Seq<char>>>,
) -> (none: bool)
    requires
        old(kept)@ == joined_lines(kept_lines(before)),
        none_yet == (kept_lines(before).len() == 0),
    ensures
        final(kept)@ == joined_lines(kept_lines(before.push(line@))),
        none == (kept_lines(before.push(line@)).len() == 0),
{
    let core = trim_chars(line.as_slice());
    let ghost kept_before = kept_lines(before);
    assert(before.push(line@).drop_last() =~= before);
    if core.as_str().unicode_len() == 0 {
        return none_yet;
    }
    if !none_yet {
        kept.append("\n");
    }
    kept.append(core.as_str());
    assert(kept_before.push(core@).drop_last() =~= kept_before);
    assert(none_yet ==> joined_lines(kept_before) =~= Seq::empty());
    assert(none_yet ==> kept@ =~= core@);
    false
}

/// Takes the transcript out of what speech recognition prints: its lines without
/// white space at their ends, and without empty ones.
pub fn clean_whisper_stdout(stdout: &str) -> (transcript: String)
    ensures
        transcript@ == clean_text(stdout@),
{
    let chars = chars_of(stdout);
    let mut kept = String::new();
    let mut none_yet = true;
    let mut line: Vec<char> = Vec::new();
    let mut i: usize = 0;
    let ghost mut done: Seq<Seq<char>> = Seq::empty();
    assert(lines_of(chars@.take(0)) =~= done.push(line@));
    assert(kept@ =~= joined_lines(kept_lines(done)));
    while i < chars.len()
        invariant
            i <= chars@.len(),
            lines_of(chars@.take(i as int)) == done.push(line@),
            kept@ == joined_lines(kept_lines(done)),
            none_yet == (kept_lines(done).len() == 0),
        decreases chars@.len() - i,
    {
        let c = chars[i];
        assert(chars@.take(i + 1).drop_last() =~= chars@.take(i as int));
        assert(done.push(line@).drop_last() =~= done);
        if c == '\n' {
            none_yet = keep_line(&mut kept, none_yet, &line, Ghost(done));
            proof {
                done = done.push(line@);
            }
            line = Vec::new();
            assert(line@ =~= Seq::<char>::empty());
        } else {
            line.push(c);
        }
        i += 1;
    }
    assert(chars@.take(chars@.len() as int) =~= stdout@);
    keep_line(&mut kept, none_yet, &line, Ghost(done));
    kept
}

// ---------------------------------------------------------------------------
// What is left is clean
// ---------------------------------------------------------------------------

/// A line that is kept as it is.
pub open spec fn is_clean_line(line: Seq<char>) -> bool {
    &&& line.len() > 0
    &&& !is_white_space(line.first())
    &&& !is_white_space(line.last())
    &&& !line.contains('\n')
}

proof fn lemma_lines_have_no_feed(text: Seq<char>)
    ensures
        forall|i: int| 0 <= i < lines_of(text).len() ==> !(#[trigger] lines_of(text)[i]).contains('\n'),
    decreases text.len(),
{
    if text.len() > 0 {
        let front = lines_of(text.drop_last());
        lemma_lines_have_no_feed(text.drop_last());
        lemma_lines_not_empty(text.drop_last());
        let last = front.last().push(text.last());
        assert(!front[front.len() - 1].contains('\n'));
        if text.last() != '\n' {
            assert(!last.contains('\n')) by {
                if last.contains('\n') {
                    let i = choose|i: int| 0 <= i < last.len() && last[i] == '\n';
                    assert(front.last()[i] == '\n');
                }
            }
        }
        let lines = lines_of(text);
        assert forall|i: int| 0 <= i < lines.len() implies !(#[trigger] lines[i]).contains('\n') by {
            if i < lines.len() - 1 {
                assert(lines[i] == front[i]);
            }
        }
    }
}

proof fn lemma_kept_are_clean(lines: Seq<Seq<char>>)
    requires
        forall|i: int| 0 <= i < lines.len() ==> !(#[trigger] lines[i]).contains('\n'),
    ensures
        forall|i: int| 0 <= i < kept_lines(lines).len() ==> is_clean_line(#[trigger] kept_lines(lines)[i]),
    decreases lines.len(),
{
    if lines.len() > 0 {
        let front = lines.drop_last();
        assert forall|i: int| 0 <= i < front.len() implies !(#[trigger] front[i]).contains('\n') by {
            assert(front[i] == lines[i]);
        }
        lemma_kept_are_clean(front);
        lemma_trim_start(lines.last());
        lemma_trim_end(trim_start(lines.last()));
        let core = trimmed(lines.last());
        assert(!lines[lines.len() - 1].contains('\n'));
        if core.len() > 0 {
            assert(core.first() == trim_start(lines.last())[0]);
            assert(is_clean_line(core));
        }
        let kept = kept_lines(lines);
        let kept_front = kept_lines(front);
        assert forall|i: int| 0 <= i < kept.len() implies is_clean_line(#[trigger] kept[i]) by {
            if i < kept_front.len() {
                assert(kept[i] == kept_front[i]);
            }
        }
    }
}

proof fn lemma_clean_line_alone(line: Seq<char>)
    requires
        is_clean_line(line),
    ensures
        trimmed(line) == line,
{
}

proof fn lemma_clean_lines_are_kept(lines: Seq<Seq<char>>)
    requires
        forall|i: int| 0 <= i < lines.len() ==> is_clean_line(#[trigger] lines[i]),
    ensures
        kept_lines(lines) == lines,
    decreases lines.len(),
{
    if lines.len() > 0 {
        let front = lines.drop_last();
        assert forall|i: int| 0 <= i < front.len() implies is_clean_line(#[trigger] front[i]) by {
            assert(front[i] == lines[i]);
        }
        lemma_clean_lines_are_kept(front);
        assert(is_clean_line(lines[lines.len() - 1]));
        lemma_clean_line_alone(lines.last());
        assert(front.push(lines.last()) =~= lines);
    }
}

/// A line behind a text that ends with a line feed is the text's last line.
proof fn lemma_lines_of_added(text: Seq<char>, line: Seq<char>)
    requires
        !line.contains('\n'),
    ensures
        lines_of(text + "\n"@ + line) == lines_of(text).push(line),
    decreases line.len(),
{
    reveal_strlit("\n");
    let all = text + "\n"@ + line;
    if line.len() == 0 {
        assert(all.drop_last() =~= text);
        assert(line =~= Seq::empty());
    } else {
        let front = line.drop_last();
        assert(!front.contains('\n')) by {
            if front.contains('\n') {
                let i = choose|i: int| 0 <= i < front.len() && front[i] == '\n';
                assert(line[i] == '\n');
            }
        }
        lemma_lines_of_added(text, front);
        assert(all.drop_last() =~= text + "\n"@ + front);
        assert(line[line.len() - 1] != '\n');
        assert(lines_of(text).push(front).drop_last() =~= lines_of(text));
        assert(front.push(line.last()) =~= line);
    }
}

proof fn lemma_lines_of_one(line: Seq<char>)
    requires
        !line.contains('\n'),
    ensures
        lines_of(line) == seq![line],
    decreases line.len(),
{
    if line.len() == 0 {
        assert(line =~= Seq::empty());
    } else {
        let front = line.drop_last();
        assert(!front.contains('\n')) by {
            if front.contains('\n') {
                let i = choose|i: int| 0 <= i < front.len() && front[i] == '\n';
                assert(line[i] == '\n');
            }
        }
        lemma_lines_of_one(front);
        assert(line[line.len() - 1] != '\n');
        assert(front.push(line.last()) =~= line);
        assert(lines_of(line) =~= seq![line]);
    }
}

proof fn lemma_lines_of_joined(lines: Seq<Seq<char>>)
    requires
        lines.len() > 0,
        forall|i: int| 0 <= i < lines.len() ==> is_clean_line(#[trigger] lines[i]),
    ensures
        lines_of(joined_lines(lines)) == lines,
    decreases lines.len(),
{
    assert(is_clean_line(lines[lines.len() - 1]));
    if lines.len() == 1 {
        lemma_lines_of_one(lines[0]);
        assert(seq![lines[0]] =~= lines);
    } else {
        let front = lines.drop_last();
        assert forall|i: int| 0 <= i < front.len() implies is_clean_line(#[trigger] front[i]) by {
            assert(front[i] == lines[i]);
        }
        lemma_lines_of_joined(front);
        lemma_lines_of_added(joined_lines(front), lines.last());
        assert(front.push(lines.last()) =~= lines);
    }
}

/// A transcript is empty, or each of its lines is clean.
pub proof fn law_transcript_is_clean(text: Seq<char>)
    ensures
        clean_text(text).len() > 0 ==> forall|i: int|
            0 <= i < lines_of(clean_text(text)).len() ==> is_clean_line(
                #[trigger] lines_of(clean_text(text))[i],
            ),
{
    let kept = kept_lines(lines_of(text));
    lemma_lines_have_no_feed(text);
    lemma_kept_are_clean(lines_of(text));
    if kept.len() > 0 {
        lemma_lines_of_joined(kept);
    }
}

/// Cleaning a transcript once more changes nothing.
pub proof fn law_cleaning_twice(text: Seq<char>)
    ensures
        clean_text(clean_text(text)) == clean_text(text),
{
    let kept = kept_lines(lines_of(text));
    lemma_lines_have_no_feed(text);
    lemma_kept_are_clean(lines_of(text));
    if kept.len() > 0 {
        lemma_lines_of_joined(kept);
        lemma_clean_lines_are_kept(kept);
    } else {
        let none = Seq::<char>::empty();
        assert(clean_text(text) =~= none);
        reveal_with_fuel(kept_lines, 2);
        assert(lines_of(none).drop_last() =~= Seq::empty());
        assert(trimmed(none) =~= none);
    }
}

// ---------------------------------------------------------------------------
// Nothing is lost
// ---------------------------------------------------------------------------

/// The characters of a text that are no white space.
pub open spec fn dark(text: Seq<char>) -> Seq<char>
    decreases text.len(),
{
    if text.len() == 0 {
        Seq::empty()
    } else if is_white_space(text.last()) {
        dark(text.drop_last())
    } else {
        dark(text.drop_last()).push(text.last())
    }
}

proof fn lemma_dark_joined(a: Seq<char>, b: Seq<char>)
    ensures
        dark(a + b) == dark(a) + dark(b),
    decreases b.len(),
{
    if b.len() == 0 {
        assert(a + b =~= a);
        assert(dark(a) + dark(b) =~= dark(a));
    } else {
        lemma_dark_joined(a, b.drop_last());
        assert((a + b).drop_last() =~= a + b.drop_last());
        assert((a + b).last() == b.last());
        assert(dark(a + b) =~= dark(a) + dark(b));
    }
}

proof fn lemma_dark_white(text: Seq<char>)
    requires
        forall|i: int| 0 <= i < text.len() ==> is_white_space(#[trigger] text[i]),
    ensures
        dark(text) == Seq::<char>::empty(),
    decreases text.len(),
{
    if text.len() > 0 {
        let front = text.drop_last();
        assert(is_white_space(text[text.len() - 1]));
        assert forall|i: int| 0 <= i < front.len() implies is_white_space(#[trigger] front[i]) by {
            assert(front[i] == text[i]);
        }
        lemma_dark_white(front);
    }
}

/// Taking white space off the ends of a text loses no other character.
pub proof fn law_trimming_loses_nothing(text: Seq<char>)
    ensures
        dark(trimmed(text)) == dark(text),
{
    let (from, to) = law_trimmed(text);
    let front = text.take(from);
    let back = text.skip(to);
    assert(text =~= front + text.subrange(from, to) + back);
    lemma_dark_joined(front + text.subrange(from, to), back);
    lemma_dark_joined(front, text.subrange(from, to));
    assert forall|i: int| 0 <= i < front.len() implies is_white_space(#[trigger] front[i]) by {
        assert(front[i] == text[i]);
    }
    assert forall|i: int| 0 <= i < back.len() implies is_white_space(#[trigger] back[i]) by {
        assert(back[i] == text[to + i]);
    }
    lemma_dark_white(front);
    lemma_dark_white(back);
    assert(dark(text) =~= dark(trimmed(text)));
}

/// The lines of a text with line feeds between them are the text.
pub proof fn law_lines_are_the_text(text: Seq<char>)
    ensures
        joined_lines(lines_of(text)) == text,
        lines_of(text).len() > 0,
        forall|i: int| 0 <= i < lines_of(text).len() ==> !(#[trigger] lines_of(text)[i]).contains('\n'),
    decreases text.len(),
{
    lemma_lines_have_no_feed(text);
    if text.len() == 0 {
        assert(lines_of(text)[0] =~= text);
    } else {
        let before = text.drop_last();
        law_lines_are_the_text(before);
        let front = lines_of(before);
        let lines = lines_of(text);
        reveal_strlit("\n");
        assert("\n"@ =~= seq!['\n']);
        if text.last() == '\n' {
            assert(lines.drop_last() =~= front);
            assert(joined_lines(lines) =~= before + "\n"@);
            assert(joined_lines(lines) =~= text);
        } else {
            let rest = front.drop_last();
            assert(lines.drop_last() =~= rest);
            if front.len() == 1 {
                assert(joined_lines(lines) =~= before.push(text.last()));
            } else {
                assert(joined_lines(front) == joined_lines(rest) + "\n"@ + front.last());
                assert(joined_lines(lines) =~= joined_lines(rest) + "\n"@ + front.last().push(
                    text.last(),
                ));
                assert(joined_lines(lines) =~= before.push(text.last()));
            }
            assert(before.push(text.last()) =~= text);
        }
    }
}

proof fn lemma_dark_lines(lines: Seq<Seq<char>>)
    ensures
        dark(joined_lines(kept_lines(lines))) == dark(joined_lines(lines)),
    decreases lines.len(),
{
    if lines.len() > 0 {
        let front = lines.drop_last();
        let last = lines.last();
        lemma_dark_lines(front);
        law_trimming_loses_nothing(last);
        lemma_dark_push(front, last);
        assert(front.push(last) =~= lines);
        let core = trimmed(last);
        if core.len() == 0 {
            assert(core =~= Seq::empty());
            assert(dark(last) =~= Seq::empty());
            assert(dark(joined_lines(front)) + dark(last) =~= dark(joined_lines(front)));
        } else {
            lemma_dark_push(kept_lines(front), core);
        }
    }
}

proof fn lemma_dark_push(lines: Seq<Seq<char>>, line: Seq<char>)
    ensures
        dark(joined_lines(lines.push(line))) == dark(joined_lines(lines)) + dark(line),
{
    let more = lines.push(line);
    reveal_strlit("\n");
    if lines.len() == 0 {
        assert(joined_lines(more) == line);
        assert(joined_lines(lines) =~= Seq::empty());
        assert(dark(joined_lines(lines)) + dark(line) =~= dark(line));
    } else {
        assert(more.drop_last() =~= lines);
        let a = joined_lines(lines);
        lemma_dark_joined(a + "\n"@, line);
        lemma_dark_joined(a, "\n"@);
        assert("\n"@[0] == '\n');
        lemma_dark_white("\n"@);
        assert(dark(a) + dark("\n"@) =~= dark(a));
    }
}

/// Cleaning a transcript loses and adds no character but white space: the others
/// stay, in their order.
pub proof fn law_no_word_is_lost(text: Seq<char>)
    ensures
        dark(clean_text(text)) == dark(text),
{
    law_lines_are_the_text(text);
    lemma_dark_lines(lines_of(text));
}

/// The lines of a transcript are the lines of what was printed, each without white
/// space at its ends, in their order, but for those of which nothing is left.
pub proof fn law_lines_are_kept(lines: Seq<Seq<char>>, line: Seq<char>)
    ensures
        trimmed(line).len() > 0 ==> kept_lines(lines.push(line)) == kept_lines(lines).push(
            trimmed(line),
        ),
        trimmed(line).len() == 0 ==> kept_lines(lines.push(line)) == kept_lines(lines),
        kept_lines(Seq::empty()) == Seq::<Seq<char>>::empty(),
{
    assert(lines.push(line).drop_last() =~= lines);
}

} // verus!
