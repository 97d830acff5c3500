//! Windows paths as WSL mounts them.

use crate::failure;
use crate::failure::{ServerError, ServerFault, ServerResult};
use crate::message::{PathText, PathView};
use vstd::prelude::*;

verus! {

/// `String::push`: the character is appended.
pub assume_specification[ String::push ](s: &mut String, ch: char)
    ensures
        final(s)@ == old(s)@.push(ch),
;

/// A character with the letters A to Z in lower case.
pub open spec fn ascii_lower(c: char) -> char {
    if 'A' <= c <= 'Z' {
        (c as u8 + 32) as char
    } else {
        c
    }
}

/// A character of a path, with the Windows separator replaced.
pub open spec fn separator(c: char) -> char {
    if c == '\\' {
        '/'
    } else {
        c
    }
}

/// A text in which every backslash is a slash.
pub open spec fn slashed(text: Seq<char>) -> Seq<char> {
    text.map_values(|c: char| separator(c))
}

/// A text without the colons that it starts with.
pub open spec fn without_colons(text: Seq<char>) -> Seq<char>
    decreases text.len(),
{
    if text.len() > 0 && text[0] == ':' {
        without_colons(text.drop_first())
    } else {
        text
    }
}

/// The WSL form of a Windows path: its first character names the mount, and the
/// rest follows, with slashes, behind the colons that end the drive's name.
pub open spec fn wsl_text(text: Seq<char>) -> Seq<char> {
    "/mnt/"@.push(ascii_lower(text[0])) + without_colons(slashed(text.skip(1)))
}

/// The description of the error for a path without a character.
pub open spec fn empty_path() -> Seq<char> {
    "Empty path provided"@
}

/// The WSL path for a Windows path, by its text alone. An empty path has none.
pub open spec fn wsl_path(path: PathView) -> Result<PathView, ServerFault> {
    if path.text.len() == 0 {
        Err(ServerFault::InvalidPath(empty_path()))
    } else {
        Ok(PathView { text: wsl_text(path.text), unicode: true })
    }
}

/// What the rest of a path adds to its WSL form. In the drive's name colons are
/// dropped.
spec fn kept(in_drive: bool, rest: Seq<char>) -> Seq<char> {
    if in_drive {
        without_colons(slashed(rest))
    } else {
        slashed(rest)
    }
}

/// Whether the name of the drive, its first character and the colons behind it,
/// ends before `below`.
pub open spec fn drive_ends(text: Seq<char>, below: int) -> bool {
    &&& 1 <= below <= text.len()
    &&& forall|i: int| 1 <= i < below ==> #[trigger] text[i] == ':'
    &&& below < text.len() ==> text[below] != ':'
}

proof fn lemma_colons_dropped(text: Seq<char>, colons: int)
    requires
        0 <= colons <= text.len(),
        forall|i: int| 0 <= i < colons ==> #[trigger] text[i] == ':',
        colons < text.len() ==> text[colons] != ':',
    ensures
        without_colons(text) == text.skip(colons),
    decreases colons,
{
    if colons == 0 {
        assert(text.skip(0) =~= text);
    } else {
        let rest = text.drop_first();
        assert(text[0] == ':');
        assert forall|i: int| 0 <= i < colons - 1 implies #[trigger] rest[i] == ':' by {
            assert(rest[i] == text[i + 1]);
        }
        lemma_colons_dropped(rest, colons - 1);
        assert(rest.skip(colons - 1) =~= text.skip(colons));
    }
}

/// Behind the drive every character is kept but the backslash, which becomes a
/// slash.
pub proof fn lemma_kept_below(text: Seq<char>, below: int)
    requires
        drive_ends(text, below),
    ensures
        wsl_text(text).len() == 6 + text.len() - below,
        forall|i: int|
            below <= i < text.len() ==> (wsl_text(text)[6 + i - below] == if (#[trigger] text[i])
                == '\\' {
                '/'
            } else {
                text[i]
            }),
{
    reveal_strlit("/mnt/");
    let form = wsl_text(text);
    let tail = slashed(text.skip(1));
    assert forall|i: int| 0 <= i < below - 1 implies #[trigger] tail[i] == ':' by {
        assert(text[i + 1] == ':');
    }
    if below < text.len() {
        assert(tail[below - 1] != ':');
    }
    lemma_colons_dropped(tail, below - 1);
    assert forall|i: int| below <= i < text.len() implies (form[6 + i - below] == if (
    #[trigger] text[i]) == '\\' {
        '/'
    } else {
        text[i]
    }) by {
        assert(form[6 + i - below] == tail.skip(below - 1)[i - below]);
    }
}

fn to_ascii_lower(c: char) -> (r: char)
    ensures
        r == ascii_lower(c),
{
    if 'A' <= c && c <= 'Z' {
        (c as u8 + 32) as char
    } else {
        c
    }
}

/// Converts a Windows path to a WSL path: "C:\Users\Username" becomes
/// "/mnt/c/Users/Username". A path that is not Unicode is converted as its text.
pub fn convert_win_to_wsl_path(win_path: &PathText) -> (r: ServerResult<PathText>)
    ensures
        failure::server_outcome(r) == wsl_path(win_path@),
        forall|below: int| #[trigger]
            drive_ends(win_path@.text, below) ==> r is Ok && r->Ok_0@.text.len() == 6
                + win_path@.text.len() - below && forall|i: int|
                below <= i < win_path@.text.len() ==> (r->Ok_0@.text[6 + i - below] == if (
                #[trigger] win_path@.text[i]) == '\\' {
                    '/'
                } else {
                    win_path@.text[i]
                }),
{
    let mut chars = win_path.text.chars();
    let ghost text = win_path@.text;
    let drive = match chars.next() {
        Some(drive) => drive,
        None => return Err(ServerError::InvalidPath("Empty path provided".to_owned())),
    };
    let mut converted = "/mnt/".to_owned();
    converted.push(to_ascii_lower(drive));
    let ghost goal = wsl_text(text);
    assert(text.drop_first() =~= text.skip(1));
    let mut in_drive: bool = true;
    loop
        invariant_except_break
            converted@ + kept(in_drive, vstd::std_specs::iter::IteratorSpec::remaining(&chars))
                =~= goal,
            vstd::std_specs::iter::IteratorSpec::decrease(&chars) is Some,
        ensures
            converted@ =~= goal,
        decreases vstd::std_specs::iter::IteratorSpec::decrease(&chars)->0,
    {
        let ghost rest = vstd::std_specs::iter::IteratorSpec::remaining(&chars);
        let c = match chars.next() {
            Some(c) => c,
            None => break,
        };
        proof {
            assert(slashed(rest).drop_first() =~= slashed(rest.drop_first()));
            assert(slashed(rest) =~= seq![separator(c)] + slashed(rest.drop_first()));
        }
        if !(in_drive && c == ':') {
            in_drive = false;
            converted.push(if c == '\\' {
                '/'
            } else {
                c
            });
        }
    }
    proof {
        assert forall|below: int| #[trigger] drive_ends(text, below) implies converted@.len() == 6
            + text.len() - below && forall|i: int|
            below <= i < text.len() ==> (converted@[6 + i - below] == if (#[trigger] text[i])
                == '\\' {
                '/'
            } else {
                text[i]
            }) by {
            lemma_kept_below(text, below);
        }
    }
    Ok(PathText { text: converted, unicode: true })
}

// ---------------------------------------------------------------------------
// Laws
// ---------------------------------------------------------------------------

/// A path below a drive goes below the mount of that drive, with slashes.
pub proof fn law_drive_is_mounted(drive: char, below: Seq<char>)
    requires
        below.len() > 0 ==> below[0] != ':',
    ensures
        wsl_text(seq![drive, ':'] + below) == "/mnt/"@.push(ascii_lower(drive)) + slashed(below),
{
    let tail = slashed((seq![drive, ':'] + below).skip(1));
    assert(tail.drop_first() =~= slashed(below));
    reveal_with_fuel(without_colons, 2);
}

/// Every WSL form lies below "/mnt/".
pub proof fn law_below_mnt(text: Seq<char>)
    ensures
        "/mnt/"@.is_prefix_of(wsl_text(text)),
{
    reveal_strlit("/mnt/");
    assert(wsl_text(text).take("/mnt/"@.len() as int) =~= "/mnt/"@);
}

/// Behind the first character it does not matter which separator is written.
pub proof fn law_separators_agree(text: Seq<char>)
    requires
        text.len() > 0,
    ensures
        wsl_text(seq![text[0]] + slashed(text.skip(1))) == wsl_text(text),
{
    let tail = (seq![text[0]] + slashed(text.skip(1))).skip(1);
    assert(tail =~= slashed(text.skip(1)));
    assert(slashed(tail) =~= tail);
}

/// The case of the drive letter does not matter.
pub proof fn law_drive_case_ignored(text: Seq<char>)
    requires
        text.len() > 0,
    ensures
        wsl_text(text.update(0, ascii_lower(text[0]))) == wsl_text(text),
{
    assert(text.update(0, ascii_lower(text[0])).skip(1) =~= text.skip(1));
}

proof fn lemma_without_colons(text: Seq<char>)
    ensures
        forall|c: char| without_colons(text).contains(c) ==> text.contains(c),
    decreases text.len(),
{
    if text.len() > 0 && text[0] == ':' {
        lemma_without_colons(text.drop_first());
        assert forall|c: char| without_colons(text).contains(c) implies text.contains(c) by {
            let rest = text.drop_first();
            assert(rest.contains(c));
            let i = choose|i: int| 0 <= i < rest.len() && rest[i] == c;
            assert(text[i + 1] == c);
        }
    }
}

/// No backslash is left, unless the path starts with one.
pub proof fn law_no_backslash(text: Seq<char>)
    requires
        text.len() > 0,
        text[0] != '\\',
    ensures
        !wsl_text(text).contains('\\'),
{
    reveal_strlit("/mnt/");
    let head = "/mnt/"@.push(ascii_lower(text[0]));
    let tail = slashed(text.skip(1));
    lemma_without_colons(tail);
    assert(!tail.contains('\\'));
    assert forall|i: int| 0 <= i < wsl_text(text).len() implies wsl_text(text)[i] != '\\' by {
        if i >= head.len() {
            let kept = without_colons(tail);
            assert(kept.contains(kept[i - head.len()]));
        }
    }
}

} // verus!
