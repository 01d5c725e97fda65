//! What annotated functions say of themselves: their doc comments and their markers.

use crate::text;
use crate::text::{chars_of, concat3, join, text_of, trim};
use vstd::prelude::*;
use vstd::string::*;

verus! {

/// A line of a doc comment without the space that follows the slashes.
pub open spec fn doc_line(raw: Seq<char>) -> Seq<char> {
    if raw.len() > 0 && raw[0] == ' ' {
        raw.drop_first()
    } else {
        raw
    }
}

/// The text of a doc comment: its lines, joined and trimmed. There is none without lines.
pub open spec fn doc_comment(raw: Seq<Seq<char>>) -> Option<Seq<char>> {
    if raw.len() == 0 {
        None
    } else {
        Some(text::trimmed(text::join_lines(raw.map_values(|l: Seq<char>| doc_line(l)))))
    }
}

/// The text of a doc comment, from its lines as they stand behind the slashes.
pub fn doc_text(raw: &Vec<String>) -> (r: Option<String>)
    ensures
        r.deep_view() == doc_comment(raw.deep_view()),
{
    if raw.len() == 0 {
        return None;
    }
    let ghost want = raw.deep_view().map_values(|l: Seq<char>| doc_line(l));
    let mut lines: Vec<String> = Vec::new();
    let mut i: usize = 0;
    while i < raw.len()
        invariant
            i <= raw@.len(),
            lines@.len() == i,
            want == raw.deep_view().map_values(|l: Seq<char>| doc_line(l)),
            forall|j: int| 0 <= j < i ==> (#[trigger] lines@[j])@ == want[j],
        decreases raw@.len() - i,
    {
        let chars = chars_of(raw[i].as_str());
        let from: usize = if chars.len() > 0 && chars[0] == ' ' {
            1
        } else {
            0
        };
        let line = text_of(&chars, from, chars.len());
        assert(raw.deep_view()[i as int] == raw@[i as int]@);
        assert(line@ =~= want[i as int]);
        lines.push(line);
        i = i + 1;
    }
    assert(lines.deep_view() =~= want);
    Some(trim(join(&lines).as_str()))
}

/// The name of the constant that marks a hook function.
pub fn hook_marker(function: &str) -> (r: String)
    ensures
        r@ == "__"@ + function@ + "_HOOK_MARKER"@,
{
    concat3("__", function, "_HOOK_MARKER")
}

/// What is wrong with a function that is annotated as a hook: it has to be asynchronous.
pub fn hook_fault(is_async: bool) -> (r: Option<String>)
    ensures
        is_async ==> r is None,
        !is_async ==> r.deep_view() == Some("#[hook] requires an `async fn`"@),
{
    if is_async {
        None
    } else {
        Some("#[hook] requires an `async fn`".to_owned())
    }
}

/// A line as it stands behind the slashes, with or without a space before it.
pub open spec fn behind_slashes(line: Seq<char>, space: bool) -> Seq<char> {
    if space {
        seq![' '] + line
    } else {
        line
    }
}

/// The text of a doc comment is that of its lines, whether or not a space follows the slashes; only
/// the white space around the whole is lost.
pub proof fn law_doc_text(lines: Seq<Seq<char>>, spaces: Seq<bool>)
    requires
        lines.len() > 0,
        spaces.len() == lines.len(),
        forall|i: int|
            0 <= i < lines.len() && !spaces[i] && (#[trigger] lines[i]).len() > 0 ==> lines[i][0]
                != ' ',
    ensures
        doc_comment(
            Seq::new(lines.len(), |i: int| behind_slashes(lines[i], spaces[i])),
        ) == Some(text::trimmed(text::join_lines(lines))),
{
    let raw = Seq::new(lines.len(), |i: int| behind_slashes(lines[i], spaces[i]));
    assert forall|i: int| 0 <= i < lines.len() implies doc_line(raw[i]) == #[trigger] lines[i] by {
        if spaces[i] {
            assert(raw[i].drop_first() =~= lines[i]);
        }
    }
    assert(raw.map_values(|l: Seq<char>| doc_line(l)) =~= lines);
}

} // verus!
