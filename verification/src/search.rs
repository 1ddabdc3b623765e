//! The name search: which cards hold a text in their name.
//!
//! The store does the matching. What is built here is the pattern handed
//! to it: the text as it stands, free to occur anywhere in the name. The
//! store compares without regard to case.

use crate::text::chars_of;
use vstd::prelude::*;

verus! {

/// The statement that selects the cards whose name matches a pattern. Its
/// one placeholder takes the pattern; a backslash in the pattern escapes
/// the character after it.
pub const SEARCH_SQL: &'static str = "select distinct * from card where name like ? escape '\\'";

/// Whether a character has a meaning of its own in a pattern: the two
/// wildcards and the escape character.
pub open spec fn is_special(c: char) -> bool {
    c == '%' || c == '_' || c == '\\'
}

/// A text with every special character escaped, so that the text matches
/// itself and nothing else.
pub open spec fn escaped(text: Seq<char>) -> Seq<char>
    decreases text.len(),
{
    if text.len() == 0 {
        seq![]
    } else if is_special(text.last()) {
        escaped(text.drop_last()).push('\\').push(text.last())
    } else {
        escaped(text.drop_last()).push(text.last())
    }
}

/// The pattern that matches the names that hold a text: any run of
/// characters, the text itself, any run of characters.
pub open spec fn containing(text: Seq<char>) -> Seq<char> {
    seq!['%'] + escaped(text) + seq!['%']
}

/// Escaping goes run by run: a text that ends in a run without special
/// characters is escaped as what stands before the run, and the run as it
/// is.
proof fn lemma_escaped_plain_run(text: Seq<char>, from: int, to: int)
    requires
        0 <= from <= to <= text.len(),
        forall|k: int| from <= k < to ==> !is_special(text[k]),
    ensures
        escaped(text.take(to)) == escaped(text.take(from)) + text.subrange(from, to),
    decreases to - from,
{
    if from == to {
        assert(escaped(text.take(from)) + text.subrange(from, to) =~= escaped(text.take(from)));
    } else {
        lemma_escaped_plain_run(text, from, to - 1);
        assert(text.take(to).drop_last() =~= text.take(to - 1));
        assert(text.take(to).last() == text[to - 1]);
        assert(escaped(text.take(from)) + text.subrange(from, to) =~= (escaped(text.take(from))
            + text.subrange(from, to - 1)).push(text[to - 1]));
    }
}

/// Builds the pattern that matches the names that hold a text.
pub fn like_pattern(text: &str) -> (pattern: String)
    ensures
        pattern@ == containing(text@),
{
    proof {
        reveal_strlit("%");
        reveal_strlit("\\");
    }
    let chars = chars_of(text);
    let n = chars.len();
    let mut pattern = String::new();
    pattern.append("%");
    assert(pattern@ =~= seq!['%'] + escaped(text@.take(0)));
    let mut done: usize = 0;
    while done < n
        invariant
            chars@ == text@,
            n == chars.len(),
            done <= n,
            pattern@ == seq!['%'] + escaped(text@.take(done as int)),
            "\\"@ == seq!['\\'],
        decreases n - done,
    {
        let mut end: usize = done;
        while end < n && !(chars[end] == '%' || chars[end] == '_' || chars[end] == '\\')
            invariant
                chars@ == text@,
                n == chars.len(),
                done <= end <= n,
                forall|k: int| done <= k < end ==> !is_special(text@[k]),
            decreases n - end,
        {
            end += 1;
        }
        proof {
            lemma_escaped_plain_run(text@, done as int, end as int);
        }
        if done < end {
            pattern.append(text.substring_char(done, end));
        }
        assert(pattern@ =~= seq!['%'] + escaped(text@.take(end as int)));
        if end < n {
            pattern.append("\\");
            pattern.append(text.substring_char(end, end + 1));
            proof {
                assert(text@.take(end + 1).drop_last() =~= text@.take(end as int));
                assert(text@.take(end + 1).last() == text@[end as int]);
                assert(text@.subrange(end as int, end + 1) =~= seq![text@[end as int]]);
                assert(pattern@ =~= seq!['%'] + escaped(text@.take(end + 1)));
            }
            done = end + 1;
        } else {
            done = end;
        }
    }
    assert(text@.take(n as int) =~= text@);
    pattern.append("%");
    assert(pattern@ =~= containing(text@));
    pattern
}

} // verus!
