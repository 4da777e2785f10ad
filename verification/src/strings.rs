//! Executable text splitting, held to the mathematical `split_lines`.

use vstd::prelude::*;
use vstd::string::StrSliceExecFns;
use vstd::string::StringExecFns;

use crate::textspec::has_newline;
use crate::textspec::lemma_split_lines_flat_text;
use crate::textspec::lemma_split_lines_len;
use crate::textspec::lemma_split_lines_prefix;
use crate::textspec::split_lines;

verus! {

/// Split a text block into its lines at every `'\n'`, as `split_lines`
/// describes: the empty text is one empty line, and every line break
/// ends a line.
pub fn split_text_lines(text: &str) -> (lines: Vec<String>)
    ensures
        lines@.map_values(|l: String| l@) == split_lines(text@),
{
    let n = text.unicode_len();
    let mut lines: Vec<String> = Vec::new();
    let mut start: usize = 0;
    let mut i: usize = 0;
    proof {
        assert(text@.subrange(0, n as int) =~= text@);
        assert(lines@.map_values(|l: String| l@) =~~= Seq::<Seq<char>>::empty());
        assert(Seq::<Seq<char>>::empty() + split_lines(text@) =~~= split_lines(text@));
    }
    while i < n
        invariant
            n == text@.len(),
            start <= i <= n,
            !has_newline(text@.subrange(start as int, i as int)),
            split_lines(text@) == lines@.map_values(|l: String| l@) + split_lines(
                text@.subrange(start as int, n as int),
            ),
        decreases n - i,
    {
        if text.get_char(i) == '\n' {
            let line = String::from_str(text.substring_char(start, i));
            lines.push(line);
            proof {
                let a = text@.subrange(start as int, i as int);
                let tail = text@.subrange(i + 1 as int, n as int);
                let b = seq!['\n'] + tail;
                assert(text@.subrange(start as int, n as int) =~= a + b);
                lemma_split_lines_prefix(a, b);
                assert(b[0] == '\n');
                assert(b.drop_first() =~= tail);
                assert(split_lines(b) == seq![Seq::<char>::empty()] + split_lines(tail));
                assert(split_lines(b)[0] =~= Seq::<char>::empty());
                assert(a + split_lines(b)[0] =~= a);
                assert(split_lines(b).drop_first() =~~= split_lines(tail));
                assert(split_lines(a + b) =~~= seq![a] + split_lines(tail));
                let mapped = lines@.map_values(|l: String| l@);
                assert(mapped =~~= mapped.drop_last().push(a));
                assert(mapped.drop_last() + (seq![a] + split_lines(tail)) =~~= mapped + split_lines(
                    tail,
                ));
                assert(!has_newline(text@.subrange(i + 1 as int, (i + 1) as int)));
            }
            start = i + 1;
        } else {
            proof {
                let a = text@.subrange(start as int, i as int);
                let a2 = text@.subrange(start as int, i + 1 as int);
                assert(a2 =~= a.push(text@[i as int]));
                assert forall|k: int| 0 <= k < a2.len() implies a2[k] != '\n' by {
                    if k < a.len() {
                        assert(a2[k] == a[k]);
                    }
                }
            }
        }
        i += 1;
    }
    let last = String::from_str(text.substring_char(start, n));
    lines.push(last);
    proof {
        let a = text@.subrange(start as int, n as int);
        lemma_split_lines_flat_text(a);
        let mapped = lines@.map_values(|l: String| l@);
        assert(mapped =~~= mapped.drop_last().push(a));
        assert(mapped.drop_last() + seq![a] =~~= mapped);
        assert(lines@.map_values(|l: String| l@) =~~= split_lines(text@));
    }
    lines
}

} // verus!
