//! Which items of a folder are hidden: dot files, and the names that the
//! folder's `.hidden` file lists, one per line.

use vstd::prelude::*;
use crate::text::{str_equal, trim, trim_chars};
use crate::tab_state::Item;

verus! {

/// The text cut at each line feed (the pieces hold no line feed; a text
/// ending in a line feed ends with an empty piece).
pub open spec fn split_lines(s: Seq<char>) -> Seq<Seq<char>>
    decreases s.len(),
{
    if s.len() == 0 {
        seq![seq![]]
    } else {
        let p = split_lines(s.drop_last());
        if s.last() == '\n' {
            p.push(seq![])
        } else {
            p.update(p.len() - 1, p.last().push(s.last()))
        }
    }
}

/// The lines, trimmed, that are not empty once trimmed.
pub open spec fn kept_lines(lines: Seq<Seq<char>>) -> Seq<Seq<char>>
    decreases lines.len(),
{
    if lines.len() == 0 {
        seq![]
    } else {
        let rest = kept_lines(lines.drop_last());
        let t = trim(lines.last());
        if t.len() > 0 {
            rest.push(t)
        } else {
            rest
        }
    }
}

/// The names that a `.hidden` file lists: its lines, trimmed, but the empty
/// ones. (A carriage return before a line feed is white space, so it is
/// trimmed too.)
pub open spec fn hidden_names(contents: Seq<char>) -> Seq<Seq<char>> {
    kept_lines(split_lines(contents))
}

/// The names that the `.hidden` file with `contents` lists.
pub fn parse_hidden_file(contents: &str) -> (r: Vec<String>)
    ensures
        r@.map_values(|s: String| s@) == hidden_names(contents@),
{
    let n = contents.unicode_len();
    let mut out: Vec<String> = Vec::new();
    let mut cur: Vec<char> = Vec::new();
    let ghost mut done: Seq<Seq<char>> = seq![];
    let mut i: usize = 0;
    while i < n
        invariant
            n == contents@.len(),
            i <= n,
            split_lines(contents@.take(i as int)) == done.push(cur@),
            out@.map_values(|s: String| s@) == kept_lines(done),
        decreases n - i,
    {
        let c = contents.get_char(i);
        assert(contents@.take(i as int + 1).drop_last() =~= contents@.take(i as int));
        assert(contents@.take(i as int + 1).last() == c);
        if c == '\n' {
            let t = trim_chars(&cur);
            proof {
                assert(kept_lines(done.push(cur@)).len() >= 0);
                assert(done.push(cur@).drop_last() =~= done);
            }
            if t.unicode_len() > 0 {
                let ghost before = out@;
                out.push(t);
                assert(out@.map_values(|s: String| s@) =~= before.map_values(|s: String| s@).push(trim(cur@)));
            }
            proof {
                done = done.push(cur@);
            }
            cur = Vec::new();
            assert(done.push(cur@) =~= split_lines(contents@.take(i as int)).push(seq![]));
        } else {
            let ghost old_cur = cur@;
            cur.push(c);
            assert(done.push(cur@) =~= done.push(old_cur).update(done.len() as int, old_cur.push(c)));
        }
        i = i + 1;
    }
    assert(contents@.take(n as int) =~= contents@);
    let t = trim_chars(&cur);
    proof {
        assert(done.push(cur@).drop_last() =~= done);
    }
    if t.unicode_len() > 0 {
        let ghost before = out@;
        out.push(t);
        assert(out@.map_values(|s: String| s@) =~= before.map_values(|s: String| s@).push(trim(cur@)));
    }
    out
}

/// Whether a name is among `names`.
pub open spec fn name_listed(names: Seq<String>, name: Seq<char>) -> bool {
    exists|j: int| 0 <= j < names.len() && (#[trigger] names[j])@ == name
}

/// Marks hidden the items whose name the `.hidden` file lists; other items
/// keep their mark.
pub fn mark_hidden(items: &mut Vec<Item>, hidden_files: &Vec<String>)
    ensures
        final(items)@.len() == old(items)@.len(),
        forall|i: int|
            0 <= i < final(items)@.len() ==> #[trigger] final(items)@[i] == (Item {
                hidden: old(items)@[i].hidden || name_listed(hidden_files@, old(items)@[i].name@),
                ..old(items)@[i]
            }),
{
    let ghost before = items@;
    let mut i: usize = 0;
    while i < items.len()
        invariant
            i <= items@.len(),
            items@.len() == before.len(),
            forall|k: int| i <= k < items@.len() ==> #[trigger] items@[k] == before[k],
            forall|k: int|
                0 <= k < i ==> #[trigger] items@[k] == (Item {
                    hidden: before[k].hidden || name_listed(hidden_files@, before[k].name@),
                    ..before[k]
                }),
        decreases items@.len() - i,
    {
        let mut listed = false;
        let mut j: usize = 0;
        while j < hidden_files.len()
            invariant
                i < items@.len(),
                j <= hidden_files@.len(),
                listed == exists|x: int| 0 <= x < j && (#[trigger] hidden_files@[x])@ == items@[i as int].name@,
            decreases hidden_files@.len() - j,
        {
            if str_equal(items[i].name.as_str(), hidden_files[j].as_str()) {
                listed = true;
            }
            j = j + 1;
        }
        if listed {
            items[i].hidden = true;
        }
        i = i + 1;
    }
}

/// Whether an entry is hidden by its own name (a dot file) or by the file
/// system's hidden attribute.
pub fn hidden_by_name(name: &str, hidden_attribute: bool) -> (r: bool)
    ensures
        r == ((name@.len() > 0 && name@[0] == '.') || hidden_attribute),
{
    let dot = crate::text::starts_with(name, ".");
    proof {
        reveal_strlit(".");
        if name@.len() > 0 && name@[0] == '.' {
            assert(name@.subrange(0, 1) =~= "."@);
        }
        if dot {
            assert(name@.subrange(0, 1)[0] == "."@[0]);
        }
    }
    dot || hidden_attribute
}

} // verus!
