//! External thumbnailers: turning a thumbnailer's `Exec` line into the
//! command that makes one thumbnail.

use vstd::prelude::*;
use vstd::string::*;
use crate::exec::{shlex_split, shlex_words};
use crate::mime_app::ExecCommand;
use crate::operation::strs_view;
use crate::text::{decimal, u64_to_decimal, push_char};

verus! {

/// A thumbnailer and the `Exec` line that runs it.
#[derive(Clone, Debug)]
pub struct Thumbnailer {
    pub exec_line: String,
}

/// An argument with its field codes replaced: `%i` and `%u` by the input,
/// `%o` by the output, `%s` by the size, `%%` by a percent sign; a percent
/// sign at the very end is dropped; any other code makes the argument
/// unusable.
pub open spec fn expand_codes(arg: Seq<char>, input: Seq<char>, output: Seq<char>, size: Seq<char>) -> Option<Seq<char>>
    decreases arg.len(),
{
    if arg.len() == 0 {
        Some(seq![])
    } else if arg[0] != '%' {
        match expand_codes(arg.subrange(1, arg.len() as int), input, output, size) {
            Some(r) => Some(seq![arg[0]] + r),
            None => None,
        }
    } else if arg.len() == 1 {
        Some(seq![])
    } else {
        let c = arg[1];
        let sub: Option<Seq<char>> = if c == '%' {
            Some(seq!['%'])
        } else if c == 'i' || c == 'u' {
            Some(input)
        } else if c == 'o' {
            Some(output)
        } else if c == 's' {
            Some(size)
        } else {
            None
        };
        match (sub, expand_codes(arg.subrange(2, arg.len() as int), input, output, size)) {
            (Some(s), Some(r)) => Some(s + r),
            _ => None,
        }
    }
}

/// Every argument expanded, or none where one cannot be.
pub open spec fn expand_all(args: Seq<Seq<char>>, input: Seq<char>, output: Seq<char>, size: Seq<char>) -> Option<Seq<Seq<char>>>
    decreases args.len(),
{
    if args.len() == 0 {
        Some(seq![])
    } else {
        match (expand_all(args.drop_last(), input, output, size), expand_codes(args.last(), input, output, size)) {
            (Some(a), Some(b)) => Some(a.push(b)),
            _ => None,
        }
    }
}

/// The command that makes a thumbnail of `input` into `output` at `size`
/// pixels, from an `Exec` line: its first word is the program.
pub open spec fn spec_thumbnailer_command(exec: Seq<char>, input: Seq<char>, output: Seq<char>, size: u32) -> Option<(Seq<char>, Seq<Seq<char>>)> {
    match shlex_words(exec) {
        None => None,
        Some(words) => if words.len() == 0 {
            None
        } else {
            match expand_all(words.subrange(1, words.len() as int), input, output, decimal(size as nat)) {
                Some(args) => Some((words[0], args)),
                None => None,
            }
        },
    }
}

/// Expands the field codes of one argument.
pub fn expand_arg(arg: &str, input: &str, output: &str, size: &str) -> (r: Option<String>)
    ensures
        match expand_codes(arg@, input@, output@, size@) {
            Some(e) => r matches Some(s) && s@ == e,
            None => r is None,
        },
{
    let n = arg.unicode_len();
    let mut out = String::new();
    let mut i: usize = 0;
    proof {
        assert(arg@.subrange(0, n as int) =~= arg@);
        match expand_codes(arg@, input@, output@, size@) {
            Some(e) => {
                assert(out@ + e =~= e);
            },
            None => {},
        }
    }
    while i < n
        invariant
            n == arg@.len(),
            i <= n,
            match expand_codes(arg@.subrange(i as int, n as int), input@, output@, size@) {
                Some(rest) => expand_codes(arg@, input@, output@, size@) == Some(out@ + rest),
                None => expand_codes(arg@, input@, output@, size@) is None,
            },
        decreases n - i,
    {
        let ghost tail = arg@.subrange(i as int, n as int);
        let c = arg.get_char(i);
        assert(tail[0] == c);
        if c != '%' {
            assert(tail.subrange(1, tail.len() as int) =~= arg@.subrange(i + 1, n as int));
            let ghost before = out@;
            push_char(&mut out, c);
            proof {
                match expand_codes(arg@.subrange(i + 1, n as int), input@, output@, size@) {
                    Some(rest) => {
                        assert(before + (seq![c] + rest) =~= out@ + rest);
                    },
                    None => {},
                }
            }
            i = i + 1;
        } else if i + 1 == n {
            assert(tail.len() == 1);
            assert(arg@.subrange(n as int, n as int) =~= seq![]);
            assert(out@ + seq![] =~= out@);
            i = i + 1;
        } else {
            let d = arg.get_char(i + 1);
            assert(tail[1] == d);
            assert(tail.subrange(2, tail.len() as int) =~= arg@.subrange(i + 2, n as int));
            let ghost before = out@;
            if d == '%' {
                push_char(&mut out, '%');
                assert(out@ =~= before + seq!['%']);
            } else if d == 'i' || d == 'u' {
                out.append(input);
            } else if d == 'o' {
                out.append(output);
            } else if d == 's' {
                out.append(size);
            } else {
                return None;
            }
            proof {
                match expand_codes(arg@.subrange(i + 2, n as int), input@, output@, size@) {
                    Some(rest) => {
                        assert(before + (out@.subrange(before.len() as int, out@.len() as int) + rest) =~= out@ + rest);
                        assert(out@.subrange(before.len() as int, out@.len() as int) =~= out@.subrange(
                            before.len() as int,
                            out@.len() as int,
                        ));
                    },
                    None => {},
                }
            }
            i = i + 2;
        }
    }
    assert(arg@.subrange(n as int, n as int) =~= seq![]);
    assert(out@ + seq![] =~= out@);
    Some(out)
}

impl Thumbnailer {
    /// The command that makes a thumbnail of `input` into `output` at
    /// `thumbnail_size` pixels; none where the `Exec` line cannot be used.
    pub fn command(&self, input: &str, output: &str, thumbnail_size: u32) -> (r: Option<ExecCommand>)
        ensures
            match spec_thumbnailer_command(self.exec_line@, input@, output@, thumbnail_size) {
                Some((p, a)) => r matches Some(c) && c.program@ == p && strs_view(c.args@) == a,
                None => r is None,
            },
    {
        let words = match shlex_split(self.exec_line.as_str()) {
            Some(w) => w,
            None => return None,
        };
        if words.len() == 0 {
            return None;
        }
        let ghost wv = strs_view(words@);
        let size = u64_to_decimal(thumbnail_size as u64);
        let mut args: Vec<String> = Vec::new();
        let mut i: usize = 1;
        while i < words.len()
            invariant
                1 <= i <= words@.len(),
                wv == strs_view(words@),
                shlex_words(self.exec_line@) == Some(wv),
                wv.len() == words@.len(),
                size@ == decimal(thumbnail_size as nat),
                expand_all(wv.subrange(1, i as int), input@, output@, size@) == Some(strs_view(args@)),
            decreases words@.len() - i,
        {
            assert(wv.subrange(1, i + 1).drop_last() =~= wv.subrange(1, i as int));
            assert(wv.subrange(1, i + 1).last() == words@[i as int]@);
            match expand_arg(words[i].as_str(), input, output, size.as_str()) {
                Some(e) => {
                    let ghost prev = strs_view(args@);
                    args.push(e);
                    assert(strs_view(args@) =~= prev.push(e@));
                },
                None => {
                    proof {
                        lemma_expand_all_fails(wv, 1, i as int, words.len() as int, input@, output@, size@);
                    }
                    return None;
                },
            }
            i = i + 1;
        }
        assert(wv.subrange(1, 1) =~= seq![]) by {
        }
        Some(ExecCommand { program: words[0].clone(), args })
    }
}

/// Once one argument cannot be expanded, no longer list of them can be.
proof fn lemma_expand_all_fails(
    wv: Seq<Seq<char>>,
    lo: int,
    i: int,
    hi: int,
    input: Seq<char>,
    output: Seq<char>,
    size: Seq<char>,
)
    requires
        0 <= lo <= i < hi <= wv.len(),
        expand_codes(wv[i], input, output, size) is None,
    ensures
        expand_all(wv.subrange(lo, hi), input, output, size) is None,
    decreases hi - i,
{
    if hi == i + 1 {
        assert(wv.subrange(lo, hi).last() == wv[i]);
    } else {
        lemma_expand_all_fails(wv, lo, i, hi - 1, input, output, size);
        assert(wv.subrange(lo, hi).drop_last() =~= wv.subrange(lo, hi - 1));
    }
}

} // verus!
