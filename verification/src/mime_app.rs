//! Applications that open files: turning an application's `Exec` line and
//! the files to open into the commands to run.

use vstd::prelude::*;
use crate::exec::{shlex_split, shlex_words, clone_strs};
use crate::operation::strs_view;
use crate::paths::{file_name, path_file_name};
use crate::text::{has_prefix, starts_with, str_equal, copy_str};
use crate::column_sort::{SortKey, sorted_listing, stable_sort_indices};

verus! {

/// A program to run and its arguments.
#[derive(Clone, Debug)]
pub struct ExecCommand {
    pub program: String,
    pub args: Vec<String>,
}

/// The program and arguments of a command, as text.
pub open spec fn command_view(c: ExecCommand) -> (Seq<char>, Seq<Seq<char>>) {
    (c.program@, strs_view(c.args@))
}

/// Whether `a` is a field code that takes the files to open.
pub open spec fn is_exec_handler(a: Seq<char>) -> bool {
    a == "%f"@ || a == "%F"@ || a == "%u"@ || a == "%U"@
}

/// Whether `a` is a deprecated field code, which is dropped.
pub open spec fn is_deprecated_handler(a: Seq<char>) -> bool {
    a == "%d"@ || a == "%D"@ || a == "%n"@ || a == "%N"@ || a == "%v"@ || a == "%m"@
}

/// The first argument from `i` on that takes the files to open.
pub open spec fn first_handler(args: Seq<Seq<char>>, i: int) -> Option<int>
    decreases args.len() - i,
{
    if i < 0 || i >= args.len() {
        None
    } else if is_exec_handler(args[i]) {
        Some(i)
    } else {
        first_handler(args, i + 1)
    }
}

/// Whether an argument is a field code.
pub open spec fn is_code(a: Seq<char>) -> bool {
    has_prefix(a, seq!['%'])
}

/// The commands that an `Exec` line starts for the files `paths`. The
/// arguments before the first file field code are kept; `%f` and `%u` start
/// one command per file, `%F` and `%U` one command with all files; then the
/// arguments after the field code that are not field codes follow. A line
/// that does not split into words, or holds an unknown field code after the
/// first file field code, starts nothing.
pub open spec fn spec_exec_commands(exec: Seq<char>, paths: Seq<Seq<char>>) -> Option<Seq<(Seq<char>, Seq<Seq<char>>)>> {
    match shlex_words(exec) {
        None => None,
        Some(words) => spec_word_commands(words, paths),
    }
}

/// The commands that the words of an `Exec` line (the program, then its
/// arguments) start for the files `paths`, as [`spec_exec_commands`]
/// describes; none for no words.
pub open spec fn spec_word_commands(words: Seq<Seq<char>>, paths: Seq<Seq<char>>) -> Option<
    Seq<(Seq<char>, Seq<Seq<char>>)>,
> {
    if words.len() == 0 {
            None
        } else {
            let program = words[0];
            let args = words.subrange(1, words.len() as int);
            let pos = first_handler(args, 0);
            let start = match pos {
                Some(p) => p,
                None => 0,
            };
            if exists|i: int|
                start <= i < args.len() && is_code(#[trigger] args[i]) && !is_exec_handler(args[i])
                    && !is_deprecated_handler(args[i]) {
                None
            } else {
                let trail = args.subrange(start, args.len() as int).filter(|a: Seq<char>| !is_code(a));
                let lead = args.subrange(0, start);
                Some(match pos {
                    Some(p) => if args[p] == "%f"@ || args[p] == "%u"@ {
                        Seq::new(paths.len(), |i: int| (program, lead.push(paths[i]) + trail))
                    } else {
                        seq![(program, lead + paths + trail)]
                    },
                    None => seq![(program, trail)],
                })
            }
        }
}

fn is_handler(a: &str) -> (r: bool)
    ensures
        r == is_exec_handler(a@),
{
    str_equal(a, "%f") || str_equal(a, "%F") || str_equal(a, "%u") || str_equal(a, "%U")
}

fn is_deprecated(a: &str) -> (r: bool)
    ensures
        r == is_deprecated_handler(a@),
{
    str_equal(a, "%d") || str_equal(a, "%D") || str_equal(a, "%n") || str_equal(a, "%N") || str_equal(
        a,
        "%v",
    ) || str_equal(a, "%m")
}

fn append_strs(v: &mut Vec<String>, more: &Vec<String>)
    ensures
        strs_view(final(v)@) == strs_view(old(v)@) + strs_view(more@),
{
    let ghost start = strs_view(v@);
    let mut i: usize = 0;
    while i < more.len()
        invariant
            i <= more@.len(),
            strs_view(v@) == start + strs_view(more@).subrange(0, i as int),
        decreases more@.len() - i,
    {
        let ghost prev = strs_view(v@);
        v.push(more[i].clone());
        assert(strs_view(more@)[i as int] == more@[i as int]@);
        assert(strs_view(v@) =~= prev.push(more@[i as int]@));
        assert(strs_view(v@) =~= start + strs_view(more@).subrange(0, i + 1));
        i = i + 1;
    }
    assert(strs_view(more@).subrange(0, more@.len() as int) =~= strs_view(more@));
}

fn find_handler(args: &Vec<String>) -> (r: Option<usize>)
    ensures
        r matches Some(i) ==> first_handler(strs_view(args@), 0) == Some(i as int) && i < args@.len(),
        r is None ==> first_handler(strs_view(args@), 0) is None,
{
    let ghost argv = strs_view(args@);
    let mut j: usize = 0;
    while j < args.len()
        invariant
            j <= args@.len(),
            argv == strs_view(args@),
            first_handler(argv, 0) == first_handler(argv, j as int),
        decreases args@.len() - j,
    {
        assert(argv[j as int] == args@[j as int]@);
        if is_handler(args[j].as_str()) {
            return Some(j);
        }
        j = j + 1;
    }
    None
}

/// Turns an application's `Exec` line and the files (paths or URLs) to open
/// into the commands to run; `None` where the line cannot be used.
pub fn exec_to_command(exec: &str, paths: &Vec<String>) -> (r: Option<Vec<ExecCommand>>)
    ensures
        match spec_exec_commands(exec@, strs_view(paths@)) {
            None => r is None,
            Some(cmds) => r matches Some(v) && v@.map_values(|c: ExecCommand| command_view(c)) == cmds,
        },
{
    match shlex_split(exec) {
        Some(words) => words_to_command(&words, paths),
        None => None,
    }
}

/// Turns the words of an `Exec` line (the program, then its arguments) and
/// the files to open into the commands to run (see [`spec_word_commands`]);
/// `None` for no words or an unknown field code after the first file field
/// code.
pub fn words_to_command(words: &Vec<String>, paths: &Vec<String>) -> (r: Option<Vec<ExecCommand>>)
    ensures
        match spec_word_commands(strs_view(words@), strs_view(paths@)) {
            None => r is None,
            Some(cmds) => r matches Some(v) && v@.map_values(|c: ExecCommand| command_view(c)) == cmds,
        },
{
    if words.len() == 0 {
        return None;
    }
    let ghost wv = strs_view(words@);
    let ghost argv = wv.subrange(1, wv.len() as int);
    let program = words[0].clone();
    // The arguments after the program.
    let mut args: Vec<String> = Vec::new();
    let mut i: usize = 1;
    while i < words.len()
        invariant
            1 <= i <= words@.len(),
            wv == strs_view(words@),
            strs_view(args@) == wv.subrange(1, i as int),
        decreases words@.len() - i,
    {
        let ghost prev = strs_view(args@);
        args.push(words[i].clone());
        assert(wv[i as int] == words@[i as int]@);
        assert(strs_view(args@) =~= prev.push(words@[i as int]@));
        assert(strs_view(args@) =~= wv.subrange(1, i + 1));
        i = i + 1;
    }
    assert(strs_view(args@) == argv);
    // The first file field code.
    let pos = find_handler(&args);
    let start: usize = match pos {
        Some(p) => p,
        None => 0,
    };
    // The arguments after the field code that are not field codes.
    let ghost keep = |a: Seq<char>| !is_code(a);
    let mut trail: Vec<String> = Vec::new();
    let mut k: usize = start;
    assert(start <= args@.len());
    assert(strs_view(trail@) =~= seq![]);
    assert(argv.subrange(start as int, start as int) =~= seq![]);
    assert(seq![].filter(keep) =~= Seq::<Seq<char>>::empty()) by {
        reveal(Seq::filter);
    }
    while k < args.len()
        invariant
            start <= k <= args@.len(),
            wv == strs_view(words@),
            wv.len() > 0,
            argv == wv.subrange(1, wv.len() as int),
            start as int == match first_handler(argv, 0) {
                Some(p) => p,
                None => 0,
            },
            strs_view(args@) == argv,
            keep == (|a: Seq<char>| !is_code(a)),
            strs_view(trail@) == argv.subrange(start as int, k as int).filter(keep),
            forall|i: int|
                start <= i < k ==> !(is_code(#[trigger] argv[i]) && !is_exec_handler(argv[i])
                    && !is_deprecated_handler(argv[i])),
        decreases args@.len() - k,
    {
        let a = args[k].as_str();
        proof {
            assert(argv[k as int] == a@);
            assert(argv.subrange(start as int, k + 1) =~= argv.subrange(start as int, k as int).push(
                argv[k as int],
            ));
            argv.subrange(start as int, k as int).lemma_filter_push(argv[k as int], keep);
        }
        let ghost before = strs_view(trail@);
        proof {
            reveal_strlit("%");
            assert("%"@ =~= seq!['%']);
        }
        if starts_with(a, "%") {
            if !is_handler(a) && !is_deprecated(a) {
                assert(is_code(argv[k as int]) && !is_exec_handler(argv[k as int]) && !is_deprecated_handler(argv[k as int]));
                return None;
            }
            assert(!keep(argv[k as int]));
        } else {
            assert(keep(argv[k as int]));
            trail.push(args[k].clone());
            assert(strs_view(trail@) =~= before.push(argv[k as int]));
        }
        k = k + 1;
    }
    let ghost trail_v = argv.subrange(start as int, argv.len() as int).filter(keep);
    assert(strs_view(trail@) == trail_v);
    // The arguments before the field code.
    let mut lead: Vec<String> = Vec::new();
    let mut m: usize = 0;
    while m < start
        invariant
            m <= start <= args@.len(),
            strs_view(args@) == argv,
            strs_view(lead@) == argv.subrange(0, m as int),
        decreases start - m,
    {
        let ghost prev = strs_view(lead@);
        lead.push(args[m].clone());
        assert(argv[m as int] == args@[m as int]@);
        assert(strs_view(lead@) =~= prev.push(args@[m as int]@));
        assert(strs_view(lead@) =~= argv.subrange(0, m + 1));
        m = m + 1;
    }
    let ghost lead_v = argv.subrange(0, start as int);
    let ghost pv = strs_view(paths@);
    let per_file = match pos {
        Some(p) => str_equal(args[p].as_str(), "%f") || str_equal(args[p].as_str(), "%u"),
        None => false,
    };
    let mut out: Vec<ExecCommand> = Vec::new();
    if per_file {
        let mut q: usize = 0;
        while q < paths.len()
            invariant
                q <= paths@.len(),
                pv == strs_view(paths@),
                strs_view(lead@) == lead_v,
                strs_view(trail@) == trail_v,
                out@.len() == q,
                forall|x: int|
                    0 <= x < q ==> command_view(#[trigger] out@[x]) == (program@, lead_v.push(pv[x]) + trail_v),
            decreases paths@.len() - q,
        {
            let mut a = clone_strs(&lead);
            a.push(paths[q].clone());
            append_strs(&mut a, &trail);
            assert(strs_view(a@) =~= lead_v.push(pv[q as int]) + trail_v);
            out.push(ExecCommand { program: program.clone(), args: a });
            q = q + 1;
        }
        proof {
            let cmds = Seq::new(pv.len(), |x: int| (program@, lead_v.push(pv[x]) + trail_v));
            assert(out@.map_values(|c: ExecCommand| command_view(c)) =~= cmds);
        }
    } else {
        let mut a = clone_strs(&lead);
        if pos.is_some() {
            append_strs(&mut a, paths);
        }
        append_strs(&mut a, &trail);
        out.push(ExecCommand { program, args: a });
        proof {
            if pos is None {
                assert(lead_v =~= seq![]);
                assert(strs_view(a@) =~= trail_v);
            }
            assert(out@.map_values(|c: ExecCommand| command_view(c)) =~= seq![command_view(out@[0])]);
        }
    }
    Some(out)
}

/// An application that can open files.
#[derive(Clone, Debug)]
pub struct MimeApp {
    pub id: String,
    pub path: Option<String>,
    pub name: String,
    pub exec_line: Option<String>,
    pub is_default: bool,
    pub categories: Vec<String>,
    pub no_display: bool,
}

impl MimeApp {
    /// The commands that open `paths` with this application; none where it
    /// has no `Exec` line or the line cannot be used.
    pub fn command(&self, paths: &Vec<String>) -> (r: Option<Vec<ExecCommand>>)
        ensures
            match self.exec_line {
                None => r is None,
                Some(e) => match spec_exec_commands(e@, strs_view(paths@)) {
                    None => r is None,
                    Some(cmds) => r matches Some(v) && v@.map_values(|c: ExecCommand| command_view(c)) == cmds,
                },
            },
    {
        match &self.exec_line {
            Some(e) => exec_to_command(e.as_str(), paths),
            None => None,
        }
    }
}

/// Whether the desktop file at `path_opt` has the file name `filename`.
pub fn filename_eq(path_opt: &Option<String>, filename: &str) -> (r: bool)
    ensures
        r == (path_opt matches Some(p) && path_file_name(p@) == Some(filename@)),
{
    match path_opt {
        Some(p) => match file_name(p.as_str()) {
            Some(n) => str_equal(n.as_str(), filename),
            None => false,
        },
        None => false,
    }
}

/// Whether a desktop file path, if any, has the file name `filename`.
pub open spec fn spec_filename_eq(path_opt: Option<String>, filename: Seq<char>) -> bool {
    path_opt matches Some(p) && path_file_name(p@) == Some(filename)
}

/// `b` is a copy of `a`: the same fields, as text.
pub open spec fn same_app(a: MimeApp, b: MimeApp) -> bool {
    &&& b.id@ == a.id@
    &&& crate::paths::opt_view(b.path) == crate::paths::opt_view(a.path)
    &&& b.name@ == a.name@
    &&& crate::paths::opt_view(b.exec_line) == crate::paths::opt_view(a.exec_line)
    &&& b.is_default == a.is_default
    &&& strs_view(b.categories@) == strs_view(a.categories@)
    &&& b.no_display == a.no_display
}

fn copy_opt_str(o: &Option<String>) -> (r: Option<String>)
    ensures
        crate::paths::opt_view(r) == crate::paths::opt_view(*o),
{
    match o {
        Some(s) => Some(s.clone()),
        None => None,
    }
}

impl MimeApp {
    /// A copy of the application.
    pub fn duplicate(&self) -> (r: MimeApp)
        ensures
            same_app(*self, r),
    {
        MimeApp {
            id: self.id.clone(),
            path: copy_opt_str(&self.path),
            name: self.name.clone(),
            exec_line: copy_opt_str(&self.exec_line),
            is_default: self.is_default,
            categories: clone_strs(&self.categories),
            no_display: self.no_display,
        }
    }
}

/// Adds an application to the applications of a MIME type, unless one with
/// the same id is there already.
pub fn add_app_for_mime(list: &mut Vec<MimeApp>, app: MimeApp)
    ensures
        (exists|i: int| 0 <= i < old(list)@.len() && (#[trigger] old(list)@[i]).id@ == app.id@) ==> final(list)@
            == old(list)@,
        !(exists|i: int| 0 <= i < old(list)@.len() && (#[trigger] old(list)@[i]).id@ == app.id@) ==> final(list)@
            == old(list)@.push(app),
{
    let mut i: usize = 0;
    while i < list.len()
        invariant
            i <= list@.len(),
            forall|k: int| 0 <= k < i ==> (#[trigger] list@[k]).id@ != app.id@,
        decreases list@.len() - i,
    {
        if str_equal(list[i].id.as_str(), app.id.as_str()) {
            assert(list@[i as int].id@ == app.id@);
            return;
        }
        i = i + 1;
    }
    list.push(app);
}

/// Adds to the applications of a MIME type the application whose desktop
/// file is named `filename`, found among `all_apps` (the first such), unless
/// the list has one already; says whether it added one.
pub fn add_association(list: &mut Vec<MimeApp>, filename: &str, all_apps: &Vec<MimeApp>) -> (r: bool)
    ensures
        (exists|i: int| 0 <= i < old(list)@.len() && spec_filename_eq((#[trigger] old(list)@[i]).path, filename@))
            ==> !r && final(list)@ == old(list)@,
        !(exists|i: int|
            0 <= i < old(list)@.len() && spec_filename_eq((#[trigger] old(list)@[i]).path, filename@)) ==> {
            &&& r == exists|j: int| 0 <= j < all_apps@.len() && spec_filename_eq((#[trigger] all_apps@[j]).path, filename@)
            &&& !r ==> final(list)@ == old(list)@
            &&& r ==> (exists|j: int|
                0 <= j < all_apps@.len() && spec_filename_eq(all_apps@[j].path, filename@) && (forall|k: int|
                    0 <= k < j ==> !spec_filename_eq(#[trigger] all_apps@[k].path, filename@)) && final(list)@.len()
                    == old(list)@.len() + 1 && final(list)@.subrange(0, old(list)@.len() as int) == old(list)@
                    && same_app(all_apps@[j], final(list)@.last()))
        },
{
    let ghost before = list@;
    let mut i: usize = 0;
    while i < list.len()
        invariant
            i <= list@.len(),
            list@ == before,
            forall|k: int| 0 <= k < i ==> !spec_filename_eq((#[trigger] list@[k]).path, filename@),
        decreases list@.len() - i,
    {
        if filename_eq(&list[i].path, filename) {
            assert(spec_filename_eq(before[i as int].path, filename@));
            return false;
        }
        i = i + 1;
    }
    let mut j: usize = 0;
    let mut found: Option<usize> = None;
    while j < all_apps.len() && found.is_none()
        invariant
            j <= all_apps@.len(),
            found matches Some(x) ==> x < all_apps@.len() && spec_filename_eq(all_apps@[x as int].path, filename@)
                && forall|k: int| 0 <= k < x ==> !spec_filename_eq(#[trigger] all_apps@[k].path, filename@),
            found is None ==> forall|k: int| 0 <= k < j ==> !spec_filename_eq((#[trigger] all_apps@[k]).path, filename@),
        decreases all_apps@.len() - j,
    {
        if filename_eq(&all_apps[j].path, filename) {
            found = Some(j);
        }
        j = j + 1;
    }
    match found {
        Some(x) => {
            list.push(all_apps[x].duplicate());
            assert(list@.subrange(0, before.len() as int) =~= before);
            true
        },
        None => false,
    }
}

/// Whether an application's desktop file is not named `filename`.
pub open spec fn keeps_app(filename: Seq<char>) -> spec_fn(MimeApp) -> bool {
    |a: MimeApp| !spec_filename_eq(a.path, filename)
}

/// Removes from the applications of a MIME type those whose desktop file is
/// named `filename`, keeping the others in order.
pub fn remove_association(list: &mut Vec<MimeApp>, filename: &str)
    ensures
        final(list)@ == old(list)@.filter(keeps_app(filename@)),
{
    let ghost before = list@;
    let mut kept: Vec<MimeApp> = Vec::new();
    let mut rest: Vec<MimeApp> = Vec::new();
    std::mem::swap(&mut rest, list);
    // Move the applications out from the back, then keep them in order.
    let mut rev: Vec<MimeApp> = Vec::new();
    while rest.len() > 0
        invariant
            rest@ == before.subrange(0, rest@.len() as int),
            rest@.len() + rev@.len() == before.len(),
            forall|k: int| 0 <= k < rev@.len() ==> #[trigger] rev@[k] == before[before.len() - 1 - k],
        decreases rest@.len(),
    {
        let a = rest.pop().unwrap();
        rev.push(a);
    }
    let ghost f = keeps_app(filename@);
    assert(before.subrange(0, 0).filter(f) =~= Seq::<MimeApp>::empty()) by {
        reveal(Seq::filter);
    }
    while rev.len() > 0
        invariant
            rev@.len() <= before.len(),
            forall|k: int| 0 <= k < rev@.len() ==> #[trigger] rev@[k] == before[before.len() - 1 - k],
            kept@ == before.subrange(0, before.len() - rev@.len()).filter(f),
            f == keeps_app(filename@),
        decreases rev@.len(),
    {
        let ghost m = before.len() - rev@.len();
        let a = rev.pop().unwrap();
        assert(a == before[m]);
        assert(before.subrange(0, m + 1).drop_last() =~= before.subrange(0, m));
        assert(before.subrange(0, m + 1).filter(f) == if f(a) {
            before.subrange(0, m).filter(f).push(a)
        } else {
            before.subrange(0, m).filter(f)
        }) by {
            reveal(Seq::filter);
            assert(before.subrange(0, m + 1).last() == a);
        }
        assert(f(a) == !spec_filename_eq(a.path, filename@)) by {
            assert(f == keeps_app(filename@));
        }
        if !filename_eq(&a.path, filename) {
            kept.push(a);
        }
    }
    assert(before.subrange(0, before.len() as int) =~= before);
    *list = kept;
}

/// Whether some application of `list` has the desktop file `filename`.
pub open spec fn has_file(list: Seq<MimeApp>, filename: Seq<char>) -> bool {
    exists|i: int| 0 <= i < list.len() && spec_filename_eq((#[trigger] list[i]).path, filename)
}

/// The first of `filenames` that some application of `list` has, if any.
pub open spec fn first_default(list: Seq<MimeApp>, filenames: Seq<Seq<char>>) -> Option<Seq<char>>
    decreases filenames.len(),
{
    if filenames.len() == 0 {
        None
    } else if has_file(list, filenames[0]) {
        Some(filenames[0])
    } else {
        first_default(list, filenames.drop_first())
    }
}

/// Marks as default the applications with the first of `filenames` (in
/// order) that the list has; with none of them, no application is default.
pub fn mark_default(list: &mut Vec<MimeApp>, filenames: &Vec<String>)
    ensures
        final(list)@.len() == old(list)@.len(),
        forall|i: int|
            0 <= i < final(list)@.len() ==> #[trigger] final(list)@[i] == (MimeApp {
                is_default: match first_default(old(list)@, strs_view(filenames@)) {
                    Some(f) => spec_filename_eq(old(list)@[i].path, f),
                    None => false,
                },
                ..old(list)@[i]
            }),
{
    let ghost before = list@;
    let ghost fs = strs_view(filenames@);
    let mut chosen: Option<usize> = None;
    let mut j: usize = 0;
    assert(fs.subrange(0, fs.len() as int) =~= fs);
    while j < filenames.len()
        invariant
            j <= filenames@.len(),
            fs == strs_view(filenames@),
            list@ == before,
            first_default(before, fs) == if chosen is Some {
                Some(fs[chosen->0 as int])
            } else {
                first_default(before, fs.subrange(j as int, fs.len() as int))
            },
            chosen matches Some(c) ==> c < fs.len(),
        decreases filenames@.len() - j,
    {
        if chosen.is_none() {
            let mut found = false;
            let mut i: usize = 0;
            while i < list.len()
                invariant
                    i <= list@.len(),
                    j < fs.len(),
                    fs == strs_view(filenames@),
                    found == exists|k: int| 0 <= k < i && spec_filename_eq((#[trigger] list@[k]).path, fs[j as int]),
                decreases list@.len() - i,
            {
                if filename_eq(&list[i].path, filenames[j].as_str()) {
                    found = true;
                }
                i = i + 1;
            }
            let ghost tail = fs.subrange(j as int, fs.len() as int);
            assert(tail[0] == fs[j as int]);
            assert(tail.drop_first() =~= fs.subrange(j as int + 1, fs.len() as int));
            if found {
                chosen = Some(j);
            }
        }
        j = j + 1;
    }
    assert(fs.subrange(j as int, fs.len() as int) =~= Seq::<Seq<char>>::empty());
    let mut i: usize = 0;
    while i < list.len()
        invariant
            i <= list@.len(),
            list@.len() == before.len(),
            fs == strs_view(filenames@),
            chosen matches Some(c) ==> c < fs.len(),
            first_default(before, fs) == if chosen is Some {
                Some(fs[chosen->0 as int])
            } else {
                None
            },
            forall|k: int| i <= k < list@.len() ==> #[trigger] list@[k] == before[k],
            forall|k: int|
                0 <= k < i ==> #[trigger] list@[k] == (MimeApp {
                    is_default: match first_default(before, fs) {
                        Some(f) => spec_filename_eq(before[k].path, f),
                        None => false,
                    },
                    ..before[k]
                }),
        decreases list@.len() - i,
    {
        let d = match chosen {
            Some(c) => filename_eq(&list[i].path, filenames[c].as_str()),
            None => false,
        };
        list[i].is_default = d;
        i = i + 1;
    }
}

/// The key by which an application is listed: default applications first,
/// then by the rank of the name.
pub open spec fn app_key(app: MimeApp, rank: u64) -> SortKey {
    SortKey { group: if app.is_default { 0 } else { 1 }, value: Some(rank as i128) }
}

/// The keys of a list of applications, with the ranks of their names.
pub open spec fn app_keys(apps: Seq<MimeApp>, ranks: Seq<u64>) -> Seq<SortKey> {
    Seq::new(apps.len(), |i: int| app_key(apps[i], ranks[i]))
}

/// The order in which applications are listed: each index of `apps` once,
/// default applications first, then by the rank of their names (`ranks[i]`
/// ranks `apps[i].name` in the user's collation), equal ones in list order.
pub fn app_order(apps: &Vec<MimeApp>, ranks: &Vec<u64>) -> (r: Vec<usize>)
    requires
        ranks@.len() == apps@.len(),
    ensures
        sorted_listing(app_keys(apps@, ranks@), true, r@),
{
    let mut keys: Vec<SortKey> = Vec::new();
    let mut i: usize = 0;
    while i < apps.len()
        invariant
            i <= apps@.len(),
            ranks@.len() == apps@.len(),
            keys@.len() == i,
            forall|k: int| 0 <= k < i ==> #[trigger] keys@[k] == app_key(apps@[k], ranks@[k]),
        decreases apps@.len() - i,
    {
        let group: u8 = if apps[i].is_default { 0 } else { 1 };
        keys.push(SortKey { group, value: Some(ranks[i] as i128) });
        i = i + 1;
    }
    assert(keys@ =~= app_keys(apps@, ranks@));
    stable_sort_indices(&keys, true)
}

/// Whether some terminal of `terminals` has the id `id`.
pub open spec fn has_terminal(terminals: Seq<MimeApp>, id: Seq<char>) -> bool {
    exists|k: int| 0 <= k < terminals.len() && (#[trigger] terminals[k]).id@ == id
}

/// The terminal to use: the preferred one (the system default, given by id,
/// then the COSMIC terminal) among `terminals`, else the first terminal.
pub fn terminal_index(terminals: &Vec<MimeApp>, default_id: Option<&str>) -> (r: Option<usize>)
    ensures
        terminals@.len() == 0 ==> r is None,
        r matches Some(i) ==> i < terminals@.len(),
        default_id is Some && (exists|k: int|
            0 <= k < terminals@.len() && (#[trigger] terminals@[k]).id@ == default_id->0@) ==> (r matches Some(i)
            && terminals@[i as int].id@ == default_id->0@ && forall|k: int|
            0 <= k < i ==> (#[trigger] terminals@[k]).id@ != default_id->0@),
        !(default_id is Some && has_terminal(terminals@, default_id->0@)) ==> {
            if has_terminal(terminals@, "com.system76.CosmicTerm"@) {
                r matches Some(i) && i < terminals@.len() && terminals@[i as int].id@ == "com.system76.CosmicTerm"@
                    && forall|k: int| 0 <= k < i ==> (#[trigger] terminals@[k]).id@ != "com.system76.CosmicTerm"@
            } else {
                r == if terminals@.len() > 0 {
                    Some(0usize)
                } else {
                    None
                }
            }
        },
{
    let n = terminals.len();
    match default_id {
        Some(d) => {
            let mut i: usize = 0;
            while i < n
                invariant
                    n == terminals@.len(),
                    i <= n,
                    forall|k: int| 0 <= k < i ==> (#[trigger] terminals@[k]).id@ != d@,
                    default_id == Some(d),
                decreases n - i,
            {
                if str_equal(terminals[i].id.as_str(), d) {
                    assert(terminals@[i as int].id@ == d@);
                    assert(default_id->0@ == d@);
                    return Some(i);
                }
                i = i + 1;
            }
        },
        None => {},
    }
    let mut i: usize = 0;
    while i < n
        invariant
            n == terminals@.len(),
            i <= n,
            default_id matches Some(d) ==> forall|k: int| 0 <= k < n ==> (#[trigger] terminals@[k]).id@ != d@,
            forall|k: int| 0 <= k < i ==> (#[trigger] terminals@[k]).id@ != "com.system76.CosmicTerm"@,
        decreases n - i,
    {
        if str_equal(terminals[i].id.as_str(), "com.system76.CosmicTerm") {
            assert(has_terminal(terminals@, "com.system76.CosmicTerm"@));
            return Some(i);
        }
        i = i + 1;
    }
    proof {
        if has_terminal(terminals@, "com.system76.CosmicTerm"@) {
            let k = choose|k: int| 0 <= k < terminals@.len() && (#[trigger] terminals@[k]).id@ == "com.system76.CosmicTerm"@;
            assert(terminals@[k].id@ != "com.system76.CosmicTerm"@);
        }
    }
    if n > 0 {
        Some(0)
    } else {
        None
    }
}

/// The id of a desktop file name: a name ending in `.desktop` as it is, any
/// other with `.desktop` added.
pub fn desktop_file_id(id: String) -> (r: String)
    ensures
        crate::text::has_suffix(id@, ".desktop"@) ==> r@ == id@,
        !crate::text::has_suffix(id@, ".desktop"@) ==> r@ == id@ + ".desktop"@,
{
    if crate::text::ends_with(id.as_str(), ".desktop") {
        id
    } else {
        let mut s = id;
        s.append(".desktop");
        s
    }
}

/// The text with every occurrence of `pat` removed, scanning from the
/// start without overlaps (as `str::replace` with an empty replacement).
pub open spec fn remove_all(s: Seq<char>, pat: Seq<char>) -> Seq<char>
    decreases s.len(),
{
    if s.len() == 0 || pat.len() == 0 {
        s
    } else if has_prefix(s, pat) {
        remove_all(s.subrange(pat.len() as int, s.len() as int), pat)
    } else {
        seq![s[0]] + remove_all(s.drop_first(), pat)
    }
}

/// The id of the default terminal from the answer of the MIME query: the
/// answer trimmed, with `.desktop` removed.
pub fn default_terminal_id(answer: &str) -> (r: String)
    ensures
        r@ == remove_all(crate::text::trim(answer@), ".desktop"@),
{
    let t = crate::text::trim_str(answer);
    let pat = ".desktop";
    let n = t.unicode_len();
    let m = pat.unicode_len();
    proof {
        reveal_strlit(".desktop");
    }
    let mut out = String::new();
    let mut i: usize = 0;
    assert(t@.subrange(0, n as int) =~= t@);
    assert(out@ + remove_all(t@, pat@) =~= remove_all(t@, pat@));
    while i < n
        invariant
            n == t@.len(),
            m == pat@.len(),
            m == 8,
            i <= n,
            remove_all(t@, pat@) == out@ + remove_all(t@.subrange(i as int, n as int), pat@),
        decreases n - i,
    {
        let rest = t.as_str().substring_char(i, n);
        assert(rest@ == t@.subrange(i as int, n as int));
        if starts_with(rest, pat) {
            assert(t@.subrange(i as int, n as int).subrange(m as int, (n - i) as int) =~= t@.subrange(
                i + m,
                n as int,
            ));
            i = i + m;
        } else {
            let c = t.get_char(i);
            assert(t@.subrange(i as int, n as int).drop_first() =~= t@.subrange(i as int + 1, n as int));
            let ghost before = out@;
            crate::text::push_char(&mut out, c);
            assert(out@ + remove_all(t@.subrange(i as int + 1, n as int), pat@) =~= before + (seq![c] + remove_all(
                t@.subrange(i as int + 1, n as int),
                pat@,
            )));
            i = i + 1;
        }
    }
    assert(remove_all(t@.subrange(i as int, n as int), pat@) =~= seq![]);
    assert(out@ + seq![] =~= out@);
    out
}

} // verus!
