//! The Radioberry host program: its settings file, its console, and what
//! is decided about its process.
use crate::queue;
use crate::text::{
    self, chars_of, is_text, join_lines, push_str, slice_of, split_lines, string_of, trimmed,
    trimmed_start,
};
use std::collections::VecDeque;
use vstd::prelude::*;
use vstd::string::StrSliceExecFns;

verus! {

/// The board's FPGA variants.
#[derive(Clone, Copy, Debug, PartialEq, Eq, Structural)]
pub enum Fpga {
    Cl016,
    Cl025,
}

/// The text for an FPGA in the settings file.
pub open spec fn fpga_text(f: Fpga) -> Seq<char> {
    match f {
        Fpga::Cl016 => "CL016"@,
        Fpga::Cl025 => "CL025"@,
    }
}

/// The FPGA that a value names, if any.
pub open spec fn fpga_named(value: Seq<char>) -> Option<Fpga> {
    if text::trim(value) == "CL016"@ {
        Some(Fpga::Cl016)
    } else if text::trim(value) == "CL025"@ {
        Some(Fpga::Cl025)
    } else {
        None
    }
}

impl Fpga {
    pub const ALL: [Fpga; 2] = [Fpga::Cl016, Fpga::Cl025];

    /// The text for this FPGA in the settings file.
    pub fn as_str(self) -> (s: &'static str)
        ensures
            s@ == fpga_text(self),
    {
        match self {
            Fpga::Cl016 => "CL016",
            Fpga::Cl025 => "CL025",
        }
    }

    /// The FPGA that the value of a settings line names. Any other value
    /// counts as none.
    pub fn from_str(s: &str) -> (f: Option<Fpga>)
        ensures
            f == fpga_named(s@),
    {
        let v: Vec<char> = chars_of(s);
        named(v.as_slice())
    }
}

fn named(v: &[char]) -> (f: Option<Fpga>)
    ensures
        f == fpga_named(v@),
{
    let t: Vec<char> = trimmed(v);
    if is_text(t.as_slice(), "CL016") {
        Some(Fpga::Cl016)
    } else if is_text(t.as_slice(), "CL025") {
        Some(Fpga::Cl025)
    } else {
        None
    }
}

pub open spec fn starts_with(s: Seq<char>, prefix: Seq<char>) -> bool {
    s.len() >= prefix.len() && s.take(prefix.len() as int) == prefix
}

/// The FPGA that a line of the settings file sets.
pub open spec fn line_value(line: Seq<char>) -> Option<Fpga> {
    let t = text::trim(line);
    if starts_with(t, "fpga="@) {
        fpga_named(t.skip(5))
    } else {
        None
    }
}

/// The first FPGA that any of the lines sets.
pub open spec fn first_value(ls: Seq<Seq<char>>) -> Option<Fpga>
    decreases ls.len(),
{
    if ls.len() == 0 {
        None
    } else if line_value(ls[0]) is Some {
        line_value(ls[0])
    } else {
        first_value(ls.skip(1))
    }
}

/// Whether a line is the one that sets the FPGA.
pub open spec fn is_fpga_line(line: Seq<char>) -> bool {
    starts_with(text::trim_start(line), "fpga="@)
}

/// Index of the first line that sets the FPGA; the number of lines where
/// none does.
pub open spec fn first_fpga_line(ls: Seq<Seq<char>>) -> int
    decreases ls.len(),
{
    if ls.len() == 0 || is_fpga_line(ls[0]) {
        0
    } else {
        1 + first_fpga_line(ls.skip(1))
    }
}

/// The line that sets an FPGA.
pub open spec fn fpga_line(f: Fpga) -> Seq<char> {
    "fpga="@ + fpga_text(f)
}

/// The lines with the FPGA set: its first line replaced, or one added; all
/// the others as they were.
pub open spec fn with_fpga(ls: Seq<Seq<char>>, f: Fpga) -> Seq<Seq<char>> {
    if first_fpga_line(ls) < ls.len() {
        ls.update(first_fpga_line(ls), fpga_line(f))
    } else {
        ls.push(fpga_line(f))
    }
}

fn prefixed(v: &[char], prefix: &str) -> (b: bool)
    ensures
        b == starts_with(v@, prefix@),
{
    let p: Vec<char> = chars_of(prefix);
    if v.len() < p.len() {
        return false;
    }
    let head: Vec<char> = slice_of(v, 0, p.len());
    assert(head@ =~= v@.take(p@.len() as int));
    is_text(head.as_slice(), prefix)
}

fn value_of(line: &[char]) -> (f: Option<Fpga>)
    ensures
        f == line_value(line@),
{
    let t: Vec<char> = trimmed(line);
    if !prefixed(t.as_slice(), "fpga=") {
        return None;
    }
    proof {
        reveal_strlit("fpga=");
    }
    let value: Vec<char> = slice_of(t.as_slice(), 5, t.len());
    assert(value@ =~= t@.skip(5));
    named(value.as_slice())
}

/// The FPGA that the settings file's contents set, if any line sets a known
/// one.
pub fn read_fpga(contents: &str) -> (f: Option<Fpga>)
    ensures
        f == first_value(text::lines(contents@)),
{
    let v: Vec<char> = chars_of(contents);
    let ls: Vec<Vec<char>> = split_lines(v.as_slice());
    let ghost all = text::lines(contents@);
    assert(all.skip(0) =~= all);
    let mut i: usize = 0;
    while i < ls.len()
        invariant
            i <= ls@.len(),
            all == text::lines(contents@),
            ls@.len() == all.len(),
            forall|k: int| 0 <= k < ls@.len() ==> (#[trigger] ls@[k])@ == all[k],
            first_value(all) == first_value(all.skip(i as int)),
        decreases ls@.len() - i,
    {
        let found: Option<Fpga> = value_of(ls[i].as_slice());
        assert(all.skip(i as int)[0] == ls@[i as int]@);
        if found.is_some() {
            return found;
        }
        assert(all.skip(i as int).skip(1) =~= all.skip(i + 1));
        i = i + 1;
    }
    None
}

/// The settings file's contents with the FPGA set.
pub fn set_fpga(existing: &str, fpga: Fpga) -> (contents: String)
    ensures
        contents@ == text::joined(with_fpga(text::lines(existing@), fpga)),
{
    let v: Vec<char> = chars_of(existing);
    let mut ls: Vec<Vec<char>> = split_lines(v.as_slice());
    let ghost all = text::lines(existing@);
    let mut line: Vec<char> = chars_of("fpga=");
    push_str(&mut line, fpga.as_str());
    assert(line@ =~= fpga_line(fpga));
    assert(all.skip(0) =~= all);
    let mut i: usize = 0;
    let mut found: bool = false;
    while i < ls.len() && !found
        invariant
            i <= ls@.len(),
            ls@.len() == all.len(),
            forall|k: int| 0 <= k < ls@.len() ==> (#[trigger] ls@[k])@ == all[k],
            first_fpga_line(all) == i + first_fpga_line(all.skip(i as int)),
            found ==> i < all.len() && first_fpga_line(all) == i,
        decreases ls@.len() - i + (if found { 0int } else { 1int }),
    {
        let t: Vec<char> = trimmed_start(ls[i].as_slice());
        assert(all.skip(i as int)[0] == ls@[i as int]@);
        if prefixed(t.as_slice(), "fpga=") {
            found = true;
        } else {
            assert(all.skip(i as int).skip(1) =~= all.skip(i + 1));
            i = i + 1;
        }
    }
    if found {
        ls.set(i, line);
    } else {
        ls.push(line);
    }
    assert(ls@.map_values(|l: Vec<char>| l@) =~= with_fpga(all, fpga));
    let joined: Vec<char> = join_lines(&ls);
    string_of(joined.as_slice())
}

proof fn lemma_trim_end_is_prefix(s: Seq<char>)
    ensures
        text::trim_end(s).len() <= s.len(),
        text::trim_end(s) == s.take(text::trim_end(s).len() as int),
    decreases s.len(),
{
    if s.len() > 0 && text::space(s.last()) {
        lemma_trim_end_is_prefix(s.drop_last());
        let n = text::trim_end(s).len() as int;
        assert(s.drop_last().take(n) =~= s.take(n));
    } else {
        assert(s.take(s.len() as int) =~= s);
    }
}

/// A line that sets a value is one that replacing looks for.
proof fn lemma_value_is_on_fpga_line(line: Seq<char>)
    ensures
        line_value(line) is Some ==> is_fpga_line(line),
{
    let s = text::trim_start(line);
    let t = text::trim(line);
    lemma_trim_end_is_prefix(s);
    if starts_with(t, "fpga="@) {
        assert(s.take("fpga="@.len() as int) =~= t.take("fpga="@.len() as int));
    }
}

/// A lost carriage return makes no line one that sets the FPGA.
proof fn lemma_without_cr_is_no_fpga_line(line: Seq<char>)
    ensures
        is_fpga_line(text::without_cr(line)) ==> is_fpga_line(line),
{
    let short = text::without_cr(line);
    reveal_strlit("fpga=");
    if short != line && is_fpga_line(short) {
        text::lemma_leading_spaces_bounds(line);
        text::lemma_leading_spaces_bounds(short);
        let a = text::leading_spaces(short);
        let b = text::leading_spaces(line);
        assert(text::trim_start(short).len() > 0);
        assert(short[a] == line[a]);
        if b < a {
            assert(text::space(short[b]));
        } else if a < b {
            assert(text::space(line[a]));
        }
        assert(text::trim_start(short).take(5) =~= text::trim_start(line).take(5));
    }
}

proof fn lemma_fpga_line_value(f: Fpga)
    ensures
        line_value(fpga_line(f)) == Some(f),
        text::without_cr(fpga_line(f)) == fpga_line(f),
        !fpga_line(f).contains('\n'),
{
    reveal_strlit("fpga=");
    reveal_strlit("CL016");
    reveal_strlit("CL025");
    let l = fpga_line(f);
    let v = fpga_text(f);
    assert(l.len() == 10);
    assert(l[0] == 'f');
    assert(text::leading_spaces(l) == 0);
    assert(text::trim_start(l) =~= l);
    assert(l.last() == v.last());
    assert(text::trim_end(l) == l);
    assert(l.take(5) =~= "fpga="@);
    assert(l.skip(5) =~= v);
    assert(text::leading_spaces(v) == 0);
    assert(text::trim_start(v) =~= v);
    assert(text::trim_end(v) == v);
    assert("CL016"@[4] != "CL025"@[4]);
    assert(v[4] == l[9]);
    assert forall|i: int| 0 <= i < l.len() implies l[i] != '\n' by {
        if i < 5 {
            assert(l[i] == "fpga="@[i]);
        } else {
            assert(l[i] == v[i - 5]);
        }
    }
}

proof fn lemma_first_value(ls: Seq<Seq<char>>, f: Fpga)
    ensures
        first_value(with_fpga(ls, f).map_values(|l: Seq<char>| text::without_cr(l))) == Some(f),
        first_fpga_line(ls) >= 0,
    decreases ls.len(),
{
    let strip = |l: Seq<char>| text::without_cr(l);
    let out = with_fpga(ls, f).map_values(strip);
    lemma_fpga_line_value(f);
    if ls.len() == 0 {
        assert(out[0] == fpga_line(f));
    } else if is_fpga_line(ls[0]) {
        assert(out[0] == fpga_line(f));
    } else {
        let rest = ls.skip(1);
        lemma_first_value(rest, f);
        lemma_without_cr_is_no_fpga_line(ls[0]);
        lemma_value_is_on_fpga_line(text::without_cr(ls[0]));
        assert(out[0] == text::without_cr(ls[0]));
        assert(with_fpga(ls, f).skip(1) =~= with_fpga(rest, f));
        assert(out.skip(1) =~= with_fpga(rest, f).map_values(strip));
    }
}

/// Reading a settings file after setting its FPGA gives that FPGA,
/// whatever the file held before.
pub proof fn law_set_fpga_reads_back(existing: Seq<char>, f: Fpga)
    ensures
        first_value(text::lines(text::joined(with_fpga(text::lines(existing), f)))) == Some(f),
{
    let ls = text::lines(existing);
    text::lemma_lines_hold_no_feed(existing);
    lemma_fpga_line_value(f);
    lemma_first_value(ls, f);
    let new = with_fpga(ls, f);
    assert forall|i: int| 0 <= i < new.len() implies !(#[trigger] new[i]).contains('\n') by {
        if new[i] != fpga_line(f) {
            assert(new[i] == ls[i]);
        }
    }
    text::law_joined_lines_split(new);
}

/// Setting the FPGA changes no other line, and adds at most one.
pub proof fn law_set_fpga_keeps_other_lines(ls: Seq<Seq<char>>, f: Fpga, i: int)
    requires
        0 <= i < ls.len(),
        i != first_fpga_line(ls),
    ensures
        with_fpga(ls, f)[i] == ls[i],
        ls.len() <= with_fpga(ls, f).len() <= ls.len() + 1,
{
    lemma_first_value(ls, f);
}

// ---------------------------------------------------------------------
// Files beside the program
// ---------------------------------------------------------------------

/// A character that parts no names on any system.
pub open spec fn plain_char(c: char) -> bool {
    c != '/' && c != '\\' && c != ':'
}

/// A file name that reads alike on every system: neither the directory
/// itself nor its parent.
pub open spec fn plain_name(s: Seq<char>) -> bool {
    &&& s.len() > 0
    &&& s != seq!['.']
    &&& s != seq!['.', '.']
    &&& forall|i: int| 0 <= i < s.len() ==> plain_char(#[trigger] s[i])
}

/// Whether a name that is only a dot stands at `i`.
pub open spec fn dot_alone(s: Seq<char>, i: int) -> bool {
    &&& s[i] == '.'
    &&& i == 0 || s[i - 1] == '/'
    &&& i == s.len() - 1 || s[i + 1] == '/'
}

/// A directory that reads alike on every system: names with single slashes
/// between them, from the root or from the working directory.
pub open spec fn plain_dir(s: Seq<char>) -> bool {
    &&& s.len() > 0
    &&& s.last() != '/'
    &&& forall|i: int| 0 <= i < s.len() ==> plain_char(#[trigger] s[i]) || s[i] == '/'
    &&& forall|i: int| 0 <= i < s.len() - 1 && #[trigger] s[i] == '/' ==> s[i + 1] != '/'
    &&& forall|i: int| 0 <= i < s.len() ==> !#[trigger] dot_alone(s, i)
}

/// A path that one of the systems takes word for word: it starts as
/// `\\?\` does.
pub open spec fn verbatim(s: Seq<char>) -> bool {
    &&& s.len() >= 4
    &&& s[0] == '\\' || s[0] == '/'
    &&& s[1] == '\\' || s[1] == '/'
    &&& s[2] == '?'
    &&& s[3] == '\\' || s[3] == '/'
}

/// `name` inside the directory `dir`, with either system's separator.
pub open spec fn inside(path: Seq<char>, dir: Seq<char>, name: Seq<char>) -> bool {
    path == dir.push('/') + name || path == dir.push('\\') + name
}

/// `name` behind `dir`: without a separator where none is needed, else
/// with one. Whether a backslash or a colon at the end of `dir` needs one
/// is a matter of the system.
pub open spec fn behind(path: Seq<char>, dir: Seq<char>, name: Seq<char>) -> bool {
    if dir.len() == 0 || dir.last() == '/' {
        path == dir + name
    } else if dir.last() == '\\' || dir.last() == ':' {
        path == dir + name || inside(path, dir, name)
    } else {
        inside(path, dir, name)
    }
}

/// `std::path::Path::parent`, on text: the path without its final name.
/// The parent's text starts the path's. A plain name in a plain directory
/// has that directory as its parent, one in the root has the root, one
/// alone has the empty path; the root and the empty path have none. Which
/// start is taken of other paths is left unsaid: their syntax differs
/// between systems.
#[verifier::external_body]
fn parent_of(path: &str) -> (dir: Option<String>)
    ensures
        dir matches Some(d) ==> d@.is_prefix_of(path@) && d@.len() < path@.len(),
        forall|d: Seq<char>, n: Seq<char>|
            plain_dir(d) && plain_name(n) && path@ == #[trigger] (d.push('/') + n) ==> dir is Some
                && dir->0@ == d,
        forall|n: Seq<char>|
            plain_name(n) && path@ == #[trigger] (seq!['/'] + n) ==> dir is Some && dir->0@ == seq![
                '/',
            ],
        plain_name(path@) ==> dir is Some && dir->0@ == Seq::<char>::empty(),
        path@.len() == 0 || path@ == seq!['/'] ==> dir is None,
{
    std::path::Path::new(path).parent().map(|d| d.to_string_lossy().into_owned())
}

/// `std::path::Path::join`, on text. A plain name stands behind the
/// directory, and behind a separator where the directory does not end in
/// one. Which of the two separators it is depends on the system. Of
/// directories that are taken word for word nothing is said: the system
/// that has them rewrites the joined path.
#[verifier::external_body]
fn join(dir: &str, name: &str) -> (path: String)
    ensures
        !verbatim(dir@) && plain_name(name@) ==> behind(path@, dir@, name@),
{
    std::path::Path::new(dir).join(name).to_string_lossy().into_owned()
}

/// A file beside the program whose directory is `dir`: in that directory,
/// or in the working directory where the program's path names none.
pub fn beside(dir: Option<&str>, name: &str) -> (path: String)
    ensures
        dir is None || dir->0@.len() == 0 ==> path@ == name@,
        dir matches Some(d) ==> !verbatim(d@) && plain_name(name@) ==> behind(path@, d@, name@),
{
    match dir {
        Some(d) => {
            if d.unicode_len() == 0 {
                assert(d@ + name@ =~= name@);
                name.to_owned()
            } else {
                join(d, name)
            }
        },
        None => name.to_owned(),
    }
}

/// Where the file `name` of the program `exe` stands: in the program's
/// directory, or in the working directory where its path names none.
pub open spec fn is_beside(path: Seq<char>, exe: Seq<char>, name: Seq<char>) -> bool {
    &&& forall|d: Seq<char>, n: Seq<char>|
        plain_dir(d) && plain_name(n) && exe == #[trigger] (d.push('/') + n) ==> inside(
            path,
            d,
            name,
        )
    &&& forall|n: Seq<char>|
        plain_name(n) && exe == #[trigger] (seq!['/'] + n) ==> path == seq!['/'] + name
    &&& plain_name(exe) || exe.len() == 0 || exe == seq!['/'] ==> path == name
    &&& !verbatim(exe) ==> exists|d: Seq<char>|
        {
            &&& #[trigger] d.is_prefix_of(exe)
            &&& d.len() < exe.len() || exe.len() == 0
            &&& behind(path, d, name)
        }
}

proof fn lemma_plain_dir(d: Seq<char>)
    requires
        plain_dir(d),
    ensures
        !verbatim(d),
        plain_char(d.last()),
{
    assert(plain_char(d[d.len() - 1]));
    if verbatim(d) {
        assert(plain_char(d[0]) || d[0] == '/');
        assert(plain_char(d[1]) || d[1] == '/');
    }
}

fn file_beside(exe: &str, name: &str) -> (path: String)
    requires
        plain_name(name@),
    ensures
        is_beside(path@, exe@, name@),
{
    let dir: Option<String> = parent_of(exe);
    let path: String = match &dir {
        Some(d) => beside(Some(d.as_str()), name),
        None => beside(None, name),
    };
    proof {
        let from = match dir {
            Some(d) => d@,
            None => Seq::empty(),
        };
        assert(from + name@ =~= name@ || dir is Some);
        assert(from.is_prefix_of(exe@));
        assert(!verbatim(exe@) ==> !verbatim(from)) by {
            if verbatim(from) {
                assert(from =~= exe@.take(from.len() as int));
                assert(from[0] == exe@[0] && from[1] == exe@[1] && from[2] == exe@[2] && from[3]
                    == exe@[3]);
            }
        }
        assert forall|d: Seq<char>, n: Seq<char>|
            plain_dir(d) && plain_name(n) && exe@ == #[trigger] (d.push('/') + n) implies inside(
            path@,
            d,
            name@,
        ) by {
            lemma_plain_dir(d);
        }
    }
    path
}

/// The settings file, which the program reads from beside itself.
pub fn props_path_for(exe_path: &str) -> (path: String)
    ensures
        is_beside(path@, exe_path@, "radioberry.props"@),
{
    proof {
        reveal_strlit("radioberry.props");
        let name = "radioberry.props"@;
        assert(name.len() == 16 && name[0] == 'r');
        assert forall|i: int| 0 <= i < name.len() implies plain_char(#[trigger] name[i]) by {
        }
    }
    file_beside(exe_path, "radioberry.props")
}

/// The log of the program's output, beside the program.
pub fn log_path_for(exe_path: &str) -> (path: String)
    ensures
        is_beside(path@, exe_path@, "radioberry-juice.log"@),
{
    proof {
        reveal_strlit("radioberry-juice.log");
        let name = "radioberry-juice.log"@;
        assert(name.len() == 20 && name[0] == 'r');
        assert forall|i: int| 0 <= i < name.len() implies plain_char(#[trigger] name[i]) by {
        }
    }
    file_beside(exe_path, "radioberry-juice.log")
}

// ---------------------------------------------------------------------
// The console
// ---------------------------------------------------------------------

/// Lines of output that the console keeps.
pub const MAX_CONSOLE_LINES: usize = 2000;

/// The program's console.
#[derive(Debug)]
pub struct Console {
    pub lines: VecDeque<String>,
}

impl Console {
    pub open spec fn wf(self) -> bool {
        self.lines@.len() <= MAX_CONSOLE_LINES
    }

    pub fn new() -> (c: Self)
        ensures
            c.wf(),
            c.lines@ == Seq::<String>::empty(),
    {
        Console { lines: VecDeque::new() }
    }

    /// Adds a line, dropping the oldest one where the console is full.
    pub fn push_line(&mut self, line: String)
        requires
            old(self).wf(),
        ensures
            final(self).wf(),
            final(self).lines@ == queue::pushed(
                old(self).lines@,
                line,
                MAX_CONSOLE_LINES as nat,
            ),
    {
        if self.lines.len() >= MAX_CONSOLE_LINES {
            self.lines.pop_front();
            assert(self.lines@ =~= old(self).lines@.skip(1));
        }
        self.lines.push_back(line);
    }

    /// All lines, oldest first.
    pub fn snapshot(&self) -> (v: Vec<String>)
        ensures
            v@.len() == self.lines@.len(),
            forall|i: int| 0 <= i < v@.len() ==> (#[trigger] v@[i])@ == self.lines@[i]@,
    {
        let mut v: Vec<String> = Vec::new();
        let n: usize = self.lines.len();
        for i in 0..n
            invariant
                n == self.lines@.len(),
                v@.len() == i,
                forall|k: int| 0 <= k < i ==> (#[trigger] v@[k])@ == self.lines@[k]@,
        {
            v.push(self.lines[i].clone());
        }
        v
    }
}

/// A line without the line feeds and carriage returns at its end.
pub open spec fn without_end(s: Seq<char>) -> Seq<char>
    decreases s.len(),
{
    if s.len() > 0 && (s.last() == '\n' || s.last() == '\r') {
        without_end(s.drop_last())
    } else {
        s
    }
}

/// A line of output as the console shows it.
pub fn console_line(line: &str) -> (s: String)
    ensures
        s@ == without_end(line@),
{
    let mut v: Vec<char> = chars_of(line);
    while v.len() > 0 && (v[v.len() - 1] == '\n' || v[v.len() - 1] == '\r')
        invariant
            without_end(v@) == without_end(line@),
        decreases v@.len(),
    {
        let ghost before = v@;
        v.pop();
        assert(v@ =~= before.drop_last());
    }
    string_of(v.as_slice())
}

// ---------------------------------------------------------------------
// The process
// ---------------------------------------------------------------------

pub const JUICE_SERVICE_PORT: u16 = 1024;

/// How long the program is given to end by itself, in milliseconds.
pub const GRACE_MS: u64 = 5000;

/// Time between two looks at it, in milliseconds.
pub const GRACE_POLL_MS: u64 = 150;

/// Wait before a restart, in milliseconds.
pub const RESTART_DELAY_MS: u64 = 500;

/// Wait after a reset of the USB device, in milliseconds.
pub const USB_RESET_DELAY_MS: u64 = 1500;

/// The request to end, for the program's service port: the packet family's
/// marker and a command.
pub fn shutdown_packet() -> (p: [u8; 63])
    ensures
        p@ == seq![0xEFu8, 0xFE, 0x05] + Seq::new(60, |i: int| 0u8),
{
    let mut p: [u8; 63] = [0u8; 63];
    p[0] = 0xEF;
    p[1] = 0xFE;
    p[2] = 0x05;
    assert(p@ =~= seq![0xEFu8, 0xFE, 0x05] + Seq::new(60, |i: int| 0u8));
    p
}

/// What a look at a started process tells.
#[derive(Clone, Copy, Debug, PartialEq, Eq, Structural)]
pub enum ChildStatus {
    Exited,
    Running,
    /// The system did not say.
    Unknown,
}

/// Whether the program counts as running. Where the system does not say,
/// it does.
pub fn is_running(child: Option<ChildStatus>) -> (b: bool)
    ensures
        b <==> (child == Some(ChildStatus::Running) || child == Some(ChildStatus::Unknown)),
{
    match child {
        Some(ChildStatus::Running) | Some(ChildStatus::Unknown) => true,
        _ => false,
    }
}

/// Whether waiting for the program to end is over, and whether it ended.
/// After the deadline it is not looked at again.
pub fn graceful_stop(deadline_passed: bool, child: ChildStatus) -> (ended: Option<bool>)
    ensures
        ended == (if deadline_passed {
            Some(false)
        } else {
            match child {
                ChildStatus::Exited => Some(true),
                ChildStatus::Running => None,
                ChildStatus::Unknown => Some(false),
            }
        }),
{
    if deadline_passed {
        return Some(false);
    }
    match child {
        ChildStatus::Exited => Some(true),
        ChildStatus::Running => None,
        ChildStatus::Unknown => Some(false),
    }
}

/// What the console says about a stop: how the started program ended,
/// where one was started, and a warning where others of its name were
/// stopped without the rights to do so.
pub open spec fn stop_notes(ended: Option<bool>, swept: bool, elevated: bool) -> Seq<Seq<char>> {
    let end = match ended {
        Some(true) => seq!["--- stopped (graceful shutdown, USB released cleanly) ---"@],
        Some(false) => seq!["--- forced kill sent (juice didn't exit on its own in time) ---"@],
        None => Seq::empty(),
    };
    if swept && !elevated {
        end.push(
            "--- warning: hpsdr-rs is NOT running as Administrator -- the kill above may have silently failed to fully release the USB device (\"Access is denied\" is the typical Windows failure mode here). Use \"Relaunch as Administrator\" and try Stop again. ---"@,
        )
    } else {
        end
    }
}

pub fn stop_lines(ended: Option<bool>, swept: bool, elevated: bool) -> (v: Vec<String>)
    ensures
        v@.len() == stop_notes(ended, swept, elevated).len(),
        forall|i: int|
            0 <= i < v@.len() ==> (#[trigger] v@[i])@ == stop_notes(ended, swept, elevated)[i],
{
    let mut v: Vec<String> = Vec::new();
    match ended {
        Some(true) => {
            v.push("--- stopped (graceful shutdown, USB released cleanly) ---".to_owned());
        },
        Some(false) => {
            v.push("--- forced kill sent (juice didn't exit on its own in time) ---".to_owned());
        },
        None => {},
    }
    if swept && !elevated {
        v.push(
            "--- warning: hpsdr-rs is NOT running as Administrator -- the kill above may have silently failed to fully release the USB device (\"Access is denied\" is the typical Windows failure mode here). Use \"Relaunch as Administrator\" and try Stop again. ---".to_owned(),
        );
    }
    v
}

/// Whether this program has administrator rights: on a system that has
/// such rights, where the probe for them succeeded; elsewhere, always.
pub fn is_elevated(probe: Option<bool>) -> (b: bool)
    ensures
        b <==> probe != Some(false),
{
    match probe {
        Some(ok) => ok,
        None => true,
    }
}

/// Why an administrative action failed.
#[derive(Debug)]
pub enum AdminError {
    /// The system has no such action.
    Unsupported(String),
    /// The action's own message.
    Failed(String),
}

/// How a helper program ended: whether it succeeded, and its error output.
#[derive(Debug)]
pub struct HelperOutcome {
    pub success: bool,
    pub stderr: String,
}

/// Whether relaunching with administrator rights worked, from the outcome
/// of the helper program on a system that has one.
pub fn relaunch_elevated(helper: Option<HelperOutcome>) -> (r: Result<(), AdminError>)
    ensures
        match helper {
            None => r matches Err(AdminError::Unsupported(m)) && m@
                == "Elevation is only meaningful on Windows"@,
            Some(h) => if h.success {
                r is Ok
            } else {
                r matches Err(AdminError::Failed(m)) && m@ == text::trim(h.stderr@)
            },
        },
{
    match helper {
        None => Err(AdminError::Unsupported("Elevation is only meaningful on Windows".to_owned())),
        Some(h) => {
            if h.success {
                return Ok(());
            }
            let v: Vec<char> = chars_of(h.stderr.as_str());
            let t: Vec<char> = trimmed(v.as_slice());
            Err(AdminError::Failed(string_of(t.as_slice())))
        },
    }
}

/// Whether the USB device was reset, from the outcome of the helper
/// program on a system that has one.
pub fn reset_usb_device(helper: Option<HelperOutcome>) -> (r: Result<(), AdminError>)
    ensures
        match helper {
            None => r matches Err(AdminError::Unsupported(m)) && m@
                == "USB device reset is only implemented on Windows"@,
            Some(h) => if h.success {
                r is Ok
            } else {
                r matches Err(AdminError::Failed(m)) && m@
                    == "USB device reset failed (are you running hpsdr-rs as Administrator?): "@
                    + text::trim(h.stderr@)
            },
        },
{
    match helper {
        None => Err(
            AdminError::Unsupported(
                "USB device reset is only implemented on Windows".to_owned(),
            ),
        ),
        Some(h) => {
            if h.success {
                return Ok(());
            }
            let v: Vec<char> = chars_of(h.stderr.as_str());
            let mut t: Vec<char> = trimmed(v.as_slice());
            let mut m: Vec<char> = chars_of(
                "USB device reset failed (are you running hpsdr-rs as Administrator?): ",
            );
            m.append(&mut t);
            Err(AdminError::Failed(string_of(m.as_slice())))
        },
    }
}

/// `s` with each single quote doubled.
pub open spec fn quoted(s: Seq<char>) -> Seq<char>
    decreases s.len(),
{
    if s.len() == 0 {
        Seq::empty()
    } else if s.last() == '\'' {
        quoted(s.drop_last()) + seq!['\'', '\'']
    } else {
        quoted(s.drop_last()).push(s.last())
    }
}

/// The shell command that starts a program with administrator rights.
pub fn relaunch_script(exe: &str) -> (script: String)
    ensures
        script@ == "Start-Process -FilePath '"@ + quoted(exe@) + "' -Verb runas"@,
{
    let mut v: Vec<char> = chars_of("Start-Process -FilePath '");
    let ghost head = v@;
    assert(head + quoted(exe@.take(0)) =~= head);
    for c in it: exe.chars()
        invariant
            it.seq() == exe@,
            v@ == head + quoted(exe@.take(it.index() as int)),
    {
        proof {
            let n = it.index() as int;
            assert(exe@.take(n + 1).drop_last() =~= exe@.take(n));
            assert(exe@.take(n + 1).last() == c);
        }
        let ghost before = v@;
        v.push(c);
        if c == '\'' {
            v.push(c);
            assert(v@ =~= before + seq!['\'', '\'']);
        }
        assert(v@ =~= head + quoted(exe@.take(it.index() + 1)));
    }
    assert(exe@.take(exe@.len() as int) =~= exe@);
    push_str(&mut v, "' -Verb runas");
    string_of(v.as_slice())
}

// ---------------------------------------------------------------------
// Laws
// ---------------------------------------------------------------------

/// The two boards' names, and the line of the settings file that sets each.
pub proof fn law_fpga_names(f: Fpga, value: Seq<char>)
    ensures
        fpga_line(f) == (match f {
            Fpga::Cl016 => "fpga=CL016"@,
            Fpga::Cl025 => "fpga=CL025"@,
        }),
        fpga_named(value) == Some(Fpga::Cl016) <==> text::trim(value) == "CL016"@,
        fpga_named(value) == Some(Fpga::Cl025) <==> text::trim(value) == "CL025"@,
        fpga_named(value) is None <==> text::trim(value) != "CL016"@ && text::trim(value)
            != "CL025"@,
{
    reveal_strlit("fpga=");
    reveal_strlit("CL016");
    reveal_strlit("CL025");
    reveal_strlit("fpga=CL016");
    reveal_strlit("fpga=CL025");
    assert("fpga="@ + "CL016"@ =~= "fpga=CL016"@);
    assert("fpga="@ + "CL025"@ =~= "fpga=CL025"@);
    assert("CL016"@[4] != "CL025"@[4]);
}

/// A line sets the board that its value names, where the line, without the
/// spaces around it, is the key and the value; no other line sets any.
pub proof fn law_line_sets_its_value(line: Seq<char>, value: Seq<char>)
    ensures
        text::trim(line) == "fpga="@ + value ==> line_value(line) == fpga_named(value),
        line_value(line) is Some ==> text::trim(line).len() > 5 && text::trim(line).take(5)
            == "fpga="@,
{
    reveal_strlit("fpga=");
    let t = text::trim(line);
    if t == "fpga="@ + value {
        assert(t.take(5) =~= "fpga="@);
        assert(t.skip(5) =~= value);
    }
    if line_value(line) is Some && t.len() == 5 {
        assert(t.skip(5) =~= Seq::<char>::empty());
        assert(text::leading_spaces(Seq::<char>::empty()) == 0);
        assert(text::trim(Seq::<char>::empty()) =~= Seq::<char>::empty());
        reveal_strlit("CL016");
        reveal_strlit("CL025");
    }
}

/// Of several lines the first that sets a board counts.
pub proof fn law_first_line_counts(front: Seq<Seq<char>>, line: Seq<char>, back: Seq<Seq<char>>)
    requires
        forall|k: int| 0 <= k < front.len() ==> line_value(#[trigger] front[k]) is None,
    ensures
        line_value(line) is Some ==> first_value(front.push(line) + back) == line_value(line),
        first_value(front) is None,
    decreases front.len(),
{
    let all = front.push(line) + back;
    if front.len() == 0 {
        assert(all[0] == line);
    } else {
        let rest = front.skip(1);
        assert forall|k: int| 0 <= k < rest.len() implies line_value(#[trigger] rest[k]) is None by {
            assert(rest[k] == front[k + 1]);
        }
        law_first_line_counts(rest, line, back);
        assert(all[0] == front[0]);
        assert(all.skip(1) =~= rest.push(line) + back);
        assert(line_value(front[0]) is None);
    }
}

/// Setting the board replaces the first line that begins with its key,
/// whatever its value, or adds a line at the end where there is none.
pub proof fn law_where_the_line_goes(
    front: Seq<Seq<char>>,
    line: Seq<char>,
    back: Seq<Seq<char>>,
    f: Fpga,
)
    requires
        forall|k: int|
            0 <= k < front.len() ==> !is_fpga_line(#[trigger] front[k]),
        is_fpga_line(line),
    ensures
        with_fpga(front.push(line) + back, f) == front.push(fpga_line(f)) + back,
        with_fpga(front, f) == front.push(fpga_line(f)),
{
    lemma_first_fpga_line(front, line, back);
    assert(with_fpga(front.push(line) + back, f) =~= front.push(fpga_line(f)) + back);
}

proof fn lemma_first_fpga_line(front: Seq<Seq<char>>, line: Seq<char>, back: Seq<Seq<char>>)
    requires
        forall|k: int|
            0 <= k < front.len() ==> !is_fpga_line(#[trigger] front[k]),
        is_fpga_line(line),
    ensures
        first_fpga_line(front.push(line) + back) == front.len(),
        first_fpga_line(front) == front.len(),
    decreases front.len(),
{
    let all = front.push(line) + back;
    if front.len() == 0 {
        assert(all[0] == line);
    } else {
        let rest = front.skip(1);
        assert forall|k: int| 0 <= k < rest.len() implies !is_fpga_line(#[trigger] rest[k]) by {
            assert(rest[k] == front[k + 1]);
        }
        lemma_first_fpga_line(rest, line, back);
        assert(all[0] == front[0]);
        assert(all.skip(1) =~= rest.push(line) + back);
        assert(!is_fpga_line(front[0]));
    }
}

/// A line counts as the board's where, behind any spaces, it begins with
/// the key.
pub proof fn law_key_begins_the_line(line: Seq<char>)
    ensures
        is_fpga_line(line) <==> text::trim_start(line).len() >= 5 && text::trim_start(line).take(5)
            == "fpga="@,
{
    reveal_strlit("fpga=");
}

/// The console keeps 2000 lines and shows each without the line ends behind
/// it: none is left, and nothing else is taken.
pub proof fn law_console_lines(s: Seq<char>)
    ensures
        MAX_CONSOLE_LINES == 2000,
        ({
            let t = without_end(s);
            &&& t.len() <= s.len() && t == s.take(t.len() as int)
            &&& t.len() > 0 ==> t.last() != '\n' && t.last() != '\r'
            &&& forall|i: int|
                t.len() <= i < s.len() ==> #[trigger] s[i] == '\n' || s[i] == '\r'
        }),
    decreases s.len(),
{
    if s.len() > 0 && (s.last() == '\n' || s.last() == '\r') {
        let r = s.drop_last();
        law_console_lines(r);
        let t = without_end(s);
        assert(t == without_end(r));
        assert(r.take(t.len() as int) =~= s.take(t.len() as int));
        assert forall|i: int| t.len() <= i < s.len() implies #[trigger] s[i] == '\n' || s[i]
            == '\r' by {
            if i < r.len() {
                assert(r[i] == s[i]);
            }
        }
    } else {
        assert(s.take(s.len() as int) =~= s);
    }
}

/// What a stop is reported as: a graceful end, a forced one, or neither
/// where nothing was started; and behind it a warning exactly where others
/// were stopped without the rights to.
pub proof fn law_stop_notes(ended: Option<bool>, swept: bool, elevated: bool)
    ensures
        ({
            let n = stop_notes(ended, swept, elevated);
            let warned = swept && !elevated;
            &&& n.len() == (if ended is Some {
                1int
            } else {
                0
            }) + (if warned {
                1int
            } else {
                0
            })
            &&& ended == Some(true) ==> n[0].take(11) == "--- stopped"@
            &&& ended == Some(false) ==> n[0].take(15) == "--- forced kill"@
            &&& warned ==> n.last().take(11) == "--- warning"@
        }),
{
    reveal_strlit("--- stopped (graceful shutdown, USB released cleanly) ---");
    reveal_strlit("--- forced kill sent (juice didn't exit on its own in time) ---");
    reveal_strlit("--- warning: hpsdr-rs is NOT running as Administrator -- the kill above may have silently failed to fully release the USB device (\"Access is denied\" is the typical Windows failure mode here). Use \"Relaunch as Administrator\" and try Stop again. ---");
    reveal_strlit("--- stopped");
    reveal_strlit("--- forced kill");
    reveal_strlit("--- warning");
    let n = stop_notes(ended, swept, elevated);
    if ended == Some(true) {
        assert(n[0].take(11) =~= "--- stopped"@);
    }
    if ended == Some(false) {
        assert(n[0].take(15) =~= "--- forced kill"@);
    }
    if swept && !elevated {
        assert(n.last().take(11) =~= "--- warning"@);
    }
}

/// Quoting doubles each single quote and keeps every other character; the
/// quoted text of two parts is that of each behind the other.
pub proof fn law_quoting(a: Seq<char>, b: Seq<char>, c: char)
    ensures
        quoted(a + b) == quoted(a) + quoted(b),
        quoted(seq![c]) == (if c == '\'' {
            seq![c, c]
        } else {
            seq![c]
        }),
        quoted(Seq::empty()) == Seq::<char>::empty(),
    decreases b.len(),
{
    if b.len() == 0 {
        assert(a + b =~= a);
        assert(quoted(a) + quoted(b) =~= quoted(a));
    } else {
        law_quoting(a, b.drop_last(), c);
        assert((a + b).drop_last() =~= a + b.drop_last());
        assert(quoted(a + b) =~= quoted(a) + quoted(b));
    }
    assert(seq![c].drop_last() =~= Seq::<char>::empty());
    assert(quoted(seq![c].drop_last()) =~= Seq::<char>::empty());
    if c == '\'' {
        assert(quoted(seq![c]) =~= seq![c, c]);
    } else {
        assert(quoted(seq![c]) =~= seq![c]);
    }
}

/// A file beside a program in a directory stands in that directory, behind
/// one separator; beside one in the root it stands in the root, and beside
/// one whose path names no directory it stands alone.
pub proof fn law_files_beside(
    path: Seq<char>,
    dir: Seq<char>,
    exe: Seq<char>,
    name: Seq<char>,
)
    requires
        plain_name(exe),
    ensures
        plain_dir(dir) && is_beside(path, dir + seq!['/'] + exe, name) ==> {
            &&& path.len() == dir.len() + 1 + name.len()
            &&& path.take(dir.len() as int) == dir
            &&& path[dir.len() as int] == '/' || path[dir.len() as int] == '\\'
            &&& path.skip(dir.len() as int + 1) == name
        },
        is_beside(path, seq!['/'] + exe, name) ==> path == seq!['/'] + name,
        is_beside(path, exe, name) ==> path == name,
        is_beside(path, Seq::empty(), name) ==> path == name,
{
    assert(dir + seq!['/'] + exe =~= dir.push('/') + exe);
    if plain_dir(dir) && is_beside(path, dir.push('/') + exe, name) {
        assert(inside(path, dir, name));
        assert(path.take(dir.len() as int) =~= dir);
        assert(path.skip(dir.len() as int + 1) =~= name);
    }
}

/// Which paths read alike everywhere: names without slash, backslash and
/// colon, and directories of such names with single slashes between them.
pub proof fn law_plain_paths(a: Seq<char>, b: Seq<char>)
    requires
        forall|i: int|
            0 <= i < a.len() ==> #[trigger] a[i] != '/' && a[i] != '\\' && a[i] != ':',
        a.len() > 2,
        plain_dir(b),
    ensures
        plain_name(a),
        plain_dir(a),
        plain_dir(b + seq!['/'] + a),
        plain_dir(seq!['/'] + a),
{
    assert forall|i: int| 0 <= i < a.len() implies !#[trigger] dot_alone(a, i) by {
    }
    let s = b + seq!['/'] + a;
    let n = b.len() as int;
    assert forall|i: int| 0 <= i < s.len() implies plain_char(#[trigger] s[i]) || s[i] == '/' by {
        if i < n {
            assert(s[i] == b[i]);
        } else if i > n {
            assert(s[i] == a[i - n - 1]);
        }
    }
    assert forall|i: int| 0 <= i < s.len() - 1 && #[trigger] s[i] == '/' implies s[i + 1]
        != '/' by {
        if i < n - 1 {
            assert(s[i] == b[i] && s[i + 1] == b[i + 1]);
        } else if i == n - 1 {
            assert(s[i] == b[n - 1]);
        } else if i == n {
            assert(s[i + 1] == a[0]);
        } else {
            assert(s[i] == a[i - n - 1]);
        }
    }
    assert forall|i: int| 0 <= i < s.len() implies !#[trigger] dot_alone(s, i) by {
        if i < n {
            assert(!dot_alone(b, i));
            assert(s[i] == b[i]);
            if i > 0 {
                assert(s[i - 1] == b[i - 1]);
            }
            if i < n - 1 {
                assert(s[i + 1] == b[i + 1]);
            }
        } else if i > n {
            let j = i - n - 1;
            assert(s[i] == a[j]);
            if j > 0 {
                assert(s[i - 1] == a[j - 1]);
            } else {
                assert(s[i + 1] == a[j + 1]);
            }
        }
    }
    assert(s.last() == a.last());
    let r = seq!['/'] + a;
    assert forall|i: int| 0 <= i < r.len() implies plain_char(#[trigger] r[i]) || r[i] == '/' by {
        if i > 0 {
            assert(r[i] == a[i - 1]);
        }
    }
    assert forall|i: int| 0 <= i < r.len() - 1 && #[trigger] r[i] == '/' implies r[i + 1]
        != '/' by {
        assert(r[i + 1] == a[i]);
        if i > 0 {
            assert(r[i] == a[i - 1]);
        }
    }
    assert forall|i: int| 0 <= i < r.len() implies !#[trigger] dot_alone(r, i) by {
        if i > 0 {
            assert(r[i] == a[i - 1]);
            if i > 1 {
                assert(r[i - 1] == a[i - 2]);
            } else {
                assert(r[i + 1] == a[1]);
            }
        }
    }
    assert(r.last() == a.last());
}

/// A name that reads alike everywhere holds no slash, backslash or colon,
/// and is neither one nor two dots.
pub proof fn law_plain_names(s: Seq<char>, i: int)
    requires
        plain_name(s),
    ensures
        s.len() > 0,
        s != seq!['.'] && s != seq!['.', '.'],
        0 <= i < s.len() ==> s[i] != '/' && s[i] != '\\' && s[i] != ':',
{
    if 0 <= i < s.len() {
        assert(plain_char(s[i]));
    }
}

/// A name that stands behind a directory follows its text at once or behind
/// one separator.
pub proof fn law_names_stand_behind(path: Seq<char>, dir: Seq<char>, name: Seq<char>)
    requires
        behind(path, dir, name),
    ensures
        path.len() == dir.len() + name.len() || path.len() == dir.len() + 1 + name.len(),
        path.take(dir.len() as int) == dir,
        path.skip(path.len() - name.len()) == name,
        path.len() == dir.len() + 1 + name.len() ==> path[dir.len() as int] == '/'
            || path[dir.len() as int] == '\\',
        dir.len() == 0 || dir.last() == '/' ==> path.len() == dir.len() + name.len(),
        dir.len() > 0 && dir.last() != '/' && dir.last() != '\\' && dir.last() != ':' ==> path.len()
            == dir.len() + 1 + name.len(),
{
    assert(path.take(dir.len() as int) =~= dir);
    assert(path.skip(path.len() - name.len()) =~= name);
}

} // verus!
