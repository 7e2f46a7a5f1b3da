use vstd::prelude::*;

use crate::s_exp_formatter::{format_s_expr, format_s_expr_chars, format_s_expr_spec};
use vstd::utf8::encode_utf8;
use crate::text::{
    chars_of, chars_view, copy_range, push_all, push_repeat, repeat_char, string_of, trim,
    trim_chars,
};

verus! {

/// A line without the carriage return of a `\r\n` ending.
pub open spec fn strip_cr(l: Seq<char>) -> Seq<char> {
    if l.len() > 0 && l.last() == '\r' {
        l.drop_last()
    } else {
        l
    }
}

/// Lines ended by `\n` so far in `s`, and the text after the last `\n`.
pub open spec fn line_scan(s: Seq<char>) -> (Seq<Seq<char>>, Seq<char>)
    decreases s.len(),
{
    if s.len() == 0 {
        (seq![], seq![])
    } else {
        let (done, cur) = line_scan(s.drop_last());
        if s.last() == '\n' {
            (done.push(strip_cr(cur)), seq![])
        } else {
            (done, cur.push(s.last()))
        }
    }
}

/// The lines of `s`, split at `\n` or `\r\n`; a final line ending is optional.
pub open spec fn lines_of(s: Seq<char>) -> Seq<Seq<char>> {
    let (done, cur) = line_scan(s);
    if cur.len() == 0 {
        done
    } else {
        done.push(cur)
    }
}

/// Splits text into lines.
pub fn split_lines(s: &Vec<char>) -> (r: Vec<Vec<char>>)
    ensures
        chars_view(r@) == lines_of(s@),
{
    let mut done: Vec<Vec<char>> = Vec::new();
    let mut cur: Vec<char> = Vec::new();
    let mut i: usize = 0;
    assert(s@.subrange(0, 0) =~= Seq::<char>::empty());
    while i < s.len()
        invariant
            i <= s.len(),
            (chars_view(done@), cur@) == line_scan(s@.subrange(0, i as int)),
        decreases s.len() - i,
    {
        assert(s@.subrange(0, i + 1).drop_last() =~= s@.subrange(0, i as int));
        if s[i] == '\n' {
            let n = cur.len();
            let line = if n > 0 && cur[n - 1] == '\r' {
                copy_range(&cur, 0, n - 1)
            } else {
                cur
            };
            assert(line@ =~= strip_cr(cur@));
            done.push(line);
            cur = Vec::new();
            assert(chars_view(done@) =~= line_scan(s@.subrange(0, i + 1)).0);
        } else {
            cur.push(s[i]);
        }
        i += 1;
    }
    assert(s@.subrange(0, s.len() as int) =~= s@);
    if cur.len() > 0 {
        done.push(cur);
        assert(chars_view(done@) =~= lines_of(s@));
    }
    done
}

/// A line of three or more `c` and nothing else.
pub open spec fn is_rule_line(l: Seq<char>, c: char) -> bool {
    l.len() >= 3 && forall|k: int| 0 <= k < l.len() ==> l[k] == c
}

pub fn is_rule(l: &Vec<char>, c: char) -> (r: bool)
    ensures
        r == is_rule_line(l@, c),
{
    if l.len() < 3 {
        return false;
    }
    let mut k: usize = 0;
    while k < l.len()
        invariant
            k <= l.len(),
            forall|j: int| 0 <= j < k ==> l@[j] == c,
        decreases l.len() - k,
    {
        if l[k] != c {
            return false;
        }
        k += 1;
    }
    true
}

/// What a fixture holds, as character sequences.
pub struct FixtureText {
    pub name: Seq<char>,
    pub input: Seq<char>,
    pub expected: Seq<char>,
}

/// One named test case: its title, its source snippet and its expected tree.
#[derive(Debug, Clone, PartialEq, Eq, Default)]
pub struct Fixture {
    pub name: String,
    pub input: String,
    pub expected: String,
}

impl View for Fixture {
    type V = FixtureText;

    open spec fn view(&self) -> FixtureText {
        FixtureText { name: self.name@, input: self.input@, expected: self.expected@ }
    }
}

pub open spec fn fixture_views(fs: Seq<Fixture>) -> Seq<FixtureText> {
    fs.map_values(|f: Fixture| f@)
}

/// Where the segmenter stands in a fixture file.
#[derive(Debug, Clone, Copy, PartialEq, Eq)]
pub enum Section {
    /// Before the first name delimiter.
    Seeking,
    /// Between the two name delimiters.
    InName,
    /// In the input, before the `---` separator.
    InBody,
    /// In the expected tree, after the separator.
    InExpected,
}

pub open spec fn blank() -> FixtureText {
    FixtureText { name: seq![], input: seq![], expected: seq![] }
}

/// One transition of the segmenter on `line`: the next section, the finished fixtures and
/// the fixture being read.
pub open spec fn seg_step(sec: Section, done: Seq<FixtureText>, cur: FixtureText, line: Seq<char>) -> (
    Section,
    Seq<FixtureText>,
    FixtureText,
) {
    match sec {
        Section::Seeking => if is_rule_line(line, '=') {
            (Section::InName, done, cur)
        } else {
            (Section::Seeking, done, cur)
        },
        Section::InName => if is_rule_line(line, '=') {
            (Section::InBody, done, cur)
        } else {
            (
                Section::InName,
                done,
                FixtureText { name: line, input: cur.input, expected: cur.expected },
            )
        },
        Section::InBody => if is_rule_line(line, '-') {
            (Section::InExpected, done, cur)
        } else {
            (
                Section::InBody,
                done,
                FixtureText { name: cur.name, input: cur.input + line.push('\n'), expected: cur.expected },
            )
        },
        Section::InExpected => if is_rule_line(line, '=') {
            (Section::InName, done.push(cur), blank())
        } else {
            (
                Section::InExpected,
                done,
                FixtureText { name: cur.name, input: cur.input, expected: cur.expected + line.push('\n') },
            )
        },
    }
}

/// The segmenter's state after reading `lines`.
pub open spec fn seg_run(lines: Seq<Seq<char>>) -> (Section, Seq<FixtureText>, FixtureText)
    decreases lines.len(),
{
    if lines.len() == 0 {
        (Section::Seeking, seq![], blank())
    } else {
        let (sec, done, cur) = seg_run(lines.drop_last());
        seg_step(sec, done, cur, lines.last())
    }
}

/// The fixtures of a file, in order; the one being read at the end is always kept.
pub open spec fn fixtures_of(text: Seq<char>) -> Seq<FixtureText> {
    let (_sec, done, cur) = seg_run(lines_of(text));
    done.push(cur)
}

fn to_fixture(name: &Vec<char>, input: &Vec<char>, expected: &Vec<char>) -> (r: Fixture)
    ensures
        r@ == (FixtureText { name: name@, input: input@, expected: expected@ }),
{
    Fixture { name: string_of(name), input: string_of(input), expected: string_of(expected) }
}

/// Splits the text of a fixture file into its fixtures.
pub fn parse_fixtures(text: &str) -> (r: Vec<Fixture>)
    ensures
        fixture_views(r@) == fixtures_of(text@),
{
    let cs = chars_of(text);
    let lines = split_lines(&cs);
    let ghost ls = chars_view(lines@);
    let mut sec = Section::Seeking;
    let mut done: Vec<Fixture> = Vec::new();
    let mut name: Vec<char> = Vec::new();
    let mut input: Vec<char> = Vec::new();
    let mut expected: Vec<char> = Vec::new();
    let mut i: usize = 0;
    assert(ls.subrange(0, 0) =~= Seq::<Seq<char>>::empty());
    assert(fixture_views(done@) =~= Seq::<FixtureText>::empty());
    while i < lines.len()
        invariant
            i <= lines.len(),
            ls == chars_view(lines@),
            ls == lines_of(cs@),
            cs@ == text@,
            (sec, fixture_views(done@), FixtureText { name: name@, input: input@, expected: expected@ })
                == seg_run(ls.subrange(0, i as int)),
        decreases lines.len() - i,
    {
        let line = &lines[i];
        assert(ls.subrange(0, i + 1).drop_last() =~= ls.subrange(0, i as int));
        assert(ls.subrange(0, i + 1).last() == line@);
        let ghost done0 = done@;
        match sec {
            Section::Seeking => {
                if is_rule(line, '=') {
                    sec = Section::InName;
                }
            },
            Section::InName => {
                if is_rule(line, '=') {
                    sec = Section::InBody;
                } else {
                    name = copy_range(line, 0, line.len());
                    assert(name@ =~= line@);
                }
            },
            Section::InBody => {
                if is_rule(line, '-') {
                    sec = Section::InExpected;
                } else {
                    push_all(&mut input, line);
                    input.push('\n');
                }
            },
            Section::InExpected => {
                if is_rule(line, '=') {
                    sec = Section::InName;
                    let f = to_fixture(&name, &input, &expected);
                    done.push(f);
                    assert(fixture_views(done@) =~= fixture_views(done0).push(f@));
                    name = Vec::new();
                    input = Vec::new();
                    expected = Vec::new();
                } else {
                    push_all(&mut expected, line);
                    expected.push('\n');
                }
            },
        }
        i += 1;
    }
    assert(ls.subrange(0, lines.len() as int) =~= ls);
    let ghost done0 = done@;
    let f = to_fixture(&name, &input, &expected);
    done.push(f);
    assert(fixture_views(done@) =~= fixture_views(done0).push(f@));
    done
}

/// The width of a name delimiter: the name's length in UTF-8 bytes, at least three.
pub open spec fn rule_width(name: Seq<char>) -> nat {
    let l = encode_utf8(name).len();
    if l < 3 {
        3
    } else {
        l
    }
}

/// The name block: a line of `=`, the trimmed name, the same line of `=`.
pub open spec fn render_name(name: Seq<char>) -> Seq<char> {
    let t = trim(name);
    let rule = repeat_char('=', rule_width(t));
    rule + seq!['\n'] + t + seq!['\n'] + rule
}

pub open spec fn blank_line() -> Seq<char> {
    seq!['\n', '\n']
}

/// A fixture in canonical form.
pub open spec fn render_fixture(f: FixtureText) -> Seq<char> {
    render_name(f.name) + blank_line() + trim(f.input) + blank_line() + seq!['-', '-', '-']
        + blank_line() + format_s_expr_spec(f.expected)
}

/// The parts joined with an empty line between each two.
pub open spec fn join_blank(parts: Seq<Seq<char>>) -> Seq<char>
    decreases parts.len(),
{
    if parts.len() == 0 {
        seq![]
    } else if parts.len() == 1 {
        parts[0]
    } else {
        join_blank(parts.drop_last()) + blank_line() + parts.last()
    }
}

/// A whole file in canonical form.
pub open spec fn render_file(fs: Seq<FixtureText>) -> Seq<char> {
    join_blank(fs.map_values(|f: FixtureText| render_fixture(f)))
}

fn push_blank_line(out: &mut Vec<char>)
    ensures
        final(out)@ == old(out)@ + blank_line(),
{
    out.push('\n');
    out.push('\n');
    assert(out@ =~= old(out)@ + blank_line());
}

impl Fixture {
    fn name_chars(&self) -> (r: Vec<char>)
        ensures
            r@ == render_name(self.name@),
    {
        let t = trim_chars(&chars_of(self.name.as_str()));
        let ts = string_of(&t);
        let tstr = ts.as_str();
        let l = tstr.as_bytes().len();
        assert(tstr@ == t@);
        assert(l == encode_utf8(t@).len());
        let n = if l < 3 {
            3
        } else {
            l
        };
        assert(n as nat == rule_width(t@));
        let mut out: Vec<char> = Vec::new();
        push_repeat(&mut out, '=', n);
        out.push('\n');
        push_all(&mut out, &t);
        out.push('\n');
        push_repeat(&mut out, '=', n);
        assert(out@ =~= render_name(self.name@));
        out
    }

    /// The name block; each delimiter line holds `max(3, L)` `=`, where `L` is the UTF-8
    /// length of the trimmed name.
    pub fn format_name(&self) -> (r: String)
        ensures
            r@ == render_name(self.name@),
            ({
                let t = trim(self.name@);
                let w = if encode_utf8(t).len() < 3 {
                    3
                } else {
                    encode_utf8(t).len()
                };
                r@ == repeat_char('=', w) + seq!['\n'] + t + seq!['\n'] + repeat_char('=', w)
            }),
    {
        string_of(&self.name_chars())
    }

    /// The input without leading and trailing whitespace.
    pub fn format_input(&self) -> (r: String)
        ensures
            r@ == trim(self.input@),
    {
        string_of(&trim_chars(&chars_of(self.input.as_str())))
    }

    /// The expected tree, re-indented.
    pub fn format_expected(&self) -> (r: String)
        ensures
            r@ == format_s_expr_spec(self.expected@),
    {
        format_s_expr(self.expected.as_str())
    }

    fn render_chars(&self) -> (r: Vec<char>)
        ensures
            r@ == render_fixture(self@),
    {
        let mut out = self.name_chars();
        push_blank_line(&mut out);
        push_all(&mut out, &trim_chars(&chars_of(self.input.as_str())));
        push_blank_line(&mut out);
        out.push('-');
        out.push('-');
        out.push('-');
        push_blank_line(&mut out);
        push_all(&mut out, &format_s_expr_chars(&chars_of(self.expected.as_str())));
        assert(out@ =~= render_fixture(self@));
        out
    }

    /// The fixture in canonical form: name block, input, `---`, expected tree, with an
    /// empty line between each two.
    pub fn format(&self) -> (r: String)
        ensures
            r@ == render_fixture(self@),
    {
        string_of(&self.render_chars())
    }
}

/// Renders fixtures and joins them with an empty line between each two.
pub fn render_fixtures(fs: &Vec<Fixture>) -> (r: String)
    ensures
        r@ == render_file(fixture_views(fs@)),
{
    let ghost parts = fixture_views(fs@).map_values(|f: FixtureText| render_fixture(f));
    let mut out: Vec<char> = Vec::new();
    let mut i: usize = 0;
    while i < fs.len()
        invariant
            i <= fs.len(),
            parts == fixture_views(fs@).map_values(|f: FixtureText| render_fixture(f)),
            out@ == join_blank(parts.subrange(0, i as int)),
        decreases fs.len() - i,
    {
        assert(parts.subrange(0, i + 1).drop_last() =~= parts.subrange(0, i as int));
        if i > 0 {
            push_blank_line(&mut out);
        }
        push_all(&mut out, &fs[i].render_chars());
        i += 1;
    }
    assert(parts.subrange(0, fs.len() as int) =~= parts);
    string_of(&out)
}

/// Rewrites the text of a fixture file in canonical form.
pub fn format_fixture_file(text: &str) -> (r: String)
    ensures
        r@ == render_file(fixtures_of(text@)),
{
    render_fixtures(&parse_fixtures(text))
}

/// A file path, carried through unread.
#[verifier::external_type_specification]
#[verifier::external_body]
pub struct ExPathBuf(std::path::PathBuf);

/// A borrowed file path, carried through unread.
#[verifier::external_type_specification]
#[verifier::external_body]
pub struct ExPath(std::path::Path);

/// Relies on `PathBuf::as_path`: borrows the path; nothing is stated of it.
pub assume_specification[ std::path::PathBuf::as_path ](p: &std::path::PathBuf) -> &std::path::Path;

/// A fixture file: where it is stored and the fixtures it holds.
pub struct TestFile {
    pub path: std::path::PathBuf,
    pub fixtures: Vec<Fixture>,
}

impl TestFile {
    /// Splits `text`, the contents of the file at `path`, into its fixtures.
    pub fn from_text(path: std::path::PathBuf, text: &str) -> (r: TestFile)
        ensures
            r.path == path,
            fixture_views(r.fixtures@) == fixtures_of(text@),
    {
        TestFile { path, fixtures: parse_fixtures(text) }
    }

    /// Where the file is stored.
    pub fn path(&self) -> &std::path::Path {
        self.path.as_path()
    }

    /// The file's fixtures in canonical form, an empty line between each two.
    pub fn format(&self) -> (r: String)
        ensures
            r@ == render_file(fixture_views(self.fixtures@)),
    {
        render_fixtures(&self.fixtures)
    }
}

proof fn lemma_one_open_fixture(ls: Seq<Seq<char>>, n: int)
    requires
        3 <= n <= ls.len(),
        is_rule_line(ls[0], '='),
        !is_rule_line(ls[1], '='),
        is_rule_line(ls[2], '='),
        forall|k: int| 3 <= k < ls.len() ==> !is_rule_line(#[trigger] ls[k], '='),
    ensures
        ({
            let (sec, done, cur) = seg_run(ls.subrange(0, n));
            &&& done.len() == 0
            &&& (sec == Section::InBody || sec == Section::InExpected)
            &&& cur.name == ls[1]
        }),
    decreases n,
{
    let pre = ls.subrange(0, n);
    assert(pre.drop_last() =~= ls.subrange(0, n - 1));
    if n == 3 {
        let p1 = ls.subrange(0, 1);
        let p2 = ls.subrange(0, 2);
        assert(p1.drop_last() =~= ls.subrange(0, 0));
        assert(p2.drop_last() =~= p1);
        assert(p1.last() == ls[0]);
        assert(p2.last() == ls[1]);
        assert(pre.last() == ls[2]);
        assert(seg_run(ls.subrange(0, 0)) == (Section::Seeking, Seq::<FixtureText>::empty(), blank()));
        assert(seg_run(p1).0 == Section::InName);
        assert(seg_run(p2).0 == Section::InName);
        assert(seg_run(p2).2.name == ls[1]);
    } else {
        lemma_one_open_fixture(ls, n - 1);
        assert(pre.last() == ls[n - 1]);
        assert(!is_rule_line(ls[n - 1], '='));
    }
}

/// A file whose first line opens a name block, whose second line is the name and whose third
/// closes the block, with no name delimiter after it, yields exactly one fixture with that
/// name, even though no delimiter follows it; its rendering is the whole output.
pub proof fn last_fixture_kept(text: Seq<char>)
    requires
        lines_of(text).len() >= 3,
        is_rule_line(lines_of(text)[0], '='),
        !is_rule_line(lines_of(text)[1], '='),
        is_rule_line(lines_of(text)[2], '='),
        forall|k: int|
            3 <= k < lines_of(text).len() ==> !is_rule_line(#[trigger] lines_of(text)[k], '='),
    ensures
        fixtures_of(text).len() == 1,
        fixtures_of(text)[0].name == lines_of(text)[1],
        render_file(fixtures_of(text)) == render_fixture(fixtures_of(text)[0]),
{
    let ls = lines_of(text);
    lemma_one_open_fixture(ls, ls.len() as int);
    assert(ls.subrange(0, ls.len() as int) =~= ls);
    let parts = fixtures_of(text).map_values(|f: FixtureText| render_fixture(f));
    assert(parts.len() == 1);
}

} // verus!
