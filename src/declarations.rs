//! Declarations of packages in project files: `<package id="X" version="Y"`
//! in a `packages.config` manifest, `<PackageReference Include="X" Version="Y"`
//! in a `.csproj` project file. Each physical line holds at most one.
use vstd::prelude::*;
use crate::text::{chars_of, find_char, lemma_next_char_bounds, next_char, occurs_at, substring};

verus! {

/// A declared dependency: its name and its version, as written.
pub type Declaration = (String, String);

pub open spec fn decl_view(d: Declaration) -> (Seq<char>, Seq<char>) {
    (d.0@, d.1@)
}

pub open spec fn decls_view(ds: Seq<Declaration>) -> Seq<(Seq<char>, Seq<char>)> {
    ds.map_values(|d: Declaration| decl_view(d))
}

/// `<package id="`
pub open spec fn legacy_open() -> Seq<char> {
    seq!['<', 'p', 'a', 'c', 'k', 'a', 'g', 'e', ' ', 'i', 'd', '=', '"']
}

/// `" version="`
pub open spec fn legacy_mid() -> Seq<char> {
    seq!['"', ' ', 'v', 'e', 'r', 's', 'i', 'o', 'n', '=', '"']
}

/// `<PackageReference Include="`
pub open spec fn modern_open() -> Seq<char> {
    seq![
        '<', 'P', 'a', 'c', 'k', 'a', 'g', 'e', 'R', 'e', 'f', 'e', 'r', 'e', 'n', 'c', 'e', ' ',
        'I', 'n', 'c', 'l', 'u', 'd', 'e', '=', '"',
    ]
}

/// `" Version="`
pub open spec fn modern_mid() -> Seq<char> {
    seq!['"', ' ', 'V', 'e', 'r', 's', 'i', 'o', 'n', '=', '"']
}

/// The declaration that starts at position `i` of `line`: `open`, a name of at
/// least one character up to the next `"`, `mid`, and a version of at least
/// one character up to the next `"`, which must be there.
pub open spec fn match_at(line: Seq<char>, i: int, open: Seq<char>, mid: Seq<char>) -> Option<
    (Seq<char>, Seq<char>),
> {
    let a = i + open.len();
    if a <= line.len() && line.subrange(i, a) == open {
        let xe = next_char(line, a, '"');
        let b = xe + mid.len();
        if a < xe && b <= line.len() && line.subrange(xe, b) == mid {
            let ye = next_char(line, b, '"');
            if b < ye && ye < line.len() {
                Some((line.subrange(a, xe), line.subrange(b, ye)))
            } else {
                None
            }
        } else {
            None
        }
    } else {
        None
    }
}

/// The leftmost declaration of `line` that starts at `i` or later.
pub open spec fn first_match_from(line: Seq<char>, i: int, open: Seq<char>, mid: Seq<char>) -> Option<
    (Seq<char>, Seq<char>),
>
    decreases line.len() - i,
{
    if i < 0 || i >= line.len() {
        None
    } else {
        match match_at(line, i, open, mid) {
            Some(d) => Some(d),
            None => first_match_from(line, i + 1, open, mid),
        }
    }
}

/// The declarations of the lines of `text` from position `start` on, one for
/// each line that holds one, in order.
pub open spec fn declarations_from(text: Seq<char>, start: int, open: Seq<char>, mid: Seq<char>) -> Seq<
    (Seq<char>, Seq<char>),
>
    decreases text.len() - start,
{
    if start < 0 || start > text.len() {
        seq![]
    } else {
        let e = next_char(text, start, '\n');
        proof {
            lemma_next_char_bounds(text, start, '\n');
        }
        let here = match first_match_from(text.subrange(start, e), 0, open, mid) {
            Some(d) => seq![d],
            None => seq![],
        };
        if e < text.len() {
            here + declarations_from(text, e + 1, open, mid)
        } else {
            here
        }
    }
}

/// The declarations of a `packages.config` manifest.
pub open spec fn legacy_declarations(text: Seq<char>) -> Seq<(Seq<char>, Seq<char>)> {
    declarations_from(text, 0, legacy_open(), legacy_mid())
}

/// The declarations of a `.csproj` project file.
pub open spec fn modern_declarations(text: Seq<char>) -> Seq<(Seq<char>, Seq<char>)> {
    declarations_from(text, 0, modern_open(), modern_mid())
}

/// Where the declaration at `i` lies: the name from `.0` to `.1`, the version
/// from `.2` to `.3`.
fn match_at_exec(line: &Vec<char>, i: usize, open: &Vec<char>, mid: &Vec<char>) -> (r: Option<
    (usize, usize, usize, usize),
>)
    requires
        i <= line.len(),
    ensures
        match r {
            Some((a, xe, b, ye)) => {
                &&& a <= xe <= b <= ye <= line.len()
                &&& match_at(line@, i as int, open@, mid@) == Some(
                    (line@.subrange(a as int, xe as int), line@.subrange(b as int, ye as int)),
                )
            },
            None => match_at(line@, i as int, open@, mid@) is None,
        },
{
    if !occurs_at(line, i, open) {
        return None;
    }
    let a = i + open.len();
    let xe = find_char(line, a, '"');
    proof {
        lemma_next_char_bounds(line@, a as int, '"');
    }
    if !(a < xe && occurs_at(line, xe, mid)) {
        return None;
    }
    let b = xe + mid.len();
    let ye = find_char(line, b, '"');
    proof {
        lemma_next_char_bounds(line@, b as int, '"');
    }
    if b < ye && ye < line.len() {
        Some((a, xe, b, ye))
    } else {
        None
    }
}

/// The leftmost declaration of one line.
fn first_match(line: &Vec<char>, open: &Vec<char>, mid: &Vec<char>) -> (r: Option<Declaration>)
    ensures
        match r {
            Some(d) => first_match_from(line@, 0, open@, mid@) == Some(decl_view(d)),
            None => first_match_from(line@, 0, open@, mid@) is None,
        },
{
    let mut i: usize = 0;
    while i < line.len()
        invariant
            i <= line.len(),
            first_match_from(line@, i as int, open@, mid@) == first_match_from(
                line@,
                0,
                open@,
                mid@,
            ),
        decreases line.len() - i,
    {
        match match_at_exec(line, i, open, mid) {
            Some((a, xe, b, ye)) => {
                let name = substring(line, a, xe);
                let version = substring(line, b, ye);
                return Some((name, version));
            },
            None => {},
        }
        i = i + 1;
    }
    None
}

/// The declarations of `text`, line by line, for the given element shape.
fn declarations_in(text: &Vec<char>, open: &Vec<char>, mid: &Vec<char>) -> (r: Vec<Declaration>)
    ensures
        decls_view(r@) == declarations_from(text@, 0, open@, mid@),
{
    let mut out: Vec<Declaration> = Vec::new();
    let mut start: usize = 0;
    loop
        invariant_except_break
            start <= text.len(),
            decls_view(out@) + declarations_from(text@, start as int, open@, mid@)
                == declarations_from(text@, 0, open@, mid@),
        ensures
            decls_view(out@) == declarations_from(text@, 0, open@, mid@),
        decreases text.len() - start,
    {
        let e = find_char(text, start, '\n');
        proof {
            lemma_next_char_bounds(text@, start as int, '\n');
        }
        let line = crate::text::copy_range(text, start, e);
        let found = first_match(&line, open, mid);
        let ghost before = out@;
        match found {
            Some(d) => {
                out.push(d);
                assert(decls_view(out@) =~= decls_view(before) + seq![decl_view(d)]);
            },
            None => {
                assert(decls_view(out@) =~= decls_view(before));
            },
        }
        if e < text.len() {
            assert(decls_view(out@) + declarations_from(text@, e + 1, open@, mid@)
                =~= decls_view(before) + declarations_from(text@, start as int, open@, mid@));
            start = e + 1;
        } else {
            assert(decls_view(out@) =~= decls_view(before) + declarations_from(
                text@,
                start as int,
                open@,
                mid@,
            ));
            break;
        }
    }
    out
}

/// Reads the declarations of a `packages.config` manifest.
pub fn parse_packages_config(contents: &str) -> (r: Vec<Declaration>)
    ensures
        decls_view(r@) == legacy_declarations(contents@),
{
    let open = vec!['<', 'p', 'a', 'c', 'k', 'a', 'g', 'e', ' ', 'i', 'd', '=', '"'];
    let mid = vec!['"', ' ', 'v', 'e', 'r', 's', 'i', 'o', 'n', '=', '"'];
    assert(open@ =~= legacy_open());
    assert(mid@ =~= legacy_mid());
    let text = chars_of(contents);
    declarations_in(&text, &open, &mid)
}

/// Reads the declarations of a `.csproj` project file.
pub fn parse_csproj(contents: &str) -> (r: Vec<Declaration>)
    ensures
        decls_view(r@) == modern_declarations(contents@),
{
    let open = vec![
        '<', 'P', 'a', 'c', 'k', 'a', 'g', 'e', 'R', 'e', 'f', 'e', 'r', 'e', 'n', 'c', 'e', ' ',
        'I', 'n', 'c', 'l', 'u', 'd', 'e', '=', '"',
    ];
    let mid = vec!['"', ' ', 'V', 'e', 'r', 's', 'i', 'o', 'n', '=', '"'];
    assert(open@ =~= modern_open());
    assert(mid@ =~= modern_mid());
    let text = chars_of(contents);
    declarations_in(&text, &open, &mid)
}

/// A project directory as the extractor sees it: the contents of each
/// `.csproj` file directly in it, and of its `packages.config`, where there is one.
pub struct ProjectDirectory {
    pub project_files: Vec<String>,
    pub packages_config: Option<String>,
}

/// What one project file contributes: the manifest beside it where there is
/// one, else the project file's own references.
pub open spec fn authoritative_declarations(project_file: String, packages_config: Option<String>) -> Seq<
    (Seq<char>, Seq<char>),
> {
    match packages_config {
        Some(config) => legacy_declarations(config@),
        None => modern_declarations(project_file@),
    }
}

/// What the project files contribute, in order.
pub open spec fn project_declarations(project_files: Seq<String>, packages_config: Option<String>) -> Seq<
    (Seq<char>, Seq<char>),
>
    decreases project_files.len(),
{
    if project_files.len() == 0 {
        seq![]
    } else {
        project_declarations(project_files.drop_last(), packages_config)
            + authoritative_declarations(project_files.last(), packages_config)
    }
}

/// The declarations of one project directory: for each project file, those
/// of the `packages.config` beside it where there is one, else its own.
pub fn extract_packages(project: &ProjectDirectory) -> (r: Vec<Declaration>)
    ensures
        decls_view(r@) == project_declarations(project.project_files@, project.packages_config),
{
    let mut out: Vec<Declaration> = Vec::new();
    let mut k: usize = 0;
    while k < project.project_files.len()
        invariant
            k <= project.project_files.len(),
            decls_view(out@) == project_declarations(
                project.project_files@.subrange(0, k as int),
                project.packages_config,
            ),
        decreases project.project_files.len() - k,
    {
        let mut part = match &project.packages_config {
            Some(config) => parse_packages_config(config.as_str()),
            None => parse_csproj(project.project_files[k].as_str()),
        };
        let ghost before = out@;
        let ghost added = part@;
        out.append(&mut part);
        proof {
            let files = project.project_files@.subrange(0, k + 1);
            assert(files.drop_last() =~= project.project_files@.subrange(0, k as int));
            assert(decls_view(out@) =~= decls_view(before) + decls_view(added));
        }
        k = k + 1;
    }
    assert(project.project_files@.subrange(0, k as int) =~= project.project_files@);
    out
}

/// Whether `s` holds no `c`.
pub open spec fn free_of(s: Seq<char>, c: char) -> bool {
    forall|k: int| 0 <= k < s.len() ==> s[k] != c
}

proof fn lemma_next_char_after_run(s: Seq<char>, from: int, run: int, c: char)
    requires
        0 <= from <= from + run < s.len(),
        s[from + run] == c,
        forall|k: int| from <= k < from + run ==> s[k] != c,
    ensures
        next_char(s, from, c) == from + run,
    decreases run,
{
    if run > 0 {
        lemma_next_char_after_run(s, from + 1, run - 1, c);
    }
}

proof fn lemma_next_char_none(s: Seq<char>, from: int, c: char)
    requires
        0 <= from <= s.len(),
        forall|k: int| from <= k < s.len() ==> s[k] != c,
    ensures
        next_char(s, from, c) == s.len(),
    decreases s.len() - from,
{
    if from < s.len() {
        lemma_next_char_none(s, from + 1, c);
    }
}

/// No declaration starts before `i` where the characters before it hold no
/// `<`: the leftmost one from `j` on is the one from `i` on.
proof fn lemma_skip_lead(line: Seq<char>, j: int, i: int, open: Seq<char>, mid: Seq<char>)
    requires
        0 <= j <= i <= line.len(),
        open.len() > 0,
        open[0] == '<',
        forall|k: int| j <= k < i ==> line[k] != '<',
    ensures
        first_match_from(line, j, open, mid) == first_match_from(line, i, open, mid),
    decreases i - j,
{
    if j < i {
        if j + open.len() <= line.len() {
            assert(line.subrange(j, j + open.len())[0] != open[0]);
        }
        lemma_skip_lead(line, j + 1, i, open, mid);
    }
}

/// A line whose lead holds no `<` declares exactly the name and version of
/// the element that follows the lead.
proof fn lemma_declaration_line(
    open: Seq<char>,
    mid: Seq<char>,
    lead: Seq<char>,
    name: Seq<char>,
    version: Seq<char>,
    rest: Seq<char>,
)
    requires
        open.len() > 0,
        open[0] == '<',
        mid.len() > 0,
        mid[0] == '"',
        free_of(open, '\n'),
        free_of(mid, '\n'),
        free_of(lead, '<'),
        free_of(lead, '\n'),
        name.len() > 0,
        free_of(name, '"'),
        free_of(name, '\n'),
        version.len() > 0,
        free_of(version, '"'),
        free_of(version, '\n'),
        free_of(rest, '\n'),
    ensures
        declarations_from(lead + open + name + mid + version + seq!['"'] + rest, 0, open, mid)
            == seq![(name, version)],
{
    let line = lead + open + name + mid + version + seq!['"'] + rest;
    let i = lead.len() as int;
    let a = i + open.len();
    let xe = a + name.len();
    let b = xe + mid.len();
    let ye = b + version.len();
    assert(line.subrange(i, a) =~= open);
    assert(line.subrange(a, xe) =~= name);
    assert(line.subrange(xe, b) =~= mid);
    assert(line.subrange(b, ye) =~= version);
    assert(line[ye] == '"');
    lemma_next_char_after_run(line, a, name.len() as int, '"');
    lemma_next_char_after_run(line, b, version.len() as int, '"');
    assert(match_at(line, i, open, mid) == Some((name, version)));
    lemma_skip_lead(line, 0, i, open, mid);
    assert(free_of(line, '\n'));
    lemma_next_char_none(line, 0, '\n');
    assert(line.subrange(0, line.len() as int) =~= line);
}

/// A `packages.config` line whose lead holds no `<`, then
/// `<package id="NAME" version="VERSION"`, then anything, declares exactly
/// `(NAME, VERSION)`.
pub proof fn lemma_legacy_line(
    lead: Seq<char>,
    name: Seq<char>,
    version: Seq<char>,
    rest: Seq<char>,
)
    requires
        free_of(lead, '<'),
        free_of(lead, '\n'),
        name.len() > 0,
        free_of(name, '"'),
        free_of(name, '\n'),
        version.len() > 0,
        free_of(version, '"'),
        free_of(version, '\n'),
        free_of(rest, '\n'),
    ensures
        legacy_declarations(
            lead + legacy_open() + name + legacy_mid() + version + seq!['"'] + rest,
        ) == seq![(name, version)],
{
    assert(free_of(legacy_open(), '\n'));
    assert(free_of(legacy_mid(), '\n'));
    lemma_declaration_line(legacy_open(), legacy_mid(), lead, name, version, rest);
}

/// A `.csproj` line whose lead holds no `<`, then
/// `<PackageReference Include="NAME" Version="VERSION"`, then anything,
/// declares exactly `(NAME, VERSION)`.
pub proof fn lemma_modern_line(
    lead: Seq<char>,
    name: Seq<char>,
    version: Seq<char>,
    rest: Seq<char>,
)
    requires
        free_of(lead, '<'),
        free_of(lead, '\n'),
        name.len() > 0,
        free_of(name, '"'),
        free_of(name, '\n'),
        version.len() > 0,
        free_of(version, '"'),
        free_of(version, '\n'),
        free_of(rest, '\n'),
    ensures
        modern_declarations(
            lead + modern_open() + name + modern_mid() + version + seq!['"'] + rest,
        ) == seq![(name, version)],
{
    assert(free_of(modern_open(), '\n'));
    assert(free_of(modern_mid(), '\n'));
    lemma_declaration_line(modern_open(), modern_mid(), lead, name, version, rest);
}

/// Where a project directory has a `packages.config`, the extracted
/// declarations are those of the manifest, once per project file: the
/// project files' own references are never read.
pub proof fn lemma_manifest_takes_precedence(
    project_files: Seq<String>,
    other_files: Seq<String>,
    config: String,
)
    requires
        project_files.len() == other_files.len(),
    ensures
        project_declarations(project_files, Some(config)) == project_declarations(
            other_files,
            Some(config),
        ),
        project_files.len() == 1 ==> project_declarations(project_files, Some(config))
            == legacy_declarations(config@),
    decreases project_files.len(),
{
    if project_files.len() > 0 {
        lemma_manifest_takes_precedence(project_files.drop_last(), other_files.drop_last(), config);
    }
    if project_files.len() == 1 {
        assert(project_declarations(project_files.drop_last(), Some(config)) == Seq::<
            (Seq<char>, Seq<char>),
        >::empty());
        assert(project_declarations(project_files, Some(config)) =~= legacy_declarations(config@));
    }
}

proof fn lemma_next_char_shift(p: Seq<char>, s: Seq<char>, j: int, c: char)
    requires
        0 <= j <= s.len(),
    ensures
        next_char(p + s, p.len() + j, c) == p.len() + next_char(s, j, c),
    decreases s.len() - j,
{
    let t = p + s;
    if j < s.len() {
        assert(t[p.len() + j] == s[j]);
        if s[j] != c {
            lemma_next_char_shift(p, s, j + 1, c);
        }
    }
}

proof fn lemma_declarations_shift(
    p: Seq<char>,
    s: Seq<char>,
    j: int,
    open: Seq<char>,
    mid: Seq<char>,
)
    requires
        0 <= j <= s.len(),
    ensures
        declarations_from(p + s, p.len() + j, open, mid) == declarations_from(s, j, open, mid),
    decreases s.len() - j,
{
    let t = p + s;
    lemma_next_char_shift(p, s, j, '\n');
    lemma_next_char_bounds(s, j, '\n');
    let e = next_char(s, j, '\n');
    assert(t.subrange(p.len() + j, p.len() + e) =~= s.subrange(j, e));
    if e < s.len() {
        lemma_declarations_shift(p, s, e + 1, open, mid);
    }
}

/// Lines are read one by one: the declarations of a line, then a newline,
/// then more text are those of the line (none where it holds none) followed
/// by those of the text.
pub proof fn lemma_lines_independent(line: Seq<char>, rest: Seq<char>, open: Seq<char>, mid: Seq<char>)
    requires
        free_of(line, '\n'),
    ensures
        declarations_from(line + seq!['\n'] + rest, 0, open, mid) == match first_match_from(
            line,
            0,
            open,
            mid,
        ) {
            Some(d) => seq![d],
            None => seq![],
        } + declarations_from(rest, 0, open, mid),
{
    let head = line + seq!['\n'];
    let t = head + rest;
    assert(t =~= line + seq!['\n'] + rest);
    lemma_next_char_after_run(t, 0, line.len() as int, '\n');
    assert(t.subrange(0, line.len() as int) =~= line);
    lemma_declarations_shift(head, rest, 0, open, mid);
}

/// Lines joined by newlines.
pub open spec fn joined(lines: Seq<Seq<char>>) -> Seq<char>
    decreases lines.len(),
{
    if lines.len() == 0 {
        seq![]
    } else if lines.len() == 1 {
        lines[0]
    } else {
        lines[0] + seq!['\n'] + joined(lines.drop_first())
    }
}

/// The leftmost declaration of a line, where it holds one.
pub open spec fn line_match(line: Seq<char>, open: Seq<char>, mid: Seq<char>) -> Seq<
    (Seq<char>, Seq<char>),
> {
    match first_match_from(line, 0, open, mid) {
        Some(d) => seq![d],
        None => seq![],
    }
}

/// The leftmost declaration of each line that holds one, in order.
pub open spec fn line_matches(lines: Seq<Seq<char>>, open: Seq<char>, mid: Seq<char>) -> Seq<
    (Seq<char>, Seq<char>),
>
    decreases lines.len(),
{
    if lines.len() == 0 {
        seq![]
    } else {
        line_match(lines[0], open, mid) + line_matches(lines.drop_first(), open, mid)
    }
}

pub open spec fn all_single_lines(lines: Seq<Seq<char>>) -> bool {
    forall|i: int| 0 <= i < lines.len() ==> free_of(#[trigger] lines[i], '\n')
}

/// The declarations of a text are the leftmost declaration of each of its
/// lines that holds one, in file order; the other lines add nothing.
pub proof fn lemma_declarations_by_line(lines: Seq<Seq<char>>, open: Seq<char>, mid: Seq<char>)
    requires
        all_single_lines(lines),
    ensures
        declarations_from(joined(lines), 0, open, mid) == line_matches(lines, open, mid),
    decreases lines.len(),
{
    if lines.len() == 0 {
        lemma_next_char_none(joined(lines), 0, '\n');
        assert(line_matches(lines, open, mid) == Seq::<(Seq<char>, Seq<char>)>::empty());
    } else if lines.len() == 1 {
        let line = lines[0];
        assert(free_of(lines[0], '\n'));
        lemma_next_char_none(line, 0, '\n');
        assert(line.subrange(0, line.len() as int) =~= line);
        assert(line_matches(lines.drop_first(), open, mid) == Seq::<
            (Seq<char>, Seq<char>),
        >::empty());
        assert(line_matches(lines, open, mid) =~= line_match(line, open, mid));
    } else {
        let rest = lines.drop_first();
        assert(free_of(lines[0], '\n'));
        assert(all_single_lines(rest)) by {
            assert forall|i: int| 0 <= i < rest.len() implies free_of(#[trigger] rest[i], '\n') by {
                assert(rest[i] == lines[i + 1]);
            }
        }
        lemma_lines_independent(lines[0], joined(rest), open, mid);
        lemma_declarations_by_line(rest, open, mid);
    }
}

proof fn lemma_line_matches_concat(
    a: Seq<Seq<char>>,
    b: Seq<Seq<char>>,
    open: Seq<char>,
    mid: Seq<char>,
)
    ensures
        line_matches(a + b, open, mid) == line_matches(a, open, mid) + line_matches(b, open, mid),
    decreases a.len(),
{
    if a.len() == 0 {
        assert(a + b =~= b);
        assert(line_matches(a, open, mid) + line_matches(b, open, mid) =~= line_matches(
            b,
            open,
            mid,
        ));
    } else {
        assert((a + b).drop_first() =~= a.drop_first() + b);
        assert((a + b)[0] == a[0]);
        lemma_line_matches_concat(a.drop_first(), b, open, mid);
        assert(line_matches(a + b, open, mid) =~= line_matches(a, open, mid) + line_matches(
            b,
            open,
            mid,
        ));
    }
}

/// A line that holds no declaration can be inserted anywhere in a text
/// without changing its declarations.
pub proof fn lemma_non_matching_line_ignored(
    before: Seq<Seq<char>>,
    line: Seq<char>,
    after: Seq<Seq<char>>,
    open: Seq<char>,
    mid: Seq<char>,
)
    requires
        all_single_lines(before),
        all_single_lines(after),
        free_of(line, '\n'),
        first_match_from(line, 0, open, mid) is None,
    ensures
        declarations_from(joined(before + seq![line] + after), 0, open, mid) == declarations_from(
            joined(before + after),
            0,
            open,
            mid,
        ),
{
    let with = before + seq![line] + after;
    let without = before + after;
    assert(all_single_lines(with)) by {
        assert forall|i: int| 0 <= i < with.len() implies free_of(#[trigger] with[i], '\n') by {
            if i < before.len() {
                assert(with[i] == before[i]);
            } else if i == before.len() {
                assert(with[i] == line);
            } else {
                assert(with[i] == after[i - before.len() - 1]);
            }
        }
    }
    assert(all_single_lines(without)) by {
        assert forall|i: int| 0 <= i < without.len() implies free_of(
            #[trigger] without[i],
            '\n',
        ) by {
            if i < before.len() {
                assert(without[i] == before[i]);
            } else {
                assert(without[i] == after[i - before.len()]);
            }
        }
    }
    lemma_declarations_by_line(with, open, mid);
    lemma_declarations_by_line(without, open, mid);
    lemma_line_matches_concat(before + seq![line], after, open, mid);
    lemma_line_matches_concat(before, seq![line], open, mid);
    lemma_line_matches_concat(before, after, open, mid);
    assert(line_matches(seq![line], open, mid) =~= Seq::<(Seq<char>, Seq<char>)>::empty()) by {
        let one = seq![line];
        assert(one[0] == line);
        assert(one.drop_first() =~= Seq::<Seq<char>>::empty());
        assert(line_matches(one.drop_first(), open, mid) == Seq::<(Seq<char>, Seq<char>)>::empty());
        assert(line_match(line, open, mid) == Seq::<(Seq<char>, Seq<char>)>::empty());
    }
    assert(line_matches(before, open, mid) + Seq::<(Seq<char>, Seq<char>)>::empty() =~= line_matches(
        before,
        open,
        mid,
    ));
}

/// A `packages.config` declares, line by line in file order, the
/// `(id, version)` pair of the leftmost `<package id="..." version="..."`
/// of each line; other lines add nothing.
pub proof fn lemma_legacy_by_line(lines: Seq<Seq<char>>)
    requires
        all_single_lines(lines),
    ensures
        legacy_declarations(joined(lines)) == line_matches(lines, legacy_open(), legacy_mid()),
{
    lemma_declarations_by_line(lines, legacy_open(), legacy_mid());
}

/// A `.csproj` declares, line by line in file order, the
/// `(Include, Version)` pair of the leftmost
/// `<PackageReference Include="..." Version="..."` of each line; other lines
/// add nothing.
pub proof fn lemma_modern_by_line(lines: Seq<Seq<char>>)
    requires
        all_single_lines(lines),
    ensures
        modern_declarations(joined(lines)) == line_matches(lines, modern_open(), modern_mid()),
{
    lemma_declarations_by_line(lines, modern_open(), modern_mid());
}

} // verus!
