use vstd::prelude::*;

verus! {

/// A place in a document: a zero-based line, and a column counted in UTF-16 code
/// units from the start of that line.
#[derive(Clone, Copy, Debug, PartialEq, Eq, Structural)]
pub struct Position {
    pub line: u32,
    pub character: u32,
}

/// A half-open range of a document, from `start` up to but not including `end`.
#[derive(Clone, Copy, Debug, PartialEq, Eq, Structural)]
pub struct Span {
    pub start: Position,
    pub end: Position,
}

#[derive(Clone, Copy, Debug, PartialEq, Eq, Structural)]
pub enum Severity {
    Error,
    Warning,
    Information,
    Hint,
}

/// What is wrong with a line that starts a declaration and does not complete it.
#[derive(Clone, Copy, Debug, PartialEq, Eq, Structural)]
pub enum DiagnosticKind {
    MissingName,
    MissingOpenParen,
    MissingCloseParen,
}

/// A reported issue. Its identity is its content: two diagnostics with the same
/// severity, kind and span are the same diagnostic.
#[derive(Clone, Copy, Debug, PartialEq, Eq, Structural)]
pub struct Diagnostic {
    pub severity: Severity,
    pub kind: DiagnosticKind,
    pub span: Span,
}

/// The text shown to the user for a diagnostic of kind `k`.
pub open spec fn message_of(k: DiagnosticKind) -> Seq<char> {
    match k {
        DiagnosticKind::MissingName => "declaration without a name"@,
        DiagnosticKind::MissingOpenParen => "declaration without a parameter list"@,
        DiagnosticKind::MissingCloseParen => "parameter list is not closed"@,
    }
}

impl Diagnostic {
    /// The text shown to the user for this diagnostic.
    pub fn message(&self) -> (r: &'static str)
        ensures
            r@ == message_of(self.kind),
            r@.len() > 0,
    {
        match self.kind {
            DiagnosticKind::MissingName => {
                proof {
                    reveal_strlit("declaration without a name");
                }
                "declaration without a name"
            },
            DiagnosticKind::MissingOpenParen => {
                proof {
                    reveal_strlit("declaration without a parameter list");
                }
                "declaration without a parameter list"
            },
            DiagnosticKind::MissingCloseParen => {
                proof {
                    reveal_strlit("parameter list is not closed");
                }
                "parameter list is not closed"
            },
        }
    }
}

/// A recognized declaration: `fn`, a name, and a parenthesised parameter list.
#[derive(Clone, Debug)]
pub struct Construct {
    /// The declared name.
    pub name: Vec<char>,
    /// The declaration's text from `fn` through the closing parenthesis.
    pub header: Vec<char>,
    pub span: Span,
}

pub struct ConstructView {
    pub name: Seq<char>,
    pub header: Seq<char>,
    pub span: Span,
}

impl View for Construct {
    type V = ConstructView;

    open spec fn view(&self) -> ConstructView {
        ConstructView { name: self.name@, header: self.header@, span: self.span }
    }
}

/// The structure recognized in one version of a document's text.
pub struct StructuralModel {
    /// The document version the model was derived from.
    pub version: i32,
    /// The recognized declarations, in the order of their lines.
    pub constructs: Vec<Construct>,
    /// One diagnostic for each line that starts a declaration and does not complete it.
    pub diagnostics: Vec<Diagnostic>,
}

pub struct ModelView {
    pub version: int,
    pub constructs: Seq<ConstructView>,
    pub diagnostics: Seq<Diagnostic>,
}

pub open spec fn construct_views(s: Seq<Construct>) -> Seq<ConstructView> {
    s.map_values(|c: Construct| c@)
}

impl View for StructuralModel {
    type V = ModelView;

    open spec fn view(&self) -> ModelView {
        ModelView {
            version: self.version as int,
            constructs: construct_views(self.constructs@),
            diagnostics: self.diagnostics@,
        }
    }
}

#[derive(Clone, Copy, Debug, PartialEq, Eq, Structural)]
pub enum AnalyzeError {
    /// The text has more lines, or a line more UTF-16 code units, than the
    /// protocol's 32-bit positions can number.
    MalformedInput,
}

pub open spec fn is_blank(c: char) -> bool {
    c == ' ' || c == '\t' || c == '\r'
}

pub open spec fn is_ident_char(c: char) -> bool {
    ('a' <= c && c <= 'z') || ('A' <= c && c <= 'Z') || ('0' <= c && c <= '9') || c == '_'
}

/// How many UTF-16 code units encode the character.
pub open spec fn utf16_width(c: char) -> nat {
    if (c as u32) < 0x10000 {
        1
    } else {
        2
    }
}

/// The first index in `[i, e)` whose character is not blank, or `e`.
pub open spec fn skip_blank(t: Seq<char>, i: int, e: int) -> int
    decreases e - i,
{
    if i < e && is_blank(t[i]) {
        skip_blank(t, i + 1, e)
    } else {
        i
    }
}

/// The first index in `[i, e)` whose character cannot stand in a name, or `e`.
pub open spec fn ident_end(t: Seq<char>, i: int, e: int) -> int
    decreases e - i,
{
    if i < e && is_ident_char(t[i]) {
        ident_end(t, i + 1, e)
    } else {
        i
    }
}

/// The first index in `[i, e)` that holds `)`, or `e`.
pub open spec fn find_close(t: Seq<char>, i: int, e: int) -> int
    decreases e - i,
{
    if i < e && t[i] != ')' {
        find_close(t, i + 1, e)
    } else {
        i
    }
}

/// The index of the first line feed at or after `i`, or the text's length.
pub open spec fn line_end(t: Seq<char>, i: int) -> int
    decreases t.len() - i,
{
    if i < t.len() && t[i] != '\n' {
        line_end(t, i + 1)
    } else {
        i
    }
}

/// The UTF-16 column of index `j` on a line that starts at index `s`.
pub open spec fn column(t: Seq<char>, s: int, j: int) -> nat
    decreases j - s,
{
    if j <= s {
        0
    } else {
        column(t, s, j - 1) + utf16_width(t[j - 1])
    }
}

/// What one line contributes to the model.
pub enum LineScan {
    Nothing,
    Decl(ConstructView),
    Malformed(Diagnostic),
}

pub open spec fn pos(line: int, col: nat) -> Position {
    Position { line: line as u32, character: col as u32 }
}

/// The line from index `s` to index `e` (its line feed or the text's end), line
/// number `line`. It starts a declaration when, after blanks, it holds `fn` and a
/// blank; the declaration is complete when a name, then after blanks `(`, then
/// later on the line `)` follow. The construct spans `fn` through `)`; an
/// incomplete one yields a hint from `fn` to the end of the line.
pub open spec fn scan_line(t: Seq<char>, s: int, e: int, line: int) -> LineScan {
    let a = skip_blank(t, s, e);
    let start = pos(line, column(t, s, a));
    if e - a > 2 && t[a] == 'f' && t[a + 1] == 'n' && is_blank(t[a + 2]) {
        let n0 = skip_blank(t, a + 2, e);
        let n1 = ident_end(t, n0, e);
        let p = skip_blank(t, n1, e);
        let bad = Span { start, end: pos(line, column(t, s, e)) };
        if n1 == n0 {
            LineScan::Malformed(
                Diagnostic { severity: Severity::Hint, kind: DiagnosticKind::MissingName, span: bad },
            )
        } else if p >= e || t[p] != '(' {
            LineScan::Malformed(
                Diagnostic {
                    severity: Severity::Hint,
                    kind: DiagnosticKind::MissingOpenParen,
                    span: bad,
                },
            )
        } else {
            let q = find_close(t, p + 1, e);
            if q >= e {
                LineScan::Malformed(
                    Diagnostic {
                        severity: Severity::Hint,
                        kind: DiagnosticKind::MissingCloseParen,
                        span: bad,
                    },
                )
            } else {
                LineScan::Decl(
                    ConstructView {
                        name: t.subrange(n0, n1),
                        header: t.subrange(a, q + 1),
                        span: Span { start, end: pos(line, column(t, s, q + 1)) },
                    },
                )
            }
        }
    } else {
        LineScan::Nothing
    }
}


proof fn lemma_line_end_bounds(t: Seq<char>, i: int)
    ensures
        line_end(t, i) >= i,
        i <= t.len() ==> line_end(t, i) <= t.len(),
    decreases t.len() - i,
{
    if i < t.len() && t[i] != '\n' {
        lemma_line_end_bounds(t, i + 1);
    }
}

/// The declarations recognized on the lines from index `i` on, where that line has
/// number `line`.
pub open spec fn constructs_from(t: Seq<char>, i: int, line: int) -> Seq<ConstructView>
    decreases t.len() + 1 - i,
    via constructs_from_decreases
{
    if i < 0 || i > t.len() {
        Seq::empty()
    } else {
        let e = line_end(t, i);
        let rest = constructs_from(t, e + 1, line + 1);
        match scan_line(t, i, e, line) {
            LineScan::Decl(c) => seq![c] + rest,
            _ => rest,
        }
    }
}

#[via_fn]
proof fn constructs_from_decreases(t: Seq<char>, i: int, line: int) {
    lemma_line_end_bounds(t, i);
}

/// The diagnostics of the lines from index `i` on, where that line has number `line`.
pub open spec fn diagnostics_from(t: Seq<char>, i: int, line: int) -> Seq<Diagnostic>
    decreases t.len() + 1 - i,
    via diagnostics_from_decreases
{
    if i < 0 || i > t.len() {
        Seq::empty()
    } else {
        let e = line_end(t, i);
        let rest = diagnostics_from(t, e + 1, line + 1);
        match scan_line(t, i, e, line) {
            LineScan::Malformed(d) => seq![d] + rest,
            _ => rest,
        }
    }
}

#[via_fn]
proof fn diagnostics_from_decreases(t: Seq<char>, i: int, line: int) {
    lemma_line_end_bounds(t, i);
}

/// The model of a text at a version: one left-to-right scan over its lines.
pub open spec fn analysis(t: Seq<char>, version: int) -> ModelView {
    ModelView {
        version,
        constructs: constructs_from(t, 0, 0),
        diagnostics: diagnostics_from(t, 0, 0),
    }
}

/// Whether the lines from index `i` on, where that line has number `line`, all
/// have a number and a UTF-16 width that fit in 32 bits.
pub open spec fn lines_fit(t: Seq<char>, i: int, line: int) -> bool
    decreases t.len() + 1 - i,
    via lines_fit_decreases
{
    if i < 0 || i > t.len() {
        true
    } else {
        let e = line_end(t, i);
        line <= u32::MAX && column(t, i, e) <= u32::MAX && lines_fit(t, e + 1, line + 1)
    }
}

#[via_fn]
proof fn lines_fit_decreases(t: Seq<char>, i: int, line: int) {
    lemma_line_end_bounds(t, i);
}

/// Whether every position of the text can be expressed in the protocol.
pub open spec fn analyzable(t: Seq<char>) -> bool {
    lines_fit(t, 0, 0)
}

proof fn lemma_column_monotone(t: Seq<char>, s: int, j: int, e: int)
    requires
        s <= j <= e,
    ensures
        column(t, s, j) <= column(t, s, e),
    decreases e - j,
{
    if j < e {
        lemma_column_monotone(t, s, j, e - 1);
    }
}

/// The characters of a string, in order.
pub fn chars_of(s: &str) -> (r: Vec<char>)
    ensures
        r@ == s@,
{
    let mut r: Vec<char> = Vec::new();
    for c in it: s.chars()
        invariant
            it.seq() == s@,
            r@ == it.seq().take(it.index() as int),
    {
        r.push(c);
    }
    r
}


fn skip_blank_exec(t: &Vec<char>, i: usize, e: usize) -> (r: usize)
    requires
        i <= e <= t@.len(),
    ensures
        r == skip_blank(t@, i as int, e as int),
        i <= r <= e,
{
    let mut k = i;
    while k < e && (t[k] == ' ' || t[k] == '\t' || t[k] == '\r')
        invariant
            i <= k <= e <= t@.len(),
            skip_blank(t@, k as int, e as int) == skip_blank(t@, i as int, e as int),
        decreases e - k,
    {
        k = k + 1;
    }
    k
}

fn ident_end_exec(t: &Vec<char>, i: usize, e: usize) -> (r: usize)
    requires
        i <= e <= t@.len(),
    ensures
        r == ident_end(t@, i as int, e as int),
        i <= r <= e,
{
    let mut k = i;
    while k < e && (('a' <= t[k] && t[k] <= 'z') || ('A' <= t[k] && t[k] <= 'Z') || ('0' <= t[k]
        && t[k] <= '9') || t[k] == '_')
        invariant
            i <= k <= e <= t@.len(),
            ident_end(t@, k as int, e as int) == ident_end(t@, i as int, e as int),
        decreases e - k,
    {
        k = k + 1;
    }
    k
}

fn find_close_exec(t: &Vec<char>, i: usize, e: usize) -> (r: usize)
    requires
        i <= e <= t@.len(),
    ensures
        r == find_close(t@, i as int, e as int),
        i <= r <= e,
{
    let mut k = i;
    while k < e && t[k] != ')'
        invariant
            i <= k <= e <= t@.len(),
            find_close(t@, k as int, e as int) == find_close(t@, i as int, e as int),
        decreases e - k,
    {
        k = k + 1;
    }
    k
}

fn line_end_exec(t: &Vec<char>, i: usize) -> (r: usize)
    requires
        i <= t@.len(),
    ensures
        r == line_end(t@, i as int),
        i <= r <= t@.len(),
{
    let mut k = i;
    while k < t.len() && t[k] != '\n'
        invariant
            i <= k <= t@.len(),
            line_end(t@, k as int) == line_end(t@, i as int),
        decreases t@.len() - k,
    {
        k = k + 1;
    }
    k
}

fn column_exec(t: &Vec<char>, s: usize, j: usize, e: usize) -> (r: u32)
    requires
        s <= j <= e <= t@.len(),
        column(t@, s as int, e as int) <= u32::MAX,
    ensures
        r == column(t@, s as int, j as int),
{
    proof {
        lemma_column_monotone(t@, s as int, j as int, e as int);
    }
    let mut c: u32 = 0;
    let mut k = s;
    while k < j
        invariant
            s <= k <= j <= e <= t@.len(),
            column(t@, s as int, j as int) <= u32::MAX,
            c == column(t@, s as int, k as int),
        decreases j - k,
    {
        proof {
            lemma_column_monotone(t@, s as int, k as int + 1, j as int);
        }
        if (t[k] as u32) < 0x10000 {
            c = c + 1;
        } else {
            c = c + 2;
        }
        k = k + 1;
    }
    c
}

/// The UTF-16 width of the line from `s` to `e`, or `None` where it exceeds 32 bits.
fn line_width(t: &Vec<char>, s: usize, e: usize) -> (r: Option<u32>)
    requires
        s <= e <= t@.len(),
    ensures
        match r {
            Some(w) => w == column(t@, s as int, e as int),
            None => column(t@, s as int, e as int) > u32::MAX,
        },
{
    let mut c: u64 = 0;
    let mut k = s;
    while k < e
        invariant
            s <= k <= e <= t@.len(),
            c == column(t@, s as int, k as int),
            c <= u32::MAX,
        decreases e - k,
    {
        if (t[k] as u32) < 0x10000 {
            c = c + 1;
        } else {
            c = c + 2;
        }
        k = k + 1;
        if c > 0xffff_ffff {
            proof {
                lemma_column_monotone(t@, s as int, k as int, e as int);
            }
            return None;
        }
    }
    Some(c as u32)
}

pub(crate) fn copy_range(t: &Vec<char>, a: usize, b: usize) -> (r: Vec<char>)
    requires
        a <= b <= t@.len(),
    ensures
        r@ == t@.subrange(a as int, b as int),
{
    let mut r: Vec<char> = Vec::new();
    let mut k = a;
    while k < b
        invariant
            a <= k <= b <= t@.len(),
            r@ == t@.subrange(a as int, k as int),
        decreases b - k,
    {
        r.push(t[k]);
        k = k + 1;
        assert(r@ =~= t@.subrange(a as int, k as int));
    }
    r
}

enum LineOutcome {
    Nothing,
    Decl(Construct),
    Malformed(Diagnostic),
}

spec fn outcome_view(o: LineOutcome) -> LineScan {
    match o {
        LineOutcome::Nothing => LineScan::Nothing,
        LineOutcome::Decl(c) => LineScan::Decl(c@),
        LineOutcome::Malformed(d) => LineScan::Malformed(d),
    }
}

fn scan_line_exec(t: &Vec<char>, s: usize, e: usize, line: u32) -> (r: LineOutcome)
    requires
        s <= e <= t@.len(),
        column(t@, s as int, e as int) <= u32::MAX,
    ensures
        outcome_view(r) == scan_line(t@, s as int, e as int, line as int),
{
    let a = skip_blank_exec(t, s, e);
    let start = Position { line, character: column_exec(t, s, a, e) };
    if e - a > 2 && t[a] == 'f' && t[a + 1] == 'n' && (t[a + 2] == ' ' || t[a + 2] == '\t' || t[a
        + 2] == '\r') {
        let n0 = skip_blank_exec(t, a + 2, e);
        let n1 = ident_end_exec(t, n0, e);
        let p = skip_blank_exec(t, n1, e);
        let bad = Span { start, end: Position { line, character: column_exec(t, s, e, e) } };
        if n1 == n0 {
            LineOutcome::Malformed(
                Diagnostic { severity: Severity::Hint, kind: DiagnosticKind::MissingName, span: bad },
            )
        } else if p >= e || t[p] != '(' {
            LineOutcome::Malformed(
                Diagnostic {
                    severity: Severity::Hint,
                    kind: DiagnosticKind::MissingOpenParen,
                    span: bad,
                },
            )
        } else {
            let q = find_close_exec(t, p + 1, e);
            if q >= e {
                LineOutcome::Malformed(
                    Diagnostic {
                        severity: Severity::Hint,
                        kind: DiagnosticKind::MissingCloseParen,
                        span: bad,
                    },
                )
            } else {
                let name = copy_range(t, n0, n1);
                let header = copy_range(t, a, q + 1);
                let end = Position { line, character: column_exec(t, s, q + 1, e) };
                LineOutcome::Decl(Construct { name, header, span: Span { start, end } })
            }
        }
    } else {
        LineOutcome::Nothing
    }
}

/// Derives the structural model of `text` at `version`: a single left-to-right scan
/// whose result depends on the text and the version alone. Fails only where a
/// line's number or UTF-16 width does not fit the protocol's 32-bit positions.
pub fn analyze(text: &str, version: i32) -> (r: Result<StructuralModel, AnalyzeError>)
    ensures
        match r {
            Ok(m) => analyzable(text@) && m@ == analysis(text@, version as int),
            Err(err) => !analyzable(text@) && err == AnalyzeError::MalformedInput,
        },
{
    let t = chars_of(text);
    let ghost tv = t@;
    let n = t.len();
    let mut constructs: Vec<Construct> = Vec::new();
    let mut diagnostics: Vec<Diagnostic> = Vec::new();
    let mut i: usize = 0;
    let mut line: u32 = 0;
    let mut finished = false;
    let ghost mut rest: int = 0;
    while !finished
        invariant
            n == t@.len(),
            tv == t@,
            tv == text@,
            i <= n,
            rest == if finished {
                n + 1
            } else {
                i as int
            },
            lines_fit(tv, 0, 0) == lines_fit(tv, rest, line as int),
            construct_views(constructs@) + constructs_from(tv, rest, line as int)
                == constructs_from(tv, 0, 0),
            diagnostics@ + diagnostics_from(tv, rest, line as int) == diagnostics_from(
                tv,
                0,
                0,
            ),
        decreases n - i + (if finished {
            0int
        } else {
            1int
        }),
    {
        let e = line_end_exec(&t, i);
        match line_width(&t, i, e) {
            Some(w) => {
                assert(lines_fit(tv, i as int, line as int) == lines_fit(tv, e + 1, line + 1));
            },
            None => {
                assert(!lines_fit(tv, i as int, line as int));
                return Err(AnalyzeError::MalformedInput);
            },
        }
        if e < n && line == u32::MAX {
            assert(!lines_fit(tv, e + 1, line + 1));
            assert(!lines_fit(tv, i as int, line as int));
            return Err(AnalyzeError::MalformedInput);
        }
        let outcome = scan_line_exec(&t, i, e, line);
        let ghost old_cs = construct_views(constructs@);
        let ghost old_ds = diagnostics@;
        let ghost rest_cs = constructs_from(tv, e + 1, line + 1);
        let ghost rest_ds = diagnostics_from(tv, e + 1, line + 1);
        match outcome {
            LineOutcome::Nothing => {},
            LineOutcome::Decl(c) => {
                constructs.push(c);
                assert(construct_views(constructs@) =~= old_cs.push(c@));
                assert(old_cs.push(c@) + rest_cs =~= old_cs + (seq![c@] + rest_cs));
            },
            LineOutcome::Malformed(d) => {
                diagnostics.push(d);
                assert(old_ds.push(d) + rest_ds =~= old_ds + (seq![d] + rest_ds));
            },
        }
        if e < n {
            i = e + 1;
            line = line + 1;
            proof {
                rest = i as int;
            }
        } else {
            finished = true;
            proof {
                rest = n + 1;
                assert(constructs_from(tv, n + 1, line as int) == constructs_from(
                    tv,
                    n + 1,
                    line + 1,
                ));
                assert(diagnostics_from(tv, n + 1, line as int) == diagnostics_from(
                    tv,
                    n + 1,
                    line + 1,
                ));
            }
        }
    }
    assert(construct_views(constructs@) =~= constructs_from(tv, 0, 0));
    assert(diagnostics@ =~= diagnostics_from(tv, 0, 0));
    Ok(StructuralModel { version, constructs, diagnostics })
}


/// Analysis is deterministic: the text alone decides the constructs and
/// diagnostics, whatever the version the text is analyzed at.
pub proof fn lemma_analysis_deterministic(t: Seq<char>, v1: int, v2: int)
    ensures
        analysis(t, v1).constructs == analysis(t, v2).constructs,
        analysis(t, v1).diagnostics == analysis(t, v2).diagnostics,
{
}

} // verus!
