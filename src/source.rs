//! Source files: the characters being lexed, their path, and where each line begins.

use vstd::prelude::*;

use crate::location::{Loc, Span};

verus! {

/// Whether `c` ends a line on its own: LF, LS or PS.
pub open spec fn is_single_line_break(c: char) -> bool {
    c == '\n' || c == '\u{2028}' || c == '\u{2029}'
}

/// Whether a line begins at index `p` of `st`: at the very start, or right after a line
/// terminator sequence (LF, CR, CRLF fused, LS, PS). A CR directly followed by LF only ends
/// the line after that LF.
pub open spec fn is_line_start(st: Seq<char>, p: int) -> bool {
    p == 0 || (1 <= p <= st.len() && (is_single_line_break(st[p - 1]) || (st[p - 1] == '\r' && !(
    p < st.len() && st[p] == '\n'))))
}

/// `r` lists, in increasing order, every index of `st` at which a line begins.
pub open spec fn are_line_starts(st: Seq<char>, r: Seq<usize>) -> bool {
    &&& forall|i: int, j: int| 0 <= i < j < r.len() ==> r[i] < r[j]
    &&& forall|i: int| 0 <= i < r.len() ==> r[i] < st.len() && is_line_start(st, r[i] as int)
    &&& forall|p: int| 0 <= p < st.len() && is_line_start(st, p) ==> r.contains(p as usize)
}

/// The index of the first character of the line of `st` that follows the line starting at
/// `starts[n]` (or the end of `st`, for the last line).
pub open spec fn line_end(st: Seq<char>, starts: Seq<usize>, n: int) -> int {
    if n + 1 < starts.len() {
        starts[n + 1] as int
    } else {
        st.len() as int
    }
}

/// Relies on `String`'s `FromIterator<&char>`: the string holds exactly the given characters,
/// in order.
#[verifier::external_body]
pub(crate) fn string_from_chars(chars: &[char]) -> (r: String)
    ensures
        r@ == chars@,
{
    chars.iter().collect()
}

/// Relies on `str::chars`, collected into a `Vec`: the characters of the string, in order.
/// A `Vec` never allocates more than `isize::MAX` bytes (`Vec::with_capacity` and `reserve`
/// panic beyond that), so a `Vec<char>` holds fewer than `usize::MAX` characters.
#[verifier::external_body]
pub(crate) fn chars_of(text: &str) -> (r: Vec<char>)
    ensures
        r@ == text@,
        r@.len() < usize::MAX,
{
    text.chars().collect()
}

/// Finds the index at which each line of `st` begins, delimiting lines by ECMAScript line
/// terminator sequences.
pub fn line_starts(st: &[char]) -> (r: Vec<usize>)
    ensures
        are_line_starts(st@, r@),
{
    let mut v: Vec<usize> = Vec::new();
    let n = st.len();
    if n == 0 {
        return v;
    }
    v.push(0);
    assert(v@[0] == 0usize);
    assert(v@.contains(0usize));
    let mut i: usize = 0;
    while i < n
        invariant
            n == st@.len(),
            0 < n,
            i <= n,
            v@.len() > 0,
            v@[0] == 0,
            forall|a: int, b: int| 0 <= a < b < v@.len() ==> v@[a] < v@[b],
            forall|a: int| 0 <= a < v@.len() ==> v@[a] <= i && v@[a] < n && is_line_start(
                st@,
                v@[a] as int,
            ),
            forall|p: int| 0 <= p <= i && p < n && is_line_start(st@, p) ==> v@.contains(
                p as usize,
            ),
        decreases n - i,
    {
        let ch = st[i];
        let breaks = if ch == '\n' || ch == '\u{2028}' || ch == '\u{2029}' {
            true
        } else if ch == '\r' {
            !(i + 1 < n && st[i + 1] == '\n')
        } else {
            false
        };
        let ghost old_v = v@;
        if breaks && i + 1 < n {
            v.push(i + 1);
            assert(v@[v@.len() - 1] == i + 1);
            assert forall|p: int| 0 <= p <= i + 1 && p < n && is_line_start(st@, p) implies v@.contains(
                p as usize,
            ) by {
                if p <= i {
                    let k = choose|k: int| 0 <= k < old_v.len() && old_v[k] == p as usize;
                    assert(v@[k] == p as usize);
                } else {
                    assert(v@[v@.len() - 1] == p as usize);
                }
            }
        } else {
            assert forall|p: int| 0 <= p <= i + 1 && p < n && is_line_start(st@, p) implies v@.contains(
                p as usize,
            ) by {
                if p == i + 1 {
                    assert(p - 1 == i);
                    assert(st@[p - 1] == ch);
                }
            }
        }
        i += 1;
    }
    v
}

/// The ASCII digit for `d` (taken modulo 10).
pub open spec fn digit_char(d: nat) -> char {
    let d = d % 10;
    if d == 0 { '0' } else if d == 1 { '1' } else if d == 2 { '2' } else if d == 3 { '3' }
    else if d == 4 { '4' } else if d == 5 { '5' } else if d == 6 { '6' } else if d == 7 { '7' }
    else if d == 8 { '8' } else { '9' }
}

/// The decimal rendering of `n`, without leading zeros.
pub open spec fn decimal_text(n: nat) -> Seq<char>
    decreases n,
{
    if n < 10 {
        seq![digit_char(n)]
    } else {
        decimal_text(n / 10) + seq![digit_char(n % 10)]
    }
}

/// The text `path:line:column` for a 0-based line and column, shown 1-based.
pub open spec fn location_text(path: Seq<char>, line: nat, column: nat) -> Seq<char> {
    path + seq![':'] + decimal_text(line + 1) + seq![':'] + decimal_text(column + 1)
}

/// The ASCII digit for `d`, which is below 10.
fn digit_to_char(d: usize) -> (r: char)
    requires
        d < 10,
    ensures
        r == digit_char(d as nat),
{
    if d == 0 { '0' } else if d == 1 { '1' } else if d == 2 { '2' } else if d == 3 { '3' }
    else if d == 4 { '4' } else if d == 5 { '5' } else if d == 6 { '6' } else if d == 7 { '7' }
    else if d == 8 { '8' } else { '9' }
}

/// Appends the decimal rendering of `n` to `out`.
fn push_decimal(out: &mut Vec<char>, n: usize)
    ensures
        final(out)@ == old(out)@ + decimal_text(n as nat),
    decreases n,
{
    if n >= 10 {
        push_decimal(out, n / 10);
    }
    out.push(digit_to_char(n % 10));
    proof {
        if n >= 10 {
            assert(final(out)@ =~= old(out)@ + decimal_text(n as nat));
        } else {
            assert(final(out)@ =~= old(out)@ + decimal_text(n as nat));
        }
    }
}

/// `path:line:column`, with `line` and `column` given 0-based and shown 1-based.
fn location_string(path: &str, line: usize, column: usize) -> (r: String)
    requires
        line < usize::MAX,
        column < usize::MAX,
    ensures
        r@ == location_text(path@, line as nat, column as nat),
{
    let mut out = chars_of(path);
    out.push(':');
    push_decimal(&mut out, line + 1);
    out.push(':');
    push_decimal(&mut out, column + 1);
    assert(out@ =~= location_text(path@, line as nat, column as nat));
    string_from_chars(out.as_slice())
}

/// A line (0-based) and a column (0-based) within a source file.
#[derive(Debug, Clone, PartialEq, Eq)]
pub struct LineColumn {
    /// The file's path.
    pub file: String,
    /// The line, counting from 0.
    pub line: usize,
    /// The column, counting from 0.
    pub column: usize,
}

impl LineColumn {
    /// The location as `path:line:column`, counting lines and columns from 1.
    pub fn to_display_string(&self) -> (r: String)
        requires
            self.line < usize::MAX,
            self.column < usize::MAX,
        ensures
            r@ == location_text(self.file@, self.line as nat, self.column as nat),
    {
        location_string(self.file.as_str(), self.line, self.column)
    }
}

/// A source file: its path, its characters, and where each of its lines begins.
#[derive(Debug, Clone)]
pub struct SourceFile {
    path: String,
    chars: Vec<char>,
    line_starts: Vec<usize>,
}

impl SourceFile {
    /// The file's characters.
    pub closed spec fn spec_chars(&self) -> Seq<char> {
        self.chars@
    }

    /// The file's path.
    pub closed spec fn spec_path(&self) -> Seq<char> {
        self.path@
    }

    /// The indices at which the file's lines begin.
    pub closed spec fn spec_line_starts(&self) -> Seq<usize> {
        self.line_starts@
    }

    pub closed spec fn wf(&self) -> bool {
        &&& self.chars@.len() < usize::MAX
        &&& are_line_starts(self.chars@, self.line_starts@)
    }

    /// A well-formed file has fewer than `usize::MAX` characters.
    pub proof fn lemma_wf_len(&self)
        requires
            self.wf(),
        ensures
            self.spec_chars().len() < usize::MAX,
    {
    }

    /// A source file holding `chars`, read from `path`.
    pub fn from_chars(path: String, chars: Vec<char>) -> (r: SourceFile)
        requires
            chars@.len() < usize::MAX,
        ensures
            r.wf(),
            r.spec_chars() == chars@,
            r.spec_path() == path@,
    {
        let line_starts = line_starts(chars.as_slice());
        SourceFile { path, chars, line_starts }
    }

    /// A source file holding `contents`, read from `path`.
    pub fn new(path: &str, contents: &str) -> (r: SourceFile)
        ensures
            r.wf(),
            r.spec_chars() == contents@,
            r.spec_path() == path@,
    {
        Self::from_chars(String::from_str(path), chars_of(contents))
    }

    /// A source file holding `contents`, under the made-up path `DUMMY.FILE`.
    pub fn dummy_file(contents: &str) -> (r: SourceFile)
        ensures
            r.wf(),
            r.spec_chars() == contents@,
            r.spec_path() == "DUMMY.FILE"@,
    {
        Self::new("DUMMY.FILE", contents)
    }

    /// The file's characters.
    pub fn characters(&self) -> (r: &[char])
        ensures
            r@ == self.spec_chars(),
    {
        self.chars.as_slice()
    }

    /// The file's path.
    pub fn path(&self) -> (r: &str)
        ensures
            r@ == self.spec_path(),
    {
        self.path.as_str()
    }

    /// The number of characters in the file: valid locations lie in `[0, bounds())`.
    pub fn bounds(&self) -> (r: usize)
        ensures
            r == self.spec_chars().len(),
    {
        self.chars.len()
    }

    /// Whether `span` ends within the file.
    pub fn in_bounds(&self, span: &Span) -> (r: bool)
        ensures
            r == (span.end.0 <= self.spec_chars().len()),
    {
        span.end.0 <= self.chars.len()
    }

    /// The indices at which the file's lines begin.
    pub fn line_starts(&self) -> (r: &[usize])
        ensures
            r@ == self.spec_line_starts(),
    {
        self.line_starts.as_slice()
    }

    /// The (0-based) line and column of `loc`: `None` when `loc` is past the last character.
    pub fn line_col(&self, loc: Loc) -> (r: Option<(usize, usize)>)
        requires
            self.wf(),
        ensures
            r matches Some((ln, col)) ==> {
                &&& ln < self.spec_line_starts().len()
                &&& self.spec_line_starts()[ln as int] <= loc.0 < line_end(
                    self.spec_chars(),
                    self.spec_line_starts(),
                    ln as int,
                )
                &&& col == loc.0 - self.spec_line_starts()[ln as int]
            },
            r is None <==> loc.0 >= self.spec_chars().len(),
    {
        let n = self.line_starts.len();
        let len = self.chars.len();
        if loc.0 >= len {
            return None;
        }
        proof {
            // A non-empty file begins a line at index 0.
            assert(self.line_starts@.contains(0usize)) by {
                assert(is_line_start(self.chars@, 0));
            }
        }
        let mut ln: usize = 0;
        while ln < n
            invariant
                n == self.line_starts@.len(),
                len == self.chars@.len(),
                loc.0 < len,
                self.wf(),
                self.line_starts@.contains(0usize),
                ln <= n,
                forall|k: int| 0 <= k < ln ==> !(self.line_starts@[k] <= loc.0 < #[trigger] line_end(
                    self.chars@,
                    self.line_starts@,
                    k,
                )),
            decreases n - ln,
        {
            let start = self.line_starts[ln];
            let end = if ln + 1 < n {
                self.line_starts[ln + 1]
            } else {
                len
            };
            if start <= loc.0 && loc.0 < end {
                return Some((ln, loc.0 - start));
            }
            ln += 1;
        }
        proof {
            // The lines tile [0, len): the last line whose start is <= loc contains it.
            let starts = self.line_starts@;
            let k0 = choose|k: int| 0 <= k < starts.len() && starts[k] == 0usize;
            assert(starts[0] <= starts[k0]) by {
                if k0 != 0 {
                    assert(starts[0] < starts[k0]);
                }
            }
            assert(starts[0] == 0);
            lemma_some_line_contains(self.chars@, starts, loc.0 as int, 0);
        }
        None
    }

    /// The location of `span`'s start, for diagnostics: `None` when `span` is out of bounds
    /// or starts past the last character.
    pub fn locate(&self, span: Span) -> (r: Option<LineColumn>)
        requires
            self.wf(),
        ensures
            r is Some <==> span.end.0 <= self.spec_chars().len() && span.start.0 < self.spec_chars().len(),
            r matches Some(lc) ==> {
                &&& lc.file@ == self.spec_path()
                &&& lc.line < self.spec_line_starts().len()
                &&& self.spec_line_starts()[lc.line as int] <= span.start.0 < line_end(
                    self.spec_chars(),
                    self.spec_line_starts(),
                    lc.line as int,
                )
                &&& lc.column == span.start.0 - self.spec_line_starts()[lc.line as int]
            },
    {
        if !self.in_bounds(&span) {
            return None;
        }
        match self.line_col(span.start) {
            Some((line, column)) => Some(LineColumn { file: self.path.clone(), line, column }),
            None => None,
        }
    }

    /// The location of `loc` as `path:line:column` (1-based, for display): `None` when `loc`
    /// is past the last character.
    pub fn file_line_column(&self, loc: &Loc) -> (r: Option<String>)
        requires
            self.wf(),
        ensures
            r is Some <==> loc.0 < self.spec_chars().len(),
            r matches Some(text) ==> exists|line: int, column: int|
                #![trigger location_text(self.spec_path(), line as nat, column as nat)]
                0 <= line < self.spec_line_starts().len() && self.spec_line_starts()[line] <= loc.0
                    < line_end(self.spec_chars(), self.spec_line_starts(), line) && column == loc.0
                    - self.spec_line_starts()[line] && text@ == location_text(
                    self.spec_path(),
                    line as nat,
                    column as nat,
                ),
    {
        match self.line_col(*loc) {
            Some((line, column)) => {
                proof {
                    lemma_line_index_bound(self.chars@, self.line_starts@, line as int);
                }
                let text = location_string(self.path.as_str(), line, column);
                proof {
                    let li = line as int;
                    let ci = column as int;
                    assert(text@ == location_text(self.spec_path(), li as nat, ci as nat));
                }
                Some(text)
            },
            None => None,
        }
    }

    /// The text covered by `span`: `None` when `span` is not a well-formed span within the file.
    pub fn source_at(&self, span: Span) -> (r: Option<String>)
        ensures
            r is Some <==> span.start.0 <= span.end.0 <= self.spec_chars().len(),
            r matches Some(s) ==> s@ == self.spec_chars().subrange(
                span.start.0 as int,
                span.end.0 as int,
            ),
    {
        if span.start.0 <= span.end.0 && span.end.0 <= self.chars.len() {
            let slice = self.chars.as_slice();
            Some(string_from_chars(&slice[span.start.0..span.end.0]))
        } else {
            None
        }
    }
}

/// Line numbers are smaller than the number of characters, so they fit comfortably.
proof fn lemma_line_index_bound(st: Seq<char>, starts: Seq<usize>, n: int)
    requires
        are_line_starts(st, starts),
        0 <= n < starts.len(),
        st.len() <= usize::MAX,
    ensures
        n < usize::MAX,
{
    lemma_starts_grow(st, starts, n);
}

/// The `n`th line starts at index `n` or later.
proof fn lemma_starts_grow(st: Seq<char>, starts: Seq<usize>, n: int)
    requires
        are_line_starts(st, starts),
        0 <= n < starts.len(),
    ensures
        starts[n] >= n,
    decreases n,
{
    if n > 0 {
        lemma_starts_grow(st, starts, n - 1);
        assert(starts[n - 1] < starts[n]);
    }
}

/// Some line contains `loc`: starting from line `k`, whose start is at or before `loc`.
proof fn lemma_some_line_contains(st: Seq<char>, starts: Seq<usize>, loc: int, k: int)
    requires
        0 <= k < starts.len(),
        starts[k] <= loc < st.len(),
        forall|i: int, j: int| 0 <= i < j < starts.len() ==> starts[i] < starts[j],
    ensures
        exists|m: int| k <= m < starts.len() && starts[m] <= loc < #[trigger] line_end(st, starts, m),
    decreases starts.len() - k,
{
    if loc < line_end(st, starts, k) {
        assert(k <= k < starts.len() && starts[k] <= loc < line_end(st, starts, k));
    } else {
        lemma_some_line_contains(st, starts, loc, k + 1);
        let m = choose|m: int| k + 1 <= m < starts.len() && starts[m] <= loc < #[trigger] line_end(st, starts, m);
        assert(k <= m < starts.len() && starts[m] <= loc < line_end(st, starts, m));
    }
}

} // verus!
