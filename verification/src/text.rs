use vstd::prelude::*;

use crate::error::DecodeError;
use crate::filter::Filter;
use crate::item::Item;
use crate::item::kind_of;
use crate::item::kind_value;

verus! {

// ---------------------------------------------------------------------
// Character classes
// ---------------------------------------------------------------------
/// Horizontal whitespace inside a line.
pub open spec fn is_space(c: char) -> bool {
    c == ' ' || c == '\t'
}

/// A character allowed in a bare key or table name: ASCII letters,
/// digits, underscore and dash.
pub open spec fn is_bare_char(c: char) -> bool {
    (('a' as u32) <= (c as u32) && (c as u32) <= ('z' as u32)) || (('A' as u32) <= (c as u32) && (c
        as u32) <= ('Z' as u32)) || (('0' as u32) <= (c as u32) && (c as u32) <= ('9' as u32)) || c
        == '_' || c == '-'
}

fn is_space_x(c: char) -> (r: bool)
    ensures
        r == is_space(c),
{
    c == ' ' || c == '\t'
}

fn is_bare_x(c: char) -> (r: bool)
    ensures
        r == is_bare_char(c),
{
    let u = c as u32;
    (97 <= u && u <= 122) || (65 <= u && u <= 90) || (48 <= u && u <= 57) || c == '_' || c == '-'
}

// ---------------------------------------------------------------------
// Exec string building blocks
// ---------------------------------------------------------------------
/// Relies on String::push of std: appends the given character to the end
/// of the string.
#[verifier::external_body]
pub(crate) fn push_char(s: &mut String, c: char)
    ensures
        final(s)@ == old(s)@.push(c),
{
    s.push(c)
}

/// Whether two text slices hold the same characters.
pub fn str_eq(a: &str, b: &str) -> (r: bool)
    ensures
        r == (a@ == b@),
{
    let na = a.unicode_len();
    let nb = b.unicode_len();
    if na != nb {
        return false;
    }
    let mut i: usize = 0;
    while i < na
        invariant
            i <= na,
            na == a@.len(),
            na == b@.len(),
            forall|j: int| 0 <= j < i ==> a@[j] == b@[j],
        decreases na - i,
    {
        if a.get_char(i) != b.get_char(i) {
            return false;
        }
        i += 1;
    }
    proof {
        assert(a@ =~= b@);
    }
    true
}

/// The characters of `s` between `lo` and `hi`, as owned text.
fn extract(s: &str, lo: usize, hi: usize, Ghost(n): Ghost<int>) -> (r: String)
    requires
        n == s@.len(),
        lo <= hi <= n,
    ensures
        r@ == s@.subrange(lo as int, hi as int),
{
    let mut out = String::new();
    let mut i: usize = lo;
    while i < hi
        invariant
            lo <= i <= hi <= s@.len(),
            out@ == s@.subrange(lo as int, i as int),
        decreases hi - i,
    {
        let c = s.get_char(i);
        push_char(&mut out, c);
        i += 1;
        proof {
            assert(out@ =~= s@.subrange(lo as int, i as int));
        }
    }
    out
}

// ---------------------------------------------------------------------
// Scanning one line
// ---------------------------------------------------------------------
/// The first position at or after `i` holding a non-space character.
pub open spec fn skip_ws(l: Seq<char>, i: int) -> int
    recommends
        0 <= i <= l.len(),
    decreases l.len() - i
        when 0 <= i <= l.len()
{
    if i < l.len() && is_space(l[i]) {
        skip_ws(l, i + 1)
    } else {
        i
    }
}

fn skip_ws_x(s: &str, i: usize, n: usize) -> (r: usize)
    requires
        n == s@.len(),
        i <= n,
    ensures
        r == skip_ws(s@, i as int),
        i <= r <= n,
{
    let mut k = i;
    while k < n && is_space_x(s.get_char(k))
        invariant
            i <= k <= n,
            n == s@.len(),
            skip_ws(s@, i as int) == skip_ws(s@, k as int),
        decreases n - k,
    {
        k += 1;
    }
    k
}

/// The end of the run of bare-key characters starting at `i`.
pub open spec fn scan_bare(l: Seq<char>, i: int) -> int
    recommends
        0 <= i <= l.len(),
    decreases l.len() - i
        when 0 <= i <= l.len()
{
    if i < l.len() && is_bare_char(l[i]) {
        scan_bare(l, i + 1)
    } else {
        i
    }
}

fn scan_bare_x(s: &str, i: usize, n: usize) -> (r: usize)
    requires
        n == s@.len(),
        i <= n,
    ensures
        r == scan_bare(s@, i as int),
        i <= r <= n,
{
    let mut k = i;
    while k < n && is_bare_x(s.get_char(k))
        invariant
            i <= k <= n,
            n == s@.len(),
            scan_bare(s@, i as int) == scan_bare(s@, k as int),
        decreases n - k,
    {
        k += 1;
    }
    k
}

/// What an escape introducer is followed by, and what it stands for.
pub open spec fn unescape(c: char) -> Option<char> {
    if c == 'n' {
        Some('\n')
    } else if c == 't' {
        Some('\t')
    } else if c == '"' {
        Some('"')
    } else if c == '\\' {
        Some('\\')
    } else {
        None
    }
}

fn unescape_x(c: char) -> (r: Option<char>)
    ensures
        r == unescape(c),
{
    if c == 'n' {
        Some('\n')
    } else if c == 't' {
        Some('\t')
    } else if c == '"' {
        Some('"')
    } else if c == '\\' {
        Some('\\')
    } else {
        None
    }
}

/// Scan a quoted value whose opening quote stands just before `i`:
/// the decoded content and the position after the closing quote, or
/// nothing if the value never closes or uses an unknown escape.
pub open spec fn scan_string(l: Seq<char>, i: int) -> Option<(Seq<char>, int)>
    recommends
        0 <= i <= l.len(),
    decreases l.len() - i
        when 0 <= i <= l.len()
{
    if i >= l.len() {
        None
    } else if l[i] == '"' {
        Some((Seq::empty(), i + 1))
    } else if l[i] == '\\' {
        if i + 2 > l.len() {
            None
        } else {
            match unescape(l[i + 1]) {
                None => None,
                Some(c) => match scan_string(l, i + 2) {
                    None => None,
                    Some(p) => Some((seq![c] + p.0, p.1)),
                },
            }
        }
    } else {
        match scan_string(l, i + 1) {
            None => None,
            Some(p) => Some((seq![l[i]] + p.0, p.1)),
        }
    }
}

proof fn lemma_scan_string_bounds(l: Seq<char>, i: int)
    requires
        0 <= i <= l.len(),
    ensures
        scan_string(l, i) matches Some(p) ==> i < p.1 <= l.len(),
    decreases l.len() - i,
{
    if i < l.len() && l[i] != '"' {
        if l[i] == '\\' {
            if i + 2 <= l.len() {
                lemma_scan_string_bounds(l, i + 2);
            }
        } else {
            lemma_scan_string_bounds(l, i + 1);
        }
    }
}

fn scan_string_x(s: &str, i0: usize, n: usize) -> (r: Option<(String, usize)>)
    requires
        n == s@.len(),
        i0 <= n,
    ensures
        scan_string(s@, i0 as int) is None ==> r is None,
        scan_string(s@, i0 as int) matches Some(p) ==> r matches Some(q) && q.0@ == p.0 && q.1
            == p.1 && q.1 <= n,
{
    let mut acc = String::new();
    let mut i = i0;
    proof {
        lemma_scan_string_bounds(s@, i0 as int);
        if scan_string(s@, i0 as int) is Some {
            let p = scan_string(s@, i0 as int)->0;
            assert(acc@ + p.0 =~= p.0);
        }
    }
    while i < n
        invariant
            i0 <= i <= n,
            n == s@.len(),
            scan_string(s@, i0 as int) is Some <==> scan_string(s@, i as int) is Some,
            scan_string(s@, i as int) matches Some(p) ==> scan_string(s@, i0 as int) matches Some(
                q,
            ) && q.0 == acc@ + p.0 && q.1 == p.1,
        decreases n - i,
    {
        let c = s.get_char(i);
        if c == '"' {
            proof {
                let p = scan_string(s@, i as int)->0;
                assert(acc@ + p.0 =~= acc@);
            }
            return Some((acc, i + 1));
        } else if c == '\\' {
            if n - i < 2 {
                return None;
            }
            let e = s.get_char(i + 1);
            match unescape_x(e) {
                None => {
                    return None;
                },
                Some(dec) => {
                    proof {
                        lemma_scan_string_bounds(s@, i + 2);
                        if scan_string(s@, i + 2) is Some {
                            let p = scan_string(s@, i + 2)->0;
                            assert(acc@ + (seq![dec] + p.0) =~= acc@.push(dec) + p.0);
                        }
                    }
                    push_char(&mut acc, dec);
                    i += 2;
                },
            }
        } else {
            proof {
                lemma_scan_string_bounds(s@, i + 1);
                if scan_string(s@, i + 1) is Some {
                    let p = scan_string(s@, i + 1)->0;
                    assert(acc@ + (seq![c] + p.0) =~= acc@.push(c) + p.0);
                }
            }
            push_char(&mut acc, c);
            i += 1;
        }
    }
    None
}

// ---------------------------------------------------------------------
// Splitting a text into lines
// ---------------------------------------------------------------------
/// The position of the next line break at or after `i`, or the end.
pub open spec fn find_nl(s: Seq<char>, i: int) -> int
    recommends
        0 <= i <= s.len(),
    decreases s.len() - i
        when 0 <= i <= s.len()
{
    if i < s.len() && s[i] != '\n' {
        find_nl(s, i + 1)
    } else {
        i
    }
}

pub proof fn lemma_find_nl_bounds(s: Seq<char>, i: int)
    requires
        0 <= i <= s.len(),
    ensures
        i <= find_nl(s, i) <= s.len(),
    decreases s.len() - i,
{
    if i < s.len() && s[i] != '\n' {
        lemma_find_nl_bounds(s, i + 1);
    }
}

fn find_nl_x(s: &str, i: usize, n: usize) -> (r: usize)
    requires
        n == s@.len(),
        i <= n,
    ensures
        r == find_nl(s@, i as int),
        i <= r <= n,
{
    let mut k = i;
    while k < n && s.get_char(k) != '\n'
        invariant
            i <= k <= n,
            n == s@.len(),
            find_nl(s@, i as int) == find_nl(s@, k as int),
        decreases n - k,
    {
        k += 1;
    }
    k
}

/// One line with a trailing carriage return removed.
pub open spec fn strip_cr(l: Seq<char>) -> Seq<char> {
    if l.len() > 0 && l.last() == '\r' {
        l.drop_last()
    } else {
        l
    }
}

/// The lines of `s` from position `i` on, split at line breaks, each with
/// a trailing carriage return removed. A text always has at least one
/// line; an empty text has one empty line.
pub open spec fn lines_from(s: Seq<char>, i: int) -> Seq<Seq<char>>
    recommends
        0 <= i <= s.len(),
    decreases s.len() - i
        when 0 <= i <= s.len()
{
    let j = find_nl(s, i);
    if j == s.len() {
        seq![strip_cr(s.subrange(i, j))]
    } else {
        proof {
            lemma_find_nl_bounds(s, i);
        }
        seq![strip_cr(s.subrange(i, j))] + lines_from(s, j + 1)
    }
}

fn split_lines_from(s: &str, i: usize, n: usize) -> (r: Vec<String>)
    requires
        n == s@.len(),
        i <= n,
    ensures
        r.deep_view() == lines_from(s@, i as int),
    decreases n - i,
{
    proof {
        lemma_find_nl_bounds(s@, i as int);
    }
    let j = find_nl_x(s, i, n);
    let hi = if j > i && s.get_char(j - 1) == '\r' {
        j - 1
    } else {
        j
    };
    proof {
        assert(s@.subrange(i as int, j as int).len() == j - i);
        if j > i && s@[j - 1] == '\r' {
            assert(s@.subrange(i as int, j as int).last() == s@[j - 1]);
            assert(strip_cr(s@.subrange(i as int, j as int)) =~= s@.subrange(
                i as int,
                hi as int,
            ));
        } else {
            if j > i {
                assert(s@.subrange(i as int, j as int).last() == s@[j - 1]);
            }
            assert(strip_cr(s@.subrange(i as int, j as int)) =~= s@.subrange(
                i as int,
                hi as int,
            ));
        }
    }
    let line = extract(s, i, hi, Ghost(n as int));
    if j == n {
        let mut out: Vec<String> = Vec::new();
        out.push(line);
        proof {
            assert(out.deep_view() =~= lines_from(s@, i as int));
        }
        out
    } else {
        let mut rest = split_lines_from(s, j + 1, n);
        rest.insert(0, line);
        proof {
            assert(rest.deep_view() =~= lines_from(s@, i as int));
        }
        rest
    }
}

/// The lines of a descriptor text.
pub fn split_lines(s: &str) -> (r: Vec<String>)
    ensures
        r.deep_view() == lines_from(s@, 0),
{
    let n = s.unicode_len();
    split_lines_from(s, 0, n)
}

// ---------------------------------------------------------------------
// Classifying one line
// ---------------------------------------------------------------------
/// What one line of a descriptor text means.
pub enum LineForm {
    /// Nothing: only whitespace, or a comment.
    Blank,
    /// A table heading naming a filter set.
    Table(Seq<char>),
    /// A key and its quoted, unescaped value.
    Pair(Seq<char>, Seq<char>),
    /// Anything else.
    Bad,
}

/// The meaning of the line `l`: a table heading `[name]`, a pair
/// `key = "value"`, a blank or comment line, or a malformed line.
pub open spec fn line_form(l: Seq<char>) -> LineForm {
    let i = skip_ws(l, 0);
    if i >= l.len() {
        LineForm::Blank
    } else if l[i] == '#' {
        LineForm::Blank
    } else if l[i] == '[' {
        let j = scan_bare(l, i + 1);
        if j > i + 1 && j < l.len() && l[j] == ']' && skip_ws(l, j + 1) >= l.len() {
            LineForm::Table(l.subrange(i + 1, j))
        } else {
            LineForm::Bad
        }
    } else {
        let j = scan_bare(l, i);
        if j == i {
            LineForm::Bad
        } else {
            let k = skip_ws(l, j);
            if k < l.len() && l[k] == '=' {
                let m = skip_ws(l, k + 1);
                if m < l.len() && l[m] == '"' {
                    match scan_string(l, m + 1) {
                        None => LineForm::Bad,
                        Some(p) => if skip_ws(l, p.1) >= l.len() {
                            LineForm::Pair(l.subrange(i, j), p.0)
                        } else {
                            LineForm::Bad
                        },
                    }
                } else {
                    LineForm::Bad
                }
            } else {
                LineForm::Bad
            }
        }
    }
}

/// One classified line, as values.
pub enum ParsedLine {
    Blank,
    Table(String),
    Pair(String, String),
    Bad,
}

impl View for ParsedLine {
    type V = LineForm;

    open spec fn view(&self) -> LineForm {
        match self {
            ParsedLine::Blank => LineForm::Blank,
            ParsedLine::Table(name) => LineForm::Table(name@),
            ParsedLine::Pair(key, value) => LineForm::Pair(key@, value@),
            ParsedLine::Bad => LineForm::Bad,
        }
    }
}

/// Classify one line of a descriptor text.
pub fn parse_line(s: &str) -> (r: ParsedLine)
    ensures
        r@ == line_form(s@),
{
    let n = s.unicode_len();
    let i = skip_ws_x(s, 0, n);
    if i >= n {
        return ParsedLine::Blank;
    }
    let c = s.get_char(i);
    if c == '#' {
        return ParsedLine::Blank;
    }
    if c == '[' {
        let j = scan_bare_x(s, i + 1, n);
        if j > i + 1 && j < n && s.get_char(j) == ']' && skip_ws_x(s, j + 1, n) >= n {
            let name = extract(s, i + 1, j, Ghost(n as int));
            return ParsedLine::Table(name);
        }
        return ParsedLine::Bad;
    }
    let j = scan_bare_x(s, i, n);
    if j == i {
        return ParsedLine::Bad;
    }
    let k = skip_ws_x(s, j, n);
    if k < n && s.get_char(k) == '=' {
        let m = skip_ws_x(s, k + 1, n);
        if m < n && s.get_char(m) == '"' {
            match scan_string_x(s, m + 1, n) {
                None => {
                    return ParsedLine::Bad;
                },
                Some((value, e)) => {
                    proof {
                        lemma_scan_string_bounds(s@, m + 1);
                    }
                    let t = skip_ws_x(s, e, n);
                    if t >= n {
                        let key = extract(s, i, j, Ghost(n as int));
                        return ParsedLine::Pair(key, value);
                    }
                    return ParsedLine::Bad;
                },
            }
        }
    }
    ParsedLine::Bad
}

// ---------------------------------------------------------------------
// The whole document
// ---------------------------------------------------------------------
/// Which table the fold over the lines is currently inside.
pub enum Sect {
    Top,
    White,
    Black,
}

/// The fold state while reading a descriptor text line by line.
pub struct DocState {
    /// The table the fold is inside.
    pub sect: Sect,
    /// The header text, once its field was seen.
    pub header: Option<Seq<char>>,
    /// The allow filter set, once its table heading was seen.
    pub white: Option<Seq<(Seq<char>, Item)>>,
    /// The deny filter set, once its table heading was seen.
    pub black: Option<Seq<(Seq<char>, Item)>>,
}

/// Whether the filter set `fs` already names `name`.
pub open spec fn assoc_has(fs: Seq<(Seq<char>, Item)>, name: Seq<char>) -> bool {
    exists|k: int| 0 <= k < fs.len() && fs[k].0 == name
}

/// The fold state before any line was read.
pub open spec fn init_state() -> DocState {
    DocState { sect: Sect::Top, header: None, white: None, black: None }
}

/// One step of the fold: what line `ln` (one-based), reading `l`, does to
/// the state `st`.
pub open spec fn step_line(st: DocState, l: Seq<char>, ln: int) -> Result<DocState, DecodeError> {
    match line_form(l) {
        LineForm::Blank => Ok(st),
        LineForm::Bad => Err(DecodeError::Syntax { line: ln as usize }),
        LineForm::Table(name) => {
            if name == "whitelist"@ {
                if st.white is Some {
                    Err(DecodeError::Duplicate { line: ln as usize })
                } else {
                    Ok(DocState { sect: Sect::White, white: Some(Seq::empty()), ..st })
                }
            } else if name == "blacklist"@ {
                if st.black is Some {
                    Err(DecodeError::Duplicate { line: ln as usize })
                } else {
                    Ok(DocState { sect: Sect::Black, black: Some(Seq::empty()), ..st })
                }
            } else {
                Err(DecodeError::UnknownTable { line: ln as usize })
            }
        },
        LineForm::Pair(key, value) => match st.sect {
            Sect::Top => {
                if key == "header"@ {
                    if st.header is Some {
                        Err(DecodeError::Duplicate { line: ln as usize })
                    } else {
                        Ok(DocState { header: Some(value), ..st })
                    }
                } else {
                    Err(DecodeError::UnknownField { line: ln as usize })
                }
            },
            Sect::White => match kind_of(value) {
                None => Err(DecodeError::BadKind { line: ln as usize }),
                Some(it) => {
                    if assoc_has(st.white->0, key) {
                        Err(DecodeError::Duplicate { line: ln as usize })
                    } else {
                        Ok(DocState { white: Some(st.white->0.push((key, it))), ..st })
                    }
                },
            },
            Sect::Black => match kind_of(value) {
                None => Err(DecodeError::BadKind { line: ln as usize }),
                Some(it) => {
                    if assoc_has(st.black->0, key) {
                        Err(DecodeError::Duplicate { line: ln as usize })
                    } else {
                        Ok(DocState { black: Some(st.black->0.push((key, it))), ..st })
                    }
                },
            },
        },
    }
}

/// Fold the lines `ls` over the state `st`, the first of them being line
/// number `ln`.
pub open spec fn run_lines(ls: Seq<Seq<char>>, st: DocState, ln: int) -> Result<
    DocState,
    DecodeError,
>
    decreases ls.len(),
{
    if ls.len() == 0 {
        Ok(st)
    } else {
        match step_line(st, ls.first(), ln) {
            Err(e) => Err(e),
            Ok(st2) => run_lines(ls.drop_first(), st2, ln + 1),
        }
    }
}

/// A decoded descriptor document.
pub struct DocModel {
    /// The raw header declaration text.
    pub header: Seq<char>,
    /// The allow filter set, if its table was given.
    pub white: Option<Seq<(Seq<char>, Item)>>,
    /// The deny filter set, if its table was given.
    pub black: Option<Seq<(Seq<char>, Item)>>,
}

/// What decoding the descriptor text `s` yields: the document, or the
/// first error, with the header field required.
pub open spec fn parse_document_spec(s: Seq<char>) -> Result<DocModel, DecodeError> {
    match run_lines(lines_from(s, 0), init_state(), 1) {
        Err(e) => Err(e),
        Ok(st) => match st.header {
            None => Err(DecodeError::MissingHeader),
            Some(h) => Ok(DocModel { header: h, white: st.white, black: st.black }),
        },
    }
}

/// A decoded descriptor document, as values.
pub struct Document {
    /// The raw header declaration text.
    pub header: String,
    /// The allow filter set, if its table was given.
    pub whitelist: Option<Vec<Filter>>,
    /// The deny filter set, if its table was given.
    pub blacklist: Option<Vec<Filter>>,
}

/// The decoded filter set `fs` as a sequence of name and kind pairs.
pub open spec fn filters_view(fs: Option<Vec<Filter>>) -> Option<Seq<(Seq<char>, Item)>> {
    match fs {
        None => None,
        Some(v) => Some(v.deep_view()),
    }
}

impl View for Document {
    type V = DocModel;

    open spec fn view(&self) -> DocModel {
        DocModel {
            header: self.header@,
            white: filters_view(self.whitelist),
            black: filters_view(self.blacklist),
        }
    }
}

/// Whether the filter set `fs` already names `name`, as a value.
fn assoc_has_x(fs: &Vec<Filter>, name: &str) -> (r: bool)
    ensures
        r == assoc_has(fs.deep_view(), name@),
{
    let mut k: usize = 0;
    while k < fs.len()
        invariant
            k <= fs.len(),
            forall|j: int| 0 <= j < k ==> fs.deep_view()[j].0 != name@,
        decreases fs.len() - k,
    {
        if str_eq(fs[k].name().as_str(), name) {
            assert(fs.deep_view()[k as int].0 == name@);
            return true;
        }
        k += 1;
    }
    false
}

/// The fold state, as values.
struct DocAcc {
    sect: Sect,
    header: Option<String>,
    white: Option<Vec<Filter>>,
    black: Option<Vec<Filter>>,
}

impl DocAcc {
    spec fn wf(&self) -> bool {
        (self.sect is White ==> self.white is Some) && (self.sect is Black
            ==> self.black is Some)
    }

    spec fn view_state(&self) -> DocState {
        DocState {
            sect: self.sect,
            header: match self.header {
                None => None,
                Some(ref h) => Some(h@),
            },
            white: filters_view(self.white),
            black: filters_view(self.black),
        }
    }
}

/// One step of the fold, as values.
fn step_line_x(acc: DocAcc, line: &str, ln: usize) -> (r: Result<DocAcc, DecodeError>)
    requires
        acc.wf(),
    ensures
        step_line(acc.view_state(), line@, ln as int) matches Err(e) ==> r matches Err(e2) && e2
            == e,
        step_line(acc.view_state(), line@, ln as int) matches Ok(st) ==> r matches Ok(a2)
            && a2.view_state() == st && a2.wf(),
{
    let ghost st0 = acc.view_state();
    match parse_line(line) {
        ParsedLine::Blank => Ok(acc),
        ParsedLine::Bad => Err(DecodeError::Syntax { line: ln }),
        ParsedLine::Table(name) => {
            if str_eq(name.as_str(), "whitelist") {
                if acc.white.is_some() {
                    Err(DecodeError::Duplicate { line: ln })
                } else {
                    let fresh: Vec<Filter> = Vec::new();
                    proof {
                        assert(fresh.deep_view() =~= Seq::<(Seq<char>, Item)>::empty());
                    }
                    Ok(
                        DocAcc {
                            sect: Sect::White,
                            header: acc.header,
                            white: Some(fresh),
                            black: acc.black,
                        },
                    )
                }
            } else if str_eq(name.as_str(), "blacklist") {
                if acc.black.is_some() {
                    Err(DecodeError::Duplicate { line: ln })
                } else {
                    let fresh: Vec<Filter> = Vec::new();
                    proof {
                        assert(fresh.deep_view() =~= Seq::<(Seq<char>, Item)>::empty());
                    }
                    Ok(
                        DocAcc {
                            sect: Sect::Black,
                            header: acc.header,
                            white: acc.white,
                            black: Some(fresh),
                        },
                    )
                }
            } else {
                Err(DecodeError::UnknownTable { line: ln })
            }
        },
        ParsedLine::Pair(key, value) => match acc.sect {
            Sect::Top => {
                if str_eq(key.as_str(), "header") {
                    if acc.header.is_some() {
                        Err(DecodeError::Duplicate { line: ln })
                    } else {
                        Ok(
                            DocAcc {
                                sect: acc.sect,
                                header: Some(value),
                                white: acc.white,
                                black: acc.black,
                            },
                        )
                    }
                } else {
                    Err(DecodeError::UnknownField { line: ln })
                }
            },
            Sect::White => match kind_value(value.as_str()) {
                None => Err(DecodeError::BadKind { line: ln }),
                Some(it) => {
                    let mut fs = acc.white.unwrap();
                    if assoc_has_x(&fs, key.as_str()) {
                        Err(DecodeError::Duplicate { line: ln })
                    } else {
                        let ghost old_fs = fs.deep_view();
                        fs.push(Filter::new(it, key));
                        proof {
                            assert(fs.deep_view() =~= old_fs.push(
                                (fs[fs.len() - 1].deep_view().0, it),
                            ));
                        }
                        Ok(
                            DocAcc {
                                sect: acc.sect,
                                header: acc.header,
                                white: Some(fs),
                                black: acc.black,
                            },
                        )
                    }
                },
            },
            Sect::Black => match kind_value(value.as_str()) {
                None => Err(DecodeError::BadKind { line: ln }),
                Some(it) => {
                    let mut fs = acc.black.unwrap();
                    if assoc_has_x(&fs, key.as_str()) {
                        Err(DecodeError::Duplicate { line: ln })
                    } else {
                        let ghost old_fs = fs.deep_view();
                        fs.push(Filter::new(it, key));
                        proof {
                            assert(fs.deep_view() =~= old_fs.push(
                                (fs[fs.len() - 1].deep_view().0, it),
                            ));
                        }
                        Ok(
                            DocAcc {
                                sect: acc.sect,
                                header: acc.header,
                                white: acc.white,
                                black: Some(fs),
                            },
                        )
                    }
                },
            },
        },
    }
}

/// Decode one descriptor text: the document, or the first error.
///
/// A key given twice — a filter name inside one table, the header field,
/// or a table heading — is rejected, never collapsed.
pub fn parse_document(s: &str) -> (r: Result<Document, DecodeError>)
    ensures
        parse_document_spec(s@) matches Err(e) ==> r matches Err(e2) && e2 == e,
        parse_document_spec(s@) matches Ok(m) ==> r matches Ok(d) && d@ == m,
{
    let lines = split_lines(s);
    let ghost all = lines.deep_view();
    let mut acc = DocAcc { sect: Sect::Top, header: None, white: None, black: None };
    let mut idx: usize = 0;
    proof {
        assert(all.skip(0) =~= all);
    }
    while idx < lines.len()
        invariant
            idx <= lines.len(),
            acc.wf(),
            lines.deep_view() == all,
            all == lines_from(s@, 0),
            run_lines(all, init_state(), 1) == run_lines(
                all.skip(idx as int),
                acc.view_state(),
                idx + 1,
            ),
        decreases lines.len() - idx,
    {
        proof {
            assert(all.skip(idx as int).first() == lines[idx as int].deep_view());
            assert(all.skip(idx as int).drop_first() =~= all.skip(idx + 1));
        }
        match step_line_x(acc, lines[idx].as_str(), idx + 1) {
            Err(e) => {
                return Err(e);
            },
            Ok(a2) => {
                acc = a2;
            },
        }
        idx += 1;
    }
    proof {
        assert(all.skip(lines.len() as int) =~= Seq::<Seq<char>>::empty());
    }
    match acc.header {
        None => Err(DecodeError::MissingHeader),
        Some(h) => Ok(Document { header: h, whitelist: acc.white, blacklist: acc.black }),
    }
}

} // verus!
