//! The settings file format: a JSON document holding one [`AppSettings`]
//! snapshot, rendered and parsed by this module.
//!
//! The grammar is stated by the `sp_*` specification parsers over character
//! sequences; the executable renderer and parser are proved against them, and
//! the round-trip law — parsing a rendered snapshot gives the snapshot back —
//! is proved over the specifications.

use vstd::prelude::*;
use vstd::string::StrSliceExecFns;
use crate::notification::NotificationSettings;
use crate::settings::{AppSettings, SettingsModel, TabInfo, TabModel};

verus! {

// ---------------------------------------------------------------------------
// Characters and positions
// ---------------------------------------------------------------------------

/// JSON insignificant whitespace.
pub open spec fn is_ws(c: char) -> bool {
    c == ' ' || c == '\n' || c == '\r' || c == '\t'
}

fn ws_char(c: char) -> (b: bool)
    ensures
        b == is_ws(c),
{
    c == ' ' || c == '\n' || c == '\r' || c == '\t'
}

pub open spec fn is_digit(c: char) -> bool {
    ||| c == '0'
    ||| c == '1'
    ||| c == '2'
    ||| c == '3'
    ||| c == '4'
    ||| c == '5'
    ||| c == '6'
    ||| c == '7'
    ||| c == '8'
    ||| c == '9'
}

fn digit_char(c: char) -> (b: bool)
    ensures
        b == is_digit(c),
{
    c == '0' || c == '1' || c == '2' || c == '3' || c == '4' || c == '5' || c == '6' || c == '7'
        || c == '8' || c == '9'
}

pub open spec fn digit_val(c: char) -> int {
    if c == '0' {
        0
    } else if c == '1' {
        1
    } else if c == '2' {
        2
    } else if c == '3' {
        3
    } else if c == '4' {
        4
    } else if c == '5' {
        5
    } else if c == '6' {
        6
    } else if c == '7' {
        7
    } else if c == '8' {
        8
    } else {
        9
    }
}

pub open spec fn digit_of(d: int) -> char {
    if d == 0 {
        '0'
    } else if d == 1 {
        '1'
    } else if d == 2 {
        '2'
    } else if d == 3 {
        '3'
    } else if d == 4 {
        '4'
    } else if d == 5 {
        '5'
    } else if d == 6 {
        '6'
    } else if d == 7 {
        '7'
    } else if d == 8 {
        '8'
    } else {
        '9'
    }
}

fn digit_of_exec(d: u64) -> (c: char)
    requires
        d < 10,
    ensures
        c == digit_of(d as int),
{
    if d == 0 {
        '0'
    } else if d == 1 {
        '1'
    } else if d == 2 {
        '2'
    } else if d == 3 {
        '3'
    } else if d == 4 {
        '4'
    } else if d == 5 {
        '5'
    } else if d == 6 {
        '6'
    } else if d == 7 {
        '7'
    } else if d == 8 {
        '8'
    } else {
        '9'
    }
}

/// `s` stands verbatim in `doc` at position `i`.
pub open spec fn matches_at(doc: Seq<char>, i: int, s: Seq<char>) -> bool {
    &&& 0 <= i
    &&& i + s.len() <= doc.len()
    &&& doc.subrange(i, i + s.len() as int) == s
}

/// A match of a concatenation is a match of each part in turn.
pub proof fn lemma_matches_split(doc: Seq<char>, i: int, a: Seq<char>, b: Seq<char>)
    requires
        matches_at(doc, i, a + b),
    ensures
        matches_at(doc, i, a),
        matches_at(doc, i + a.len(), b),
{
    let ab = a + b;
    assert forall|k: int| 0 <= k < a.len() implies doc[i + k] == a[k] by {
        assert(doc.subrange(i, i + ab.len() as int)[k] == doc[i + k]);
        assert(ab[k] == a[k]);
    }
    assert(doc.subrange(i, i + a.len() as int) =~= a);
    assert forall|k: int| 0 <= k < b.len() implies doc[i + a.len() + k] == b[k] by {
        assert(doc.subrange(i, i + ab.len() as int)[a.len() + k] == doc[i + a.len() + k]);
        assert(ab[a.len() + k] == b[k]);
    }
    assert(doc.subrange(i + a.len(), i + a.len() + b.len()) =~= b);
}

// ---------------------------------------------------------------------------
// Whitespace
// ---------------------------------------------------------------------------

/// The first position at or after `i` holding a non-whitespace character.
pub open spec fn sp_ws(doc: Seq<char>, i: int) -> int
    decreases doc.len() - i,
{
    if 0 <= i < doc.len() && is_ws(doc[i]) {
        sp_ws(doc, i + 1)
    } else {
        i
    }
}

pub proof fn lemma_ws_at(doc: Seq<char>, i: int, w: Seq<char>)
    requires
        matches_at(doc, i, w),
        forall|k: int| 0 <= k < w.len() ==> is_ws(w[k]),
        i + w.len() == doc.len() || !is_ws(doc[i + w.len()]),
    ensures
        sp_ws(doc, i) == i + w.len(),
    decreases w.len(),
{
    if w.len() == 0 {
    } else {
        assert(doc.subrange(i, i + w.len() as int)[0] == doc[i]);
        assert(is_ws(doc[i]));
        let w2 = w.subrange(1, w.len() as int);
        assert forall|k: int| 0 <= k < w2.len() implies doc[i + 1 + k] == w2[k] by {
            assert(doc.subrange(i, i + w.len() as int)[k + 1] == doc[i + 1 + k]);
        }
        assert(doc.subrange(i + 1, i + 1 + w2.len()) =~= w2);
        lemma_ws_at(doc, i + 1, w2);
    }
}

fn e_skip_ws(doc: &Vec<char>, i: usize) -> (j: usize)
    requires
        i <= doc@.len(),
    ensures
        j == sp_ws(doc@, i as int),
        i <= j <= doc@.len(),
    decreases doc@.len() - i,
{
    if i < doc.len() && ws_char(doc[i]) {
        e_skip_ws(doc, i + 1)
    } else {
        i
    }
}

// ---------------------------------------------------------------------------
// Strings, with escaping of quote and backslash
// ---------------------------------------------------------------------------

/// A control character that the renderer has no escape for: anything below
/// U+0020 other than line feed, carriage return and tab. JSON forbids all of
/// them unescaped, so a string holding one cannot be persisted faithfully.
pub open spec fn raw_ctrl(c: char) -> bool {
    (c as u32) < 32 && c != '\n' && c != '\r' && c != '\t'
}

/// Text the renderer can persist: free of control characters it cannot
/// escape.
pub open spec fn text_ok(s: Seq<char>) -> bool {
    forall|k: int| 0 <= k < s.len() ==> !raw_ctrl(#[trigger] s[k])
}

/// How one character stands inside a JSON string literal: quote, backslash,
/// line feed, carriage return and tab are escaped.
pub open spec fn esc_char(c: char) -> Seq<char> {
    if c == '"' || c == '\\' {
        seq!['\\', c]
    } else if c == '\n' {
        seq!['\\', 'n']
    } else if c == '\r' {
        seq!['\\', 'r']
    } else if c == '\t' {
        seq!['\\', 't']
    } else {
        seq![c]
    }
}

/// The character an escape code stands for, if it is one this format knows.
pub open spec fn esc_code(e: char) -> Option<char> {
    if e == '"' {
        Some('"')
    } else if e == '\\' {
        Some('\\')
    } else if e == 'n' {
        Some('\n')
    } else if e == 'r' {
        Some('\r')
    } else if e == 't' {
        Some('\t')
    } else {
        None
    }
}

fn esc_code_exec(e: char) -> (r: Option<char>)
    ensures
        r == esc_code(e),
{
    if e == '"' {
        Some('"')
    } else if e == '\\' {
        Some('\\')
    } else if e == 'n' {
        Some('\n')
    } else if e == 'r' {
        Some('\r')
    } else if e == 't' {
        Some('\t')
    } else {
        None
    }
}

pub open spec fn sp_escape(s: Seq<char>) -> Seq<char>
    decreases s.len(),
{
    if s.len() == 0 {
        Seq::empty()
    } else {
        esc_char(s[0]) + sp_escape(s.subrange(1, s.len() as int))
    }
}

/// A whole JSON string literal: the content escaped, between quotes.
pub open spec fn quoted(s: Seq<char>) -> Seq<char> {
    seq!['"'] + sp_escape(s) + seq!['"']
}

/// Scans the inside of a string literal up to its closing quote, undoing the
/// escapes; yields the content and the position after the closing quote. An
/// unknown escape or an unescaped control character is malformed.
pub open spec fn sp_str_chars(doc: Seq<char>, i: int) -> Option<(Seq<char>, int)>
    decreases doc.len() - i,
{
    if i < 0 || i >= doc.len() {
        None
    } else if doc[i] == '"' {
        Some((Seq::empty(), i + 1))
    } else if doc[i] == '\\' {
        if i + 1 < doc.len() {
            match esc_code(doc[i + 1]) {
                Some(c) => match sp_str_chars(doc, i + 2) {
                    Some((s, j)) => Some((seq![c] + s, j)),
                    None => None,
                },
                None => None,
            }
        } else {
            None
        }
    } else if (doc[i] as u32) < 32 {
        None
    } else {
        match sp_str_chars(doc, i + 1) {
            Some((s, j)) => Some((seq![doc[i]] + s, j)),
            None => None,
        }
    }
}

/// A string literal: an opening quote, then the scanned content.
pub open spec fn sp_string(doc: Seq<char>, i: int) -> Option<(Seq<char>, int)> {
    if 0 <= i < doc.len() && doc[i] == '"' {
        sp_str_chars(doc, i + 1)
    } else {
        None
    }
}

proof fn lemma_scan_escaped(doc: Seq<char>, i: int, s: Seq<char>)
    requires
        matches_at(doc, i, sp_escape(s) + seq!['"']),
        text_ok(s),
    ensures
        sp_str_chars(doc, i) == Some((s, i + sp_escape(s).len() + 1)),
    decreases s.len(),
{
    if s.len() == 0 {
        assert(doc.subrange(i, i + 1)[0] == doc[i]);
        assert(doc[i] == '"');
    } else {
        let c = s[0];
        let s2 = s.subrange(1, s.len() as int);
        assert(text_ok(s2)) by {
            assert forall|k: int| 0 <= k < s2.len() implies !raw_ctrl(s2[k]) by {
                assert(s2[k] == s[k + 1]);
            }
        }
        assert(sp_escape(s) == esc_char(c) + sp_escape(s2));
        assert((esc_char(c) + sp_escape(s2)) + seq!['"'] =~= esc_char(c) + (sp_escape(s2)
            + seq!['"']));
        lemma_matches_split(doc, i, esc_char(c), sp_escape(s2) + seq!['"']);
        if c == '"' || c == '\\' || c == '\n' || c == '\r' || c == '\t' {
            assert(doc.subrange(i, i + 2)[0] == doc[i]);
            assert(doc.subrange(i, i + 2)[1] == doc[i + 1]);
            assert(doc[i] == '\\');
            assert(esc_code(doc[i + 1]) == Some(c));
            lemma_scan_escaped(doc, i + 2, s2);
            assert(seq![c] + s2 =~= s);
        } else {
            assert(doc.subrange(i, i + 1)[0] == doc[i]);
            assert(doc[i] == c);
            assert(!raw_ctrl(c));
            assert((c as u32) >= 32);
            lemma_scan_escaped(doc, i + 1, s2);
            assert(seq![doc[i]] + s2 =~= s);
        }
    }
}

/// Parsing a rendered string literal gives its content back, for any content
/// the renderer can persist.
pub proof fn lemma_string_at(doc: Seq<char>, i: int, s: Seq<char>)
    requires
        matches_at(doc, i, quoted(s)),
        text_ok(s),
    ensures
        sp_string(doc, i) == Some((s, i + quoted(s).len())),
{
    assert(quoted(s) =~= seq!['"'] + (sp_escape(s) + seq!['"']));
    lemma_matches_split(doc, i, seq!['"'], sp_escape(s) + seq!['"']);
    assert(doc.subrange(i, i + 1)[0] == doc[i]);
    assert(doc[i] == '"');
    lemma_scan_escaped(doc, i + 1, s);
}

fn e_string(doc: &Vec<char>, i: usize) -> (r: Option<(Vec<char>, usize)>)
    ensures
        match sp_string(doc@, i as int) {
            Some((s, j)) => r matches Some(p) && p.0@ == s && p.1 == j && i < j <= doc@.len(),
            None => r is None,
        },
{
    if i < doc.len() && doc[i] == '"' {
        e_str_chars(doc, i + 1)
    } else {
        None
    }
}

fn e_str_chars(doc: &Vec<char>, i: usize) -> (r: Option<(Vec<char>, usize)>)
    ensures
        match sp_str_chars(doc@, i as int) {
            Some((s, j)) => r matches Some(p) && p.0@ == s && p.1 == j && i < j <= doc@.len(),
            None => r is None,
        },
    decreases doc@.len() - i,
{
    if i >= doc.len() {
        return None;
    }
    let c = doc[i];
    if c == '"' {
        Some((Vec::new(), i + 1))
    } else if c == '\\' {
        if i + 1 < doc.len() {
            match esc_code_exec(doc[i + 1]) {
                Some(e) => match e_str_chars(doc, i + 2) {
                    Some((mut v, j)) => {
                        let ghost prev = v@;
                        v.insert(0, e);
                        assert(v@ =~= seq![e] + prev);
                        Some((v, j))
                    },
                    None => None,
                },
                None => None,
            }
        } else {
            None
        }
    } else if (c as u32) < 32 {
        None
    } else {
        match e_str_chars(doc, i + 1) {
            Some((mut v, j)) => {
                let ghost prev = v@;
                v.insert(0, c);
                assert(v@ =~= seq![c] + prev);
                Some((v, j))
            },
            None => None,
        }
    }
}

// ---------------------------------------------------------------------------
// Booleans
// ---------------------------------------------------------------------------

pub open spec fn render_bool(b: bool) -> Seq<char> {
    if b {
        seq!['t', 'r', 'u', 'e']
    } else {
        seq!['f', 'a', 'l', 's', 'e']
    }
}

pub open spec fn sp_bool(doc: Seq<char>, i: int) -> Option<(bool, int)> {
    if 0 <= i && i + 4 <= doc.len() && doc[i] == 't' && doc[i + 1] == 'r' && doc[i + 2] == 'u'
        && doc[i + 3] == 'e' {
        Some((true, i + 4))
    } else if 0 <= i && i + 5 <= doc.len() && doc[i] == 'f' && doc[i + 1] == 'a' && doc[i + 2]
        == 'l' && doc[i + 3] == 's' && doc[i + 4] == 'e' {
        Some((false, i + 5))
    } else {
        None
    }
}

pub proof fn lemma_bool_at(doc: Seq<char>, i: int, b: bool)
    requires
        matches_at(doc, i, render_bool(b)),
    ensures
        sp_bool(doc, i) == Some((b, i + render_bool(b).len())),
{
    let n = render_bool(b).len() as int;
    assert forall|k: int| 0 <= k < n implies doc[i + k] == render_bool(b)[k] by {
        assert(doc.subrange(i, i + n)[k] == doc[i + k]);
    }
}

fn e_bool(doc: &Vec<char>, i: usize) -> (r: Option<(bool, usize)>)
    ensures
        match sp_bool(doc@, i as int) {
            Some((b, j)) => r matches Some(p) && p.0 == b && p.1 == j && i < j <= doc@.len(),
            None => r is None,
        },
{
    if i < doc.len() && doc[i] == 't' {
        if doc.len() - i >= 4 && doc[i + 1] == 'r' && doc[i + 2] == 'u' && doc[i + 3] == 'e' {
            Some((true, i + 4))
        } else {
            None
        }
    } else if i < doc.len() && doc[i] == 'f' {
        if doc.len() - i >= 5 && doc[i + 1] == 'a' && doc[i + 2] == 'l' && doc[i + 3] == 's' && doc[i
            + 4] == 'e' {
            Some((false, i + 5))
        } else {
            None
        }
    } else {
        None
    }
}

// ---------------------------------------------------------------------------
// Integers
// ---------------------------------------------------------------------------

pub open spec fn all_digits(s: Seq<char>) -> bool {
    forall|k: int| 0 <= k < s.len() ==> is_digit(s[k])
}

/// The value of a run of decimal digits.
pub open spec fn digits_val(s: Seq<char>) -> int
    decreases s.len(),
{
    if s.len() == 0 {
        0
    } else {
        digits_val(s.drop_last()) * 10 + digit_val(s.last())
    }
}

/// The decimal digits of a non-negative number, most significant first.
pub open spec fn uint_chars(n: int) -> Seq<char>
    decreases n,
{
    if n < 10 {
        seq![digit_of(n)]
    } else {
        uint_chars(n / 10).push(digit_of(n % 10))
    }
}

/// The decimal rendering of an integer, with a leading minus where negative.
pub open spec fn render_int(n: int) -> Seq<char> {
    if n < 0 {
        seq!['-'] + uint_chars(-n)
    } else {
        uint_chars(n)
    }
}

pub proof fn lemma_uint_chars(n: int)
    requires
        0 <= n,
    ensures
        uint_chars(n).len() >= 1,
        all_digits(uint_chars(n)),
        digits_val(uint_chars(n)) == n,
    decreases n,
{
    if n < 10 {
        let s = seq![digit_of(n)];
        assert(s.drop_last() =~= Seq::<char>::empty());
        assert(digits_val(s) == digits_val(s.drop_last()) * 10 + digit_val(s.last()));
        assert(digit_val(digit_of(n)) == n);
    } else {
        lemma_uint_chars(n / 10);
        let pre = uint_chars(n / 10);
        let s = pre.push(digit_of(n % 10));
        assert(s.drop_last() =~= pre);
        assert(digits_val(s) == digits_val(pre) * 10 + digit_val(digit_of(n % 10)));
    }
}

pub proof fn lemma_digits_val_nonneg(s: Seq<char>)
    requires
        all_digits(s),
    ensures
        digits_val(s) >= 0,
    decreases s.len(),
{
    if s.len() > 0 {
        assert(all_digits(s.drop_last()));
        lemma_digits_val_nonneg(s.drop_last());
    }
}

/// A digit run's value never drops when more digits are appended.
pub proof fn lemma_digits_val_prefix(s: Seq<char>, m: int)
    requires
        all_digits(s),
        0 <= m <= s.len(),
    ensures
        digits_val(s.subrange(0, m)) <= digits_val(s),
    decreases s.len() - m,
{
    if m == s.len() {
        assert(s.subrange(0, m) =~= s);
    } else {
        let t = s.subrange(0, m + 1);
        assert(all_digits(t));
        assert(t.drop_last() =~= s.subrange(0, m));
        lemma_digits_val_nonneg(s.subrange(0, m));
        assert(digits_val(t) == digits_val(s.subrange(0, m)) * 10 + digit_val(t.last()));
        lemma_digits_val_prefix(s, m + 1);
    }
}

/// The longest run of decimal digits starting at `i`, with its end.
pub open spec fn sp_digits(doc: Seq<char>, i: int) -> Option<(Seq<char>, int)>
    decreases doc.len() - i,
{
    if 0 <= i < doc.len() && is_digit(doc[i]) {
        match sp_digits(doc, i + 1) {
            Some((s, j)) => Some((seq![doc[i]] + s, j)),
            None => Some((seq![doc[i]], i + 1)),
        }
    } else {
        None
    }
}

/// A JSON number restricted to integers in the range of `i32`.
pub open spec fn sp_int(doc: Seq<char>, i: int) -> Option<(int, int)> {
    if 0 <= i < doc.len() && doc[i] == '-' {
        match sp_digits(doc, i + 1) {
            Some((s, j)) => {
                if -(digits_val(s)) >= i32::MIN {
                    Some((-(digits_val(s)), j))
                } else {
                    None
                }
            },
            None => None,
        }
    } else {
        match sp_digits(doc, i) {
            Some((s, j)) => {
                if digits_val(s) <= i32::MAX {
                    Some((digits_val(s), j))
                } else {
                    None
                }
            },
            None => None,
        }
    }
}

proof fn lemma_digits_at(doc: Seq<char>, i: int, s: Seq<char>)
    requires
        matches_at(doc, i, s),
        all_digits(s),
        s.len() >= 1,
        i + s.len() == doc.len() || !is_digit(doc[i + s.len()]),
    ensures
        sp_digits(doc, i) == Some((s, i + s.len())),
    decreases s.len(),
{
    assert(doc.subrange(i, i + s.len() as int)[0] == doc[i]);
    assert(doc[i] == s[0]);
    if s.len() == 1 {
        assert(sp_digits(doc, i + 1) is None);
        assert(seq![doc[i]] =~= s);
    } else {
        let s2 = s.subrange(1, s.len() as int);
        assert forall|k: int| 0 <= k < s2.len() implies doc[i + 1 + k] == s2[k] by {
            assert(doc.subrange(i, i + s.len() as int)[k + 1] == doc[i + 1 + k]);
        }
        assert(doc.subrange(i + 1, i + 1 + s2.len()) =~= s2);
        lemma_digits_at(doc, i + 1, s2);
        assert(seq![doc[i]] + s2 =~= s);
    }
}

/// Parsing a rendered integer gives the integer back, wherever the next
/// character is not another digit.
pub proof fn lemma_int_at(doc: Seq<char>, i: int, n: int)
    requires
        matches_at(doc, i, render_int(n)),
        i32::MIN <= n <= i32::MAX,
        i + render_int(n).len() == doc.len() || !is_digit(doc[i + render_int(n).len()]),
    ensures
        sp_int(doc, i) == Some((n, i + render_int(n).len())),
{
    if n < 0 {
        lemma_matches_split(doc, i, seq!['-'], uint_chars(-n));
        assert(doc.subrange(i, i + 1)[0] == doc[i]);
        assert(doc[i] == '-');
        lemma_uint_chars(-n);
        lemma_digits_at(doc, i + 1, uint_chars(-n));
    } else {
        lemma_uint_chars(n);
        lemma_digits_at(doc, i, uint_chars(n));
        assert(doc[i] == uint_chars(n)[0]) by {
            assert(doc.subrange(i, i + uint_chars(n).len() as int)[0] == doc[i]);
        }
        assert(doc[i] != '-');
    }
}

/// Appends the decimal digits of `n`.
fn push_uint(out: &mut Vec<char>, n: u64)
    ensures
        final(out)@ == old(out)@ + uint_chars(n as int),
    decreases n,
{
    if n < 10 {
        out.push(digit_of_exec(n));
        assert(out@ =~= old(out)@ + uint_chars(n as int));
    } else {
        push_uint(out, n / 10);
        out.push(digit_of_exec(n % 10));
        assert(out@ =~= old(out)@ + uint_chars(n as int));
    }
}

/// Appends the decimal rendering of `n`.
fn push_int(out: &mut Vec<char>, n: i32)
    ensures
        final(out)@ == old(out)@ + render_int(n as int),
{
    if n < 0 {
        let m = -(n as i64);
        out.push('-');
        push_uint(out, m as u64);
        assert(out@ =~= old(out)@ + render_int(n as int));
    } else {
        push_uint(out, n as u64);
    }
}

fn digit_val_exec(c: char) -> (v: u64)
    requires
        is_digit(c),
    ensures
        v == digit_val(c),
        v <= 9,
{
    if c == '0' {
        0
    } else if c == '1' {
        1
    } else if c == '2' {
        2
    } else if c == '3' {
        3
    } else if c == '4' {
        4
    } else if c == '5' {
        5
    } else if c == '6' {
        6
    } else if c == '7' {
        7
    } else if c == '8' {
        8
    } else {
        9
    }
}

/// Reads the digit run starting at `i`, if any, returning its end.
fn e_digit_run(doc: &Vec<char>, i: usize) -> (r: Option<usize>)
    ensures
        match sp_digits(doc@, i as int) {
            Some((s, j)) => {
                &&& r matches Some(e) && e == j
                &&& s == doc@.subrange(i as int, j)
                &&& all_digits(s)
                &&& i < j <= doc@.len()
            },
            None => r is None,
        },
    decreases doc@.len() - i,
{
    if i < doc.len() && digit_char(doc[i]) {
        match e_digit_run(doc, i + 1) {
            Some(j) => {
                proof {
                    match sp_digits(doc@, i as int + 1) {
                        Some((s2, j2)) => {
                            let x = doc@.subrange(i as int, j2);
                            assert(seq![doc@[i as int]] + s2 =~= x);
                            assert forall|k: int| 0 <= k < x.len() implies is_digit(x[k]) by {
                                if k > 0 {
                                    assert(x[k] == s2[k - 1]);
                                }
                            }
                        },
                        None => {
                        },
                    }
                }
                Some(j)
            },
            None => {
                assert(seq![doc@[i as int]] =~= doc@.subrange(i as int, i as int + 1));
                Some(i + 1)
            },
        }
    } else {
        None
    }
}

/// Parses a JSON integer in the range of `i32`.
#[verifier::loop_isolation(false)]
fn e_int(doc: &Vec<char>, i: usize) -> (r: Option<(i32, usize)>)
    ensures
        match sp_int(doc@, i as int) {
            Some((n, j)) => r matches Some(p) && p.0 == n && p.1 == j && i < j <= doc@.len(),
            None => r is None,
        },
{
    let neg = i < doc.len() && doc[i] == '-';
    let start = if neg { i + 1 } else { i };
    match e_digit_run(doc, start) {
        Some(j) => {
            let ghost s = doc@.subrange(start as int, j as int);
            proof {
                lemma_digits_val_nonneg(s);
            }
            let mut acc: u64 = 0;
            let mut k = start;
            while k < j
                invariant
                    start <= k <= j,
                    j <= doc@.len(),
                    s == doc@.subrange(start as int, j as int),
                    all_digits(s),
                    acc == digits_val(s.subrange(0, k - start)),
                    acc <= 0x8000_0000u64,
                decreases j - k,
            {
                assert(is_digit(doc@[k as int])) by {
                    assert(s[k - start] == doc@[k as int]);
                }
                let ghost pre = s.subrange(0, k - start);
                let ghost cur = s.subrange(0, k + 1 - start);
                proof {
                    assert(cur.drop_last() =~= pre);
                    assert(cur.last() == doc@[k as int]);
                }
                let dv: u64 = digit_val_exec(doc[k]);
                acc = acc * 10 + dv;
                if acc > 0x8000_0000u64 {
                    proof {
                        assert(digits_val(cur) == acc);
                        lemma_digits_val_prefix(s, k + 1 - start);
                        assert(digits_val(s) >= acc > 0x8000_0000u64);
                        if neg {
                            assert(doc@[i as int] == '-');
                            assert(-(digits_val(s)) < i32::MIN);
                            assert(sp_int(doc@, i as int) is None);
                        } else {
                            assert(digits_val(s) > i32::MAX);
                            assert(sp_int(doc@, i as int) is None);
                        }
                    }
                    return None;
                }
                k = k + 1;
            }
            proof {
                assert(s.subrange(0, j - start) =~= s);
                assert(acc == digits_val(s));
            }
            if neg {
                let v = -(acc as i64);
                if v >= -0x8000_0000i64 {
                    Some((v as i32, j))
                } else {
                    None
                }
            } else {
                if acc <= 0x7fff_ffffu64 {
                    Some((acc as i32, j))
                } else {
                    None
                }
            }
        },
        None => None,
    }
}

// ---------------------------------------------------------------------------
// Layout of the rendered document
// ---------------------------------------------------------------------------

pub open spec fn nl2() -> Seq<char> {
    seq!['\n', ' ', ' ']
}

pub open spec fn nl4() -> Seq<char> {
    seq!['\n', ' ', ' ', ' ', ' ']
}

pub open spec fn nl6() -> Seq<char> {
    seq!['\n', ' ', ' ', ' ', ' ', ' ', ' ']
}

pub open spec fn colsp() -> Seq<char> {
    seq![':', ' ']
}

/// One `"key": value` member of the notification object, with its leading
/// line break and indent.
pub open spec fn bool_member(key: Seq<char>, b: bool) -> Seq<char> {
    nl4() + quoted(key) + colsp() + render_bool(b)
}

/// The rendered notification-settings object.
pub open spec fn render_notif(n: NotificationSettings) -> Seq<char> {
    seq!['{'] + bool_member("enabled"@, n.enabled) + seq![','] + bool_member(
        "show_message_notifications"@,
        n.show_message_notifications,
    ) + seq![','] + bool_member("show_call_notifications"@, n.show_call_notifications) + seq![',']
        + bool_member("sound_enabled"@, n.sound_enabled) + seq![','] + bool_member(
        "show_sender"@,
        n.show_sender,
    ) + nl2() + seq!['}']
}

/// One `"key": "value"` member of a tab object.
pub open spec fn tab_member(key: Seq<char>, s: Seq<char>) -> Seq<char> {
    nl6() + quoted(key) + colsp() + quoted(s)
}

/// One rendered tab object.
pub open spec fn render_tab(t: TabModel) -> Seq<char> {
    seq!['{'] + tab_member("name"@, t.name) + seq![','] + tab_member("icon"@, t.icon) + nl4()
        + seq!['}']
}

/// The rendered elements of a non-empty tab list, separated by commas.
pub open spec fn render_tabs_items(tabs: Seq<TabModel>) -> Seq<char>
    decreases tabs.len(),
{
    if tabs.len() == 0 {
        Seq::empty()
    } else if tabs.len() == 1 {
        nl4() + render_tab(tabs[0])
    } else {
        nl4() + render_tab(tabs[0]) + seq![','] + render_tabs_items(tabs.drop_first())
    }
}

/// The rendered tab array.
pub open spec fn render_tabs(tabs: Seq<TabModel>) -> Seq<char> {
    if tabs.len() == 0 {
        seq!['[', ']']
    } else {
        seq!['['] + render_tabs_items(tabs) + nl2() + seq![']']
    }
}

/// One `"key": value` member of the settings object.
pub open spec fn top_member(key: Seq<char>, v: Seq<char>) -> Seq<char> {
    nl2() + quoted(key) + colsp() + v
}

/// The whole rendered settings document.
pub open spec fn render_settings_model(m: SettingsModel) -> Seq<char> {
    seq!['{'] + top_member("theme"@, quoted(m.theme)) + seq![','] + top_member(
        "download_path"@,
        quoted(m.download_path),
    ) + seq![','] + top_member("current_tab"@, render_int(m.current_tab)) + seq![','] + top_member(
        "notification_settings"@,
        render_notif(m.notification_settings),
    ) + seq![','] + top_member("tabs"@, render_tabs(m.tabs)) + seq!['\n', '}']
}

// ---------------------------------------------------------------------------
// Skipping unknown members
// ---------------------------------------------------------------------------
// A member under a key this format does not know is read and discarded, as
// long as it is well-formed JSON; the known members around it still load.
// `depth` bounds the nesting and `count` the members or elements of one
// container; both are given the document's length at the top, which no
// well-formed document can exceed, and exist only to bound the recursion.

/// Skips one JSON value of any shape, returning the position after it.
pub open spec fn sp_skip_value(doc: Seq<char>, i: int, depth: nat) -> Option<int>
    decreases depth, doc.len(), 1int,
{
    let i1 = sp_ws(doc, i);
    if i1 >= doc.len() {
        None
    } else if doc[i1] == '"' {
        match sp_string(doc, i1) {
            Some((s, j)) => Some(j),
            None => None,
        }
    } else if doc[i1] == 't' || doc[i1] == 'f' {
        match sp_bool(doc, i1) {
            Some((b, j)) => Some(j),
            None => None,
        }
    } else if doc[i1] == '-' || is_digit(doc[i1]) {
        sp_skip_number(doc, i1)
    } else if doc[i1] == 'n' {
        if i1 + 4 <= doc.len() && doc[i1 + 1] == 'u' && doc[i1 + 2] == 'l' && doc[i1 + 3] == 'l' {
            Some(i1 + 4)
        } else {
            None
        }
    } else if doc[i1] == '{' {
        if depth == 0 {
            None
        } else {
            let i2 = sp_ws(doc, i1 + 1);
            if i2 < doc.len() && doc[i2] == '}' {
                Some(i2 + 1)
            } else {
                sp_skip_obj_tail(doc, i1 + 1, depth, 0)
            }
        }
    } else if doc[i1] == '[' {
        if depth == 0 {
            None
        } else {
            let i2 = sp_ws(doc, i1 + 1);
            if i2 < doc.len() && doc[i2] == ']' {
                Some(i2 + 1)
            } else {
                sp_skip_arr_tail(doc, i1 + 1, depth, 0)
            }
        }
    } else {
        None
    }
}

/// Skips a JSON number: sign, digits, optional fraction and exponent.
pub open spec fn sp_skip_number(doc: Seq<char>, i: int) -> Option<int> {
    let istart = if 0 <= i < doc.len() && doc[i] == '-' {
        i + 1
    } else {
        i
    };
    match sp_digits(doc, istart) {
        None => None,
        Some((s1, j1)) => {
            let frac = if j1 < doc.len() && doc[j1] == '.' {
                match sp_digits(doc, j1 + 1) {
                    Some((s2, j2)) => Some(j2),
                    None => None,
                }
            } else {
                Some(j1)
            };
            match frac {
                None => None,
                Some(j2) => {
                    if j2 < doc.len() && (doc[j2] == 'e' || doc[j2] == 'E') {
                        let j3 = if j2 + 1 < doc.len() && (doc[j2 + 1] == '+' || doc[j2 + 1]
                            == '-') {
                            j2 + 2
                        } else {
                            j2 + 1
                        };
                        match sp_digits(doc, j3) {
                            Some((s3, j4)) => Some(j4),
                            None => None,
                        }
                    } else {
                        Some(j2)
                    }
                },
            }
        },
    }
}

/// Skips the members of an object being discarded, after its opening brace.
pub open spec fn sp_skip_obj_tail(doc: Seq<char>, i: int, depth: nat, count: nat) -> Option<int>
    decreases depth, doc.len() - count, 0int,
{
    if depth == 0 || count >= doc.len() {
        None
    } else {
        let i1 = sp_ws(doc, i);
        match sp_string(doc, i1) {
            None => None,
            Some((key, j)) => {
                let j1 = sp_ws(doc, j);
                if !(j1 < doc.len() && doc[j1] == ':') {
                    None
                } else {
                    match sp_skip_value(doc, j1 + 1, (depth - 1) as nat) {
                        None => None,
                        Some(j2) => {
                            let j3 = sp_ws(doc, j2);
                            if j3 < doc.len() && doc[j3] == '}' {
                                Some(j3 + 1)
                            } else if j3 < doc.len() && doc[j3] == ',' {
                                sp_skip_obj_tail(doc, j3 + 1, depth, count + 1)
                            } else {
                                None
                            }
                        },
                    }
                }
            },
        }
    }
}

/// Skips the elements of an array being discarded, after its opening
/// bracket.
pub open spec fn sp_skip_arr_tail(doc: Seq<char>, i: int, depth: nat, count: nat) -> Option<int>
    decreases depth, doc.len() - count, 0int,
{
    if depth == 0 || count >= doc.len() {
        None
    } else {
        match sp_skip_value(doc, i, (depth - 1) as nat) {
            None => None,
            Some(j) => {
                let j1 = sp_ws(doc, j);
                if j1 < doc.len() && doc[j1] == ']' {
                    Some(j1 + 1)
                } else if j1 < doc.len() && doc[j1] == ',' {
                    sp_skip_arr_tail(doc, j1 + 1, depth, count + 1)
                } else {
                    None
                }
            },
        }
    }
}

// ---------------------------------------------------------------------------
// Parsing the notification-settings object
// ---------------------------------------------------------------------------

/// Which members of the notification object have been read so far, and how
/// many unknown members were skipped. A member that never occurs falls back
/// to its default.
#[derive(Clone, Copy)]
pub struct NotifAcc {
    pub enabled: Option<bool>,
    pub show_message_notifications: Option<bool>,
    pub show_call_notifications: Option<bool>,
    pub sound_enabled: Option<bool>,
    pub show_sender: Option<bool>,
    pub skipped: usize,
}

pub open spec fn notif_acc_empty() -> NotifAcc {
    NotifAcc {
        enabled: None,
        show_message_notifications: None,
        show_call_notifications: None,
        sound_enabled: None,
        show_sender: None,
        skipped: 0,
    }
}

/// Whether another unknown member may still be skipped; the bound exists
/// only to keep the member recursion well-founded.
pub open spec fn may_skip(skipped: usize, doc: Seq<char>) -> bool {
    skipped < usize::MAX && (skipped as int) < doc.len()
}

pub open spec fn notif_unset(f: NotifAcc) -> nat {
    (if f.enabled is None {
        1nat
    } else {
        0nat
    }) + (if f.show_message_notifications is None {
        1nat
    } else {
        0nat
    }) + (if f.show_call_notifications is None {
        1nat
    } else {
        0nat
    }) + (if f.sound_enabled is None {
        1nat
    } else {
        0nat
    }) + (if f.show_sender is None {
        1nat
    } else {
        0nat
    })
}

pub open spec fn opt_bool_or(o: Option<bool>, d: bool) -> bool {
    match o {
        Some(b) => b,
        None => d,
    }
}

/// Members never read take the default configuration's value.
pub open spec fn notif_finish(f: NotifAcc) -> NotificationSettings {
    NotificationSettings {
        enabled: opt_bool_or(f.enabled, true),
        show_message_notifications: opt_bool_or(f.show_message_notifications, true),
        show_call_notifications: opt_bool_or(f.show_call_notifications, true),
        sound_enabled: opt_bool_or(f.sound_enabled, true),
        show_sender: opt_bool_or(f.show_sender, true),
    }
}

/// One `"key": value` member of the notification object, then the rest of
/// the object. A key may occur at most once; an unknown key's member is
/// skipped whole.
pub open spec fn sp_notif_members(doc: Seq<char>, i: int, f: NotifAcc) -> Option<(NotifAcc, int)>
    decreases notif_unset(f), doc.len() - f.skipped, 0int,
{
    let i1 = sp_ws(doc, i);
    match sp_string(doc, i1) {
        None => None,
        Some((key, j)) => {
            let j1 = sp_ws(doc, j);
            if !(j1 < doc.len() && doc[j1] == ':') {
                None
            } else {
                let j2 = sp_ws(doc, j1 + 1);
                if key == "enabled"@ {
                    if f.enabled is Some {
                        None
                    } else {
                        match sp_bool(doc, j2) {
                            Some((b, j3)) => sp_notif_after(
                                doc,
                                j3,
                                NotifAcc { enabled: Some(b), ..f },
                            ),
                            None => None,
                        }
                    }
                } else if key == "show_message_notifications"@ {
                    if f.show_message_notifications is Some {
                        None
                    } else {
                        match sp_bool(doc, j2) {
                            Some((b, j3)) => sp_notif_after(
                                doc,
                                j3,
                                NotifAcc { show_message_notifications: Some(b), ..f },
                            ),
                            None => None,
                        }
                    }
                } else if key == "show_call_notifications"@ {
                    if f.show_call_notifications is Some {
                        None
                    } else {
                        match sp_bool(doc, j2) {
                            Some((b, j3)) => sp_notif_after(
                                doc,
                                j3,
                                NotifAcc { show_call_notifications: Some(b), ..f },
                            ),
                            None => None,
                        }
                    }
                } else if key == "sound_enabled"@ {
                    if f.sound_enabled is Some {
                        None
                    } else {
                        match sp_bool(doc, j2) {
                            Some((b, j3)) => sp_notif_after(
                                doc,
                                j3,
                                NotifAcc { sound_enabled: Some(b), ..f },
                            ),
                            None => None,
                        }
                    }
                } else if key == "show_sender"@ {
                    if f.show_sender is Some {
                        None
                    } else {
                        match sp_bool(doc, j2) {
                            Some((b, j3)) => sp_notif_after(
                                doc,
                                j3,
                                NotifAcc { show_sender: Some(b), ..f },
                            ),
                            None => None,
                        }
                    }
                } else {
                    if !may_skip(f.skipped, doc) {
                        None
                    } else {
                        match sp_skip_value(doc, j2, doc.len()) {
                            Some(j3) => sp_notif_after(
                                doc,
                                j3,
                                NotifAcc { skipped: (f.skipped + 1) as usize, ..f },
                            ),
                            None => None,
                        }
                    }
                }
            }
        },
    }
}

/// After a member: a comma and another member, or the closing brace.
pub open spec fn sp_notif_after(doc: Seq<char>, i: int, f: NotifAcc) -> Option<(NotifAcc, int)>
    decreases notif_unset(f), doc.len() - f.skipped, 1int,
{
    let i1 = sp_ws(doc, i);
    if i1 < doc.len() && doc[i1] == '}' {
        Some((f, i1 + 1))
    } else if i1 < doc.len() && doc[i1] == ',' {
        sp_notif_members(doc, i1 + 1, f)
    } else {
        None
    }
}

/// The notification-settings object.
pub open spec fn sp_notif_obj(doc: Seq<char>, i: int) -> Option<(NotificationSettings, int)> {
    if 0 <= i < doc.len() && doc[i] == '{' {
        let i1 = sp_ws(doc, i + 1);
        if i1 < doc.len() && doc[i1] == '}' {
            Some((notif_finish(notif_acc_empty()), i1 + 1))
        } else {
            match sp_notif_members(doc, i + 1, notif_acc_empty()) {
                Some((f, j)) => Some((notif_finish(f), j)),
                None => None,
            }
        }
    } else {
        None
    }
}

// ---------------------------------------------------------------------------
// Parsing tab objects and the tab array
// ---------------------------------------------------------------------------

/// Which members of one tab object have been read so far, and how many
/// unknown members were skipped.
pub struct TabAcc {
    pub name: Option<Seq<char>>,
    pub icon: Option<Seq<char>>,
    pub skipped: usize,
}

pub open spec fn tab_unset(f: TabAcc) -> nat {
    (if f.name is None {
        1nat
    } else {
        0nat
    }) + (if f.icon is None {
        1nat
    } else {
        0nat
    })
}

pub open spec fn opt_chars_or(o: Option<Seq<char>>, d: Seq<char>) -> Seq<char> {
    match o {
        Some(s) => s,
        None => d,
    }
}

pub open spec fn tab_finish(f: TabAcc) -> TabModel {
    TabModel { name: opt_chars_or(f.name, Seq::empty()), icon: opt_chars_or(f.icon, Seq::empty()) }
}

pub open spec fn sp_tab_members(doc: Seq<char>, i: int, f: TabAcc) -> Option<(TabAcc, int)>
    decreases tab_unset(f), doc.len() - f.skipped, 0int,
{
    let i1 = sp_ws(doc, i);
    match sp_string(doc, i1) {
        None => None,
        Some((key, j)) => {
            let j1 = sp_ws(doc, j);
            if !(j1 < doc.len() && doc[j1] == ':') {
                None
            } else {
                let j2 = sp_ws(doc, j1 + 1);
                if key == "name"@ {
                    if f.name is Some {
                        None
                    } else {
                        match sp_string(doc, j2) {
                            Some((s, j3)) => sp_tab_after(doc, j3, TabAcc { name: Some(s), ..f }),
                            None => None,
                        }
                    }
                } else if key == "icon"@ {
                    if f.icon is Some {
                        None
                    } else {
                        match sp_string(doc, j2) {
                            Some((s, j3)) => sp_tab_after(doc, j3, TabAcc { icon: Some(s), ..f }),
                            None => None,
                        }
                    }
                } else {
                    if !may_skip(f.skipped, doc) {
                        None
                    } else {
                        match sp_skip_value(doc, j2, doc.len()) {
                            Some(j3) => sp_tab_after(
                                doc,
                                j3,
                                TabAcc { skipped: (f.skipped + 1) as usize, ..f },
                            ),
                            None => None,
                        }
                    }
                }
            }
        },
    }
}

pub open spec fn sp_tab_after(doc: Seq<char>, i: int, f: TabAcc) -> Option<(TabAcc, int)>
    decreases tab_unset(f), doc.len() - f.skipped, 1int,
{
    let i1 = sp_ws(doc, i);
    if i1 < doc.len() && doc[i1] == '}' {
        Some((f, i1 + 1))
    } else if i1 < doc.len() && doc[i1] == ',' {
        sp_tab_members(doc, i1 + 1, f)
    } else {
        None
    }
}

pub open spec fn sp_tab_obj(doc: Seq<char>, i: int) -> Option<(TabModel, int)> {
    if 0 <= i < doc.len() && doc[i] == '{' {
        let i1 = sp_ws(doc, i + 1);
        if i1 < doc.len() && doc[i1] == '}' {
            Some((tab_finish(TabAcc { name: None, icon: None, skipped: 0 }), i1 + 1))
        } else {
            match sp_tab_members(doc, i + 1, TabAcc { name: None, icon: None, skipped: 0 }) {
                Some((f, j)) => Some((tab_finish(f), j)),
                None => None,
            }
        }
    } else {
        None
    }
}

/// One or more tab objects separated by commas, up to the closing bracket.
/// `fuel` only bounds the recursion; any value at least the number of
/// elements behaves the same.
pub open spec fn sp_tabs_items(doc: Seq<char>, i: int, fuel: nat) -> Option<(Seq<TabModel>, int)>
    decreases fuel,
{
    if fuel == 0 {
        None
    } else {
        let i1 = sp_ws(doc, i);
        match sp_tab_obj(doc, i1) {
            None => None,
            Some((t, j)) => {
                let j1 = sp_ws(doc, j);
                if j1 < doc.len() && doc[j1] == ']' {
                    Some((seq![t], j1 + 1))
                } else if j1 < doc.len() && doc[j1] == ',' {
                    match sp_tabs_items(doc, j1 + 1, (fuel - 1) as nat) {
                        Some((ts, k)) => Some((seq![t] + ts, k)),
                        None => None,
                    }
                } else {
                    None
                }
            },
        }
    }
}

/// The tab array.
pub open spec fn sp_tabs_arr(doc: Seq<char>, i: int) -> Option<(Seq<TabModel>, int)> {
    if 0 <= i < doc.len() && doc[i] == '[' {
        let i1 = sp_ws(doc, i + 1);
        if i1 < doc.len() && doc[i1] == ']' {
            Some((Seq::empty(), i1 + 1))
        } else {
            sp_tabs_items(doc, i + 1, doc.len())
        }
    } else {
        None
    }
}

// ---------------------------------------------------------------------------
// Parsing the settings object
// ---------------------------------------------------------------------------

/// Which members of the settings object have been read so far, and how many
/// unknown members were skipped.
pub struct FieldsAcc {
    pub theme: Option<Seq<char>>,
    pub download_path: Option<Seq<char>>,
    pub current_tab: Option<int>,
    pub notification_settings: Option<NotificationSettings>,
    pub tabs: Option<Seq<TabModel>>,
    pub skipped: usize,
}

pub open spec fn fields_acc_empty() -> FieldsAcc {
    FieldsAcc {
        theme: None,
        download_path: None,
        current_tab: None,
        notification_settings: None,
        tabs: None,
        skipped: 0,
    }
}

pub open spec fn fields_unset(f: FieldsAcc) -> nat {
    (if f.theme is None {
        1nat
    } else {
        0nat
    }) + (if f.download_path is None {
        1nat
    } else {
        0nat
    }) + (if f.current_tab is None {
        1nat
    } else {
        0nat
    }) + (if f.notification_settings is None {
        1nat
    } else {
        0nat
    }) + (if f.tabs is None {
        1nat
    } else {
        0nat
    })
}

/// Members never read take the default snapshot's value.
pub open spec fn fields_finish(f: FieldsAcc) -> SettingsModel {
    SettingsModel {
        theme: opt_chars_or(f.theme, Seq::empty()),
        download_path: opt_chars_or(f.download_path, Seq::empty()),
        current_tab: match f.current_tab {
            Some(n) => n,
            None => 0,
        },
        notification_settings: match f.notification_settings {
            Some(n) => n,
            None => NotificationSettings::spec_default(),
        },
        tabs: match f.tabs {
            Some(t) => t,
            None => Seq::empty(),
        },
    }
}

pub open spec fn sp_members(doc: Seq<char>, i: int, f: FieldsAcc) -> Option<(FieldsAcc, int)>
    decreases fields_unset(f), doc.len() - f.skipped, 0int,
{
    let i1 = sp_ws(doc, i);
    match sp_string(doc, i1) {
        None => None,
        Some((key, j)) => {
            let j1 = sp_ws(doc, j);
            if !(j1 < doc.len() && doc[j1] == ':') {
                None
            } else {
                let j2 = sp_ws(doc, j1 + 1);
                if key == "theme"@ {
                    if f.theme is Some {
                        None
                    } else {
                        match sp_string(doc, j2) {
                            Some((s, j3)) => sp_after(doc, j3, FieldsAcc { theme: Some(s), ..f }),
                            None => None,
                        }
                    }
                } else if key == "download_path"@ {
                    if f.download_path is Some {
                        None
                    } else {
                        match sp_string(doc, j2) {
                            Some((s, j3)) => sp_after(
                                doc,
                                j3,
                                FieldsAcc { download_path: Some(s), ..f },
                            ),
                            None => None,
                        }
                    }
                } else if key == "current_tab"@ {
                    if f.current_tab is Some {
                        None
                    } else {
                        match sp_int(doc, j2) {
                            Some((n, j3)) => sp_after(
                                doc,
                                j3,
                                FieldsAcc { current_tab: Some(n), ..f },
                            ),
                            None => None,
                        }
                    }
                } else if key == "notification_settings"@ {
                    if f.notification_settings is Some {
                        None
                    } else {
                        match sp_notif_obj(doc, j2) {
                            Some((n, j3)) => sp_after(
                                doc,
                                j3,
                                FieldsAcc { notification_settings: Some(n), ..f },
                            ),
                            None => None,
                        }
                    }
                } else if key == "tabs"@ {
                    if f.tabs is Some {
                        None
                    } else {
                        match sp_tabs_arr(doc, j2) {
                            Some((t, j3)) => sp_after(doc, j3, FieldsAcc { tabs: Some(t), ..f }),
                            None => None,
                        }
                    }
                } else {
                    if !may_skip(f.skipped, doc) {
                        None
                    } else {
                        match sp_skip_value(doc, j2, doc.len()) {
                            Some(j3) => sp_after(
                                doc,
                                j3,
                                FieldsAcc { skipped: (f.skipped + 1) as usize, ..f },
                            ),
                            None => None,
                        }
                    }
                }
            }
        },
    }
}

pub open spec fn sp_after(doc: Seq<char>, i: int, f: FieldsAcc) -> Option<(FieldsAcc, int)>
    decreases fields_unset(f), doc.len() - f.skipped, 1int,
{
    let i1 = sp_ws(doc, i);
    if i1 < doc.len() && doc[i1] == '}' {
        Some((f, i1 + 1))
    } else if i1 < doc.len() && doc[i1] == ',' {
        sp_members(doc, i1 + 1, f)
    } else {
        None
    }
}

pub open spec fn sp_settings_obj(doc: Seq<char>, i: int) -> Option<(SettingsModel, int)> {
    if 0 <= i < doc.len() && doc[i] == '{' {
        let i1 = sp_ws(doc, i + 1);
        if i1 < doc.len() && doc[i1] == '}' {
            Some((fields_finish(fields_acc_empty()), i1 + 1))
        } else {
            match sp_members(doc, i + 1, fields_acc_empty()) {
                Some((f, j)) => Some((fields_finish(f), j)),
                None => None,
            }
        }
    } else {
        None
    }
}

/// The whole document: one settings object and nothing but whitespace
/// around it.
pub open spec fn sp_settings_doc(doc: Seq<char>) -> Option<SettingsModel> {
    let i0 = sp_ws(doc, 0);
    match sp_settings_obj(doc, i0) {
        Some((m, j)) => {
            if sp_ws(doc, j) == doc.len() {
                Some(m)
            } else {
                None
            }
        },
        None => None,
    }
}

// ---------------------------------------------------------------------------
// The executable parser
// ---------------------------------------------------------------------------

/// Character-for-character comparison of a parsed buffer with a key.
fn chars_eq_str(v: &Vec<char>, s: &str) -> (r: bool)
    ensures
        r == (v@ == s@),
{
    let n = s.unicode_len();
    if v.len() != n {
        assert(v@.len() != s@.len());
        return false;
    }
    let mut i: usize = 0;
    while i < n
        invariant
            n == s@.len(),
            v@.len() == n,
            i <= n,
            forall|k: int| 0 <= k < i ==> v@[k] == s@[k],
        decreases n - i,
    {
        if v[i] != s.get_char(i) {
            assert(v@[i as int] != s@[i as int]);
            return false;
        }
        i = i + 1;
    }
    assert(v@ =~= s@);
    true
}

fn e_skip_value(doc: &Vec<char>, i: usize, depth: usize) -> (r: Option<usize>)
    requires
        i <= doc@.len(),
    ensures
        match sp_skip_value(doc@, i as int, depth as nat) {
            Some(j) => r matches Some(e) && e == j && e <= doc@.len(),
            None => r is None,
        },
    decreases depth, doc@.len(), 1int,
{
    let i1 = e_skip_ws(doc, i);
    if i1 >= doc.len() {
        return None;
    }
    let c = doc[i1];
    if c == '"' {
        match e_string(doc, i1) {
            Some((v, j)) => Some(j),
            None => None,
        }
    } else if c == 't' || c == 'f' {
        match e_bool(doc, i1) {
            Some((b, j)) => Some(j),
            None => None,
        }
    } else if c == '-' || digit_char(c) {
        e_skip_number(doc, i1)
    } else if c == 'n' {
        if doc.len() - i1 >= 4 && doc[i1 + 1] == 'u' && doc[i1 + 2] == 'l' && doc[i1 + 3] == 'l' {
            Some(i1 + 4)
        } else {
            None
        }
    } else if c == '{' {
        if depth == 0 {
            None
        } else {
            let i2 = e_skip_ws(doc, i1 + 1);
            if i2 < doc.len() && doc[i2] == '}' {
                Some(i2 + 1)
            } else {
                e_skip_obj_tail(doc, i1 + 1, depth, 0)
            }
        }
    } else if c == '[' {
        if depth == 0 {
            None
        } else {
            let i2 = e_skip_ws(doc, i1 + 1);
            if i2 < doc.len() && doc[i2] == ']' {
                Some(i2 + 1)
            } else {
                e_skip_arr_tail(doc, i1 + 1, depth, 0)
            }
        }
    } else {
        None
    }
}

fn e_skip_number(doc: &Vec<char>, i: usize) -> (r: Option<usize>)
    ensures
        match sp_skip_number(doc@, i as int) {
            Some(j) => r matches Some(e) && e == j && e <= doc@.len(),
            None => r is None,
        },
{
    let istart = if i < doc.len() && doc[i] == '-' {
        i + 1
    } else {
        i
    };
    match e_digit_run(doc, istart) {
        None => None,
        Some(j1) => {
            let j2opt = if j1 < doc.len() && doc[j1] == '.' {
                match e_digit_run(doc, j1 + 1) {
                    Some(j2) => Some(j2),
                    None => None,
                }
            } else {
                Some(j1)
            };
            match j2opt {
                None => None,
                Some(j2) => {
                    if j2 < doc.len() && (doc[j2] == 'e' || doc[j2] == 'E') {
                        let j3 = if j2 + 1 < doc.len() && (doc[j2 + 1] == '+' || doc[j2 + 1]
                            == '-') {
                            j2 + 2
                        } else {
                            j2 + 1
                        };
                        match e_digit_run(doc, j3) {
                            Some(j4) => Some(j4),
                            None => None,
                        }
                    } else {
                        Some(j2)
                    }
                },
            }
        },
    }
}

fn e_skip_obj_tail(doc: &Vec<char>, i: usize, depth: usize, count: usize) -> (r: Option<usize>)
    requires
        i <= doc@.len(),
    ensures
        match sp_skip_obj_tail(doc@, i as int, depth as nat, count as nat) {
            Some(j) => r matches Some(e) && e == j && e <= doc@.len(),
            None => r is None,
        },
    decreases depth, doc@.len() - count, 0int,
{
    if depth == 0 || count >= doc.len() {
        return None;
    }
    let i1 = e_skip_ws(doc, i);
    match e_string(doc, i1) {
        None => None,
        Some((key, j)) => {
            let j1 = e_skip_ws(doc, j);
            if !(j1 < doc.len() && doc[j1] == ':') {
                None
            } else {
                match e_skip_value(doc, j1 + 1, depth - 1) {
                    None => None,
                    Some(j2) => {
                        let j3 = e_skip_ws(doc, j2);
                        if j3 < doc.len() && doc[j3] == '}' {
                            Some(j3 + 1)
                        } else if j3 < doc.len() && doc[j3] == ',' {
                            e_skip_obj_tail(doc, j3 + 1, depth, count + 1)
                        } else {
                            None
                        }
                    },
                }
            }
        },
    }
}

fn e_skip_arr_tail(doc: &Vec<char>, i: usize, depth: usize, count: usize) -> (r: Option<usize>)
    requires
        i <= doc@.len(),
    ensures
        match sp_skip_arr_tail(doc@, i as int, depth as nat, count as nat) {
            Some(j) => r matches Some(e) && e == j && e <= doc@.len(),
            None => r is None,
        },
    decreases depth, doc@.len() - count, 0int,
{
    if depth == 0 || count >= doc.len() {
        return None;
    }
    match e_skip_value(doc, i, depth - 1) {
        None => None,
        Some(j) => {
            let j1 = e_skip_ws(doc, j);
            if j1 < doc.len() && doc[j1] == ']' {
                Some(j1 + 1)
            } else if j1 < doc.len() && doc[j1] == ',' {
                e_skip_arr_tail(doc, j1 + 1, depth, count + 1)
            } else {
                None
            }
        },
    }
}

fn e_notif_members(doc: &Vec<char>, i: usize, f: NotifAcc) -> (r: Option<(NotifAcc, usize)>)
    requires
        i <= doc@.len(),
    ensures
        match sp_notif_members(doc@, i as int, f) {
            Some((f2, j)) => r matches Some(p) && p.0 == f2 && p.1 == j && j <= doc@.len(),
            None => r is None,
        },
    decreases notif_unset(f), doc@.len() - f.skipped, 0int,
{
    let i1 = e_skip_ws(doc, i);
    match e_string(doc, i1) {
        None => None,
        Some((key, j)) => {
            let j1 = e_skip_ws(doc, j);
            if !(j1 < doc.len() && doc[j1] == ':') {
                None
            } else {
                let j2 = e_skip_ws(doc, j1 + 1);
                if chars_eq_str(&key, "enabled") {
                    if f.enabled.is_some() {
                        None
                    } else {
                        match e_bool(doc, j2) {
                            Some((b, j3)) => e_notif_after(
                                doc,
                                j3,
                                NotifAcc { enabled: Some(b), ..f },
                            ),
                            None => None,
                        }
                    }
                } else if chars_eq_str(&key, "show_message_notifications") {
                    if f.show_message_notifications.is_some() {
                        None
                    } else {
                        match e_bool(doc, j2) {
                            Some((b, j3)) => e_notif_after(
                                doc,
                                j3,
                                NotifAcc { show_message_notifications: Some(b), ..f },
                            ),
                            None => None,
                        }
                    }
                } else if chars_eq_str(&key, "show_call_notifications") {
                    if f.show_call_notifications.is_some() {
                        None
                    } else {
                        match e_bool(doc, j2) {
                            Some((b, j3)) => e_notif_after(
                                doc,
                                j3,
                                NotifAcc { show_call_notifications: Some(b), ..f },
                            ),
                            None => None,
                        }
                    }
                } else if chars_eq_str(&key, "sound_enabled") {
                    if f.sound_enabled.is_some() {
                        None
                    } else {
                        match e_bool(doc, j2) {
                            Some((b, j3)) => e_notif_after(
                                doc,
                                j3,
                                NotifAcc { sound_enabled: Some(b), ..f },
                            ),
                            None => None,
                        }
                    }
                } else if chars_eq_str(&key, "show_sender") {
                    if f.show_sender.is_some() {
                        None
                    } else {
                        match e_bool(doc, j2) {
                            Some((b, j3)) => e_notif_after(
                                doc,
                                j3,
                                NotifAcc { show_sender: Some(b), ..f },
                            ),
                            None => None,
                        }
                    }
                } else {
                    if !(f.skipped < usize::MAX && f.skipped < doc.len()) {
                        None
                    } else {
                        match e_skip_value(doc, j2, doc.len()) {
                            Some(j3) => e_notif_after(
                                doc,
                                j3,
                                NotifAcc { skipped: f.skipped + 1, ..f },
                            ),
                            None => None,
                        }
                    }
                }
            }
        },
    }
}

fn e_notif_after(doc: &Vec<char>, i: usize, f: NotifAcc) -> (r: Option<(NotifAcc, usize)>)
    requires
        i <= doc@.len(),
    ensures
        match sp_notif_after(doc@, i as int, f) {
            Some((f2, j)) => r matches Some(p) && p.0 == f2 && p.1 == j && j <= doc@.len(),
            None => r is None,
        },
    decreases notif_unset(f), doc@.len() - f.skipped, 1int,
{
    let i1 = e_skip_ws(doc, i);
    if i1 < doc.len() && doc[i1] == '}' {
        Some((f, i1 + 1))
    } else if i1 < doc.len() && doc[i1] == ',' {
        e_notif_members(doc, i1 + 1, f)
    } else {
        None
    }
}

fn e_notif_obj(doc: &Vec<char>, i: usize) -> (r: Option<(NotificationSettings, usize)>)
    ensures
        match sp_notif_obj(doc@, i as int) {
            Some((n, j)) => r matches Some(p) && p.0 == n && p.1 == j && j <= doc@.len(),
            None => r is None,
        },
{
    if i < doc.len() && doc[i] == '{' {
        let i1 = e_skip_ws(doc, i + 1);
        if i1 < doc.len() && doc[i1] == '}' {
            Some((NotificationSettings::default(), i1 + 1))
        } else {
            let empty = NotifAcc {
                enabled: None,
                show_message_notifications: None,
                show_call_notifications: None,
                sound_enabled: None,
                show_sender: None,
                skipped: 0,
            };
            match e_notif_members(doc, i + 1, empty) {
                Some((f, j)) => Some((notif_from_acc(f), j)),
                None => None,
            }
        }
    } else {
        None
    }
}

fn opt_bool_or_exec(o: Option<bool>, d: bool) -> (b: bool)
    ensures
        b == opt_bool_or(o, d),
{
    match o {
        Some(b) => b,
        None => d,
    }
}

fn notif_from_acc(f: NotifAcc) -> (n: NotificationSettings)
    ensures
        n == notif_finish(f),
{
    NotificationSettings {
        enabled: opt_bool_or_exec(f.enabled, true),
        show_message_notifications: opt_bool_or_exec(f.show_message_notifications, true),
        show_call_notifications: opt_bool_or_exec(f.show_call_notifications, true),
        sound_enabled: opt_bool_or_exec(f.sound_enabled, true),
        show_sender: opt_bool_or_exec(f.show_sender, true),
    }
}

pub open spec fn opt_chars_view(o: Option<Vec<char>>) -> Option<Seq<char>> {
    match o {
        Some(v) => Some(v@),
        None => None,
    }
}

fn e_tab_members(
    doc: &Vec<char>,
    i: usize,
    name: Option<Vec<char>>,
    icon: Option<Vec<char>>,
    skipped: usize,
) -> (r: Option<(Option<Vec<char>>, Option<Vec<char>>, usize)>)
    requires
        i <= doc@.len(),
    ensures
        match sp_tab_members(
            doc@,
            i as int,
            TabAcc { name: opt_chars_view(name), icon: opt_chars_view(icon), skipped },
        ) {
            Some((f2, j)) => r matches Some(p) && opt_chars_view(p.0) == f2.name && opt_chars_view(
                p.1,
            ) == f2.icon && p.2 == j && j <= doc@.len(),
            None => r is None,
        },
    decreases
            tab_unset(TabAcc { name: opt_chars_view(name), icon: opt_chars_view(icon), skipped }),
            doc@.len() - skipped,
            0int,
{
    let i1 = e_skip_ws(doc, i);
    match e_string(doc, i1) {
        None => None,
        Some((key, j)) => {
            let j1 = e_skip_ws(doc, j);
            if !(j1 < doc.len() && doc[j1] == ':') {
                None
            } else {
                let j2 = e_skip_ws(doc, j1 + 1);
                if chars_eq_str(&key, "name") {
                    if name.is_some() {
                        None
                    } else {
                        match e_string(doc, j2) {
                            Some((v, j3)) => e_tab_after(doc, j3, Some(v), icon, skipped),
                            None => None,
                        }
                    }
                } else if chars_eq_str(&key, "icon") {
                    if icon.is_some() {
                        None
                    } else {
                        match e_string(doc, j2) {
                            Some((v, j3)) => e_tab_after(doc, j3, name, Some(v), skipped),
                            None => None,
                        }
                    }
                } else {
                    if !(skipped < usize::MAX && skipped < doc.len()) {
                        None
                    } else {
                        match e_skip_value(doc, j2, doc.len()) {
                            Some(j3) => e_tab_after(doc, j3, name, icon, skipped + 1),
                            None => None,
                        }
                    }
                }
            }
        },
    }
}

fn e_tab_after(
    doc: &Vec<char>,
    i: usize,
    name: Option<Vec<char>>,
    icon: Option<Vec<char>>,
    skipped: usize,
) -> (r: Option<(Option<Vec<char>>, Option<Vec<char>>, usize)>)
    requires
        i <= doc@.len(),
    ensures
        match sp_tab_after(
            doc@,
            i as int,
            TabAcc { name: opt_chars_view(name), icon: opt_chars_view(icon), skipped },
        ) {
            Some((f2, j)) => r matches Some(p) && opt_chars_view(p.0) == f2.name && opt_chars_view(
                p.1,
            ) == f2.icon && p.2 == j && j <= doc@.len(),
            None => r is None,
        },
    decreases
            tab_unset(TabAcc { name: opt_chars_view(name), icon: opt_chars_view(icon), skipped }),
            doc@.len() - skipped,
            1int,
{
    let i1 = e_skip_ws(doc, i);
    if i1 < doc.len() && doc[i1] == '}' {
        Some((name, icon, i1 + 1))
    } else if i1 < doc.len() && doc[i1] == ',' {
        e_tab_members(doc, i1 + 1, name, icon, skipped)
    } else {
        None
    }
}

fn opt_chars_to_string(o: Option<Vec<char>>) -> (s: String)
    ensures
        s@ == opt_chars_or(opt_chars_view(o), Seq::empty()),
{
    match o {
        Some(v) => crate::text::chars_to_string(&v),
        None => String::new(),
    }
}

fn e_tab_obj(doc: &Vec<char>, i: usize) -> (r: Option<(TabInfo, usize)>)
    ensures
        match sp_tab_obj(doc@, i as int) {
            Some((t, j)) => r matches Some(p) && p.0@ == t && p.1 == j && j <= doc@.len(),
            None => r is None,
        },
{
    if i < doc.len() && doc[i] == '{' {
        let i1 = e_skip_ws(doc, i + 1);
        if i1 < doc.len() && doc[i1] == '}' {
            let t = TabInfo { name: String::new(), icon: String::new() };
            assert(t@ == tab_finish(TabAcc { name: None, icon: None, skipped: 0 }));
            Some((t, i1 + 1))
        } else {
            match e_tab_members(doc, i + 1, None, None, 0) {
                Some((name, icon, j)) => {
                    let t = TabInfo {
                        name: opt_chars_to_string(name),
                        icon: opt_chars_to_string(icon),
                    };
                    Some((t, j))
                },
                None => None,
            }
        }
    } else {
        None
    }
}

fn e_tabs_items(doc: &Vec<char>, i: usize, fuel: usize) -> (r: Option<(Vec<TabInfo>, usize)>)
    requires
        i <= doc@.len(),
    ensures
        match sp_tabs_items(doc@, i as int, fuel as nat) {
            Some((ts, k)) => r matches Some(p) && tab_views(p.0@) == ts && p.1 == k && k
                <= doc@.len(),
            None => r is None,
        },
    decreases fuel,
{
    if fuel == 0 {
        return None;
    }
    let i1 = e_skip_ws(doc, i);
    match e_tab_obj(doc, i1) {
        None => None,
        Some((t, j)) => {
            let j1 = e_skip_ws(doc, j);
            if j1 < doc.len() && doc[j1] == ']' {
                let mut v: Vec<TabInfo> = Vec::new();
                v.push(t);
                assert(tab_views(v@) =~= seq![t@]);
                Some((v, j1 + 1))
            } else if j1 < doc.len() && doc[j1] == ',' {
                match e_tabs_items(doc, j1 + 1, fuel - 1) {
                    Some((mut ts, k)) => {
                        let ghost prev = ts@;
                        let ghost tm = t@;
                        ts.insert(0, t);
                        proof {
                            assert forall|x: int| 0 <= x < ts@.len() implies tab_views(ts@)[x] == (
                            seq![tm] + tab_views(prev))[x] by {
                                if x == 0 {
                                    assert(ts@[0] == prev.insert(0, ts@[0])[0]);
                                } else {
                                    assert(ts@[x] == prev[x - 1]);
                                }
                            }
                            assert(tab_views(ts@) =~= seq![tm] + tab_views(prev));
                        }
                        Some((ts, k))
                    },
                    None => None,
                }
            } else {
                None
            }
        },
    }
}

fn e_tabs_arr(doc: &Vec<char>, i: usize) -> (r: Option<(Vec<TabInfo>, usize)>)
    ensures
        match sp_tabs_arr(doc@, i as int) {
            Some((ts, k)) => r matches Some(p) && tab_views(p.0@) == ts && p.1 == k && k
                <= doc@.len(),
            None => r is None,
        },
{
    if i < doc.len() && doc[i] == '[' {
        let i1 = e_skip_ws(doc, i + 1);
        if i1 < doc.len() && doc[i1] == ']' {
            let v: Vec<TabInfo> = Vec::new();
            assert(tab_views(v@) =~= Seq::<TabModel>::empty());
            Some((v, i1 + 1))
        } else {
            e_tabs_items(doc, i + 1, doc.len())
        }
    } else {
        None
    }
}

/// Which members of the settings object the executable parser has read.
struct EFields {
    theme: Option<Vec<char>>,
    download_path: Option<Vec<char>>,
    current_tab: Option<i32>,
    notification_settings: Option<NotificationSettings>,
    tabs: Option<Vec<TabInfo>>,
    skipped: usize,
}

spec fn efields_view(f: EFields) -> FieldsAcc {
    FieldsAcc {
        theme: opt_chars_view(f.theme),
        download_path: opt_chars_view(f.download_path),
        current_tab: match f.current_tab {
            Some(n) => Some(n as int),
            None => None,
        },
        notification_settings: f.notification_settings,
        tabs: match f.tabs {
            Some(v) => Some(tab_views(v@)),
            None => None,
        },
        skipped: f.skipped,
    }
}

fn e_members(doc: &Vec<char>, i: usize, f: EFields) -> (r: Option<(EFields, usize)>)
    requires
        i <= doc@.len(),
    ensures
        match sp_members(doc@, i as int, efields_view(f)) {
            Some((f2, j)) => r matches Some(p) && efields_view(p.0) == f2 && p.1 == j && j
                <= doc@.len(),
            None => r is None,
        },
    decreases fields_unset(efields_view(f)), doc@.len() - f.skipped, 0int,
{
    let i1 = e_skip_ws(doc, i);
    match e_string(doc, i1) {
        None => None,
        Some((key, j)) => {
            let j1 = e_skip_ws(doc, j);
            if !(j1 < doc.len() && doc[j1] == ':') {
                None
            } else {
                let j2 = e_skip_ws(doc, j1 + 1);
                if chars_eq_str(&key, "theme") {
                    if f.theme.is_some() {
                        None
                    } else {
                        match e_string(doc, j2) {
                            Some((v, j3)) => e_after(doc, j3, EFields { theme: Some(v), ..f }),
                            None => None,
                        }
                    }
                } else if chars_eq_str(&key, "download_path") {
                    if f.download_path.is_some() {
                        None
                    } else {
                        match e_string(doc, j2) {
                            Some((v, j3)) => e_after(
                                doc,
                                j3,
                                EFields { download_path: Some(v), ..f },
                            ),
                            None => None,
                        }
                    }
                } else if chars_eq_str(&key, "current_tab") {
                    if f.current_tab.is_some() {
                        None
                    } else {
                        match e_int(doc, j2) {
                            Some((n, j3)) => e_after(doc, j3, EFields { current_tab: Some(n), ..f }),
                            None => None,
                        }
                    }
                } else if chars_eq_str(&key, "notification_settings") {
                    if f.notification_settings.is_some() {
                        None
                    } else {
                        match e_notif_obj(doc, j2) {
                            Some((n, j3)) => e_after(
                                doc,
                                j3,
                                EFields { notification_settings: Some(n), ..f },
                            ),
                            None => None,
                        }
                    }
                } else if chars_eq_str(&key, "tabs") {
                    if f.tabs.is_some() {
                        None
                    } else {
                        match e_tabs_arr(doc, j2) {
                            Some((v, j3)) => e_after(doc, j3, EFields { tabs: Some(v), ..f }),
                            None => None,
                        }
                    }
                } else {
                    if !(f.skipped < usize::MAX && f.skipped < doc.len()) {
                        None
                    } else {
                        match e_skip_value(doc, j2, doc.len()) {
                            Some(j3) => e_after(doc, j3, EFields { skipped: f.skipped + 1, ..f }),
                            None => None,
                        }
                    }
                }
            }
        },
    }
}

fn e_after(doc: &Vec<char>, i: usize, f: EFields) -> (r: Option<(EFields, usize)>)
    requires
        i <= doc@.len(),
    ensures
        match sp_after(doc@, i as int, efields_view(f)) {
            Some((f2, j)) => r matches Some(p) && efields_view(p.0) == f2 && p.1 == j && j
                <= doc@.len(),
            None => r is None,
        },
    decreases fields_unset(efields_view(f)), doc@.len() - f.skipped, 1int,
{
    let i1 = e_skip_ws(doc, i);
    if i1 < doc.len() && doc[i1] == '}' {
        Some((f, i1 + 1))
    } else if i1 < doc.len() && doc[i1] == ',' {
        e_members(doc, i1 + 1, f)
    } else {
        None
    }
}

fn e_settings_obj(doc: &Vec<char>, i: usize) -> (r: Option<(AppSettings, usize)>)
    ensures
        match sp_settings_obj(doc@, i as int) {
            Some((m, j)) => r matches Some(p) && p.0@ == m && p.1 == j && j <= doc@.len(),
            None => r is None,
        },
{
    if i < doc.len() && doc[i] == '{' {
        let i1 = e_skip_ws(doc, i + 1);
        if i1 < doc.len() && doc[i1] == '}' {
            let s = AppSettings::default();
            assert(s@ == fields_finish(fields_acc_empty()));
            Some((s, i1 + 1))
        } else {
            let empty = EFields {
                theme: None,
                download_path: None,
                current_tab: None,
                notification_settings: None,
                tabs: None,
                skipped: 0,
            };
            match e_members(doc, i + 1, empty) {
                Some((f, j)) => {
                    let ghost facc = efields_view(f);
                    let EFields {
                        theme,
                        download_path,
                        current_tab,
                        notification_settings,
                        tabs,
                        skipped: _,
                    } = f;
                    let s = AppSettings {
                        theme: opt_chars_to_string(theme),
                        download_path: opt_chars_to_string(download_path),
                        current_tab: match current_tab {
                            Some(n) => n,
                            None => 0,
                        },
                        notification_settings: match notification_settings {
                            Some(n) => n,
                            None => NotificationSettings::default(),
                        },
                        tabs: match tabs {
                            Some(v) => v,
                            None => Vec::new(),
                        },
                    };
                    assert(s@.tabs =~= fields_finish(facc).tabs);
                    assert(s@ == fields_finish(facc));
                    Some((s, j))
                },
                None => None,
            }
        }
    } else {
        None
    }
}

/// Parses one settings document. Anything malformed gives nothing.
pub fn parse_settings(doc: &str) -> (r: Option<AppSettings>)
    ensures
        match sp_settings_doc(doc@) {
            Some(m) => r matches Some(s) && s@ == m,
            None => r is None,
        },
{
    let v = crate::text::str_to_chars(doc);
    let i0 = e_skip_ws(&v, 0);
    match e_settings_obj(&v, i0) {
        Some((s, j)) => {
            let j1 = e_skip_ws(&v, j);
            if j1 == v.len() {
                Some(s)
            } else {
                None
            }
        },
        None => None,
    }
}

// ---------------------------------------------------------------------------
// The executable renderer
// ---------------------------------------------------------------------------

proof fn lemma_escape_push(s: Seq<char>, c: char)
    ensures
        sp_escape(s.push(c)) == sp_escape(s) + esc_char(c),
    decreases s.len(),
{
    if s.len() == 0 {
        let t = s.push(c);
        assert(t.len() == 1 && t[0] == c);
        assert(t.subrange(1, 1) =~= Seq::<char>::empty());
        assert(sp_escape(Seq::<char>::empty()) == Seq::<char>::empty());
        assert(sp_escape(t) == esc_char(t[0]) + sp_escape(t.subrange(1, 1)));
        assert(sp_escape(t) =~= esc_char(c));
        assert(sp_escape(s) + esc_char(c) =~= esc_char(c));
    } else {
        let t = s.push(c);
        let s2 = s.subrange(1, s.len() as int);
        assert(t[0] == s[0]);
        assert(t.subrange(1, t.len() as int) =~= s2.push(c));
        lemma_escape_push(s2, c);
        assert(esc_char(s[0]) + (sp_escape(s2) + esc_char(c)) =~= (esc_char(s[0]) + sp_escape(s2))
            + esc_char(c));
    }
}

/// Appends a JSON string literal holding `s`, escaping quote and backslash.
#[verifier::loop_isolation(false)]
fn push_quoted(out: &mut Vec<char>, s: &str)
    ensures
        final(out)@ == old(out)@ + quoted(s@),
{
    let n = s.unicode_len();
    out.push('"');
    assert(sp_escape(s@.subrange(0, 0)) =~= Seq::<char>::empty());
    assert(out@ =~= old(out)@ + seq!['"'] + sp_escape(s@.subrange(0, 0)));
    let mut i: usize = 0;
    while i < n
        invariant
            i <= n,
            out@ == old(out)@ + seq!['"'] + sp_escape(s@.subrange(0, i as int)),
        decreases n - i,
    {
        let c = s.get_char(i);
        proof {
            lemma_escape_push(s@.subrange(0, i as int), c);
            assert(s@.subrange(0, i as int).push(c) =~= s@.subrange(0, i + 1 as int));
        }
        if c == '"' || c == '\\' {
            out.push('\\');
            out.push(c);
        } else if c == '\n' {
            out.push('\\');
            out.push('n');
        } else if c == '\r' {
            out.push('\\');
            out.push('r');
        } else if c == '\t' {
            out.push('\\');
            out.push('t');
        } else {
            out.push(c);
        }
        assert(out@ =~= old(out)@ + seq!['"'] + sp_escape(s@.subrange(0, i + 1 as int)));
        i = i + 1;
    }
    out.push('"');
    assert(s@.subrange(0, n as int) =~= s@);
    assert(out@ =~= old(out)@ + quoted(s@));
}

fn push_bool(out: &mut Vec<char>, b: bool)
    ensures
        final(out)@ == old(out)@ + render_bool(b),
{
    if b {
        out.push('t');
        out.push('r');
        out.push('u');
        out.push('e');
    } else {
        out.push('f');
        out.push('a');
        out.push('l');
        out.push('s');
        out.push('e');
    }
    assert(out@ =~= old(out)@ + render_bool(b));
}

fn push_nl2(out: &mut Vec<char>)
    ensures
        final(out)@ == old(out)@ + nl2(),
{
    out.push('\n');
    out.push(' ');
    out.push(' ');
    assert(out@ =~= old(out)@ + nl2());
}

fn push_nl4(out: &mut Vec<char>)
    ensures
        final(out)@ == old(out)@ + nl4(),
{
    out.push('\n');
    out.push(' ');
    out.push(' ');
    out.push(' ');
    out.push(' ');
    assert(out@ =~= old(out)@ + nl4());
}

fn push_nl6(out: &mut Vec<char>)
    ensures
        final(out)@ == old(out)@ + nl6(),
{
    out.push('\n');
    out.push(' ');
    out.push(' ');
    out.push(' ');
    out.push(' ');
    out.push(' ');
    out.push(' ');
    assert(out@ =~= old(out)@ + nl6());
}

fn push_colsp(out: &mut Vec<char>)
    ensures
        final(out)@ == old(out)@ + colsp(),
{
    out.push(':');
    out.push(' ');
    assert(out@ =~= old(out)@ + colsp());
}

/// Appends one boolean member of the notification object.
fn push_bool_member(out: &mut Vec<char>, key: &str, b: bool)
    ensures
        final(out)@ == old(out)@ + bool_member(key@, b),
{
    push_nl4(out);
    push_quoted(out, key);
    push_colsp(out);
    push_bool(out, b);
    assert(out@ =~= old(out)@ + bool_member(key@, b));
}

#[verifier::rlimit(100)]
fn push_notif(out: &mut Vec<char>, n: &NotificationSettings)
    ensures
        final(out)@ == old(out)@ + render_notif(*n),
{
    let ghost base = out@;
    out.push('{');
    let ghost mut acc: Seq<char> = seq!['{'];
    assert(out@ =~= base + acc);
    push_bool_member(out, "enabled", n.enabled);
    proof {
        assert(out@ =~= base + (acc + bool_member("enabled"@, n.enabled)));
        acc = acc + bool_member("enabled"@, n.enabled);
    }
    out.push(',');
    proof {
        assert(out@ =~= base + (acc + seq![',']));
        acc = acc + seq![','];
    }
    push_bool_member(out, "show_message_notifications", n.show_message_notifications);
    proof {
        assert(out@ =~= base + (acc + bool_member(
            "show_message_notifications"@,
            n.show_message_notifications,
        )));
        acc = acc + bool_member("show_message_notifications"@, n.show_message_notifications);
    }
    out.push(',');
    proof {
        assert(out@ =~= base + (acc + seq![',']));
        acc = acc + seq![','];
    }
    push_bool_member(out, "show_call_notifications", n.show_call_notifications);
    proof {
        assert(out@ =~= base + (acc + bool_member(
            "show_call_notifications"@,
            n.show_call_notifications,
        )));
        acc = acc + bool_member("show_call_notifications"@, n.show_call_notifications);
    }
    out.push(',');
    proof {
        assert(out@ =~= base + (acc + seq![',']));
        acc = acc + seq![','];
    }
    push_bool_member(out, "sound_enabled", n.sound_enabled);
    proof {
        assert(out@ =~= base + (acc + bool_member("sound_enabled"@, n.sound_enabled)));
        acc = acc + bool_member("sound_enabled"@, n.sound_enabled);
    }
    out.push(',');
    proof {
        assert(out@ =~= base + (acc + seq![',']));
        acc = acc + seq![','];
    }
    push_bool_member(out, "show_sender", n.show_sender);
    proof {
        assert(out@ =~= base + (acc + bool_member("show_sender"@, n.show_sender)));
        acc = acc + bool_member("show_sender"@, n.show_sender);
    }
    push_nl2(out);
    proof {
        assert(out@ =~= base + (acc + nl2()));
        acc = acc + nl2();
    }
    out.push('}');
    proof {
        assert(out@ =~= base + (acc + seq!['}']));
        acc = acc + seq!['}'];
    }
    assert(acc == render_notif(*n));
}

/// Appends one string member of a tab object.
fn push_tab_member(out: &mut Vec<char>, key: &str, val: &str)
    ensures
        final(out)@ == old(out)@ + tab_member(key@, val@),
{
    push_nl6(out);
    push_quoted(out, key);
    push_colsp(out);
    push_quoted(out, val);
    assert(out@ =~= old(out)@ + tab_member(key@, val@));
}

fn push_tab(out: &mut Vec<char>, t: &TabInfo)
    ensures
        final(out)@ == old(out)@ + render_tab(t@),
{
    let ghost base = out@;
    out.push('{');
    let ghost mut acc: Seq<char> = seq!['{'];
    assert(out@ =~= base + acc);
    push_tab_member(out, "name", t.name.as_str());
    proof {
        assert(out@ =~= base + (acc + tab_member("name"@, t.name@)));
        acc = acc + tab_member("name"@, t.name@);
    }
    out.push(',');
    proof {
        assert(out@ =~= base + (acc + seq![',']));
        acc = acc + seq![','];
    }
    push_tab_member(out, "icon", t.icon.as_str());
    proof {
        assert(out@ =~= base + (acc + tab_member("icon"@, t.icon@)));
        acc = acc + tab_member("icon"@, t.icon@);
    }
    push_nl4(out);
    proof {
        assert(out@ =~= base + (acc + nl4()));
        acc = acc + nl4();
    }
    out.push('}');
    proof {
        assert(out@ =~= base + (acc + seq!['}']));
        acc = acc + seq!['}'];
    }
    assert(acc == render_tab(t@));
}

/// The views of a list of tabs.
pub open spec fn tab_views(ts: Seq<TabInfo>) -> Seq<TabModel> {
    ts.map_values(|t: TabInfo| t@)
}

/// A snapshot whose every string the renderer can persist: none holds a
/// control character the format cannot escape. The round-trip law holds for
/// exactly these snapshots; anything else produces a document the parser
/// rejects, and a load then falls back to defaults.
pub open spec fn renderable(m: SettingsModel) -> bool {
    &&& text_ok(m.theme)
    &&& text_ok(m.download_path)
    &&& forall|k: int|
        0 <= k < m.tabs.len() ==> text_ok(#[trigger] m.tabs[k].name) && text_ok(m.tabs[k].icon)
}

fn push_tabs_items(out: &mut Vec<char>, tabs: &Vec<TabInfo>, idx: usize)
    requires
        idx < tabs@.len(),
    ensures
        final(out)@ == old(out)@ + render_tabs_items(
            tab_views(tabs@).subrange(idx as int, tabs@.len() as int),
        ),
    decreases tabs@.len() - idx,
{
    let ghost models = tab_views(tabs@);
    let ghost suffix = models.subrange(idx as int, tabs@.len() as int);
    push_nl4(out);
    push_tab(out, &tabs[idx]);
    assert(suffix[0] == tabs@[idx as int]@);
    if tabs.len() - idx > 1 {
        out.push(',');
        push_tabs_items(out, tabs, idx + 1);
        proof {
            assert(suffix.drop_first() =~= models.subrange(idx + 1 as int, tabs@.len() as int));
            assert(out@ =~= old(out)@ + render_tabs_items(suffix));
        }
    } else {
        assert(suffix.len() == 1);
        assert(out@ =~= old(out)@ + render_tabs_items(suffix));
    }
}

fn push_tabs(out: &mut Vec<char>, tabs: &Vec<TabInfo>)
    ensures
        final(out)@ == old(out)@ + render_tabs(tab_views(tabs@)),
{
    out.push('[');
    if tabs.len() == 0 {
        out.push(']');
        assert(tab_views(tabs@).len() == 0);
        assert(out@ =~= old(out)@ + render_tabs(tab_views(tabs@)));
    } else {
        push_tabs_items(out, tabs, 0);
        proof {
            assert(tab_views(tabs@).subrange(0, tabs@.len() as int) =~= tab_views(tabs@));
        }
        push_nl2(out);
        out.push(']');
        assert(out@ =~= old(out)@ + render_tabs(tab_views(tabs@)));
    }
}

/// Appends the lead-in of one settings member: line break, indent, quoted
/// key, colon.
fn push_top_key(out: &mut Vec<char>, key: &str)
    ensures
        final(out)@ == old(out)@ + (nl2() + quoted(key@) + colsp()),
{
    push_nl2(out);
    push_quoted(out, key);
    push_colsp(out);
    assert(out@ =~= old(out)@ + (nl2() + quoted(key@) + colsp()));
}

/// Serializes one snapshot as the settings document.
#[verifier::rlimit(100)]
pub fn render_settings(s: &AppSettings) -> (r: String)
    ensures
        r@ == render_settings_model(s@),
{
    let mut out: Vec<char> = Vec::new();
    out.push('{');
    let ghost mut acc: Seq<char> = seq!['{'];
    assert(out@ =~= acc);
    push_top_key(&mut out, "theme");
    push_quoted(&mut out, s.theme.as_str());
    proof {
        assert(out@ =~= acc + top_member("theme"@, quoted(s.theme@)));
        acc = acc + top_member("theme"@, quoted(s.theme@));
    }
    out.push(',');
    proof {
        assert(out@ =~= acc + seq![',']);
        acc = acc + seq![','];
    }
    push_top_key(&mut out, "download_path");
    push_quoted(&mut out, s.download_path.as_str());
    proof {
        assert(out@ =~= acc + top_member("download_path"@, quoted(s.download_path@)));
        acc = acc + top_member("download_path"@, quoted(s.download_path@));
    }
    out.push(',');
    proof {
        assert(out@ =~= acc + seq![',']);
        acc = acc + seq![','];
    }
    push_top_key(&mut out, "current_tab");
    push_int(&mut out, s.current_tab);
    proof {
        assert(out@ =~= acc + top_member("current_tab"@, render_int(s.current_tab as int)));
        acc = acc + top_member("current_tab"@, render_int(s.current_tab as int));
    }
    out.push(',');
    proof {
        assert(out@ =~= acc + seq![',']);
        acc = acc + seq![','];
    }
    push_top_key(&mut out, "notification_settings");
    push_notif(&mut out, &s.notification_settings);
    proof {
        assert(out@ =~= acc + top_member(
            "notification_settings"@,
            render_notif(s.notification_settings),
        ));
        acc = acc + top_member("notification_settings"@, render_notif(s.notification_settings));
    }
    out.push(',');
    proof {
        assert(out@ =~= acc + seq![',']);
        acc = acc + seq![','];
    }
    push_top_key(&mut out, "tabs");
    push_tabs(&mut out, &s.tabs);
    proof {
        assert(out@ =~= acc + top_member("tabs"@, render_tabs(tab_views(s.tabs@))));
        acc = acc + top_member("tabs"@, render_tabs(tab_views(s.tabs@)));
    }
    out.push('\n');
    out.push('}');
    proof {
        assert(out@ =~= acc + seq!['\n', '}']);
        acc = acc + seq!['\n', '}'];
    }
    assert(acc == render_settings_model(s@));
    crate::text::chars_to_string(&out)
}

} // verus!
