//! Attribute-value normalization: one dynamically typed attribute cell,
//! given by its canonical string form, becomes a plain scalar.
//!
//! The rules are ordered and the first match wins:
//! 1. the canonical empty-numeric form becomes the empty string scalar
//!    (a historical quirk, preserved on purpose);
//! 2. the canonical empty-character form becomes null;
//! 3. a numeric wrapper containing a decimal literal becomes a number
//!    carrying the captured literal;
//! 4. a character wrapper containing a quoted string becomes a text
//!    scalar carrying the captured inner text;
//! 5. anything else is passed through verbatim as text.

use vstd::prelude::*;

verus! {

/// One decoded attribute scalar: a number carried as its decimal literal
/// text, a text value, or null.
#[derive(Clone, PartialEq, Debug)]
pub enum Scalar {
    Number(String),
    Text(String),
    Null,
}

/// The mathematical value of a `Scalar`.
pub enum ScalarView {
    Number(Seq<char>),
    Text(Seq<char>),
    Null,
}

impl View for Scalar {
    type V = ScalarView;

    open spec fn view(&self) -> ScalarView {
        match self {
            Scalar::Number(t) => ScalarView::Number(t@),
            Scalar::Text(t) => ScalarView::Text(t@),
            Scalar::Null => ScalarView::Null,
        }
    }
}

impl DeepView for Scalar {
    type V = ScalarView;

    open spec fn deep_view(&self) -> ScalarView {
        self.view()
    }
}

/// The canonical form of an empty numeric cell.
pub open spec fn numeric_none_form() -> Seq<char> {
    "Numeric(None)"@
}

/// The canonical form of an empty character cell.
pub open spec fn character_none_form() -> Seq<char> {
    "Character(None)"@
}

/// The opening of the numeric wrapper pattern.
pub open spec fn numeric_prefix() -> Seq<char> {
    "Numeric(Some("@
}

/// What closes the numeric wrapper pattern.
pub open spec fn numeric_close() -> Seq<char> {
    "))"@
}

/// The opening of the character wrapper pattern, quote included.
pub open spec fn character_prefix() -> Seq<char> {
    "Character(Some(\""@
}

/// What closes the character wrapper pattern: the closing quote and
/// both parentheses.
pub open spec fn character_close() -> Seq<char> {
    "\"))"@
}

/// Whether `c` is a decimal digit.
pub open spec fn is_digit(c: char) -> bool {
    '0' <= c && c <= '9'
}

/// Whether the literal `lit` occurs in `s` starting at position `p`.
pub open spec fn has_lit_at(s: Seq<char>, p: int, lit: Seq<char>) -> bool {
    &&& 0 <= p
    &&& p + lit.len() <= s.len()
    &&& forall|k: int| 0 <= k < lit.len() ==> s[p + k] == lit[k]
}

/// The end of the run of decimal digits that starts at position `i`:
/// the first position at or after `i` holding no digit.
pub open spec fn digit_run_end(s: Seq<char>, i: int) -> int
    decreases s.len() - i,
{
    if i < 0 || i >= s.len() || !is_digit(s[i]) {
        i
    } else {
        digit_run_end(s, i + 1)
    }
}

/// Where the captured decimal literal ends when the numeric wrapper
/// pattern matches at position `p`: after the prefix come one or more
/// digits, at most one point followed by one or more digits — each run
/// taken as long as possible — and then the two closing parentheses.
pub open spec fn numeric_capture_end_at(s: Seq<char>, p: int) -> Option<int> {
    if !has_lit_at(s, p, numeric_prefix()) {
        None
    } else {
        let start = p + numeric_prefix().len();
        let d1 = digit_run_end(s, start);
        if d1 == start {
            None
        } else if d1 < s.len() && s[d1] == '.' {
            let d2 = digit_run_end(s, d1 + 1);
            if d2 > d1 + 1 && has_lit_at(s, d2, numeric_close()) {
                Some(d2)
            } else {
                None
            }
        } else if has_lit_at(s, d1, numeric_close()) {
            Some(d1)
        } else {
            None
        }
    }
}

/// The leftmost numeric wrapper match at or after position `p`, as the
/// bounds of its captured decimal literal.
pub open spec fn numeric_search_from(s: Seq<char>, p: int) -> Option<(int, int)>
    decreases s.len() - p,
{
    if !(0 <= p < s.len()) {
        None
    } else if numeric_capture_end_at(s, p) is Some {
        Some((p + numeric_prefix().len(), numeric_capture_end_at(s, p)->Some_0))
    } else {
        numeric_search_from(s, p + 1)
    }
}

/// The leftmost numeric wrapper match anywhere in `s`, as the bounds of
/// its captured decimal literal.
pub open spec fn numeric_capture(s: Seq<char>) -> Option<(int, int)> {
    numeric_search_from(s, 0)
}

/// Whether positions `a` (inclusive) to `b` (exclusive) hold no newline.
pub open spec fn newline_free(s: Seq<char>, a: int, b: int) -> bool {
    forall|k: int| a <= k < b ==> s[k] != '\n'
}

/// Where the captured inner text ends when the character wrapper pattern
/// is closed at or before position `q`: the capture runs from the end of
/// the prefix, must not be empty, must not cross a newline, and — taken
/// as long as possible — ends right before the closing quote and
/// parentheses.
pub open spec fn character_capture_end_from(s: Seq<char>, q: int) -> Option<int>
    decreases q,
{
    if q < character_prefix().len() + 1 {
        None
    } else if has_lit_at(s, q, character_close()) && newline_free(
        s,
        character_prefix().len() as int,
        q,
    ) {
        Some(q)
    } else {
        character_capture_end_from(s, q - 1)
    }
}

/// Where the captured inner text ends when the character wrapper pattern,
/// anchored at the start of `s`, matches at all.
pub open spec fn character_capture(s: Seq<char>) -> Option<int> {
    if has_lit_at(s, 0, character_prefix()) {
        character_capture_end_from(s, s.len() - character_close().len())
    } else {
        None
    }
}

/// What one attribute cell decodes to, by the ordered first-match rules.
pub open spec fn decode_spec(s: Seq<char>) -> ScalarView {
    if s == numeric_none_form() {
        ScalarView::Text(Seq::empty())
    } else if s == character_none_form() {
        ScalarView::Null
    } else if numeric_capture(s) is Some {
        let ab = numeric_capture(s)->Some_0;
        ScalarView::Number(s.subrange(ab.0, ab.1))
    } else if character_capture(s) is Some {
        ScalarView::Text(s.subrange(character_prefix().len() as int, character_capture(s)->Some_0))
    } else {
        ScalarView::Text(s)
    }
}

/// Law: decoding is idempotent across calls — the same cell string
/// always yields the same scalar, however often it is decoded.
pub proof fn lemma_decode_deterministic(s1: Seq<char>, s2: Seq<char>)
    requires
        s1 == s2,
    ensures
        decode_spec(s1) == decode_spec(s2),
{
}

/// Whether positions `a` (inclusive) to `b` (exclusive) hold only digits.
pub open spec fn all_digits(t: Seq<char>, a: int, b: int) -> bool {
    forall|k: int| a <= k < b ==> is_digit(t[k])
}

/// A decimal literal: one or more digits, optionally followed by one
/// point and one or more further digits.
pub open spec fn is_decimal_literal(t: Seq<char>) -> bool {
    t.len() > 0 && (all_digits(t, 0, t.len() as int) || (exists|d: int|
        1 <= d <= t.len() - 2 && t[d] == '.' && all_digits(t, 0, d) && all_digits(
            t,
            d + 1,
            t.len() as int,
        )))
}

/// The digit run that starts at `i` ends within the string, holds only
/// digits, and stops only at the end or at a non-digit.
proof fn lemma_digit_run_end(s: Seq<char>, i: int)
    requires
        0 <= i <= s.len(),
    ensures
        i <= digit_run_end(s, i) <= s.len(),
        all_digits(s, i, digit_run_end(s, i)),
        digit_run_end(s, i) < s.len() ==> !is_digit(s[digit_run_end(s, i)]),
    decreases s.len() - i,
{
    if i < s.len() && is_digit(s[i]) {
        lemma_digit_run_end(s, i + 1);
    }
}

/// Any captured numeric text found at or after `p` lies within the string
/// and is a decimal literal.
proof fn lemma_search_capture_is_decimal(s: Seq<char>, p: int)
    requires
        0 <= p,
    ensures
        match numeric_search_from(s, p) {
            Some(ab) => 0 <= ab.0 <= ab.1 <= s.len() && is_decimal_literal(
                s.subrange(ab.0, ab.1),
            ),
            None => true,
        },
    decreases s.len() - p,
{
    if 0 <= p < s.len() {
        if numeric_capture_end_at(s, p) is Some {
            let start = p + numeric_prefix().len();
            let d1 = digit_run_end(s, start);
            lemma_digit_run_end(s, start);
            if d1 < s.len() && s[d1] == '.' {
                let d2 = digit_run_end(s, d1 + 1);
                lemma_digit_run_end(s, d1 + 1);
                let t = s.subrange(start, d2);
                assert(t[d1 - start] == '.');
                assert(all_digits(t, 0, d1 - start));
                assert(all_digits(t, d1 - start + 1, t.len() as int));
                assert(is_decimal_literal(t));
            } else {
                let t = s.subrange(start, d1);
                assert(all_digits(t, 0, t.len() as int));
                assert(is_decimal_literal(t));
            }
        } else {
            lemma_search_capture_is_decimal(s, p + 1);
        }
    }
}

/// Law: a number scalar always carries a decimal literal — the captured
/// digits of the numeric wrapper, with at most one decimal point.
pub proof fn lemma_captured_number_is_decimal(s: Seq<char>)
    requires
        numeric_capture(s) is Some,
    ensures
        ({
            let ab = numeric_capture(s)->Some_0;
            0 <= ab.0 <= ab.1 <= s.len() && is_decimal_literal(s.subrange(ab.0, ab.1))
        }),
{
    lemma_search_capture_is_decimal(s, 0);
}

/// Compares two strings character for character.
fn str_eq(a: &str, b: &str) -> (r: bool)
    ensures
        r == (a@ == b@),
{
    let na = a.unicode_len();
    let nb = b.unicode_len();
    if na != nb {
        return false;
    }
    let mut i: usize = 0;
    while i < na
        invariant
            na == a@.len(),
            na == b@.len(),
            i <= na,
            forall|k: int| 0 <= k < i ==> a@[k] == b@[k],
        decreases na - i,
    {
        if a.get_char(i) != b.get_char(i) {
            return false;
        }
        i = i + 1;
    }
    proof {
        assert(a@ =~= b@);
    }
    true
}

/// Tests whether the literal `lit` occurs in `s` at position `p`.
fn matches_lit(s: &str, p: usize, lit: &str) -> (r: bool)
    ensures
        r == has_lit_at(s@, p as int, lit@),
{
    let n = s.unicode_len();
    let m = lit.unicode_len();
    if p > n || m > n - p {
        return false;
    }
    let mut k: usize = 0;
    while k < m
        invariant
            n == s@.len(),
            m == lit@.len(),
            p + m <= n,
            k <= m,
            forall|j: int| 0 <= j < k ==> s@[p + j] == lit@[j],
        decreases m - k,
    {
        if s.get_char(p + k) != lit.get_char(k) {
            return false;
        }
        k = k + 1;
    }
    true
}

/// Finds the end of the digit run that starts at position `i`.
fn digit_run_end_exec(s: &str, i: usize, n: usize) -> (r: usize)
    requires
        n == s@.len(),
        i <= n,
    ensures
        i <= r <= n,
        r as int == digit_run_end(s@, i as int),
{
    let mut j = i;
    while j < n
        invariant
            n == s@.len(),
            i <= j <= n,
            digit_run_end(s@, i as int) == digit_run_end(s@, j as int),
        decreases n - j,
    {
        let c = s.get_char(j);
        if !('0' <= c && c <= '9') {
            proof {
                assert(digit_run_end(s@, j as int) == j as int);
            }
            return j;
        }
        proof {
            assert(digit_run_end(s@, j as int) == digit_run_end(s@, j as int + 1));
        }
        j = j + 1;
    }
    proof {
        assert(digit_run_end(s@, j as int) == j as int);
    }
    j
}

/// Finds the first newline at or after position `start`, or the length
/// of `s` when there is none.
fn first_newline_from(s: &str, start: usize, n: usize) -> (r: usize)
    requires
        n == s@.len(),
        start <= n,
    ensures
        start <= r <= n,
        newline_free(s@, start as int, r as int),
        r < n ==> s@[r as int] == '\n',
{
    let mut j = start;
    while j < n
        invariant
            n == s@.len(),
            start <= j <= n,
            newline_free(s@, start as int, j as int),
        decreases n - j,
    {
        if s.get_char(j) == '\n' {
            return j;
        }
        j = j + 1;
    }
    j
}

/// Decides whether the numeric wrapper pattern matches at position `p`
/// and where its captured decimal literal ends.
fn numeric_end_at(s: &str, p: usize, n: usize) -> (r: Option<usize>)
    requires
        n == s@.len(),
        p <= n,
    ensures
        match r {
            Some(e) => {
                &&& numeric_capture_end_at(s@, p as int) == Some(e as int)
                &&& p + 13 <= e
                &&& e + 2 <= n
            },
            None => numeric_capture_end_at(s@, p as int) is None,
        },
{
    proof {
        reveal_strlit("Numeric(Some(");
        reveal_strlit("))");
    }
    if !matches_lit(s, p, "Numeric(Some(") {
        return None;
    }
    let start = p + 13;
    let d1 = digit_run_end_exec(s, start, n);
    if d1 == start {
        return None;
    }
    if d1 < n && s.get_char(d1) == '.' {
        let d2 = digit_run_end_exec(s, d1 + 1, n);
        if d2 > d1 + 1 && matches_lit(s, d2, "))") {
            Some(d2)
        } else {
            None
        }
    } else {
        if matches_lit(s, d1, "))") {
            Some(d1)
        } else {
            None
        }
    }
}

/// Finds the leftmost numeric wrapper match in `s`, as the bounds of its
/// captured decimal literal.
fn find_numeric_capture(s: &str) -> (r: Option<(usize, usize)>)
    ensures
        match r {
            Some(ab) => {
                &&& numeric_capture(s@) == Some((ab.0 as int, ab.1 as int))
                &&& ab.0 <= ab.1
                &&& ab.1 + 2 <= s@.len()
            },
            None => numeric_capture(s@) is None,
        },
{
    proof {
        reveal_strlit("Numeric(Some(");
    }
    let n = s.unicode_len();
    let mut p: usize = 0;
    while p < n
        invariant
            n == s@.len(),
            p <= n,
            numeric_search_from(s@, 0) == numeric_search_from(s@, p as int),
        decreases n - p,
    {
        proof {
            reveal_strlit("Numeric(Some(");
        }
        match numeric_end_at(s, p, n) {
            Some(e) => {
                proof {
                    assert(numeric_search_from(s@, p as int) == Some(
                        (p as int + numeric_prefix().len(), e as int),
                    ));
                }
                return Some((p + 13, e));
            },
            None => {
                proof {
                    assert(numeric_search_from(s@, p as int) == numeric_search_from(
                        s@,
                        p as int + 1,
                    ));
                }
                p = p + 1;
            },
        }
    }
    proof {
        assert(numeric_search_from(s@, p as int) is None);
    }
    None
}

/// Finds where the anchored character wrapper match in `s` ends, greedy
/// over the captured inner text.
fn find_character_capture(s: &str) -> (r: Option<usize>)
    ensures
        match r {
            Some(q) => {
                &&& character_capture(s@) == Some(q as int)
                &&& 17 <= q
                &&& q + 3 <= s@.len()
            },
            None => character_capture(s@) is None,
        },
{
    proof {
        reveal_strlit("Character(Some(\"");
        reveal_strlit("\"))");
    }
    if !matches_lit(s, 0, "Character(Some(\"") {
        return None;
    }
    let n = s.unicode_len();
    if n < 20 {
        proof {
            assert(character_capture_end_from(s@, s@.len() - 3) is None);
        }
        return None;
    }
    let nl = first_newline_from(s, 16, n);
    let mut q = n - 3;
    while q >= 17
        invariant
            n == s@.len(),
            n >= 20,
            has_lit_at(s@, 0, character_prefix()),
            16 <= q <= n - 3,
            16 <= nl <= n,
            newline_free(s@, 16, nl as int),
            nl < n ==> s@[nl as int] == '\n',
            character_capture_end_from(s@, (n - 3) as int) == character_capture_end_from(
                s@,
                q as int,
            ),
        decreases q,
    {
        proof {
            reveal_strlit("Character(Some(\"");
            reveal_strlit("\"))");
        }
        if q <= nl && matches_lit(s, q, "\"))") {
            proof {
                assert(character_capture_end_from(s@, q as int) == Some(q as int));
            }
            return Some(q);
        }
        proof {
            if q > nl {
                assert(s@[nl as int] == '\n');
                assert(!newline_free(s@, 16, q as int));
            }
            assert(character_capture_end_from(s@, q as int) == character_capture_end_from(
                s@,
                q as int - 1,
            ));
        }
        q = q - 1;
    }
    proof {
        assert(character_capture_end_from(s@, q as int) is None);
    }
    None
}

/// Decodes one attribute cell from its canonical string form, first
/// matching rule winning: the empty-numeric form becomes the empty
/// string, the empty-character form becomes null, a matched numeric
/// wrapper becomes a number carrying the captured decimal literal, a
/// matched character wrapper becomes the captured inner text, and
/// anything else passes through verbatim.
pub fn decode_value(value: &str) -> (r: Scalar)
    ensures
        r@ == decode_spec(value@),
        (r@ matches ScalarView::Number(t) ==> is_decimal_literal(t)),
{
    if str_eq(value, "Numeric(None)") {
        return Scalar::Text(String::new());
    }
    if str_eq(value, "Character(None)") {
        return Scalar::Null;
    }
    match find_numeric_capture(value) {
        Some((a, b)) => {
            proof {
                lemma_captured_number_is_decimal(value@);
            }
            return Scalar::Number(String::from_str(value.substring_char(a, b)));
        },
        None => {},
    }
    match find_character_capture(value) {
        Some(q) => {
            proof {
                reveal_strlit("Character(Some(\"");
            }
            return Scalar::Text(String::from_str(value.substring_char(16, q)));
        },
        None => {},
    }
    Scalar::Text(String::from_str(value))
}

} // verus!
