//! Character-level text utilities shared by the parsing and formatting
//! modules: prefix tests, substring search, whitespace trimming, line
//! splitting and decimal numerals, all specified over `Seq<char>` views.

use vstd::prelude::*;

verus! {

// ---------------------------------------------------------------------------
// Prefix and substring search
// ---------------------------------------------------------------------------

/// A sequence `p` is a prefix of `s`.
pub open spec fn spec_starts_with(s: Seq<char>, p: Seq<char>) -> bool {
    p.len() <= s.len() && s.subrange(0, p.len() as int) == p
}

/// Whether `p` occurs in `s` beginning at position `i`.
pub open spec fn occurs_at(s: Seq<char>, p: Seq<char>, i: int) -> bool {
    0 <= i && i + p.len() <= s.len() && s.subrange(i, i + p.len()) == p
}

/// A sequence `p` occurs somewhere in `s`.
pub open spec fn spec_contains(s: Seq<char>, p: Seq<char>) -> bool {
    exists|i: int| occurs_at(s, p, i)
}

/// Does `s` begin with `p`?
pub fn starts_with(s: &str, p: &str) -> (r: bool)
    ensures
        r == spec_starts_with(s@, p@),
{
    let n = s.unicode_len();
    let m = p.unicode_len();
    if m > n {
        return false;
    }
    let mut i: usize = 0;
    while i < m
        invariant
            m <= n,
            n == s@.len(),
            m == p@.len(),
            0 <= i <= m,
            forall|j: int| 0 <= j < i ==> s@[j] == p@[j],
        decreases m - i,
    {
        if s.get_char(i) != p.get_char(i) {
            assert(s@.subrange(0, m as int)[i as int] != p@[i as int]);
            return false;
        }
        i = i + 1;
    }
    assert(s@.subrange(0, m as int) =~= p@);
    true
}

/// Does `p` occur in `s` beginning at position `i`?
pub fn matches_at(s: &str, i: usize, p: &str) -> (r: bool)
    requires
        i <= s@.len(),
    ensures
        r == occurs_at(s@, p@, i as int),
{
    let n = s.unicode_len();
    let m = p.unicode_len();
    if m > n - i {
        return false;
    }
    let mut j: usize = 0;
    while j < m
        invariant
            i + m <= n,
            n == s@.len(),
            m == p@.len(),
            0 <= j <= m,
            forall|k: int| 0 <= k < j ==> s@[i + k] == p@[k],
        decreases m - j,
    {
        if s.get_char(i + j) != p.get_char(j) {
            assert(s@.subrange(i as int, i + m)[j as int] != p@[j as int]);
            return false;
        }
        j = j + 1;
    }
    assert(s@.subrange(i as int, i + m) =~= p@);
    true
}

/// Does `p` occur anywhere in `s`?
pub fn contains(s: &str, p: &str) -> (r: bool)
    ensures
        r == spec_contains(s@, p@),
{
    let n = s.unicode_len();
    let m = p.unicode_len();
    if m > n {
        assert forall|i: int| !occurs_at(s@, p@, i) by {}
        return false;
    }
    if m == 0 {
        assert(s@.subrange(0, 0) =~= p@);
        assert(occurs_at(s@, p@, 0));
        return true;
    }
    let mut i: usize = 0;
    while i <= n - m
        invariant
            1 <= m <= n,
            n == s@.len(),
            m == p@.len(),
            0 <= i <= n - m + 1,
            forall|k: int| 0 <= k < i ==> !occurs_at(s@, p@, k),
        decreases n - i,
    {
        if matches_at(s, i, p) {
            return true;
        }
        i = i + 1;
    }
    assert forall|k: int| !occurs_at(s@, p@, k) by {
        if 0 <= k && k + p@.len() <= s@.len() {
            assert(!occurs_at(s@, p@, k));
        }
    }
    false
}

// ---------------------------------------------------------------------------
// Whitespace and trimming
// ---------------------------------------------------------------------------

/// The Unicode `White_Space` characters, the set that `str::trim` strips.
pub open spec fn is_ws_char(c: char) -> bool {
    c == ' ' || c == '\t' || c == '\n' || c == '\r' || c == '\u{b}' || c == '\u{c}'
        || c == '\u{85}' || c == '\u{a0}' || c == '\u{1680}'
        || ('\u{2000}' <= c && c <= '\u{200a}')
        || c == '\u{2028}' || c == '\u{2029}' || c == '\u{202f}' || c == '\u{205f}'
        || c == '\u{3000}'
}

/// Is `c` a white-space character (the set that `str::trim` strips)?
pub fn is_whitespace_char(c: char) -> (r: bool)
    ensures
        r == is_ws_char(c),
{
    c == ' ' || c == '\t' || c == '\n' || c == '\r' || c == '\u{b}' || c == '\u{c}'
        || c == '\u{85}' || c == '\u{a0}' || c == '\u{1680}'
        || ('\u{2000}' <= c && c <= '\u{200a}')
        || c == '\u{2028}' || c == '\u{2029}' || c == '\u{202f}' || c == '\u{205f}'
        || c == '\u{3000}'
}

/// `s` with leading white space removed.
pub open spec fn spec_trim_start(s: Seq<char>) -> Seq<char>
    decreases s.len(),
{
    if s.len() > 0 && is_ws_char(s[0]) {
        spec_trim_start(s.drop_first())
    } else {
        s
    }
}

/// `s` with trailing white space removed.
pub open spec fn spec_trim_end(s: Seq<char>) -> Seq<char>
    decreases s.len(),
{
    if s.len() > 0 && is_ws_char(s.last()) {
        spec_trim_end(s.drop_last())
    } else {
        s
    }
}

/// `s` with leading and trailing white space removed.
pub open spec fn spec_trim(s: Seq<char>) -> Seq<char> {
    spec_trim_end(spec_trim_start(s))
}

proof fn lemma_trim_start_at(s: Seq<char>, i: int)
    requires
        0 <= i <= s.len(),
        forall|k: int| 0 <= k < i ==> is_ws_char(s[k]),
        i < s.len() ==> !is_ws_char(s[i]),
    ensures
        spec_trim_start(s) == s.subrange(i, s.len() as int),
    decreases i,
{
    if i == 0 {
        assert(s.subrange(0, s.len() as int) =~= s);
    } else {
        let t = s.drop_first();
        assert forall|k: int| 0 <= k < i - 1 implies is_ws_char(t[k]) by {
            assert(t[k] == s[k + 1]);
        }
        assert(i - 1 < t.len() ==> !is_ws_char(t[i - 1]));
        lemma_trim_start_at(t, i - 1);
        assert(t.subrange(i - 1, t.len() as int) =~= s.subrange(i, s.len() as int));
    }
}

proof fn lemma_trim_end_at(s: Seq<char>, j: int)
    requires
        0 <= j <= s.len(),
        forall|k: int| j <= k < s.len() ==> is_ws_char(s[k]),
        j > 0 ==> !is_ws_char(s[j - 1]),
    ensures
        spec_trim_end(s) == s.subrange(0, j),
    decreases s.len() - j,
{
    if j == s.len() {
        assert(s.subrange(0, s.len() as int) =~= s);
        if s.len() > 0 && is_ws_char(s.last()) {
            assert(!is_ws_char(s[j - 1]));
            assert(false);
        }
    } else {
        let t = s.drop_last();
        assert(is_ws_char(s.last()));
        assert forall|k: int| j <= k < t.len() implies is_ws_char(t[k]) by {
            assert(t[k] == s[k]);
        }
        lemma_trim_end_at(t, j);
        assert(t.subrange(0, j) =~= s.subrange(0, j));
    }
}

/// `s` with leading and trailing white space removed, as `str::trim` does.
pub fn trim<'a>(s: &'a str) -> (r: &'a str)
    ensures
        r@ == spec_trim(s@),
{
    let n = s.unicode_len();
    let mut i: usize = 0;
    while i < n && is_whitespace_char(s.get_char(i))
        invariant
            n == s@.len(),
            0 <= i <= n,
            forall|k: int| 0 <= k < i ==> is_ws_char(s@[k]),
        decreases n - i,
    {
        i = i + 1;
    }
    let mut j: usize = n;
    while j > i && is_whitespace_char(s.get_char(j - 1))
        invariant
            n == s@.len(),
            0 <= i <= j <= n,
            forall|k: int| 0 <= k < i ==> is_ws_char(s@[k]),
            i < n ==> !is_ws_char(s@[i as int]),
            forall|k: int| j <= k < n ==> is_ws_char(s@[k]),
        decreases j,
    {
        j = j - 1;
    }
    proof {
        lemma_trim_start_at(s@, i as int);
        let t = s@.subrange(i as int, n as int);
        assert forall|k: int| j - i <= k < t.len() implies is_ws_char(t[k]) by {
            assert(t[k] == s@[k + i]);
        }
        if j > i {
            assert(t[j - i - 1] == s@[j - 1]);
        }
        lemma_trim_end_at(t, j - i);
        assert(t.subrange(0, j - i) =~= s@.subrange(i as int, j as int));
    }
    s.substring_char(i, j)
}

// ---------------------------------------------------------------------------
// Line splitting
// ---------------------------------------------------------------------------

/// Position of the first `'\n'` in `s`, or `s.len()` if there is none.
pub open spec fn first_nl(s: Seq<char>) -> int
    decreases s.len(),
{
    if s.len() == 0 {
        0
    } else if s[0] == '\n' {
        0
    } else {
        1 + first_nl(s.drop_first())
    }
}

pub proof fn lemma_first_nl_at(s: Seq<char>, i: int)
    requires
        0 <= i <= s.len(),
        forall|k: int| 0 <= k < i ==> s[k] != '\n',
        i < s.len() ==> s[i] == '\n',
    ensures
        first_nl(s) == i,
    decreases i,
{
    if i == 0 {
    } else {
        let t = s.drop_first();
        assert forall|k: int| 0 <= k < i - 1 implies t[k] != '\n' by {
            assert(t[k] == s[k + 1]);
        }
        lemma_first_nl_at(t, i - 1);
    }
}

/// A line with a trailing carriage return removed, as `str::lines` does.
pub open spec fn strip_cr(l: Seq<char>) -> Seq<char> {
    if l.len() > 0 && l.last() == '\r' {
        l.drop_last()
    } else {
        l
    }
}

/// The lines of `s`, split as `str::lines` splits: terminated or separated
/// by `'\n'`, each terminated line stripped of one trailing `'\r'`, with no
/// final empty line for text ending in a newline.  A final line with no
/// newline is kept whole, carriage return and all.
pub open spec fn spec_lines(s: Seq<char>) -> Seq<Seq<char>>
    decreases s.len(),
{
    if s.len() == 0 {
        Seq::empty()
    } else {
        let i = first_nl_clipped(s);
        if i < s.len() {
            seq![strip_cr(s.subrange(0, i))] + spec_lines(s.subrange(i + 1, s.len() as int))
        } else {
            seq![s]
        }
    }
}

/// `first_nl`, clipped into `[0, s.len()]` so that recursion measures are easy.
pub open spec fn first_nl_clipped(s: Seq<char>) -> int {
    if 0 <= first_nl(s) <= s.len() {
        first_nl(s)
    } else {
        s.len() as int
    }
}

/// The views of a vector of strings.
pub open spec fn strs_view(v: Seq<String>) -> Seq<Seq<char>> {
    v.map_values(|x: String| x@)
}

/// Split `s` into lines, as `str::lines` does.
pub fn split_lines(s: &str) -> (r: Vec<String>)
    ensures
        strs_view(r@) == spec_lines(s@),
{
    let n = s.unicode_len();
    let mut out: Vec<String> = Vec::new();
    let mut pos: usize = 0;
    proof {
        assert(s@.subrange(0, n as int) =~= s@);
        assert(strs_view(out@) + spec_lines(s@) =~= spec_lines(s@));
    }
    while pos < n
        invariant
            n == s@.len(),
            0 <= pos <= n,
            spec_lines(s@) == strs_view(out@) + spec_lines(s@.subrange(pos as int, n as int)),
        decreases n - pos,
    {
        let ghost rem = s@.subrange(pos as int, n as int);
        let mut k: usize = pos;
        while k < n && s.get_char(k) != '\n'
            invariant
                n == s@.len(),
                pos <= k <= n,
                forall|j: int| pos <= j < k ==> s@[j] != '\n',
            decreases n - k,
        {
            k = k + 1;
        }
        proof {
            assert forall|j: int| 0 <= j < k - pos implies rem[j] != '\n' by {
                assert(rem[j] == s@[j + pos]);
            }
            if k < n {
                assert(rem[k - pos] == s@[k as int]);
            }
            lemma_first_nl_at(rem, k - pos);
        }
        // a terminated line loses one trailing '\r'; a final unterminated
        // line is kept whole
        let mut lend: usize = k;
        if k < n && k > pos && s.get_char(k - 1) == '\r' {
            lend = k - 1;
        }
        let line = s.substring_char(pos, lend).to_owned();
        proof {
            let body = rem.subrange(0, k - pos);
            assert(body =~= s@.subrange(pos as int, k as int));
            if k < n {
                if k > pos && s@[k - 1] == '\r' {
                    assert(strip_cr(body) =~= s@.subrange(pos as int, k as int - 1));
                } else {
                    assert(strip_cr(body) == body);
                }
                assert(line@ == strip_cr(body));
            } else {
                assert(line@ == body);
            }
        }
        let ghost old_out = out@;
        out.push(line);
        if k < n {
            proof {
                assert(rem.subrange(k - pos + 1, rem.len() as int) =~= s@.subrange(
                    k + 1,
                    n as int,
                ));
                assert(spec_lines(rem) == seq![line@] + spec_lines(
                    s@.subrange(k + 1, n as int),
                ));
                assert(strs_view(out@) =~= strs_view(old_out) + seq![line@]);
                assert(strs_view(out@) + spec_lines(s@.subrange(k + 1, n as int)) =~= strs_view(
                    old_out,
                ) + spec_lines(rem));
            }
            pos = k + 1;
        } else {
            proof {
                assert(rem.subrange(0, k - pos) =~= rem);
                assert(spec_lines(rem) == seq![rem]);
                assert(rem == line@);
                assert(strs_view(out@) =~= strs_view(old_out) + seq![line@]);
                assert(s@.subrange(n as int, n as int) =~= Seq::<char>::empty());
                assert(strs_view(out@) + spec_lines(s@.subrange(n as int, n as int)) =~= strs_view(
                    old_out,
                ) + spec_lines(rem));
            }
            pos = n;
        }
    }
    proof {
        assert(s@.subrange(n as int, n as int) =~= Seq::<char>::empty());
        assert(strs_view(out@) + spec_lines(Seq::<char>::empty()) =~= strs_view(out@));
    }
    out
}

// ---------------------------------------------------------------------------
// Decimal numerals
// ---------------------------------------------------------------------------

/// The decimal digit character for `d` in `0..=9`.
pub open spec fn char_of_digit(d: int) -> char {
    if d == 0 { '0' } else if d == 1 { '1' } else if d == 2 { '2' } else if d == 3 { '3' }
    else if d == 4 { '4' } else if d == 5 { '5' } else if d == 6 { '6' } else if d == 7 { '7' }
    else if d == 8 { '8' } else { '9' }
}

/// The value of a decimal digit character, or 10 for any other character.
pub open spec fn digit_val(c: char) -> int {
    if c == '0' { 0 } else if c == '1' { 1 } else if c == '2' { 2 } else if c == '3' { 3 }
    else if c == '4' { 4 } else if c == '5' { 5 } else if c == '6' { 6 } else if c == '7' { 7 }
    else if c == '8' { 8 } else if c == '9' { 9 } else { 10 }
}

/// Is `c` a decimal digit?
pub open spec fn is_digit_char(c: char) -> bool {
    digit_val(c) <= 9
}

/// The decimal numeral of `n`, with no leading zeros.
pub open spec fn spec_decimal(n: nat) -> Seq<char>
    decreases n,
{
    if n < 10 {
        seq![char_of_digit(n as int)]
    } else {
        spec_decimal(n / 10).push(char_of_digit((n % 10) as int))
    }
}

/// The value of a sequence of decimal digit characters.
pub open spec fn digits_val(ds: Seq<char>) -> int
    decreases ds.len(),
{
    if ds.len() == 0 {
        0
    } else {
        digits_val(ds.drop_last()) * 10 + digit_val(ds.last())
    }
}

/// Every character of `ds` is a decimal digit.
pub open spec fn all_digits(ds: Seq<char>) -> bool {
    forall|i: int| 0 <= i < ds.len() ==> is_digit_char(ds[i])
}

/// The numeral of `n` consists of digits and evaluates back to `n`.
pub proof fn lemma_decimal_val(n: nat)
    ensures
        spec_decimal(n).len() >= 1,
        all_digits(spec_decimal(n)),
        digits_val(spec_decimal(n)) == n,
    decreases n,
{
    if n < 10 {
        let ds = spec_decimal(n);
        assert(ds.len() == 1);
        assert(ds.last() == char_of_digit(n as int));
        assert(ds.drop_last() =~= Seq::<char>::empty());
        assert(digits_val(ds.drop_last()) == 0);
        assert(digits_val(ds) == digit_val(char_of_digit(n as int)));
    } else {
        lemma_decimal_val(n / 10);
        let pre = spec_decimal(n / 10);
        let ds = pre.push(char_of_digit((n % 10) as int));
        assert(ds.drop_last() =~= pre);
        assert(ds.last() == char_of_digit((n % 10) as int));
        assert(digit_val(char_of_digit((n % 10) as int)) == n % 10);
        assert(digits_val(ds) == digits_val(pre) * 10 + n % 10);
        assert(n / 10 * 10 + n % 10 == n) by (nonlinear_arith);
        assert forall|i: int| 0 <= i < ds.len() implies is_digit_char(ds[i]) by {
            if i < pre.len() {
                assert(ds[i] == pre[i]);
            }
        }
    }
}

proof fn lemma_digits_val_snoc(ds: Seq<char>, i: int)
    requires
        0 <= i < ds.len(),
    ensures
        digits_val(ds.subrange(0, i + 1)) == digits_val(ds.subrange(0, i)) * 10 + digit_val(
            ds[i],
        ),
{
    let a = ds.subrange(0, i + 1);
    assert(a.drop_last() =~= ds.subrange(0, i));
    assert(a.last() == ds[i]);
}

/// Render `n` in decimal.
pub fn u32_to_string(n: u32) -> (r: String)
    ensures
        r@ == spec_decimal(n as nat),
    decreases n,
{
    if n < 10 {
        digit_str(n as u8).to_owned()
    } else {
        let mut s = u32_to_string(n / 10);
        s.append(digit_str((n % 10) as u8));
        assert(s@ =~= spec_decimal((n / 10) as nat) + seq![char_of_digit((n % 10) as int)]);
        assert(spec_decimal(n as nat) =~= spec_decimal((n / 10) as nat).push(
            char_of_digit((n % 10) as int),
        ));
        s
    }
}

/// The one-character string for digit `d`.
fn digit_str(d: u8) -> (r: &'static str)
    requires
        d <= 9,
    ensures
        r@ =~= seq![char_of_digit(d as int)],
{
    proof {
        reveal_strlit("0");
        reveal_strlit("1");
        reveal_strlit("2");
        reveal_strlit("3");
        reveal_strlit("4");
        reveal_strlit("5");
        reveal_strlit("6");
        reveal_strlit("7");
        reveal_strlit("8");
        reveal_strlit("9");
    }
    match d {
        0 => "0",
        1 => "1",
        2 => "2",
        3 => "3",
        4 => "4",
        5 => "5",
        6 => "6",
        7 => "7",
        8 => "8",
        _ => "9",
    }
}

/// What parsing a string as a `u32` numeral yields: the value if the string
/// is one or more decimal digits whose value fits, and nothing otherwise.
pub open spec fn spec_parse_u32(ds: Seq<char>) -> Option<u32> {
    if ds.len() >= 1 && all_digits(ds) && digits_val(ds) <= u32::MAX {
        Some(digits_val(ds) as u32)
    } else {
        None
    }
}

/// Parse a string of decimal digits as a `u32`; rejects empty strings,
/// non-digit characters, and values over `u32::MAX`.
pub fn parse_u32(s: &str) -> (r: Option<u32>)
    ensures
        r == spec_parse_u32(s@),
{
    let n = s.unicode_len();
    if n == 0 {
        return None;
    }
    let mut acc: u32 = 0;
    let mut i: usize = 0;
    while i < n
        invariant
            n == s@.len(),
            0 <= i <= n,
            all_digits(s@.subrange(0, i as int)),
            acc == digits_val(s@.subrange(0, i as int)),
        decreases n - i,
    {
        let c = s.get_char(i);
        let d: u32 = match c {
            '0' => 0,
            '1' => 1,
            '2' => 2,
            '3' => 3,
            '4' => 4,
            '5' => 5,
            '6' => 6,
            '7' => 7,
            '8' => 8,
            '9' => 9,
            _ => {
                assert(!is_digit_char(s@[i as int]));
                return None;
            },
        };
        assert(d == digit_val(s@[i as int]));
        if acc > (u32::MAX - d) / 10 {
            proof {
                if all_digits(s@) {
                    lemma_digits_val_snoc(s@, i as int);
                    let over = digits_val(s@.subrange(0, i as int + 1));
                    assert(over == acc * 10 + d);
                    assert(over > u32::MAX) by (nonlinear_arith)
                        requires
                            over == acc * 10 + d,
                            acc > ((u32::MAX - d) / 10) as int,
                            d <= 9,
                            acc >= 0,
                    ;
                    lemma_digits_prefix_monotone(s@, i as int + 1);
                }
            }
            return None;
        }
        proof {
            lemma_digits_val_snoc(s@, i as int);
            assert(acc * 10 + d <= u32::MAX) by (nonlinear_arith)
                requires
                    acc <= ((u32::MAX - d) / 10) as int,
                    d <= 9,
                    acc >= 0,
            ;
            assert forall|k: int| 0 <= k < i + 1 implies #[trigger] is_digit_char(
                s@.subrange(0, i as int + 1)[k],
            ) by {
                if k < i {
                    assert(s@.subrange(0, i as int + 1)[k] == s@.subrange(0, i as int)[k]);
                }
            }
        }
        acc = acc * 10 + d;
        i = i + 1;
    }
    assert(s@.subrange(0, n as int) =~= s@);
    Some(acc)
}

/// If some prefix of an all-digit string exceeds `u32::MAX`, so does the whole.
proof fn lemma_digits_prefix_monotone(ds: Seq<char>, i: int)
    requires
        0 <= i <= ds.len(),
        all_digits(ds),
        digits_val(ds.subrange(0, i)) > u32::MAX,
    ensures
        digits_val(ds) > u32::MAX,
    decreases ds.len() - i,
{
    if i == ds.len() {
        assert(ds.subrange(0, i) =~= ds);
    } else {
        lemma_digits_val_snoc(ds, i);
        let v = digits_val(ds.subrange(0, i));
        assert(v * 10 + digit_val(ds[i]) > u32::MAX) by (nonlinear_arith)
            requires
                v > u32::MAX,
                digit_val(ds[i]) >= 0,
        ;
        lemma_digits_prefix_monotone(ds, i + 1);
    }
}

// ---------------------------------------------------------------------------
// Character runs
// ---------------------------------------------------------------------------

/// Length of the run of white-space characters at the front of `s`.
pub open spec fn ws_run(s: Seq<char>) -> int
    decreases s.len(),
{
    if s.len() > 0 && is_ws_char(s[0]) {
        1 + ws_run(s.drop_first())
    } else {
        0
    }
}

/// Length of the run of word characters (ASCII letters, digits, `_`)
/// at the front of `s`.
pub open spec fn word_run(s: Seq<char>) -> int
    decreases s.len(),
{
    if s.len() > 0 && is_word_char(s[0]) {
        1 + word_run(s.drop_first())
    } else {
        0
    }
}

/// Length of the run of decimal digits at the front of `s`.
pub open spec fn digit_run(s: Seq<char>) -> int
    decreases s.len(),
{
    if s.len() > 0 && is_digit_char(s[0]) {
        1 + digit_run(s.drop_first())
    } else {
        0
    }
}

/// A word character: an ASCII letter, an ASCII digit, or an underscore.
pub open spec fn is_word_char(c: char) -> bool {
    ('a' <= c && c <= 'z') || ('A' <= c && c <= 'Z') || ('0' <= c && c <= '9') || c == '_'
}

/// Is `c` a word character (ASCII letter, digit or underscore)?
pub fn is_word_char_exec(c: char) -> (r: bool)
    ensures
        r == is_word_char(c),
{
    ('a' <= c && c <= 'z') || ('A' <= c && c <= 'Z') || ('0' <= c && c <= '9') || c == '_'
}

/// Is `c` a decimal digit?
pub fn is_digit_char_exec(c: char) -> (r: bool)
    ensures
        r == is_digit_char(c),
{
    '0' <= c && c <= '9'
}

/// Length of the run of `#` marks at the front of `s`.
pub open spec fn hash_run(s: Seq<char>) -> int
    decreases s.len(),
{
    if s.len() > 0 && s[0] == '#' {
        1 + hash_run(s.drop_first())
    } else {
        0
    }
}

/// The leading `#` marks of `s` number exactly `i`.
pub proof fn lemma_hash_run_at(s: Seq<char>, i: int)
    requires
        0 <= i <= s.len(),
        forall|k: int| 0 <= k < i ==> s[k] == '#',
        i < s.len() ==> s[i] != '#',
    ensures
        hash_run(s) == i,
    decreases i,
{
    if i > 0 {
        let t = s.drop_first();
        assert forall|k: int| 0 <= k < i - 1 implies t[k] == '#' by {
            assert(t[k] == s[k + 1]);
        }
        lemma_hash_run_at(t, i - 1);
    }
}

/// Are two strings equal, character for character?
pub fn str_eq(a: &str, b: &str) -> (r: bool)
    ensures
        r == (a@ == b@),
{
    let n = a.unicode_len();
    let m = b.unicode_len();
    if n != m {
        return false;
    }
    if matches_at(a, 0, b) {
        assert(a@.subrange(0, m as int) =~= a@);
        true
    } else {
        assert(a@ == b@ ==> a@.subrange(0, m as int) == b@);
        false
    }
}

/// Does the tail of `s` beginning at `from` equal `p` exactly?
pub fn tail_matches(s: &str, from: usize, p: &str) -> (r: bool)
    requires
        from <= s@.len(),
    ensures
        r == (s@.skip(from as int) == p@),
{
    let n = s.unicode_len();
    let m = p.unicode_len();
    if n - from != m {
        assert(s@.skip(from as int).len() == n - from);
        return false;
    }
    if matches_at(s, from, p) {
        assert(s@.skip(from as int) =~= s@.subrange(from as int, from + m));
        true
    } else {
        assert(s@.skip(from as int) == p@ ==> s@.subrange(from as int, from + m) == p@);
        false
    }
}

/// Bounds and contents of the leading digit run.
pub proof fn lemma_digit_run_bounds(s: Seq<char>)
    ensures
        0 <= digit_run(s) <= s.len(),
        forall|k: int| 0 <= k < digit_run(s) ==> is_digit_char(s[k]),
        digit_run(s) < s.len() ==> !is_digit_char(s[digit_run(s)]),
    decreases s.len(),
{
    if s.len() > 0 && is_digit_char(s[0]) {
        let t = s.drop_first();
        lemma_digit_run_bounds(t);
        assert forall|k: int| 0 <= k < digit_run(s) implies is_digit_char(s[k]) by {
            if k > 0 {
                assert(t[k - 1] == s[k]);
            }
        }
    }
}

/// The run length of white space starting at `from` in `s`.
pub fn scan_ws(s: &str, from: usize) -> (r: usize)
    requires
        from <= s@.len(),
    ensures
        from + r <= s@.len(),
        r == ws_run(s@.subrange(from as int, s@.len() as int)),
{
    let n = s.unicode_len();
    let mut k: usize = from;
    while k < n && is_whitespace_char(s.get_char(k))
        invariant
            n == s@.len(),
            from <= k <= n,
            forall|j: int| from <= j < k ==> is_ws_char(s@[j]),
        decreases n - k,
    {
        k = k + 1;
    }
    proof {
        let rem = s@.subrange(from as int, n as int);
        assert forall|j: int| 0 <= j < k - from implies is_ws_char(rem[j]) by {
            assert(rem[j] == s@[j + from]);
        }
        if k < n {
            assert(rem[k - from] == s@[k as int]);
        }
        lemma_ws_run_at(rem, k - from);
    }
    k - from
}

proof fn lemma_ws_run_at(s: Seq<char>, i: int)
    requires
        0 <= i <= s.len(),
        forall|k: int| 0 <= k < i ==> is_ws_char(s[k]),
        i < s.len() ==> !is_ws_char(s[i]),
    ensures
        ws_run(s) == i,
    decreases i,
{
    if i > 0 {
        let t = s.drop_first();
        assert forall|k: int| 0 <= k < i - 1 implies is_ws_char(t[k]) by {
            assert(t[k] == s[k + 1]);
        }
        lemma_ws_run_at(t, i - 1);
    }
}

proof fn lemma_word_run_at(s: Seq<char>, i: int)
    requires
        0 <= i <= s.len(),
        forall|k: int| 0 <= k < i ==> is_word_char(s[k]),
        i < s.len() ==> !is_word_char(s[i]),
    ensures
        word_run(s) == i,
    decreases i,
{
    if i > 0 {
        let t = s.drop_first();
        assert forall|k: int| 0 <= k < i - 1 implies is_word_char(t[k]) by {
            assert(t[k] == s[k + 1]);
        }
        lemma_word_run_at(t, i - 1);
    }
}

pub proof fn lemma_digit_run_at(s: Seq<char>, i: int)
    requires
        0 <= i <= s.len(),
        forall|k: int| 0 <= k < i ==> is_digit_char(s[k]),
        i < s.len() ==> !is_digit_char(s[i]),
    ensures
        digit_run(s) == i,
    decreases i,
{
    if i > 0 {
        let t = s.drop_first();
        assert forall|k: int| 0 <= k < i - 1 implies is_digit_char(t[k]) by {
            assert(t[k] == s[k + 1]);
        }
        lemma_digit_run_at(t, i - 1);
    }
}

/// The run length of word characters starting at `from` in `s`.
pub fn scan_word(s: &str, from: usize) -> (r: usize)
    requires
        from <= s@.len(),
    ensures
        from + r <= s@.len(),
        r == word_run(s@.subrange(from as int, s@.len() as int)),
{
    let n = s.unicode_len();
    let mut k: usize = from;
    while k < n && is_word_char_exec(s.get_char(k))
        invariant
            n == s@.len(),
            from <= k <= n,
            forall|j: int| from <= j < k ==> is_word_char(s@[j]),
        decreases n - k,
    {
        k = k + 1;
    }
    proof {
        let rem = s@.subrange(from as int, n as int);
        assert forall|j: int| 0 <= j < k - from implies is_word_char(rem[j]) by {
            assert(rem[j] == s@[j + from]);
        }
        if k < n {
            assert(rem[k - from] == s@[k as int]);
        }
        lemma_word_run_at(rem, k - from);
    }
    k - from
}

/// The run length of decimal digits starting at `from` in `s`.
pub fn scan_digits(s: &str, from: usize) -> (r: usize)
    requires
        from <= s@.len(),
    ensures
        from + r <= s@.len(),
        r == digit_run(s@.subrange(from as int, s@.len() as int)),
{
    let n = s.unicode_len();
    let mut k: usize = from;
    while k < n && is_digit_char_exec(s.get_char(k))
        invariant
            n == s@.len(),
            from <= k <= n,
            forall|j: int| from <= j < k ==> is_digit_char(s@[j]),
        decreases n - k,
    {
        k = k + 1;
    }
    proof {
        let rem = s@.subrange(from as int, n as int);
        assert forall|j: int| 0 <= j < k - from implies is_digit_char(rem[j]) by {
            assert(rem[j] == s@[j + from]);
        }
        if k < n {
            assert(rem[k - from] == s@[k as int]);
        }
        lemma_digit_run_at(rem, k - from);
    }
    k - from
}

} // verus!
