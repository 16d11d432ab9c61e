//! Character-level text utilities shared by the command parsers and the
//! message formatters: whitespace splitting, decimal parsing and printing,
//! joining and concatenation, all stated over `Seq<char>`.
use vstd::prelude::*;

verus! {

// ---------------------------------------------------------------------------
// Whitespace and words
// ---------------------------------------------------------------------------

/// Whether `c` has the Unicode `White_Space` property, which is the set of
/// characters that `char::is_whitespace` accepts.
pub open spec fn is_ws(c: char) -> bool {
    ||| ('\u{9}' <= c && c <= '\u{d}')
    ||| c == ' '
    ||| c == '\u{85}'
    ||| c == '\u{a0}'
    ||| c == '\u{1680}'
    ||| ('\u{2000}' <= c && c <= '\u{200a}')
    ||| c == '\u{2028}'
    ||| c == '\u{2029}'
    ||| c == '\u{202f}'
    ||| c == '\u{205f}'
    ||| c == '\u{3000}'
}

/// Decides [`is_ws`].
pub fn is_whitespace(c: char) -> (r: bool)
    ensures
        r == is_ws(c),
{
    ('\u{9}' <= c && c <= '\u{d}') || c == ' ' || c == '\u{85}' || c == '\u{a0}' || c == '\u{1680}'
        || ('\u{2000}' <= c && c <= '\u{200a}') || c == '\u{2028}' || c == '\u{2029}' || c
        == '\u{202f}' || c == '\u{205f}' || c == '\u{3000}'
}

/// Length of the run of non-whitespace characters that starts `s`.
pub open spec fn word_len(s: Seq<char>) -> nat
    decreases s.len(),
{
    if s.len() == 0 || is_ws(s[0]) {
        0
    } else {
        1 + word_len(s.drop_first())
    }
}

pub proof fn lemma_word_len_bounds(s: Seq<char>)
    ensures
        word_len(s) <= s.len(),
        s.len() > 0 && !is_ws(s[0]) ==> word_len(s) >= 1,
    decreases s.len(),
{
    if s.len() > 0 && !is_ws(s[0]) {
        lemma_word_len_bounds(s.drop_first());
    }
}

/// The maximal runs of non-whitespace characters of `s`, in order: what
/// `str::split_whitespace` yields.
pub open spec fn words(s: Seq<char>) -> Seq<Seq<char>>
    decreases s.len(),
{
    if s.len() == 0 {
        seq![]
    } else if is_ws(s[0]) {
        words(s.drop_first())
    } else {
        proof {
            lemma_word_len_bounds(s);
        }
        let n = word_len(s);
        seq![s.take(n as int)] + words(s.skip(n as int))
    }
}

/// The views of a sequence of strings.
pub open spec fn strs_view(v: Seq<String>) -> Seq<Seq<char>> {
    v.map_values(|t: String| t@)
}

proof fn lemma_word_len_run(s: Seq<char>, m: nat)
    requires
        m <= s.len(),
        forall|k: int| 0 <= k < m ==> !is_ws(#[trigger] s[k]),
        m == s.len() || is_ws(s[m as int]),
    ensures
        word_len(s) == m,
    decreases m,
{
    if m > 0 {
        let t = s.drop_first();
        assert forall|k: int| 0 <= k < m - 1 implies !is_ws(#[trigger] t[k]) by {
            assert(t[k] == s[k + 1]);
        }
        if m < s.len() {
            assert(t[m - 1] == s[m as int]);
        }
        lemma_word_len_run(t, (m - 1) as nat);
    }
}

/// The characters of `s`, in order.
pub fn chars_of(s: &str) -> (v: Vec<char>)
    ensures
        v@ == s@,
{
    let mut v: Vec<char> = Vec::new();
    for c in it: s.chars()
        invariant
            v@ == it.seq().take(it.index() as int),
            it.seq() == s@,
    {
        v.push(c);
    }
    v
}

/// Appends the character `c` to `s` (`String::push`).
#[verifier::external_body]
pub(crate) fn push_char(s: &mut String, c: char)
    ensures
        final(s)@ == old(s)@.push(c),
{
    s.push(c);
}

/// Takes the last character off `s` (`String::pop`): nothing when `s` is
/// empty.
#[verifier::external_body]
pub(crate) fn pop_char(s: &mut String) -> (r: Option<char>)
    ensures
        old(s)@.len() == 0 ==> r is None && final(s)@ == old(s)@,
        old(s)@.len() > 0 ==> r == Some(old(s)@.last()) && final(s)@ == old(s)@.drop_last(),
{
    s.pop()
}

/// Whether two strings hold the same characters.
pub(crate) fn str_eq(a: &str, b: &str) -> (r: bool)
    ensures
        r == (a@ == b@),
{
    let x = chars_of(a);
    let y = chars_of(b);
    if x.len() != y.len() {
        return false;
    }
    let mut i: usize = 0;
    while i < x.len()
        invariant
            i <= x@.len(),
            x@.len() == y@.len(),
            x@ == a@,
            y@ == b@,
            forall|j: int| 0 <= j < i ==> x@[j] == y@[j],
        decreases x@.len() - i,
    {
        if x[i] != y[i] {
            return false;
        }
        i = i + 1;
    }
    proof {
        assert(x@ =~= y@);
    }
    true
}

/// The whitespace-separated words of `s`, as `str::split_whitespace` yields
/// them.
pub fn split_words(s: &str) -> (r: Vec<String>)
    ensures
        strs_view(r@) == words(s@),
{
    let c = chars_of(s);
    let n = c.len();
    let mut out: Vec<String> = Vec::new();
    let mut i: usize = 0;
    proof {
        assert(c@.skip(0) =~= c@);
        assert(strs_view(out@) =~= seq![]);
    }
    while i < n
        invariant
            n == c@.len(),
            c@ == s@,
            i <= n,
            words(c@) == strs_view(out@) + words(c@.skip(i as int)),
        decreases n - i,
    {
        if is_whitespace(c[i]) {
            proof {
                let t = c@.skip(i as int);
                assert(t.drop_first() =~= c@.skip(i + 1));
                assert(words(t) == words(t.drop_first()));
            }
            i = i + 1;
        } else {
            let mut cur = String::new();
            let mut j: usize = i;
            while j < n && !is_whitespace(c[j])
                invariant
                    n == c@.len(),
                    i <= j <= n,
                    cur@ == c@.subrange(i as int, j as int),
                    forall|k: int| i <= k < j ==> !is_ws(#[trigger] c@[k]),
                decreases n - j,
            {
                push_char(&mut cur, c[j]);
                proof {
                    assert(cur@ =~= c@.subrange(i as int, j + 1));
                }
                j = j + 1;
            }
            proof {
                let t = c@.skip(i as int);
                let m = (j - i) as nat;
                assert forall|k: int| 0 <= k < m implies !is_ws(#[trigger] t[k]) by {
                    assert(t[k] == c@[i + k]);
                }
                if m < t.len() {
                    assert(t[m as int] == c@[j as int]);
                }
                lemma_word_len_run(t, m);
                assert(t.take(m as int) =~= c@.subrange(i as int, j as int));
                assert(t.skip(m as int) =~= c@.skip(j as int));
                assert(!is_ws(t[0]));
                assert(words(t) == seq![t.take(m as int)] + words(t.skip(m as int)));
            }
            let ghost before = out@;
            out.push(cur);
            proof {
                assert(strs_view(out@) =~= strs_view(before).push(c@.subrange(i as int, j as int)));
                assert(strs_view(before) + words(c@.skip(i as int)) =~= strs_view(out@) + words(
                    c@.skip(j as int),
                ));
            }
            i = j;
        }
    }
    proof {
        assert(c@.skip(n as int) =~= seq![]);
        assert(words(c@.skip(n as int)) =~= seq![]);
        assert(strs_view(out@) + seq![] =~= strs_view(out@));
    }
    out
}

// ---------------------------------------------------------------------------
// Joining and concatenation
// ---------------------------------------------------------------------------

/// The strings of `ws` with `sep` between neighbours (`[T]::join`).
pub open spec fn join(ws: Seq<Seq<char>>, sep: Seq<char>) -> Seq<char>
    decreases ws.len(),
{
    if ws.len() == 0 {
        seq![]
    } else if ws.len() == 1 {
        ws[0]
    } else {
        join(ws.drop_last(), sep) + sep + ws.last()
    }
}

/// `parts[from..].join(sep)`.
pub fn join_from(parts: &Vec<String>, from: usize, sep: &str) -> (r: String)
    requires
        from <= parts@.len(),
    ensures
        r@ == join(strs_view(parts@).skip(from as int), sep@),
{
    let mut r = String::new();
    let mut i = from;
    let ghost v = strs_view(parts@);
    proof {
        assert(v.skip(from as int).take(0) =~= seq![]);
    }
    while i < parts.len()
        invariant
            from <= i <= parts@.len(),
            v == strs_view(parts@),
            r@ == join(v.skip(from as int).take(i - from), sep@),
        decreases parts@.len() - i,
    {
        let ghost w = v.skip(from as int).take(i + 1 - from);
        proof {
            assert(w.drop_last() =~= v.skip(from as int).take(i - from));
            assert(w.last() == parts@[i as int]@);
        }
        if i > from {
            r.append(sep);
        }
        r.append(parts[i].as_str());
        i = i + 1;
    }
    proof {
        assert(v.skip(from as int).take(parts@.len() - from) =~= v.skip(from as int));
    }
    r
}

/// A new string holding `a` followed by `b`.
pub fn concat(a: &str, b: &str) -> (r: String)
    ensures
        r@ == a@ + b@,
{
    let mut r = String::from_str(a);
    r.append(b);
    r
}

// ---------------------------------------------------------------------------
// Decimal numbers
// ---------------------------------------------------------------------------

pub open spec fn is_digit(c: char) -> bool {
    '0' <= c && c <= '9'
}

pub open spec fn digit_value(c: char) -> nat {
    (c as int - '0' as int) as nat
}

pub open spec fn digit_char(d: nat) -> char {
    (d + '0' as int) as char
}

pub open spec fn all_digits(s: Seq<char>) -> bool {
    forall|i: int| 0 <= i < s.len() ==> is_digit(#[trigger] s[i])
}

/// The value of a string of decimal digits.
pub open spec fn digits_value(s: Seq<char>) -> nat
    decreases s.len(),
{
    if s.len() == 0 {
        0
    } else {
        digits_value(s.drop_last()) * 10 + digit_value(s.last())
    }
}

/// What follows an optional leading `+`.
pub open spec fn unsigned_body(s: Seq<char>) -> Seq<char> {
    if s.len() > 0 && s[0] == '+' {
        s.drop_first()
    } else {
        s
    }
}

/// The value that `str::parse` gives an unsigned integer type before the
/// range check: an optional `+` followed by at least one decimal digit.
pub open spec fn parse_nat(s: Seq<char>) -> Option<nat> {
    let b = unsigned_body(s);
    if b.len() > 0 && all_digits(b) {
        Some(digits_value(b))
    } else {
        None
    }
}

/// What `str::parse::<u32>` gives, `Ok` as `Some`.
pub open spec fn parse_u32_spec(s: Seq<char>) -> Option<u32> {
    match parse_nat(s) {
        Some(v) => if v <= u32::MAX {
            Some(v as u32)
        } else {
            None
        },
        None => None,
    }
}

/// What `str::parse::<usize>` gives, `Ok` as `Some`.
pub open spec fn parse_usize_spec(s: Seq<char>) -> Option<usize> {
    match parse_nat(s) {
        Some(v) => if v <= usize::MAX {
            Some(v as usize)
        } else {
            None
        },
        None => None,
    }
}

/// What `str::parse::<i32>` gives, `Ok` as `Some`: an optional sign and at
/// least one decimal digit, in range.
pub open spec fn parse_i32_spec(s: Seq<char>) -> Option<i32> {
    if s.len() > 0 && s[0] == '-' {
        let b = s.drop_first();
        if b.len() > 0 && all_digits(b) && digits_value(b) <= 2147483648 {
            Some((-(digits_value(b) as int)) as i32)
        } else {
            None
        }
    } else {
        match parse_nat(s) {
            Some(v) => if v <= i32::MAX {
                Some(v as i32)
            } else {
                None
            },
            None => None,
        }
    }
}

proof fn lemma_digits_prefix_le(s: Seq<char>, k: int)
    requires
        0 <= k <= s.len(),
    ensures
        digits_value(s.take(k)) <= digits_value(s),
    decreases s.len(),
{
    if k < s.len() {
        assert(s.drop_last().take(k) =~= s.take(k));
        lemma_digits_prefix_le(s.drop_last(), k);
    } else {
        assert(s.take(k) =~= s);
    }
}

/// The value of the digits `c[start..]` when they are all decimal digits, at
/// least one, and the value is at most `bound`; `None` otherwise.
fn digits_bounded(c: &Vec<char>, start: usize, bound: u128) -> (r: Option<u128>)
    requires
        start <= c@.len(),
        bound <= u64::MAX,
    ensures
        match r {
            Some(v) => {
                let b = c@.skip(start as int);
                &&& b.len() > 0
                &&& all_digits(b)
                &&& v == digits_value(b)
                &&& v <= bound
            },
            None => {
                let b = c@.skip(start as int);
                !(b.len() > 0 && all_digits(b) && digits_value(b) <= bound)
            },
        },
{
    let n = c.len();
    if start >= n {
        return None;
    }
    let mut acc: u128 = 0;
    let mut i = start;
    let ghost b = c@.skip(start as int);
    proof {
        assert(b.take(0) =~= seq![]);
    }
    while i < n
        invariant
            n == c@.len(),
            start <= i <= n,
            b == c@.skip(start as int),
            all_digits(b.take(i - start)),
            acc == digits_value(b.take(i - start)),
            acc <= bound,
            bound <= u64::MAX,
        decreases n - i,
    {
        let ch = c[i];
        if !('0' <= ch && ch <= '9') {
            proof {
                assert(b[i - start] == ch);
            }
            return None;
        }
        let d = (ch as u32 - '0' as u32) as u128;
        proof {
            let p = b.take(i + 1 - start);
            assert(p.drop_last() =~= b.take(i - start));
            assert(p.last() == ch);
            assert(digits_value(p) == acc * 10 + d);
        }
        let next = acc * 10 + d;
        if next > bound {
            proof {
                lemma_digits_prefix_le(b, i + 1 - start);
            }
            return None;
        }
        acc = next;
        i = i + 1;
    }
    proof {
        assert(b.take(n - start) =~= b);
    }
    Some(acc)
}

/// `s.parse::<u32>().ok()`.
pub fn parse_u32(s: &str) -> (r: Option<u32>)
    ensures
        r == parse_u32_spec(s@),
{
    let c = chars_of(s);
    let start: usize = if c.len() > 0 && c[0] == '+' { 1 } else { 0 };
    proof {
        if start == 1 {
            assert(c@.skip(1) =~= c@.drop_first());
        } else {
            assert(c@.skip(0) =~= c@);
        }
    }
    match digits_bounded(&c, start, u32::MAX as u128) {
        Some(v) => Some(v as u32),
        None => None,
    }
}

/// `s.parse::<usize>().ok()`.
pub fn parse_usize(s: &str) -> (r: Option<usize>)
    ensures
        r == parse_usize_spec(s@),
{
    let c = chars_of(s);
    let start: usize = if c.len() > 0 && c[0] == '+' { 1 } else { 0 };
    proof {
        if start == 1 {
            assert(c@.skip(1) =~= c@.drop_first());
        } else {
            assert(c@.skip(0) =~= c@);
        }
    }
    match digits_bounded(&c, start, usize::MAX as u128) {
        Some(v) => Some(v as usize),
        None => None,
    }
}

/// `s.parse::<i32>().ok()`.
pub fn parse_i32(s: &str) -> (r: Option<i32>)
    ensures
        r == parse_i32_spec(s@),
{
    let c = chars_of(s);
    if c.len() > 0 && c[0] == '-' {
        proof {
            assert(c@.skip(1) =~= c@.drop_first());
        }
        match digits_bounded(&c, 1, 2147483648) {
            Some(v) => {
                let neg: i64 = 0 - (v as i64);
                Some(neg as i32)
            },
            None => None,
        }
    } else {
        let start: usize = if c.len() > 0 && c[0] == '+' { 1 } else { 0 };
        proof {
            if start == 1 {
                assert(c@.skip(1) =~= c@.drop_first());
            } else {
                assert(c@.skip(0) =~= c@);
            }
        }
        match digits_bounded(&c, start, 2147483647) {
            Some(v) => Some(v as i32),
            None => None,
        }
    }
}

/// The shortest decimal representation of `n` (`format!("{}", n)`).
pub open spec fn decimal(n: nat) -> Seq<char>
    decreases n,
{
    if n < 10 {
        seq![digit_char(n)]
    } else {
        decimal(n / 10).push(digit_char(n % 10))
    }
}

/// The decimal representation of a signed number (`format!("{}", n)`).
pub open spec fn signed_decimal(n: int) -> Seq<char> {
    if n < 0 {
        seq!['-'] + decimal((-n) as nat)
    } else {
        decimal(n as nat)
    }
}

/// `format!("{:02}", n)`: the decimal representation, padded with a leading
/// zero to two characters.
pub open spec fn pad2(n: nat) -> Seq<char> {
    if n < 10 {
        seq!['0'] + decimal(n)
    } else {
        decimal(n)
    }
}

fn digit_to_char(d: u64) -> (c: char)
    requires
        d < 10,
    ensures
        c == digit_char(d as nat),
{
    let b: u8 = ('0' as u8) + (d as u8);
    b as char
}

/// Appends the decimal representation of `n` to `s`.
pub fn push_decimal(s: &mut String, n: u64)
    ensures
        final(s)@ == old(s)@ + decimal(n as nat),
    decreases n,
{
    if n >= 10 {
        push_decimal(s, n / 10);
    }
    push_char(s, digit_to_char(n % 10));
    proof {
        if n >= 10 {
            assert(old(s)@ + decimal((n / 10) as nat) + seq![digit_char((n % 10) as nat)] =~= old(s)@
                + decimal(n as nat));
        } else {
            assert(old(s)@.push(digit_char(n as nat)) =~= old(s)@ + decimal(n as nat));
        }
    }
}

/// Appends the decimal representation of the signed number `n` to `s`.
pub fn push_signed(s: &mut String, n: i64)
    ensures
        final(s)@ == old(s)@ + signed_decimal(n as int),
{
    if n < 0 {
        push_char(s, '-');
        let m: u64 = if n == i64::MIN { 9223372036854775808u64 } else { (-n) as u64 };
        push_decimal(s, m);
        proof {
            assert(old(s)@.push('-') + decimal(m as nat) =~= old(s)@ + (seq!['-'] + decimal(m as nat)));
        }
    } else {
        push_decimal(s, n as u64);
    }
}

/// Appends `format!("{:02}", n)` to `s`.
pub fn push_pad2(s: &mut String, n: u64)
    ensures
        final(s)@ == old(s)@ + pad2(n as nat),
{
    if n < 10 {
        push_char(s, '0');
        push_decimal(s, n);
        proof {
            assert(old(s)@.push('0') + decimal(n as nat) =~= old(s)@ + (seq!['0'] + decimal(n as nat)));
        }
    } else {
        push_decimal(s, n);
    }
}

/// `n.to_string()`.
pub fn decimal_string(n: u64) -> (r: String)
    ensures
        r@ == decimal(n as nat),
{
    let mut r = String::new();
    push_decimal(&mut r, n);
    proof {
        assert(Seq::<char>::empty() + decimal(n as nat) =~= decimal(n as nat));
    }
    r
}

/// `n.to_string()` for a signed number.
pub fn signed_string(n: i64) -> (r: String)
    ensures
        r@ == signed_decimal(n as int),
{
    let mut r = String::new();
    push_signed(&mut r, n);
    proof {
        assert(Seq::<char>::empty() + signed_decimal(n as int) =~= signed_decimal(n as int));
    }
    r
}

/// What `str::parse::<u8>` gives, `Ok` as `Some`.
pub open spec fn parse_u8_spec(s: Seq<char>) -> Option<u8> {
    match parse_nat(s) {
        Some(v) => if v <= u8::MAX {
            Some(v as u8)
        } else {
            None
        },
        None => None,
    }
}

/// `s.parse::<u8>().ok()`.
pub fn parse_u8(s: &str) -> (r: Option<u8>)
    ensures
        r == parse_u8_spec(s@),
{
    let c = chars_of(s);
    let start: usize = if c.len() > 0 && c[0] == '+' { 1 } else { 0 };
    proof {
        if start == 1 {
            assert(c@.skip(1) =~= c@.drop_first());
        } else {
            assert(c@.skip(0) =~= c@);
        }
    }
    match digits_bounded(&c, start, u8::MAX as u128) {
        Some(v) => Some(v as u8),
        None => None,
    }
}

/// `parts[from..to].join(sep)`.
pub fn join_range(parts: &Vec<String>, from: usize, to: usize, sep: &str) -> (r: String)
    requires
        from <= to <= parts@.len(),
    ensures
        r@ == join(strs_view(parts@).subrange(from as int, to as int), sep@),
{
    let mut r = String::new();
    let mut i = from;
    let ghost v = strs_view(parts@).subrange(from as int, to as int);
    proof {
        assert(v.take(0) =~= seq![]);
    }
    while i < to
        invariant
            from <= i <= to,
            to <= parts@.len(),
            v == strs_view(parts@).subrange(from as int, to as int),
            r@ == join(v.take(i - from), sep@),
        decreases to - i,
    {
        let ghost w = v.take(i + 1 - from);
        proof {
            assert(w.drop_last() =~= v.take(i - from));
            assert(w.last() == parts@[i as int]@);
        }
        if i > from {
            r.append(sep);
        }
        r.append(parts[i].as_str());
        i = i + 1;
    }
    proof {
        assert(v.take(to - from) =~= v);
    }
    r
}

/// A name for what `str::to_lowercase` returns for the characters `s`: the
/// full Unicode lowercase mapping, which takes tables to state.
pub uninterp spec fn lowercase(s: Seq<char>) -> Seq<char>;

/// `s.to_lowercase()`: the string's Unicode lowercase form. The contract
/// names the result and says nothing more of it.
#[verifier::external_body]
pub(crate) fn to_lowercase(s: &str) -> (r: String)
    ensures
        r@ == lowercase(s@),
{
    s.to_lowercase()
}

/// A new string holding the characters `c[from..to]`.
pub fn string_of(c: &Vec<char>, from: usize, to: usize) -> (r: String)
    requires
        from <= to <= c@.len(),
    ensures
        r@ == c@.subrange(from as int, to as int),
{
    let mut r = String::new();
    let mut i = from;
    while i < to
        invariant
            from <= i <= to,
            to <= c@.len(),
            r@ == c@.subrange(from as int, i as int),
        decreases to - i,
    {
        push_char(&mut r, c[i]);
        proof {
            assert(r@ =~= c@.subrange(from as int, i + 1));
        }
        i = i + 1;
    }
    r
}

/// `needle` occurs in `hay` as a run of consecutive characters.
pub open spec fn occurs_in(hay: Seq<char>, needle: Seq<char>) -> bool {
    exists|i: int| 0 <= i && i + needle.len() <= hay.len() && #[trigger] hay.subrange(i, i + needle.len()) == needle
}

/// `hay.contains(needle)`.
pub fn contains_text(hay: &str, needle: &str) -> (r: bool)
    ensures
        r == occurs_in(hay@, needle@),
{
    let h = chars_of(hay);
    let n = chars_of(needle);
    if n.len() > h.len() {
        proof {
            assert forall|i: int| 0 <= i && i + n@.len() <= h@.len() implies #[trigger] h@.subrange(
                i,
                i + n@.len(),
            ) != n@ by {}
        }
        return false;
    }
    let last = h.len() - n.len();
    let mut i: usize = 0;
    proof {
        assert(h@.len() == h.len());
    }
    loop
        invariant
            h@ == hay@,
            n@ == needle@,
            last == h@.len() - n@.len(),
            h@.len() == last + n@.len(),
            h@.len() <= usize::MAX,
            i <= last,
            forall|k: int| 0 <= k < i ==> #[trigger] h@.subrange(k, k + n@.len()) != n@,
        ensures
            !occurs_in(hay@, needle@),
        decreases last - i,
    {
        let mut j: usize = 0;
        let mut same = true;
        while j < n.len()
            invariant
                h@ == hay@,
                n@ == needle@,
                i <= last,
                h@.len() == last + n@.len(),
                h@.len() <= usize::MAX,
                j <= n@.len(),
                same == (forall|t: int| 0 <= t < j ==> h@[i + t] == n@[t]),
            decreases n@.len() - j,
        {
            if h[i + j] != n[j] {
                same = false;
            }
            j = j + 1;
        }
        if same {
            proof {
                assert(h@.subrange(i as int, i + n@.len()) =~= n@);
            }
            return true;
        }
        proof {
            let t = choose|t: int| 0 <= t < n@.len() && h@[i + t] != n@[t];
            assert(h@.subrange(i as int, i + n@.len())[t] != n@[t]);
        }
        if i == last {
            break;
        }
        i = i + 1;
    }
    false
}

/// The pieces of `s` between the occurrences of `sep`
/// (`str::split(sep)`): one more piece than there are separators, empty
/// pieces included.
pub open spec fn split_on(s: Seq<char>, sep: char) -> Seq<Seq<char>>
    decreases s.len(),
{
    if s.len() == 0 {
        seq![Seq::<char>::empty()]
    } else {
        let prev = split_on(s.drop_last(), sep);
        if s.last() == sep {
            prev.push(Seq::empty())
        } else {
            prev.update(prev.len() - 1, prev.last().push(s.last()))
        }
    }
}

proof fn lemma_split_on_nonempty(s: Seq<char>, sep: char)
    ensures
        split_on(s, sep).len() >= 1,
    decreases s.len(),
{
    if s.len() > 0 {
        lemma_split_on_nonempty(s.drop_last(), sep);
    }
}

/// `s.split(sep)`, each piece a string.
pub fn split_on_char(s: &str, sep: char) -> (r: Vec<String>)
    ensures
        strs_view(r@) == split_on(s@, sep),
{
    let c = chars_of(s);
    let mut pieces: Vec<String> = Vec::new();
    let mut cur = String::new();
    let mut i: usize = 0;
    proof {
        assert(c@.take(0) =~= Seq::<char>::empty());
        assert(strs_view(pieces@).push(cur@) =~= split_on(c@.take(0), sep));
    }
    while i < c.len()
        invariant
            c@ == s@,
            i <= c@.len(),
            strs_view(pieces@).push(cur@) == split_on(c@.take(i as int), sep),
        decreases c@.len() - i,
    {
        let ch = c[i];
        let ghost pre = c@.take(i + 1);
        proof {
            assert(pre.drop_last() =~= c@.take(i as int));
            assert(pre.last() == ch);
            lemma_split_on_nonempty(c@.take(i as int), sep);
        }
        if ch == sep {
            let ghost before = pieces@;
            let done = cur;
            pieces.push(done);
            cur = String::new();
            proof {
                assert(strs_view(pieces@) =~= strs_view(before).push(done@));
                assert(strs_view(pieces@).push(cur@) =~= split_on(pre, sep));
            }
        } else {
            let ghost old_cur = cur@;
            push_char(&mut cur, ch);
            proof {
                assert(strs_view(pieces@).push(cur@) =~= split_on(pre, sep));
            }
        }
        i = i + 1;
    }
    let ghost before = pieces@;
    let last = cur;
    pieces.push(last);
    proof {
        assert(c@.take(c@.len() as int) =~= c@);
        assert(strs_view(pieces@) =~= strs_view(before).push(last@));
    }
    pieces
}

/// `s` without its leading whitespace.
pub open spec fn trim_start(s: Seq<char>) -> Seq<char>
    decreases s.len(),
{
    if s.len() > 0 && is_ws(s[0]) {
        trim_start(s.drop_first())
    } else {
        s
    }
}

/// `s` without its trailing whitespace.
pub open spec fn trim_end(s: Seq<char>) -> Seq<char>
    decreases s.len(),
{
    if s.len() > 0 && is_ws(s.last()) {
        trim_end(s.drop_last())
    } else {
        s
    }
}

/// `s` without its leading and trailing whitespace (`str::trim`).
pub open spec fn trim(s: Seq<char>) -> Seq<char> {
    trim_end(trim_start(s))
}

proof fn lemma_trim_start_skip(s: Seq<char>, k: int)
    requires
        0 <= k <= s.len(),
        forall|j: int| 0 <= j < k ==> is_ws(#[trigger] s[j]),
        k == s.len() || !is_ws(s[k]),
    ensures
        trim_start(s) == s.skip(k),
    decreases k,
{
    if k == 0 {
        assert(s.skip(0) =~= s);
    } else {
        let t = s.drop_first();
        assert forall|j: int| 0 <= j < k - 1 implies is_ws(#[trigger] t[j]) by {
            assert(t[j] == s[j + 1]);
        }
        if k < s.len() {
            assert(t[k - 1] == s[k]);
        }
        lemma_trim_start_skip(t, k - 1);
        assert(t.skip(k - 1) =~= s.skip(k));
    }
}

proof fn lemma_trim_end_take(s: Seq<char>, k: int)
    requires
        0 <= k <= s.len(),
        forall|j: int| k <= j < s.len() ==> is_ws(#[trigger] s[j]),
        k == 0 || !is_ws(s[k - 1]),
    ensures
        trim_end(s) == s.take(k),
    decreases s.len() - k,
{
    if k == s.len() {
        assert(s.take(k) =~= s);
    } else {
        let t = s.drop_last();
        assert forall|j: int| k <= j < t.len() implies is_ws(#[trigger] t[j]) by {
            assert(t[j] == s[j]);
        }
        if k > 0 {
            assert(t[k - 1] == s[k - 1]);
        }
        lemma_trim_end_take(t, k);
        assert(t.take(k) =~= s.take(k));
    }
}

/// `s.trim()`.
pub fn trim_text(s: &str) -> (r: String)
    ensures
        r@ == trim(s@),
{
    let c = chars_of(s);
    let n = c.len();
    let mut a: usize = 0;
    while a < n && is_whitespace(c[a])
        invariant
            c@ == s@,
            n == c@.len(),
            a <= n,
            forall|j: int| 0 <= j < a ==> is_ws(#[trigger] c@[j]),
        decreases n - a,
    {
        a = a + 1;
    }
    proof {
        lemma_trim_start_skip(c@, a as int);
    }
    let mut b: usize = n;
    while b > a && is_whitespace(c[b - 1])
        invariant
            c@ == s@,
            n == c@.len(),
            a <= b <= n,
            forall|j: int| b <= j < n ==> is_ws(#[trigger] c@[j]),
        decreases b - a,
    {
        b = b - 1;
    }
    proof {
        let t = c@.skip(a as int);
        let k = b - a;
        assert forall|j: int| k <= j < t.len() implies is_ws(#[trigger] t[j]) by {
            assert(t[j] == c@[a + j]);
        }
        if k > 0 {
            assert(t[k - 1] == c@[b - 1]);
        }
        lemma_trim_end_take(t, k as int);
        assert(t.take(k as int) =~= c@.subrange(a as int, b as int));
    }
    string_of(&c, a, b)
}

/// The position of the first occurrence of `needle` in `hay`
/// (`str::find`, counted in characters).
pub open spec fn first_occurrence(hay: Seq<char>, needle: Seq<char>) -> Option<int> {
    if occurs_in(hay, needle) {
        Some(
            choose|i: int|
                0 <= i && i + needle.len() <= hay.len() && #[trigger] hay.subrange(i, i + needle.len()) == needle
                    && forall|j: int|
                    0 <= j < i ==> #[trigger] hay.subrange(j, j + needle.len()) != needle,
        )
    } else {
        None
    }
}

/// The first occurrence of `n` in `h` at or after `from`, in characters.
fn find_from(h: &Vec<char>, n: &Vec<char>) -> (r: Option<usize>)
    ensures
        match r {
            Some(i) => i + n@.len() <= h@.len() && h@.subrange(i as int, i + n@.len()) == n@ && forall|j: int|
                0 <= j < i ==> #[trigger] h@.subrange(j, j + n@.len()) != n@,
            None => forall|j: int|
                0 <= j && j + n@.len() <= h@.len() ==> #[trigger] h@.subrange(j, j + n@.len()) != n@,
        },
{
    if n.len() > h.len() {
        return None;
    }
    let last = h.len() - n.len();
    let mut i: usize = 0;
    proof {
        assert(h@.len() == h.len());
    }
    loop
        invariant
            last == h@.len() - n@.len(),
            h@.len() == last + n@.len(),
            h@.len() <= usize::MAX,
            i <= last,
            forall|k: int| 0 <= k < i ==> #[trigger] h@.subrange(k, k + n@.len()) != n@,
        ensures
            forall|j: int| 0 <= j && j + n@.len() <= h@.len() ==> #[trigger] h@.subrange(j, j + n@.len()) != n@,
        decreases last - i,
    {
        let mut j: usize = 0;
        let mut same = true;
        while j < n.len()
            invariant
                i <= last,
                h@.len() == last + n@.len(),
                h@.len() <= usize::MAX,
                j <= n@.len(),
                same == (forall|t: int| 0 <= t < j ==> h@[i + t] == n@[t]),
            decreases n@.len() - j,
        {
            if h[i + j] != n[j] {
                same = false;
            }
            j = j + 1;
        }
        if same {
            proof {
                assert(h@.subrange(i as int, i + n@.len()) =~= n@);
            }
            return Some(i);
        }
        proof {
            let t = choose|t: int| 0 <= t < n@.len() && h@[i + t] != n@[t];
            assert(h@.subrange(i as int, i + n@.len())[t] != n@[t]);
        }
        if i == last {
            break;
        }
        i = i + 1;
    }
    None
}

/// `hay.find(needle)`, counted in characters, with the characters of
/// `hay` given.
pub fn find_text(h: &Vec<char>, needle: &str) -> (r: Option<usize>)
    ensures
        match r {
            Some(i) => first_occurrence(h@, needle@) == Some(i as int) && i + needle@.len() <= h@.len()
                && h@.subrange(i as int, i + needle@.len()) == needle@,
            None => first_occurrence(h@, needle@) is None,
        },
{
    let n = chars_of(needle);
    let r = find_from(h, &n);
    proof {
        match r {
            Some(i) => {
                assert(occurs_in(h@, n@));
                let c = choose|c: int|
                    0 <= c && c + n@.len() <= h@.len() && #[trigger] h@.subrange(c, c + n@.len()) == n@ && forall|j: int|
                        0 <= j < c ==> #[trigger] h@.subrange(j, j + n@.len()) != n@;
                if c < i {
                    assert(h@.subrange(c, c + n@.len()) != n@);
                }
                if c > i {
                    assert(h@.subrange(i as int, i + n@.len()) != n@);
                }
            },
            None => {
                if occurs_in(h@, n@) {
                    let c = choose|c: int| 0 <= c && c + n@.len() <= h@.len() && #[trigger] h@.subrange(c, c + n@.len()) == n@;
                    assert(h@.subrange(c, c + n@.len()) != n@);
                }
            },
        }
    }
    r
}

} // verus!
