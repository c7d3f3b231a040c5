//! Verified text helpers: decimal rendering, trimming, splitting, substring
//! search and number parsing, each stated over character or byte sequences.

use vstd::prelude::*;
use vstd::string::StringSliceAdditionalSpecFns;

verus! {

// ---------------------------------------------------------------------------
// Characters
// ---------------------------------------------------------------------------

/// ASCII whitespace, the only whitespace that occurs in the files this
/// library reads.
pub open spec fn is_space_char(c: char) -> bool {
    c == ' ' || c == '\t' || c == '\n' || c == '\r' || c == '\u{b}' || c == '\u{c}'
}

pub fn is_space(c: char) -> (r: bool)
    ensures
        r == is_space_char(c),
{
    c == ' ' || c == '\t' || c == '\n' || c == '\r' || c == '\u{b}' || c == '\u{c}'
}

pub open spec fn is_digit_char(c: char) -> bool {
    ||| c == '0'
    ||| c == '1'
    ||| c == '2'
    ||| c == '3'
    ||| c == '4'
    ||| c == '5'
    ||| c == '6'
    ||| c == '7'
    ||| c == '8'
    ||| c == '9'
}

/// Value of a decimal digit; any other character counts as zero.
pub open spec fn digit_val(c: char) -> nat {
    if c == '1' {
        1
    } else if c == '2' {
        2
    } else if c == '3' {
        3
    } else if c == '4' {
        4
    } else if c == '5' {
        5
    } else if c == '6' {
        6
    } else if c == '7' {
        7
    } else if c == '8' {
        8
    } else if c == '9' {
        9
    } else {
        0
    }
}

pub open spec fn digit_char(d: nat) -> char {
    if d == 1 {
        '1'
    } else if d == 2 {
        '2'
    } else if d == 3 {
        '3'
    } else if d == 4 {
        '4'
    } else if d == 5 {
        '5'
    } else if d == 6 {
        '6'
    } else if d == 7 {
        '7'
    } else if d == 8 {
        '8'
    } else if d == 9 {
        '9'
    } else {
        '0'
    }
}

// ---------------------------------------------------------------------------
// Decimal rendering
// ---------------------------------------------------------------------------

/// The decimal numeral of `n`, most significant digit first.
pub open spec fn dec_digits(n: nat) -> Seq<char>
    decreases n,
{
    if n < 10 {
        seq![digit_char(n)]
    } else {
        dec_digits(n / 10).push(digit_char(n % 10))
    }
}

fn digit_str(d: u64) -> (s: &'static str)
    requires
        d < 10,
    ensures
        s@ == seq![digit_char(d as nat)],
{
    proof {
        reveal_strlit("0");
        reveal_strlit("1");
        reveal_strlit("2");
        reveal_strlit("3");
        reveal_strlit("4");
        reveal_strlit("5");
        reveal_strlit("6");
        reveal_strlit("7");
        reveal_strlit("8");
        reveal_strlit("9");
    }
    let s: &'static str = if d == 0 {
        "0"
    } else if d == 1 {
        "1"
    } else if d == 2 {
        "2"
    } else if d == 3 {
        "3"
    } else if d == 4 {
        "4"
    } else if d == 5 {
        "5"
    } else if d == 6 {
        "6"
    } else if d == 7 {
        "7"
    } else if d == 8 {
        "8"
    } else {
        "9"
    };
    proof {
        assert(s@ =~= seq![digit_char(d as nat)]);
    }
    s
}

/// Renders `n` in decimal.
pub fn u64_to_string(n: u64) -> (s: String)
    ensures
        s@ == dec_digits(n as nat),
    decreases n,
{
    if n < 10 {
        let s = String::from_str(digit_str(n));
        proof {
            assert(s@ =~= dec_digits(n as nat));
        }
        s
    } else {
        let mut s = u64_to_string(n / 10);
        s.append(digit_str(n % 10));
        proof {
            assert(s@ =~= dec_digits(n as nat));
        }
        s
    }
}

// ---------------------------------------------------------------------------
// Equality, prefix, repetition, joining
// ---------------------------------------------------------------------------

/// Character-for-character string equality.
pub fn str_eq(a: &str, b: &str) -> (r: bool)
    ensures
        r == (a@ == b@),
{
    let na = a.unicode_len();
    let nb = b.unicode_len();
    if na != nb {
        return false;
    }
    let mut i: usize = 0;
    while i < na
        invariant
            na == a@.len(),
            na == b@.len(),
            0 <= i <= na,
            forall|j: int| 0 <= j < i ==> a@[j] == b@[j],
        decreases na - i,
    {
        if a.get_char(i) != b.get_char(i) {
            return false;
        }
        i += 1;
    }
    proof {
        assert(a@ =~= b@);
    }
    true
}

pub open spec fn starts_with_spec(s: Seq<char>, p: Seq<char>) -> bool {
    s.len() >= p.len() && s.subrange(0, p.len() as int) == p
}

pub fn str_starts_with(s: &str, p: &str) -> (r: bool)
    ensures
        r == starts_with_spec(s@, p@),
{
    let ns = s.unicode_len();
    let np = p.unicode_len();
    if np > ns {
        return false;
    }
    let mut i: usize = 0;
    while i < np
        invariant
            ns == s@.len(),
            np == p@.len(),
            np <= ns,
            0 <= i <= np,
            forall|j: int| 0 <= j < i ==> s@[j] == p@[j],
        decreases np - i,
    {
        if s.get_char(i) != p.get_char(i) {
            assert(s@.subrange(0, np as int)[i as int] != p@[i as int]);
            return false;
        }
        i += 1;
    }
    proof {
        assert(s@.subrange(0, np as int) =~= p@);
    }
    true
}

/// `s` repeated `n` times.
pub open spec fn repeat_seq(s: Seq<char>, n: nat) -> Seq<char>
    decreases n,
{
    if n == 0 {
        Seq::empty()
    } else {
        repeat_seq(s, (n - 1) as nat) + s
    }
}

pub fn repeat_str(s: &str, n: usize) -> (r: String)
    ensures
        r@ == repeat_seq(s@, n as nat),
{
    let mut r = String::new();
    let mut i: usize = 0;
    while i < n
        invariant
            0 <= i <= n,
            r@ == repeat_seq(s@, i as nat),
        decreases n - i,
    {
        r.append(s);
        i += 1;
    }
    r
}

/// The items joined with `", "` between them.
pub open spec fn join_comma_spec(items: Seq<Seq<char>>) -> Seq<char>
    decreases items.len(),
{
    if items.len() == 0 {
        Seq::empty()
    } else if items.len() == 1 {
        items[0]
    } else {
        join_comma_spec(items.drop_last()) + ", "@ + items.last()
    }
}

pub fn join_comma(items: &Vec<String>) -> (r: String)
    ensures
        r@ == join_comma_spec(items.deep_view()),
{
    let mut r = String::new();
    let mut i: usize = 0;
    while i < items.len()
        invariant
            0 <= i <= items.len(),
            items.deep_view().len() == items.len(),
            r@ == join_comma_spec(items.deep_view().subrange(0, i as int)),
        decreases items.len() - i,
    {
        if i > 0 {
            r.append(", ");
        }
        r.append(items[i].as_str());
        proof {
            let pre = items.deep_view().subrange(0, i as int);
            let cur = items.deep_view().subrange(0, i + 1 as int);
            assert(cur.drop_last() =~= pre);
            assert(cur.last() == items.deep_view()[i as int]);
        }
        i += 1;
    }
    proof {
        assert(items.deep_view().subrange(0, items.len() as int) =~= items.deep_view());
    }
    r
}

// ---------------------------------------------------------------------------
// Trimming
// ---------------------------------------------------------------------------

pub open spec fn trim_start_spec(s: Seq<char>) -> Seq<char>
    decreases s.len(),
{
    if s.len() > 0 && is_space_char(s[0]) {
        trim_start_spec(s.drop_first())
    } else {
        s
    }
}

pub open spec fn trim_end_spec(s: Seq<char>) -> Seq<char>
    decreases s.len(),
{
    if s.len() > 0 && is_space_char(s[s.len() - 1]) {
        trim_end_spec(s.drop_last())
    } else {
        s
    }
}

/// `s` with leading and trailing whitespace removed.
pub open spec fn trim_spec(s: Seq<char>) -> Seq<char> {
    trim_end_spec(trim_start_spec(s))
}

proof fn lemma_trim_start_prefix(s: Seq<char>, i: int)
    requires
        0 <= i <= s.len(),
        forall|j: int| 0 <= j < i ==> is_space_char(s[j]),
        i == s.len() || !is_space_char(s[i]),
    ensures
        trim_start_spec(s) == s.subrange(i, s.len() as int),
    decreases i,
{
    if i == 0 {
        assert(s.subrange(0, s.len() as int) =~= s);
    } else {
        let t = s.drop_first();
        assert(forall|j: int| 0 <= j < i - 1 ==> is_space_char(#[trigger] t[j]));
        lemma_trim_start_prefix(t, i - 1);
        assert(t.subrange(i - 1, t.len() as int) =~= s.subrange(i, s.len() as int));
    }
}

proof fn lemma_trim_end_suffix(s: Seq<char>, i: int)
    requires
        0 <= i <= s.len(),
        forall|j: int| i <= j < s.len() ==> is_space_char(s[j]),
        i == 0 || !is_space_char(s[i - 1]),
    ensures
        trim_end_spec(s) == s.subrange(0, i),
    decreases s.len() - i,
{
    if i == s.len() {
        assert(s.subrange(0, s.len() as int) =~= s);
    } else {
        let t = s.drop_last();
        assert(forall|j: int| i <= j < t.len() ==> is_space_char(#[trigger] t[j]));
        lemma_trim_end_suffix(t, i);
        assert(t.subrange(0, i) =~= s.subrange(0, i));
    }
}

/// `s` with leading and trailing whitespace removed.
pub fn trim(s: &str) -> (r: String)
    ensures
        r@ == trim_spec(s@),
{
    let n = s.unicode_len();
    let mut start: usize = 0;
    while start < n && is_space(s.get_char(start))
        invariant
            n == s@.len(),
            0 <= start <= n,
            forall|j: int| 0 <= j < start ==> is_space_char(s@[j]),
        decreases n - start,
    {
        start += 1;
    }
    let mut end: usize = n;
    while end > start && is_space(s.get_char(end - 1))
        invariant
            n == s@.len(),
            start <= end <= n,
            forall|j: int| end <= j < n ==> is_space_char(s@[j]),
        decreases end,
    {
        end -= 1;
    }
    let sub = s.substring_char(start, end);
    proof {
        lemma_trim_start_prefix(s@, start as int);
        let mid = s@.subrange(start as int, n as int);
        assert(forall|j: int| end - start <= j < mid.len() ==> is_space_char(#[trigger] mid[j]));
        lemma_trim_end_suffix(mid, end - start);
        assert(mid.subrange(0, end - start) =~= s@.subrange(start as int, end as int));
    }
    String::from_str(sub)
}

// ---------------------------------------------------------------------------
// Splitting
// ---------------------------------------------------------------------------

/// Drops one trailing carriage return, as line splitting does before a
/// newline.
pub open spec fn strip_cr(s: Seq<char>) -> Seq<char> {
    if s.len() > 0 && s[s.len() - 1] == '\r' {
        s.drop_last()
    } else {
        s
    }
}

/// One step of line splitting: `cur` holds the characters of the current
/// line read so far, `started` whether the current line was begun.
pub open spec fn lines_go(s: Seq<char>, cur: Seq<char>, started: bool) -> Seq<Seq<char>>
    decreases s.len(),
{
    if s.len() == 0 {
        if started {
            seq![cur]
        } else {
            Seq::empty()
        }
    } else if s[0] == '\n' {
        seq![strip_cr(cur)] + lines_go(s.drop_first(), Seq::empty(), false)
    } else {
        lines_go(s.drop_first(), cur.push(s[0]), true)
    }
}

/// The lines of `s`: split at `'\n'`, a `'\r'` before the split removed, a
/// final line ending optional.
pub open spec fn lines_spec(s: Seq<char>) -> Seq<Seq<char>> {
    lines_go(s, Seq::empty(), false)
}

/// Splits `s` into its lines.
pub fn split_lines(s: &str) -> (r: Vec<String>)
    ensures
        r.deep_view() == lines_spec(s@),
{
    let n = s.unicode_len();
    let mut r: Vec<String> = Vec::new();
    let mut start: usize = 0;
    let mut i: usize = 0;
    proof {
        assert(s@.subrange(0, n as int) =~= s@);
        assert(s@.subrange(0, 0) =~= Seq::<char>::empty());
        assert(r.deep_view() =~= Seq::<Seq<char>>::empty());
    }
    while i < n
        invariant
            n == s@.len(),
            0 <= start <= i <= n,
            lines_spec(s@) == r.deep_view() + lines_go(
                s@.subrange(i as int, n as int),
                s@.subrange(start as int, i as int),
                i > start,
            ),
        decreases n - i,
    {
        let ghost rest = s@.subrange(i as int, n as int);
        let ghost cur = s@.subrange(start as int, i as int);
        let ghost pre = r.deep_view();
        let c = s.get_char(i);
        assert(rest[0] == s@[i as int]);
        if c == '\n' {
            let line = if i > start && s.get_char(i - 1) == '\r' {
                s.substring_char(start, i - 1)
            } else {
                s.substring_char(start, i)
            };
            proof {
                if i > start && s@[i - 1] == '\r' {
                    assert(cur[cur.len() - 1] == '\r');
                    assert(strip_cr(cur) =~= s@.subrange(start as int, i - 1));
                } else {
                    assert(strip_cr(cur) =~= cur);
                }
                assert(line@ == strip_cr(cur));
            }
            r.push(String::from_str(line));
            proof {
                assert(rest.drop_first() =~= s@.subrange(i + 1, n as int));
                assert(s@.subrange(i + 1, i + 1) =~= Seq::<char>::empty());
                assert(r.deep_view() =~= pre.push(line@));
                assert(pre.push(line@) =~= pre + seq![strip_cr(cur)]);
            }
            i += 1;
            start = i;
        } else {
            proof {
                assert(rest.drop_first() =~= s@.subrange(i + 1, n as int));
                assert(cur.push(s@[i as int]) =~= s@.subrange(start as int, i + 1));
            }
            i += 1;
        }
    }
    if i > start {
        let line = s.substring_char(start, i);
        let ghost pre = r.deep_view();
        r.push(String::from_str(line));
        proof {
            assert(r.deep_view() =~= pre.push(line@));
        }
    }
    proof {
        assert(lines_spec(s@) =~= r.deep_view());
    }
    r
}

/// Separators that break a kernel release string into fields.
pub open spec fn is_release_sep(c: char) -> bool {
    c == '.' || c == '-'
}

/// One step of release-field splitting; empty fields are kept.
pub open spec fn release_fields_go(s: Seq<char>, cur: Seq<char>) -> Seq<Seq<char>>
    decreases s.len(),
{
    if s.len() == 0 {
        seq![cur]
    } else if is_release_sep(s[0]) {
        seq![cur] + release_fields_go(s.drop_first(), Seq::empty())
    } else {
        release_fields_go(s.drop_first(), cur.push(s[0]))
    }
}

/// The fields of `s` split at `'.'` and `'-'`; always at least one field,
/// empty fields kept.
pub open spec fn release_fields(s: Seq<char>) -> Seq<Seq<char>> {
    release_fields_go(s, Seq::empty())
}

/// Splits a kernel release string at `'.'` and `'-'`.
pub fn split_release(s: &str) -> (r: Vec<String>)
    ensures
        r.deep_view() == release_fields(s@),
        r.len() >= 1,
{
    let n = s.unicode_len();
    let mut r: Vec<String> = Vec::new();
    let mut start: usize = 0;
    let mut i: usize = 0;
    proof {
        assert(s@.subrange(0, n as int) =~= s@);
        assert(s@.subrange(0, 0) =~= Seq::<char>::empty());
        assert(r.deep_view() =~= Seq::<Seq<char>>::empty());
    }
    while i < n
        invariant
            n == s@.len(),
            0 <= start <= i <= n,
            release_fields(s@) == r.deep_view() + release_fields_go(
                s@.subrange(i as int, n as int),
                s@.subrange(start as int, i as int),
            ),
        decreases n - i,
    {
        let ghost rest = s@.subrange(i as int, n as int);
        let ghost cur = s@.subrange(start as int, i as int);
        let ghost pre = r.deep_view();
        let c = s.get_char(i);
        assert(rest[0] == s@[i as int]);
        if c == '.' || c == '-' {
            let field = s.substring_char(start, i);
            r.push(String::from_str(field));
            proof {
                assert(rest.drop_first() =~= s@.subrange(i + 1, n as int));
                assert(s@.subrange(i + 1, i + 1) =~= Seq::<char>::empty());
                assert(r.deep_view() =~= pre.push(cur));
                assert(pre.push(cur) =~= pre + seq![cur]);
            }
            i += 1;
            start = i;
        } else {
            proof {
                assert(rest.drop_first() =~= s@.subrange(i + 1, n as int));
                assert(cur.push(s@[i as int]) =~= s@.subrange(start as int, i + 1));
            }
            i += 1;
        }
    }
    let field = s.substring_char(start, i);
    let ghost pre = r.deep_view();
    r.push(String::from_str(field));
    proof {
        assert(r.deep_view() =~= pre.push(field@));
        assert(release_fields(s@) =~= r.deep_view());
    }
    r
}

/// One step of whitespace splitting; empty fields are dropped.
pub open spec fn split_ws_go(s: Seq<char>, cur: Seq<char>) -> Seq<Seq<char>>
    decreases s.len(),
{
    if s.len() == 0 {
        if cur.len() > 0 {
            seq![cur]
        } else {
            Seq::empty()
        }
    } else if is_space_char(s[0]) {
        if cur.len() > 0 {
            seq![cur] + split_ws_go(s.drop_first(), Seq::empty())
        } else {
            split_ws_go(s.drop_first(), Seq::empty())
        }
    } else {
        split_ws_go(s.drop_first(), cur.push(s[0]))
    }
}

/// The whitespace-separated fields of `s`.
pub open spec fn split_ws_spec(s: Seq<char>) -> Seq<Seq<char>> {
    split_ws_go(s, Seq::empty())
}

/// Splits `s` at runs of whitespace.
pub fn split_ws(s: &str) -> (r: Vec<String>)
    ensures
        r.deep_view() == split_ws_spec(s@),
{
    let n = s.unicode_len();
    let mut r: Vec<String> = Vec::new();
    let mut start: usize = 0;
    let mut i: usize = 0;
    proof {
        assert(s@.subrange(0, n as int) =~= s@);
        assert(s@.subrange(0, 0) =~= Seq::<char>::empty());
        assert(r.deep_view() =~= Seq::<Seq<char>>::empty());
    }
    while i < n
        invariant
            n == s@.len(),
            0 <= start <= i <= n,
            split_ws_spec(s@) == r.deep_view() + split_ws_go(
                s@.subrange(i as int, n as int),
                s@.subrange(start as int, i as int),
            ),
        decreases n - i,
    {
        let ghost rest = s@.subrange(i as int, n as int);
        let ghost cur = s@.subrange(start as int, i as int);
        let ghost pre = r.deep_view();
        let c = s.get_char(i);
        assert(rest[0] == s@[i as int]);
        if is_space(c) {
            if i > start {
                let field = s.substring_char(start, i);
                r.push(String::from_str(field));
                proof {
                    assert(r.deep_view() =~= pre.push(cur));
                    assert(pre.push(cur) =~= pre + seq![cur]);
                }
            }
            proof {
                assert(rest.drop_first() =~= s@.subrange(i + 1, n as int));
                assert(s@.subrange(i + 1, i + 1) =~= Seq::<char>::empty());
            }
            i += 1;
            start = i;
        } else {
            proof {
                assert(rest.drop_first() =~= s@.subrange(i + 1, n as int));
                assert(cur.push(s@[i as int]) =~= s@.subrange(start as int, i + 1));
            }
            i += 1;
        }
    }
    if i > start {
        let field = s.substring_char(start, i);
        let ghost pre = r.deep_view();
        r.push(String::from_str(field));
        proof {
            assert(r.deep_view() =~= pre.push(field@));
        }
    }
    proof {
        assert(split_ws_spec(s@) =~= r.deep_view());
    }
    r
}

// ---------------------------------------------------------------------------
// Substring search
// ---------------------------------------------------------------------------

/// `needle` occurs contiguously in `hay`.
pub open spec fn contains_seq(hay: Seq<u8>, needle: Seq<u8>) -> bool {
    exists|k: int|
        0 <= k && k + needle.len() <= hay.len() && #[trigger] hay.subrange(k, k + needle.len())
            == needle
}

/// Substring search over the UTF-8 bytes of the two strings. Because UTF-8
/// is self-synchronizing, a byte-level match coincides with a character
/// level match.
pub fn str_contains(hay: &str, needle: &str) -> (r: bool)
    ensures
        r == contains_seq(hay.spec_bytes(), needle.spec_bytes()),
{
    let h = hay.as_bytes();
    let nd = needle.as_bytes();
    if nd.len() > h.len() {
        return false;
    }
    if nd.len() == 0 {
        proof {
            assert(hay.spec_bytes().subrange(0, 0 + needle.spec_bytes().len() as int)
                =~= needle.spec_bytes());
        }
        return true;
    }
    let last = h.len() - nd.len();
    let mut k: usize = 0;
    while k <= last
        invariant
            h@ == hay.spec_bytes(),
            nd@ == needle.spec_bytes(),
            1 <= nd@.len() <= h@.len(),
            h@.len() <= usize::MAX,
            last == h@.len() - nd@.len(),
            0 <= k <= last + 1,
            forall|k2: int|
                0 <= k2 < k ==> #[trigger] h@.subrange(k2, k2 + nd@.len() as int) != nd@,
        decreases last + 1 - k,
    {
        let mut j: usize = 0;
        let mut matched = true;
        while j < nd.len()
            invariant
                h@ == hay.spec_bytes(),
                nd@ == needle.spec_bytes(),
                k + nd@.len() <= h@.len(),
                h@.len() <= usize::MAX,
                0 <= j <= nd@.len(),
                matched ==> forall|t: int| 0 <= t < j ==> h@[k + t] == nd@[t],
                !matched ==> h@.subrange(k as int, k + nd@.len() as int) != nd@,
            decreases nd@.len() - j,
        {
            if h[k + j] != nd[j] {
                proof {
                    assert(h@.subrange(k as int, k + nd@.len() as int)[j as int] == h@[k + j]);
                }
                matched = false;
                j = nd.len();
            } else {
                j += 1;
            }
        }
        if matched {
            proof {
                assert(h@.subrange(k as int, k + nd@.len() as int) =~= nd@);
            }
            return true;
        }
        k += 1;
    }
    proof {
        assert forall|k2: int| 0 <= k2 && k2 + nd@.len() <= h@.len() implies #[trigger] h@
            .subrange(k2, k2 + nd@.len() as int) != nd@ by {
            assert(k2 < k);
        }
    }
    false
}

// ---------------------------------------------------------------------------
// Number parsing
// ---------------------------------------------------------------------------

/// Value of a digit string read in decimal; non-digits count as zero.
pub open spec fn digits_val(s: Seq<char>) -> nat
    decreases s.len(),
{
    if s.len() == 0 {
        0
    } else {
        digits_val(s.drop_last()) * 10 + digit_val(s[s.len() - 1])
    }
}

pub open spec fn all_digits(s: Seq<char>) -> bool {
    forall|i: int| 0 <= i < s.len() ==> is_digit_char(s[i])
}

/// An optional leading `'+'` removed, as integer parsing allows one.
pub open spec fn strip_plus(s: Seq<char>) -> Seq<char> {
    if s.len() > 0 && s[0] == '+' {
        s.drop_first()
    } else {
        s
    }
}

/// `s` is a numeral that a `u64` parse accepts.
pub open spec fn is_u64_numeral(s: Seq<char>) -> bool {
    let d = strip_plus(s);
    d.len() > 0 && all_digits(d) && digits_val(d) <= u64::MAX
}

/// The value of `s` as a `u64` numeral, or zero where it is none.
pub open spec fn parse_u64_or_zero_spec(s: Seq<char>) -> u64 {
    if is_u64_numeral(s) {
        digits_val(strip_plus(s)) as u64
    } else {
        0
    }
}

/// `s` is a numeral that a `u32` parse accepts.
pub open spec fn is_u32_numeral(s: Seq<char>) -> bool {
    let d = strip_plus(s);
    d.len() > 0 && all_digits(d) && digits_val(d) <= u32::MAX
}

/// The value of `s` as a `u32` numeral, or zero where it is none.
pub open spec fn parse_u32_or_zero_spec(s: Seq<char>) -> u32 {
    if is_u32_numeral(s) {
        digits_val(strip_plus(s)) as u32
    } else {
        0
    }
}

/// A longer digit string never reads as a smaller value.
proof fn lemma_digits_val_extend(s: Seq<char>, b: int, c: int)
    requires
        0 <= b <= c <= s.len(),
    ensures
        digits_val(s.subrange(0, c)) >= digits_val(s.subrange(0, b)),
    decreases c - b,
{
    if b < c {
        lemma_digits_val_extend(s, b, c - 1);
        let t = s.subrange(0, c);
        assert(t.drop_last() =~= s.subrange(0, c - 1));
    }
}

/// Parses `s` as a decimal `u64`, with zero for anything unparsable, the
/// way a parse-or-default reads an optional numeric field.
pub fn parse_u64_or_zero(s: &str) -> (r: u64)
    ensures
        r == parse_u64_or_zero_spec(s@),
{
    let n = s.unicode_len();
    let mut i: usize = 0;
    if n > 0 && s.get_char(0) == '+' {
        i = 1;
    }
    let ghost d = strip_plus(s@);
    proof {
        assert(d =~= s@.subrange(i as int, n as int));
    }
    if i == n {
        return 0;
    }
    let ghost base = i as int;
    let mut acc: u64 = 0;
    let mut j: usize = i;
    while j < n
        invariant
            n == s@.len(),
            base == i,
            d == strip_plus(s@),
            d == s@.subrange(base, n as int),
            i <= j <= n,
            forall|t: int| base <= t < j ==> is_digit_char(s@[t]),
            acc == digits_val(s@.subrange(base, j as int)),
        decreases n - j,
    {
        let c = s.get_char(j);
        let dv: u64 = if c == '0' {
            0
        } else if c == '1' {
            1
        } else if c == '2' {
            2
        } else if c == '3' {
            3
        } else if c == '4' {
            4
        } else if c == '5' {
            5
        } else if c == '6' {
            6
        } else if c == '7' {
            7
        } else if c == '8' {
            8
        } else if c == '9' {
            9
        } else {
            proof {
                assert(d[j - base] == s@[j as int]);
                assert(!all_digits(d));
            }
            return 0;
        };
        assert(dv == digit_val(s@[j as int]));
        let stepped: Option<u64> = match acc.checked_mul(10) {
            Some(m) => m.checked_add(dv),
            None => None,
        };
        match stepped {
            Some(v) => {
                acc = v;
                proof {
                    let upto = s@.subrange(base, j + 1);
                    assert(upto.drop_last() =~= s@.subrange(base, j as int));
                    assert(upto[upto.len() - 1] == s@[j as int]);
                }
                j += 1;
            },
            None => {
                proof {
                    let upto = s@.subrange(base, j + 1);
                    assert(upto.drop_last() =~= s@.subrange(base, j as int));
                    assert(upto[upto.len() - 1] == s@[j as int]);
                    assert(digits_val(upto) > u64::MAX);
                    lemma_digits_val_extend(s@.subrange(base, n as int), j + 1 - base, n - base);
                    assert(s@.subrange(base, n as int).subrange(0, j + 1 - base) =~= upto);
                    assert(s@.subrange(base, n as int).subrange(0, n - base) =~= d);
                    assert(digits_val(d) > u64::MAX);
                }
                return 0;
            },
        }
    }
    proof {
        assert(s@.subrange(base, j as int) =~= d);
        assert forall|t: int| 0 <= t < d.len() implies is_digit_char(#[trigger] d[t]) by {
            assert(d[t] == s@[base + t]);
        }
        assert(is_u64_numeral(s@));
    }
    acc
}

/// Parses `s` as a decimal `u32`, with zero for anything unparsable.
pub fn parse_u32_or_zero(s: &str) -> (r: u32)
    ensures
        r == parse_u32_or_zero_spec(s@),
{
    let v = parse_u64_or_zero(s);
    let ghost d = strip_plus(s@);
    if v > u32::MAX as u64 {
        proof {
            assert(is_u64_numeral(s@));
            assert(!is_u32_numeral(s@));
        }
        0
    } else {
        proof {
            if is_u32_numeral(s@) {
                assert(is_u64_numeral(s@));
            }
            if is_u64_numeral(s@) && !is_u32_numeral(s@) {
                assert(digits_val(d) > u32::MAX);
            }
        }
        v as u32
    }
}

/// One step of dot splitting; empty fields are kept.
pub open spec fn dot_fields_go(s: Seq<char>, cur: Seq<char>) -> Seq<Seq<char>>
    decreases s.len(),
{
    if s.len() == 0 {
        seq![cur]
    } else if s[0] == '.' {
        seq![cur] + dot_fields_go(s.drop_first(), Seq::empty())
    } else {
        dot_fields_go(s.drop_first(), cur.push(s[0]))
    }
}

/// The fields of `s` split at `'.'`; always at least one field, empty
/// fields kept.
pub open spec fn dot_fields(s: Seq<char>) -> Seq<Seq<char>> {
    dot_fields_go(s, Seq::empty())
}

/// Splits `s` at `'.'`.
pub fn split_dot(s: &str) -> (r: Vec<String>)
    ensures
        r.deep_view() == dot_fields(s@),
        r.len() >= 1,
{
    let n = s.unicode_len();
    let mut r: Vec<String> = Vec::new();
    let mut start: usize = 0;
    let mut i: usize = 0;
    proof {
        assert(s@.subrange(0, n as int) =~= s@);
        assert(s@.subrange(0, 0) =~= Seq::<char>::empty());
        assert(r.deep_view() =~= Seq::<Seq<char>>::empty());
    }
    while i < n
        invariant
            n == s@.len(),
            0 <= start <= i <= n,
            dot_fields(s@) == r.deep_view() + dot_fields_go(
                s@.subrange(i as int, n as int),
                s@.subrange(start as int, i as int),
            ),
        decreases n - i,
    {
        let ghost rest = s@.subrange(i as int, n as int);
        let ghost cur = s@.subrange(start as int, i as int);
        let ghost pre = r.deep_view();
        let c = s.get_char(i);
        assert(rest[0] == s@[i as int]);
        if c == '.' {
            let field = s.substring_char(start, i);
            r.push(String::from_str(field));
            proof {
                assert(rest.drop_first() =~= s@.subrange(i + 1, n as int));
                assert(s@.subrange(i + 1, i + 1) =~= Seq::<char>::empty());
                assert(r.deep_view() =~= pre.push(cur));
                assert(pre.push(cur) =~= pre + seq![cur]);
            }
            i += 1;
            start = i;
        } else {
            proof {
                assert(rest.drop_first() =~= s@.subrange(i + 1, n as int));
                assert(cur.push(s@[i as int]) =~= s@.subrange(start as int, i + 1));
            }
            i += 1;
        }
    }
    let field = s.substring_char(start, i);
    let ghost pre = r.deep_view();
    r.push(String::from_str(field));
    proof {
        assert(r.deep_view() =~= pre.push(field@));
        assert(dot_fields(s@) =~= r.deep_view());
    }
    r
}

/// `s` is a nonempty run of decimal digits.
pub open spec fn is_digit_run(s: Seq<char>) -> bool {
    s.len() > 0 && all_digits(s)
}

/// The value of `s` as a digit run, saturating at the `u64` maximum; `None`
/// where `s` is not a nonempty run of digits.
pub open spec fn digit_run_val_sat(s: Seq<char>) -> Option<u64> {
    if is_digit_run(s) {
        if digits_val(s) <= u64::MAX {
            Some(digits_val(s) as u64)
        } else {
            Some(u64::MAX)
        }
    } else {
        None
    }
}

/// The value of one decimal digit character.
pub fn digit_value(c: char) -> (r: Option<u64>)
    ensures
        match r {
            Some(v) => is_digit_char(c) && v == digit_val(c),
            None => !is_digit_char(c),
        },
{
    if c == '0' {
        Some(0)
    } else if c == '1' {
        Some(1)
    } else if c == '2' {
        Some(2)
    } else if c == '3' {
        Some(3)
    } else if c == '4' {
        Some(4)
    } else if c == '5' {
        Some(5)
    } else if c == '6' {
        Some(6)
    } else if c == '7' {
        Some(7)
    } else if c == '8' {
        Some(8)
    } else if c == '9' {
        Some(9)
    } else {
        None
    }
}

/// Reads a nonempty digit run in decimal, saturating at the `u64` maximum.
pub fn parse_digit_run_sat(s: &str) -> (r: Option<u64>)
    ensures
        r == digit_run_val_sat(s@),
{
    let n = s.unicode_len();
    if n == 0 {
        return None;
    }
    let mut acc: u64 = 0;
    let ghost whole = s@;
    let mut j: usize = 0;
    proof {
        assert(s@.subrange(0, 0) =~= Seq::<char>::empty());
    }
    while j < n
        invariant
            n == s@.len(),
            0 <= j <= n,
            forall|t: int| 0 <= t < j ==> is_digit_char(s@[t]),
            if digits_val(s@.subrange(0, j as int)) <= u64::MAX {
                acc == digits_val(s@.subrange(0, j as int))
            } else {
                acc == u64::MAX
            },
        decreases n - j,
    {
        let c = s.get_char(j);
        let dv: u64 = match digit_value(c) {
            Some(v) => v,
            None => {
                proof {
                    assert(!all_digits(s@));
                }
                return None;
            },
        };
        let stepped: Option<u64> = match acc.checked_mul(10) {
            Some(m) => m.checked_add(dv),
            None => None,
        };
        proof {
            let upto = s@.subrange(0, j + 1);
            assert(upto.drop_last() =~= s@.subrange(0, j as int));
            assert(upto[upto.len() - 1] == s@[j as int]);
            if digits_val(s@.subrange(0, j as int)) > u64::MAX {
                lemma_digits_val_extend(s@, j as int, j + 1);
            }
        }
        match stepped {
            Some(v) => {
                proof {
                    if digits_val(s@.subrange(0, j as int)) > u64::MAX {
                        assert(acc == u64::MAX);
                        assert(false);
                    }
                }
                acc = v;
            },
            None => {
                proof {
                    if digits_val(s@.subrange(0, j as int)) <= u64::MAX {
                        assert(digits_val(s@.subrange(0, j + 1)) == acc * 10 + dv);
                        assert(digits_val(s@.subrange(0, j + 1)) > u64::MAX);
                    }
                }
                acc = u64::MAX;
            },
        }
        j += 1;
    }
    proof {
        assert(s@.subrange(0, n as int) =~= s@);
        assert(is_digit_run(s@));
    }
    Some(acc)
}


/// Tests whether `s` parses as a `u32` numeral.
pub fn is_u32_numeral_exec(s: &str) -> (r: bool)
    ensures
        r == is_u32_numeral(s@),
{
    let n = s.unicode_len();
    let mut i: usize = 0;
    if n > 0 && s.get_char(0) == '+' {
        i = 1;
    }
    if i == n {
        return false;
    }
    let d = s.substring_char(i, n);
    proof {
        assert(d@ =~= strip_plus(s@));
    }
    match parse_digit_run_sat(d) {
        Some(v) => {
            proof {
                if digits_val(strip_plus(s@)) > u64::MAX {
                    assert(v == u64::MAX);
                }
            }
            v <= 0xFFFF_FFFF
        },
        None => false,
    }
}

} // verus!
