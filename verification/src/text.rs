//! Character-level text helpers: splitting, trimming, decimal numbers.
//!
//! Every helper works on `char` sequences and is specified by a spec
//! function over `Seq<char>`, so callers can reason about `&str` inputs
//! through their view.
use vstd::prelude::*;

verus! {

// ───────────────────────── specifications ─────────────────────────

/// Index of the first occurrence of `c` in `s`, if any.
pub open spec fn first_index_of(s: Seq<char>, c: char) -> Option<int>
    decreases s.len(),
{
    if s.len() == 0 {
        None
    } else if s[0] == c {
        Some(0)
    } else {
        match first_index_of(s.drop_first(), c) {
            Some(i) => Some(i + 1),
            None => None,
        }
    }
}

/// The pieces of `s` between occurrences of `sep` (like `str::split` with a
/// `char` pattern): always at least one piece, empty pieces kept.
pub open spec fn split_on(s: Seq<char>, sep: char) -> Seq<Seq<char>>
    decreases s.len(),
{
    match first_index_of(s, sep) {
        None => seq![s],
        Some(i) => {
            if 0 <= i < s.len() {
                seq![s.take(i)] + split_on(s.skip(i + 1), sep)
            } else {
                seq![s]
            }
        },
    }
}

/// `str::split_once` with a `char` pattern: the text before and after the
/// first occurrence of `sep`.
pub open spec fn split_once_on(s: Seq<char>, sep: char) -> Option<(Seq<char>, Seq<char>)> {
    match first_index_of(s, sep) {
        None => None,
        Some(i) => Some((s.take(i), s.skip(i + 1))),
    }
}

/// `char::is_whitespace`: the Unicode `White_Space` property.
pub open spec fn is_white(c: char) -> bool {
    ||| '\u{9}' <= c <= '\u{d}'
    ||| c == ' '
    ||| c == '\u{85}'
    ||| c == '\u{a0}'
    ||| c == '\u{1680}'
    ||| '\u{2000}' <= c <= '\u{200a}'
    ||| c == '\u{2028}'
    ||| c == '\u{2029}'
    ||| c == '\u{202f}'
    ||| c == '\u{205f}'
    ||| c == '\u{3000}'
}

/// `str::split_whitespace`: the maximal runs of non-whitespace characters.
pub open spec fn words(s: Seq<char>) -> Seq<Seq<char>>
    decreases s.len(),
{
    words_from(s, seq![])
}

/// Helper for `words`: `cur` is the word being read so far.
pub open spec fn words_from(s: Seq<char>, cur: Seq<char>) -> Seq<Seq<char>>
    decreases s.len(),
{
    if s.len() == 0 {
        if cur.len() == 0 { seq![] } else { seq![cur] }
    } else if is_white(s[0]) {
        if cur.len() == 0 {
            words_from(s.drop_first(), seq![])
        } else {
            seq![cur] + words_from(s.drop_first(), seq![])
        }
    } else {
        words_from(s.drop_first(), cur.push(s[0]))
    }
}

/// Whether `c` is an ASCII decimal digit.
pub open spec fn is_digit(c: char) -> bool {
    '0' <= c <= '9'
}

/// The value of an ASCII decimal digit.
pub open spec fn digit_value(c: char) -> nat {
    (c as int - '0' as int) as nat
}

/// The value of a string of decimal digits (most significant first).
pub open spec fn decimal_value(s: Seq<char>) -> nat
    decreases s.len(),
{
    if s.len() == 0 {
        0
    } else {
        decimal_value(s.drop_last()) * 10 + digit_value(s.last())
    }
}

/// Whether every character of `s` is an ASCII digit.
pub open spec fn all_digits(s: Seq<char>) -> bool {
    forall|i: int| 0 <= i < s.len() ==> is_digit(#[trigger] s[i])
}

/// The digits of an unsigned decimal number: an optional leading `+`
/// followed by the digits.
pub open spec fn unsigned_digits(s: Seq<char>) -> Seq<char> {
    if s.len() > 0 && s[0] == '+' { s.drop_first() } else { s }
}

/// Whether `s` has the form that `u32::from_str` / `u64::from_str` accept
/// (an optional `+`, then one or more ASCII digits), ignoring the range.
pub open spec fn is_unsigned_literal(s: Seq<char>) -> bool {
    let d = unsigned_digits(s);
    d.len() > 0 && all_digits(d)
}

/// `u32::from_str`: the value of `s` when it is an unsigned literal that
/// fits in a `u32`.
pub open spec fn parse_u32_spec(s: Seq<char>) -> Option<u32> {
    if is_unsigned_literal(s) && decimal_value(unsigned_digits(s)) <= u32::MAX {
        Some(decimal_value(unsigned_digits(s)) as u32)
    } else {
        None
    }
}

/// `u64::from_str`: the value of `s` when it is an unsigned literal that
/// fits in a `u64`.
pub open spec fn parse_u64_spec(s: Seq<char>) -> Option<u64> {
    if is_unsigned_literal(s) && decimal_value(unsigned_digits(s)) <= u64::MAX {
        Some(decimal_value(unsigned_digits(s)) as u64)
    } else {
        None
    }
}

/// The decimal digit character for `d < 10`.
pub open spec fn digit_char(d: nat) -> char {
    (('0' as int) + d) as char
}

/// The shortest decimal representation of `n` (what `Display` prints for
/// an unsigned integer).
pub open spec fn decimal_text(n: nat) -> Seq<char>
    decreases n,
{
    if n < 10 {
        seq![digit_char(n)]
    } else {
        decimal_text(n / 10).push(digit_char(n % 10))
    }
}

/// Whether `s` ends with `suffix`.
pub open spec fn has_suffix(s: Seq<char>, suffix: Seq<char>) -> bool {
    suffix.len() <= s.len() && s.skip(s.len() - suffix.len()) == suffix
}

/// Whether `s` starts with `prefix`.
pub open spec fn has_prefix(s: Seq<char>, prefix: Seq<char>) -> bool {
    prefix.len() <= s.len() && s.take(prefix.len() as int) == prefix
}

/// `str::trim_end_matches` with a non-empty string pattern: removes the
/// suffix as many times as it occurs at the end.
pub open spec fn trim_end_all(s: Seq<char>, suffix: Seq<char>) -> Seq<char>
    decreases s.len(),
{
    if suffix.len() > 0 && has_suffix(s, suffix) {
        trim_end_all(s.take(s.len() - suffix.len()), suffix)
    } else {
        s
    }
}

/// `str::trim_start_matches` with a non-empty string pattern: removes the
/// prefix as many times as it occurs at the start.
pub open spec fn trim_start_all(s: Seq<char>, prefix: Seq<char>) -> Seq<char>
    decreases s.len(),
{
    if prefix.len() > 0 && has_prefix(s, prefix) {
        trim_start_all(s.skip(prefix.len() as int), prefix)
    } else {
        s
    }
}

/// `str::strip_prefix(..).unwrap_or(s)`: removes the prefix once.
pub open spec fn strip_prefix_or_keep(s: Seq<char>, prefix: Seq<char>) -> Seq<char> {
    if has_prefix(s, prefix) { s.skip(prefix.len() as int) } else { s }
}

/// `str::replace` with a non-empty pattern: every non-overlapping
/// occurrence, found from the left, is replaced.
pub open spec fn replace_all(s: Seq<char>, pat: Seq<char>, rep: Seq<char>) -> Seq<char>
    decreases s.len(),
{
    if s.len() == 0 {
        Seq::empty()
    } else if pat.len() > 0 && has_prefix(s, pat) {
        rep + replace_all(s.skip(pat.len() as int), pat, rep)
    } else {
        seq![s[0]] + replace_all(s.skip(1), pat, rep)
    }
}

/// `str::trim` (and the start/end variants): leading and trailing
/// whitespace removed.
pub open spec fn trim_start(s: Seq<char>) -> Seq<char>
    decreases s.len(),
{
    if s.len() > 0 && is_white(s[0]) { trim_start(s.skip(1)) } else { s }
}

/// Trailing whitespace removed.
pub open spec fn trim_end(s: Seq<char>) -> Seq<char>
    decreases s.len(),
{
    if s.len() > 0 && is_white(s.last()) { trim_end(s.drop_last()) } else { s }
}

/// Leading and trailing whitespace removed.
pub open spec fn trim(s: Seq<char>) -> Seq<char> {
    trim_end(trim_start(s))
}

// ───────────────────────── lemmas ─────────────────────────

/// The first index of `c`, when present, holds `c` and no earlier index does.
pub proof fn lemma_first_index_of(s: Seq<char>, c: char)
    ensures
        match first_index_of(s, c) {
            Some(i) => 0 <= i < s.len() && s[i] == c && forall|j: int| 0 <= j < i ==> s[j] != c,
            None => forall|j: int| 0 <= j < s.len() ==> s[j] != c,
        },
    decreases s.len(),
{
    if s.len() > 0 && s[0] != c {
        lemma_first_index_of(s.drop_first(), c);
        match first_index_of(s.drop_first(), c) {
            Some(i) => {
                assert forall|j: int| 0 <= j < i + 1 implies s[j] != c by {
                    if j > 0 {
                        assert(s[j] == s.drop_first()[j - 1]);
                    }
                }
            },
            None => {
                assert forall|j: int| 0 <= j < s.len() implies s[j] != c by {
                    if j > 0 {
                        assert(s[j] == s.drop_first()[j - 1]);
                    }
                }
            },
        }
    }
}

/// Characterises `first_index_of` by its defining property.
pub proof fn lemma_first_index_of_is(s: Seq<char>, c: char, i: int)
    requires
        0 <= i <= s.len(),
        forall|j: int| 0 <= j < i ==> s[j] != c,
        i == s.len() || s[i] == c,
    ensures
        first_index_of(s, c) == (if i == s.len() { None } else { Some(i) }),
{
    lemma_first_index_of(s, c);
    match first_index_of(s, c) {
        Some(k) => {
            if k < i {
            } else if k > i {
                assert(s[i] != c);
            }
        },
        None => {
            if i < s.len() {
                assert(s[i] != c);
            }
        },
    }
}

/// The value of a digit string of length at most 9 fits in a `u32`, and
/// each appended digit multiplies the value by ten.
pub proof fn lemma_decimal_value_push(s: Seq<char>, c: char)
    ensures
        decimal_value(s.push(c)) == decimal_value(s) * 10 + digit_value(c),
{
    assert(s.push(c).drop_last() =~= s);
}

/// Dropping the first digit of a non-empty digit string never increases its
/// value: the value is at least that of any prefix.
pub proof fn lemma_decimal_value_prefix_le(s: Seq<char>, k: int)
    requires
        0 <= k <= s.len(),
        all_digits(s),
    ensures
        decimal_value(s.take(k)) <= decimal_value(s),
    decreases s.len() - k,
{
    if k < s.len() {
        lemma_decimal_value_prefix_le(s, k + 1);
        assert(s.take(k + 1).drop_last() =~= s.take(k));
        assert(decimal_value(s.take(k + 1)) == decimal_value(s.take(k)) * 10 + digit_value(
            s.take(k + 1).last(),
        ));
    } else {
        assert(s.take(k) =~= s);
    }
}

// ───────────────────────── exec helpers ─────────────────────────

/// Appends one character to a `String` with `String::push`; the contract
/// claims, as std documents, that the text afterwards is the old text
/// followed by `c`.
#[verifier::external_body]
pub(crate) fn push_char(s: &mut String, c: char)
    ensures
        final(s)@ == old(s)@.push(c),
{
    s.push(c);
}

/// The characters of `s`, in order.
pub fn chars_of(s: &str) -> (out: Vec<char>)
    ensures
        out@ == s@,
{
    let mut out: Vec<char> = Vec::new();
    for c in it: s.chars()
        invariant
            out@ == it.seq().take(it.index() as int),
            it.seq() == s@,
    {
        out.push(c);
    }
    out
}

/// A `String` holding exactly the characters of `cs`.
pub fn string_of(cs: &[char]) -> (out: String)
    ensures
        out@ == cs@,
{
    let mut out = String::new();
    let mut i: usize = 0;
    while i < cs.len()
        invariant
            i <= cs.len(),
            out@ == cs@.take(i as int),
        decreases cs.len() - i,
    {
        push_char(&mut out, cs[i]);
        i = i + 1;
        assert(cs@.take(i as int) =~= cs@.take(i - 1).push(cs@[i - 1]));
    }
    assert(cs@.take(cs.len() as int) =~= cs@);
    out
}

/// Appends all characters of `cs` to `s`.
pub fn push_chars(s: &mut String, cs: &[char])
    ensures
        final(s)@ == old(s)@ + cs@,
{
    let ghost start = s@;
    let mut i: usize = 0;
    while i < cs.len()
        invariant
            i <= cs.len(),
            s@ == start + cs@.take(i as int),
        decreases cs.len() - i,
    {
        push_char(s, cs[i]);
        i = i + 1;
        assert(cs@.take(i as int) =~= cs@.take(i - 1).push(cs@[i - 1]));
    }
    assert(cs@.take(cs.len() as int) =~= cs@);
}

/// Appends all characters of `t` to `s`.
pub fn push_str_text(s: &mut String, t: &str)
    ensures
        final(s)@ == old(s)@ + t@,
{
    let cs = chars_of(t);
    push_chars(s, cs.as_slice());
}

/// A copy of `cs[lo..hi]`.
pub fn slice_chars(cs: &[char], lo: usize, hi: usize) -> (out: Vec<char>)
    requires
        lo <= hi <= cs.len(),
    ensures
        out@ == cs@.subrange(lo as int, hi as int),
{
    let mut out: Vec<char> = Vec::new();
    let mut i = lo;
    while i < hi
        invariant
            lo <= i <= hi <= cs.len(),
            out@ == cs@.subrange(lo as int, i as int),
        decreases hi - i,
    {
        out.push(cs[i]);
        i = i + 1;
        assert(cs@.subrange(lo as int, i as int) =~= cs@.subrange(lo as int, i - 1).push(
            cs@[i - 1],
        ));
    }
    out
}

/// Whether the two character sequences are equal.
pub fn chars_eq(a: &[char], b: &[char]) -> (r: bool)
    ensures
        r == (a@ == b@),
{
    if a.len() != b.len() {
        return false;
    }
    let mut i: usize = 0;
    while i < a.len()
        invariant
            a.len() == b.len(),
            i <= a.len(),
            forall|j: int| 0 <= j < i ==> a@[j] == b@[j],
        decreases a.len() - i,
    {
        if a[i] != b[i] {
            return false;
        }
        i = i + 1;
    }
    assert(a@ =~= b@);
    true
}

/// Whether `a` equals the text of `s`.
pub fn chars_eq_str(a: &[char], s: &str) -> (r: bool)
    ensures
        r == (a@ == s@),
{
    let b = chars_of(s);
    chars_eq(a, b.as_slice())
}

/// `a` followed by `b` and `c`.
pub fn concat3(a: &str, b: &str, c: &str) -> (r: String)
    ensures
        r@ == a@ + b@ + c@,
{
    let mut out = String::new();
    push_str_text(&mut out, a);
    push_str_text(&mut out, b);
    push_str_text(&mut out, c);
    assert(out@ =~= a@ + b@ + c@);
    out
}

/// Whether the two texts are equal.
pub fn str_eq(a: &str, b: &str) -> (r: bool)
    ensures
        r == (a@ == b@),
{
    let x = chars_of(a);
    chars_eq_str(x.as_slice(), b)
}

/// Whether `cs` is the one-character text `c`.
pub fn is_single(cs: &[char], c: char) -> (r: bool)
    ensures
        r == (cs@ == seq![c]),
{
    let r = cs.len() == 1 && cs[0] == c;
    if cs.len() == 1 {
        assert(cs@ == seq![c] <==> cs@[0] == c) by {
            if cs@[0] == c {
                assert(cs@ =~= seq![c]);
            }
        }
    }
    r
}

/// Whether `cs` ends with the character `c`.
pub fn ends_with_char(cs: &[char], c: char) -> (r: bool)
    ensures
        r == has_suffix(cs@, seq![c]),
{
    if cs.len() == 0 {
        return false;
    }
    let r = cs[cs.len() - 1] == c;
    assert(cs@.skip(cs@.len() - 1) == seq![c] <==> cs@[cs@.len() - 1] == c) by {
        if cs@[cs@.len() - 1] == c {
            assert(cs@.skip(cs@.len() - 1) =~= seq![c]);
        } else {
            assert(cs@.skip(cs@.len() - 1)[0] != c);
        }
    }
    r
}

/// Index of the first occurrence of `c` in `cs`.
pub fn find_char(cs: &[char], c: char) -> (r: Option<usize>)
    ensures
        r matches Some(i) ==> first_index_of(cs@, c) == Some(i as int),
        r is None ==> first_index_of(cs@, c) is None,
{
    let mut i: usize = 0;
    while i < cs.len()
        invariant
            i <= cs.len(),
            forall|j: int| 0 <= j < i ==> cs@[j] != c,
        decreases cs.len() - i,
    {
        if cs[i] == c {
            proof {
                lemma_first_index_of_is(cs@, c, i as int);
            }
            return Some(i);
        }
        i = i + 1;
    }
    proof {
        lemma_first_index_of_is(cs@, c, cs.len() as int);
    }
    None
}

/// `split_once` on a character: the parts before and after the first `sep`.
pub fn split_once_char(cs: &[char], sep: char) -> (r: Option<(Vec<char>, Vec<char>)>)
    ensures
        match (r, split_once_on(cs@, sep)) {
            (Some((a, b)), Some((sa, sb))) => a@ == sa && b@ == sb,
            (None, None) => true,
            _ => false,
        },
{
    match find_char(cs, sep) {
        Some(i) => {
            proof {
                lemma_first_index_of(cs@, sep);
                assert(first_index_of(cs@, sep) == Some(i as int));
            }
            assert(i < cs.len());
            let a = slice_chars(cs, 0, i);
            let b = slice_chars(cs, i + 1, cs.len());
            assert(a@ =~= cs@.take(i as int));
            assert(b@ =~= cs@.skip(i + 1));
            Some((a, b))
        },
        None => None,
    }
}

/// `split` on a character: all pieces between occurrences of `sep`.
pub fn split_char(cs: &[char], sep: char) -> (r: Vec<Vec<char>>)
    ensures
        r@.len() == split_on(cs@, sep).len(),
        forall|i: int| 0 <= i < r@.len() ==> #[trigger] r@[i]@ == split_on(cs@, sep)[i],
{
    let mut out: Vec<Vec<char>> = Vec::new();
    let mut start: usize = 0;
    let mut i: usize = 0;
    let ghost mut done: Seq<Seq<char>> = seq![];
    assert(cs@.skip(0) =~= cs@);
    while i < cs.len()
        invariant
            start <= i <= cs.len(),
            forall|j: int| start <= j < i ==> cs@[j] != sep,
            out@.len() == done.len(),
            forall|k: int| 0 <= k < out@.len() ==> #[trigger] out@[k]@ == done[k],
            split_on(cs@, sep) == done + split_on(cs@.skip(start as int), sep),
        decreases cs.len() - i,
    {
        if cs[i] == sep {
            let piece = slice_chars(cs, start, i);
            proof {
                let rest = cs@.skip(start as int);
                lemma_first_index_of_is(rest, sep, i - start);
                assert(rest.take(i - start) =~= cs@.subrange(start as int, i as int));
                assert(rest.skip(i - start + 1) =~= cs@.skip(i + 1));
                assert(split_on(rest, sep) =~= seq![piece@] + split_on(cs@.skip(i + 1), sep));
                assert(done + split_on(rest, sep) =~= done.push(piece@) + split_on(
                    cs@.skip(i + 1),
                    sep,
                ));
                done = done.push(piece@);
            }
            out.push(piece);
            start = i + 1;
        }
        i = i + 1;
    }
    let piece = slice_chars(cs, start, cs.len());
    proof {
        let rest = cs@.skip(start as int);
        lemma_first_index_of_is(rest, sep, rest.len() as int);
        assert(rest =~= piece@);
        assert(done + split_on(rest, sep) =~= done.push(piece@));
        done = done.push(piece@);
    }
    out.push(piece);
    out
}

/// `char::is_whitespace`.
pub fn is_white_char(c: char) -> (r: bool)
    ensures
        r == is_white(c),
{
    ('\u{9}' <= c && c <= '\u{d}') || c == ' ' || c == '\u{85}' || c == '\u{a0}' || c
        == '\u{1680}' || ('\u{2000}' <= c && c <= '\u{200a}') || c == '\u{2028}' || c
        == '\u{2029}' || c == '\u{202f}' || c == '\u{205f}' || c == '\u{3000}'
}

/// `split_whitespace`: the maximal runs of non-whitespace characters.
pub fn split_words(cs: &[char]) -> (r: Vec<Vec<char>>)
    ensures
        r@.len() == words(cs@).len(),
        forall|i: int| 0 <= i < r@.len() ==> #[trigger] r@[i]@ == words(cs@)[i],
{
    let mut out: Vec<Vec<char>> = Vec::new();
    let mut cur: Vec<char> = Vec::new();
    let ghost mut done: Seq<Seq<char>> = seq![];
    let mut i: usize = 0;
    assert(cs@.skip(0) =~= cs@);
    assert(cur@ =~= seq![]);
    assert(done + words_from(cs@.skip(0), cur@) =~= words_from(cs@, seq![]));
    while i < cs.len()
        invariant
            i <= cs.len(),
            out@.len() == done.len(),
            forall|k: int| 0 <= k < out@.len() ==> #[trigger] out@[k]@ == done[k],
            words(cs@) == done + words_from(cs@.skip(i as int), cur@),
        decreases cs.len() - i,
    {
        let ghost rest = cs@.skip(i as int);
        assert(rest.drop_first() =~= cs@.skip(i + 1));
        assert(rest[0] == cs@[i as int]);
        assert(rest.len() > 0);
        if is_white_char(cs[i]) {
            if cur.len() == 0 {
                assert(words_from(rest, cur@) == words_from(rest.drop_first(), seq![]));
                assert(cur@ =~= seq![]);
            }
            if cur.len() > 0 {
                assert(words_from(rest, cur@) == seq![cur@] + words_from(rest.drop_first(), seq![]));
                proof {
                    assert(done + words_from(rest, cur@) =~= done.push(cur@) + words_from(
                        cs@.skip(i + 1),
                        seq![],
                    ));
                    done = done.push(cur@);
                }
                out.push(cur);
                cur = Vec::new();
            }
        } else {
            assert(words_from(rest, cur@) == words_from(rest.drop_first(), cur@.push(cs@[i as int])));
            cur.push(cs[i]);
        }
        i = i + 1;
    }
    proof {
        assert(cs@.skip(cs.len() as int) =~= Seq::<char>::empty());
    }
    if cur.len() > 0 {
        proof {
            assert(done + words_from(seq![], cur@) =~= done.push(cur@));
            done = done.push(cur@);
        }
        out.push(cur);
    } else {
        assert(done + words_from(seq![], cur@) =~= done);
    }
    out
}

/// `u32::from_str`.
pub fn parse_u32(cs: &[char]) -> (r: Option<u32>)
    ensures
        r == parse_u32_spec(cs@),
{
    let start: usize = if cs.len() > 0 && cs[0] == '+' { 1 } else { 0 };
    let ghost d = unsigned_digits(cs@);
    assert(d =~= cs@.skip(start as int));
    if start == cs.len() {
        return None;
    }
    let mut val: u64 = 0;
    let mut i = start;
    while i < cs.len()
        invariant
            start <= i <= cs.len(),
            d == cs@.skip(start as int),
            d == unsigned_digits(cs@),
            forall|j: int| 0 <= j < i - start ==> is_digit(#[trigger] d[j]),
            val == decimal_value(d.take(i - start)),
            val <= u32::MAX,
        decreases cs.len() - i,
    {
        let c = cs[i];
        if !('0' <= c && c <= '9') {
            assert(!is_digit(d[i - start]));
            return None;
        }
        let dv = (c as u32 - '0' as u32) as u64;
        proof {
            assert(d.take(i - start + 1) =~= d.take(i - start).push(d[i - start]));
            lemma_decimal_value_push(d.take(i - start), d[i - start]);
        }
        val = val * 10 + dv;
        i = i + 1;
        if val > 0xffff_ffff {
            proof {
                if all_digits(d) {
                    lemma_decimal_value_prefix_le(d, i - start);
                }
            }
            return None;
        }
    }
    assert(d.take(i - start) =~= d);
    Some(val as u32)
}

/// `u64::from_str`.
pub fn parse_u64(cs: &[char]) -> (r: Option<u64>)
    ensures
        r == parse_u64_spec(cs@),
{
    let start: usize = if cs.len() > 0 && cs[0] == '+' { 1 } else { 0 };
    let ghost d = unsigned_digits(cs@);
    assert(d =~= cs@.skip(start as int));
    if start == cs.len() {
        return None;
    }
    let mut val: u128 = 0;
    let mut i = start;
    while i < cs.len()
        invariant
            start <= i <= cs.len(),
            d == cs@.skip(start as int),
            d == unsigned_digits(cs@),
            forall|j: int| 0 <= j < i - start ==> is_digit(#[trigger] d[j]),
            val == decimal_value(d.take(i - start)),
            val <= u64::MAX,
        decreases cs.len() - i,
    {
        let c = cs[i];
        if !('0' <= c && c <= '9') {
            assert(!is_digit(d[i - start]));
            return None;
        }
        let dv = (c as u32 - '0' as u32) as u128;
        proof {
            assert(d.take(i - start + 1) =~= d.take(i - start).push(d[i - start]));
            lemma_decimal_value_push(d.take(i - start), d[i - start]);
        }
        val = val * 10 + dv;
        i = i + 1;
        if val > 0xffff_ffff_ffff_ffff {
            proof {
                if all_digits(d) {
                    lemma_decimal_value_prefix_le(d, i - start);
                }
            }
            return None;
        }
    }
    assert(d.take(i - start) =~= d);
    Some(val as u64)
}

/// The decimal digit character for `d < 10`.
pub fn digit_to_char(d: u64) -> (c: char)
    requires
        d < 10,
    ensures
        c == digit_char(d as nat),
{
    let b: u8 = 48 + d as u8;
    b as char
}

/// Appends the decimal representation of `n` to `s`.
pub fn push_decimal(s: &mut String, n: u64)
    ensures
        final(s)@ == old(s)@ + decimal_text(n as nat),
    decreases n,
{
    if n >= 10 {
        push_decimal(s, n / 10);
    }
    let c = digit_to_char(n % 10);
    push_char(s, c);
    proof {
        if n >= 10 {
            assert(decimal_text(n as nat) == decimal_text((n / 10) as nat).push(
                digit_char((n % 10) as nat),
            ));
        } else {
            assert(decimal_text(n as nat) == seq![digit_char(n as nat)]);
        }
    }
}

/// Whether the first `end` characters of `cs` end with `suffix`.
pub fn ends_with_upto(cs: &[char], end: usize, suffix: &[char]) -> (r: bool)
    requires
        end <= cs.len(),
    ensures
        r == has_suffix(cs@.take(end as int), suffix@),
{
    let ghost t = cs@.take(end as int);
    if suffix.len() > end {
        return false;
    }
    let off = end - suffix.len();
    let mut i: usize = 0;
    while i < suffix.len()
        invariant
            off + suffix.len() == end,
            end <= cs.len(),
            t == cs@.take(end as int),
            i <= suffix.len(),
            forall|j: int| 0 <= j < i ==> t[off + j] == suffix@[j],
        decreases suffix.len() - i,
    {
        if cs[off + i] != suffix[i] {
            assert(t.skip(off as int)[i as int] != suffix@[i as int]);
            return false;
        }
        i = i + 1;
    }
    assert(t.skip(off as int) =~= suffix@);
    true
}

/// Whether `cs` ends with `suffix`.
pub fn ends_with_chars(cs: &[char], suffix: &[char]) -> (r: bool)
    ensures
        r == has_suffix(cs@, suffix@),
{
    assert(cs@.take(cs.len() as int) =~= cs@);
    ends_with_upto(cs, cs.len(), suffix)
}

/// Whether `cs` starts with `prefix`.
pub fn starts_with_chars(cs: &[char], prefix: &[char]) -> (r: bool)
    ensures
        r == has_prefix(cs@, prefix@),
{
    if prefix.len() > cs.len() {
        return false;
    }
    let mut i: usize = 0;
    while i < prefix.len()
        invariant
            prefix.len() <= cs.len(),
            i <= prefix.len(),
            forall|j: int| 0 <= j < i ==> cs@[j] == prefix@[j],
        decreases prefix.len() - i,
    {
        if cs[i] != prefix[i] {
            assert(cs@.take(prefix.len() as int)[i as int] != prefix@[i as int]);
            return false;
        }
        i = i + 1;
    }
    assert(cs@.take(prefix.len() as int) =~= prefix@);
    true
}

/// `trim_end_matches` with a non-empty string pattern.
pub fn trim_end_chars(cs: &[char], suffix: &[char]) -> (r: Vec<char>)
    requires
        suffix.len() > 0,
    ensures
        r@ == trim_end_all(cs@, suffix@),
{
    let mut end = cs.len();
    assert(cs@.take(end as int) =~= cs@);
    while end >= suffix.len() && ends_with_upto(cs, end, suffix)
        invariant
            end <= cs.len(),
            suffix.len() > 0,
            trim_end_all(cs@.take(end as int), suffix@) == trim_end_all(cs@, suffix@),
        decreases end,
    {
        proof {
            let t = cs@.take(end as int);
            assert(cs@.take((end - suffix.len()) as int) =~= t.take(t.len() - suffix@.len()));
        }
        end = end - suffix.len();
    }
    proof {
        let t = cs@.take(end as int);
        assert(!has_suffix(t, suffix@));
    }
    slice_chars(cs, 0, end)
}

/// Whether `cs[at..]` starts with `prefix`.
pub fn starts_with_at(cs: &[char], at: usize, prefix: &[char]) -> (r: bool)
    requires
        at <= cs.len(),
    ensures
        r == has_prefix(cs@.skip(at as int), prefix@),
{
    let ghost t = cs@.skip(at as int);
    if prefix.len() > cs.len() - at {
        return false;
    }
    let mut i: usize = 0;
    while i < prefix.len()
        invariant
            at <= cs.len(),
            t == cs@.skip(at as int),
            prefix.len() <= cs.len() - at,
            i <= prefix.len(),
            forall|j: int| 0 <= j < i ==> t[j] == prefix@[j],
        decreases prefix.len() - i,
    {
        if cs[at + i] != prefix[i] {
            assert(t.take(prefix.len() as int)[i as int] != prefix@[i as int]);
            return false;
        }
        i = i + 1;
    }
    assert(t.take(prefix.len() as int) =~= prefix@);
    true
}

/// `str::replace` with a non-empty pattern.
pub fn replace_chars(cs: &[char], pat: &[char], rep: &[char]) -> (r: Vec<char>)
    requires
        pat.len() > 0,
    ensures
        r@ == replace_all(cs@, pat@, rep@),
{
    let mut out: Vec<char> = Vec::new();
    let mut i: usize = 0;
    assert(cs@.skip(0) =~= cs@);
    while i < cs.len()
        invariant
            i <= cs.len(),
            pat.len() > 0,
            out@ + replace_all(cs@.skip(i as int), pat@, rep@) == replace_all(cs@, pat@, rep@),
        decreases cs.len() - i,
    {
        let ghost rest = cs@.skip(i as int);
        if starts_with_at(cs, i, pat) {
            let mut k: usize = 0;
            let ghost before = out@;
            while k < rep.len()
                invariant
                    k <= rep.len(),
                    out@ == before + rep@.take(k as int),
                decreases rep.len() - k,
            {
                out.push(rep[k]);
                k = k + 1;
                assert(rep@.take(k as int) =~= rep@.take(k - 1).push(rep@[k - 1]));
            }
            assert(rep@.take(rep.len() as int) =~= rep@);
            assert(rest.skip(pat.len() as int) =~= cs@.skip((i + pat.len()) as int));
            assert(before + (rep@ + replace_all(rest.skip(pat.len() as int), pat@, rep@)) =~= out@
                + replace_all(cs@.skip((i + pat.len()) as int), pat@, rep@));
            i = i + pat.len();
        } else {
            let ghost before = out@;
            out.push(cs[i]);
            assert(rest.skip(1) =~= cs@.skip(i + 1));
            assert(before + (seq![rest[0]] + replace_all(rest.skip(1), pat@, rep@)) =~= out@
                + replace_all(cs@.skip(i + 1), pat@, rep@));
            i = i + 1;
        }
    }
    assert(out@ + replace_all(cs@.skip(i as int), pat@, rep@) =~= out@);
    out
}

/// `str::trim`: leading and trailing whitespace removed.
pub fn trim_chars(cs: &[char]) -> (r: Vec<char>)
    ensures
        r@ == trim(cs@),
{
    let mut lo: usize = 0;
    assert(cs@.skip(0) =~= cs@);
    while lo < cs.len() && is_white_char(cs[lo])
        invariant
            lo <= cs.len(),
            trim_start(cs@.skip(lo as int)) == trim_start(cs@),
        decreases cs.len() - lo,
    {
        assert(cs@.skip(lo as int).skip(1) =~= cs@.skip(lo + 1));
        lo = lo + 1;
    }
    let ghost st = cs@.skip(lo as int);
    assert(trim_start(st) == st);
    let mut hi: usize = cs.len();
    assert(st.take(st.len() as int) =~= st);
    while hi > lo && is_white_char(cs[hi - 1])
        invariant
            lo <= hi <= cs.len(),
            st == cs@.skip(lo as int),
            trim_end(cs@.subrange(lo as int, hi as int)) == trim_end(st),
        decreases hi,
    {
        assert(cs@.subrange(lo as int, hi as int).drop_last() =~= cs@.subrange(lo as int, hi - 1));
        hi = hi - 1;
    }
    assert(cs@.skip(lo as int) =~= cs@.subrange(lo as int, cs.len() as int));
    slice_chars(cs, lo, hi)
}

/// `trim_start_matches` with a non-empty string pattern.
pub fn trim_start_chars(cs: &[char], prefix: &[char]) -> (r: Vec<char>)
    requires
        prefix.len() > 0,
    ensures
        r@ == trim_start_all(cs@, prefix@),
{
    let mut start: usize = 0;
    assert(cs@.skip(0) =~= cs@);
    while start < cs.len() && starts_with_at(cs, start, prefix)
        invariant
            start <= cs.len(),
            prefix.len() > 0,
            trim_start_all(cs@.skip(start as int), prefix@) == trim_start_all(cs@, prefix@),
        decreases cs.len() - start,
    {
        assert(cs@.skip(start as int).skip(prefix.len() as int) =~= cs@.skip(
            (start + prefix.len()) as int,
        ));
        start = start + prefix.len();
    }
    proof {
        if start == cs.len() {
            assert(!has_prefix(cs@.skip(start as int), prefix@));
        }
    }
    assert(cs@.skip(start as int) =~= cs@.subrange(start as int, cs.len() as int));
    slice_chars(cs, start, cs.len())
}

/// `strip_prefix(prefix).unwrap_or(cs)`.
pub fn strip_prefix_chars(cs: &[char], prefix: &[char]) -> (r: Vec<char>)
    ensures
        r@ == strip_prefix_or_keep(cs@, prefix@),
{
    if starts_with_chars(cs, prefix) {
        let r = slice_chars(cs, prefix.len(), cs.len());
        assert(r@ =~= cs@.skip(prefix.len() as int));
        r
    } else {
        let r = slice_chars(cs, 0, cs.len());
        assert(r@ =~= cs@);
        r
    }
}

} // verus!
