//! Character-sequence helpers shared by every parser and renderer of the
//! crate: each exec function here is proved against a spec function over
//! `Seq<char>` that states the standard-library meaning it mirrors
//! (`str::trim`, `str::lines`, `str::split`, `u32::from_str`, `{}` on an
//! unsigned integer, ...).
use vstd::prelude::*;

verus! {

// ─── Spec layer ────────────────────────────────────────────────────────

/// `char::is_whitespace`: the Unicode `White_Space` property.
pub open spec fn is_ws(c: char) -> bool {
    ||| c == ' ' || c == '\t' || c == '\n' || c == '\r'
    ||| c == '\u{0B}' || c == '\u{0C}'
    ||| c == '\u{85}' || c == '\u{A0}' || c == '\u{1680}'
    ||| ('\u{2000}' <= c && c <= '\u{200A}')
    ||| c == '\u{2028}' || c == '\u{2029}' || c == '\u{202F}' || c == '\u{205F}'
    ||| c == '\u{3000}'
}

/// `str::trim_start`.
pub open spec fn trim_start(s: Seq<char>) -> Seq<char>
    decreases s.len(),
{
    if s.len() > 0 && is_ws(s[0]) {
        trim_start(s.drop_first())
    } else {
        s
    }
}

/// `str::trim_end`.
pub open spec fn trim_end(s: Seq<char>) -> Seq<char>
    decreases s.len(),
{
    if s.len() > 0 && is_ws(s.last()) {
        trim_end(s.drop_last())
    } else {
        s
    }
}

/// `str::trim`.
pub open spec fn trim(s: Seq<char>) -> Seq<char> {
    trim_end(trim_start(s))
}

/// Whether `pat` occurs in `s` at position `i`.
pub open spec fn occurs_at(s: Seq<char>, pat: Seq<char>, i: int) -> bool {
    0 <= i && i + pat.len() <= s.len() && s.subrange(i, i + pat.len()) == pat
}

/// `str::contains` with a string pattern.
pub open spec fn contains(s: Seq<char>, pat: Seq<char>) -> bool {
    exists|i: int| occurs_at(s, pat, i)
}

/// `str::starts_with` with a string pattern.
pub open spec fn starts_with(s: Seq<char>, pat: Seq<char>) -> bool {
    pat.len() <= s.len() && s.take(pat.len() as int) == pat
}

/// `str::ends_with` with a string pattern.
pub open spec fn ends_with(s: Seq<char>, pat: Seq<char>) -> bool {
    pat.len() <= s.len() && s.skip(s.len() - pat.len()) == pat
}

/// `char::to_ascii_lowercase`.
pub open spec fn lower_char(c: char) -> char {
    if 'A' <= c && c <= 'Z' {
        ((c as u32) + 32) as char
    } else {
        c
    }
}

/// `str::to_ascii_lowercase`.
pub open spec fn lower(s: Seq<char>) -> Seq<char> {
    s.map_values(|c: char| lower_char(c))
}

/// `str::eq_ignore_ascii_case`.
pub open spec fn eq_ignore_case(a: Seq<char>, b: Seq<char>) -> bool {
    lower(a) == lower(b)
}

/// The separator class used by [`split_by`]: one of `seps`, or any
/// whitespace character when `ws` is set.
pub open spec fn is_sep(seps: Seq<char>, ws: bool, c: char) -> bool {
    seps.contains(c) || (ws && is_ws(c))
}

/// `str::split` with a character-class pattern: the pieces between
/// separators, empty pieces included; there is always at least one piece.
pub open spec fn split_by(s: Seq<char>, seps: Seq<char>, ws: bool) -> Seq<Seq<char>>
    decreases s.len(),
{
    if s.len() == 0 {
        seq![Seq::<char>::empty()]
    } else {
        let prev = split_by(s.drop_last(), seps, ws);
        if is_sep(seps, ws, s.last()) {
            prev.push(Seq::<char>::empty())
        } else {
            prev.update(prev.len() - 1, prev.last().push(s.last()))
        }
    }
}

/// `str::split(c)` for a single character.
pub open spec fn split_char(s: Seq<char>, c: char) -> Seq<Seq<char>> {
    split_by(s, seq![c], false)
}

/// The non-empty pieces of [`split_by`]: `str::split_whitespace` when the
/// class is whitespace alone.
pub open spec fn tokens(s: Seq<char>, seps: Seq<char>, ws: bool) -> Seq<Seq<char>> {
    split_by(s, seps, ws).filter(nonempty())
}

/// The predicate "is not empty" on pieces of text.
pub open spec fn nonempty() -> spec_fn(Seq<char>) -> bool {
    |t: Seq<char>| t.len() > 0
}

/// `str::split_whitespace`.
pub open spec fn words(s: Seq<char>) -> Seq<Seq<char>> {
    tokens(s, Seq::<char>::empty(), true)
}

/// Drops one trailing carriage return.
pub open spec fn strip_cr(s: Seq<char>) -> Seq<char> {
    if s.len() > 0 && s.last() == '\r' {
        s.drop_last()
    } else {
        s
    }
}

/// `str::lines`: pieces between `\n`, without a final empty piece, each
/// line that ended in `\n` losing one trailing `\r`.
pub open spec fn lines(s: Seq<char>) -> Seq<Seq<char>> {
    let pieces = split_char(s, '\n');
    let n = pieces.len() as int;
    let kept = if pieces[n - 1].len() == 0 {
        n - 1
    } else {
        n
    };
    Seq::new(
        kept as nat,
        |i: int|
            if i < n - 1 {
                strip_cr(pieces[i])
            } else {
                pieces[i]
            },
    )
}

/// The ASCII digit for `d < 10`.
pub open spec fn digit_char(d: nat) -> char {
    ((d + 48) as u32) as char
}

/// `{}` of an unsigned integer: its decimal digits.
pub open spec fn decimal(n: nat) -> Seq<char>
    decreases n,
{
    if n < 10 {
        seq![digit_char(n)]
    } else {
        decimal(n / 10).push(digit_char(n % 10))
    }
}

/// `{}` of a signed integer.
pub open spec fn signed_decimal(n: int) -> Seq<char> {
    if n < 0 {
        seq!['-'] + decimal((-n) as nat)
    } else {
        decimal(n as nat)
    }
}

/// `c` repeated `n` times.
pub open spec fn repeat(c: char, n: nat) -> Seq<char> {
    Seq::new(n, |i: int| c)
}

/// `{:0w}` of an unsigned integer: decimal digits, left-padded with zeros
/// to width `w`.
pub open spec fn zero_pad(n: nat, w: nat) -> Seq<char> {
    let d = decimal(n);
    if d.len() < w {
        repeat('0', (w - d.len()) as nat) + d
    } else {
        d
    }
}

/// `{:0w}` of a signed integer: a `-` sign counts toward the width.
pub open spec fn signed_zero_pad(n: int, w: nat) -> Seq<char> {
    if n < 0 {
        seq!['-'] + zero_pad((-n) as nat, if w > 0 { (w - 1) as nat } else { 0 })
    } else {
        zero_pad(n as nat, w)
    }
}

/// Whether `c` is an ASCII digit.
pub open spec fn is_digit(c: char) -> bool {
    '0' <= c && c <= '9'
}

/// The value of an ASCII digit.
pub open spec fn digit_value(c: char) -> nat {
    ((c as u32) - 48) as nat
}

/// The value of a string of ASCII digits.
pub open spec fn digits_value(s: Seq<char>) -> nat
    decreases s.len(),
{
    if s.len() == 0 {
        0
    } else {
        digits_value(s.drop_last()) * 10 + digit_value(s.last())
    }
}

/// The digits part of an unsigned number: the text after an optional `+`.
pub open spec fn unsigned_digits(s: Seq<char>) -> Seq<char> {
    if s.len() > 0 && s[0] == '+' {
        s.drop_first()
    } else {
        s
    }
}

/// Whether every character is an ASCII digit.
pub open spec fn all_digits(d: Seq<char>) -> bool {
    forall|i: int| 0 <= i < d.len() ==> is_digit(#[trigger] d[i])
}

/// `from_str` of an unsigned integer type whose largest value is `max`:
/// an optional `+`, then one or more ASCII digits, with a value of at most
/// `max`.
pub open spec fn parse_unsigned(s: Seq<char>, max: nat) -> Option<nat> {
    let d = unsigned_digits(s);
    if d.len() == 0 || !all_digits(d) || digits_value(d) > max {
        None
    } else {
        Some(digits_value(d))
    }
}

/// The elements of `parts` joined with `sep` between them (`[&str]::join`).
pub open spec fn join(parts: Seq<Seq<char>>, sep: Seq<char>) -> Seq<char>
    decreases parts.len(),
{
    if parts.len() == 0 {
        Seq::<char>::empty()
    } else if parts.len() == 1 {
        parts[0]
    } else {
        join(parts.drop_last(), sep) + sep + parts.last()
    }
}

/// The sum of a sequence of naturals.
pub open spec fn sum_nat(s: Seq<nat>) -> nat
    decreases s.len(),
{
    if s.len() == 0 {
        0
    } else {
        sum_nat(s.drop_last()) + s.last()
    }
}

/// `str::trim_end_matches` with a string pattern: `suf` removed from the
/// end as long as it is a suffix.
pub open spec fn strip_suffix_all(s: Seq<char>, suf: Seq<char>) -> Seq<char>
    decreases s.len(),
{
    if suf.len() > 0 && ends_with(s, suf) {
        strip_suffix_all(s.take(s.len() - suf.len()), suf)
    } else {
        s
    }
}

/// The values `f` gives for the elements of `s`, skipping `None`, in order.
pub open spec fn filter_map<A, B>(s: Seq<A>, f: spec_fn(A) -> Option<B>) -> Seq<B>
    decreases s.len(),
{
    if s.len() == 0 {
        seq![]
    } else {
        filter_map(s.drop_last(), f) + match f(s.last()) {
            Some(x) => seq![x],
            None => seq![],
        }
    }
}

/// One more element of a prefix adds what `f` gives for it.
pub proof fn lemma_filter_map_take<A, B>(s: Seq<A>, f: spec_fn(A) -> Option<B>, i: int)
    requires
        0 <= i < s.len(),
    ensures
        filter_map(s.take(i + 1), f) == filter_map(s.take(i), f) + match f(s[i]) {
            Some(x) => seq![x],
            None => seq![],
        },
{
    assert(s.take(i + 1).drop_last() =~= s.take(i));
}

/// `filter_map` works element by element and keeps the order: a single
/// element gives what `f` gives for it, and the result for `a` then `b` is
/// the result for `a` followed by the result for `b`.
pub proof fn law_filter_map_in_order<A, B>(a: Seq<A>, b: Seq<A>, x: A, f: spec_fn(A) -> Option<B>)
    ensures
        filter_map(seq![x], f) == match f(x) {
            Some(y) => seq![y],
            None => Seq::<B>::empty(),
        },
        filter_map(a + b, f) == filter_map(a, f) + filter_map(b, f),
    decreases b.len(),
{
    assert(seq![x].drop_last() =~= Seq::<A>::empty());
    assert(filter_map(Seq::<A>::empty(), f) =~= Seq::<B>::empty());
    assert(seq![x].last() == x);
    let t0 = match f(x) {
        Some(y) => seq![y],
        None => Seq::<B>::empty(),
    };
    assert(filter_map(seq![x], f) == filter_map(seq![x].drop_last(), f) + t0);
    assert(Seq::<B>::empty() + t0 =~= t0);
    if b.len() == 0 {
        assert(a + b =~= a);
        assert(filter_map(a, f) + filter_map(b, f) =~= filter_map(a, f));
    } else {
        let b0 = b.drop_last();
        law_filter_map_in_order(a, b0, x, f);
        assert((a + b).drop_last() =~= a + b0);
        assert((a + b).last() == b.last());
        let tail = match f(b.last()) {
            Some(y) => seq![y],
            None => Seq::<B>::empty(),
        };
        assert(filter_map(a + b, f) == filter_map(a + b0, f) + tail);
        assert(filter_map(b, f) == filter_map(b0, f) + tail);
        assert(filter_map(a, f) + filter_map(b0, f) + tail =~= filter_map(a, f) + (filter_map(b0, f) + tail));
    }
}

/// `Path::join` on Unix paths held as text: an absolute `rel` replaces
/// `base`; otherwise a `/` goes between them unless `base` is empty or
/// already ends in one.
pub open spec fn path_join(base: Seq<char>, rel: Seq<char>) -> Seq<char> {
    if rel.len() > 0 && rel[0] == '/' {
        rel
    } else if base.len() == 0 || base.last() == '/' {
        base + rel
    } else {
        base + seq!['/'] + rel
    }
}

/// The texts of the elements of `v`.
pub open spec fn text_set(v: Seq<String>) -> Set<Seq<char>> {
    Set::new(|x: Seq<char>| exists|q: int| 0 <= q < v.len() && #[trigger] v[q]@ == x)
}

/// Whether `x` is the text of some element of `v`.
pub open spec fn holds(v: Seq<String>, x: Seq<char>) -> bool {
    text_set(v).contains(x)
}

pub proof fn lemma_text_set_take(v: Seq<String>, i: int)
    requires
        0 <= i < v.len(),
    ensures
        text_set(v.take(i + 1)) == text_set(v.take(i)).insert(v[i]@),
{
    let a = v.take(i + 1);
    let b = v.take(i);
    assert forall|x: Seq<char>| text_set(a).contains(x) == text_set(b).insert(v[i]@).contains(x) by {
        if text_set(a).contains(x) {
            let q = choose|q: int| 0 <= q < a.len() && #[trigger] a[q]@ == x;
            if q < i {
                assert(b[q] == a[q]);
            }
        }
        if text_set(b).contains(x) {
            let q = choose|q: int| 0 <= q < b.len() && #[trigger] b[q]@ == x;
            assert(a[q] == b[q]);
        }
        if x == v[i]@ {
            assert(a[i] == v[i]);
        }
    }
    assert(text_set(a) =~= text_set(b).insert(v[i]@));
}

/// The text of each string of a list.
pub open spec fn texts(v: Seq<String>) -> Seq<Seq<char>> {
    v.map_values(|s: String| s@)
}

/// Lexicographic `<=` on character sequences (the order of `str`).
pub open spec fn seq_le(a: Seq<char>, b: Seq<char>) -> bool
    decreases a.len(),
{
    if a.len() == 0 {
        true
    } else if b.len() == 0 {
        false
    } else if a[0] != b[0] {
        a[0] < b[0]
    } else {
        seq_le(a.drop_first(), b.drop_first())
    }
}

/// Whether `i` is the first position of `c` in `s`.
pub open spec fn is_first_pos(s: Seq<char>, c: char, i: int) -> bool {
    0 <= i < s.len() && s[i] == c && forall|j: int| 0 <= j < i ==> s[j] != c
}

/// `str::split_once` with a character: the text before the first `c` and
/// the text after it.
pub open spec fn split_once(s: Seq<char>, c: char) -> Option<(Seq<char>, Seq<char>)> {
    if exists|i: int| is_first_pos(s, c, i) {
        let i = choose|i: int| is_first_pos(s, c, i);
        Some((s.take(i), s.skip(i + 1)))
    } else {
        None
    }
}

// ─── Lemmas ────────────────────────────────────────────────────────────

pub proof fn lemma_split_by_nonempty(s: Seq<char>, seps: Seq<char>, ws: bool)
    ensures
        split_by(s, seps, ws).len() >= 1,
    decreases s.len(),
{
    if s.len() > 0 {
        lemma_split_by_nonempty(s.drop_last(), seps, ws);
    }
}

pub proof fn lemma_decimal_nonempty(n: nat)
    ensures
        decimal(n).len() >= 1,
        forall|i: int| 0 <= i < decimal(n).len() ==> is_digit(#[trigger] decimal(n)[i]),
    decreases n,
{
    if n >= 10 {
        lemma_decimal_nonempty(n / 10);
    }
}

/// `seq_le` is a total order: any two sequences are comparable.
pub proof fn lemma_seq_le_total(a: Seq<char>, b: Seq<char>)
    ensures
        seq_le(a, b) || seq_le(b, a),
    decreases a.len(),
{
    if a.len() > 0 && b.len() > 0 && a[0] == b[0] {
        lemma_seq_le_total(a.drop_first(), b.drop_first());
    }
}

/// `seq_le` is antisymmetric.
pub proof fn lemma_seq_le_antisym(a: Seq<char>, b: Seq<char>)
    requires
        seq_le(a, b),
        seq_le(b, a),
    ensures
        a == b,
    decreases a.len(),
{
    if a.len() > 0 {
        lemma_seq_le_antisym(a.drop_first(), b.drop_first());
        assert(a == seq![a[0]] + a.drop_first());
        assert(b == seq![b[0]] + b.drop_first());
    } else {
        assert(b.len() == 0 || !seq_le(b, a));
    }
}

/// `seq_le` is transitive.
pub proof fn lemma_seq_le_trans(a: Seq<char>, b: Seq<char>, c: Seq<char>)
    requires
        seq_le(a, b),
        seq_le(b, c),
    ensures
        seq_le(a, c),
    decreases a.len(),
{
    if a.len() > 0 && b.len() > 0 && c.len() > 0 && a[0] == b[0] && b[0] == c[0] {
        lemma_seq_le_trans(a.drop_first(), b.drop_first(), c.drop_first());
    }
}

// ─── Building strings ──────────────────────────────────────────────────

/// Appends one character to a string (`String::push`).
#[verifier::external_body]
pub fn push_char(s: &mut String, c: char)
    ensures
        final(s)@ == old(s)@.push(c),
{
    s.push(c);
}

/// Appends a string slice.
pub fn push_str(s: &mut String, t: &str)
    ensures
        final(s)@ == old(s)@ + t@,
{
    s.append(t);
}

/// Appends a sequence of characters.
pub fn push_chars(s: &mut String, t: &[char])
    ensures
        final(s)@ == old(s)@ + t@,
{
    let ghost s0 = s@;
    let mut i: usize = 0;
    while i < t.len()
        invariant
            i <= t.len(),
            s@ == s0 + t@.take(i as int),
        decreases t.len() - i,
    {
        push_char(s, t[i]);
        i = i + 1;
        assert(t@.take(i as int) == t@.take(i - 1).push(t@[i - 1]));
    }
    assert(t@.take(t.len() as int) == t@);
}

/// A `String` holding exactly the given characters.
pub fn string_of(t: &[char]) -> (s: String)
    ensures
        s@ == t@,
{
    let mut s = String::new();
    push_chars(&mut s, t);
    s
}

/// An owned copy of a string slice.
pub fn owned(t: &str) -> (s: String)
    ensures
        s@ == t@,
{
    let mut s = String::new();
    push_str(&mut s, t);
    s
}

/// The characters of a string slice, in order.
pub fn chars_of(s: &str) -> (v: Vec<char>)
    ensures
        v@ == s@,
{
    let mut v: Vec<char> = Vec::new();
    for c in it: s.chars()
        invariant
            v@ == it.seq().take(it.index() as int),
            it.seq() == s@,
    {
        v.push(c);
    }
    v
}

/// Appends the decimal digits of `n`.
pub fn push_decimal(s: &mut String, n: u64)
    ensures
        final(s)@ == old(s)@ + decimal(n as nat),
    decreases n,
{
    if n >= 10 {
        push_decimal(s, n / 10);
    }
    let d = (n % 10) as u32;
    let c = char_of_digit(d);
    push_char(s, c);
    assert(decimal(n as nat) == (if n < 10 {
        seq![digit_char(n as nat)]
    } else {
        decimal((n / 10) as nat).push(digit_char((n % 10) as nat))
    }));
}

/// The ASCII digit for `d < 10`.
pub fn char_of_digit(d: u32) -> (c: char)
    requires
        d < 10,
    ensures
        c == digit_char(d as nat),
{
    if d == 0 {
        '0'
    } else if d == 1 {
        '1'
    } else if d == 2 {
        '2'
    } else if d == 3 {
        '3'
    } else if d == 4 {
        '4'
    } else if d == 5 {
        '5'
    } else if d == 6 {
        '6'
    } else if d == 7 {
        '7'
    } else if d == 8 {
        '8'
    } else {
        '9'
    }
}

/// Appends the decimal digits of a signed integer.
pub fn push_signed_decimal(s: &mut String, n: i64)
    ensures
        final(s)@ == old(s)@ + signed_decimal(n as int),
{
    if n < 0 {
        push_char(s, '-');
        let m: u64 = if n == i64::MIN {
            9223372036854775808u64
        } else {
            (-n) as u64
        };
        push_decimal(s, m);
    } else {
        push_decimal(s, n as u64);
    }
}

/// `n.to_string()` for an unsigned integer.
pub fn decimal_string(n: u64) -> (s: String)
    ensures
        s@ == decimal(n as nat),
{
    let mut s = String::new();
    push_decimal(&mut s, n);
    s
}

/// Appends `n` padded with leading zeros to at least `w` digits.
pub fn push_zero_pad(s: &mut String, n: u64, w: usize)
    ensures
        final(s)@ == old(s)@ + zero_pad(n as nat, w as nat),
{
    let d = decimal_string(n);
    let dv = chars_of(d.as_str());
    let ghost s0 = s@;
    if dv.len() < w {
        let k = w - dv.len();
        let mut i: usize = 0;
        while i < k
            invariant
                i <= k,
                s@ == s0 + repeat('0', i as nat),
            decreases k - i,
        {
            push_char(s, '0');
            i = i + 1;
            assert(repeat('0', i as nat) == repeat('0', (i - 1) as nat).push('0'));
        }
    }
    push_chars(s, &dv);
}

// ─── Reading strings ───────────────────────────────────────────────────

/// Whether two character sequences are equal.
pub fn chars_eq(a: &[char], b: &[char]) -> (r: bool)
    ensures
        r == (a@ == b@),
{
    if a.len() != b.len() {
        return false;
    }
    let mut i: usize = 0;
    while i < a.len()
        invariant
            i <= a.len(),
            a.len() == b.len(),
            forall|j: int| 0 <= j < i ==> a@[j] == b@[j],
        decreases a.len() - i,
    {
        if a[i] != b[i] {
            return false;
        }
        i = i + 1;
    }
    assert(a@ == b@);
    true
}

/// Whether two string slices are equal.
pub fn str_eq_str(a: &str, b: &str) -> (r: bool)
    ensures
        r == (a@ == b@),
{
    let av = chars_of(a);
    let bv = chars_of(b);
    chars_eq(&av, &bv)
}

/// A copy of `s[lo..hi]`.
pub fn slice_chars(s: &[char], lo: usize, hi: usize) -> (r: Vec<char>)
    requires
        lo <= hi <= s.len(),
    ensures
        r@ == s@.subrange(lo as int, hi as int),
{
    let mut r: Vec<char> = Vec::new();
    let mut i = lo;
    while i < hi
        invariant
            lo <= i <= hi,
            hi <= s.len(),
            r@ == s@.subrange(lo as int, i as int),
        decreases hi - i,
    {
        r.push(s[i]);
        i = i + 1;
        assert(r@ == s@.subrange(lo as int, i as int));
    }
    r
}

/// Whether `pat` occurs in `s` at `i`.
pub fn occurs_at_exec(s: &[char], pat: &[char], i: usize) -> (r: bool)
    ensures
        r == occurs_at(s@, pat@, i as int),
{
    if i > s.len() || pat.len() > s.len() - i {
        return false;
    }
    let mut j: usize = 0;
    while j < pat.len()
        invariant
            j <= pat.len(),
            i + pat.len() <= s.len(),
            forall|k: int| 0 <= k < j ==> s@[i + k] == pat@[k],
        decreases pat.len() - j,
    {
        if s[i + j] != pat[j] {
            assert(s@.subrange(i as int, i + pat.len())[j as int] != pat@[j as int]);
            return false;
        }
        j = j + 1;
    }
    assert(s@.subrange(i as int, i + pat.len()) == pat@);
    true
}

/// `str::contains`.
pub fn contains_exec(s: &[char], pat: &[char]) -> (r: bool)
    ensures
        r == contains(s@, pat@),
{
    if pat.len() > s.len() {
        assert forall|i: int| !occurs_at(s@, pat@, i) by {}
        return false;
    }
    let last = s.len() - pat.len();
    let mut i: usize = 0;
    while i < last
        invariant
            last == s.len() - pat.len(),
            i <= last,
            forall|k: int| 0 <= k < i ==> !occurs_at(s@, pat@, k),
        decreases last - i,
    {
        if occurs_at_exec(s, pat, i) {
            return true;
        }
        i = i + 1;
    }
    if occurs_at_exec(s, pat, last) {
        return true;
    }
    assert forall|k: int| !occurs_at(s@, pat@, k) by {
        if 0 <= k < i {
        }
    }
    false
}

/// `str::starts_with`.
pub fn starts_with_exec(s: &[char], pat: &[char]) -> (r: bool)
    ensures
        r == starts_with(s@, pat@),
{
    let r = occurs_at_exec(s, pat, 0);
    assert(r ==> s@.subrange(0, pat@.len() as int) == s@.take(pat@.len() as int));
    assert(pat@.len() <= s@.len() ==> s@.subrange(0, pat@.len() as int) == s@.take(pat@.len() as int));
    r
}

/// `str::ends_with`.
pub fn ends_with_exec(s: &[char], pat: &[char]) -> (r: bool)
    ensures
        r == ends_with(s@, pat@),
{
    if pat.len() > s.len() {
        return false;
    }
    let r = occurs_at_exec(s, pat, s.len() - pat.len());
    assert(s@.subrange(s.len() - pat.len(), s.len() as int) == s@.skip(s.len() - pat.len()));
    r
}

/// `char::is_whitespace`.
pub fn is_ws_exec(c: char) -> (r: bool)
    ensures
        r == is_ws(c),
{
    c == ' ' || c == '\t' || c == '\n' || c == '\r' || c == '\u{0B}' || c == '\u{0C}' || c
        == '\u{85}' || c == '\u{A0}' || c == '\u{1680}' || ('\u{2000}' <= c && c <= '\u{200A}')
        || c == '\u{2028}' || c == '\u{2029}' || c == '\u{202F}' || c == '\u{205F}' || c
        == '\u{3000}'
}

proof fn lemma_trim_start_skip(s: Seq<char>, i: int)
    requires
        0 <= i <= s.len(),
        forall|k: int| 0 <= k < i ==> is_ws(s[k]),
    ensures
        trim_start(s) == trim_start(s.skip(i)),
    decreases i,
{
    if i > 0 {
        assert(s.skip(1) == s.drop_first());
        lemma_trim_start_skip(s.drop_first(), i - 1);
        assert(s.drop_first().skip(i - 1) == s.skip(i));
    } else {
        assert(s.skip(0) == s);
    }
}

proof fn lemma_trim_end_take(s: Seq<char>, j: int)
    requires
        0 <= j <= s.len(),
        forall|k: int| j <= k < s.len() ==> is_ws(s[k]),
    ensures
        trim_end(s) == trim_end(s.take(j)),
    decreases s.len() - j,
{
    if j < s.len() {
        lemma_trim_end_take(s.drop_last(), j);
        assert(s.drop_last().take(j) == s.take(j));
    } else {
        assert(s.take(j) == s);
    }
}

/// `str::trim` on a character sequence.
pub fn trim_exec(s: &[char]) -> (r: Vec<char>)
    ensures
        r@ == trim(s@),
{
    let mut i: usize = 0;
    while i < s.len() && is_ws_exec(s[i])
        invariant
            i <= s.len(),
            forall|k: int| 0 <= k < i ==> is_ws(s@[k]),
        decreases s.len() - i,
    {
        i = i + 1;
    }
    proof {
        lemma_trim_start_skip(s@, i as int);
        assert(trim_start(s@.skip(i as int)) == s@.skip(i as int));
    }
    let mut j: usize = s.len();
    while j > i && is_ws_exec(s[j - 1])
        invariant
            i <= j <= s.len(),
            forall|k: int| j <= k < s.len() ==> is_ws(s@[k]),
        decreases j,
    {
        j = j - 1;
    }
    proof {
        let t = s@.skip(i as int);
        assert forall|k: int| j - i <= k < t.len() implies is_ws(t[k]) by {
            assert(t[k] == s@[k + i]);
        }
        lemma_trim_end_take(t, j - i);
        assert(t.take(j - i) == s@.subrange(i as int, j as int));
        let u = s@.subrange(i as int, j as int);
        assert(trim_end(u) == u);
    }
    slice_chars(s, i, j)
}

/// `str::trim` on a string slice.
pub fn trim_str(s: &str) -> (r: Vec<char>)
    ensures
        r@ == trim(s@),
{
    let v = chars_of(s);
    trim_exec(&v)
}

/// Whether `c` is one of `seps` or, when `ws` is set, whitespace.
pub fn is_sep_exec(seps: &[char], ws: bool, c: char) -> (r: bool)
    ensures
        r == is_sep(seps@, ws, c),
{
    let mut i: usize = 0;
    while i < seps.len()
        invariant
            i <= seps.len(),
            forall|k: int| 0 <= k < i ==> seps@[k] != c,
        decreases seps.len() - i,
    {
        if seps[i] == c {
            assert(seps@.contains(c));
            return true;
        }
        i = i + 1;
    }
    assert(!seps@.contains(c));
    ws && is_ws_exec(c)
}

/// `str::split` by a character class: every piece, empty ones included.
pub fn split_exec(s: &[char], seps: &[char], ws: bool) -> (r: Vec<Vec<char>>)
    ensures
        r@.len() == split_by(s@, seps@, ws).len(),
        forall|k: int| 0 <= k < r@.len() ==> #[trigger] r@[k]@ == split_by(s@, seps@, ws)[k],
{
    let mut done: Vec<Vec<char>> = Vec::new();
    let mut cur: Vec<char> = Vec::new();
    let mut i: usize = 0;
    while i < s.len()
        invariant
            i <= s.len(),
            split_by(s@.take(i as int), seps@, ws).len() == done@.len() + 1,
            forall|k: int|
                0 <= k < done@.len() ==> #[trigger] done@[k]@ == split_by(
                    s@.take(i as int),
                    seps@,
                    ws,
                )[k],
            cur@ == split_by(s@.take(i as int), seps@, ws).last(),
        decreases s.len() - i,
    {
        let c = s[i];
        let ghost prev = s@.take(i as int);
        assert(s@.take(i + 1).drop_last() == prev);
        if is_sep_exec(seps, ws, c) {
            let piece = cur;
            done.push(piece);
            cur = Vec::new();
        } else {
            cur.push(c);
        }
        i = i + 1;
    }
    assert(s@.take(s.len() as int) == s@);
    done.push(cur);
    done
}

/// The non-empty pieces of [`split_exec`].
pub fn tokens_exec(s: &[char], seps: &[char], ws: bool) -> (r: Vec<Vec<char>>)
    ensures
        r@.len() == tokens(s@, seps@, ws).len(),
        forall|k: int| 0 <= k < r@.len() ==> #[trigger] r@[k]@ == tokens(s@, seps@, ws)[k],
{
    let pieces = split_exec(s, seps, ws);
    let ghost sp = split_by(s@, seps@, ws);
    let ghost pred = nonempty();
    let mut r: Vec<Vec<char>> = Vec::new();
    let mut i: usize = 0;
    while i < pieces.len()
        invariant
            i <= pieces.len(),
            pred == nonempty(),
            pieces@.len() == sp.len(),
            forall|k: int| 0 <= k < pieces@.len() ==> #[trigger] pieces@[k]@ == sp[k],
            r@.len() == sp.take(i as int).filter(pred).len(),
            forall|k: int| 0 <= k < r@.len() ==> #[trigger] r@[k]@ == sp.take(i as int).filter(pred)[k],
        decreases pieces.len() - i,
    {
        let ghost old_r = r@;
        assert(sp.take(i + 1) == sp.take(i as int).push(sp[i as int]));
        proof {
            sp.take(i as int).lemma_filter_push(sp[i as int], pred);
        }
        assert(pieces@[i as int]@ == sp[i as int]);
        assert(pred(sp[i as int]) == (pieces@[i as int]@.len() > 0));
        if pieces[i].len() > 0 {
            let len = pieces[i].len();
            let copy = slice_chars(&pieces[i], 0, len);
            assert(copy@ == pieces@[i as int]@);
            r.push(copy);
        }
        i = i + 1;
    }
    assert(sp.take(pieces.len() as int) == sp);
    r
}

proof fn lemma_digits_value_push(s: Seq<char>, c: char)
    ensures
        digits_value(s.push(c)) == digits_value(s) * 10 + digit_value(c),
{
    assert(s.push(c).drop_last() == s);
}

/// `from_str` of an unsigned integer type whose largest value is `max`.
pub fn parse_unsigned_exec(s: &[char], max: u64) -> (r: Option<u64>)
    ensures
        match parse_unsigned(s@, max as nat) {
            Some(v) => r == Some(v as u64),
            None => r is None,
        },
{
    let start: usize = if s.len() > 0 && s[0] == '+' {
        1
    } else {
        0
    };
    let ghost d = unsigned_digits(s@);
    assert(d == s@.skip(start as int));
    if start >= s.len() {
        assert(d.len() == 0);
        return None;
    }
    let mut val: u64 = 0;
    let mut over = false;
    let mut i = start;
    while i < s.len()
        invariant
            start <= i <= s.len(),
            d == s@.skip(start as int),
            d == unsigned_digits(s@),
            forall|k: int| start <= k < i ==> is_digit(s@[k]),
            !over ==> val == digits_value(s@.subrange(start as int, i as int)) && val <= max,
            over ==> digits_value(s@.subrange(start as int, i as int)) > max,
        decreases s.len() - i,
    {
        let c = s[i];
        if !('0' <= c && c <= '9') {
            assert(d[i - start] == c);
            assert(!is_digit(d[i - start]));
            return None;
        }
        proof {
            assert(s@.subrange(start as int, i + 1) == s@.subrange(start as int, i as int).push(c));
            lemma_digits_value_push(s@.subrange(start as int, i as int), c);
        }
        let dv = (c as u32 - 48) as u64;
        if !over {
            let nv: u128 = (val as u128) * 10 + (dv as u128);
            if nv > max as u128 {
                over = true;
            } else {
                val = nv as u64;
            }
        }
        i = i + 1;
    }
    assert(s@.subrange(start as int, s.len() as int) == d);
    assert forall|k: int| 0 <= k < d.len() implies is_digit(d[k]) by {
        assert(d[k] == s@[k + start]);
    }
    assert(all_digits(d));
    if over {
        None
    } else {
        Some(val)
    }
}

/// `str::to_ascii_lowercase` on a character sequence.
pub fn lower_exec(s: &[char]) -> (r: Vec<char>)
    ensures
        r@ == lower(s@),
{
    let mut r: Vec<char> = Vec::new();
    let mut i: usize = 0;
    while i < s.len()
        invariant
            i <= s.len(),
            r@ == lower(s@.take(i as int)),
        decreases s.len() - i,
    {
        let c = s[i];
        let l = if 'A' <= c && c <= 'Z' {
            lower_ascii_letter(c)
        } else {
            c
        };
        r.push(l);
        i = i + 1;
        assert(lower(s@.take(i as int)) == lower(s@.take(i - 1)).push(lower_char(c)));
    }
    assert(s@.take(s.len() as int) == s@);
    r
}

/// The lower-case form of an upper-case ASCII letter: 32 code points on.
fn lower_ascii_letter(c: char) -> (r: char)
    requires
        'A' <= c && c <= 'Z',
    ensures
        r == lower_char(c),
{
    let b: u8 = c as u8;
    let l: u8 = b + 32;
    l as char
}

/// `str::eq_ignore_ascii_case`.
pub fn eq_ignore_case_exec(a: &[char], b: &[char]) -> (r: bool)
    ensures
        r == eq_ignore_case(a@, b@),
{
    let la = lower_exec(a);
    let lb = lower_exec(b);
    chars_eq(&la, &lb)
}

/// A copy of a character sequence without one trailing `\r`.
pub fn strip_cr_exec(s: &[char]) -> (r: Vec<char>)
    ensures
        r@ == strip_cr(s@),
{
    if s.len() > 0 && s[s.len() - 1] == '\r' {
        slice_chars(s, 0, s.len() - 1)
    } else {
        let r = slice_chars(s, 0, s.len());
        assert(s@.subrange(0, s@.len() as int) == s@);
        r
    }
}

/// `str::lines` on a character sequence.
pub fn lines_exec(s: &[char]) -> (r: Vec<Vec<char>>)
    ensures
        r@.len() == lines(s@).len(),
        forall|k: int| 0 <= k < r@.len() ==> #[trigger] r@[k]@ == lines(s@)[k],
{
    let nl = vec!['\n'];
    let pieces = split_exec(s, &nl, false);
    let ghost sp = split_char(s@, '\n');
    assert(nl@ == seq!['\n']);
    proof {
        lemma_split_by_nonempty(s@, seq!['\n'], false);
    }
    let n = pieces.len();
    let kept = if pieces[n - 1].len() == 0 {
        n - 1
    } else {
        n
    };
    let mut r: Vec<Vec<char>> = Vec::new();
    let mut k: usize = 0;
    while k < kept
        invariant
            kept <= n,
            n == pieces@.len(),
            n == sp.len(),
            kept == lines(s@).len(),
            sp == split_char(s@, '\n'),
            forall|j: int| 0 <= j < n ==> #[trigger] pieces@[j]@ == sp[j],
            k <= kept,
            r@.len() == k,
            forall|j: int| 0 <= j < k ==> #[trigger] r@[j]@ == lines(s@)[j],
        decreases kept - k,
    {
        let line = if k + 1 < n {
            strip_cr_exec(&pieces[k])
        } else {
            slice_chars(&pieces[k], 0, pieces[k].len())
        };
        assert(pieces@[k as int]@.subrange(0, pieces@[k as int]@.len() as int) == pieces@[k as int]@);
        r.push(line);
        k = k + 1;
    }
    r
}

/// `str::lines` on a string slice.
pub fn lines_str(s: &str) -> (r: Vec<Vec<char>>)
    ensures
        r@.len() == lines(s@).len(),
        forall|k: int| 0 <= k < r@.len() ==> #[trigger] r@[k]@ == lines(s@)[k],
{
    let v = chars_of(s);
    lines_exec(&v)
}

/// Appends `c` repeated `n` times.
pub fn push_repeat(s: &mut String, c: char, n: usize)
    ensures
        final(s)@ == old(s)@ + repeat(c, n as nat),
{
    let ghost s0 = s@;
    let mut i: usize = 0;
    while i < n
        invariant
            i <= n,
            s@ == s0 + repeat(c, i as nat),
        decreases n - i,
    {
        push_char(s, c);
        i = i + 1;
        assert(repeat(c, i as nat) == repeat(c, (i - 1) as nat).push(c));
    }
}

/// Appends a signed integer, zero-padded to width `w` (sign included).
pub fn push_signed_zero_pad(s: &mut String, n: i64, w: usize)
    ensures
        final(s)@ == old(s)@ + signed_zero_pad(n as int, w as nat),
{
    if n < 0 {
        push_char(s, '-');
        let m: u64 = if n == i64::MIN {
            9223372036854775808u64
        } else {
            (-n) as u64
        };
        let w1 = if w > 0 { w - 1 } else { 0 };
        push_zero_pad(s, m, w1);
    } else {
        push_zero_pad(s, n as u64, w);
    }
}

/// `str::trim_end_matches` with a string pattern.
pub fn strip_suffix_all_exec(s: &[char], suf: &[char]) -> (r: Vec<char>)
    ensures
        r@ == strip_suffix_all(s@, suf@),
{
    let mut cur = slice_chars(s, 0, s.len());
    assert(s@.subrange(0, s@.len() as int) == s@);
    if suf.len() == 0 {
        return cur;
    }
    while ends_with_exec(&cur, suf)
        invariant
            suf@.len() > 0,
            strip_suffix_all(cur@, suf@) == strip_suffix_all(s@, suf@),
        decreases cur@.len(),
    {
        let n = cur.len() - suf.len();
        let next = slice_chars(&cur, 0, n);
        assert(next@ == cur@.take(n as int));
        cur = next;
    }
    cur
}

/// Appends `parts` joined with `sep`.
pub fn push_join(s: &mut String, parts: &Vec<Vec<char>>, sep: &str)
    ensures
        final(s)@ == old(s)@ + join(parts@.map_values(|v: Vec<char>| v@), sep@),
{
    let ghost ps = parts@.map_values(|v: Vec<char>| v@);
    let ghost s0 = s@;
    let mut i: usize = 0;
    while i < parts.len()
        invariant
            i <= parts.len(),
            ps == parts@.map_values(|v: Vec<char>| v@),
            s@ == s0 + join(ps.take(i as int), sep@),
        decreases parts.len() - i,
    {
        let ghost before = s@;
        if i > 0 {
            push_str(s, sep);
        }
        push_chars(s, &parts[i]);
        proof {
            let t = ps.take(i + 1);
            assert(t.drop_last() == ps.take(i as int));
            assert(t.last() == parts@[i as int]@);
            if i == 0 {
                assert(ps.take(0).len() == 0);
                assert(join(ps.take(0), sep@) == Seq::<char>::empty());
                assert(s@ == s0 + parts@[0]@);
            }
        }
        i = i + 1;
    }
    assert(ps.take(parts.len() as int) == ps);
}

/// Lexicographic `<=` of two character sequences.
pub fn chars_le(a: &[char], b: &[char]) -> (r: bool)
    ensures
        r == seq_le(a@, b@),
{
    let mut i: usize = 0;
    assert(a@.skip(0) == a@ && b@.skip(0) == b@);
    while i < a.len() && i < b.len()
        invariant
            i <= a.len(),
            i <= b.len(),
            seq_le(a@, b@) == seq_le(a@.skip(i as int), b@.skip(i as int)),
        decreases a.len() - i,
    {
        let ghost sa = a@.skip(i as int);
        let ghost sb = b@.skip(i as int);
        assert(sa[0] == a@[i as int] && sb[0] == b@[i as int]);
        if a[i] != b[i] {
            return a[i] < b[i];
        }
        assert(sa.drop_first() == a@.skip(i + 1));
        assert(sb.drop_first() == b@.skip(i + 1));
        i = i + 1;
    }
    i == a.len()
}

/// Lexicographic `<=` of two string slices.
pub fn str_le(a: &str, b: &str) -> (r: bool)
    ensures
        r == seq_le(a@, b@),
{
    let av = chars_of(a);
    let bv = chars_of(b);
    chars_le(&av, &bv)
}

/// `Path::join` on Unix paths held as text.
pub fn path_join_exec(base: &str, rel: &str) -> (p: String)
    ensures
        p@ == path_join(base@, rel@),
{
    let r = chars_of(rel);
    if r.len() > 0 && r[0] == '/' {
        return owned(rel);
    }
    let b = chars_of(base);
    let mut p = owned(base);
    if !(b.len() == 0 || b[b.len() - 1] == '/') {
        push_char(&mut p, '/');
    }
    push_str(&mut p, rel);
    p
}

/// Inserts `name` into the strictly ascending `names`, unless present.
#[verifier::spinoff_prover]
#[verifier::rlimit(30)]
pub fn insert_sorted(names: &mut Vec<String>, name: &str)
    requires
        forall|a: int, b: int|
            0 <= a < b < old(names)@.len() ==> seq_le(old(names)@[a]@, old(names)@[b]@) && old(
                names,
            )@[a]@ != old(names)@[b]@,
    ensures
        forall|a: int, b: int|
            0 <= a < b < final(names)@.len() ==> seq_le(final(names)@[a]@, final(names)@[b]@)
                && final(names)@[a]@ != final(names)@[b]@,
        forall|a: int|
            0 <= a < final(names)@.len() ==> (#[trigger] final(names)@[a]@ == name@ || exists|b: int|
                0 <= b < old(names)@.len() && old(names)@[b]@ == final(names)@[a]@),
        exists|a: int| 0 <= a < final(names)@.len() && #[trigger] final(names)@[a]@ == name@,
        forall|b: int|
            #![trigger old(names)@[b]]
            0 <= b < old(names)@.len() ==> exists|a: int|
                0 <= a < final(names)@.len() && #[trigger] final(names)@[a]@ == old(names)@[b]@,
{
    let ghost v0 = names@;
    let mut p: usize = 0;
    while p < names.len() && !str_le(name, names[p].as_str())
        invariant
            p <= names.len(),
            names@ == v0,
            forall|q: int| 0 <= q < p ==> !seq_le(name@, #[trigger] names@[q]@),
        decreases names.len() - p,
    {
        p = p + 1;
    }
    if p < names.len() && str_eq_str(names[p].as_str(), name) {
        assert(names@[p as int]@ == name@);
        assert forall|b: int| #![trigger v0[b]] 0 <= b < v0.len() implies exists|a: int|
            0 <= a < names@.len() && #[trigger] names@[a]@ == v0[b]@ by {
            assert(names@[b]@ == v0[b]@);
        }
        return ;
    }
    names.insert(p, owned(name));
    let ghost v1 = names@;
    assert(v1 == v0.insert(p as int, v1[p as int]));
    assert forall|a: int, b: int| 0 <= a < b < v1.len() implies seq_le(v1[a]@, v1[b]@) && v1[a]@
        != v1[b]@ by {
        if b < p {
            assert(v1[a] == v0[a] && v1[b] == v0[b]);
        } else if a > p {
            assert(v1[a] == v0[a - 1] && v1[b] == v0[b - 1]);
        } else if b == p {
            assert(v1[a] == v0[a]);
            assert(!seq_le(name@, v0[a]@));
            lemma_seq_le_total(name@, v0[a]@);
        } else if a == p {
            assert(v1[b] == v0[b - 1]);
            assert(p < v0.len());
            assert(seq_le(name@, v0[p as int]@));
            assert(v0[p as int]@ != name@);
            if b - 1 > p {
                lemma_seq_le_trans(name@, v0[p as int]@, v0[b - 1]@);
                if name@ == v0[b - 1]@ {
                    lemma_seq_le_antisym(name@, v0[p as int]@);
                }
            }
        } else {
            assert(a < p && p < b);
            assert(v1[a] == v0[a] && v1[b] == v0[b - 1]);
            assert(!seq_le(name@, v0[a]@));
            lemma_seq_le_total(name@, v0[a]@);
            assert(seq_le(name@, v0[p as int]@));
            if b - 1 > p {
                lemma_seq_le_trans(name@, v0[p as int]@, v0[b - 1]@);
            }
            lemma_seq_le_trans(v0[a]@, name@, v0[b - 1]@);
            if v0[a]@ == v0[b - 1]@ {
                lemma_seq_le_antisym(v0[a]@, name@);
            }
        }
    }
    assert forall|a: int| 0 <= a < v1.len() implies (#[trigger] v1[a]@ == name@ || exists|b: int|
        0 <= b < v0.len() && v0[b]@ == v1[a]@) by {
        if a < p {
            assert(v1[a] == v0[a]);
        } else if a > p {
            assert(v1[a] == v0[a - 1]);
        }
    }
    assert(v1[p as int]@ == name@);
    assert forall|b: int| #![trigger v0[b]] 0 <= b < v0.len() implies exists|a: int|
        0 <= a < v1.len() && #[trigger] v1[a]@ == v0[b]@ by {
        if b < p {
            assert(v1[b] == v0[b]);
        } else {
            assert(v1[b + 1] == v0[b]);
        }
    }
}

/// `str::split_once` with a character.
pub fn split_once_exec(s: &[char], c: char) -> (r: Option<(Vec<char>, Vec<char>)>)
    ensures
        match split_once(s@, c) {
            Some(p) => r is Some && r->Some_0.0@ == p.0 && r->Some_0.1@ == p.1,
            None => r is None,
        },
{
    let mut i: usize = 0;
    while i < s.len()
        invariant
            i <= s.len(),
            forall|j: int| 0 <= j < i ==> s@[j] != c,
        decreases s.len() - i,
    {
        if s[i] == c {
            assert(is_first_pos(s@, c, i as int));
            proof {
                let k = choose|k: int| is_first_pos(s@, c, k);
                if k < i {
                } else if k > i {
                }
                assert(k == i);
            }
            let a = slice_chars(s, 0, i);
            let b = slice_chars(s, i + 1, s.len());
            assert(a@ == s@.take(i as int));
            assert(b@ == s@.skip(i + 1));
            return Some((a, b));
        }
        i = i + 1;
    }
    assert(!exists|k: int| is_first_pos(s@, c, k));
    None
}


pub proof fn lemma_insert_sorted_set(r0: Seq<String>, r1: Seq<String>, name: Seq<char>)
    requires
        forall|a: int|
            0 <= a < r1.len() ==> (#[trigger] r1[a]@ == name || exists|b: int|
                0 <= b < r0.len() && r0[b]@ == r1[a]@),
        exists|a: int| 0 <= a < r1.len() && #[trigger] r1[a]@ == name,
        forall|b: int|
            #![trigger r0[b]]
            0 <= b < r0.len() ==> exists|a: int| 0 <= a < r1.len() && #[trigger] r1[a]@ == r0[b]@,
    ensures
        text_set(r1) == text_set(r0).insert(name),
{
    assert forall|x: Seq<char>| text_set(r1).contains(x) == text_set(r0).insert(name).contains(x) by {
        if text_set(r1).contains(x) {
            let a = choose|a: int| 0 <= a < r1.len() && #[trigger] r1[a]@ == x;
            if x != name {
                let b = choose|b: int| 0 <= b < r0.len() && r0[b]@ == r1[a]@;
                assert(r0[b]@ == x);
            }
        }
        if text_set(r0).contains(x) {
            let b = choose|b: int| 0 <= b < r0.len() && #[trigger] r0[b]@ == x;
            let a = choose|a: int| 0 <= a < r1.len() && #[trigger] r1[a]@ == r0[b]@;
            assert(r1[a]@ == x);
        }
    }
    assert(text_set(r1) =~= text_set(r0).insert(name));
}

/// Strictly ascending texts.
pub open spec fn ascending(r: Seq<String>) -> bool {
    forall|a: int, b: int| 0 <= a < b < r.len() ==> seq_le(r[a]@, r[b]@) && r[a]@ != r[b]@
}

/// The distinct texts of `v`, strictly ascending.
pub fn sorted_distinct(v: &[String]) -> (r: Vec<String>)
    ensures
        ascending(r@),
        text_set(r@) == text_set(v@),
{
    let mut r: Vec<String> = Vec::new();
    let mut i: usize = 0;
    assert(text_set(r@) =~= text_set(v@.take(0)));
    while i < v.len()
        invariant
            i <= v.len(),
            ascending(r@),
            text_set(r@) == text_set(v@.take(i as int)),
        decreases v.len() - i,
    {
        let ghost old_r = r@;
        insert_sorted(&mut r, v[i].as_str());
        proof {
            lemma_insert_sorted_set(old_r, r@, v@[i as int]@);
            lemma_text_set_take(v@, i as int);
        }
        i = i + 1;
    }
    assert(v@.take(i as int) =~= v@);
    r
}

/// Whether some element of `v` has the text `x`.
pub fn holds_exec(v: &[String], x: &str) -> (b: bool)
    ensures
        b == holds(v@, x@),
{
    let mut i: usize = 0;
    while i < v.len()
        invariant
            i <= v.len(),
            forall|q: int| 0 <= q < i ==> #[trigger] v@[q]@ != x@,
        decreases v.len() - i,
    {
        if str_eq_str(v[i].as_str(), x) {
            assert(text_set(v@).contains(x@));
            return true;
        }
        i = i + 1;
    }
    false
}


/// Pushing an element adds its text to the set of texts.
pub proof fn lemma_text_set_push(v: Seq<String>, x: String)
    ensures
        text_set(v.push(x)) == text_set(v).insert(x@),
{
    let w = v.push(x);
    assert(w.take(v.len() as int) == v);
    assert(w.take(v.len() + 1int) == w);
    lemma_text_set_take(w, v.len() as int);
}


/// `str::starts_with` with a string pattern.
pub fn str_starts_with(s: &str, pat: &str) -> (r: bool)
    ensures
        r == starts_with(s@, pat@),
{
    let a = chars_of(s);
    let b = chars_of(pat);
    starts_with_exec(&a, &b)
}


/// The texts of `a` that are not texts of `b`, ascending, each once.
pub fn sorted_difference(a: &Vec<String>, b: &Vec<String>) -> (r: Vec<String>)
    ensures
        ascending(r@),
        text_set(r@) == text_set(a@).difference(text_set(b@)),
{
    let mut kept: Vec<String> = Vec::new();
    let mut i: usize = 0;
    assert(text_set(kept@) =~= text_set(a@.take(0)).difference(text_set(b@)));
    while i < a.len()
        invariant
            i <= a@.len(),
            text_set(kept@) == text_set(a@.take(i as int)).difference(text_set(b@)),
        decreases a.len() - i,
    {
        proof {
            lemma_text_set_take(a@, i as int);
        }
        if !holds_exec(b.as_slice(), a[i].as_str()) {
            let ghost before = kept@;
            kept.push(a[i].clone());
            proof {
                crate::text::lemma_text_set_push(before, a@[i as int]);
                assert(text_set(kept@) =~= text_set(a@.take(i + 1)).difference(text_set(b@)));
            }
        } else {
            assert(text_set(kept@) =~= text_set(a@.take(i + 1)).difference(text_set(b@)));
        }
        i = i + 1;
    }
    assert(a@.take(a@.len() as int) == a@);
    sorted_distinct(kept.as_slice())
}

} // verus!
