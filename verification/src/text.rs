//! Character-level string helpers shared by the rest of the library.

use vstd::prelude::*;
use vstd::string::StringExecFns;

verus! {

/// The characters of `s`, in order.
pub fn chars_of(s: &str) -> (v: Vec<char>)
    ensures
        v@ == s@,
{
    let mut v: Vec<char> = Vec::new();
    for c in it: s.chars()
        invariant
            v@ == it.seq().take(it.index() as int),
    {
        v.push(c);
    }
    v
}

/// Appends `c` to `s`.
///
/// Calls std's `String::push`, which the documentation describes as appending
/// the given `char` to the end of the string; the contract says exactly that.
#[verifier::external_body]
fn push_char(s: &mut String, c: char)
    ensures
        final(s)@ == old(s)@.push(c),
{
    s.push(c)
}

/// A `String` holding exactly the characters of `v`.
pub fn string_of(v: &[char]) -> (s: String)
    ensures
        s@ == v@,
{
    let mut s = String::new();
    let mut i: usize = 0;
    while i < v.len()
        invariant
            i <= v@.len(),
            s@ == v@.take(i as int),
        decreases v@.len() - i,
    {
        push_char(&mut s, v[i]);
        i = i + 1;
        assert(s@ =~= v@.take(i as int));
    }
    assert(v@.take(i as int) =~= v@);
    s
}

/// Whether `a` and `b` hold the same characters.
pub fn str_eq(a: &str, b: &str) -> (r: bool)
    ensures
        r == (a@ == b@),
{
    let x = chars_of(a);
    let y = chars_of(b);
    if x.len() != y.len() {
        return false;
    }
    let mut i: usize = 0;
    while i < x.len()
        invariant
            x@ == a@,
            y@ == b@,
            x@.len() == y@.len(),
            i <= x@.len(),
            forall|j: int| 0 <= j < i ==> x@[j] == y@[j],
        decreases x@.len() - i,
    {
        if x[i] != y[i] {
            assert(x@[i as int] != y@[i as int]);
            return false;
        }
        i = i + 1;
    }
    assert(x@ =~= y@);
    true
}

/// Number of bytes in the UTF-8 encoding of `s` (what `str::len` returns).
pub open spec fn utf8_len(s: Seq<char>) -> nat {
    vstd::utf8::encode_utf8(s).len()
}

/// Number of bytes in the UTF-8 encoding of `c`.
pub open spec fn char_width(c: char) -> nat {
    vstd::utf8::encode_scalar(c as u32).len()
}

/// The UTF-8 width of a character follows from its code point.
pub proof fn lemma_char_width(c: char)
    ensures
        char_width(c) == (if (c as u32) <= 0x7F {
            1nat
        } else if (c as u32) <= 0x7FF {
            2nat
        } else if (c as u32) <= 0xFFFF {
            3nat
        } else {
            4nat
        }),
        1 <= char_width(c) <= 4,
{
    vstd::utf8::char_is_scalar(c);
}

/// Encoding distributes over concatenation.
pub proof fn lemma_utf8_len_concat(a: Seq<char>, b: Seq<char>)
    ensures
        utf8_len(a + b) == utf8_len(a) + utf8_len(b),
    decreases a.len(),
{
    if a.len() == 0 {
        assert(a + b =~= b);
    } else {
        assert((a + b).drop_first() =~= a.drop_first() + b);
        lemma_utf8_len_concat(a.drop_first(), b);
    }
}

/// Adding one character to a prefix adds that character's width.
pub proof fn lemma_utf8_len_take_step(s: Seq<char>, k: int)
    requires
        0 <= k < s.len(),
    ensures
        utf8_len(s.take(k + 1)) == utf8_len(s.take(k)) + char_width(s[k]),
{
    assert(s.take(k + 1) =~= s.take(k) + seq![s[k]]);
    lemma_utf8_len_concat(s.take(k), seq![s[k]]);
    lemma_utf8_len_single(s[k]);
}

/// A single character is encoded in `char_width` bytes.
pub proof fn lemma_utf8_len_single(c: char)
    ensures
        utf8_len(seq![c]) == char_width(c),
{
    let e = vstd::utf8::encode_scalar(c as u32);
    assert(seq![c].drop_first() =~= Seq::<char>::empty());
    assert(vstd::utf8::encode_utf8(Seq::<char>::empty()) =~= Seq::<u8>::empty());
    assert(e + Seq::<u8>::empty() =~= e);
}

/// Number of leading characters of `s` whose encoding fits in `max` bytes.
pub open spec fn fitting_chars(s: Seq<char>, max: int) -> nat
    decreases s.len(),
{
    if s.len() == 0 || char_width(s[0]) > max {
        0
    } else {
        1 + fitting_chars(s.drop_first(), max - char_width(s[0]))
    }
}

/// `fitting_chars` keeps the longest prefix whose encoding fits in `max` bytes.
pub proof fn lemma_fitting_chars_longest(s: Seq<char>, max: int)
    requires
        max >= 0,
    ensures
        fitting_chars(s, max) <= s.len(),
        utf8_len(s.take(fitting_chars(s, max) as int)) <= max,
        fitting_chars(s, max) < s.len() ==> utf8_len(s.take(fitting_chars(s, max) + 1int)) > max,
    decreases s.len(),
{
    let k = fitting_chars(s, max);
    assert(utf8_len(Seq::<char>::empty()) == 0);
    if s.len() == 0 {
        assert(s.take(0) =~= Seq::<char>::empty());
    } else if char_width(s[0]) > max {
        assert(s.take(0) =~= Seq::<char>::empty());
        lemma_utf8_len_take_step(s, 0);
    } else {
        let t = s.drop_first();
        let m = max - char_width(s[0]);
        lemma_fitting_chars_longest(t, m);
        let j = fitting_chars(t, m);
        assert(s.take(k as int) =~= seq![s[0]] + t.take(j as int));
        lemma_utf8_len_concat(seq![s[0]], t.take(j as int));
        lemma_utf8_len_single(s[0]);
        if k < s.len() {
            assert(s.take(k + 1int) =~= seq![s[0]] + t.take(j + 1int));
            lemma_utf8_len_concat(seq![s[0]], t.take(j + 1int));
        }
    }
}

/// Unfolding `fitting_chars` one step inside a suffix.
proof fn lemma_fitting_chars_skip(s: Seq<char>, k: int, max: int)
    requires
        0 <= k < s.len(),
    ensures
        fitting_chars(s.skip(k), max) == (if char_width(s[k]) > max {
            0
        } else {
            1 + fitting_chars(s.skip(k + 1), max - char_width(s[k]))
        }),
{
    assert(s.skip(k).drop_first() =~= s.skip(k + 1));
}

/// Length of the longest prefix of `v` whose encoding fits in `max` bytes.
pub fn fitting_prefix_len(v: &Vec<char>, max: usize) -> (k: usize)
    ensures
        k == fitting_chars(v@, max as int),
{
    let mut k: usize = 0;
    let mut used: usize = 0;
    assert(v@.skip(0) =~= v@);
    while k < v.len()
        invariant
            k <= v@.len(),
            used <= max,
            fitting_chars(v@, max as int) == k + fitting_chars(v@.skip(k as int), max - used),
        decreases v@.len() - k,
    {
        let c = v[k];
        let cu = c as u32;
        let w: usize = if cu <= 0x7F {
            1
        } else if cu <= 0x7FF {
            2
        } else if cu <= 0xFFFF {
            3
        } else {
            4
        };
        proof {
            lemma_char_width(c);
            lemma_fitting_chars_skip(v@, k as int, max - used);
        }
        if w > max - used {
            return k;
        }
        used = used + w;
        k = k + 1;
    }
    assert(v@.skip(k as int) =~= Seq::<char>::empty());
    k
}

/// A `String` holding the first `k` characters of `v`.
pub fn string_of_prefix(v: &Vec<char>, k: usize) -> (s: String)
    requires
        k <= v@.len(),
    ensures
        s@ == v@.take(k as int),
{
    let mut s = String::new();
    let mut i: usize = 0;
    while i < k
        invariant
            k <= v@.len(),
            i <= k,
            s@ == v@.take(i as int),
        decreases k - i,
    {
        push_char(&mut s, v[i]);
        i = i + 1;
        assert(s@ =~= v@.take(i as int));
    }
    s
}

/// The longest prefix of `s` whose UTF-8 encoding fits in `max` bytes.
pub open spec fn utf8_prefix(s: Seq<char>, max: int) -> Seq<char> {
    s.take(fitting_chars(s, max) as int)
}

/// The longest prefix of `s` whose UTF-8 encoding is at most `max_bytes` long,
/// so that the cut never splits a character.
pub fn utf8_prefix_of(s: &str, max_bytes: usize) -> (r: String)
    ensures
        r@ == utf8_prefix(s@, max_bytes as int),
{
    let v = chars_of(s);
    let k = fitting_prefix_len(&v, max_bytes);
    proof {
        lemma_fitting_chars_longest(v@, max_bytes as int);
    }
    string_of_prefix(&v, k)
}

/// Unicode `White_Space` characters, the set that `char::is_whitespace` and
/// `str::trim` use.
pub open spec fn is_white_space(c: char) -> bool {
    let u = c as u32;
    ||| 0x09 <= u <= 0x0D
    ||| u == 0x20
    ||| u == 0x85
    ||| u == 0xA0
    ||| u == 0x1680
    ||| 0x2000 <= u <= 0x200A
    ||| u == 0x2028
    ||| u == 0x2029
    ||| u == 0x202F
    ||| u == 0x205F
    ||| u == 0x3000
}

/// Whether `c` is a Unicode `White_Space` character.
pub fn white_space(c: char) -> (r: bool)
    ensures
        r == is_white_space(c),
{
    let u = c as u32;
    (0x09 <= u && u <= 0x0D) || u == 0x20 || u == 0x85 || u == 0xA0 || u == 0x1680 || (0x2000
        <= u && u <= 0x200A) || u == 0x2028 || u == 0x2029 || u == 0x202F || u == 0x205F || u
        == 0x3000
}

/// `s` without its leading white space.
pub open spec fn trim_start(s: Seq<char>) -> Seq<char>
    decreases s.len(),
{
    if s.len() > 0 && is_white_space(s[0]) {
        trim_start(s.drop_first())
    } else {
        s
    }
}

/// `s` without its trailing white space.
pub open spec fn trim_end(s: Seq<char>) -> Seq<char>
    decreases s.len(),
{
    if s.len() > 0 && is_white_space(s.last()) {
        trim_end(s.drop_last())
    } else {
        s
    }
}

/// `s` without leading and trailing white space (what `str::trim` returns).
pub open spec fn trimmed(s: Seq<char>) -> Seq<char> {
    trim_end(trim_start(s))
}

/// Whether `s` holds nothing but white space.
pub open spec fn is_blank(s: Seq<char>) -> bool {
    forall|i: int| 0 <= i < s.len() ==> is_white_space(#[trigger] s[i])
}

proof fn lemma_trim_start_skip(s: Seq<char>, lo: int)
    requires
        0 <= lo < s.len(),
        is_white_space(s[lo]),
    ensures
        trim_start(s.skip(lo)) == trim_start(s.skip(lo + 1)),
{
    assert(s.skip(lo).drop_first() =~= s.skip(lo + 1));
}

proof fn lemma_trim_end_take(s: Seq<char>, hi: int)
    requires
        0 < hi <= s.len(),
        is_white_space(s[hi - 1]),
    ensures
        trim_end(s.take(hi)) == trim_end(s.take(hi - 1)),
{
    assert(s.take(hi).drop_last() =~= s.take(hi - 1));
}

/// Trimming an all-white-space sequence leaves nothing, and trimming
/// leaves nothing only for such a sequence.
pub proof fn lemma_trimmed_empty_iff_blank(s: Seq<char>)
    ensures
        (trimmed(s).len() == 0) == is_blank(s),
    decreases s.len(),
{
    lemma_trim_start_blank(s);
    let t = trim_start(s);
    if t.len() > 0 {
        lemma_trim_end_nonempty(t);
    }
}

proof fn lemma_trim_start_blank(s: Seq<char>)
    ensures
        (trim_start(s).len() == 0) == is_blank(s),
        trim_start(s).len() > 0 ==> !is_white_space(trim_start(s)[0]),
    decreases s.len(),
{
    if s.len() > 0 && is_white_space(s[0]) {
        lemma_trim_start_blank(s.drop_first());
        if !is_blank(s) {
            let i = choose|i: int| 0 <= i < s.len() && !is_white_space(#[trigger] s[i]);
            assert(s.drop_first()[i - 1] == s[i]);
        }
        if is_blank(s) {
            assert forall|i: int| 0 <= i < s.drop_first().len() implies is_white_space(
                #[trigger] s.drop_first()[i],
            ) by {
                assert(s.drop_first()[i] == s[i + 1]);
            }
        }
    } else if s.len() > 0 {
        assert(!is_white_space(s[0]));
    }
}

proof fn lemma_trim_end_nonempty(t: Seq<char>)
    requires
        t.len() > 0,
        !is_white_space(t[0]),
    ensures
        trim_end(t).len() > 0,
    decreases t.len(),
{
    if is_white_space(t.last()) {
        assert(t.len() > 1);
        assert(t.drop_last()[0] == t[0]);
        lemma_trim_end_nonempty(t.drop_last());
    }
}

/// `s` without leading and trailing white space.
pub fn trim(s: &str) -> (r: String)
    ensures
        r@ == trimmed(s@),
{
    let v = chars_of(s);
    let mut lo: usize = 0;
    assert(v@.skip(0) =~= v@);
    while lo < v.len() && white_space(v[lo])
        invariant
            lo <= v@.len(),
            trim_start(v@) == trim_start(v@.skip(lo as int)),
        decreases v@.len() - lo,
    {
        proof {
            lemma_trim_start_skip(v@, lo as int);
        }
        lo = lo + 1;
    }
    let ghost start = v@.skip(lo as int);
    assert(trim_start(v@) == start) by {
        if lo < v@.len() {
            assert(start[0] == v@[lo as int]);
        }
    }
    let mut hi: usize = v.len();
    assert(start.take(start.len() as int) =~= start);
    while hi > lo && white_space(v[hi - 1])
        invariant
            lo <= hi <= v@.len(),
            start == v@.skip(lo as int),
            trim_end(start) == trim_end(start.take(hi - lo)),
        decreases hi,
    {
        proof {
            assert(start[hi - lo - 1] == v@[hi - 1]);
            lemma_trim_end_take(start, hi - lo);
        }
        hi = hi - 1;
    }
    let ghost kept = start.take(hi - lo);
    assert(trim_end(kept) == kept) by {
        if hi > lo {
            assert(kept.last() == v@[hi - 1]);
        }
    }
    let mut r = String::new();
    let mut i: usize = lo;
    while i < hi
        invariant
            lo <= i <= hi <= v@.len(),
            r@ == v@.subrange(lo as int, i as int),
        decreases hi - i,
    {
        push_char(&mut r, v[i]);
        i = i + 1;
        assert(r@ =~= v@.subrange(lo as int, i as int));
    }
    assert(kept =~= v@.subrange(lo as int, hi as int));
    r
}

/// A prefix never encodes to more bytes than the whole.
pub proof fn lemma_utf8_len_take_le(s: Seq<char>, k: int)
    requires
        0 <= k <= s.len(),
    ensures
        utf8_len(s.take(k)) <= utf8_len(s),
{
    assert(s =~= s.take(k) + s.skip(k));
    lemma_utf8_len_concat(s.take(k), s.skip(k));
}

/// A sequence fits in `max` bytes exactly when all its characters do.
pub proof fn lemma_fits_iff(s: Seq<char>, max: int)
    requires
        max >= 0,
    ensures
        (fitting_chars(s, max) == s.len()) == (utf8_len(s) <= max),
{
    lemma_fitting_chars_longest(s, max);
    let k = fitting_chars(s, max);
    if k < s.len() {
        lemma_utf8_len_take_le(s, k + 1int);
    } else {
        assert(s.take(k as int) =~= s);
    }
}

/// Whether the UTF-8 encoding of `s` is at most `max_bytes` long.
pub fn fits_within(s: &str, max_bytes: usize) -> (r: bool)
    ensures
        r == (utf8_len(s@) <= max_bytes),
{
    let v = chars_of(s);
    let k = fitting_prefix_len(&v, max_bytes);
    proof {
        lemma_fits_iff(v@, max_bytes as int);
    }
    k == v.len()
}

/// Whether `prefix` is a prefix of the characters `v`.
pub fn chars_start_with(v: &Vec<char>, prefix: &str) -> (r: bool)
    ensures
        r == prefix@.is_prefix_of(v@),
{
    let b = chars_of(prefix);
    if b.len() > v.len() {
        return false;
    }
    let mut i: usize = 0;
    while i < b.len()
        invariant
            b@ == prefix@,
            b@.len() <= v@.len(),
            i <= b@.len(),
            forall|j: int| 0 <= j < i ==> v@[j] == b@[j],
        decreases b@.len() - i,
    {
        if v[i] != b[i] {
            assert(v@.subrange(0, b@.len() as int)[i as int] != b@[i as int]);
            return false;
        }
        i = i + 1;
    }
    assert(b@ =~= v@.subrange(0, b@.len() as int));
    true
}

/// Whether `prefix` is a prefix of `s`.
pub fn starts_with(s: &str, prefix: &str) -> (r: bool)
    ensures
        r == prefix@.is_prefix_of(s@),
{
    chars_start_with(&chars_of(s), prefix)
}

/// The decimal digit for `d` (`0 <= d < 16` gives a lower-case hex digit).
pub open spec fn digit_char(d: int) -> char {
    seq!['0', '1', '2', '3', '4', '5', '6', '7', '8', '9', 'a', 'b', 'c', 'd', 'e', 'f'][d]
}

/// The lower-case hexadecimal digit for `d < 16`.
pub fn digit(d: u8) -> (c: char)
    requires
        d < 16,
    ensures
        c == digit_char(d as int),
{
    let digits = ['0', '1', '2', '3', '4', '5', '6', '7', '8', '9', 'a', 'b', 'c', 'd', 'e', 'f'];
    assert(digits@ =~= seq![
        '0', '1', '2', '3', '4', '5', '6', '7', '8', '9', 'a', 'b', 'c', 'd', 'e', 'f',
    ]);
    digits[d as usize]
}

/// The decimal rendering of `n`, without leading zeros.
pub open spec fn decimal(n: nat) -> Seq<char>
    decreases n,
{
    if n < 10 {
        seq![digit_char(n as int)]
    } else {
        decimal(n / 10).push(digit_char((n % 10) as int))
    }
}

/// The decimal rendering of `n`.
pub fn decimal_string(n: usize) -> (s: String)
    ensures
        s@ == decimal(n as nat),
    decreases n,
{
    if n < 10 {
        let mut s = String::new();
        push_char(&mut s, digit(n as u8));
        assert(s@ =~= seq![digit_char(n as int)]);
        s
    } else {
        let mut s = decimal_string(n / 10);
        push_char(&mut s, digit((n % 10) as u8));
        s
    }
}

/// The lower-case hexadecimal rendering of `bytes`, two digits per byte.
pub open spec fn hex_lower(bytes: Seq<u8>) -> Seq<char>
    decreases bytes.len(),
{
    if bytes.len() == 0 {
        seq![]
    } else {
        hex_lower(bytes.drop_last()) + seq![
            digit_char((bytes.last() / 16) as int),
            digit_char((bytes.last() % 16) as int),
        ]
    }
}

/// The lower-case hexadecimal rendering of `bytes`.
pub fn hex_string(bytes: &[u8]) -> (s: String)
    ensures
        s@ == hex_lower(bytes@),
        s@.len() == 2 * bytes@.len(),
{
    let mut s = String::new();
    let mut i: usize = 0;
    assert(bytes@.take(0) =~= Seq::<u8>::empty());
    while i < bytes.len()
        invariant
            i <= bytes@.len(),
            s@ == hex_lower(bytes@.take(i as int)),
            s@.len() == 2 * i,
        decreases bytes@.len() - i,
    {
        let b = bytes[i];
        push_char(&mut s, digit(b / 16));
        push_char(&mut s, digit(b % 16));
        assert(bytes@.take(i + 1).drop_last() =~= bytes@.take(i as int));
        i = i + 1;
        assert(s@ =~= hex_lower(bytes@.take(i as int)));
    }
    assert(bytes@.take(i as int) =~= bytes@);
    s
}

/// `s` with every occurrence of the non-empty `from` replaced by `to`,
/// scanning left to right without overlaps (what `str::replace` returns).
pub open spec fn replace_all(s: Seq<char>, from: Seq<char>, to: Seq<char>) -> Seq<char>
    decreases s.len(),
{
    if from.len() == 0 || s.len() == 0 {
        s
    } else if from.is_prefix_of(s) {
        to + replace_all(s.skip(from.len() as int), from, to)
    } else {
        seq![s[0]] + replace_all(s.drop_first(), from, to)
    }
}

/// Whether `from` occurs in `v` at position `i`.
fn occurs_at(v: &Vec<char>, i: usize, from: &Vec<char>) -> (r: bool)
    requires
        i <= v@.len(),
    ensures
        r == from@.is_prefix_of(v@.skip(i as int)),
{
    if from.len() > v.len() - i {
        return false;
    }
    let mut j: usize = 0;
    while j < from.len()
        invariant
            i <= v@.len(),
            from@.len() <= v@.len() - i,
            v@.len() <= usize::MAX,
            j <= from@.len(),
            forall|k: int| 0 <= k < j ==> v@[i + k] == from@[k],
        decreases from@.len() - j,
    {
        if v[i + j] != from[j] {
            assert(v@.skip(i as int).subrange(0, from@.len() as int)[j as int] != from@[j as int]);
            return false;
        }
        j = j + 1;
    }
    assert(from@ =~= v@.skip(i as int).subrange(0, from@.len() as int));
    true
}

/// `s` with every occurrence of `from` replaced by `to`.
pub fn replace(s: &str, from: &str, to: &str) -> (r: String)
    requires
        from@.len() > 0,
    ensures
        r@ == replace_all(s@, from@, to@),
{
    let v = chars_of(s);
    let f = chars_of(from);
    let mut r = String::new();
    let mut i: usize = 0;
    assert(v@.skip(0) =~= v@);
    while i < v.len()
        invariant
            i <= v@.len(),
            f@ == from@,
            f@.len() > 0,
            v@ == s@,
            r@ + replace_all(v@.skip(i as int), f@, to@) == replace_all(s@, from@, to@),
        decreases v@.len() - i,
    {
        let ghost rest = v@.skip(i as int);
        let ghost before = r@;
        if occurs_at(&v, i, &f) {
            r.append(to);
            let ghost after = v@.skip(i + f@.len());
            assert(rest.skip(f@.len() as int) =~= after);
            assert(replace_all(rest, f@, to@) == to@ + replace_all(after, f@, to@));
            assert((before + to@) + replace_all(after, f@, to@) =~= before + (to@ + replace_all(
                after,
                f@,
                to@,
            )));
            i = i + f.len();
        } else {
            push_char(&mut r, v[i]);
            let ghost after = v@.skip(i + 1);
            assert(rest.drop_first() =~= after);
            assert(rest[0] == v@[i as int]);
            assert(replace_all(rest, f@, to@) == seq![v@[i as int]] + replace_all(after, f@, to@));
            assert(before.push(v@[i as int]) + replace_all(after, f@, to@) =~= before + (seq![
                v@[i as int],
            ] + replace_all(after, f@, to@)));
            i = i + 1;
        }
    }
    assert(v@.skip(i as int) =~= Seq::<char>::empty());
    assert(r@ + Seq::<char>::empty() =~= r@);
    r
}

/// Whether `s` holds nothing but white space (so that `s.trim()` is empty).
pub fn blank(s: &str) -> (r: bool)
    ensures
        r == is_blank(s@),
        r == (trimmed(s@).len() == 0),
{
    proof {
        lemma_trimmed_empty_iff_blank(s@);
    }
    let v = chars_of(s);
    let mut i: usize = 0;
    while i < v.len()
        invariant
            (trimmed(s@).len() == 0) == is_blank(s@),
            v@ == s@,
            i <= v@.len(),
            forall|j: int| 0 <= j < i ==> is_white_space(#[trigger] v@[j]),
        decreases v@.len() - i,
    {
        if !white_space(v[i]) {
            return false;
        }
        i = i + 1;
    }
    true
}

} // verus!
