//! Text: decimal numbers, padding, searching, ordering and cutting.
use vstd::prelude::*;
use vstd::string::StringExecFns;
use vstd::string::StrSliceExecFns;
use vstd::utf8::{decode_utf8, encode_utf8, is_char_boundary};

verus! {

/// `String::push` appends the given character to the end of the string.
pub assume_specification[ String::push ](s: &mut String, ch: char)
    ensures
        final(s)@ == old(s)@.push(ch),
;

/// `String::pop` removes the last character of the string and returns it; an empty string
/// stays as it is and gives `None`.
pub assume_specification[ String::pop ](s: &mut String) -> (removed: Option<char>)
    ensures
        old(s)@.len() == 0 ==> removed is None && final(s)@ == old(s)@,
        old(s)@.len() > 0 ==> removed == Some(old(s)@.last()) && final(s)@ == old(s)@.drop_last(),
;

/// The character of a decimal digit.
pub open spec fn digit(d: nat) -> char {
    (48 + d) as u8 as char
}

/// The decimal numeral of `n`, without leading zeros.
pub open spec fn numeral(n: nat) -> Seq<char>
    decreases n,
{
    if n < 10 {
        seq![digit(n)]
    } else {
        numeral(n / 10).push(digit(n % 10))
    }
}

/// The decimal numeral of a signed number.
pub open spec fn signed_numeral(n: int) -> Seq<char> {
    if n < 0 {
        seq!['-'] + numeral((-n) as nat)
    } else {
        numeral(n as nat)
    }
}

/// Writes a number in decimal.
pub fn decimal(n: u64) -> (s: String)
    ensures
        s@ == numeral(n as nat),
    decreases n,
{
    if n < 10 {
        let mut s = String::new();
        s.push((48u8 + n as u8) as char);
        s
    } else {
        let mut s = decimal(n / 10);
        s.push((48u8 + (n % 10) as u8) as char);
        s
    }
}

/// Writes a signed number in decimal.
pub fn signed_decimal(n: i32) -> (s: String)
    ensures
        s@ == signed_numeral(n as int),
{
    if n < 0 {
        let mut s = String::new();
        s.push('-');
        let magnitude: i64 = -(n as i64);
        let digits = decimal(magnitude as u64);
        s.append(digits.as_str());
        s
    } else {
        decimal(n as u64)
    }
}

/// `n` blanks.
pub open spec fn blank(n: nat) -> Seq<char> {
    Seq::new(n, |_i: int| ' ')
}

/// What a text of `len` characters lacks to fill a column of `width`.
pub open spec fn missing(len: nat, width: nat) -> nat {
    if len < width {
        (width - len) as nat
    } else {
        0
    }
}

/// A line of `n` times the character `c`.
pub fn repeated(c: char, n: usize) -> (s: String)
    ensures
        s@ == Seq::new(n as nat, |_i: int| c),
{
    let mut s = String::new();
    let mut k: usize = 0;
    while k < n
        invariant
            k <= n,
            s@ == Seq::new(k as nat, |_i: int| c),
        decreases n - k,
    {
        s.push(c);
        k = k + 1;
    }
    s
}

/// Aligns a text to the right in a column of `width` characters.
pub fn align_right(s: &str, width: usize) -> (padded: String)
    ensures
        padded@ == blank(missing(s@.len(), width as nat)) + s@,
{
    let blanks = repeated(' ', width.saturating_sub(s.unicode_len()));
    blanks.concat(s)
}

/// Aligns a text to the left in a column of `width` characters.
pub fn align_left(s: &str, width: usize) -> (padded: String)
    ensures
        padded@ == s@ + blank(missing(s@.len(), width as nat)),
{
    let blanks = repeated(' ', width.saturating_sub(s.unicode_len()));
    let text = s.to_owned();
    text.concat(blanks.as_str())
}

/// The characters of a string.
pub fn characters(s: &str) -> (chars: Vec<char>)
    ensures
        chars@ == s@,
{
    let mut chars: Vec<char> = Vec::new();
    for c in it: s.chars()
        invariant
            it.seq() == s@,
            chars@ == s@.take(it.index()),
    {
        chars.push(c);
    }
    chars
}

/// Whether `needle` stands in `s` from position `at` on.
pub open spec fn stands_at(s: Seq<char>, needle: Seq<char>, at: int) -> bool {
    0 <= at && at + needle.len() <= s.len() && s.subrange(at, at + needle.len()) == needle
}

/// Whether `needle` occurs in `s`.
pub open spec fn occurs(s: Seq<char>, needle: Seq<char>) -> bool {
    exists|at: int| stands_at(s, needle, at)
}

/// A text that stands somewhere occurs.
pub proof fn lemma_occurs_at(s: Seq<char>, needle: Seq<char>, at: int)
    requires
        0 <= at,
        at + needle.len() <= s.len(),
        s.subrange(at, at + needle.len()) =~= needle,
    ensures
        occurs(s, needle),
{
    assert(stands_at(s, needle, at));
}

/// What occurs in a part of a text occurs in the whole.
pub proof fn lemma_occurs_in_sum(a: Seq<char>, b: Seq<char>, needle: Seq<char>)
    ensures
        occurs(a, needle) ==> occurs(a + b, needle),
        occurs(b, needle) ==> occurs(a + b, needle),
{
    if occurs(a, needle) {
        let at = choose|at: int| stands_at(a, needle, at);
        assert((a + b).subrange(at, at + needle.len()) =~= a.subrange(at, at + needle.len()));
        assert(stands_at(a + b, needle, at));
    }
    if occurs(b, needle) {
        let at = choose|at: int| stands_at(b, needle, at);
        let there = a.len() + at;
        assert((a + b).subrange(there, there + needle.len()) =~= b.subrange(
            at,
            at + needle.len(),
        ));
        assert(stands_at(a + b, needle, there));
    }
}

/// Whether `a` stands before `b` in the order of code points.
pub open spec fn text_before(a: Seq<char>, b: Seq<char>) -> bool
    decreases a.len(),
{
    if b.len() == 0 {
        false
    } else if a.len() == 0 {
        true
    } else if a[0] != b[0] {
        (a[0] as u32) < (b[0] as u32)
    } else {
        text_before(a.drop_first(), b.drop_first())
    }
}

/// Looks for a text inside another.
pub fn occurs_in(s: &str, needle: &str) -> (found: bool)
    ensures
        found == occurs(s@, needle@),
{
    let hay = characters(s);
    let pat = characters(needle);
    if hay.len() < pat.len() {
        return false;
    }
    let mut at: usize = 0;
    let last: usize = hay.len() - pat.len();
    loop
        invariant
            hay@ == s@,
            pat@ == needle@,
            at <= last,
            last == hay.len() - pat.len(),
            forall|k: int| 0 <= k < at ==> !stands_at(s@, needle@, k),
        decreases last - at,
    {
        let mut k: usize = 0;
        while k < pat.len() && hay[at + k] == pat[k]
            invariant
                hay@ == s@,
                pat@ == needle@,
                at <= last,
                last == hay.len() - pat.len(),
                k <= pat.len(),
                forall|j: int| 0 <= j < k ==> hay@[at + j] == pat@[j],
            decreases pat.len() - k,
        {
            k = k + 1;
        }
        if k == pat.len() {
            proof {
                assert(s@.subrange(at as int, at + needle@.len()) =~= needle@);
                assert(stands_at(s@, needle@, at as int));
            }
            return true;
        }
        proof {
            assert(s@.subrange(at as int, at + needle@.len())[k as int] != needle@[k as int]);
        }
        if at == last {
            return false;
        }
        at = at + 1;
    }
}

proof fn lemma_before_step(a: Seq<char>, b: Seq<char>, k: int)
    requires
        0 <= k <= a.len(),
        k <= b.len(),
        forall|j: int| 0 <= j < k ==> a[j] == b[j],
    ensures
        text_before(a, b) == text_before(a.skip(k), b.skip(k)),
    decreases k,
{
    if k == 0 {
        assert(a.skip(0) =~= a);
        assert(b.skip(0) =~= b);
    } else {
        let (a1, b1) = (a.drop_first(), b.drop_first());
        lemma_before_step(a1, b1, k - 1);
        assert(a1.skip(k - 1) =~= a.skip(k));
        assert(b1.skip(k - 1) =~= b.skip(k));
    }
}

/// Compares two texts in the order of code points.
pub fn is_before(a: &str, b: &str) -> (before: bool)
    ensures
        before == text_before(a@, b@),
{
    let left = characters(a);
    let right = characters(b);
    let mut k: usize = 0;
    while k < left.len() && k < right.len() && left[k] == right[k]
        invariant
            left@ == a@,
            right@ == b@,
            k <= left.len(),
            k <= right.len(),
            forall|j: int| 0 <= j < k ==> a@[j] == b@[j],
        decreases left.len() - k,
    {
        k = k + 1;
    }
    proof {
        lemma_before_step(a@, b@, k as int);
    }
    if k == right.len() {
        false
    } else if k == left.len() {
        true
    } else {
        (left[k] as u32) < (right[k] as u32)
    }
}

/// No text stands before itself.
pub proof fn text_order_irreflexive(a: Seq<char>)
    ensures
        !text_before(a, a),
    decreases a.len(),
{
    if a.len() > 0 {
        text_order_irreflexive(a.drop_first());
    }
}

/// The order of texts is transitive.
pub proof fn text_order_transitive(a: Seq<char>, b: Seq<char>, c: Seq<char>)
    requires
        text_before(a, b),
        text_before(b, c),
    ensures
        text_before(a, c),
    decreases a.len(),
{
    if a.len() > 0 && b.len() > 0 && c.len() > 0 && a[0] == b[0] && b[0] == c[0] {
        text_order_transitive(a.drop_first(), b.drop_first(), c.drop_first());
    }
}

/// Of two different texts, one stands before the other.
pub proof fn text_order_total(a: Seq<char>, b: Seq<char>)
    requires
        a != b,
    ensures
        text_before(a, b) || text_before(b, a),
    decreases a.len(),
{
    if a.len() > 0 && b.len() > 0 && a[0] == b[0] {
        if a.drop_first() =~= b.drop_first() {
            assert(a =~= seq![a[0]] + a.drop_first());
            assert(b =~= seq![b[0]] + b.drop_first());
        }
        text_order_total(a.drop_first(), b.drop_first());
    } else if a.len() > 0 && b.len() > 0 {
        vstd::utf8::char_u32_cast(a[0], a[0] as u32);
        vstd::utf8::char_u32_cast(b[0], b[0] as u32);
    } else if a.len() == 0 && b.len() == 0 {
        assert(a =~= b);
    }
}

/// The number that a sequence of decimal digits stands for.
pub open spec fn digits_value(s: Seq<char>) -> int
    decreases s.len(),
{
    if s.len() == 0 {
        0
    } else {
        digits_value(s.drop_last()) * 10 + (s.last() as u32 - 48)
    }
}

/// Reading a numeral back gives the number it was written for.
pub proof fn numeral_reads_back(n: nat)
    ensures
        digits_value(numeral(n)) == n,
    decreases n,
{
    if n < 10 {
        assert(numeral(n).drop_last() =~= Seq::<char>::empty());
        assert(digits_value(Seq::<char>::empty()) == 0);
    } else {
        numeral_reads_back(n / 10);
        assert(numeral(n).drop_last() =~= numeral(n / 10));
    }
}

/// The whole number nearest to `n / d`; of two that are equally near, the even one.
pub open spec fn nearest(n: nat, d: nat) -> nat {
    let below = n / d;
    let rest = n % d;
    if 2 * rest < d || (2 * rest == d && below % 2 == 0) {
        below
    } else {
        below + 1
    }
}

/// Rounds the quotient of two numbers to a whole number.
pub fn rounded(n: u64, d: u64) -> (r: u64)
    requires
        d > 0,
    ensures
        r == nearest(n as nat, d as nat),
{
    let below: u64 = n / d;
    let rest: u64 = n % d;
    if rest < d - rest || (rest == d - rest && below % 2 == 0) {
        below
    } else {
        proof {
            if d == 1 {
                assert(n as int % 1 == 0);
            } else {
                assert(n as int / d as int <= n as int / 2) by (nonlinear_arith)
                    requires
                        d >= 2,
                        n >= 0,
                ;
            }
        }
        below + 1
    }
}

/// Rounding moves a quotient by at most one half.
pub proof fn nearest_is_near(n: nat, d: nat)
    requires
        d > 0,
    ensures
        2 * (n - nearest(n, d) * d) <= d,
        2 * (nearest(n, d) * d - n) <= d,
{
    vstd::arithmetic::div_mod::lemma_fundamental_div_mod(n as int, d as int);
    vstd::arithmetic::div_mod::lemma_mod_bound(n as int, d as int);
    let below = (n / d) as int;
    assert(d * below == below * d) by (nonlinear_arith);
    assert((below + 1) * d == below * d + d) by (nonlinear_arith);
}

/// The number of bytes of a name that are shown.
pub const SHOWN_BYTES: usize = 32;

/// The part of a name that is shown: its first bytes, as far as they reach.
pub open spec fn shown_part(name: Seq<char>) -> Seq<char> {
    if encode_utf8(name).len() > SHOWN_BYTES {
        decode_utf8(encode_utf8(name).subrange(0, SHOWN_BYTES as int))
    } else {
        name
    }
}

/// Whether the part of a name that is shown ends between two characters.
pub open spec fn cuts_cleanly(name: Seq<char>) -> bool {
    encode_utf8(name).len() > SHOWN_BYTES ==> is_char_boundary(
        encode_utf8(name),
        SHOWN_BYTES as int,
    )
}

/// Tests whether a name can be cut to its shown part.
pub fn can_cut(name: &str) -> (clean: bool)
    ensures
        clean == cuts_cleanly(name@),
{
    name.as_bytes().len() <= SHOWN_BYTES || name.is_char_boundary(SHOWN_BYTES)
}

/// Cuts a name to the part that is shown.
pub fn cut(name: &str) -> (part: &str)
    requires
        cuts_cleanly(name@),
    ensures
        part@ == shown_part(name@),
{
    if name.as_bytes().len() > SHOWN_BYTES {
        let (part, _rest) = name.split_at(SHOWN_BYTES);
        proof {
            vstd::utf8::encode_utf8_decode_utf8(part@);
        }
        part
    } else {
        name
    }
}

/// The shown part of a name is a beginning of it that takes no more bytes than are shown.
pub proof fn shown_part_is_a_prefix(name: Seq<char>)
    requires
        cuts_cleanly(name),
    ensures
        shown_part(name).is_prefix_of(name),
        encode_utf8(shown_part(name)).len() <= SHOWN_BYTES,
{
    let bytes = encode_utf8(name);
    vstd::utf8::encode_utf8_valid_utf8(name);
    if bytes.len() > SHOWN_BYTES {
        vstd::utf8::valid_utf8_split(bytes, SHOWN_BYTES as int);
        vstd::utf8::decode_utf8_split(bytes, SHOWN_BYTES as int);
        vstd::utf8::encode_utf8_decode_utf8(name);
        vstd::utf8::decode_utf8_encode_utf8(bytes.subrange(0, SHOWN_BYTES as int));
    }
}

proof fn lemma_no_fewer_bytes(s: Seq<char>)
    ensures
        s.len() <= encode_utf8(s).len(),
    decreases s.len(),
{
    if s.len() > 0 {
        lemma_no_fewer_bytes(s.drop_first());
    }
}

/// The shown part of a name has no more characters than bytes are shown.
pub proof fn shown_part_is_short(name: Seq<char>)
    requires
        cuts_cleanly(name),
    ensures
        shown_part(name).len() <= SHOWN_BYTES,
{
    shown_part_is_a_prefix(name);
    lemma_no_fewer_bytes(shown_part(name));
}

/// The lower-case form of a text, by the tables of Unicode.
pub uninterp spec fn lowercase(s: Seq<char>) -> Seq<char>;

/// `str::to_lowercase` gives the lower-case form of the text, which depends on the text
/// alone. The lower-case form of an empty text is empty. Which characters stand for which
/// is left to the tables of Unicode.
pub assume_specification[ str::to_lowercase ](s: &str) -> (lower: String)
    ensures
        lower@ == lowercase(s@),
        s@.len() == 0 ==> lower@.len() == 0,
;

/// The number of terminal columns that a text takes.
pub uninterp spec fn columns(s: Seq<char>) -> usize;

/// `unicode_width::UnicodeWidthStr::width` gives the number of columns that a text takes on
/// a terminal. It depends on the text alone; the widths of the characters are left to the
/// tables of the crate.
#[verifier::external_body]
pub(crate) fn text_columns(s: &str) -> (width: usize)
    ensures
        width == columns(s@),
{
    unicode_width::UnicodeWidthStr::width(s)
}

/// The text of a time span of a whole number of milliseconds.
pub uninterp spec fn span_text(millis: u64) -> Seq<char>;

/// The `Debug` form of `std::time::Duration`, such as `1s` or `50ms`. It depends on the
/// length of the span alone; the choice of the unit is left to the standard library.
#[verifier::external_body]
pub(crate) fn describe_span(millis: u64) -> (s: String)
    ensures
        s@ == span_text(millis),
{
    format!("{:?}", std::time::Duration::from_millis(millis))
}

/// Whether a text is the numeral of a number: decimal digits that read as the number, with no
/// zero before the others.
pub open spec fn writes(t: Seq<char>, n: int) -> bool {
    &&& t.len() > 0
    &&& forall|i: int| 0 <= i < t.len() ==> 48 <= #[trigger] t[i] as u32 <= 57
    &&& t.len() > 1 ==> t[0] != '0'
    &&& digits_value(t) == n
}

proof fn lemma_value_of_digits(t: Seq<char>)
    requires
        forall|i: int| 0 <= i < t.len() ==> 48 <= #[trigger] t[i] as u32 <= 57,
    ensures
        digits_value(t) >= 0,
        t.len() > 0 && t[0] != '0' ==> digits_value(t) > 0,
    decreases t.len(),
{
    if t.len() > 0 {
        let rest = t.drop_last();
        assert forall|i: int| 0 <= i < rest.len() implies 48 <= #[trigger] rest[i] as u32 <= 57 by {
            assert(rest[i] == t[i]);
        }
        lemma_value_of_digits(rest);
        vstd::utf8::char_u32_cast(t[0], t[0] as u32);
        if rest.len() > 0 {
            assert(rest[0] == t[0]);
        }
        assert(t.last() == t[t.len() - 1]);
    }
}

proof fn lemma_digit(d: nat)
    requires
        d < 10,
    ensures
        digit(d) as u32 == 48 + d,
{
}

proof fn lemma_numeral_writes(n: nat)
    ensures
        writes(numeral(n), n as int),
        n > 0 ==> numeral(n)[0] != '0',
    decreases n,
{
    numeral_reads_back(n);
    if n < 10 {
        lemma_digit(n);
    } else {
        lemma_numeral_writes(n / 10);
        lemma_digit(n % 10);
        assert forall|i: int| 0 <= i < numeral(n).len() implies 48 <= #[trigger] numeral(n)[i] as u32
            <= 57 by {
            if i < numeral(n / 10).len() {
                assert(numeral(n)[i] == numeral(n / 10)[i]);
            }
        }
        assert(numeral(n)[0] == numeral(n / 10)[0]);
    }
}

proof fn lemma_writes_is_numeral(t: Seq<char>, n: nat)
    requires
        writes(t, n as int),
    ensures
        t == numeral(n),
    decreases t.len(),
{
    let rest = t.drop_last();
    let last = t.last();
    assert(last == t[t.len() - 1]);
    let d = (last as u32 - 48) as nat;
    lemma_digit(d);
    vstd::utf8::char_u32_cast(last, last as u32);
    vstd::utf8::char_u32_cast(digit(d), digit(d) as u32);
    assert(last == digit(d));
    assert forall|i: int| 0 <= i < rest.len() implies 48 <= #[trigger] rest[i] as u32 <= 57 by {
        assert(rest[i] == t[i]);
    }
    lemma_value_of_digits(rest);
    if t.len() == 1 {
        assert(digits_value(rest) == 0);
        assert(t =~= seq![digit(n)]);
    } else {
        assert(rest[0] == t[0]);
        let v = digits_value(rest) as nat;
        assert(v > 0);
        assert(n == v * 10 + d);
        lemma_writes_is_numeral(rest, v);
        assert(n / 10 == v && n % 10 == d);
        assert(t =~= rest.push(last));
    }
}

/// The numeral of a number is the one text of decimal digits, with no zero before the others,
/// that reads as the number.
pub proof fn numerals_are_plain(n: nat, t: Seq<char>)
    ensures
        writes(t, n as int) <==> t == numeral(n),
{
    lemma_numeral_writes(n);
    if writes(t, n as int) {
        lemma_writes_is_numeral(t, n);
    }
}

/// A signed number is written as its size, after a minus where it is less than 0.
pub proof fn signs_come_first(n: int)
    ensures
        n >= 0 ==> writes(signed_numeral(n), n),
        n < 0 ==> signed_numeral(n)[0] == '-' && writes(signed_numeral(n).drop_first(), -n),
{
    if n < 0 {
        lemma_numeral_writes((-n) as nat);
        assert(signed_numeral(n).drop_first() =~= numeral((-n) as nat));
    } else {
        lemma_numeral_writes(n as nat);
    }
}

/// A text occurs in another exactly where the other is made of something, the text, and
/// something more.
pub proof fn an_occurrence_splits_the_text(s: Seq<char>, needle: Seq<char>)
    ensures
        occurs(s, needle) <==> exists|a: Seq<char>, b: Seq<char>| s == #[trigger] (a + needle + b),
{
    if occurs(s, needle) {
        let at = choose|at: int| stands_at(s, needle, at);
        let (a, b) = (s.take(at), s.skip(at + needle.len()));
        assert(s =~= a + needle + b) by {
            assert forall|i: int| 0 <= i < s.len() implies s[i] == (a + needle + b)[i] by {
                if at <= i < at + needle.len() {
                    assert(s.subrange(at, at + needle.len())[i - at] == needle[i - at]);
                }
            }
        }
    }
    if exists|a: Seq<char>, b: Seq<char>| s == #[trigger] (a + needle + b) {
        let (a, b) = choose|a: Seq<char>, b: Seq<char>| s == #[trigger] (a + needle + b);
        let at = a.len() as int;
        assert(s.subrange(at, at + needle.len()) =~= needle);
        assert(stands_at(s, needle, at));
    }
}

/// Texts are ordered by the first character in which they differ; a beginning of a text comes
/// before it.
pub proof fn the_first_difference_decides(
    common: Seq<char>,
    c: char,
    d: char,
    x: Seq<char>,
    y: Seq<char>,
)
    ensures
        (c as u32) < (d as u32) ==> text_before(common.push(c) + x, common.push(d) + y),
        text_before(common, common.push(c) + x),
        !text_before(common.push(c) + x, common),
        (c as u32) < (d as u32) ==> !text_before(common.push(d) + y, common.push(c) + x),
{
    let (a, b) = (common.push(c) + x, common.push(d) + y);
    let k = common.len() as int;
    assert forall|j: int| 0 <= j < k implies a[j] == b[j] by {
        assert(a[j] == common[j] && b[j] == common[j]);
    }
    lemma_before_step(a, b, k);
    lemma_before_step(b, a, k);
    assert(a.skip(k)[0] == c && b.skip(k)[0] == d);
    lemma_before_step(common, a, k);
    lemma_before_step(a, common, k);
    assert(common.skip(k).len() == 0);
    assert(a.skip(k).len() > 0);
}

/// Of two whole numbers that are equally near to a quotient, rounding takes the even one.
pub proof fn halves_go_to_the_even_number(n: nat, d: nat)
    requires
        d > 0,
    ensures
        2 * (n - nearest(n, d) * d) == d || 2 * (nearest(n, d) * d - n) == d ==> nearest(n, d) % 2
            == 0,
{
    vstd::arithmetic::div_mod::lemma_fundamental_div_mod(n as int, d as int);
    vstd::arithmetic::div_mod::lemma_mod_bound(n as int, d as int);
    let below = (n / d) as int;
    assert(d * below == below * d) by (nonlinear_arith);
    assert((below + 1) * d == below * d + d) by (nonlinear_arith);
}

/// A name of at most 32 bytes is shown whole; of a longer one that can be cut, 32 bytes are.
pub proof fn as_much_as_fits_is_shown(name: Seq<char>)
    requires
        cuts_cleanly(name),
    ensures
        encode_utf8(name).len() <= 32 ==> shown_part(name) == name,
        encode_utf8(name).len() > 32 ==> encode_utf8(shown_part(name)).len() == 32,
        shown_part(name) == name.take(shown_part(name).len() as int),
{
    let bytes = encode_utf8(name);
    shown_part_is_a_prefix(name);
    if bytes.len() > 32 {
        vstd::utf8::encode_utf8_valid_utf8(name);
        vstd::utf8::valid_utf8_split(bytes, 32);
        vstd::utf8::decode_utf8_encode_utf8(bytes.subrange(0, 32));
    }
    assert(shown_part(name) =~= name.take(shown_part(name).len() as int));
}

proof fn lemma_prefix_ends_at_a_boundary(name: Seq<char>, k: int)
    requires
        0 <= k <= name.len(),
    ensures
        vstd::utf8::valid_utf8(encode_utf8(name)),
        is_char_boundary(encode_utf8(name), encode_utf8(name.take(k)).len() as int),
        encode_utf8(name.take(k)).len() <= encode_utf8(name).len(),
    decreases k,
{
    vstd::utf8::encode_utf8_valid_utf8(name);
    let bytes = encode_utf8(name);
    let part = name.take(k);
    if k > 0 {
        lemma_prefix_ends_at_a_boundary(name.drop_first(), k - 1);
        vstd::utf8::encode_utf8_first_scalar(name);
        assert(part.drop_first() =~= name.drop_first().take(k - 1));
        assert(part[0] == name[0]);
        assert(vstd::utf8::pop_first_scalar(bytes) =~= encode_utf8(name.drop_first()));
    } else {
        assert(encode_utf8(part).len() == 0);
    }
}

/// A name can be cut exactly where it takes at most 32 bytes, or some beginning of it takes
/// exactly 32.
pub proof fn a_cut_falls_between_characters(name: Seq<char>)
    ensures
        cuts_cleanly(name) <==> encode_utf8(name).len() <= 32 || exists|k: int|
            0 <= k <= name.len() && #[trigger] encode_utf8(name.take(k)).len() == 32,
{
    if cuts_cleanly(name) && encode_utf8(name).len() > 32 {
        as_much_as_fits_is_shown(name);
        shown_part_is_a_prefix(name);
        let k = shown_part(name).len() as int;
        assert(encode_utf8(name.take(k)).len() == 32);
    }
    if exists|k: int| 0 <= k <= name.len() && #[trigger] encode_utf8(name.take(k)).len() == 32 {
        let k = choose|k: int|
            0 <= k <= name.len() && #[trigger] encode_utf8(name.take(k)).len() == 32;
        lemma_prefix_ends_at_a_boundary(name, k);
    }
}

/// Whether a whole number is the one nearest to `n / d`; of two that are equally near, the
/// even one.
pub open spec fn rounds_to(n: int, d: int, r: int) -> bool {
    &&& 2 * (n - r * d) <= d
    &&& 2 * (r * d - n) <= d
    &&& 2 * (n - r * d) == d || 2 * (r * d - n) == d ==> r % 2 == 0
}

/// Rounding gives the one whole number that is nearest, the even one of two.
pub proof fn rounding_is_determined(n: nat, d: nat, r: nat)
    requires
        d > 0,
    ensures
        rounds_to(n as int, d as int, r as int) <==> r == nearest(n, d),
{
    nearest_is_near(n, d);
    halves_go_to_the_even_number(n, d);
    let s = nearest(n, d);
    if rounds_to(n as int, d as int, r as int) && r != s {
        if r > s + 1 || s > r + 1 {
            assert(r * d >= s * d + 2 * d || s * d >= r * d + 2 * d) by (nonlinear_arith)
                requires
                    r > s + 1 || s > r + 1,
                    d > 0,
            ;
        } else {
            assert(r == s + 1 ==> r * d == s * d + d) by (nonlinear_arith);
            assert(s == r + 1 ==> s * d == r * d + d) by (nonlinear_arith);
        }
    }
}

/// The numeral of a larger number is no shorter.
pub proof fn larger_numbers_are_no_shorter(n: nat, m: nat)
    requires
        n <= m,
    ensures
        1 <= numeral(n).len() <= numeral(m).len(),
    decreases m,
{
    if m >= 10 {
        if n >= 10 {
            larger_numbers_are_no_shorter(n / 10, m / 10);
        } else {
            larger_numbers_are_no_shorter(0, m / 10);
        }
    }
}

/// Padding is made of blanks, just as many as a text lacks to fill its column.
pub proof fn padding_fills_the_column(len: nat, width: nat)
    ensures
        ({
            let padding = blank(missing(len, width));
            &&& len <= width ==> len + padding.len() == width
            &&& len >= width ==> padding.len() == 0
            &&& forall|i: int| 0 <= i < padding.len() ==> #[trigger] padding[i] == ' '
        }),
{
}

/// Whether a text ends with another.
pub open spec fn ends_with(s: Seq<char>, end: Seq<char>) -> bool {
    end.len() <= s.len() && s.skip(s.len() - end.len()) == end
}

} // verus!
