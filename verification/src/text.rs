//! Text helpers: characters, decimal and hexadecimal numbers, splitting and trimming.

use vstd::prelude::*;

verus! {

/// `String::push` appends one character at the end of the string.
pub assume_specification[ String::push ](s: &mut String, c: char)
    ensures
        final(s)@ == old(s)@.push(c),
;

/// The characters of a string, in order.
pub fn chars_of(s: &str) -> (r: Vec<char>)
    ensures
        r@ == s@,
{
    let mut out: Vec<char> = Vec::new();
    for c in it: s.chars()
        invariant
            it.seq() == s@,
            out@ == s@.take(it.index()),
    {
        out.push(c);
        assert(s@.take(it.index() + 1) == s@.take(it.index()).push(c));
    }
    assert(s@.take(s@.len() as int) == s@);
    out
}

/// The string made of the given characters.
pub fn string_of(chars: &[char]) -> (r: String)
    ensures
        r@ == chars@,
{
    let mut out: String = String::new();
    let mut i: usize = 0;
    while i < chars.len()
        invariant
            i <= chars.len(),
            out@ == chars@.take(i as int),
        decreases chars.len() - i,
    {
        out.push(chars[i]);
        assert(chars@.take(i + 1) == chars@.take(i as int).push(chars@[i as int]));
        i += 1;
    }
    assert(chars@.take(chars@.len() as int) == chars@);
    out
}

/// Whether `c` is one of the ten decimal digits.
pub open spec fn is_digit(c: char) -> bool {
    '0' <= c && c <= '9'
}

/// The number that a decimal digit stands for.
pub open spec fn digit_value(c: char) -> nat {
    (c as u32 - '0' as u32) as nat
}

/// Whether every character is a decimal digit.
pub open spec fn all_digits(s: Seq<char>) -> bool {
    forall|i: int| 0 <= i < s.len() ==> is_digit(#[trigger] s[i])
}

/// The number that a run of decimal digits stands for.
pub open spec fn decimal_value(s: Seq<char>) -> nat
    decreases s.len(),
{
    if s.len() == 0 {
        0
    } else {
        10 * decimal_value(s.drop_last()) + digit_value(s.last())
    }
}

/// What remains of a number's text behind one leading `+`.
pub open spec fn unsigned_body(s: Seq<char>) -> Seq<char> {
    if s.len() > 0 && s[0] == '+' {
        s.skip(1)
    } else {
        s
    }
}

/// The number that `s` stands for: an optional `+`, then digits only, at least one, and no
/// more than `max`.
pub open spec fn unsigned_value(s: Seq<char>, max: int) -> Option<nat> {
    let body = unsigned_body(s);
    if body.len() > 0 && all_digits(body) && decimal_value(body) <= max {
        Some(decimal_value(body))
    } else {
        None
    }
}

/// A longer run of digits stands for a number that is no smaller.
proof fn lemma_decimal_monotone(s: Seq<char>, i: int)
    requires
        0 <= i <= s.len(),
        all_digits(s),
    ensures
        decimal_value(s.take(i)) <= decimal_value(s),
    decreases s.len() - i,
{
    if i < s.len() {
        lemma_decimal_monotone(s, i + 1);
        assert(s.take(i + 1).drop_last() == s.take(i));
        assert(is_digit(s[i]));
    } else {
        assert(s.take(i) == s);
    }
}

/// Reads an unsigned number of at most `max` from its text.
pub fn parse_unsigned(s: &[char], max: u64) -> (r: Option<u64>)
    ensures
        match r {
            Some(v) => unsigned_value(s@, max as int) == Some(v as nat),
            None => unsigned_value(s@, max as int) is None,
        },
{
    let start: usize = if s.len() > 0 && s[0] == '+' {
        1
    } else {
        0
    };
    let ghost body = unsigned_body(s@);
    assert(body == s@.skip(start as int));
    if start == s.len() {
        return None;
    }
    let mut value: u64 = 0;
    let mut i: usize = start;
    while i < s.len()
        invariant
            start <= i <= s.len(),
            body == s@.skip(start as int),
            body == unsigned_body(s@),
            body.len() > 0,
            all_digits(body.take(i - start)),
            value == decimal_value(body.take(i - start)),
            value <= max,
        decreases s.len() - i,
    {
        let c: char = s[i];
        assert(body[i - start] == c);
        if c < '0' || c > '9' {
            assert(!is_digit(body[i - start]));
            return None;
        }
        let d: u64 = c as u64 - '0' as u64;
        let ghost next = body.take(i - start + 1);
        assert(next.drop_last() == body.take(i - start));
        assert(next.last() == c);
        assert(decimal_value(next) == 10 * value + d);
        assert forall|j: int| 0 <= j < next.len() implies is_digit(#[trigger] next[j]) by {
            if j < i - start {
                assert(body.take(i - start)[j] == next[j]);
            }
        }
        if d > max || value > max / 10 || value * 10 > max - d {
            proof {
                if all_digits(body) {
                    lemma_decimal_monotone(body, i - start + 1);
                }
            }
            return None;
        }
        value = value * 10 + d;
        i += 1;
    }
    assert(body.take(body.len() as int) == body);
    Some(value)
}

/// The character that stands for a digit below sixteen, in lower case.
pub open spec fn digit_char(d: nat) -> char {
    if d < 10 {
        ('0' as u32 + d) as char
    } else {
        ('a' as u32 + d - 10) as char
    }
}

/// The shortest text of `n` in the given base.
pub open spec fn number_text(n: nat, base: nat) -> Seq<char>
    decreases n,
{
    if n < base || base < 2 {
        seq![digit_char(n)]
    } else {
        proof {
            assert(n / base < n) by (nonlinear_arith)
                requires
                    n >= base,
                    base >= 2,
            ;
        }
        number_text(n / base, base).push(digit_char(n % base))
    }
}

/// The shortest decimal text of `n`.
pub open spec fn decimal_text(n: nat) -> Seq<char> {
    number_text(n, 10)
}

/// The shortest hexadecimal text of `n`, in lower case.
pub open spec fn hex_text(n: nat) -> Seq<char> {
    number_text(n, 16)
}

/// Writes a number below `base` as one character.
fn digit_to_char(d: u8) -> (c: char)
    requires
        d < 16,
    ensures
        c == digit_char(d as nat),
{
    if d < 10 {
        (48u8 + d) as char
    } else {
        (97u8 + (d - 10)) as char
    }
}

/// Appends the shortest text of `n` in base ten or sixteen.
pub fn push_number(out: &mut Vec<char>, n: u64, base: u64)
    requires
        base == 10 || base == 16,
    ensures
        final(out)@ == old(out)@ + number_text(n as nat, base as nat),
    decreases n,
{
    if n >= base {
        push_number(out, n / base, base);
    }
    out.push(digit_to_char((n % base) as u8));
    assert(out@ == old(out)@ + number_text(n as nat, base as nat));
}

/// Whether `c` is a hexadecimal digit, in either case.
pub open spec fn is_hex_digit(c: char) -> bool {
    is_digit(c) || ('a' <= c && c <= 'f') || ('A' <= c && c <= 'F')
}

/// The number that a hexadecimal digit stands for.
pub open spec fn hex_digit_value(c: char) -> nat {
    if is_digit(c) {
        digit_value(c)
    } else if 'a' <= c {
        (c as u32 - 'a' as u32 + 10) as nat
    } else {
        (c as u32 - 'A' as u32 + 10) as nat
    }
}

/// Whether every character is a hexadecimal digit.
pub open spec fn all_hex(s: Seq<char>) -> bool {
    forall|i: int| 0 <= i < s.len() ==> is_hex_digit(#[trigger] s[i])
}

/// The number that a run of hexadecimal digits stands for.
pub open spec fn hex_value(s: Seq<char>) -> nat
    decreases s.len(),
{
    if s.len() == 0 {
        0
    } else {
        16 * hex_value(s.drop_last()) + hex_digit_value(s.last())
    }
}

/// Reading the decimal text of a number gives the number back.
pub proof fn lemma_decimal_text(n: nat)
    ensures
        all_digits(decimal_text(n)),
        decimal_text(n).len() > 0,
        decimal_value(decimal_text(n)) == n,
        n < 10 ==> decimal_text(n).len() == 1,
        n >= 10 ==> decimal_text(n)[0] != '0',
    decreases n,
{
    let t = decimal_text(n);
    if n < 10 {
        assert(t.drop_last() == Seq::<char>::empty());
        assert(decimal_value(t) == 10 * decimal_value(t.drop_last()) + digit_value(t.last()));
        assert(decimal_value(t.drop_last()) == 0);
    } else {
        lemma_decimal_text(n / 10);
        let p = decimal_text(n / 10);
        assert(t == p.push(digit_char(n % 10)));
        assert(t.drop_last() == p);
        if n / 10 < 10 {
            assert(p[0] == digit_char(n / 10));
        }
        assert(t[0] == p[0]);
        assert forall|i: int| 0 <= i < t.len() implies is_digit(#[trigger] t[i]) by {
            if i < p.len() {
                assert(t[i] == p[i]);
            }
        }
    }
}

/// Reading the hexadecimal text of a number gives the number back.
pub proof fn lemma_hex_text(n: nat)
    ensures
        all_hex(hex_text(n)),
        hex_text(n).len() > 0,
        hex_value(hex_text(n)) == n,
        n < 16 ==> hex_text(n).len() == 1,
        n >= 16 ==> hex_text(n).len() == hex_text(n / 16).len() + 1,
    decreases n,
{
    let t = hex_text(n);
    if n < 16 {
        assert(t.drop_last() == Seq::<char>::empty());
        assert(hex_value(t.drop_last()) == 0);
    } else {
        lemma_hex_text(n / 16);
        let p = hex_text(n / 16);
        assert(t == p.push(digit_char(n % 16)));
        assert(t.drop_last() == p);
        assert forall|i: int| 0 <= i < t.len() implies is_hex_digit(#[trigger] t[i]) by {
            if i < p.len() {
                assert(t[i] == p[i]);
            }
        }
    }
}

/// The pieces of `s` between the occurrences of `sep`; there is always at least one.
pub open spec fn pieces(s: Seq<char>, sep: char) -> Seq<Seq<char>>
    decreases s.len(),
{
    if s.len() == 0 {
        seq![Seq::<char>::empty()]
    } else {
        let p = pieces(s.drop_last(), sep);
        if s.last() == sep {
            p.push(Seq::<char>::empty())
        } else {
            p.update(p.len() - 1, p.last().push(s.last()))
        }
    }
}

/// The contents of a vector of character vectors.
pub open spec fn texts(v: Seq<Vec<char>>) -> Seq<Seq<char>> {
    Seq::new(v.len(), |i: int| v[i]@)
}

/// Text without the separator is one piece.
pub proof fn lemma_pieces_single(s: Seq<char>, sep: char)
    requires
        !s.contains(sep),
    ensures
        pieces(s, sep) == seq![s],
    decreases s.len(),
{
    if s.len() > 0 {
        assert(s.last() != sep) by {
            assert(s.contains(s.last()));
        }
        assert(!s.drop_last().contains(sep)) by {
            if s.drop_last().contains(sep) {
                let i = choose|i: int| 0 <= i < s.len() - 1 && s.drop_last()[i] == sep;
                assert(s[i] == sep);
            }
        }
        lemma_pieces_single(s.drop_last(), sep);
        assert(s.drop_last().push(s.last()) == s);
        assert(pieces(s, sep) == seq![s]);
    } else {
        assert(s == Seq::<char>::empty());
    }
}

/// There is at least one piece.
pub proof fn lemma_pieces_nonempty(s: Seq<char>, sep: char)
    ensures
        pieces(s, sep).len() > 0,
    decreases s.len(),
{
    if s.len() > 0 {
        lemma_pieces_nonempty(s.drop_last(), sep);
    }
}

/// The pieces of two texts joined by the separator are the pieces of both.
pub proof fn lemma_pieces_join(a: Seq<char>, b: Seq<char>, sep: char)
    ensures
        pieces(a + seq![sep] + b, sep) == pieces(a, sep) + pieces(b, sep),
    decreases b.len(),
{
    let s = a + seq![sep] + b;
    lemma_pieces_nonempty(a, sep);
    lemma_pieces_nonempty(b, sep);
    if b.len() == 0 {
        assert(s.drop_last() == a);
        assert(pieces(s, sep) == pieces(a, sep).push(Seq::<char>::empty()));
        assert(pieces(s, sep) =~= pieces(a, sep) + pieces(b, sep));
    } else {
        let b1 = b.drop_last();
        lemma_pieces_nonempty(b1, sep);
        lemma_pieces_join(a, b1, sep);
        assert(s.drop_last() == a + seq![sep] + b1);
        assert(s.last() == b.last());
        let p = pieces(a, sep) + pieces(b1, sep);
        assert(p.last() == pieces(b1, sep).last());
        assert(pieces(s, sep) =~= pieces(a, sep) + pieces(b, sep));
    }
}

/// Splits text at every occurrence of a separator.
pub fn split_at_each(s: &[char], sep: char) -> (r: Vec<Vec<char>>)
    ensures
        texts(r@) == pieces(s@, sep),
        r@.len() > 0,
{
    let mut out: Vec<Vec<char>> = Vec::new();
    let mut current: Vec<char> = Vec::new();
    let mut i: usize = 0;
    while i < s.len()
        invariant
            i <= s.len(),
            pieces(s@.take(i as int), sep) == texts(out@).push(current@),
        decreases s.len() - i,
    {
        let c: char = s[i];
        assert(s@.take(i + 1).drop_last() == s@.take(i as int));
        if c == sep {
            let ghost old_out = out@;
            let ghost piece = current@;
            out.push(current);
            current = Vec::new();
            assert(texts(out@) =~= texts(old_out).push(piece));
            assert(pieces(s@.take(i + 1), sep) =~= texts(out@).push(current@));
        } else {
            current.push(c);
            assert(pieces(s@.take(i + 1), sep) =~= texts(out@).push(current@));
        }
        i += 1;
    }
    assert(s@.take(s@.len() as int) == s@);
    let ghost old_out = out@;
    let ghost piece = current@;
    out.push(current);
    assert(texts(out@) =~= texts(old_out).push(piece));
    out
}

/// The characters with the Unicode property White_Space.
pub open spec fn is_white_space(c: char) -> bool {
    let n = c as u32;
    ||| 0x09 <= n <= 0x0d
    ||| n == 0x20
    ||| n == 0x85
    ||| n == 0xa0
    ||| n == 0x1680
    ||| 0x2000 <= n <= 0x200a
    ||| n == 0x2028
    ||| n == 0x2029
    ||| n == 0x202f
    ||| n == 0x205f
    ||| n == 0x3000
}

/// Whether `c` is white space.
pub fn white_space(c: char) -> (r: bool)
    ensures
        r == is_white_space(c),
{
    let n: u32 = c as u32;
    (0x09 <= n && n <= 0x0d) || n == 0x20 || n == 0x85 || n == 0xa0 || n == 0x1680 || (0x2000 <= n
        && n <= 0x200a) || n == 0x2028 || n == 0x2029 || n == 0x202f || n == 0x205f || n == 0x3000
}

/// `s` without the white space at its front.
pub open spec fn trim_front(s: Seq<char>) -> Seq<char>
    decreases s.len(),
{
    if s.len() > 0 && is_white_space(s[0]) {
        trim_front(s.skip(1))
    } else {
        s
    }
}

/// `s` without the white space at its end.
pub open spec fn trim_back(s: Seq<char>) -> Seq<char>
    decreases s.len(),
{
    if s.len() > 0 && is_white_space(s.last()) {
        trim_back(s.drop_last())
    } else {
        s
    }
}

/// `s` without the white space at either end.
pub open spec fn trimmed(s: Seq<char>) -> Seq<char> {
    trim_back(trim_front(s))
}

/// Text that neither starts nor ends with white space is its own trimmed form.
pub proof fn lemma_trimmed_id(s: Seq<char>)
    requires
        s.len() > 0 ==> !is_white_space(s[0]) && !is_white_space(s.last()),
    ensures
        trimmed(s) == s,
{
}

/// Removes the white space at both ends.
pub fn trim(s: &[char]) -> (r: &[char])
    ensures
        r@ == trimmed(s@),
{
    let mut i: usize = 0;
    assert(s@.skip(0) == s@);
    while i < s.len() && white_space(s[i])
        invariant
            i <= s.len(),
            trim_front(s@.skip(i as int)) == trim_front(s@),
        decreases s.len() - i,
    {
        assert(s@.skip(i as int).skip(1) == s@.skip(i + 1));
        i += 1;
    }
    let ghost front = trim_front(s@);
    assert(front == s@.skip(i as int));
    let mut j: usize = s.len();
    assert(s@.subrange(i as int, j as int) == front);
    while j > i && white_space(s[j - 1])
        invariant
            i <= j <= s.len(),
            trim_back(s@.subrange(i as int, j as int)) == trim_back(front),
        decreases j,
    {
        assert(s@.subrange(i as int, j as int).drop_last() == s@.subrange(i as int, j - 1));
        j -= 1;
    }
    vstd::slice::slice_subrange(s, i, j)
}

/// The lower-case form of an ASCII letter; every other character is itself.
pub open spec fn lower_char(c: char) -> char {
    if 'A' <= c && c <= 'Z' {
        (c as u32 + 32) as char
    } else {
        c
    }
}

/// `s` with every ASCII letter in lower case.
pub open spec fn ascii_lower(s: Seq<char>) -> Seq<char> {
    s.map_values(|c: char| lower_char(c))
}

/// Puts an ASCII letter into lower case.
pub fn to_lower(c: char) -> (r: char)
    ensures
        r == lower_char(c),
{
    if 'A' <= c && c <= 'Z' {
        (c as u8 + 32) as char
    } else {
        c
    }
}

/// The lower-case form of a text, over all of Unicode.
pub uninterp spec fn lowercased(s: Seq<char>) -> Seq<char>;

/// `str::to_lowercase`: the lower-case form of the text, which depends on the text alone; of
/// ASCII text only the letters `A` to `Z` change.
pub assume_specification[ str::to_lowercase ](s: &str) -> (r: String)
    ensures
        r@ == lowercased(s@),
        vstd::utf8::is_ascii_chars(s@) ==> r@ == ascii_lower(s@),
;

/// Whether two texts agree but for the case of their ASCII letters.
pub fn eq_ignore_case(a: &str, b: &str) -> (r: bool)
    ensures
        r == (ascii_lower(a@) == ascii_lower(b@)),
{
    let x: Vec<char> = chars_of(a);
    let y: Vec<char> = chars_of(b);
    if x.len() != y.len() {
        assert(ascii_lower(a@).len() != ascii_lower(b@).len());
        return false;
    }
    let mut i: usize = 0;
    while i < x.len()
        invariant
            i <= x.len(),
            x.len() == y.len(),
            x@ == a@,
            y@ == b@,
            forall|j: int| 0 <= j < i ==> lower_char(#[trigger] x@[j]) == lower_char(y@[j]),
        decreases x.len() - i,
    {
        if to_lower(x[i]) != to_lower(y[i]) {
            assert(ascii_lower(a@)[i as int] != ascii_lower(b@)[i as int]);
            return false;
        }
        i += 1;
    }
    assert(ascii_lower(a@) =~= ascii_lower(b@));
    true
}

/// Whether two texts are the same.
pub fn same_text(a: &str, b: &str) -> (r: bool)
    ensures
        r == (a@ == b@),
{
    same_chars(chars_of(a).as_slice(), chars_of(b).as_slice())
}

/// Whether two runs of characters are the same.
pub fn same_chars(x: &[char], y: &[char]) -> (r: bool)
    ensures
        r == (x@ == y@),
{
    if x.len() != y.len() {
        return false;
    }
    let mut i: usize = 0;
    while i < x.len()
        invariant
            i <= x.len(),
            x.len() == y.len(),
            forall|j: int| 0 <= j < i ==> #[trigger] x@[j] == y@[j],
        decreases x.len() - i,
    {
        if x[i] != y[i] {
            return false;
        }
        i += 1;
    }
    assert(x@ =~= y@);
    true
}

/// The text of std's error about bytes that are not UTF-8.
pub uninterp spec fn utf8_error(bytes: Seq<u8>) -> Seq<char>;

/// `String::from_utf8`: the text that the bytes encode, or, where they are not UTF-8, the text of
/// the error, which depends on the bytes alone.
#[verifier::external_body]
pub(crate) fn utf8_text(bytes: Vec<u8>) -> (r: Result<String, String>)
    ensures
        match r {
            Ok(s) => vstd::utf8::valid_utf8(bytes@) && s@ == vstd::utf8::decode_utf8(bytes@),
            Err(e) => !vstd::utf8::valid_utf8(bytes@) && e@ == utf8_error(bytes@),
        },
{
    String::from_utf8(bytes).map_err(|e| e.utf8_error().to_string())
}

/// The bytes of a slice in a vector of their own.
pub fn bytes_of(s: &[u8]) -> (r: Vec<u8>)
    ensures
        r@ == s@,
{
    let mut out: Vec<u8> = Vec::new();
    push_bytes(&mut out, s);
    assert(out@ =~= s@);
    out
}

/// Appends bytes.
pub fn push_bytes(out: &mut Vec<u8>, more: &[u8])
    ensures
        final(out)@ == old(out)@ + more@,
{
    let mut i: usize = 0;
    while i < more.len()
        invariant
            i <= more@.len(),
            out@ == old(out)@ + more@.take(i as int),
        decreases more@.len() - i,
    {
        out.push(more[i]);
        i += 1;
        assert(out@ =~= old(out)@ + more@.take(i as int));
    }
    assert(more@.take(more@.len() as int) =~= more@);
}

/// Appends characters.
pub fn push_chars(out: &mut Vec<char>, more: &[char])
    ensures
        final(out)@ == old(out)@ + more@,
{
    let mut i: usize = 0;
    while i < more.len()
        invariant
            i <= more@.len(),
            out@ == old(out)@ + more@.take(i as int),
        decreases more@.len() - i,
    {
        out.push(more[i]);
        i += 1;
        assert(out@ =~= old(out)@ + more@.take(i as int));
    }
    assert(more@.take(more@.len() as int) =~= more@);
}

/// Appends text.
pub fn push_text(out: &mut Vec<char>, more: &str)
    ensures
        final(out)@ == old(out)@ + more@,
{
    push_chars(out, chars_of(more).as_slice());
}

/// A text in a string of its own.
pub fn owned(s: &str) -> (r: String)
    ensures
        r@ == s@,
{
    string_of(chars_of(s).as_slice())
}

/// Two texts one after the other.
pub fn concat(a: &str, b: &str) -> (r: String)
    ensures
        r@ == a@ + b@,
{
    let mut out: Vec<char> = chars_of(a);
    push_text(&mut out, b);
    string_of(out.as_slice())
}

/// Three texts one after the other.
pub fn concat3(a: &str, b: &str, c: &str) -> (r: String)
    ensures
        r@ == a@ + b@ + c@,
{
    let mut out: Vec<char> = chars_of(a);
    push_text(&mut out, b);
    push_text(&mut out, c);
    string_of(out.as_slice())
}

/// The first index of `c` at or behind `i`; `-1` if there is none.
pub open spec fn first_index(s: Seq<char>, c: char, i: int) -> int
    decreases s.len() - i,
{
    if i >= s.len() {
        -1
    } else if s[i] == c {
        i
    } else {
        first_index(s, c, i + 1)
    }
}

/// The last index of `c`; `-1` if there is none.
pub open spec fn last_index(s: Seq<char>, c: char) -> int
    decreases s.len(),
{
    if s.len() == 0 {
        -1
    } else if s.last() == c {
        s.len() - 1
    } else {
        last_index(s.drop_last(), c)
    }
}

/// The last index of a character is one of the text, or `-1`.
pub proof fn lemma_last_index_bound(s: Seq<char>, c: char)
    ensures
        -1 <= last_index(s, c) < s.len(),
    decreases s.len(),
{
    if s.len() > 0 && s.last() != c {
        lemma_last_index_bound(s.drop_last(), c);
    }
}

/// Finds the first occurrence of a character.
pub fn find_first(s: &[char], c: char) -> (r: Option<usize>)
    ensures
        match r {
            Some(i) => first_index(s@, c, 0) == i && i < s@.len() && s@[i as int] == c,
            None => first_index(s@, c, 0) < 0,
        },
{
    let mut i: usize = 0;
    while i < s.len()
        invariant
            i <= s@.len(),
            first_index(s@, c, 0) == first_index(s@, c, i as int),
        decreases s@.len() - i,
    {
        if s[i] == c {
            return Some(i);
        }
        i += 1;
    }
    None
}

/// Finds the last occurrence of a character.
pub fn find_last(s: &[char], c: char) -> (r: Option<usize>)
    ensures
        match r {
            Some(i) => last_index(s@, c) == i && i < s@.len(),
            None => last_index(s@, c) < 0,
        },
{
    let mut n: usize = s.len();
    assert(s@.take(n as int) =~= s@);
    while n > 0
        invariant
            n <= s@.len(),
            last_index(s@, c) == last_index(s@.take(n as int), c),
        decreases n,
    {
        assert(s@.take(n as int).last() == s@[n - 1]);
        assert(s@.take(n as int).drop_last() =~= s@.take(n - 1));
        if s[n - 1] == c {
            return Some(n - 1);
        }
        n -= 1;
    }
    None
}

/// Where the first occurrence is, in text that has none before `k`.
pub proof fn lemma_first_index(s: Seq<char>, c: char, i: int, k: int)
    requires
        0 <= i <= k < s.len(),
        s[k] == c,
        forall|j: int| i <= j < k ==> s[j] != c,
    ensures
        first_index(s, c, i) == k,
    decreases k - i,
{
    if i < k {
        lemma_first_index(s, c, i + 1, k);
    }
}

/// Whether every character is white space.
pub open spec fn all_white_space(s: Seq<char>) -> bool {
    forall|i: int| 0 <= i < s.len() ==> is_white_space(#[trigger] s[i])
}

proof fn lemma_trim_front_skips(front: Seq<char>, rest: Seq<char>)
    requires
        all_white_space(front),
        rest.len() > 0 ==> !is_white_space(rest[0]),
    ensures
        trim_front(front + rest) == rest,
    decreases front.len(),
{
    let s = front + rest;
    if front.len() > 0 {
        assert(is_white_space(front[0]));
        assert(s[0] == front[0]);
        assert(s.skip(1) =~= front.skip(1) + rest);
        assert forall|i: int| 0 <= i < front.skip(1).len() implies is_white_space(
            #[trigger] front.skip(1)[i],
        ) by {
            assert(is_white_space(front[i + 1]));
        }
        lemma_trim_front_skips(front.skip(1), rest);
    } else {
        assert(s =~= rest);
    }
}

proof fn lemma_trim_back_skips(rest: Seq<char>, back: Seq<char>)
    requires
        all_white_space(back),
        rest.len() > 0 ==> !is_white_space(rest.last()),
    ensures
        trim_back(rest + back) == rest,
    decreases back.len(),
{
    let s = rest + back;
    if back.len() > 0 {
        assert(is_white_space(back[back.len() - 1]));
        assert(s.last() == back.last());
        assert(s.drop_last() =~= rest + back.drop_last());
        assert forall|i: int| 0 <= i < back.drop_last().len() implies is_white_space(
            #[trigger] back.drop_last()[i],
        ) by {
            assert(is_white_space(back[i]));
        }
        lemma_trim_back_skips(rest, back.drop_last());
    } else {
        assert(s =~= rest);
    }
}

/// White space around a text goes, however much there is, and nothing of the text itself does.
pub proof fn law_trimming_leaves_the_text(front: Seq<char>, body: Seq<char>, back: Seq<char>)
    requires
        all_white_space(front),
        all_white_space(back),
        body.len() > 0 ==> !is_white_space(body[0]) && !is_white_space(body.last()),
    ensures
        trimmed(front + body + back) == body,
{
    if body.len() > 0 {
        assert(front + body + back =~= front + (body + back));
        assert((body + back)[0] == body[0]);
        lemma_trim_front_skips(front, body + back);
        lemma_trim_back_skips(body, back);
    } else {
        let all = front + body + back;
        assert forall|i: int| 0 <= i < all.len() implies is_white_space(#[trigger] all[i]) by {
            if i < front.len() {
                assert(is_white_space(front[i]));
            } else {
                assert(all[i] == back[i - front.len()]);
            }
        }
        lemma_trim_front_skips(all, Seq::empty());
        assert(all + Seq::<char>::empty() =~= all);
        assert(body =~= Seq::<char>::empty());
    }
}

/// Of the ASCII characters, white space is the tab, the line ends and page marks up to the
/// carriage return, and the blank.
pub proof fn law_ascii_white_space(c: char)
    requires
        c as u32 <= 127,
    ensures
        is_white_space(c) <==> c == ' ' || (9 <= c as u32 && c as u32 <= 13),
{
}

/// One more digit makes ten times the number and that digit; the texts of numbers are read by it.
pub proof fn law_digits_append(s: Seq<char>, d: nat)
    requires
        d < 10,
    ensures
        decimal_value(s.push(digit_char(d))) == 10 * decimal_value(s) + d,
        decimal_value(Seq::<char>::empty()) == 0,
        digit_char(d) as u32 == 48 + d,
{
    assert(s.push(digit_char(d)).drop_last() =~= s);
}

/// Zeros in front of a number do not change it.
pub proof fn law_leading_zeros_do_not_count(zeros: Seq<char>, s: Seq<char>)
    requires
        forall|i: int| 0 <= i < zeros.len() ==> #[trigger] zeros[i] == '0',
    ensures
        decimal_value(zeros + s) == decimal_value(s),
    decreases zeros.len() + s.len(),
{
    let t = zeros + s;
    if s.len() > 0 {
        assert(t.drop_last() =~= zeros + s.drop_last());
        assert(t.last() == s.last());
        law_leading_zeros_do_not_count(zeros, s.drop_last());
    } else if zeros.len() > 0 {
        assert(t =~= zeros);
        assert(zeros[zeros.len() - 1] == '0');
        let z = zeros.drop_last();
        assert forall|i: int| 0 <= i < z.len() implies #[trigger] z[i] == '0' by {
            assert(zeros[i] == '0');
        }
        law_leading_zeros_do_not_count(z, Seq::empty());
        assert(z + Seq::<char>::empty() =~= z);
        assert(s =~= Seq::<char>::empty());
    } else {
        assert(t =~= s);
    }
}

/// The decimal text of a number, with zeros in front of it or not and with one plus sign in front
/// of both or not, is read as that number, exactly if it is no more than allowed.
pub proof fn law_number_texts_are_read(n: nat, zeros: Seq<char>, max: int)
    requires
        forall|i: int| 0 <= i < zeros.len() ==> #[trigger] zeros[i] == '0',
    ensures
        unsigned_value(zeros + decimal_text(n), max) == (if n <= max {
            Some(n)
        } else {
            None
        }),
        unsigned_value(seq!['+'] + zeros + decimal_text(n), max) == (if n <= max {
            Some(n)
        } else {
            None
        }),
{
    let t = decimal_text(n);
    lemma_decimal_text(n);
    law_leading_zeros_do_not_count(zeros, t);
    let s = zeros + t;
    assert forall|i: int| 0 <= i < s.len() implies is_digit(#[trigger] s[i]) by {
        if i < zeros.len() {
            assert(zeros[i] == '0');
        } else {
            assert(is_digit(t[i - zeros.len()]));
        }
    }
    assert(is_digit(s[0]));
    let p = seq!['+'] + zeros + t;
    assert(p[0] == '+');
    assert(p.skip(1) =~= s);
}

/// A text with anything but digits behind its first character, or with anything but a digit or a
/// plus sign as its first, is no number; neither is no text, nor a plus sign alone.
pub proof fn law_other_texts_are_no_numbers(s: Seq<char>, max: int)
    requires
        s.len() == 0 || s == seq!['+'] || (s[0] != '+' && !is_digit(s[0])) || exists|i: int|
            1 <= i < s.len() && !is_digit(#[trigger] s[i]),
    ensures
        unsigned_value(s, max) is None,
{
    let body = unsigned_body(s);
    if s.len() > 0 && s != seq!['+'] {
        if s[0] != '+' && !is_digit(s[0]) {
            assert(body[0] == s[0]);
        } else {
            let i = choose|i: int| 1 <= i < s.len() && !is_digit(#[trigger] s[i]);
            if s[0] == '+' {
                assert(body[i - 1] == s[i]);
            } else {
                assert(body[i] == s[i]);
            }
        }
    }
}

/// Lower case changes the letters from A to Z by thirty-two, and nothing else; doing it again
/// changes nothing.
pub proof fn law_lower_case(s: Seq<char>)
    ensures
        ascii_lower(s).len() == s.len(),
        forall|i: int|
            0 <= i < s.len() ==> (if 65 <= s[i] as u32 && s[i] as u32 <= 90 {
                #[trigger] ascii_lower(s)[i] as u32 == s[i] as u32 + 32
            } else {
                ascii_lower(s)[i] == s[i]
            }),
        ascii_lower(ascii_lower(s)) == ascii_lower(s),
{
    assert(ascii_lower(ascii_lower(s)) =~= ascii_lower(s));
}

/// The first index of a character is one at which it stands, with none before it; there is none
/// exactly if the text does not hold the character.
pub proof fn law_first_index(s: Seq<char>, c: char)
    ensures
        first_index(s, c, 0) >= 0 <==> s.contains(c),
        first_index(s, c, 0) >= 0 ==> first_index(s, c, 0) < s.len() && s[first_index(s, c, 0)] == c
            && forall|j: int| 0 <= j < first_index(s, c, 0) ==> #[trigger] s[j] != c,
{
    lemma_first_index_found(s, c, 0);
}

proof fn lemma_first_index_found(s: Seq<char>, c: char, i: int)
    requires
        0 <= i <= s.len(),
    ensures
        ({
            let k = first_index(s, c, i);
            if k >= 0 {
                i <= k < s.len() && s[k] == c && forall|j: int| i <= j < k ==> #[trigger] s[j] != c
            } else {
                forall|j: int| i <= j < s.len() ==> #[trigger] s[j] != c
            }
        }),
    decreases s.len() - i,
{
    if i < s.len() && s[i] != c {
        lemma_first_index_found(s, c, i + 1);
    }
}

/// The last index of a character is one at which it stands, with none behind it; there is none
/// exactly if the text does not hold the character.
pub proof fn law_last_index(s: Seq<char>, c: char)
    ensures
        last_index(s, c) >= 0 <==> s.contains(c),
        last_index(s, c) >= 0 ==> last_index(s, c) < s.len() && s[last_index(s, c)] == c
            && forall|j: int| last_index(s, c) < j < s.len() ==> #[trigger] s[j] != c,
    decreases s.len(),
{
    if s.len() > 0 {
        if s.last() == c {
            assert(s[s.len() - 1] == c);
        } else {
            let t = s.drop_last();
            law_last_index(t, c);
            lemma_last_index_bound(s, c);
            if t.contains(c) {
                let i = choose|i: int| 0 <= i < t.len() && t[i] == c;
                assert(s[i] == c);
            }
            if s.contains(c) {
                let i = choose|i: int| 0 <= i < s.len() && s[i] == c;
                assert(t[i] == c);
            }
            assert forall|j: int| last_index(s, c) < j < s.len() implies #[trigger] s[j] != c by {
                if j < t.len() {
                    if last_index(s, c) >= 0 {
                        assert(t[j] != c);
                    } else {
                        assert(s.contains(s[j]));
                    }
                }
            }
        }
    }
}

/// The text of a number ends with the digit of its rest and starts with the text of its quotient;
/// digits from ten on are the letters from a on, in lower case.
pub proof fn law_number_text_by_digits(n: nat, base: nat)
    requires
        2 <= base <= 16,
    ensures
        n < base ==> number_text(n, base) == seq![digit_char(n)],
        n >= base ==> number_text(n, base) == number_text(n / base, base) + seq![
            digit_char(n % base),
        ],
        forall|d: nat| d < 10 ==> #[trigger] digit_char(d) as u32 == 48 + d,
        forall|d: nat| 10 <= d < 16 ==> #[trigger] digit_char(d) as u32 == 87 + d,
{
    if n >= base {
        assert(number_text(n, base) =~= number_text(n / base, base) + seq![digit_char(n % base)]);
    }
}

/// One more hexadecimal digit makes sixteen times the number and that digit, in either case.
pub proof fn law_hex_digits_append(s: Seq<char>, c: char)
    ensures
        48 <= c as u32 <= 57 ==> hex_value(s.push(c)) == 16 * hex_value(s) + (c as u32 - 48),
        97 <= c as u32 <= 102 ==> hex_value(s.push(c)) == 16 * hex_value(s) + (c as u32 - 87),
        65 <= c as u32 <= 70 ==> hex_value(s.push(c)) == 16 * hex_value(s) + (c as u32 - 55),
        hex_value(Seq::<char>::empty()) == 0,
        is_hex_digit(c) <==> 48 <= c as u32 <= 57 || 97 <= c as u32 <= 102 || 65 <= c as u32 <= 70,
        is_digit(c) <==> 48 <= c as u32 <= 57,
{
    assert(s.push(c).drop_last() =~= s);
}

/// Digits without a zero in front are the decimal text of their number.
pub proof fn lemma_digits_are_text(s: Seq<char>)
    requires
        s.len() > 0,
        all_digits(s),
        s.len() > 1 ==> s[0] != '0',
    ensures
        decimal_text(decimal_value(s)) == s,
        s.len() > 1 ==> decimal_value(s) >= 10,
    decreases s.len(),
{
    let t = s.drop_last();
    let d = digit_value(s.last());
    assert(is_digit(s[s.len() - 1]));
    assert(d < 10);
    assert(digit_char(d) == s.last());
    if s.len() == 1 {
        assert(t =~= Seq::<char>::empty());
        assert(decimal_value(t) == 0);
        assert(s =~= seq![s.last()]);
    } else {
        assert forall|i: int| 0 <= i < t.len() implies is_digit(#[trigger] t[i]) by {
            assert(is_digit(s[i]));
        }
        assert(t[0] == s[0]);
        lemma_digits_are_text(t);
        let v = decimal_value(t);
        if t.len() == 1 {
            assert(t.drop_last() =~= Seq::<char>::empty());
            assert(decimal_value(t.drop_last()) == 0);
            assert(is_digit(t[0]));
            assert(v == digit_value(t[0]));
        }
        assert(v >= 1);
        assert(decimal_value(s) == 10 * v + d);
        assert((10 * v + d) / 10 == v && (10 * v + d) % 10 == d);
        assert(decimal_text(10 * v + d) == decimal_text(v).push(digit_char(d)));
        assert(s =~= t.push(s.last()));
    }
}

} // verus!
