//! Text helpers: decimal rendering, the order of strings and small copies.

use vstd::prelude::*;

verus! {

/// The character of one decimal digit.
pub open spec fn digit(d: nat) -> char {
    (48 + d) as char
}

/// Decimal rendering without leading zeros.
pub open spec fn dec(n: nat) -> Seq<char>
    decreases n,
{
    if n < 10 {
        seq![digit(n)]
    } else {
        dec(n / 10).push(digit(n % 10))
    }
}

/// Decimal rendering of a signed number.
pub open spec fn dec_int(n: int) -> Seq<char> {
    if n < 0 {
        seq!['-'] + dec((-n) as nat)
    } else {
        dec(n as nat)
    }
}

/// A number has at least one digit.
pub proof fn lemma_dec_nonempty(n: nat)
    ensures
        dec(n).len() > 0,
{
}

/// Different numbers have different digits.
pub proof fn lemma_dec_injective(a: nat, b: nat)
    requires
        dec(a) == dec(b),
    ensures
        a == b,
    decreases a,
{
    assert(digit(a % 10) == dec(a).last());
    assert(digit(b % 10) == dec(b).last());
    if a < 10 && b >= 10 {
        lemma_dec_nonempty(b / 10);
    } else if a >= 10 && b < 10 {
        lemma_dec_nonempty(a / 10);
    } else if a >= 10 {
        assert(dec(a / 10) =~= dec(a).drop_last());
        assert(dec(b / 10) =~= dec(b).drop_last());
        lemma_dec_injective(a / 10, b / 10);
    }
}

fn digit_text(d: u64) -> (r: &'static str)
    requires
        d < 10,
    ensures
        r@ == seq![digit(d as nat)],
{
    proof {
        reveal_strlit("0");
        reveal_strlit("1");
        reveal_strlit("2");
        reveal_strlit("3");
        reveal_strlit("4");
        reveal_strlit("5");
        reveal_strlit("6");
        reveal_strlit("7");
        reveal_strlit("8");
        reveal_strlit("9");
    }
    let r = if d == 0 {
        "0"
    } else if d == 1 {
        "1"
    } else if d == 2 {
        "2"
    } else if d == 3 {
        "3"
    } else if d == 4 {
        "4"
    } else if d == 5 {
        "5"
    } else if d == 6 {
        "6"
    } else if d == 7 {
        "7"
    } else if d == 8 {
        "8"
    } else {
        "9"
    };
    assert(r@ =~= seq![digit(d as nat)]);
    r
}

/// Append the decimal digits of `n`.
pub fn push_u64(out: &mut String, n: u64)
    ensures
        final(out)@ == old(out)@ + dec(n as nat),
    decreases n,
{
    if n >= 10 {
        push_u64(out, n / 10);
        out.append(digit_text(n % 10));
        assert(out@ =~= old(out)@ + dec(n as nat));
    } else {
        out.append(digit_text(n));
    }
}

/// Append the decimal digits of `n`, with its sign.
pub fn push_i64(out: &mut String, n: i64)
    ensures
        final(out)@ == old(out)@ + dec_int(n as int),
{
    if n >= 0 {
        push_u64(out, n as u64);
    } else {
        out.append("-");
        proof {
            reveal_strlit("-");
        }
        assert("-"@ =~= seq!['-']);
        let magnitude: u64 = if n == i64::MIN {
            0x8000_0000_0000_0000
        } else {
            (-n) as u64
        };
        push_u64(out, magnitude);
        assert(out@ =~= old(out)@ + dec_int(n as int));
    }
}

/// `n` in decimal.
pub fn u64_text(n: u64) -> (r: String)
    ensures
        r@ == dec(n as nat),
{
    let mut out = String::new();
    push_u64(&mut out, n);
    assert(out@ =~= dec(n as nat));
    out
}

/// Copy of a borrowed text.
pub fn owned(s: &str) -> (r: String)
    ensures
        r@ == s@,
{
    let mut out = String::new();
    out.append(s);
    assert(out@ =~= s@);
    out
}

/// Content of an optional text.
pub open spec fn opt_view(s: Option<String>) -> Option<Seq<char>> {
    match s {
        Some(t) => Some(t@),
        None => None,
    }
}

/// Copy of an optional text.
pub fn clone_opt(s: &Option<String>) -> (r: Option<String>)
    ensures
        r == *s,
{
    match s {
        Some(t) => Some(t.clone()),
        None => None,
    }
}

/// Whether two texts are the same.
pub fn same_text(a: &str, b: &str) -> (r: bool)
    ensures
        r == (a@ == b@),
{
    let x = a.as_bytes();
    let y = b.as_bytes();
    proof {
        lemma_bytes_injective(a@, b@);
    }
    if x.len() != y.len() {
        return false;
    }
    let mut i: usize = 0;
    while i < x.len()
        invariant
            i <= x.len(),
            x.len() == y.len(),
            x@ == vstd::utf8::encode_utf8(a@),
            y@ == vstd::utf8::encode_utf8(b@),
            forall|j: int| 0 <= j < i ==> x@[j] == y@[j],
            vstd::utf8::encode_utf8(a@) == vstd::utf8::encode_utf8(b@) ==> a@ == b@,
        decreases x.len() - i,
    {
        if x[i] != y[i] {
            return false;
        }
        i += 1;
    }
    assert(x@ =~= y@);
    true
}

/// Whether two optional texts are the same.
pub fn same_opt(a: &Option<String>, b: &Option<String>) -> (r: bool)
    ensures
        r == (opt_view(*a) == opt_view(*b)),
{
    match (a, b) {
        (Some(x), Some(y)) => same_text(x.as_str(), y.as_str()),
        (None, None) => true,
        _ => false,
    }
}

/// Two texts with the same encoding are the same text.
pub proof fn lemma_bytes_injective(a: Seq<char>, b: Seq<char>)
    ensures
        vstd::utf8::encode_utf8(a) == vstd::utf8::encode_utf8(b) ==> a == b,
{
    vstd::utf8::encode_utf8_decode_utf8(a);
    vstd::utf8::encode_utf8_decode_utf8(b);
}

/// Lexicographic order of byte strings.
pub open spec fn bytes_lt(a: Seq<u8>, b: Seq<u8>) -> bool
    decreases a.len(),
{
    if b.len() == 0 {
        false
    } else if a.len() == 0 {
        true
    } else if a[0] == b[0] {
        bytes_lt(a.drop_first(), b.drop_first())
    } else {
        a[0] < b[0]
    }
}

/// The order of texts: by their bytes.
pub open spec fn text_lt(a: Seq<char>, b: Seq<char>) -> bool {
    bytes_lt(vstd::utf8::encode_utf8(a), vstd::utf8::encode_utf8(b))
}

proof fn lemma_bytes_irreflexive(a: Seq<u8>)
    ensures
        !bytes_lt(a, a),
    decreases a.len(),
{
    if a.len() > 0 {
        lemma_bytes_irreflexive(a.drop_first());
    }
}

proof fn lemma_bytes_transitive(a: Seq<u8>, b: Seq<u8>, c: Seq<u8>)
    requires
        bytes_lt(a, b),
        bytes_lt(b, c),
    ensures
        bytes_lt(a, c),
    decreases a.len(),
{
    if a.len() > 0 && b.len() > 0 && c.len() > 0 && a[0] == b[0] && b[0] == c[0] {
        lemma_bytes_transitive(a.drop_first(), b.drop_first(), c.drop_first());
    }
}

proof fn lemma_bytes_total(a: Seq<u8>, b: Seq<u8>)
    ensures
        a == b || bytes_lt(a, b) || bytes_lt(b, a),
    decreases a.len(),
{
    if a.len() > 0 && b.len() > 0 && a[0] == b[0] {
        lemma_bytes_total(a.drop_first(), b.drop_first());
        if a.drop_first() == b.drop_first() {
            assert(a =~= seq![a[0]] + a.drop_first());
            assert(b =~= seq![b[0]] + b.drop_first());
        }
    } else if a.len() == 0 && b.len() == 0 {
        assert(a =~= b);
    }
}

/// The order of texts is a strict total order.
pub proof fn lemma_text_order(a: Seq<char>, b: Seq<char>, c: Seq<char>)
    ensures
        !text_lt(a, a),
        text_lt(a, b) && text_lt(b, c) ==> text_lt(a, c),
        a == b || text_lt(a, b) || text_lt(b, a),
        !(text_lt(a, b) && text_lt(b, a)),
{
    let (x, y, z) = (vstd::utf8::encode_utf8(a), vstd::utf8::encode_utf8(b), vstd::utf8::encode_utf8(c));
    lemma_bytes_irreflexive(x);
    if bytes_lt(x, y) && bytes_lt(y, z) {
        lemma_bytes_transitive(x, y, z);
    }
    lemma_bytes_total(x, y);
    lemma_bytes_injective(a, b);
    if bytes_lt(x, y) && bytes_lt(y, x) {
        lemma_bytes_transitive(x, y, x);
    }
}

/// Whether `a` comes before `b`.
pub fn text_before(a: &str, b: &str) -> (r: bool)
    ensures
        r == text_lt(a@, b@),
{
    let x = a.as_bytes();
    let y = b.as_bytes();
    let mut i: usize = 0;
    assert(x@.skip(0) =~= x@);
    assert(y@.skip(0) =~= y@);
    loop
        invariant
            i <= x.len(),
            i <= y.len(),
            text_lt(a@, b@) == bytes_lt(x@.skip(i as int), y@.skip(i as int)),
        decreases x.len() - i,
    {
        if i == y.len() {
            return false;
        }
        if i == x.len() {
            return true;
        }
        assert(x@.skip(i as int).drop_first() =~= x@.skip(i + 1));
        assert(y@.skip(i as int).drop_first() =~= y@.skip(i + 1));
        if x[i] != y[i] {
            return x[i] < y[i];
        }
        i += 1;
    }
}

/// The largest character boundary that is at most `max`.
pub open spec fn cut(bytes: Seq<u8>, max: nat) -> int
    decreases max,
{
    if max >= bytes.len() {
        bytes.len() as int
    } else if max == 0 || vstd::utf8::is_char_boundary(bytes, max as int) {
        max as int
    } else {
        cut(bytes, (max - 1) as nat)
    }
}

/// The longest prefix of `s` whose encoding is at most `max` bytes long.
pub open spec fn cut_text(s: Seq<char>, max: nat) -> Seq<char> {
    let bytes = vstd::utf8::encode_utf8(s);
    vstd::utf8::decode_utf8(bytes.subrange(0, cut(bytes, max)))
}

proof fn lemma_cut(bytes: Seq<u8>, max: nat)
    requires
        vstd::utf8::valid_utf8(bytes),
    ensures
        0 <= cut(bytes, max) <= bytes.len(),
        cut(bytes, max) <= max,
        vstd::utf8::is_char_boundary(bytes, cut(bytes, max)),
        forall|j: int| cut(bytes, max) < j <= max && j <= bytes.len() ==> !vstd::utf8::is_char_boundary(bytes, j),
    decreases max,
{
    vstd::utf8::is_char_boundary_start_end_of_seq(bytes);
    if max < bytes.len() && max > 0 && !vstd::utf8::is_char_boundary(bytes, max as int) {
        lemma_cut(bytes, (max - 1) as nat);
    }
}

/// A cut text is a prefix of at most `max` bytes, and no longer prefix fits.
pub proof fn law_a_cut_text_is_the_longest_prefix_that_fits(s: Seq<char>, max: nat)
    ensures
        cut_text(s, max).is_prefix_of(s),
        vstd::utf8::encode_utf8(cut_text(s, max)).len() <= max,
        forall|n: int|
            cut_text(s, max).len() < n <= s.len() ==> vstd::utf8::encode_utf8(
                #[trigger] s.subrange(0, n),
            ).len() > max,
        vstd::utf8::encode_utf8(s).len() <= max ==> cut_text(s, max) == s,
{
    let r = cut_text(s, max);
    let bytes = vstd::utf8::encode_utf8(s);
    vstd::utf8::encode_utf8_valid_utf8(s);
    vstd::utf8::encode_utf8_decode_utf8(s);
    lemma_cut(bytes, max);
    let at = cut(bytes, max);
    vstd::utf8::decode_utf8_split(bytes, at);
    vstd::utf8::valid_utf8_split(bytes, at);
    vstd::utf8::decode_utf8_encode_utf8(bytes.subrange(0, at));
    assert(s == r + vstd::utf8::decode_utf8(bytes.subrange(at, bytes.len() as int)));
    assert(bytes.subrange(0, bytes.len() as int) =~= bytes);
    assert(r =~= s.subrange(0, r.len() as int));
    assert forall|n: int| r.len() < n <= s.len() implies vstd::utf8::encode_utf8(
        #[trigger] s.subrange(0, n),
    ).len() > max by {
        let t = s.subrange(0, n);
        let u = s.subrange(n, s.len() as int);
        let m = s.subrange(r.len() as int, n);
        assert(s =~= t + u);
        assert(t =~= r + m);
        lemma_encode_concat(t, u);
        lemma_encode_concat(r, m);
        let len = vstd::utf8::encode_utf8(t).len() as int;
        assert(bytes.subrange(0, len) =~= vstd::utf8::encode_utf8(t));
        assert(m.len() > 0);
        lemma_encode_nonempty(m);
        assert(len > at);
        vstd::utf8::encode_utf8_valid_utf8(t);
        vstd::utf8::encode_utf8_valid_utf8(u);
        assert(bytes =~= vstd::utf8::encode_utf8(t) + vstd::utf8::encode_utf8(u));
        lemma_boundary_of_split(vstd::utf8::encode_utf8(t), vstd::utf8::encode_utf8(u));
    }
}

/// The encoding of a concatenation is the concatenation of the encodings.
pub proof fn lemma_encode_concat(a: Seq<char>, b: Seq<char>)
    ensures
        vstd::utf8::encode_utf8(a + b) == vstd::utf8::encode_utf8(a) + vstd::utf8::encode_utf8(b),
    decreases a.len(),
{
    if a.len() == 0 {
        assert(a + b =~= b);
        assert(vstd::utf8::encode_utf8(a) =~= Seq::<u8>::empty());
        assert(vstd::utf8::encode_utf8(a) + vstd::utf8::encode_utf8(b) =~= vstd::utf8::encode_utf8(b));
    } else {
        lemma_encode_concat(a.drop_first(), b);
        assert((a + b).drop_first() =~= a.drop_first() + b);
        assert((a + b)[0] == a[0]);
        assert(vstd::utf8::encode_utf8(a + b) =~= vstd::utf8::encode_utf8(a) + vstd::utf8::encode_utf8(b));
    }
}

proof fn lemma_encode_nonempty(a: Seq<char>)
    requires
        a.len() > 0,
    ensures
        vstd::utf8::encode_utf8(a).len() > 0,
{
    vstd::utf8::encode_utf8_decode_utf8(a);
    if vstd::utf8::encode_utf8(a).len() == 0 {
        assert(vstd::utf8::encode_utf8(a) =~= Seq::<u8>::empty());
    }
}

proof fn lemma_boundary_of_split(a: Seq<u8>, b: Seq<u8>)
    requires
        vstd::utf8::valid_utf8(a),
        vstd::utf8::valid_utf8(b),
    ensures
        vstd::utf8::is_char_boundary(a + b, a.len() as int),
    decreases a.len(),
{
    vstd::utf8::valid_utf8_concat(a, b);
    vstd::utf8::is_char_boundary_start_end_of_seq(a + b);
    if a.len() > 0 && b.len() > 0 {
        vstd::utf8::is_char_boundary_iff_not_is_continuation_byte(a + b, a.len() as int);
        assert((a + b)[a.len() as int] == b[0]);
        vstd::utf8::is_char_boundary_start_end_of_seq(b);
        vstd::utf8::is_char_boundary_iff_not_is_continuation_byte(b, 0);
    } else if a.len() == 0 {
        assert(a + b =~= b);
    } else {
        assert(a + b =~= a);
    }
}

/// `text` without what exceeds `max` bytes, cut between characters.
pub fn truncate(s: &str, max: usize) -> (r: String)
    ensures
        r@ == cut_text(s@, max as nat),
{
    let bytes = s.as_bytes();
    proof {
        vstd::utf8::encode_utf8_valid_utf8(s@);
        vstd::utf8::is_char_boundary_start_end_of_seq(bytes@);
        vstd::utf8::encode_utf8_decode_utf8(s@);
    }
    if bytes.len() <= max {
        assert(bytes@.subrange(0, bytes@.len() as int) =~= bytes@);
        return owned(s);
    }
    let mut at: usize = max;
    while at > 0 && !s.is_char_boundary(at)
        invariant
            at <= max < bytes@.len(),
            bytes@ == vstd::utf8::encode_utf8(s@),
            cut(bytes@, max as nat) == cut(bytes@, at as nat),
        decreases at,
    {
        at -= 1;
    }
    let head = s.split_at(at).0;
    proof {
        vstd::utf8::encode_utf8_decode_utf8(head@);
    }
    owned(head)
}

/// Bytes of a text.
pub fn byte_len(s: &str) -> (r: usize)
    ensures
        r == vstd::utf8::encode_utf8(s@).len(),
{
    s.as_bytes().len()
}

/// Content of texts.
pub open spec fn texts_view(texts: Seq<String>) -> Seq<Seq<char>> {
    texts.map_values(|s: String| s@)
}

/// Copy of texts.
pub fn clone_texts(texts: &Vec<String>) -> (r: Vec<String>)
    ensures
        r@ == texts@,
{
    let mut out: Vec<String> = Vec::new();
    let mut i: usize = 0;
    while i < texts.len()
        invariant
            i <= texts@.len(),
            out@ == texts@.take(i as int),
        decreases texts@.len() - i,
    {
        out.push(texts[i].clone());
        assert(out@ =~= texts@.take(i + 1));
        i += 1;
    }
    assert(out@ =~= texts@);
    out
}

/// Whether a list of texts holds `t`.
pub fn has_text(texts: &Vec<String>, t: &str) -> (r: bool)
    ensures
        r == texts_view(texts@).contains(t@),
{
    let mut i: usize = 0;
    while i < texts.len()
        invariant
            i <= texts@.len(),
            forall|x: int| 0 <= x < i ==> (#[trigger] texts@[x])@ != t@,
        decreases texts@.len() - i,
    {
        if same_text(texts[i].as_str(), t) {
            proof {
                assert(texts_view(texts@)[i as int] == t@);
            }
            return true;
        }
        i += 1;
    }
    proof {
        if texts_view(texts@).contains(t@) {
            let x = choose|x: int| 0 <= x < texts_view(texts@).len() && texts_view(texts@)[x] == t@;
            assert(texts@[x]@ == t@);
        }
    }
    false
}

/// Whether the texts are the same, one by one.
pub fn same_texts(a: &Vec<String>, b: &Vec<String>) -> (r: bool)
    ensures
        r == (texts_view(a@) == texts_view(b@)),
{
    if a.len() != b.len() {
        assert(texts_view(a@).len() != texts_view(b@).len());
        return false;
    }
    let mut i: usize = 0;
    while i < a.len()
        invariant
            i <= a@.len(),
            a@.len() == b@.len(),
            forall|j: int| 0 <= j < i ==> a@[j]@ == b@[j]@,
        decreases a@.len() - i,
    {
        if !same_text(a[i].as_str(), b[i].as_str()) {
            assert(texts_view(a@)[i as int] != texts_view(b@)[i as int]);
            return false;
        }
        i += 1;
    }
    assert(texts_view(a@) =~= texts_view(b@));
    true
}

// ---------------------------------------------------------------------------
// reading numbers
// ---------------------------------------------------------------------------
/// Decimal digits only.
pub open spec fn is_digits(s: Seq<char>) -> bool {
    forall|i: int| 0 <= i < s.len() ==> '0' <= #[trigger] s[i] <= '9'
}

/// What decimal digits amount to.
pub open spec fn digits_value(s: Seq<char>) -> nat
    decreases s.len(),
{
    if s.len() == 0 {
        0
    } else {
        digits_value(s.drop_last()) * 10 + (s.last() as int - '0' as int) as nat
    }
}

/// A text without the plus sign it may begin with.
pub open spec fn unsigned_part(s: Seq<char>) -> Seq<char> {
    if s.len() > 0 && s[0] == '+' {
        s.drop_first()
    } else {
        s
    }
}

/// The number a text writes: digits, behind a plus sign or not, of a number
/// that fits.
pub open spec fn read_u64(s: Seq<char>) -> Option<u64> {
    let digits = unsigned_part(s);
    if digits.len() > 0 && is_digits(digits) && digits_value(digits) <= u64::MAX {
        Some(digits_value(digits) as u64)
    } else {
        None
    }
}

/// The number a text writes.
pub fn parse_u64(s: &str) -> (r: Option<u64>)
    ensures
        r == read_u64(s@),
{
    let n: usize = s.unicode_len();
    let mut i: usize = 0;
    let mut start: usize = 0;
    let mut acc: u128 = 0;
    let ghost digits = unsigned_part(s@);
    assert(digits.take(0) =~= Seq::<char>::empty());
    for c in it: s.chars()
        invariant
            it.seq() == s@,
            n == s@.len(),
            i == it.index(),
            i <= n,
            start <= 1,
            digits == unsigned_part(s@),
            i == 0 ==> start == 0,
            i > 0 ==> start == s@.len() - digits.len(),
            start <= i,
            is_digits(digits.take(i - start)),
            digits_value(digits.take(i - start)) <= u64::MAX ==> acc == digits_value(
                digits.take(i - start),
            ),
            digits_value(digits.take(i - start)) > u64::MAX ==> acc > u64::MAX,
            acc <= 0x1_0000_0000_0000_0000 * 10,
    {
        proof {
            assert(c == s@[i as int]);
        }
        if i == 0 && c == '+' {
            start = 1;
            assert(digits.take(0) =~= Seq::<char>::empty());
        } else {
            proof {
                assert(digits[i - start] == c);
                let next = digits.take(i - start + 1);
                assert(next.drop_last() =~= digits.take(i - start));
                assert(next.last() == c);
            }
            if c < '0' || c > '9' {
                return None;
            }
            let d: u32 = c as u32 - '0' as u32;
            if acc <= u64::MAX as u128 {
                acc = acc * 10 + d as u128;
            }
            proof {
                assert forall|j: int| 0 <= j < i - start + 1 implies '0' <= #[trigger] digits.take(
                    i - start + 1,
                )[j] <= '9' by {
                    if j < i - start {
                        assert(digits.take(i - start)[j] == digits.take(i - start + 1)[j]);
                    }
                }
            }
        }
        i += 1;
    }
    proof {
        if n > 0 {
            assert(digits.take(n - start) =~= digits);
        } else {
            assert(digits =~= Seq::<char>::empty());
        }
    }
    if i == start || acc > u64::MAX as u128 {
        None
    } else {
        Some(acc as u64)
    }
}

/// A number is read back from its decimal text.
pub proof fn law_a_number_is_read_back(n: u64)
    ensures
        read_u64(dec(n as nat)) == Some(n),
{
    lemma_dec_digits(n as nat);
    lemma_dec_nonempty(n as nat);
}

proof fn lemma_dec_digits(n: nat)
    ensures
        is_digits(dec(n)),
        digits_value(dec(n)) == n,
        dec(n).len() > 0,
    decreases n,
{
    if n >= 10 {
        lemma_dec_digits(n / 10);
        assert(dec(n) =~= dec(n / 10).push(digit(n % 10)));
        assert(dec(n).drop_last() =~= dec(n / 10));
        assert forall|i: int| 0 <= i < dec(n).len() implies '0' <= #[trigger] dec(n)[i] <= '9' by {
            if i < dec(n / 10).len() {
                assert(dec(n)[i] == dec(n / 10)[i]);
            }
        }
    } else {
        assert(dec(n).drop_last() =~= Seq::<char>::empty());
        reveal_with_fuel(digits_value, 2);
    }
}

/// Up to `i` the two are alike, and there the first ends or is the smaller.
pub open spec fn first_differ_at(a: Seq<u8>, b: Seq<u8>, i: int) -> bool {
    &&& 0 <= i < b.len()
    &&& i <= a.len()
    &&& forall|j: int| 0 <= j < i ==> a[j] == b[j]
    &&& i == a.len() || a[i] < b[i]
}

proof fn lemma_where_they_differ(a: Seq<u8>, b: Seq<u8>) -> (i: int)
    requires
        bytes_lt(a, b),
    ensures
        first_differ_at(a, b, i),
    decreases a.len(),
{
    if a.len() == 0 || a[0] != b[0] {
        0
    } else {
        let i = lemma_where_they_differ(a.drop_first(), b.drop_first());
        assert forall|j: int| 0 <= j < i + 1 implies a[j] == b[j] by {
            if j > 0 {
                assert(a.drop_first()[j - 1] == b.drop_first()[j - 1]);
            }
        }
        i + 1
    }
}

proof fn lemma_differ_in_order(a: Seq<u8>, b: Seq<u8>, i: int)
    requires
        first_differ_at(a, b, i),
    ensures
        bytes_lt(a, b),
    decreases a.len(),
{
    if i > 0 {
        assert(a[0] == b[0]);
        assert(first_differ_at(a.drop_first(), b.drop_first(), i - 1));
        lemma_differ_in_order(a.drop_first(), b.drop_first(), i - 1);
    }
}

/// One text is before another exactly where, at the first byte in which their
/// encodings differ, the one ends or has the smaller byte.
pub proof fn law_texts_are_ordered_by_their_bytes(a: Seq<char>, b: Seq<char>)
    ensures
        text_lt(a, b) <==> exists|i: int| #[trigger]
            first_differ_at(vstd::utf8::encode_utf8(a), vstd::utf8::encode_utf8(b), i),
{
    let x = vstd::utf8::encode_utf8(a);
    let y = vstd::utf8::encode_utf8(b);
    if bytes_lt(x, y) {
        let i = lemma_where_they_differ(x, y);
    }
    if exists|i: int| #[trigger] first_differ_at(x, y, i) {
        let i = choose|i: int| #[trigger] first_differ_at(x, y, i);
        lemma_differ_in_order(x, y, i);
    }
}

} // verus!
