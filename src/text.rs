use vstd::prelude::*;

verus! {

/// Number of bytes that the UTF-8 encoding of `c` takes.
pub open spec fn char_width(c: char) -> nat {
    if (c as u32) < 0x80 {
        1
    } else if (c as u32) < 0x800 {
        2
    } else if (c as u32) < 0x10000 {
        3
    } else {
        4
    }
}

/// Number of bytes that the UTF-8 encoding of `s` takes.
pub open spec fn utf8_len(s: Seq<char>) -> nat
    decreases s.len(),
{
    if s.len() == 0 {
        0
    } else {
        utf8_len(s.drop_last()) + char_width(s.last())
    }
}

/// The encoded length of a concatenation is the sum of the encoded lengths.
pub proof fn lemma_utf8_len_concat(a: Seq<char>, b: Seq<char>)
    ensures
        utf8_len(a + b) == utf8_len(a) + utf8_len(b),
    decreases b.len(),
{
    if b.len() == 0 {
        assert(a + b =~= a);
    } else {
        assert((a + b).drop_last() =~= a + b.drop_last());
        lemma_utf8_len_concat(a, b.drop_last());
    }
}

/// `utf8_len` is the length of the UTF-8 encoding that vstd defines.
pub proof fn lemma_utf8_len_is_encoding_len(s: Seq<char>)
    ensures
        utf8_len(s) == vstd::utf8::encode_utf8(s).len(),
    decreases s.len(),
{
    if s.len() > 0 {
        let c = s[0];
        let rest = s.drop_first();
        lemma_utf8_len_is_encoding_len(rest);
        vstd::utf8::char_is_scalar(c);
        assert(vstd::utf8::encode_scalar(c as u32).len() == char_width(c));
        assert(s =~= seq![c] + rest);
        lemma_utf8_len_concat(seq![c], rest);
        assert(seq![c].drop_last() =~= Seq::<char>::empty());
        assert(seq![c].last() == c);
        assert(utf8_len(Seq::<char>::empty()) == 0);
        assert(utf8_len(seq![c]) == char_width(c));
        assert(vstd::utf8::encode_utf8(s) == vstd::utf8::encode_scalar(s[0] as u32)
            + vstd::utf8::encode_utf8(s.drop_first()));
    }
}

/// A string of ASCII characters takes one byte per character.
pub proof fn lemma_utf8_len_ascii(s: Seq<char>)
    requires
        forall|i: int| 0 <= i < s.len() ==> (#[trigger] s[i] as u32) < 0x80,
    ensures
        utf8_len(s) == s.len(),
    decreases s.len(),
{
    if s.len() > 0 {
        lemma_utf8_len_ascii(s.drop_last());
    }
}

/// Whether `s` is made of ASCII digits only (and holds at least one).
pub open spec fn is_digits(s: Seq<char>) -> bool {
    s.len() > 0 && forall|i: int| 0 <= i < s.len() ==> '0' <= #[trigger] s[i] <= '9'
}

/// The value of a string of decimal digits.
pub open spec fn digits_value(s: Seq<char>) -> nat
    decreases s.len(),
{
    if s.len() == 0 {
        0
    } else {
        digits_value(s.drop_last()) * 10 + ((s.last() as u32 - '0' as u32) as nat)
    }
}

/// What `u64`'s `from_str` accepts: an optional `+` followed by decimal
/// digits whose value fits in 64 bits. Its value, where accepted.
pub open spec fn decimal_u64(s: Seq<char>) -> Option<u64> {
    let d = if s.len() > 0 && s[0] == '+' { s.drop_first() } else { s };
    if is_digits(d) && digits_value(d) <= u64::MAX {
        Some(digits_value(d) as u64)
    } else {
        None
    }
}

/// Parses a declared byte count in the notation of `u64`'s `from_str`.
pub fn parse_u64(s: &str) -> (r: Option<u64>)
    ensures
        r == decimal_u64(s@),
{
    let n = s.unicode_len();
    let mut start: usize = 0;
    if n > 0 && s.get_char(0) == '+' {
        start = 1;
    }
    let ghost d = if s@.len() > 0 && s@[0] == '+' { s@.drop_first() } else { s@ };
    assert(d =~= s@.subrange(start as int, n as int));
    if start == n {
        return None;
    }
    let mut value: u64 = 0;
    let mut i: usize = start;
    while i < n
        invariant
            start <= i <= n,
            n == s@.len(),
            d =~= s@.subrange(start as int, n as int),
            d == (if s@.len() > 0 && s@[0] == '+' { s@.drop_first() } else { s@ }),
            start < n,
            forall|j: int| start <= j < i ==> '0' <= #[trigger] s@[j] <= '9',
            value as nat == digits_value(s@.subrange(start as int, i as int)),
        decreases n - i,
    {
        let c = s.get_char(i);
        let ghost prefix = s@.subrange(start as int, i as int);
        let ghost next = s@.subrange(start as int, i + 1);
        assert(next.drop_last() =~= prefix);
        if c < '0' || c > '9' {
            assert(d[i - start] == s@[i as int]);
            assert(!is_digits(d));
            return None;
        }
        let digit: u64 = (c as u32 - '0' as u32) as u64;
        if value > (u64::MAX - digit) / 10 {
            proof {
                assert(d.subrange(0, (i + 1 - start) as int) =~= next);
                assert(digits_value(next) == value * 10 + digit) by (nonlinear_arith)
                    requires
                        digits_value(next) == digits_value(prefix) * 10 + digit,
                        value == digits_value(prefix),
                ;
                assert(value * 10 + digit > u64::MAX) by (nonlinear_arith)
                    requires
                        value > (u64::MAX - digit) / 10,
                        digit <= 9,
                ;
                if is_digits(d) {
                    lemma_digits_value_prefix_bound(d, (i + 1 - start) as int);
                }
            }
            return None;
        }
        proof {
            assert(value * 10 + digit <= u64::MAX) by (nonlinear_arith)
                requires
                    value <= (u64::MAX - digit) / 10,
                    digit <= 9,
            ;
        }
        value = value * 10 + digit;
        i = i + 1;
    }
    assert(s@.subrange(start as int, n as int) =~= d);
    Some(value)
}

/// A prefix of a digit string never has a larger value than the whole.
proof fn lemma_digits_value_prefix_bound(d: Seq<char>, k: int)
    requires
        0 <= k <= d.len(),
        forall|j: int| 0 <= j < d.len() ==> '0' <= #[trigger] d[j] <= '9',
    ensures
        digits_value(d.subrange(0, k)) <= digits_value(d),
    decreases d.len(),
{
    if k < d.len() {
        assert(d.drop_last().subrange(0, k) =~= d.subrange(0, k));
        lemma_digits_value_prefix_bound(d.drop_last(), k);
    } else {
        assert(d.subrange(0, k) =~= d);
    }
}


/// Whether two strings hold the same characters.
pub fn str_equals(a: &str, b: &str) -> (r: bool)
    ensures
        r == (a@ == b@),
{
    let n = a.unicode_len();
    if n != b.unicode_len() {
        return false;
    }
    let mut i: usize = 0;
    while i < n
        invariant
            i <= n,
            n == a@.len(),
            n == b@.len(),
            forall|j: int| 0 <= j < i ==> a@[j] == b@[j],
        decreases n - i,
    {
        if a.get_char(i) != b.get_char(i) {
            return false;
        }
        i = i + 1;
    }
    assert(a@ =~= b@);
    true
}

/// Encoded length of one character, as an executable function.
pub fn char_width_exec(c: char) -> (r: usize)
    ensures
        r as nat == char_width(c),
{
    if (c as u32) < 0x80 {
        1
    } else if (c as u32) < 0x800 {
        2
    } else if (c as u32) < 0x10000 {
        3
    } else {
        4
    }
}

/// The longest prefix of `s` whose UTF-8 encoding takes at most `limit` bytes.
pub open spec fn truncate_utf8(s: Seq<char>, limit: nat) -> Seq<char>
    decreases s.len(),
{
    if utf8_len(s) <= limit || s.len() == 0 {
        s
    } else {
        truncate_utf8(s.drop_last(), limit)
    }
}

/// Encoded lengths grow along the prefixes of a string.
pub proof fn lemma_utf8_len_prefix_monotone(s: Seq<char>, i: int, j: int)
    requires
        0 <= i <= j <= s.len(),
    ensures
        utf8_len(s.take(i)) <= utf8_len(s.take(j)),
{
    assert(s.take(j) =~= s.take(i) + s.subrange(i, j));
    lemma_utf8_len_concat(s.take(i), s.subrange(i, j));
}

/// A truncation is a prefix of the string, cut between two characters, and
/// fits within the limit.
pub proof fn lemma_truncate_utf8_fits(s: Seq<char>, limit: nat)
    ensures
        truncate_utf8(s, limit).len() <= s.len(),
        truncate_utf8(s, limit) =~= s.take(truncate_utf8(s, limit).len() as int),
        utf8_len(truncate_utf8(s, limit)) <= limit,
    decreases s.len(),
{
    if utf8_len(s) <= limit {
        assert(s.take(s.len() as int) =~= s);
    } else if s.len() == 0 {
    } else {
        lemma_truncate_utf8_fits(s.drop_last(), limit);
        let t = truncate_utf8(s.drop_last(), limit);
        assert(s.drop_last().take(t.len() as int) =~= s.take(t.len() as int));
    }
}

/// The prefix of `k` characters is the truncation when it fits and one more
/// character would not.
proof fn lemma_truncate_utf8_is_take(s: Seq<char>, limit: nat, k: int)
    requires
        0 <= k <= s.len(),
        utf8_len(s.take(k)) <= limit,
        k == s.len() || utf8_len(s.take(k + 1)) > limit,
    ensures
        truncate_utf8(s, limit) == s.take(k),
    decreases s.len(),
{
    if k == s.len() {
        assert(s.take(k) =~= s);
    } else {
        lemma_utf8_len_prefix_monotone(s, k + 1, s.len() as int);
        assert(s.take(s.len() as int) =~= s);
        let t = s.drop_last();
        assert(t.take(k) =~= s.take(k));
        if k + 1 <= t.len() {
            assert(t.take(k + 1) =~= s.take(k + 1));
        }
        lemma_truncate_utf8_is_take(t, limit, k);
    }
}

/// Cuts `s` to its longest prefix that takes at most `limit` bytes in UTF-8,
/// never inside a character.
pub fn truncate_to_bytes(s: &str, limit: usize) -> (r: String)
    ensures
        r@ == truncate_utf8(s@, limit as nat),
{
    let n = s.unicode_len();
    let mut used: usize = 0;
    let mut i: usize = 0;
    let mut full = false;
    while i < n && !full
        invariant
            i <= n,
            n == s@.len(),
            used <= limit,
            used as nat == utf8_len(s@.take(i as int)),
            full ==> i < n && utf8_len(s@.take(i + 1)) > limit,
        decreases n - i + (if full { 0int } else { 1int }),
    {
        let w = char_width_exec(s.get_char(i));
        assert(s@.take(i + 1).drop_last() =~= s@.take(i as int));
        if w > limit - used {
            full = true;
        } else {
            used = used + w;
            i = i + 1;
        }
    }
    proof {
        lemma_truncate_utf8_is_take(s@, limit as nat, i as int);
    }
    let cut = s.substring_char(0, i);
    assert(cut@ =~= s@.take(i as int));
    cut.to_owned()
}

/// Relies on `String::push`: appends one character.
#[verifier::external_body]
pub(crate) fn push_char(s: &mut String, c: char)
    ensures
        final(s)@ == old(s)@.push(c),
{
    s.push(c);
}

/// What `sanitize_filename::sanitize` makes of a name.
pub uninterp spec fn sanitized(s: Seq<char>) -> Seq<char>;

/// Relies on `sanitize_filename::sanitize` with its default options: it
/// deletes the characters that a file name may not hold (the replacement is
/// empty), then cuts the result to at most 255 bytes between two characters.
/// So the result is never longer in bytes than the input, never over 255
/// bytes, and the empty name stays empty.
#[verifier::external_body]
pub(crate) fn sanitize(s: &str) -> (r: String)
    ensures
        r@ == sanitized(s@),
        utf8_len(r@) <= utf8_len(s@),
        utf8_len(r@) <= 255,
        s@.len() == 0 ==> r@.len() == 0,
{
    sanitize_filename::sanitize(s)
}

} // verus!
