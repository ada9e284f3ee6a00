//! Converting the key material of a wallet between its base58 text, its
//! bytes, and the list of numbers in which a wallet file holds them.

use vstd::prelude::*;
use crate::base58::{base58_decoded, base58_encoded, decode_base58, encode_base58};
use crate::error::ConfigurationError;

verus! {

/// The bytes of a wallet from its base58 text.
pub fn base58_to_wallet(text: &str) -> (r: Result<Vec<u8>, ConfigurationError>)
    ensures
        match r {
            Ok(bytes) => base58_decoded(text@) == Some(bytes@),
            Err(e) => base58_decoded(text@) is None && e == ConfigurationError::MalformedWallet,
        },
{
    match decode_base58(text) {
        Some(bytes) => Ok(bytes),
        None => Err(ConfigurationError::MalformedWallet),
    }
}

/// The base58 text of the bytes of a wallet.
pub fn wallet_to_base58(bytes: &[u8]) -> (text: String)
    ensures
        text@ == base58_encoded(bytes@),
{
    encode_base58(bytes)
}

/// What is taken off the ends of a text.
#[derive(Clone, Copy, Debug, PartialEq, Eq, Structural)]
pub enum Trim {
    /// Opening square brackets.
    Open,
    /// Closing square brackets.
    Close,
    /// White space.
    Space,
}

/// Whether `c` is white space.
pub open spec fn is_space(c: char) -> bool {
    let n = c as u32;
    ||| 0x09 <= n <= 0x0d
    ||| n == 0x20
    ||| n == 0x85
    ||| n == 0xa0
    ||| n == 0x1680
    ||| 0x2000 <= n <= 0x200a
    ||| n == 0x2028
    ||| n == 0x2029
    ||| n == 0x202f
    ||| n == 0x205f
    ||| n == 0x3000
}

/// Whether trimming of the given kind takes `c` off.
pub open spec fn drops(kind: Trim, c: char) -> bool {
    match kind {
        Trim::Open => c == '[',
        Trim::Close => c == ']',
        Trim::Space => is_space(c),
    }
}

/// `s` without the characters of the given kind at its front.
pub open spec fn without_front(s: Seq<char>, kind: Trim) -> Seq<char>
    decreases s.len(),
{
    if s.len() > 0 && drops(kind, s[0]) {
        without_front(s.skip(1), kind)
    } else {
        s
    }
}

/// `s` without the characters of the given kind at its back.
pub open spec fn without_back(s: Seq<char>, kind: Trim) -> Seq<char>
    decreases s.len(),
{
    if s.len() > 0 && drops(kind, s.last()) {
        without_back(s.drop_last(), kind)
    } else {
        s
    }
}

/// The pieces into which the commas of `s` divide it: one more than there
/// are commas.
pub open spec fn pieces(s: Seq<char>) -> Seq<Seq<char>>
    decreases s.len(),
{
    if s.len() == 0 {
        seq![Seq::empty()]
    } else {
        let before = pieces(s.drop_last());
        if s.last() == ',' {
            before.push(Seq::empty())
        } else {
            before.update(before.len() - 1, before.last().push(s.last()))
        }
    }
}

/// The value of a decimal digit.
pub open spec fn digit_value(c: char) -> nat {
    if '0' <= c <= '9' {
        (c as u32 - '0' as u32) as nat
    } else {
        0
    }
}

/// Whether `s` holds decimal digits only.
pub open spec fn all_digits(s: Seq<char>) -> bool {
    forall|i: int| 0 <= i < s.len() ==> '0' <= #[trigger] s[i] <= '9'
}

/// The number that the decimal digits `s` write.
pub open spec fn decimal(s: Seq<char>) -> nat
    decreases s.len(),
{
    if s.len() == 0 {
        0
    } else {
        10 * decimal(s.drop_last()) + digit_value(s.last())
    }
}

/// `s` without a plus sign at its front.
pub open spec fn without_plus(s: Seq<char>) -> Seq<char> {
    if s.len() > 0 && s[0] == '+' {
        s.skip(1)
    } else {
        s
    }
}

/// The byte that `piece` writes: white space around it aside, decimal
/// digits, at least one, after at most one plus sign, for a number up to 255.
pub open spec fn byte_of(piece: Seq<char>) -> Option<u8> {
    let digits = without_plus(without_back(without_front(piece, Trim::Space), Trim::Space));
    if digits.len() > 0 && all_digits(digits) && decimal(digits) <= 255 {
        Some(decimal(digits) as u8)
    } else {
        None
    }
}

/// The bytes that a list of numbers writes: the numbers are divided by
/// commas, and any square brackets before and after the list are ignored.
pub open spec fn listed_bytes(text: Seq<char>) -> Option<Seq<u8>> {
    let inner = pieces(without_back(without_front(text, Trim::Open), Trim::Close));
    if forall|k: int| 0 <= k < inner.len() ==> byte_of(#[trigger] inner[k]) is Some {
        Some(Seq::new(inner.len(), |k: int| byte_of(inner[k])->Some_0))
    } else {
        None
    }
}

/// The characters of a text.
fn chars_of(text: &str) -> (v: Vec<char>)
    ensures
        v@ == text@,
{
    let mut v: Vec<char> = Vec::new();
    for c in it: text.chars()
        invariant
            it.seq() == text@,
            v@ == it.seq().take(it.index() as int),
    {
        v.push(c);
    }
    v
}

/// Whether trimming of the given kind takes `c` off.
fn is_dropped(kind: Trim, c: char) -> (r: bool)
    ensures
        r == drops(kind, c),
{
    match kind {
        Trim::Open => c == '[',
        Trim::Close => c == ']',
        Trim::Space => {
            let n: u32 = c as u32;
            (0x09 <= n && n <= 0x0d) || n == 0x20 || n == 0x85 || n == 0xa0 || n == 0x1680 || (
            0x2000 <= n && n <= 0x200a) || n == 0x2028 || n == 0x2029 || n == 0x202f || n == 0x205f
                || n == 0x3000
        },
    }
}

/// Where `chars[from..to]` begins once its front is trimmed.
fn trim_front(chars: &Vec<char>, from: usize, to: usize, kind: Trim) -> (at: usize)
    requires
        from <= to <= chars.len(),
    ensures
        from <= at <= to,
        chars@.subrange(at as int, to as int) == without_front(
            chars@.subrange(from as int, to as int),
            kind,
        ),
{
    let mut at: usize = from;
    while at < to && is_dropped(kind, chars[at])
        invariant
            from <= at <= to <= chars.len(),
            without_front(chars@.subrange(at as int, to as int), kind) == without_front(
                chars@.subrange(from as int, to as int),
                kind,
            ),
        decreases to - at,
    {
        assert(chars@.subrange(at as int, to as int).skip(1) =~= chars@.subrange(
            at as int + 1,
            to as int,
        ));
        at += 1;
    }
    at
}

/// Where `chars[from..to]` ends once its back is trimmed.
fn trim_back(chars: &Vec<char>, from: usize, to: usize, kind: Trim) -> (at: usize)
    requires
        from <= to <= chars.len(),
    ensures
        from <= at <= to,
        chars@.subrange(from as int, at as int) == without_back(
            chars@.subrange(from as int, to as int),
            kind,
        ),
{
    let mut at: usize = to;
    while at > from && is_dropped(kind, chars[at - 1])
        invariant
            from <= at <= to <= chars.len(),
            without_back(chars@.subrange(from as int, at as int), kind) == without_back(
                chars@.subrange(from as int, to as int),
                kind,
            ),
        decreases at - from,
    {
        assert(chars@.subrange(from as int, at as int).drop_last() =~= chars@.subrange(
            from as int,
            at as int - 1,
        ));
        at -= 1;
    }
    at
}

/// The byte that `chars[from..to]` writes.
fn piece_byte(chars: &Vec<char>, from: usize, to: usize) -> (r: Option<u8>)
    requires
        from <= to <= chars.len(),
    ensures
        r == byte_of(chars@.subrange(from as int, to as int)),
{
    let begin = trim_front(chars, from, to, Trim::Space);
    let end = trim_back(chars, begin, to, Trim::Space);
    let first = if begin < end && chars[begin] == '+' {
        begin + 1
    } else {
        begin
    };
    let ghost digits = chars@.subrange(first as int, end as int);
    assert(digits =~= without_plus(chars@.subrange(begin as int, end as int)));
    let mut value: u32 = 0;
    let mut numeric = true;
    let mut j: usize = first;
    while j < end
        invariant
            first <= j <= end <= chars.len(),
            digits == chars@.subrange(first as int, end as int),
            numeric <==> all_digits(chars@.subrange(first as int, j as int)) && decimal(
                chars@.subrange(first as int, j as int),
            ) <= 255,
            numeric ==> value == decimal(chars@.subrange(first as int, j as int)),
            !numeric ==> !(all_digits(digits) && decimal(digits) <= 255),
        decreases end - j,
    {
        let c = chars[j];
        let ghost read = chars@.subrange(first as int, j as int);
        let ghost more = chars@.subrange(first as int, j as int + 1);
        assert(more.drop_last() =~= read);
        assert(all_digits(more) ==> all_digits(read)) by {
            if all_digits(more) {
                assert forall|i: int| 0 <= i < read.len() implies '0' <= #[trigger] read[i]
                    <= '9' by {
                    assert(more[i] == read[i]);
                }
            }
        }
        if numeric {
            if c >= '0' && c <= '9' {
                let next = value * 10 + (c as u32 - '0' as u32);
                assert(all_digits(more)) by {
                    assert forall|i: int| 0 <= i < more.len() implies '0' <= #[trigger] more[i]
                        <= '9' by {
                        if i < read.len() {
                            assert(more[i] == read[i]);
                        }
                    }
                }
                if next > 255 {
                    numeric = false;
                    proof {
                        lemma_decimal_grows(digits, j as int + 1 - first);
                        assert(digits.take(j as int + 1 - first) =~= more);
                    }
                } else {
                    value = next;
                }
            } else {
                numeric = false;
                assert(digits[j as int - first] == c);
            }
        }
        j += 1;
    }
    if first < end && numeric {
        Some(value as u8)
    } else {
        None
    }
}

/// The number that digits write is at least the number that the first
/// `n` of them write.
pub proof fn lemma_decimal_grows(s: Seq<char>, n: int)
    requires
        0 <= n <= s.len(),
    ensures
        decimal(s.take(n)) <= decimal(s),
    decreases s.len() - n,
{
    if n < s.len() {
        lemma_decimal_grows(s.drop_last(), n);
        assert(s.drop_last().take(n) =~= s.take(n));
    } else {
        assert(s.take(n) =~= s);
    }
}

/// Reads the bytes of a wallet from the list of numbers that a wallet
/// file holds, such as `[12, 0, 255]`.
pub fn parse_wallet(text: &str) -> (r: Result<Vec<u8>, ConfigurationError>)
    ensures
        match r {
            Ok(bytes) => listed_bytes(text@) == Some(bytes@),
            Err(e) => listed_bytes(text@) is None && e == ConfigurationError::MalformedWallet,
        },
{
    let chars = chars_of(text);
    let lo = trim_front(&chars, 0, chars.len(), Trim::Open);
    let hi = trim_back(&chars, lo, chars.len(), Trim::Close);
    assert(chars@.subrange(0, chars@.len() as int) =~= text@);
    let ghost inner = chars@.subrange(lo as int, hi as int);
    let mut bytes: Vec<u8> = Vec::new();
    let mut valid = true;
    let mut start: usize = lo;
    let mut i: usize = lo;
    while i < hi
        invariant
            lo <= start <= i <= hi <= chars.len(),
            inner == chars@.subrange(lo as int, hi as int),
            pieces(inner.take(i - lo)).len() >= 1,
            pieces(inner.take(i - lo)).last() == chars@.subrange(start as int, i as int),
            valid ==> bytes@.len() == pieces(inner.take(i - lo)).len() - 1,
            valid ==> forall|k: int|
                0 <= k < bytes@.len() ==> byte_of(#[trigger] pieces(inner.take(i - lo))[k]) == Some(
                    bytes@[k],
                ),
            !valid ==> exists|k: int|
                0 <= k < pieces(inner.take(i - lo)).len() - 1 && byte_of(
                    #[trigger] pieces(inner.take(i - lo))[k],
                ) is None,
        decreases hi - i,
    {
        let ghost before = pieces(inner.take(i - lo));
        let ghost after = pieces(inner.take(i - lo + 1));
        assert(inner.take(i - lo + 1).drop_last() =~= inner.take(i - lo));
        let ghost bad = if !valid {
            choose|k: int| 0 <= k < before.len() - 1 && byte_of(#[trigger] before[k]) is None
        } else {
            before.len() - 1
        };
        if chars[i] == ',' {
            match piece_byte(&chars, start, i) {
                Some(b) => {
                    if valid {
                        bytes.push(b);
                    }
                },
                None => {
                    valid = false;
                },
            }
            start = i + 1;
        } else {
            assert(chars@.subrange(start as int, i as int + 1) =~= before.last().push(
                chars@[i as int],
            ));
        }
        assert(!valid ==> byte_of(after[bad]) is None);
        i += 1;
    }
    assert(inner.take(hi - lo) =~= inner);
    match piece_byte(&chars, start, hi) {
        Some(b) => {
            if valid {
                bytes.push(b);
                Ok(bytes)
            } else {
                Err(ConfigurationError::MalformedWallet)
            }
        },
        None => Err(ConfigurationError::MalformedWallet),
    }
}

} // verus!
