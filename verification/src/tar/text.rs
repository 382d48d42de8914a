//! Text fields of tar headers and PAX records: NUL-terminated strings, trimming, and octal and
//! decimal numbers.
use vstd::prelude::*;
use vstd::utf8::{decode_utf8, valid_utf8};

verus! {

/// The error of a byte sequence that is not valid UTF-8.
#[verifier::external_type_specification]
#[verifier::external_body]
pub struct ExUtf8Error(core::str::Utf8Error);

/// `core::str::from_utf8`: its documentation says that it returns the string exactly when the
/// bytes are valid UTF-8, and the string then decodes to the characters of the bytes.
/// Which error value it returns (the offset of the first invalid byte) is left unsaid.
#[verifier::external_body]
pub fn str_from_utf8(bytes: &[u8]) -> (r: Result<&str, core::str::Utf8Error>)
    ensures
        r is Ok <==> valid_utf8(bytes@),
        r matches Ok(s) ==> s@ == decode_utf8(bytes@),
{
    core::str::from_utf8(bytes)
}

/// The reason a string is not a number.
#[derive(Debug, Clone, Copy, PartialEq, Eq)]
pub enum IntErrorKind {
    /// The string is empty.
    Empty,
    /// The string holds a character that is not a digit.
    InvalidDigit,
    /// The number does not fit in the integer type.
    PosOverflow,
}

/// The error of parsing an unsigned integer.
#[derive(Debug, Clone, Copy, PartialEq, Eq)]
pub struct ParseIntError {
    pub kind: IntErrorKind,
}

/// The value of `b` as a digit: `0` to `9`, then `a` to `z` (or `A` to `Z`) for ten to
/// thirty-five; 36 for any other byte, which is a digit of no radix.
pub open spec fn digit_value(b: u8) -> int {
    if 0x30 <= b <= 0x39 {
        b - 0x30
    } else if 0x61 <= b <= 0x7a {
        b - 0x61 + 10
    } else if 0x41 <= b <= 0x5a {
        b - 0x41 + 10
    } else {
        36
    }
}

/// `b` is an ASCII digit of the given radix.
pub open spec fn is_radix_digit(b: u8, radix: nat) -> bool {
    digit_value(b) < radix
}

/// The value of `b` as a digit, 36 where it is none.
fn digit_of(b: u8) -> (d: u8)
    ensures
        d == digit_value(b),
{
    if 0x30 <= b && b <= 0x39 {
        b - 0x30
    } else if 0x61 <= b && b <= 0x7a {
        b - 0x61 + 10
    } else if 0x41 <= b && b <= 0x5a {
        b - 0x41 + 10
    } else {
        36
    }
}

/// Reads the digits of `s` from index `i` on into `acc`, failing at the first byte that is no
/// digit or at the first digit that takes the value above `max`.
pub open spec fn scan_digits(s: Seq<u8>, i: int, radix: nat, max: nat, acc: nat) -> Result<
    nat,
    IntErrorKind,
>
    decreases s.len() - i,
{
    if i >= s.len() || i < 0 {
        Ok(acc)
    } else if !is_radix_digit(s[i], radix) {
        Err(IntErrorKind::InvalidDigit)
    } else if acc * radix + digit_value(s[i]) > max {
        Err(IntErrorKind::PosOverflow)
    } else {
        scan_digits(s, i + 1, radix, max, (acc * radix + digit_value(s[i])) as nat)
    }
}

/// An unsigned number in the given radix, with an optional leading `+`, that is at most `max`.
pub open spec fn parse_uint_spec(s: Seq<u8>, radix: nat, max: nat) -> Result<nat, IntErrorKind> {
    if s.len() == 0 {
        Err(IntErrorKind::Empty)
    } else if s.len() == 1 && (s[0] == 0x2b || s[0] == 0x2d) {
        Err(IntErrorKind::InvalidDigit)
    } else if s[0] == 0x2b {
        scan_digits(s, 1, radix, max, 0)
    } else {
        scan_digits(s, 0, radix, max, 0)
    }
}

/// A successful scan never goes above `max`.
pub proof fn lemma_scan_digits_bound(s: Seq<u8>, i: int, radix: nat, max: nat, acc: nat)
    requires
        acc <= max,
    ensures
        scan_digits(s, i, radix, max, acc) matches Ok(v) ==> v <= max,
    decreases s.len() - i,
{
    if i >= s.len() || i < 0 {
    } else if !is_radix_digit(s[i], radix) {
    } else if acc * radix + digit_value(s[i]) > max {
    } else {
        lemma_scan_digits_bound(s, i + 1, radix, max, (acc * radix + digit_value(s[i])) as nat);
    }
}

/// A successful parse never goes above `max`.
pub proof fn lemma_parse_uint_bound(s: Seq<u8>, radix: nat, max: nat)
    ensures
        parse_uint_spec(s, radix, max) matches Ok(v) ==> v <= max,
{
    lemma_scan_digits_bound(s, 0, radix, max, 0);
    lemma_scan_digits_bound(s, 1, radix, max, 0);
}

/// The executable form of a parse outcome.
pub open spec fn as_parse_result(res: Result<nat, IntErrorKind>) -> Result<u64, ParseIntError> {
    match res {
        Ok(v) => Ok(v as u64),
        Err(kind) => Err(ParseIntError { kind }),
    }
}

/// Parses an unsigned integer in `radix`, as `from_str_radix` does, that must not exceed `max`.
pub fn parse_uint(s: &[u8], radix: u8, max: u64) -> (r: Result<u64, ParseIntError>)
    requires
        2 <= radix <= 36,
    ensures
        r == as_parse_result(parse_uint_spec(s@, radix as nat, max as nat)),
        r matches Ok(v) ==> v <= max,
        parse_uint_spec(s@, radix as nat, max as nat) matches Ok(v) ==> v <= max,
{
    proof {
        lemma_parse_uint_bound(s@, radix as nat, max as nat);
    }
    let len = s.len();
    if len == 0 {
        return Err(ParseIntError { kind: IntErrorKind::Empty });
    }
    if len == 1 && (s[0] == 0x2b || s[0] == 0x2d) {
        return Err(ParseIntError { kind: IntErrorKind::InvalidDigit });
    }
    let start: usize = if s[0] == 0x2b {
        1
    } else {
        0
    };
    let mut acc: u64 = 0;
    let mut i: usize = start;
    while i < len
        invariant
            2 <= radix <= 36,
            len == s@.len(),
            start <= i <= len,
            acc <= max,
            parse_uint_spec(s@, radix as nat, max as nat) == scan_digits(
                s@,
                i as int,
                radix as nat,
                max as nat,
                acc as nat,
            ),
        decreases len - i,
    {
        let d = digit_of(s[i]);
        if d >= radix {
            return Err(ParseIntError { kind: IntErrorKind::InvalidDigit });
        }
        let digit = d as u64;
        let next = match acc.checked_mul(radix as u64) {
            Some(m) => m.checked_add(digit),
            None => None,
        };
        match next {
            Some(n) => {
                if n > max {
                    return Err(ParseIntError { kind: IntErrorKind::PosOverflow });
                }
                acc = n;
            },
            None => {
                proof {
                    assert(acc * radix + digit > u64::MAX) by (nonlinear_arith)
                        requires
                            acc * radix > u64::MAX || acc * radix + digit > u64::MAX,
                    ;
                }
                return Err(ParseIntError { kind: IntErrorKind::PosOverflow });
            },
        }
        i = i + 1;
    }
    Ok(acc)
}

/// Parses a decimal `u64`, as `str::parse` does.
pub fn parse_u64(s: &[u8]) -> (r: Result<u64, ParseIntError>)
    ensures
        r == as_parse_result(parse_uint_spec(s@, 10, u64::MAX as nat)),
{
    parse_uint(s, 10, u64::MAX)
}

/// Parses a decimal `u32`, as `str::parse` does.
pub fn parse_u32(s: &[u8]) -> (r: Result<u32, ParseIntError>)
    ensures
        r matches Ok(v) ==> parse_uint_spec(s@, 10, u32::MAX as nat) == Ok::<nat, IntErrorKind>(
            v as nat,
        ),
        r matches Err(e) ==> parse_uint_spec(s@, 10, u32::MAX as nat) == Err::<nat, IntErrorKind>(
            e.kind,
        ),
{
    match parse_uint(s, 10, u32::MAX as u64) {
        Ok(v) => Ok(v as u32),
        Err(e) => Err(e),
    }
}

/// Parses a decimal `usize`, as `str::parse` does.
pub fn parse_usize(s: &[u8]) -> (r: Result<usize, ParseIntError>)
    ensures
        r matches Ok(v) ==> parse_uint_spec(s@, 10, usize::MAX as nat) == Ok::<nat, IntErrorKind>(
            v as nat,
        ),
        r matches Err(e) ==> parse_uint_spec(s@, 10, usize::MAX as nat) == Err::<
            nat,
            IntErrorKind,
        >(e.kind),
{
    match parse_uint(s, 10, usize::MAX as u64) {
        Ok(v) => Ok(v as usize),
        Err(e) => Err(e),
    }
}

/// The three-byte UTF-8 encodings of Unicode white space.
pub open spec fn is_wide_space(a: u8, b: u8, c: u8) -> bool {
    ||| a == 0xe1 && b == 0x9a && c == 0x80
    ||| a == 0xe2 && b == 0x80 && ((0x80 <= c <= 0x8a) || c == 0xa8 || c == 0xa9 || c == 0xaf)
    ||| a == 0xe2 && b == 0x81 && c == 0x9f
    ||| a == 0xe3 && b == 0x80 && c == 0x80
}

/// The length of the UTF-8 encoded white-space character at the start of `s`, or zero.
pub open spec fn space_len_at_start(s: Seq<u8>) -> nat {
    if s.len() >= 1 && ((0x09 <= s[0] <= 0x0d) || s[0] == 0x20) {
        1
    } else if s.len() >= 2 && s[0] == 0xc2 && (s[1] == 0x85 || s[1] == 0xa0) {
        2
    } else if s.len() >= 3 && is_wide_space(s[0], s[1], s[2]) {
        3
    } else {
        0
    }
}

/// The length of the UTF-8 encoded white-space character at the end of `s`, or zero.
pub open spec fn space_len_at_end(s: Seq<u8>) -> nat {
    let n = s.len() as int;
    if n >= 1 && ((0x09 <= s[n - 1] <= 0x0d) || s[n - 1] == 0x20) {
        1
    } else if n >= 2 && s[n - 2] == 0xc2 && (s[n - 1] == 0x85 || s[n - 1] == 0xa0) {
        2
    } else if n >= 3 && is_wide_space(s[n - 3], s[n - 2], s[n - 1]) {
        3
    } else {
        0
    }
}

/// `s` without its leading white space.
pub open spec fn trim_start(s: Seq<u8>) -> Seq<u8>
    decreases s.len(),
{
    let k = space_len_at_start(s);
    if k == 0 {
        s
    } else {
        trim_start(s.skip(k as int))
    }
}

/// `s` without its trailing white space.
pub open spec fn trim_end(s: Seq<u8>) -> Seq<u8>
    decreases s.len(),
{
    let k = space_len_at_end(s);
    if k == 0 {
        s
    } else {
        trim_end(s.take(s.len() - k))
    }
}

/// `s` without leading and trailing white space, as `str::trim` gives it.
pub open spec fn trim(s: Seq<u8>) -> Seq<u8> {
    trim_end(trim_start(s))
}

fn space_len_at_start_exec(s: &[u8], from: usize, to: usize) -> (r: usize)
    requires
        from <= to <= s@.len(),
    ensures
        r == space_len_at_start(s@.subrange(from as int, to as int)),
{
    let n = to - from;
    let ghost t = s@.subrange(from as int, to as int);
    if n >= 1 && ((0x09 <= s[from] && s[from] <= 0x0d) || s[from] == 0x20) {
        1
    } else if n >= 2 && s[from] == 0xc2 && (s[from + 1] == 0x85 || s[from + 1] == 0xa0) {
        2
    } else if n >= 3 && ((s[from] == 0xe1 && s[from + 1] == 0x9a && s[from + 2] == 0x80) || (
    s[from] == 0xe2 && s[from + 1] == 0x80 && ((0x80 <= s[from + 2] && s[from + 2] <= 0x8a)
        || s[from + 2] == 0xa8 || s[from + 2] == 0xa9 || s[from + 2] == 0xaf)) || (s[from] == 0xe2
        && s[from + 1] == 0x81 && s[from + 2] == 0x9f) || (s[from] == 0xe3 && s[from + 1] == 0x80
        && s[from + 2] == 0x80)) {
        3
    } else {
        0
    }
}

fn space_len_at_end_exec(s: &[u8], from: usize, to: usize) -> (r: usize)
    requires
        from <= to <= s@.len(),
    ensures
        r == space_len_at_end(s@.subrange(from as int, to as int)),
{
    let n = to - from;
    if n >= 1 && ((0x09 <= s[to - 1] && s[to - 1] <= 0x0d) || s[to - 1] == 0x20) {
        1
    } else if n >= 2 && s[to - 2] == 0xc2 && (s[to - 1] == 0x85 || s[to - 1] == 0xa0) {
        2
    } else if n >= 3 && ((s[to - 3] == 0xe1 && s[to - 2] == 0x9a && s[to - 1] == 0x80) || (s[to
        - 3] == 0xe2 && s[to - 2] == 0x80 && ((0x80 <= s[to - 1] && s[to - 1] <= 0x8a) || s[to - 1]
        == 0xa8 || s[to - 1] == 0xa9 || s[to - 1] == 0xaf)) || (s[to - 3] == 0xe2 && s[to - 2]
        == 0x81 && s[to - 1] == 0x9f) || (s[to - 3] == 0xe3 && s[to - 2] == 0x80 && s[to - 1]
        == 0x80)) {
        3
    } else {
        0
    }
}

/// `s` without leading and trailing Unicode white space.
pub fn trim_bytes(s: &[u8]) -> (r: &[u8])
    ensures
        r@ == trim(s@),
{
    let len = s.len();
    let mut from: usize = 0;
    proof {
        assert(s@.subrange(0, len as int) =~= s@);
    }
    loop
        invariant
            from <= len == s@.len(),
            trim_start(s@) == trim_start(s@.subrange(from as int, len as int)),
        ensures
            from <= len,
            trim_start(s@) == s@.subrange(from as int, len as int),
        decreases len - from,
    {
        let k = space_len_at_start_exec(s, from, len);
        if k == 0 {
            break ;
        }
        proof {
            assert(s@.subrange(from as int, len as int).skip(k as int) =~= s@.subrange(
                from + k,
                len as int,
            ));
        }
        from = from + k;
    }
    let mut to: usize = len;
    loop
        invariant
            from <= to <= len == s@.len(),
            trim(s@) == trim_end(s@.subrange(from as int, to as int)),
        ensures
            from <= to <= len,
            trim(s@) == s@.subrange(from as int, to as int),
        decreases to - from,
    {
        let k = space_len_at_end_exec(s, from, to);
        if k == 0 {
            break ;
        }
        proof {
            assert(s@.subrange(from as int, to as int).take(to - from - k) =~= s@.subrange(
                from as int,
                to - k,
            ));
        }
        to = to - k;
    }
    &s[from..to]
}

/// The index of the first NUL byte of `s`, or its length when it has none.
pub open spec fn nul_index(s: Seq<u8>) -> nat
    decreases s.len(),
{
    if s.len() == 0 {
        0
    } else if s[0] == 0 {
        0
    } else {
        1 + nul_index(s.drop_first())
    }
}

/// The bytes of `s` before its first NUL byte.
pub open spec fn until_nul(s: Seq<u8>) -> Seq<u8> {
    s.take(nul_index(s) as int)
}

/// The first NUL of `s` is at `i` when no byte before `i` is NUL and `i` is NUL or the end.
pub proof fn lemma_nul_index(s: Seq<u8>, i: int)
    requires
        0 <= i <= s.len(),
        forall|j: int| 0 <= j < i ==> s[j] != 0,
        i < s.len() ==> s[i] == 0,
    ensures
        nul_index(s) == i,
    decreases s.len(),
{
    if s.len() > 0 && s[0] != 0 {
        assert forall|j: int| 0 <= j < i - 1 implies s.drop_first()[j] != 0 by {
            assert(s[j + 1] != 0);
        }
        lemma_nul_index(s.drop_first(), i - 1);
    }
}

/// The index of the first NUL byte, or the length when there is none.
pub fn find_null_terminator_index(bytes: &[u8]) -> (r: usize)
    ensures
        r == nul_index(bytes@),
        r <= bytes@.len(),
{
    let len = bytes.len();
    let mut i: usize = 0;
    while i < len
        invariant
            i <= len == bytes@.len(),
            forall|j: int| 0 <= j < i ==> bytes@[j] != 0,
        decreases len - i,
    {
        if bytes[i] == 0 {
            proof {
                lemma_nul_index(bytes@, i as int);
            }
            return i;
        }
        i = i + 1;
    }
    proof {
        lemma_nul_index(bytes@, i as int);
    }
    i
}

/// The bytes before the first NUL byte, as a string.
pub fn parse_null_terminated_string(bytes: &[u8]) -> (r: Result<&str, core::str::Utf8Error>)
    ensures
        r is Ok <==> valid_utf8(until_nul(bytes@)),
        r matches Ok(s) ==> s@ == decode_utf8(until_nul(bytes@)),
{
    let end = find_null_terminator_index(bytes);
    let prefix = &bytes[0..end];
    proof {
        assert(prefix@ =~= until_nul(bytes@));
    }
    str_from_utf8(prefix)
}

/// The error of an octal header field.
#[derive(Debug, Clone, PartialEq, Eq)]
pub enum ParseOctalError {
    InvalidUtf8(core::str::Utf8Error),
    ParseIntError(ParseIntError),
}

/// The number an octal header field holds: the text before the first NUL, trimmed, in base eight.
pub open spec fn octal_value(bytes: Seq<u8>) -> Result<nat, IntErrorKind> {
    parse_uint_spec(trim(until_nul(bytes)), 8, u64::MAX as nat)
}

/// Parses a null-terminated, space-padded octal number from a byte slice.
pub fn parse_octal(bytes: &[u8]) -> (r: Result<u64, ParseOctalError>)
    ensures
        !valid_utf8(until_nul(bytes@)) <==> r matches Err(ParseOctalError::InvalidUtf8(_)),
        valid_utf8(until_nul(bytes@)) ==> match octal_value(bytes@) {
            Ok(v) => r == Ok::<u64, ParseOctalError>(v as u64),
            Err(kind) => r == Err::<u64, ParseOctalError>(
                ParseOctalError::ParseIntError(ParseIntError { kind }),
            ),
        },
        octal_value(bytes@) matches Ok(v) ==> v <= u64::MAX,
{
    proof {
        lemma_parse_uint_bound(trim(until_nul(bytes@)), 8, u64::MAX as nat);
    }
    let end = find_null_terminator_index(bytes);
    let prefix = &bytes[0..end];
    proof {
        assert(prefix@ =~= until_nul(bytes@));
    }
    match str_from_utf8(prefix) {
        Ok(_) => {},
        Err(e) => {
            return Err(ParseOctalError::InvalidUtf8(e));
        },
    }
    let trimmed = trim_bytes(prefix);
    match parse_uint(trimmed, 8, u64::MAX) {
        Ok(v) => Ok(v),
        Err(e) => Err(ParseOctalError::ParseIntError(e)),
    }
}

/// Copies a slice into an array of its length.
pub fn array_from_slice<const N: usize>(s: &[u8]) -> (r: [u8; N])
    requires
        s@.len() == N,
    ensures
        r@ == s@,
{
    let mut a = [0u8; N];
    let mut i: usize = 0;
    while i < N
        invariant
            s@.len() == N,
            i <= N,
            forall|j: int| 0 <= j < i ==> a@[j] == s@[j],
        decreases N - i,
    {
        a[i] = s[i];
        i = i + 1;
    }
    proof {
        assert(a@ =~= s@);
    }
    a
}

/// Whether two byte strings are equal.
pub fn bytes_equal(a: &[u8], b: &[u8]) -> (r: bool)
    ensures
        r == (a@ == b@),
{
    if a.len() != b.len() {
        return false;
    }
    let mut i: usize = 0;
    while i < a.len()
        invariant
            a@.len() == b@.len(),
            i <= a@.len(),
            forall|j: int| 0 <= j < i ==> a@[j] == b@[j],
        decreases a@.len() - i,
    {
        if a[i] != b[i] {
            return false;
        }
        i = i + 1;
    }
    proof {
        assert(a@ =~= b@);
    }
    true
}

} // verus!
