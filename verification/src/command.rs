//! The decisions of a command call: routing `group:command` names, the status
//! code returned to Arma, and writing the result into Arma's output buffer.

use vstd::prelude::*;
use vstd::utf8::encode_utf8;

use crate::text::{chars_of, copy_range, digit_char, nat_text, string_from_chars};
use crate::value::number::lemma_first_index_bound;
use crate::value::number::{first_index, pow10};

verus! {

/// Status: the command ran and returned a success value
pub const STATUS_OK: i32 = 0;

/// Status: no command or group of that name
pub const STATUS_NOT_FOUND: i32 = 1;

/// Status: the output did not fit in Arma's buffer
pub const STATUS_OUTPUT_TOO_LARGE: i32 = 4;

/// Status: the command ran and returned an error value
pub const STATUS_ERROR: i32 = 9;

/// The code whose decimal text is the digit `prefix` followed by the decimal text of `n`
pub open spec fn prefixed_code(prefix: nat, n: nat) -> int {
    (prefix * pow10(nat_text(n).len()) + n) as int
}

proof fn lemma_nat_text_len(n: nat)
    ensures
        nat_text(n).len() >= 1,
        n < pow10(nat_text(n).len()),
    decreases n,
{
    if n >= 10 {
        lemma_nat_text_len(n / 10);
        let k = nat_text(n / 10).len();
        assert(nat_text(n).len() == k + 1);
        assert(pow10(k + 1) == 10 * pow10(k));
    } else {
        assert(pow10(1) == 10 * pow10(0));
    }
}

/// `10^len(text(n))`: the least power of ten above `n`
fn pow10_above(n: u32) -> (r: u64)
    ensures
        r == pow10(nat_text(n as nat).len()),
        r <= if n == 0 {
            10
        } else {
            10 * (n as int)
        },
    decreases n,
{
    if n < 10 {
        assert(nat_text(n as nat).len() == 1);
        assert(pow10(1) == 10 * pow10(0));
        10
    } else {
        let m = pow10_above(n / 10);
        assert(nat_text(n as nat).len() == nat_text((n / 10) as nat).len() + 1);
        assert(pow10(nat_text((n / 10) as nat).len() + 1) == 10 * pow10(
            nat_text((n / 10) as nat).len(),
        ));
        10 * m
    }
}

/// The status code of a failed call: the decimal text of the digit `prefix`
/// followed by that of `n`, read back as an `i32`; `None` when that text is no
/// `i32` (`n` negative, or the code too large).
/// A command called with the wrong number of arguments answers `2` followed by
/// the number it got; one whose argument `n` (counted from 0) failed to
/// parse answers `3` followed by `n`.
pub fn status_code(prefix: i32, n: i32) -> (r: Option<i32>)
    requires
        0 <= prefix <= 9,
    ensures
        r == if 0 <= n && prefixed_code(prefix as nat, n as nat) <= i32::MAX {
            Some(prefixed_code(prefix as nat, n as nat) as i32)
        } else {
            None::<i32>
        },
{
    if n < 0 {
        return None;
    }
    let m = pow10_above(n as u32);
    proof {
        lemma_nat_text_len(n as nat);
        assert(prefix * m <= 9 * m) by (nonlinear_arith)
            requires
                0 <= prefix <= 9,
        ;
        assert(prefix * m >= 0) by (nonlinear_arith)
            requires
                0 <= prefix,
                m >= 0,
        ;
    }
    let code = prefix as i64 * m as i64 + n as i64;
    if code <= 0x7fff_ffff {
        Some(code as i32)
    } else {
        None
    }
}

/// `a` followed by the digits of `n` is the decimal text of `a * 10^len(text(n)) + n`.
proof fn lemma_text_concat(a: nat, n: nat)
    requires
        a >= 1,
    ensures
        nat_text((a * pow10(nat_text(n).len()) + n) as nat) == nat_text(a) + nat_text(n),
    decreases n,
{
    let k = nat_text(n).len();
    let m = (a * pow10(k) + n) as nat;
    if n < 10 {
        assert(k == 1);
        assert(pow10(1) == 10 * pow10(0));
        assert(pow10(1) == 10);
        assert(m == 10 * a + n);
        assert(m / 10 == a && m % 10 == n);
        assert(nat_text(m) == nat_text(a).push(digit_char(n)));
        assert(nat_text(a) + nat_text(n) =~= nat_text(a).push(digit_char(n)));
    } else {
        let q = n / 10;
        let k1 = nat_text(q).len();
        assert(nat_text(n) == nat_text(q).push(digit_char(n % 10)));
        assert(k == k1 + 1);
        assert(pow10(k1 + 1) == 10 * pow10(k1));
        let p = pow10(k1);
        assert(a * (10 * p) == 10 * (a * p)) by (nonlinear_arith);
        assert(m == 10 * (a * p + q) + n % 10);
        assert(m / 10 == a * p + q && m % 10 == n % 10);
        lemma_pow10_positive(k1);
        assert(a * p >= 1) by (nonlinear_arith)
            requires
                a >= 1,
                p >= 1,
        {
        }
        lemma_text_concat(a, q);
        assert(nat_text(m) == nat_text((a * p + q) as nat).push(digit_char(n % 10)));
        assert(nat_text(a) + nat_text(n) =~= (nat_text(a) + nat_text(q)).push(
            digit_char(n % 10),
        ));
    }
}

proof fn lemma_pow10_positive(k: nat)
    ensures
        pow10(k) >= 1,
    decreases k,
{
    if k > 0 {
        lemma_pow10_positive((k - 1) as nat);
    }
}

/// The decimal text of a failure status is the digit of its kind followed by the
/// decimal text of its number: `2` then the argument count received, or `3` then
/// the position of the argument that failed to parse.
pub proof fn lemma_status_code_text(prefix: nat, n: nat)
    requires
        1 <= prefix <= 9,
    ensures
        nat_text(prefixed_code(prefix, n) as nat) == seq![digit_char(prefix)] + nat_text(n),
{
    lemma_pow10_positive(nat_text(n).len());
    assert(prefix * pow10(nat_text(n).len()) >= 0) by (nonlinear_arith)
        requires
            prefix >= 1,
            pow10(nat_text(n).len()) >= 1,
    {
    }
    lemma_text_concat(prefix, n);
}

/// The status of a call whose result was written (or not) to Arma's buffer
pub open spec fn spec_output_status(written: bool, ok: bool) -> i32 {
    if !written {
        STATUS_OUTPUT_TOO_LARGE
    } else if ok {
        STATUS_OK
    } else {
        STATUS_ERROR
    }
}

/// Writing `bytes` as a C string into `buf`: empty text writes nothing;
/// text holding a zero byte, or too long to leave room for the terminating
/// zero, is not written; else the bytes and a zero go to the start of `buf`.
pub open spec fn spec_write_cstr(bytes: Seq<u8>, buf: Seq<u8>) -> (Option<usize>, Seq<u8>) {
    if bytes.len() == 0 {
        (Some(0), buf)
    } else if bytes.contains(0u8) || bytes.len() >= buf.len() {
        (None, buf)
    } else {
        (Some(bytes.len() as usize), bytes.push(0u8) + buf.skip(bytes.len() as int + 1))
    }
}

/// Writes a string into Arma's output buffer as a zero terminated C string.
/// The buffer's length includes the room for the terminating zero.
pub fn write_cstr(string: String, buf: &mut [u8]) -> (r: Option<usize>)
    ensures
        (r, final(buf)@) == spec_write_cstr(encode_utf8(string@), old(buf)@),
{
    let bytes = string.as_str().as_bytes();
    if bytes.len() == 0 {
        return Some(0);
    }
    let mut k: usize = 0;
    while k < bytes.len()
        invariant
            k <= bytes@.len(),
            bytes@ == encode_utf8(string@),
            forall|j: int| 0 <= j < k ==> bytes@[j] != 0u8,
        decreases bytes@.len() - k,
    {
        if bytes[k] == 0 {
            assert(bytes@.contains(0u8)) by {
                assert(bytes@[k as int] == 0u8);
            }
            return None;
        }
        k = k + 1;
    }
    assert(!bytes@.contains(0u8));
    if bytes.len() >= buf.len() {
        return None;
    }
    let ghost old_buf = buf@;
    let mut i: usize = 0;
    while i < bytes.len()
        invariant
            i <= bytes@.len() < buf@.len(),
            buf@.len() == old_buf.len(),
            buf@ == bytes@.take(i as int) + old_buf.skip(i as int),
        decreases bytes@.len() - i,
    {
        buf[i] = bytes[i];
        assert(buf@ =~= bytes@.take(i + 1) + old_buf.skip(i + 1));
        i = i + 1;
    }
    buf[i] = 0u8;
    assert(buf@ =~= bytes@.push(0u8) + old_buf.skip(bytes@.len() as int + 1));
    Some(bytes.len())
}


/// The bytes of a C string held at the start of `buf`: those before its first zero
pub open spec fn cstr_prefix(buf: Seq<u8>) -> Seq<u8>
    decreases buf.len(),
{
    if buf.len() == 0 || buf[0] == 0u8 {
        Seq::empty()
    } else {
        seq![buf[0]] + cstr_prefix(buf.drop_first())
    }
}

proof fn lemma_cstr_prefix_of(bytes: Seq<u8>, rest: Seq<u8>)
    requires
        !bytes.contains(0u8),
    ensures
        cstr_prefix(bytes.push(0u8) + rest) == bytes,
    decreases bytes.len(),
{
    let whole = bytes.push(0u8) + rest;
    if bytes.len() > 0 {
        assert(whole[0] == bytes[0]);
        assert(!bytes.drop_first().contains(0u8)) by {
            assert forall|j: int| 0 <= j < bytes.drop_first().len() implies bytes.drop_first()[j]
                != 0u8 by {
                assert(bytes.drop_first()[j] == bytes[j + 1]);
            }
        }
        lemma_cstr_prefix_of(bytes.drop_first(), rest);
        assert(whole.drop_first() =~= bytes.drop_first().push(0u8) + rest);
        assert(bytes =~= seq![bytes[0]] + bytes.drop_first());
    } else {
        assert(whole[0] == 0u8);
    }
}

/// Reading back a C string that was written gives the text's bytes: when text
/// that is not empty is written, the bytes before the first zero in the buffer
/// are exactly its bytes.
pub proof fn lemma_write_cstr_read_back(bytes: Seq<u8>, buf: Seq<u8>)
    requires
        bytes.len() > 0,
        spec_write_cstr(bytes, buf).0 is Some,
    ensures
        cstr_prefix(spec_write_cstr(bytes, buf).1) == bytes,
        spec_write_cstr(bytes, buf).1.len() == buf.len(),
{
    lemma_cstr_prefix_of(bytes, buf.skip(bytes.len() as int + 1));
}

/// The status of a call whose result text has the bytes `bytes`: text holding a
/// zero byte, or too long for the buffer with its terminating zero, gives 4
/// whatever the call returned; text that is written gives 0 for a success and
/// 9 for an error.
pub proof fn lemma_output_status(bytes: Seq<u8>, buf: Seq<u8>, ok: bool)
    ensures
        bytes.contains(0u8) || (bytes.len() > 0 && bytes.len() >= buf.len()) ==> spec_output_status(
            spec_write_cstr(bytes, buf).0 is Some,
            ok,
        ) == STATUS_OUTPUT_TOO_LARGE,
        !bytes.contains(0u8) && (bytes.len() == 0 || bytes.len() < buf.len()) ==> spec_output_status(
            spec_write_cstr(bytes, buf).0 is Some,
            ok,
        ) == if ok {
            STATUS_OK
        } else {
            STATUS_ERROR
        },
{
}

/// Writes a command's result text into Arma's output buffer and gives the status
/// code of the call: too large for the buffer, else success or error as `ok` says.
pub fn write_output(text: String, ok: bool, buf: &mut [u8]) -> (r: i32)
    ensures
        r == spec_output_status(spec_write_cstr(encode_utf8(text@), old(buf)@).0 is Some, ok),
        final(buf)@ == spec_write_cstr(encode_utf8(text@), old(buf)@).1,
{
    match write_cstr(text, buf) {
        None => STATUS_OUTPUT_TOO_LARGE,
        Some(_) => if ok {
            STATUS_OK
        } else {
            STATUS_ERROR
        },
    }
}

/// The group and the rest of a `group:command` name, split at the first `:`;
/// `None` for a name without `:`, which names a command of the current group.
pub open spec fn spec_split_command(s: Seq<char>) -> Option<(Seq<char>, Seq<char>)> {
    let i = first_index(s, ':');
    if i < s.len() {
        Some((s.take(i), s.skip(i + 1)))
    } else {
        None
    }
}


/// A name without `:` is a command of the current group.
pub proof fn lemma_split_plain(name: Seq<char>)
    requires
        !name.contains(':'),
    ensures
        spec_split_command(name) is None,
{
    lemma_first_index_bound(name, ':');
    if first_index(name, ':') < name.len() {
        assert(name[first_index(name, ':')] == ':');
    }
}

/// A call `group:rest`, where the group's name holds no `:`, goes to that group with `rest`.
pub proof fn lemma_split_joined(group: Seq<char>, rest: Seq<char>)
    requires
        !group.contains(':'),
    ensures
        spec_split_command(group + seq![':'] + rest) == Some((group, rest)),
{
    let f = group + seq![':'] + rest;
    lemma_first_index_bound(f, ':');
    let i = first_index(f, ':');
    assert(f[group.len() as int] == ':');
    if i < group.len() {
        assert(f[i] == group[i]);
    }
    assert(i == group.len());
    assert(f.take(i) =~= group);
    assert(f.skip(i + 1) =~= rest);
}

/// Splits a called name at its first `:` into a group name and the rest.
pub fn split_command(function: &str) -> (r: Option<(String, String)>)
    ensures
        match (r, spec_split_command(function@)) {
            (Some((g, rest)), Some((sg, srest))) => g@ == sg && rest@ == srest,
            (None, None) => true,
            _ => false,
        },
{
    let c = chars_of(function);
    let mut k: usize = 0;
    assert(c@.skip(0) =~= c@);
    while k < c.len() && c[k] != ':'
        invariant
            k <= c@.len(),
            first_index(c@, ':') == k + first_index(c@.skip(k as int), ':'),
        decreases c@.len() - k,
    {
        assert(c@.skip(k as int).drop_first() =~= c@.skip(k + 1));
        k = k + 1;
    }
    if k == c.len() {
        assert(c@.skip(k as int).len() == 0);
        return None;
    }
    let g = copy_range(c.as_slice(), 0, k);
    let rest = copy_range(c.as_slice(), k + 1, c.len());
    assert(g@ =~= c@.take(k as int));
    assert(rest@ =~= c@.skip(k + 1));
    Some((string_from_chars(g.as_slice()), string_from_chars(rest.as_slice())))
}

/// The length in bytes of the output a buffer of `buffer_size` bytes can hold:
/// one byte goes to the terminating zero.
pub fn buffer_len(buffer_size: usize) -> (r: usize)
    ensures
        r == if buffer_size == 0 {
            0
        } else {
            buffer_size - 1
        },
{
    if buffer_size == 0 {
        0
    } else {
        buffer_size - 1
    }
}

} // verus!
