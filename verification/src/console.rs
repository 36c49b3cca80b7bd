//! The console command parser: turning a line of bytes from the serial
//! console into an unvalidated host request.
//!
//! A command is whitespace-separated ASCII, `<interface> <op> [args...]`,
//! with numeric arguments in decimal or `0x`-prefixed hexadecimal.  The
//! parser only assembles the fields; the validation gate in the protocol
//! module decides whether the command is well-formed.

use vstd::prelude::*;
use vstd::slice::slice_subrange;
use crate::protocol::host::{HostRequest, Unclean, ValidInterfaces, ValidOps};

verus! {

/// Compares two byte strings for equality.
fn bytes_eq(a: &[u8], b: &[u8]) -> (r: bool)
    ensures
        r == (a@ == b@),
{
    if a.len() != b.len() {
        proof {
            if a@ == b@ {
                assert(a@.len() == b@.len());
            }
        }
        return false;
    }
    let mut i: usize = 0;
    while i < a.len()
        invariant
            a@.len() == b@.len(),
            i <= a@.len(),
            forall|j: int| 0 <= j < i ==> a@[j] == b@[j],
        decreases a@.len() - i,
    {
        if a[i] != b[i] {
            proof {
                if a@ == b@ {
                    assert(a@[i as int] == b@[i as int]);
                }
            }
            return false;
        }
        i += 1;
    }
    proof {
        assert(a@ =~= b@);
    }
    true
}

/// Whether the needle occurs as a contiguous run of bytes anywhere in the
/// haystack.
pub fn slice_contains(haystack: &[u8], needle: &[u8]) -> (r: bool)
    ensures
        r == exists|i: int|
            0 <= i <= haystack@.len() - needle@.len() && #[trigger] haystack@.subrange(
                i,
                i + needle@.len(),
            ) == needle@,
{
    let hlen = haystack.len();
    let nlen = needle.len();
    if hlen < nlen {
        return false;
    }
    if nlen == 0 {
        proof {
            assert(haystack@.subrange(0, 0 + needle@.len() as int) =~= needle@);
        }
        return true;
    }
    let mut i: usize = 0;
    while i <= hlen - nlen
        invariant
            hlen == haystack@.len(),
            nlen == needle@.len(),
            1 <= nlen <= hlen,
            i <= hlen - nlen + 1,
            forall|j: int|
                0 <= j < i ==> #[trigger] haystack@.subrange(j, j + needle@.len()) != needle@,
        decreases hlen - nlen - i + 1,
    {
        if bytes_eq(slice_subrange(haystack, i, i + nlen), needle) {
            proof {
                assert(haystack@.subrange(i as int, i + nlen) == needle@);
            }
            return true;
        }
        i += 1;
    }
    false
}

/// Whether a byte is ASCII whitespace, the token separator.
pub open spec fn is_ws(b: u8) -> bool {
    b == 32 || (9 <= b && b <= 13)
}

/// Whether a byte is an ASCII decimal digit.
pub open spec fn is_dec_digit(b: u8) -> bool {
    48 <= b && b <= 57
}

/// Whether a byte is an ASCII hexadecimal digit.
pub open spec fn is_hex_digit(b: u8) -> bool {
    is_dec_digit(b) || (97 <= b && b <= 102) || (65 <= b && b <= 70)
}

/// The numeric value of a hexadecimal digit byte.
pub open spec fn hex_digit_val(b: u8) -> nat {
    if is_dec_digit(b) {
        (b - 48) as nat
    } else if 97 <= b && b <= 102 {
        (b - 97 + 10) as nat
    } else if 65 <= b && b <= 70 {
        (b - 65 + 10) as nat
    } else {
        0
    }
}

/// The value of a decimal digit string, most significant digit first.
pub open spec fn dec_value(s: Seq<u8>) -> nat
    decreases s.len(),
{
    if s.len() == 0 {
        0
    } else {
        dec_value(s.drop_last()) * 10 + ((s.last() - 48) as nat)
    }
}

/// The value of a hexadecimal digit string, most significant digit first.
pub open spec fn hex_value(s: Seq<u8>) -> nat
    decreases s.len(),
{
    if s.len() == 0 {
        0
    } else {
        hex_value(s.drop_last()) * 16 + hex_digit_val(s.last())
    }
}

/// Whether every byte of the string is a hexadecimal digit.
pub open spec fn all_hex(s: Seq<u8>) -> bool {
    forall|i: int| 0 <= i < s.len() ==> is_hex_digit(#[trigger] s[i])
}

/// The index of the first byte that is not a decimal digit, or the length
/// when all are.
pub open spec fn first_non_dec(s: Seq<u8>) -> int
    decreases s.len(),
{
    if s.len() == 0 {
        0
    } else if !is_dec_digit(s[0]) {
        0
    } else {
        1 + first_non_dec(s.skip(1))
    }
}

/// Sixteen to the `k`-th power.
pub open spec fn pow16(k: nat) -> nat
    decreases k,
{
    if k == 0 {
        1
    } else {
        16 * pow16((k - 1) as nat)
    }
}

/// The decimal accumulator guard: a running value at or above this bound
/// stops the parse before the next digit is folded in.
pub open spec fn dec_guard() -> nat {
    429496720
}

/// What parsing a numeric argument yields: the grammar accepts decimal
/// strings and `0x`-prefixed hexadecimal strings.  A leading `0` not
/// followed by `x` swallows the following byte unexamined, a quirk of the
/// scanner's prefix test.
pub open spec fn parse_number(s: Seq<u8>) -> Result<u32, &'static str> {
    if s.len() == 0 {
        Ok(0u32)
    } else {
        let c = s[0];
        if c == 48 && s.len() >= 2 && s[1] == 120 {
            let rest = s.skip(2);
            if rest.len() > 8 {
                Err("Integer number too large!")
            } else if all_hex(rest) {
                Ok(hex_value(rest) as u32)
            } else {
                Err("Invalid hex character")
            }
        } else if is_dec_digit(c) {
            let eff = if c == 48 && s.len() >= 2 {
                seq![c] + s.skip(2)
            } else {
                s
            };
            let fnd = first_non_dec(eff);
            if fnd == eff.len() {
                if eff.len() >= 2 && dec_value(eff.take(eff.len() - 1)) >= dec_guard() {
                    Err("Integer number too large!")
                } else {
                    Ok(dec_value(eff) as u32)
                }
            } else {
                if fnd >= 2 && dec_value(eff.take(fnd - 1)) >= dec_guard() {
                    Err("Integer number too large!")
                } else {
                    Err("Invalid decimal character")
                }
            }
        } else {
            Err("Not a hex or decimal string")
        }
    }
}

/// A prefix of a digit string never exceeds a longer prefix in value.
proof fn lemma_dec_prefix_le(s: Seq<u8>, j: int, k: int)
    requires
        0 <= j <= k <= s.len(),
    ensures
        dec_value(s.take(j)) <= dec_value(s.take(k)),
    decreases k - j,
{
    if j < k {
        lemma_dec_prefix_le(s, j, k - 1);
        assert(s.take(k).drop_last() =~= s.take(k - 1));
        assert(dec_value(s.take(k)) == dec_value(s.take(k - 1)) * 10 + ((s.take(k).last()
            - 48) as nat));
    }
}

/// Pins `first_non_dec` from pointwise facts about the string.
proof fn lemma_first_non_dec_at(s: Seq<u8>, k: int)
    requires
        0 <= k <= s.len(),
        forall|i: int| 0 <= i < k ==> is_dec_digit(#[trigger] s[i]),
        k < s.len() ==> !is_dec_digit(s[k]),
    ensures
        first_non_dec(s) == k,
    decreases s.len(),
{
    if k == 0 {
    } else {
        assert(is_dec_digit(s[0]));
        assert(forall|i: int| 0 <= i < k - 1 ==> is_dec_digit(#[trigger] s.skip(1)[i]));
        assert(k - 1 < s.skip(1).len() ==> !is_dec_digit(s.skip(1)[k - 1]));
        lemma_first_non_dec_at(s.skip(1), k - 1);
        assert(first_non_dec(s) == 1 + first_non_dec(s.skip(1)));
    }
}

/// `first_non_dec` of a string is at least the length of any all-digit
/// prefix.
proof fn lemma_first_non_dec_prefix(s: Seq<u8>, k: int)
    requires
        0 <= k <= s.len(),
        forall|i: int| 0 <= i < k ==> is_dec_digit(#[trigger] s[i]),
    ensures
        first_non_dec(s) >= k,
    decreases k,
{
    lemma_first_non_dec_le(s);
    if k > 0 {
        assert(is_dec_digit(s[0]));
        assert(forall|i: int| 0 <= i < k - 1 ==> is_dec_digit(#[trigger] s.skip(1)[i]));
        lemma_first_non_dec_prefix(s.skip(1), k - 1);
        assert(first_non_dec(s) == 1 + first_non_dec(s.skip(1)));
    }
}

/// The value of a hexadecimal string is below sixteen to its length.
proof fn lemma_hex_value_bound(s: Seq<u8>)
    ensures
        hex_value(s) < pow16(s.len()),
    decreases s.len(),
{
    if s.len() > 0 {
        lemma_hex_value_bound(s.drop_last());
        assert(hex_digit_val(s.last()) <= 15);
        assert(hex_value(s) == hex_value(s.drop_last()) * 16 + hex_digit_val(s.last()));
    }
}

proof fn lemma_pow16_le(a: nat, b: nat)
    requires
        a <= b,
    ensures
        pow16(a) <= pow16(b),
    decreases b,
{
    if a < b {
        lemma_pow16_le(a, (b - 1) as nat);
        assert(pow16(b) == 16 * pow16((b - 1) as nat));
    }
}

/// Parses a numeric argument in decimal or `0x`-prefixed hexadecimal form,
/// for instance `255` or `0xFF`.
pub fn bytes_to_number(s: &[u8]) -> (r: Result<u32, &'static str>)
    ensures
        r == parse_number(s@),
{
    let n = s.len();
    if n == 0 {
        return Ok(0);
    }
    let c = s[0];
    if !(c == 48 && n >= 2 && s[1] == 120) {
        if 48 <= c && c <= 57 {
            let mut result: u32 = (c - 48) as u32;
            let start: usize = if c == 48 && n >= 2 {
                2
            } else {
                1
            };
            let ghost eff = seq![c] + s@.skip(start as int);
            proof {
                if start == 1 {
                    assert(eff =~= s@);
                }
                assert(eff[0] == c);
                assert(eff.take(1) =~= seq![c]);
                assert(seq![c].drop_last() =~= Seq::<u8>::empty());
                assert(dec_value(seq![c]) == dec_value(seq![c].drop_last()) * 10 + ((seq![c].last()
                    - 48) as nat));
                assert(result == dec_value(eff.take(1)));
            }
            let mut j: usize = start;
            while j < n
                invariant
                    n == s@.len(),
                    n >= 1,
                    c == s@[0],
                    48 <= c <= 57,
                    !(c == 48 && n >= 2 && s@[1] == 120),
                    start <= j <= n,
                    start == 1 || start == 2,
                    (start == 2) == (c == 48 && n >= 2),
                    eff == seq![c] + s@.skip(start as int),
                    eff[0] == c,
                    eff.len() == n - start + 1,
                    result == dec_value(eff.take(j - start + 1)),
                    forall|k: int| 1 <= k <= j - start ==> is_dec_digit(#[trigger] eff[k]),
                    forall|k: int|
                        1 <= k <= j - start ==> dec_value(#[trigger] eff.take(k)) < dec_guard(),
                decreases n - j,
            {
                let b = s[j];
                let ghost pos = j - start + 1;
                proof {
                    assert(eff[pos] == s@.skip(start as int)[pos - 1]);
                    assert(eff[pos] == s@[j as int]);
                }
                if !(48 <= b && b <= 57) {
                    proof {
                        assert(!is_dec_digit(eff[pos]));
                        assert(forall|i: int| 0 <= i < pos ==> is_dec_digit(#[trigger] eff[i]));
                        lemma_first_non_dec_at(eff, pos);
                        if start == 1 {
                            assert(eff =~= s@);
                        }
                    }
                    return Err("Invalid decimal character");
                }
                if result >= 429496720 {
                    proof {
                        assert(is_dec_digit(eff[pos]));
                        assert(forall|i: int|
                            0 <= i < pos + 1 ==> is_dec_digit(#[trigger] eff[i]));
                        lemma_first_non_dec_prefix(eff, pos + 1);
                        let fnd = first_non_dec(eff);
                        assert(fnd >= pos + 1);
                        assert(dec_value(eff.take(pos)) >= dec_guard());
                        if fnd == eff.len() {
                            lemma_dec_prefix_le(eff, pos, eff.len() - 1);
                        } else {
                            lemma_first_non_dec_le(eff);
                            lemma_dec_prefix_le(eff, pos, fnd - 1);
                        }
                        if start == 1 {
                            assert(eff =~= s@);
                        }
                    }
                    return Err("Integer number too large!");
                }
                proof {
                    assert(eff.take(pos + 1).drop_last() =~= eff.take(pos));
                    assert(eff.take(pos + 1).last() == eff[pos]);
                }
                result = result * 10 + (b - 48) as u32;
                j += 1;
            }
            proof {
                assert(forall|i: int| 0 <= i < eff.len() ==> is_dec_digit(#[trigger] eff[i]));
                lemma_first_non_dec_at(eff, eff.len() as int);
                assert(eff.take(eff.len() as int) =~= eff);
                if start == 1 {
                    assert(eff =~= s@);
                }
            }
            return Ok(result);
        }
        return Err("Not a hex or decimal string");
    }
    if n - 2 > 8 {
        return Err("Integer number too large!");
    }
    let mut result: u32 = 0;
    let mut j: usize = 2;
    proof {
        assert(s@.skip(2).take(0) =~= Seq::<u8>::empty());
    }
    while j < n
        invariant
            n == s@.len(),
            2 <= j <= n,
            n - 2 <= 8,
            s@[0] == 48 && n >= 2 && s@[1] == 120,
            forall|k: int| 0 <= k < j - 2 ==> is_hex_digit(#[trigger] s@.skip(2)[k]),
            result == hex_value(s@.skip(2).take(j - 2)),
        decreases n - j,
    {
        let b = s[j];
        let ghost rest = s@.skip(2);
        let ghost pos = j - 2;
        proof {
            assert(rest[pos] == s@[j as int]);
        }
        let digit: u32 = if 48 <= b && b <= 57 {
            (b - 48) as u32
        } else if 97 <= b && b <= 102 {
            (b - 97 + 10) as u32
        } else if 65 <= b && b <= 70 {
            (b - 65 + 10) as u32
        } else {
            proof {
                assert(!is_hex_digit(rest[pos]));
                assert(!all_hex(rest));
            }
            return Err("Invalid hex character");
        };
        proof {
            assert(is_hex_digit(rest[pos]));
            assert(digit == hex_digit_val(rest[pos]));
            lemma_hex_value_bound(rest.take(pos));
            lemma_pow16_le(rest.take(pos).len() as nat, 7);
            assert(pow16(7) == 16 * pow16(6));
            assert(pow16(6) == 16 * pow16(5));
            assert(pow16(5) == 16 * pow16(4));
            assert(pow16(4) == 16 * pow16(3));
            assert(pow16(3) == 16 * pow16(2));
            assert(pow16(2) == 16 * pow16(1));
            assert(pow16(1) == 16 * pow16(0));
            assert(rest.take(pos + 1).drop_last() =~= rest.take(pos));
            assert(rest.take(pos + 1).last() == rest[pos]);
        }
        result = result * 16 + digit;
        j += 1;
    }
    proof {
        assert(s@.skip(2).take(n - 2) =~= s@.skip(2));
        assert(all_hex(s@.skip(2)));
    }
    Ok(result)
}

/// `first_non_dec` never exceeds the length of the string.
proof fn lemma_first_non_dec_le(s: Seq<u8>)
    ensures
        0 <= first_non_dec(s) <= s.len(),
    decreases s.len(),
{
    if s.len() > 0 && is_dec_digit(s[0]) {
        lemma_first_non_dec_le(s.skip(1));
    }
}

/// The length of the token at the head of the string: the number of bytes
/// before the first whitespace.
pub open spec fn token_len(s: Seq<u8>) -> int
    decreases s.len(),
{
    if s.len() == 0 || is_ws(s[0]) {
        0
    } else {
        1 + token_len(s.skip(1))
    }
}

/// The whitespace-separated tokens of the string, in order.
pub open spec fn tokens_of(s: Seq<u8>) -> Seq<Seq<u8>>
    decreases s.len(),
    via tokens_of_decreases
{
    if s.len() == 0 {
        Seq::empty()
    } else if is_ws(s[0]) {
        tokens_of(s.skip(1))
    } else {
        seq![s.take(token_len(s))] + tokens_of(s.skip(token_len(s)))
    }
}

#[via_fn]
proof fn tokens_of_decreases(s: Seq<u8>) {
    if s.len() > 0 && !is_ws(s[0]) {
        lemma_token_len_le(s.skip(1));
        assert(token_len(s) == 1 + token_len(s.skip(1)));
        lemma_token_len_le(s);
    }
}

/// `token_len` stays within the string.
proof fn lemma_token_len_le(s: Seq<u8>)
    ensures
        0 <= token_len(s) <= s.len(),
    decreases s.len(),
{
    if s.len() > 0 && !is_ws(s[0]) {
        lemma_token_len_le(s.skip(1));
    }
}

/// Pins `token_len` from pointwise facts about the string.
proof fn lemma_token_len_at(s: Seq<u8>, k: int)
    requires
        0 <= k <= s.len(),
        forall|i: int| 0 <= i < k ==> !is_ws(#[trigger] s[i]),
        k < s.len() ==> is_ws(s[k]),
    ensures
        token_len(s) == k,
    decreases s.len(),
{
    if k == 0 {
    } else {
        assert(!is_ws(s[0]));
        assert(forall|i: int| 0 <= i < k - 1 ==> !is_ws(#[trigger] s.skip(1)[i]));
        assert(k - 1 < s.skip(1).len() ==> is_ws(s.skip(1)[k - 1]));
        lemma_token_len_at(s.skip(1), k - 1);
        assert(token_len(s) == 1 + token_len(s.skip(1)));
    }
}

/// Splits a byte string into its whitespace-separated tokens.
pub fn tokenize(input: &[u8]) -> (toks: Vec<Vec<u8>>)
    ensures
        toks.deep_view() == tokens_of(input@),
{
    let n = input.len();
    let mut toks: Vec<Vec<u8>> = Vec::new();
    let mut i: usize = 0;
    proof {
        assert(input@.skip(0) =~= input@);
        assert(toks.deep_view() =~= Seq::<Seq<u8>>::empty());
        assert(toks.deep_view() + tokens_of(input@) =~= tokens_of(input@));
    }
    while i < n
        invariant
            n == input@.len(),
            i <= n,
            tokens_of(input@) == toks.deep_view() + tokens_of(input@.skip(i as int)),
        decreases n - i,
    {
        let b = input[i];
        if b == 32 || (9 <= b && b <= 13) {
            proof {
                assert(is_ws(input@.skip(i as int)[0]));
                assert(input@.skip(i as int).skip(1) =~= input@.skip(i + 1));
            }
            i += 1;
        } else {
            let ghost rest = input@.skip(i as int);
            let start = i;
            let mut cur: Vec<u8> = Vec::new();
            loop
                invariant
                    n == input@.len(),
                    start <= i <= n,
                    rest == input@.skip(start as int),
                    cur@ == input@.subrange(start as int, i as int),
                    forall|k: int| 0 <= k < i - start ==> !is_ws(#[trigger] rest[k]),
                ensures
                    n == input@.len(),
                    start <= i <= n,
                    cur@ == input@.subrange(start as int, i as int),
                    forall|k: int| 0 <= k < i - start ==> !is_ws(#[trigger] rest[k]),
                    i < n ==> is_ws(input@[i as int]),
                    i == n || is_ws(rest[i - start]),
                decreases n - i,
            {
                if i >= n {
                    break ;
                }
                let b2 = input[i];
                if b2 == 32 || (9 <= b2 && b2 <= 13) {
                    proof {
                        assert(rest[i - start] == input@[i as int]);
                    }
                    break ;
                }
                proof {
                    assert(rest[i - start] == input@[i as int]);
                    assert(input@.subrange(start as int, i + 1) =~= input@.subrange(
                        start as int,
                        i as int,
                    ).push(input@[i as int]));
                }
                cur.push(b2);
                i += 1;
            }
            proof {
                lemma_token_len_at(rest, i - start);
                assert(rest.take(i - start) =~= input@.subrange(start as int, i as int));
                assert(rest.skip(i - start) =~= input@.skip(i as int));
                assert(!is_ws(rest[0]));
                assert(tokens_of(rest) == seq![cur@] + tokens_of(input@.skip(i as int)));
            }
            let ghost old_toks_dv = toks.deep_view();
            let ghost cur_view = cur@;
            proof {
                assert(cur.deep_view() =~= cur@);
            }
            toks.push(cur);
            proof {
                assert(toks.deep_view() =~~= old_toks_dv.push(cur_view));
                assert(toks.deep_view() + tokens_of(input@.skip(i as int)) =~~= old_toks_dv + (
                seq![cur_view] + tokens_of(input@.skip(i as int))));
            }
        }
    }
    proof {
        assert(tokens_of(input@.skip(n as int)) =~= Seq::<Seq<u8>>::empty());
        assert(toks.deep_view() =~= toks.deep_view() + tokens_of(input@.skip(n as int)));
    }
    toks
}

/// Whether the token selects the SMI interface: `smi` or `SMI`.
pub open spec fn is_smi_token(t: Seq<u8>) -> bool {
    t == seq![115u8, 109u8, 105u8] || t == seq![83u8, 77u8, 73u8]
}

/// Whether the token selects a read: `r` or `R`.
pub open spec fn is_read_token(t: Seq<u8>) -> bool {
    t == seq![114u8] || t == seq![82u8]
}

/// Whether the token selects a write: `w` or `W`.
pub open spec fn is_write_token(t: Seq<u8>) -> bool {
    t == seq![119u8] || t == seq![87u8]
}

/// Whether the token asks for the help banner: `menu`, `m` or `M`.
pub open spec fn is_menu_token(t: Seq<u8>) -> bool {
    t == seq![109u8, 101u8, 110u8, 117u8] || t == seq![109u8] || t == seq![77u8]
}

/// Whether a console line asks for the help banner instead of a command:
/// some token of the line is `menu`, `m` or `M`.
pub open spec fn menu_requested(s: Seq<u8>) -> bool {
    exists|i: int| 0 <= i < tokens_of(s).len() && is_menu_token(#[trigger] tokens_of(s)[i])
}

fn token_is_smi(t: &[u8]) -> (r: bool)
    ensures
        r == is_smi_token(t@),
{
    if t.len() != 3 {
        return false;
    }
    let lower = t[0] == 115 && t[1] == 109 && t[2] == 105;
    let upper = t[0] == 83 && t[1] == 77 && t[2] == 73;
    proof {
        if lower {
            assert(t@ =~= seq![115u8, 109u8, 105u8]);
        }
        if upper {
            assert(t@ =~= seq![83u8, 77u8, 73u8]);
        }
    }
    lower || upper
}

fn token_is_read(t: &[u8]) -> (r: bool)
    ensures
        r == is_read_token(t@),
{
    if t.len() != 1 {
        return false;
    }
    let hit = t[0] == 114 || t[0] == 82;
    proof {
        if t[0] == 114 {
            assert(t@ =~= seq![114u8]);
        }
        if t[0] == 82 {
            assert(t@ =~= seq![82u8]);
        }
    }
    hit
}

fn token_is_write(t: &[u8]) -> (r: bool)
    ensures
        r == is_write_token(t@),
{
    if t.len() != 1 {
        return false;
    }
    let hit = t[0] == 119 || t[0] == 87;
    proof {
        if t[0] == 119 {
            assert(t@ =~= seq![119u8]);
        }
        if t[0] == 87 {
            assert(t@ =~= seq![87u8]);
        }
    }
    hit
}

fn token_is_menu(t: &[u8]) -> (r: bool)
    ensures
        r == is_menu_token(t@),
{
    if t.len() == 1 {
        let hit = t[0] == 109 || t[0] == 77;
        proof {
            if t[0] == 109 {
                assert(t@ =~= seq![109u8]);
            }
            if t[0] == 77 {
                assert(t@ =~= seq![77u8]);
            }
        }
        return hit;
    }
    if t.len() != 4 {
        return false;
    }
    let hit = t[0] == 109 && t[1] == 101 && t[2] == 110 && t[3] == 117;
    proof {
        if hit {
            assert(t@ =~= seq![109u8, 101u8, 110u8, 117u8]);
        }
    }
    hit
}

/// Decides whether a console line asks for the help banner rather than a
/// command: it does when any of its tokens is `menu`, `m` or `M`.
pub fn is_menu_command(input: &[u8]) -> (r: bool)
    ensures
        r == menu_requested(input@),
{
    let toks = tokenize(input);
    let count = toks.len();
    proof {
        assert(toks.deep_view().len() == toks@.len());
    }
    let mut i: usize = 0;
    while i < count
        invariant
            toks.deep_view() == tokens_of(input@),
            count == toks@.len(),
            i <= count,
            forall|j: int| 0 <= j < i ==> !is_menu_token(#[trigger] tokens_of(input@)[j]),
        decreases count - i,
    {
        proof {
            assert(toks.deep_view()[i as int] == toks@[i as int].deep_view());
            assert(toks@[i as int].deep_view() =~= toks@[i as int]@);
        }
        if token_is_menu(toks[i].as_slice()) {
            proof {
                assert(is_menu_token(tokens_of(input@)[i as int]));
            }
            return true;
        }
        i += 1;
    }
    false
}

/// The number of numeric arguments the parser folds into the payload: all
/// tokens after the interface and operation words except the last.
pub open spec fn arg_count(count: int) -> int {
    if count >= 3 {
        count - 3
    } else {
        0
    }
}

/// Parses one console command line into an unvalidated request.  The line
/// must name the SMI interface and a read or write operation; the numeric
/// arguments fill the payload in order.  The last token of the line is
/// never treated as an argument, so a command typed at the console carries
/// its line terminator without harm.
pub fn message_parse_build(input: &[u8]) -> (r: Result<HostRequest<Unclean>, &'static str>)
    ensures
        ({
            let toks = tokens_of(input@);
            let argc = arg_count(toks.len() as int);
            &&& toks.len() > 6 ==> r == Err::<HostRequest<Unclean>, &'static str>(
                "Too many arguments",
            )
            &&& (toks.len() <= 6 && !(toks.len() >= 1 && is_smi_token(toks[0]))) ==> r
                == Err::<HostRequest<Unclean>, &'static str>("Invalid Interface")
            &&& (toks.len() <= 6 && toks.len() >= 1 && is_smi_token(toks[0]) && !(toks.len() >= 2
                && (is_read_token(toks[1]) || is_write_token(toks[1])))) ==> r == Err::<
                HostRequest<Unclean>,
                &'static str,
            >("Invalid Operation")
            &&& (toks.len() <= 6 && toks.len() >= 2 && is_smi_token(toks[0]) && (is_read_token(
                toks[1],
            ) || is_write_token(toks[1]))) ==> ({
                &&& (forall|k: int|
                    0 <= k < argc ==> parse_number(#[trigger] toks[2 + k]) is Ok) ==> (r is Ok && ({
                    let hr = r->Ok_0;
                    &&& hr.proc_id == 0
                    &&& hr.interface is SMI
                    &&& hr.host_config is Unselected
                    &&& (hr.operation is Read <==> is_read_token(toks[1]))
                    &&& (hr.operation is Write <==> is_write_token(toks[1]))
                    &&& hr.checksum == 0
                    &&& hr.size == argc
                    &&& (forall|k: int|
                        0 <= k < argc ==> hr.payload[k] == parse_number(
                            #[trigger] toks[2 + k],
                        )->Ok_0)
                    &&& (forall|k: int| argc <= k < 4 ==> hr.payload[k] == 0)
                }))
                &&& (exists|k: int|
                    0 <= k < argc && parse_number(#[trigger] toks[2 + k]) is Err) ==> (r is Err && (
                exists|k: int|
                    {
                        &&& 0 <= k < argc
                        &&& parse_number(#[trigger] toks[2 + k]) is Err
                        &&& (forall|j: int| 0 <= j < k ==> parse_number(#[trigger] toks[2 + j]) is Ok)
                        &&& r->Err_0 == parse_number(toks[2 + k])->Err_0
                    }))
            })
        }),
{
    let toks = tokenize(input);
    let count = toks.len();
    proof {
        assert(toks.deep_view().len() == toks@.len());
    }
    if count > 6 {
        return Err("Too many arguments");
    }
    let mut hr = HostRequest::new();
    if count < 1 {
        return Err("Invalid Interface");
    }
    proof {
        assert(toks.deep_view()[0] == toks@[0].deep_view());
        assert(toks@[0].deep_view() =~= toks@[0]@);
    }
    if !token_is_smi(toks[0].as_slice()) {
        return Err("Invalid Interface");
    }
    hr.set_interface(ValidInterfaces::SMI);
    if count < 2 {
        return Err("Invalid Operation");
    }
    proof {
        assert(toks.deep_view()[1] == toks@[1].deep_view());
        assert(toks@[1].deep_view() =~= toks@[1]@);
    }
    let is_read = token_is_read(toks[1].as_slice());
    let is_write = token_is_write(toks[1].as_slice());
    if is_read {
        hr.set_operation(ValidOps::Read);
    } else if is_write {
        hr.set_operation(ValidOps::Write);
    } else {
        return Err("Invalid Operation");
    }
    proof {
        let t1 = tokens_of(input@)[1];
        assert(seq![114u8][0] == 114 && seq![82u8][0] == 82 && seq![119u8][0] == 119
            && seq![87u8][0] == 87);
        assert(!(is_read_token(t1) && is_write_token(t1)));
    }
    let mut payload: [u32; 4] = [0u32;4];
    let argc: usize = if count >= 3 {
        count - 3
    } else {
        0
    };
    let mut k: usize = 0;
    while k < argc
        invariant
            toks.deep_view() == tokens_of(input@),
            count == toks@.len(),
            count == tokens_of(input@).len(),
            2 <= count <= 6,
            argc == arg_count(count as int),
            k <= argc,
            is_smi_token(tokens_of(input@)[0]),
            is_read_token(tokens_of(input@)[1]) || is_write_token(tokens_of(input@)[1]),
            hr.proc_id == 0,
            hr.interface is SMI,
            hr.host_config is Unselected,
            hr.checksum == 0,
            hr.operation is Read <==> is_read_token(tokens_of(input@)[1]),
            hr.operation is Write <==> is_write_token(tokens_of(input@)[1]),
            forall|j: int|
                0 <= j < k ==> parse_number(#[trigger] tokens_of(input@)[2 + j]) is Ok,
            forall|j: int|
                0 <= j < k ==> payload@[j] == parse_number(
                    #[trigger] tokens_of(input@)[2 + j],
                )->Ok_0,
            forall|j: int| k <= j < 4 ==> payload@[j] == 0,
        decreases argc - k,
    {
        proof {
            assert(toks.deep_view()[2 + k] == toks@[2 + k].deep_view());
            assert(toks@[2 + k].deep_view() =~= toks@[2 + k]@);
        }
        match bytes_to_number(toks[2 + k].as_slice()) {
            Ok(value) => {
                payload[k] = value;
                k += 1;
            },
            Err(e) => {
                proof {
                    let toks_spec = tokens_of(input@);
                    let kk = k as int;
                    assert(0 <= kk < arg_count(toks_spec.len() as int) && parse_number(
                        toks_spec[2 + kk],
                    ) is Err && (forall|j: int|
                        0 <= j < kk ==> parse_number(#[trigger] toks_spec[2 + j]) is Ok));
                }
                return Err(e);
            },
        }
    }
    hr.set_size(argc as u8);
    hr.set_payload(payload);
    Ok(hr)
}

} // verus!
