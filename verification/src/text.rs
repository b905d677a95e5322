//! Verified helpers on bytes, characters and decimal numbers: ASCII
//! lowercasing, strict decimal parsing and printing, and string building.

use vstd::prelude::*;
use vstd::slice::slice_subrange;
use vstd::slice::slice_to_vec;
use vstd::string::StrSliceExecFns;
use vstd::string::StringExecFns;

use crate::subseq::find_first;
use crate::subseq::first_occ_from;
use crate::subseq::lemma_first_occ_props;

verus! {

/// The pieces of `s` between the occurrences of the separator `sep`,
/// splitting at the first occurrence each time; without any occurrence the
/// one piece is `s` itself.
pub open spec fn split_seq(s: Seq<u8>, sep: Seq<u8>) -> Seq<Seq<u8>>
    decreases s.len(),
{
    match first_occ_from(s, sep, 0) {
        Some(i) => if 0 <= i && i + sep.len() <= s.len() && sep.len() > 0 {
            seq![s.take(i)] + split_seq(s.skip(i + sep.len()), sep)
        } else {
            seq![s]
        },
        None => seq![s],
    }
}

/// Split `s` at every occurrence of `sep`, first occurrence first.
pub fn split_all(s: &[u8], sep: &[u8]) -> (r: Vec<Vec<u8>>)
    requires
        sep@.len() > 0,
    ensures
        r.deep_view() == split_seq(s@, sep@),
    decreases s@.len(),
{
    let n = s.len();
    proof {
        lemma_first_occ_props(s@, sep@, 0);
    }
    match find_first(s, sep) {
        Some(i) => {
            proof {
                assert(crate::subseq::occurs_at(s@, sep@, i as int));
                assert(i + sep@.len() <= s@.len());
            }
            let head = slice_to_vec(slice_subrange(s, 0, i));
            let rest = slice_subrange(s, i + sep.len(), n);
            let mut out = split_all(rest, sep);
            out.insert(0, head);
            proof {
                assert(out.deep_view() =~~= seq![s@.take(i as int)] + split_seq(
                    s@.skip(i + sep@.len()),
                    sep@,
                ));
            }
            out
        },
        None => {
            let mut out: Vec<Vec<u8>> = Vec::new();
            out.push(slice_to_vec(s));
            proof {
                assert(out.deep_view() =~~= seq![s@]);
            }
            out
        },
    }
}

/// ASCII lowercasing of one byte.
pub open spec fn spec_lower_byte(b: u8) -> u8 {
    if 65 <= b <= 90 {
        (b + 32) as u8
    } else {
        b
    }
}

/// ASCII lowercasing over a whole byte sequence.
pub open spec fn spec_lower(s: Seq<u8>) -> Seq<u8> {
    s.map_values(|b: u8| spec_lower_byte(b))
}

/// Lowercase the ASCII letters of `s`, leaving every other byte as it is.
pub fn lower_bytes(s: &[u8]) -> (r: Vec<u8>)
    ensures
        r@ == spec_lower(s@),
{
    let mut out: Vec<u8> = Vec::new();
    let mut i: usize = 0;
    while i < s.len()
        invariant
            i <= s@.len(),
            out@ == spec_lower(s@.take(i as int)),
        decreases s@.len() - i,
    {
        let b = s[i];
        if 65 <= b && b <= 90 {
            out.push(b + 32);
        } else {
            out.push(b);
        }
        proof {
            assert(spec_lower(s@.take(i + 1 as int)) =~= spec_lower(s@.take(i as int)).push(
                spec_lower_byte(s@[i as int]),
            ));
        }
        i = i + 1;
    }
    proof {
        assert(s@.take(s@.len() as int) =~= s@);
    }
    out
}

/// Whether `b` is an ASCII decimal digit.
pub open spec fn is_digit_byte(b: u8) -> bool {
    48 <= b <= 57
}

/// Whether `s` is a non-empty run of ASCII decimal digits.
pub open spec fn valid_dec(s: Seq<u8>) -> bool {
    s.len() > 0 && forall|i: int| 0 <= i < s.len() ==> is_digit_byte(#[trigger] s[i])
}

/// The number that the digit run `s` denotes.
pub open spec fn dec_value(s: Seq<u8>) -> nat
    decreases s.len(),
{
    if s.len() == 0 {
        0
    } else {
        (dec_value(s.drop_last()) * 10 + (s.last() - 48)) as nat
    }
}

/// A digit prefix never denotes more than the whole run.
proof fn lemma_dec_value_prefix(s: Seq<u8>, i: int)
    requires
        0 <= i <= s.len(),
        valid_dec(s) || s.len() == 0 || i == s.len(),
        forall|j: int| 0 <= j < s.len() ==> is_digit_byte(#[trigger] s[j]),
    ensures
        dec_value(s.take(i)) <= dec_value(s),
    decreases s.len() - i,
{
    if i < s.len() {
        assert(s.take(i + 1).drop_last() =~= s.take(i));
        assert(s.take(i + 1).last() == s[i]);
        assert(dec_value(s.take(i)) <= dec_value(s.take(i + 1)));
        lemma_dec_value_prefix(s, i + 1);
        assert(s.take(s.len() as int) =~= s);
    } else {
        assert(s.take(i) =~= s);
    }
}

/// Parse a strict decimal number: every byte must be a digit, at least one
/// byte must be there, and the value must fit in `usize`.
pub fn parse_dec(s: &[u8]) -> (r: Option<usize>)
    ensures
        match r {
            Some(v) => valid_dec(s@) && v == dec_value(s@),
            None => !valid_dec(s@) || dec_value(s@) > usize::MAX,
        },
{
    if s.len() == 0 {
        return None;
    }
    let mut acc: usize = 0;
    let mut i: usize = 0;
    while i < s.len()
        invariant
            0 < s@.len(),
            i <= s@.len(),
            acc == dec_value(s@.take(i as int)),
            forall|j: int| 0 <= j < i ==> is_digit_byte(#[trigger] s@[j]),
        decreases s@.len() - i,
    {
        let b = s[i];
        if b < 48 || b > 57 {
            return None;
        }
        let d = (b - 48) as usize;
        if acc > (usize::MAX - d) / 10 {
            proof {
                assert(acc * 10 + d > usize::MAX) by (nonlinear_arith)
                    requires
                        acc > (usize::MAX - d) / 10,
                        d <= 9,
                ;
                assert(s@.take(i + 1 as int).drop_last() =~= s@.take(i as int));
                assert(dec_value(s@.take(i + 1 as int)) > usize::MAX);
                if valid_dec(s@) {
                    lemma_dec_value_prefix(s@, i + 1);
                }
            }
            return None;
        }
        proof {
            assert(acc * 10 + d <= usize::MAX) by (nonlinear_arith)
                requires
                    acc <= (usize::MAX - d) / 10,
                    d <= 9,
            ;
            assert(s@.take(i + 1 as int).drop_last() =~= s@.take(i as int));
        }
        acc = acc * 10 + d;
        i = i + 1;
    }
    proof {
        assert(s@.take(s@.len() as int) =~= s@);
    }
    Some(acc)
}

/// The character for the digit `d`.
pub open spec fn digit_char(d: int) -> char {
    ((48 + d) as u8) as char
}

/// The decimal text of `n`, most significant digit first.
pub open spec fn dec_str(n: nat) -> Seq<char>
    decreases n,
{
    if n < 10 {
        seq![digit_char(n as int)]
    } else {
        dec_str(n / 10) + seq![digit_char((n % 10) as int)]
    }
}

/// Relies on String::push: it appends exactly the given character.
#[verifier::external_body]
pub fn push_char(s: &mut String, c: char)
    ensures
        final(s)@ == old(s)@.push(c),
{
    s.push(c);
}

/// Print `n` in decimal.
pub fn u64_to_dec(n: u64) -> (r: String)
    ensures
        r@ == dec_str(n as nat),
    decreases n,
{
    if n < 10 {
        let mut s = String::new();
        push_char(&mut s, (48 + n as u8) as char);
        proof {
            assert(s@ =~= dec_str(n as nat));
        }
        s
    } else {
        let mut s = u64_to_dec(n / 10);
        push_char(&mut s, (48 + (n % 10) as u8) as char);
        proof {
            assert(s@ =~= dec_str(n as nat));
        }
        s
    }
}

/// Whether the character sequences are equal.
pub fn str_eq(a: &str, b: &str) -> (r: bool)
    ensures
        r == (a@ == b@),
{
    let aa: String = a.to_owned();
    let bb: String = b.to_owned();
    aa == bb
}

/// The position of the last occurrence of `c` in `s`, if any.
pub open spec fn last_idx(s: Seq<char>, c: char) -> Option<int>
    decreases s.len(),
{
    if s.len() == 0 {
        None
    } else if s.last() == c {
        Some(s.len() - 1)
    } else {
        last_idx(s.drop_last(), c)
    }
}

/// What `last_idx` answers: a hit is the last hit, a miss means the
/// character does not occur.
pub proof fn lemma_last_idx_props(s: Seq<char>, c: char)
    ensures
        match last_idx(s, c) {
            Some(i) => 0 <= i < s.len() && s[i] == c && forall|j: int|
                i < j < s.len() ==> s[j] != c,
            None => forall|j: int| 0 <= j < s.len() ==> s[j] != c,
        },
    decreases s.len(),
{
    if s.len() > 0 && s.last() != c {
        lemma_last_idx_props(s.drop_last(), c);
        assert(forall|j: int| 0 <= j < s.len() - 1 ==> s[j] == s.drop_last()[j]);
    }
}

/// The position of the last occurrence of `c` in `s`, if any.
pub fn last_index_of(s: &str, c: char) -> (r: Option<usize>)
    ensures
        match r {
            Some(i) => last_idx(s@, c) == Some(i as int),
            None => last_idx(s@, c) is None,
        },
{
    let n = s.unicode_len();
    proof {
        assert(s@.take(n as int) =~= s@);
    }
    let mut i: usize = n;
    while i > 0
        invariant
            i <= n,
            n == s@.len(),
            last_idx(s@, c) == last_idx(s@.take(i as int), c),
        decreases i,
    {
        i = i - 1;
        proof {
            assert(s@.take(i + 1 as int).drop_last() =~= s@.take(i as int));
            assert(s@.take(i + 1 as int).last() == s@[i as int]);
        }
        if s.get_char(i) == c {
            return Some(i);
        }
    }
    None
}

/// `s` with every occurrence of `pat` replaced by `rep`, left to right and
/// without overlap, as str::replace does it.
pub open spec fn spec_replace(s: Seq<char>, pat: Seq<char>, rep: Seq<char>) -> Seq<char>
    decreases s.len(),
{
    if pat.len() == 0 || s.len() < pat.len() {
        s
    } else if s.take(pat.len() as int) == pat {
        rep + spec_replace(s.skip(pat.len() as int), pat, rep)
    } else {
        seq![s[0]] + spec_replace(s.skip(1), pat, rep)
    }
}

/// Replace every occurrence of `pat` in `s` by `rep`.
pub fn replace_all(s: &str, pat: &str, rep: &str) -> (r: String)
    requires
        pat@.len() > 0,
    ensures
        r@ == spec_replace(s@, pat@, rep@),
{
    let n = s.unicode_len();
    let m = pat.unicode_len();
    let mut out = String::new();
    let mut i: usize = 0;
    proof {
        assert(s@.skip(0) =~= s@);
    }
    #[verifier::loop_isolation(false)]
    while i < n
        invariant
            i <= n,
            out@ + spec_replace(s@.skip(i as int), pat@, rep@) == spec_replace(s@, pat@, rep@),
        decreases n - i,
    {
        let mut matches_here = m <= n - i;
        if matches_here {
            let mut k: usize = 0;
            #[verifier::loop_isolation(false)]
            while k < m
                invariant
                    0 <= k <= m,
                    i + m <= n,
                    matches_here ==> forall|j: int| 0 <= j < k ==> s@[i + j] == pat@[j],
                    !matches_here ==> exists|j: int| 0 <= j < m && s@[i + j] != pat@[j],
                decreases m - k,
            {
                if s.get_char(i + k) != pat.get_char(k) {
                    matches_here = false;
                    break;
                }
                k = k + 1;
            }
        }
        if matches_here {
            proof {
                assert(s@.skip(i as int).take(m as int) =~= pat@);
                assert(s@.skip(i as int).skip(m as int) =~= s@.skip(i + m));
            }
            out.append(rep);
            i = i + m;
        } else {
            proof {
                if m <= n - i {
                    let j = choose|j: int| 0 <= j < m && s@[i + j] != pat@[j];
                    assert(s@.skip(i as int).take(m as int)[j] == s@[i + j]);
                    assert(s@.skip(i as int).take(m as int) != pat@);
                }
                assert(s@.skip(i as int)[0] == s@[i as int]);
                assert(s@.skip(i as int).skip(1) =~= s@.skip(i + 1));
                if s@.skip(i as int).len() < pat@.len() {
                    assert(s@.skip(i as int) =~= seq![s@[i as int]] + s@.skip(i + 1));
                }
            }
            push_char(&mut out, s.get_char(i));
            i = i + 1;
        }
        proof {
            assert(out@ + spec_replace(s@.skip(i as int), pat@, rep@) =~= spec_replace(
                s@,
                pat@,
                rep@,
            ));
        }
    }
    proof {
        assert(s@.skip(n as int) =~= Seq::<char>::empty());
        assert(out@ =~= spec_replace(s@, pat@, rep@));
    }
    out
}

/// The decimal text of `n`, with a minus sign when it is negative.
pub open spec fn spec_int_dec(n: int) -> Seq<char> {
    if n < 0 {
        seq!['-'] + dec_str((-n) as nat)
    } else {
        dec_str(n as nat)
    }
}

/// Print `n` in decimal, sign included.
pub fn i32_to_dec(n: i32) -> (r: String)
    ensures
        r@ == spec_int_dec(n as int),
{
    if n < 0 {
        let mag = -(n as i64);
        let mut s = String::new();
        push_char(&mut s, '-');
        let d = u64_to_dec(mag as u64);
        s.append(d.as_str());
        proof {
            assert(s@ =~= spec_int_dec(n as int));
        }
        s
    } else {
        u64_to_dec(n as u64)
    }
}

/// The characters of `s` from position `from` on, as an owned string.
pub fn suffix_from(s: &str, from: usize) -> (r: String)
    requires
        from <= s@.len(),
    ensures
        r@ == s@.skip(from as int),
    {
    let n = s.unicode_len();
    let part = s.substring_char(from, n);
    proof {
        assert(part@ =~= s@.skip(from as int));
    }
    part.to_owned()
}

/// Whether two byte slices hold the same bytes.
pub fn bytes_eq(a: &[u8], b: &[u8]) -> (r: bool)
    ensures
        r == (a@ == b@),
{
    if a.len() != b.len() {
        return false;
    }
    let mut i: usize = 0;
    while i < a.len()
        invariant
            a@.len() == b@.len(),
            i <= a@.len(),
            forall|j: int| 0 <= j < i ==> a@[j] == b@[j],
        decreases a@.len() - i,
    {
        if a[i] != b[i] {
            return false;
        }
        i = i + 1;
    }
    proof {
        assert(a@ =~= b@);
    }
    true
}

/// The first `to` characters of `s`, as an owned string.
pub fn prefix_to(s: &str, to: usize) -> (r: String)
    requires
        to <= s@.len(),
    ensures
        r@ == s@.take(to as int),
{
    let part = s.substring_char(0, to);
    proof {
        assert(part@ =~= s@.take(to as int));
    }
    part.to_owned()
}

} // verus!
