//! Byte-string helpers shared by the address, bind-spec and key parsers:
//! locating a separator, splitting on it, and reading decimal or
//! hexadecimal digit runs.

use vstd::prelude::*;

verus! {

/// The byte `'0'`.
pub const D0: u8 = 48;

/// The byte `'9'`.
pub const D9: u8 = 57;

/// The byte `'a'`.
pub const LA: u8 = 97;

/// The byte `'f'`.
pub const LF: u8 = 102;

/// The byte `'A'`.
pub const UA: u8 = 65;

/// The byte `'F'`.
pub const UF: u8 = 70;

/// The views of a sequence of byte vectors.
pub open spec fn views(parts: Seq<Vec<u8>>) -> Seq<Seq<u8>> {
    parts.map_values(|p: Vec<u8>| p@)
}

pub open spec fn is_digit(b: u8) -> bool {
    D0 <= b && b <= D9
}

pub open spec fn all_digits(s: Seq<u8>) -> bool {
    forall|i: int| 0 <= i < s.len() ==> is_digit(s[i])
}

/// The number a run of decimal digits denotes.
pub open spec fn dec_value(s: Seq<u8>) -> nat
    decreases s.len(),
{
    if s.len() == 0 {
        0
    } else {
        dec_value(s.drop_last()) * 10 + (s.last() - D0) as nat
    }
}

pub open spec fn is_hex_digit(b: u8) -> bool {
    is_digit(b) || (LA <= b && b <= LF) || (UA <= b && b <= UF)
}

pub open spec fn hex_digit_value(b: u8) -> nat {
    if is_digit(b) {
        (b - D0) as nat
    } else if LA <= b && b <= LF {
        (b - LA + 10) as nat
    } else {
        (b - UA + 10) as nat
    }
}

pub open spec fn all_hex_digits(s: Seq<u8>) -> bool {
    forall|i: int| 0 <= i < s.len() ==> is_hex_digit(s[i])
}

/// The number a run of hexadecimal digits denotes.
pub open spec fn hex_value(s: Seq<u8>) -> nat
    decreases s.len(),
{
    if s.len() == 0 {
        0
    } else {
        hex_value(s.drop_last()) * 16 + hex_digit_value(s.last())
    }
}

pub open spec fn pow10(n: nat) -> nat
    decreases n,
{
    if n == 0 {
        1
    } else {
        10 * pow10((n - 1) as nat)
    }
}

pub open spec fn pow16(n: nat) -> nat
    decreases n,
{
    if n == 0 {
        1
    } else {
        16 * pow16((n - 1) as nat)
    }
}

pub proof fn lemma_pow10_mono(a: nat, b: nat)
    requires
        a <= b,
    ensures
        pow10(a) <= pow10(b),
    decreases b,
{
    if a < b {
        lemma_pow10_mono(a, (b - 1) as nat);
    }
}

pub proof fn lemma_pow16_mono(a: nat, b: nat)
    requires
        a <= b,
    ensures
        pow16(a) <= pow16(b),
    decreases b,
{
    if a < b {
        lemma_pow16_mono(a, (b - 1) as nat);
    }
}

/// The index of the first occurrence of `sep` in `s`, or `s.len()` when
/// `sep` does not occur.
pub open spec fn find_byte(s: Seq<u8>, sep: u8) -> nat
    decreases s.len(),
{
    if s.len() == 0 {
        0
    } else if s[0] == sep {
        0
    } else {
        1 + find_byte(s.drop_first(), sep)
    }
}

pub proof fn lemma_find_byte_props(s: Seq<u8>, sep: u8)
    ensures
        find_byte(s, sep) <= s.len(),
        find_byte(s, sep) < s.len() ==> s[find_byte(s, sep) as int] == sep,
        forall|j: int| 0 <= j < find_byte(s, sep) && j < s.len() ==> s[j] != sep,
    decreases s.len(),
{
    if s.len() > 0 && s[0] != sep {
        lemma_find_byte_props(s.drop_first(), sep);
        let t = s.drop_first();
        assert forall|j: int| 0 <= j < find_byte(s, sep) && j < s.len() implies s[j] != sep by {
            if j > 0 {
                assert(t[j - 1] == s[j]);
            }
        }
    }
}

pub proof fn lemma_find_byte_prefix(a: Seq<u8>, b: Seq<u8>, sep: u8)
    requires
        forall|i: int| 0 <= i < a.len() ==> a[i] != sep,
        b.len() > 0,
        b[0] == sep,
    ensures
        find_byte(a + b, sep) == a.len(),
    decreases a.len(),
{
    let s = a + b;
    if a.len() == 0 {
        assert(s =~= b);
    } else {
        assert(s[0] == a[0]);
        assert(s.drop_first() =~= a.drop_first() + b);
        lemma_find_byte_prefix(a.drop_first(), b, sep);
    }
}

pub proof fn lemma_find_byte_absent(s: Seq<u8>, sep: u8)
    requires
        forall|i: int| 0 <= i < s.len() ==> s[i] != sep,
    ensures
        find_byte(s, sep) == s.len(),
    decreases s.len(),
{
    if s.len() > 0 {
        assert(forall|i: int| 0 <= i < s.drop_first().len() ==> s.drop_first()[i] != sep);
        lemma_find_byte_absent(s.drop_first(), sep);
    }
}

/// The segments of `s` between occurrences of `sep`: always one more
/// segment than there are separators, so splitting an empty sequence
/// yields one empty segment.
pub open spec fn split_on(s: Seq<u8>, sep: u8) -> Seq<Seq<u8>>
    decreases s.len(),
{
    let i = find_byte(s, sep);
    if i < s.len() {
        seq![s.take(i as int)] + split_on(s.skip(i as int + 1), sep)
    } else {
        seq![s]
    }
}

pub proof fn lemma_split_on_whole(s: Seq<u8>, sep: u8)
    requires
        forall|i: int| 0 <= i < s.len() ==> s[i] != sep,
    ensures
        split_on(s, sep) == seq![s],
{
    lemma_find_byte_absent(s, sep);
}

pub proof fn lemma_split_on_step(a: Seq<u8>, rest: Seq<u8>, sep: u8)
    requires
        forall|i: int| 0 <= i < a.len() ==> a[i] != sep,
    ensures
        split_on(a + seq![sep] + rest, sep) == seq![a] + split_on(rest, sep),
{
    let s = a + seq![sep] + rest;
    assert(s =~= a + (seq![sep] + rest));
    lemma_find_byte_prefix(a, seq![sep] + rest, sep);
    assert(find_byte(s, sep) == a.len());
    assert(s.take(a.len() as int) =~= a);
    assert(s.skip(a.len() as int + 1) =~= rest);
}

/// The index of the first occurrence of `sep` in `s`, or the length of
/// `s` when `sep` does not occur.
pub fn find_byte_index(s: &[u8], sep: u8) -> (r: usize)
    ensures
        r == find_byte(s@, sep),
{
    proof {
        lemma_find_byte_props(s@, sep);
    }
    let mut i: usize = 0;
    while i < s.len()
        invariant
            i <= s@.len(),
            forall|j: int| 0 <= j < i ==> s@[j] != sep,
            find_byte(s@, sep) <= s@.len(),
            find_byte(s@, sep) < s@.len() ==> s@[find_byte(s@, sep) as int] == sep,
            forall|j: int| 0 <= j < find_byte(s@, sep) && j < s@.len() ==> s@[j] != sep,
        decreases s@.len() - i,
    {
        if s[i] == sep {
            return i;
        }
        i += 1;
    }
    proof {
        if find_byte(s@, sep) < s@.len() {
            assert(s@[find_byte(s@, sep) as int] != sep);
        }
    }
    i
}

/// The segments of `s` between occurrences of `sep`.
pub fn split_bytes(s: &[u8], sep: u8) -> (r: Vec<Vec<u8>>)
    ensures
        views(r@) == split_on(s@, sep),
        r@.len() == split_on(s@, sep).len(),
        forall|k: int| 0 <= k < r@.len() ==> r@[k]@ == split_on(s@, sep)[k],
{
    let mut parts: Vec<Vec<u8>> = Vec::new();
    let mut cur: Vec<u8> = Vec::new();
    let mut i: usize = 0;
    proof {
        assert(cur@ + s@.skip(0) =~= s@);
        assert(views(parts@) =~= Seq::<Seq<u8>>::empty());
        assert(views(parts@) + split_on(s@, sep) =~= split_on(s@, sep));
    }
    while i < s.len()
        invariant
            i <= s@.len(),
            forall|k: int| 0 <= k < cur@.len() ==> cur@[k] != sep,
            split_on(s@, sep) == views(parts@) + split_on(cur@ + s@.skip(i as int), sep),
        decreases s@.len() - i,
    {
        let b = s[i];
        if b == sep {
            proof {
                assert(cur@ + s@.skip(i as int) =~= cur@ + seq![sep] + s@.skip(i as int + 1));
                lemma_split_on_step(cur@, s@.skip(i as int + 1), sep);
                assert(views(parts@.push(cur)) =~= views(parts@).push(cur@));
                assert(views(parts@) + (seq![cur@] + split_on(s@.skip(i as int + 1), sep))
                    =~= views(parts@).push(cur@) + split_on(s@.skip(i as int + 1), sep));
            }
            parts.push(cur);
            cur = Vec::new();
            proof {
                assert(cur@ + s@.skip(i as int + 1) =~= s@.skip(i as int + 1));
            }
        } else {
            proof {
                assert(cur@ + s@.skip(i as int) =~= cur@.push(b) + s@.skip(i as int + 1));
            }
            cur.push(b);
        }
        i += 1;
    }
    proof {
        assert(cur@ + s@.skip(i as int) =~= cur@);
        lemma_split_on_whole(cur@, sep);
        assert(views(parts@.push(cur)) =~= views(parts@).push(cur@));
        assert(views(parts@) + seq![cur@] =~= views(parts@).push(cur@));
    }
    parts.push(cur);
    proof {
        assert forall|k: int| 0 <= k < parts@.len() implies parts@[k]@ == split_on(s@, sep)[k] by {
            assert(views(parts@)[k] == parts@[k]@);
        }
    }
    parts
}

/// Appends every byte of `src` to `dst`.
pub fn push_all(dst: &mut Vec<u8>, src: &[u8])
    ensures
        final(dst)@ == old(dst)@ + src@,
{
    let mut i: usize = 0;
    proof {
        assert(dst@ =~= dst@ + src@.take(0));
    }
    while i < src.len()
        invariant
            i <= src@.len(),
            dst@ == old(dst)@ + src@.take(i as int),
        decreases src@.len() - i,
    {
        proof {
            assert((old(dst)@ + src@.take(i as int)).push(src@[i as int]) =~= old(dst)@
                + src@.take(i as int + 1));
        }
        dst.push(src[i]);
        i += 1;
    }
    proof {
        assert(src@.take(src@.len() as int) =~= src@);
    }
}

/// Reads a run of one to five decimal digits as a number.
pub fn scan_decimal(s: &[u8]) -> (r: Option<u32>)
    ensures
        match r {
            Some(v) => 1 <= s@.len() <= 5 && all_digits(s@) && v as nat == dec_value(s@),
            None => !(1 <= s@.len() <= 5 && all_digits(s@)),
        },
{
    if s.len() == 0 || s.len() > 5 {
        return None;
    }
    proof {
        assert(pow10(0) == 1);
        assert(pow10(1) == 10);
        assert(pow10(2) == 100);
        assert(pow10(3) == 1000);
        assert(pow10(4) == 10000);
    }
    let mut acc: u32 = 0;
    let mut i: usize = 0;
    while i < s.len()
        invariant
            i <= s@.len(),
            s@.len() <= 5,
            all_digits(s@.take(i as int)),
            acc as nat == dec_value(s@.take(i as int)),
            (acc as nat) < pow10(i as nat),
            pow10(4) == 10000,
        decreases s@.len() - i,
    {
        let b = s[i];
        if b < D0 || b > D9 {
            return None;
        }
        proof {
            lemma_pow10_mono(i as nat, 4);
            assert(s@.take(i as int + 1).drop_last() =~= s@.take(i as int));
            assert(s@.take(i as int + 1).last() == s@[i as int]);
        }
        acc = acc * 10 + (b - D0) as u32;
        i += 1;
    }
    proof {
        assert(s@.take(i as int) =~= s@);
    }
    Some(acc)
}

/// Reads a run of one to four hexadecimal digits as a number.
pub fn scan_hex(s: &[u8]) -> (r: Option<u16>)
    ensures
        match r {
            Some(v) => 1 <= s@.len() <= 4 && all_hex_digits(s@) && v as nat == hex_value(s@),
            None => !(1 <= s@.len() <= 4 && all_hex_digits(s@)),
        },
{
    if s.len() == 0 || s.len() > 4 {
        return None;
    }
    proof {
        assert(pow16(0) == 1);
        assert(pow16(1) == 16);
        assert(pow16(2) == 256);
        assert(pow16(3) == 4096);
        assert(pow16(4) == 65536);
    }
    let mut acc: u32 = 0;
    let mut i: usize = 0;
    while i < s.len()
        invariant
            i <= s@.len(),
            s@.len() <= 4,
            all_hex_digits(s@.take(i as int)),
            acc as nat == hex_value(s@.take(i as int)),
            (acc as nat) < pow16(i as nat),
            pow16(3) == 4096,
        decreases s@.len() - i,
    {
        let b = s[i];
        let d: u32 = if b >= D0 && b <= D9 {
            (b - D0) as u32
        } else if b >= LA && b <= LF {
            (b - LA) as u32 + 10
        } else if b >= UA && b <= UF {
            (b - UA) as u32 + 10
        } else {
            return None;
        };
        proof {
            lemma_pow16_mono(i as nat, 3);
            assert(s@.take(i as int + 1).drop_last() =~= s@.take(i as int));
            assert(s@.take(i as int + 1).last() == s@[i as int]);
        }
        acc = acc * 16 + d;
        i += 1;
    }
    proof {
        assert(s@.take(i as int) =~= s@);
        lemma_pow16_mono(i as nat, 4);
    }
    Some(acc as u16)
}

} // verus!
