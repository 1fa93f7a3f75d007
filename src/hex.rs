use vstd::prelude::*;

verus! {

/// The lower-case hexadecimal digit of a nibble.
pub open spec fn hex_char(n: u8) -> char {
    if n == 0 { '0' }
    else if n == 1 { '1' }
    else if n == 2 { '2' }
    else if n == 3 { '3' }
    else if n == 4 { '4' }
    else if n == 5 { '5' }
    else if n == 6 { '6' }
    else if n == 7 { '7' }
    else if n == 8 { '8' }
    else if n == 9 { '9' }
    else if n == 10 { 'a' }
    else if n == 11 { 'b' }
    else if n == 12 { 'c' }
    else if n == 13 { 'd' }
    else if n == 14 { 'e' }
    else { 'f' }
}

/// The value of an ASCII lower-case hexadecimal digit, if the byte is one.
pub open spec fn hex_value(c: u8) -> Option<u8> {
    if 48 <= c <= 57 {
        Some((c - 48) as u8)
    } else if 97 <= c <= 102 {
        Some((c - 87) as u8)
    } else {
        None
    }
}

/// Two lower-case hexadecimal digits per byte, most significant nibble first.
pub open spec fn hex_of(b: Seq<u8>) -> Seq<char>
    decreases b.len(),
{
    if b.len() == 0 {
        Seq::empty()
    } else {
        hex_of(b.drop_last()) + seq![hex_char(b.last() / 16), hex_char(b.last() % 16)]
    }
}

/// Reading back a digit gives the nibble it was written for.
pub proof fn lemma_hex_char_value(n: u8)
    requires
        n < 16,
    ensures
        hex_value(hex_char(n) as u8) == Some(n),
        '\0' <= hex_char(n) <= '\u{7f}',
{
}

/// The digits of `hex_of`, position by position.
pub proof fn lemma_hex_of_index(b: Seq<u8>)
    ensures
        hex_of(b).len() == 2 * b.len(),
        forall|k: int|
            0 <= k < b.len() ==> #[trigger] hex_of(b)[2 * k] == hex_char(b[k] / 16) && hex_of(
                b,
            )[2 * k + 1] == hex_char(b[k] % 16),
    decreases b.len(),
{
    if b.len() > 0 {
        lemma_hex_of_index(b.drop_last());
    }
}

/// Every digit written by `hex_of` is ASCII.
pub proof fn lemma_hex_of_ascii(b: Seq<u8>)
    ensures
        forall|i: int| 0 <= i < hex_of(b).len() ==> '\0' <= #[trigger] hex_of(b)[i] <= '\u{7f}',
    decreases b.len(),
{
    if b.len() > 0 {
        lemma_hex_of_ascii(b.drop_last());
        lemma_hex_char_value(b.last() / 16);
        lemma_hex_char_value(b.last() % 16);
        lemma_hex_of_index(b);
        lemma_hex_of_index(b.drop_last());
    }
}

/// Whether the bytes are an even number of lower-case hexadecimal digits.
pub open spec fn is_hex_text(b: Seq<u8>) -> bool {
    &&& b.len() % 2 == 0
    &&& forall|i: int| 0 <= i < b.len() ==> #[trigger] hex_value(b[i]) is Some
}

/// The byte written by the digits at `2 * k` and `2 * k + 1`.
pub open spec fn hex_byte_at(b: Seq<u8>, k: int) -> u8 {
    (hex_value(b[2 * k])->0 * 16 + hex_value(b[2 * k + 1])->0) as u8
}

/// The bytes that hexadecimal text stands for, if it is such text.
pub open spec fn unhex(b: Seq<u8>) -> Option<Seq<u8>> {
    if is_hex_text(b) {
        Some(Seq::new((b.len() / 2) as nat, |k: int| hex_byte_at(b, k)))
    } else {
        None
    }
}

/// Each character taken as its byte.
pub open spec fn ascii_bytes(s: Seq<char>) -> Seq<u8> {
    Seq::new(s.len(), |i: int| s[i] as u8)
}

/// Reading back the digits of `hex_of` gives the bytes they were written for.
pub proof fn lemma_unhex_hex_of(b: Seq<u8>)
    ensures
        unhex(ascii_bytes(hex_of(b))) == Some(b),
{
    lemma_hex_of_index(b);
    let t = ascii_bytes(hex_of(b));
    assert forall|i: int| 0 <= i < t.len() implies #[trigger] hex_value(t[i]) is Some by {
        let k = i / 2;
        lemma_hex_char_value(b[k] / 16);
        lemma_hex_char_value(b[k] % 16);
        assert(hex_of(b)[2 * k] == hex_char(b[k] / 16));
        assert(t[i] == hex_of(b)[i] as u8);
        if i % 2 == 0 {
            assert(i == 2 * k);
        } else {
            assert(i == 2 * k + 1);
        }
    }
    assert forall|k: int| 0 <= k < b.len() implies #[trigger] hex_byte_at(t, k) == b[k] by {
        assert(hex_of(b)[2 * k] == hex_char(b[k] / 16));
        lemma_hex_char_value(b[k] / 16);
        lemma_hex_char_value(b[k] % 16);
    }
    assert(unhex(t)->0 =~= b);
}

fn nibble(c: u8) -> (r: Option<u8>)
    ensures
        r == hex_value(c),
{
    if 48 <= c && c <= 57 {
        Some(c - 48)
    } else if 97 <= c && c <= 102 {
        Some(c - 87)
    } else {
        None
    }
}

/// The bytes that `b[start..end]` stands for as hexadecimal text, if it is such text.
pub fn decode_hex(b: &[u8], start: usize, end: usize) -> (r: Option<Vec<u8>>)
    requires
        start <= end <= b@.len(),
    ensures
        match r {
            Some(v) => unhex(b@.subrange(start as int, end as int)) == Some(v@),
            None => unhex(b@.subrange(start as int, end as int)) is None,
        },
{
    let ghost t = b@.subrange(start as int, end as int);
    if (end - start) % 2 != 0 {
        return None;
    }
    let mut v: Vec<u8> = Vec::new();
    let mut i: usize = start;
    while i < end
        invariant
            start <= i <= end <= b@.len(),
            t == b@.subrange(start as int, end as int),
            (end - start) % 2 == 0,
            (i - start) % 2 == 0,
            forall|j: int| 0 <= j < i - start ==> #[trigger] hex_value(t[j]) is Some,
            v@.len() == (i - start) / 2,
            forall|k: int| 0 <= k < v@.len() ==> #[trigger] v@[k] == hex_byte_at(t, k),
        decreases end - i,
    {
        let hi = nibble(b[i]);
        let lo = nibble(b[i + 1]);
        match (hi, lo) {
            (Some(hi), Some(lo)) => {
                v.push(hi * 16 + lo);
                proof {
                    let k = (i - start) / 2;
                    assert(2 * k == i - start);
                    assert(t[2 * k] == b@[i as int]);
                    assert(t[2 * k + 1] == b@[i + 1]);
                }
                i = i + 2;
            },
            _ => {
                proof {
                    if hi is None {
                        assert(t[i - start] == b@[i as int]);
                        assert(hex_value(t[i - start]) is None);
                    } else {
                        assert(t[i - start + 1] == b@[i + 1]);
                        assert(hex_value(t[i - start + 1]) is None);
                    }
                }
                return None;
            },
        }
    }
    assert(v@ =~= unhex(t)->0);
    Some(v)
}

fn hex_digit(n: u8) -> (r: &'static str)
    requires
        n < 16,
    ensures
        r@ == seq![hex_char(n)],
{
    if n == 0 { proof { reveal_strlit("0"); } "0" }
    else if n == 1 { proof { reveal_strlit("1"); } "1" }
    else if n == 2 { proof { reveal_strlit("2"); } "2" }
    else if n == 3 { proof { reveal_strlit("3"); } "3" }
    else if n == 4 { proof { reveal_strlit("4"); } "4" }
    else if n == 5 { proof { reveal_strlit("5"); } "5" }
    else if n == 6 { proof { reveal_strlit("6"); } "6" }
    else if n == 7 { proof { reveal_strlit("7"); } "7" }
    else if n == 8 { proof { reveal_strlit("8"); } "8" }
    else if n == 9 { proof { reveal_strlit("9"); } "9" }
    else if n == 10 { proof { reveal_strlit("a"); } "a" }
    else if n == 11 { proof { reveal_strlit("b"); } "b" }
    else if n == 12 { proof { reveal_strlit("c"); } "c" }
    else if n == 13 { proof { reveal_strlit("d"); } "d" }
    else if n == 14 { proof { reveal_strlit("e"); } "e" }
    else { proof { reveal_strlit("f"); } "f" }
}

/// Appends the hexadecimal digits of `b[start..end]` to `s`.
pub fn append_hex(s: &mut String, b: &[u8], start: usize, end: usize)
    requires
        start <= end <= b@.len(),
    ensures
        final(s)@ == old(s)@ + hex_of(b@.subrange(start as int, end as int)),
{
    let mut i: usize = start;
    while i < end
        invariant
            start <= i <= end <= b@.len(),
            s@ == old(s)@ + hex_of(b@.subrange(start as int, i as int)),
        decreases end - i,
    {
        let c = b[i];
        s.append(hex_digit(c / 16));
        s.append(hex_digit(c % 16));
        proof {
            let next = b@.subrange(start as int, i + 1);
            assert(next.drop_last() =~= b@.subrange(start as int, i as int));
        }
        i = i + 1;
    }
}

/// The bytes written in lower-case hexadecimal, two digits per byte.
pub fn to_hex(b: &[u8]) -> (r: String)
    ensures
        r@ == hex_of(b@),
{
    let mut s = String::new();
    append_hex(&mut s, b, 0, b.len());
    assert(b@.subrange(0, b@.len() as int) =~= b@);
    s
}

} // verus!
