use vstd::prelude::*;

verus! {

/// The number of values that a word of `width` bytes holds: 256 to the power `width`,
/// for words of one to four bytes.
pub open spec fn word_range(width: nat) -> int {
    if width == 1 {
        0x100
    } else if width == 2 {
        0x1_0000
    } else if width == 3 {
        0x100_0000
    } else {
        0x1_0000_0000
    }
}

/// The weight of byte `k` (counted from the least significant one) of a word.
pub open spec fn byte_weight(k: int) -> int {
    if k == 0 {
        1
    } else if k == 1 {
        0x100
    } else if k == 2 {
        0x1_0000
    } else if k == 3 {
        0x100_0000
    } else {
        0x1_0000_0000
    }
}

/// `x` as the unsigned word of `width` bytes that stores it (two's complement for negatives).
pub open spec fn stored_word(x: int, width: nat) -> int {
    if x < 0 {
        x + word_range(width)
    } else {
        x
    }
}

/// Byte `k` of the little-endian image of `x` in `width` bytes.
pub open spec fn le_byte(x: int, width: nat, k: int) -> u8 {
    ((stored_word(x, width) / byte_weight(k)) % 256) as u8
}

/// The little-endian image of `values`, each stored in `width` bytes, one after the other.
pub open spec fn le_bytes(values: Seq<int>, width: nat) -> Seq<u8> {
    Seq::new(
        values.len() * width,
        |j: int| le_byte(values[j / (width as int)], width, j % (width as int)),
    )
}

/// The unsigned value of the little-endian word of `width` bytes at `start`.
pub open spec fn le_word(bytes: Seq<u8>, start: int, width: nat) -> int {
    if width == 1 {
        bytes[start] as int
    } else if width == 2 {
        bytes[start] + 0x100 * bytes[start + 1]
    } else if width == 3 {
        bytes[start] + 0x100 * bytes[start + 1] + 0x1_0000 * bytes[start + 2]
    } else {
        bytes[start] + 0x100 * bytes[start + 1] + 0x1_0000 * bytes[start + 2] + 0x100_0000
            * bytes[start + 3]
    }
}

/// The two's complement reading of the unsigned word `u` of `width` bytes.
pub open spec fn signed_word(u: int, width: nat) -> int {
    if u >= word_range(width) / 2 {
        u - word_range(width)
    } else {
        u
    }
}

/// The values that `bytes` holds as consecutive little-endian words of `width` bytes,
/// read as two's complement when `signed`; bytes after the last whole word are ignored.
pub open spec fn le_values(bytes: Seq<u8>, width: nat, signed: bool) -> Seq<int> {
    Seq::new(
        bytes.len() / width,
        |i: int|
            {
                let u = le_word(bytes, i * width, width);
                if signed {
                    signed_word(u, width)
                } else {
                    u
                }
            },
    )
}

/// The unsigned value of the big-endian word of `width` bytes at `start`.
pub open spec fn be_word(bytes: Seq<u8>, start: int, width: nat) -> int {
    if width == 1 {
        bytes[start] as int
    } else if width == 2 {
        0x100 * bytes[start] + bytes[start + 1]
    } else if width == 3 {
        0x1_0000 * bytes[start] + 0x100 * bytes[start + 1] + bytes[start + 2]
    } else {
        0x100_0000 * bytes[start] + 0x1_0000 * bytes[start + 1] + 0x100 * bytes[start + 2]
            + bytes[start + 3]
    }
}

/// The unsigned value of the word of `width` bytes at `start`, big-endian when `big`
/// and little-endian otherwise.
pub open spec fn word_at(bytes: Seq<u8>, start: int, width: nat, big: bool) -> int {
    if big {
        be_word(bytes, start, width)
    } else {
        le_word(bytes, start, width)
    }
}

/// The values that `bytes` holds as consecutive big-endian words of `width` bytes,
/// read as two's complement when `signed`; bytes after the last whole word are ignored.
pub open spec fn be_values(bytes: Seq<u8>, width: nat, signed: bool) -> Seq<int> {
    Seq::new(
        bytes.len() / width,
        |i: int|
            {
                let u = be_word(bytes, i * width, width);
                if signed {
                    signed_word(u, width)
                } else {
                    u
                }
            },
    )
}

/// The values that `bytes` holds as consecutive words of `width` bytes in the byte order
/// that `big` names (big-endian when `big`, little-endian otherwise).
pub open spec fn word_values(bytes: Seq<u8>, width: nat, signed: bool, big: bool) -> Seq<int> {
    if big {
        be_values(bytes, width, signed)
    } else {
        le_values(bytes, width, signed)
    }
}

/// Whether `x` can be stored in a word of `width` bytes, signed or unsigned.
pub open spec fn fits_word(x: int, width: nat, signed: bool) -> bool {
    if signed {
        -word_range(width) / 2 <= x < word_range(width) / 2
    } else {
        0 <= x < word_range(width)
    }
}

/// The integer values of 8-bit samples.
pub open spec fn i8_values(s: Seq<i8>) -> Seq<int> {
    s.map_values(|x: i8| x as int)
}

/// The integer values of 16-bit samples.
pub open spec fn i16_values(s: Seq<i16>) -> Seq<int> {
    s.map_values(|x: i16| x as int)
}

/// The integer values of 32-bit samples.
pub open spec fn i32_values(s: Seq<i32>) -> Seq<int> {
    s.map_values(|x: i32| x as int)
}

/// The integer values of 32-bit words.
pub open spec fn u32_values(s: Seq<u32>) -> Seq<int> {
    s.map_values(|x: u32| x as int)
}

/// Appending a value to `values` appends its `width` bytes to their image.
proof fn lemma_le_bytes_push(values: Seq<int>, x: int, width: nat)
    requires
        1 <= width <= 4,
    ensures
        le_bytes(values.push(x), width) =~= le_bytes(values, width) + Seq::new(
            width,
            |k: int| le_byte(x, width, k),
        ),
{
    let n = values.len();
    let w = width as int;
    assert((n + 1) * w == n * w + w) by (nonlinear_arith);
    assert forall|j: int| 0 <= j < (n + 1) * w implies #[trigger] le_bytes(values.push(x), width)[j]
        == (le_bytes(values, width) + Seq::new(width, |k: int| le_byte(x, width, k)))[j] by {
        let q = j / w;
        let r = j % w;
        assert(j == q * w + r && 0 <= r < w) by (nonlinear_arith)
            requires
                w >= 1,
                q == j / w,
                r == j % w,
        ;
        if j < n * w {
            assert(q < n) by (nonlinear_arith)
                requires
                    j == q * w + r,
                    0 <= r < w,
                    j < n * w,
            ;
            assert(0 <= q) by (nonlinear_arith)
                requires
                    j == q * w + r,
                    0 <= r < w,
                    0 <= j,
            ;
        } else {
            assert(j == n * w + (j - n * w));
            vstd::arithmetic::div_mod::lemma_fundamental_div_mod_converse(j, w, n as int, j - n * w);
        }
    }
    assert((n + 1) * w == n * w + w) by (nonlinear_arith);
}

/// Appends the `width` little-endian bytes of the word `u`.
fn push_le_word(bytes: &mut Vec<u8>, u: u64, width: usize)
    requires
        1 <= width <= 4,
        u < word_range(width as nat),
    ensures
        final(bytes)@ == old(bytes)@ + Seq::new(
            width as nat,
            |k: int| ((u as int / byte_weight(k)) % 256) as u8,
        ),
{
    let ghost start = bytes@;
    let mut k: usize = 0;
    let mut rest: u64 = u;
    while k < width
        invariant
            1 <= width <= 4,
            k <= width,
            bytes@ == start + Seq::new(k as nat, |i: int| ((u as int / byte_weight(i)) % 256) as u8),
            rest as int == u as int / byte_weight(k as int),
        decreases width - k,
    {
        bytes.push((rest % 256) as u8);
        assert(rest as int / 256 == u as int / byte_weight(k + 1)) by {
            assert(byte_weight(k + 1) == byte_weight(k as int) * 256);
            vstd::arithmetic::div_mod::lemma_div_denominator(u as int, byte_weight(k as int), 256);
        }
        rest = rest / 256;
        k = k + 1;
        assert(bytes@ =~= start + Seq::new(
            k as nat,
            |i: int| ((u as int / byte_weight(i)) % 256) as u8,
        ));
    }
}

/// Appends the little-endian image of the value `x` in `width` bytes.
fn push_le_value(bytes: &mut Vec<u8>, x: i64, width: usize)
    requires
        1 <= width <= 4,
        fits_word(x as int, width as nat, true) || fits_word(x as int, width as nat, false),
    ensures
        final(bytes)@ == old(bytes)@ + Seq::new(width as nat, |k: int| le_byte(x as int, width as nat, k)),
{
    let range: i64 = if width == 1 {
        0x100
    } else if width == 2 {
        0x1_0000
    } else if width == 3 {
        0x100_0000
    } else {
        0x1_0000_0000
    };
    let u: u64 = if x < 0 {
        (x + range) as u64
    } else {
        x as u64
    };
    push_le_word(bytes, u, width);
    assert(Seq::new(width as nat, |k: int| ((u as int / byte_weight(k)) % 256) as u8) =~= Seq::new(
        width as nat,
        |k: int| le_byte(x as int, width as nat, k),
    ));
}

/// The bytes of 8-bit samples, one byte each.
pub fn i8_samples_into_bytes(samples: &[i8]) -> (bytes: Vec<u8>)
    ensures
        bytes@ == le_bytes(i8_values(samples@), 1),
{
    let mut bytes: Vec<u8> = Vec::new();
    let n = samples.len();
    for i in 0..n
        invariant
            n == samples@.len(),
            bytes@ == le_bytes(i8_values(samples@).take(i as int), 1),
    {
        let x = samples[i];
        proof {
            lemma_le_bytes_push(i8_values(samples@).take(i as int), x as int, 1);
            assert(i8_values(samples@).take(i + 1) =~= i8_values(samples@).take(i as int).push(
                x as int,
            ));
        }
        push_le_value(&mut bytes, x as i64, 1);
    }
    assert(i8_values(samples@).take(n as int) =~= i8_values(samples@));
    bytes
}

/// The little-endian bytes of 16-bit samples, two bytes each.
pub fn i16_samples_into_bytes(samples: &[i16]) -> (bytes: Vec<u8>)
    ensures
        bytes@ == le_bytes(i16_values(samples@), 2),
{
    let mut bytes: Vec<u8> = Vec::new();
    let n = samples.len();
    for i in 0..n
        invariant
            n == samples@.len(),
            bytes@ == le_bytes(i16_values(samples@).take(i as int), 2),
    {
        let x = samples[i];
        proof {
            lemma_le_bytes_push(i16_values(samples@).take(i as int), x as int, 2);
            assert(i16_values(samples@).take(i + 1) =~= i16_values(samples@).take(i as int).push(
                x as int,
            ));
        }
        push_le_value(&mut bytes, x as i64, 2);
    }
    assert(i16_values(samples@).take(n as int) =~= i16_values(samples@));
    bytes
}

/// The little-endian bytes of 32-bit samples, four bytes each.
pub fn i32_samples_into_bytes(samples: &[i32]) -> (bytes: Vec<u8>)
    ensures
        bytes@ == le_bytes(i32_values(samples@), 4),
{
    let mut bytes: Vec<u8> = Vec::new();
    let n = samples.len();
    for i in 0..n
        invariant
            n == samples@.len(),
            bytes@ == le_bytes(i32_values(samples@).take(i as int), 4),
    {
        let x = samples[i];
        proof {
            lemma_le_bytes_push(i32_values(samples@).take(i as int), x as int, 4);
            assert(i32_values(samples@).take(i + 1) =~= i32_values(samples@).take(i as int).push(
                x as int,
            ));
        }
        push_le_value(&mut bytes, x as i64, 4);
    }
    assert(i32_values(samples@).take(n as int) =~= i32_values(samples@));
    bytes
}

/// The little-endian bytes of 32-bit words, four bytes each.
pub fn u32_words_into_bytes(words: &[u32]) -> (bytes: Vec<u8>)
    ensures
        bytes@ == le_bytes(u32_values(words@), 4),
{
    let mut bytes: Vec<u8> = Vec::new();
    let n = words.len();
    for i in 0..n
        invariant
            n == words@.len(),
            bytes@ == le_bytes(u32_values(words@).take(i as int), 4),
    {
        let x = words[i];
        proof {
            lemma_le_bytes_push(u32_values(words@).take(i as int), x as int, 4);
            assert(u32_values(words@).take(i + 1) =~= u32_values(words@).take(i as int).push(
                x as int,
            ));
        }
        push_le_value(&mut bytes, x as i64, 4);
    }
    assert(u32_values(words@).take(n as int) =~= u32_values(words@));
    bytes
}

/// The unsigned word of `width` bytes at `start`, big-endian when `big`.
fn read_word(bytes: &[u8], start: usize, width: usize, big: bool) -> (u: u64)
    requires
        1 <= width <= 4,
        start + width <= bytes@.len(),
    ensures
        u as int == word_at(bytes@, start as int, width as nat, big),
        u < word_range(width as nat),
{
    let b0 = bytes[start] as u64;
    if width == 1 {
        return b0;
    }
    let b1 = bytes[start + 1] as u64;
    if width == 2 {
        return if big {
            0x100 * b0 + b1
        } else {
            b0 + 0x100 * b1
        };
    }
    let b2 = bytes[start + 2] as u64;
    if width == 3 {
        return if big {
            0x1_0000 * b0 + 0x100 * b1 + b2
        } else {
            b0 + 0x100 * b1 + 0x1_0000 * b2
        };
    }
    let b3 = bytes[start + 3] as u64;
    if big {
        0x100_0000 * b0 + 0x1_0000 * b1 + 0x100 * b2 + b3
    } else {
        b0 + 0x100 * b1 + 0x1_0000 * b2 + 0x100_0000 * b3
    }
}

/// The value of the word of `width` bytes at `start` (big-endian when `big`), read as
/// two's complement when `signed`.
fn read_value(bytes: &[u8], start: usize, width: usize, signed: bool, big: bool) -> (x: i64)
    requires
        1 <= width <= 4,
        start + width <= bytes@.len(),
    ensures
        x as int == (if signed {
            signed_word(word_at(bytes@, start as int, width as nat, big), width as nat)
        } else {
            word_at(bytes@, start as int, width as nat, big)
        }),
        fits_word(x as int, width as nat, signed),
{
    let u = read_word(bytes, start, width, big);
    let range: i64 = if width == 1 {
        0x100
    } else if width == 2 {
        0x1_0000
    } else if width == 3 {
        0x100_0000
    } else {
        0x1_0000_0000
    };
    if signed && u as i64 >= range / 2 {
        u as i64 - range
    } else {
        u as i64
    }
}

/// The word at position `i` of `bytes` read in words of `width` bytes lies within `bytes`.
proof fn lemma_word_in_bounds(len: int, width: int, i: int)
    requires
        1 <= width,
        0 <= i < len / width,
        0 <= len,
    ensures
        0 <= i * width,
        i * width + width <= len,
        (i + 1) * width == i * width + width,
{
    assert(i * width + width <= len) by (nonlinear_arith)
        requires
            1 <= width,
            0 <= i < len / width,
            0 <= len,
    {
        assert(len / width * width <= len);
        assert((i + 1) * width <= (len / width) * width);
    }
    assert(0 <= i * width) by (nonlinear_arith)
        requires
            1 <= width,
            0 <= i,
    ;
    assert((i + 1) * width == i * width + width) by (nonlinear_arith);
}

/// 16-bit samples read from consecutive pairs of bytes, big-endian when `big` and
/// little-endian otherwise; a trailing odd byte is ignored.
pub fn bytes_into_i16_samples(bytes: &[u8], big: bool) -> (samples: Vec<i16>)
    ensures
        i16_values(samples@) == word_values(bytes@, 2, true, big),
{
    let mut samples: Vec<i16> = Vec::new();
    let len = bytes.len();
    let n = len / 2;
    for i in 0..n
        invariant
            len == bytes@.len(),
            n == len / 2,
            i16_values(samples@) == word_values(bytes@, 2, true, big).take(i as int),
    {
        proof {
            lemma_word_in_bounds(len as int, 2, i as int);
        }
        let x = read_value(bytes, i * 2, 2, true, big);
        let ghost before = samples@;
        samples.push(x as i16);
        proof {
            assert(word_values(bytes@, 2, true, big)[i as int] == x as int);
            assert(i16_values(samples@) =~= i16_values(before).push(x as int));
            assert(word_values(bytes@, 2, true, big).take(i + 1) =~= word_values(bytes@, 2, true, big).take(
                i as int,
            ).push(x as int));
        }
    }
    assert(word_values(bytes@, 2, true, big).take(n as int) =~= word_values(bytes@, 2, true, big));
    samples
}

/// 24-bit samples read from consecutive triples of bytes (big-endian when `big`, else
/// little-endian) and sign-extended to 32 bits; trailing bytes short of a triple are ignored.
pub fn bytes_into_i24_samples(bytes: &[u8], big: bool) -> (samples: Vec<i32>)
    ensures
        i32_values(samples@) == word_values(bytes@, 3, true, big),
{
    let mut samples: Vec<i32> = Vec::new();
    let len = bytes.len();
    let n = len / 3;
    for i in 0..n
        invariant
            len == bytes@.len(),
            n == len / 3,
            i32_values(samples@) == word_values(bytes@, 3, true, big).take(i as int),
    {
        proof {
            lemma_word_in_bounds(len as int, 3, i as int);
        }
        let x = read_value(bytes, i * 3, 3, true, big);
        let ghost before = samples@;
        samples.push(x as i32);
        proof {
            assert(word_values(bytes@, 3, true, big)[i as int] == x as int);
            assert(i32_values(samples@) =~= i32_values(before).push(x as int));
            assert(word_values(bytes@, 3, true, big).take(i + 1) =~= word_values(bytes@, 3, true, big).take(
                i as int,
            ).push(x as int));
        }
    }
    assert(word_values(bytes@, 3, true, big).take(n as int) =~= word_values(bytes@, 3, true, big));
    samples
}

/// 32-bit samples read from consecutive quadruples of bytes (big-endian when `big`, else
/// little-endian); trailing bytes short of a quadruple are ignored.
pub fn bytes_into_i32_samples(bytes: &[u8], big: bool) -> (samples: Vec<i32>)
    ensures
        i32_values(samples@) == word_values(bytes@, 4, true, big),
{
    let mut samples: Vec<i32> = Vec::new();
    let len = bytes.len();
    let n = len / 4;
    for i in 0..n
        invariant
            len == bytes@.len(),
            n == len / 4,
            i32_values(samples@) == word_values(bytes@, 4, true, big).take(i as int),
    {
        proof {
            lemma_word_in_bounds(len as int, 4, i as int);
        }
        let x = read_value(bytes, i * 4, 4, true, big);
        let ghost before = samples@;
        samples.push(x as i32);
        proof {
            assert(word_values(bytes@, 4, true, big)[i as int] == x as int);
            assert(i32_values(samples@) =~= i32_values(before).push(x as int));
            assert(word_values(bytes@, 4, true, big).take(i + 1) =~= word_values(bytes@, 4, true, big).take(
                i as int,
            ).push(x as int));
        }
    }
    assert(word_values(bytes@, 4, true, big).take(n as int) =~= word_values(bytes@, 4, true, big));
    samples
}

/// Unsigned 32-bit words read from consecutive quadruples of bytes (big-endian when `big`,
/// else little-endian); trailing bytes short of a quadruple are ignored.
pub fn bytes_into_u32_words(bytes: &[u8], big: bool) -> (words: Vec<u32>)
    ensures
        u32_values(words@) == word_values(bytes@, 4, false, big),
{
    let mut words: Vec<u32> = Vec::new();
    let len = bytes.len();
    let n = len / 4;
    for i in 0..n
        invariant
            len == bytes@.len(),
            n == len / 4,
            u32_values(words@) == word_values(bytes@, 4, false, big).take(i as int),
    {
        proof {
            lemma_word_in_bounds(len as int, 4, i as int);
        }
        let x = read_value(bytes, i * 4, 4, false, big);
        let ghost before = words@;
        words.push(x as u32);
        proof {
            assert(word_values(bytes@, 4, false, big)[i as int] == x as int);
            assert(u32_values(words@) =~= u32_values(before).push(x as int));
            assert(word_values(bytes@, 4, false, big).take(i + 1) =~= word_values(bytes@, 4, false, big).take(
                i as int,
            ).push(x as int));
        }
    }
    assert(word_values(bytes@, 4, false, big).take(n as int) =~= word_values(bytes@, 4, false, big));
    words
}

/// A word below 2^32 is the weighted sum of its four bytes; the bytes above a smaller
/// word's range are zero.
proof fn lemma_word_digits(u: int)
    requires
        0 <= u < 0x1_0000_0000,
    ensures
        u == u % 256 + 0x100 * ((u / 0x100) % 256) + 0x1_0000 * ((u / 0x1_0000) % 256)
            + 0x100_0000 * ((u / 0x100_0000) % 256),
        u < 0x100 ==> u / 0x100 == 0,
        u < 0x1_0000 ==> u / 0x1_0000 == 0,
        u < 0x100_0000 ==> u / 0x100_0000 == 0,
{
    let q1 = u / 0x100;
    let q2 = u / 0x1_0000;
    let q3 = u / 0x100_0000;
    vstd::arithmetic::div_mod::lemma_div_denominator(u, 0x100, 0x100);
    vstd::arithmetic::div_mod::lemma_div_denominator(u, 0x1_0000, 0x100);
    assert(q1 / 0x100 == q2);
    assert(q2 / 0x100 == q3);
    assert(u == 0x100 * q1 + u % 256);
    assert(q1 == 0x100 * q2 + q1 % 256);
    assert(q2 == 0x100 * q3 + q2 % 256);
    assert(q3 < 256);
    assert(q3 % 256 == q3);
}

/// The bytes of a word, weighted back together, give the word.
proof fn lemma_word_from_bytes(u: int, width: nat)
    requires
        1 <= width <= 4,
        0 <= u < word_range(width),
    ensures
        le_word(
            Seq::new(width, |k: int| ((u / byte_weight(k)) % 256) as u8),
            0,
            width,
        ) == u,
{
    let b = Seq::new(width, |k: int| ((u / byte_weight(k)) % 256) as u8);
    lemma_word_digits(u);
    let d0 = u % 256;
    let d1 = (u / 0x100) % 256;
    let d2 = (u / 0x1_0000) % 256;
    let d3 = (u / 0x100_0000) % 256;
    assert(b[0] as int == d0);
    if width >= 2 {
        assert(b[1] as int == d1);
    }
    if width >= 3 {
        assert(b[2] as int == d2);
    }
    if width == 4 {
        assert(b[3] as int == d3);
    }
}

/// The byte of weight `weight` in `low + weight * b + weight * 256 * high` is `b`.
proof fn lemma_byte_of_word(x: int, low: int, b: int, high: int, weight: int)
    requires
        weight > 0,
        0 <= low < weight,
        0 <= b < 256,
        0 <= high,
        x == low + weight * b + weight * 256 * high,
    ensures
        (x / weight) % 256 == b,
{
    assert(x == (b + 256 * high) * weight + low) by (nonlinear_arith)
        requires
            x == low + weight * b + weight * 256 * high,
    ;
    vstd::arithmetic::div_mod::lemma_fundamental_div_mod_converse(x, weight, b + 256 * high, low);
    vstd::arithmetic::div_mod::lemma_fundamental_div_mod_converse(b + 256 * high, 256, high, b);
}

/// Byte `k` of a word read from bytes is the byte at that place.
proof fn lemma_bytes_from_word(bytes: Seq<u8>, start: int, width: nat, k: int)
    requires
        1 <= width <= 4,
        0 <= start,
        start + width <= bytes.len(),
        0 <= k < width,
    ensures
        0 <= le_word(bytes, start, width) < word_range(width),
        ((le_word(bytes, start, width) / byte_weight(k)) % 256) as u8 == bytes[start + k],
{
    let x = le_word(bytes, start, width);
    let b0 = bytes[start] as int;
    if width == 1 {
        lemma_byte_of_word(x, 0, b0, 0, 1);
    } else if width == 2 {
        let b1 = bytes[start + 1] as int;
        if k == 0 {
            lemma_byte_of_word(x, 0, b0, b1, 1);
        } else {
            lemma_byte_of_word(x, b0, b1, 0, 0x100);
        }
    } else if width == 3 {
        let b1 = bytes[start + 1] as int;
        let b2 = bytes[start + 2] as int;
        if k == 0 {
            lemma_byte_of_word(x, 0, b0, b1 + 256 * b2, 1);
        } else if k == 1 {
            lemma_byte_of_word(x, b0, b1, b2, 0x100);
        } else {
            lemma_byte_of_word(x, b0 + 0x100 * b1, b2, 0, 0x1_0000);
        }
    } else {
        let b1 = bytes[start + 1] as int;
        let b2 = bytes[start + 2] as int;
        let b3 = bytes[start + 3] as int;
        if k == 0 {
            lemma_byte_of_word(x, 0, b0, b1 + 256 * b2 + 0x1_0000 * b3, 1);
        } else if k == 1 {
            lemma_byte_of_word(x, b0, b1, b2 + 256 * b3, 0x100);
        } else if k == 2 {
            lemma_byte_of_word(x, b0 + 0x100 * b1, b2, b3, 0x1_0000);
        } else {
            lemma_byte_of_word(x, b0 + 0x100 * b1 + 0x1_0000 * b2, b3, 0, 0x100_0000);
        }
    }
}

/// Stored as a word and read back, a value that fits is unchanged.
proof fn lemma_stored_word_read_back(x: int, width: nat, signed: bool)
    requires
        1 <= width <= 4,
        fits_word(x, width, signed),
    ensures
        0 <= stored_word(x, width) < word_range(width),
        (if signed {
            signed_word(stored_word(x, width), width)
        } else {
            stored_word(x, width)
        }) == x,
{
}

/// Read back as words of `width` bytes, the image of values that fit gives the values.
pub proof fn lemma_le_values_of_le_bytes(values: Seq<int>, width: nat, signed: bool)
    requires
        1 <= width <= 4,
        forall|i: int| 0 <= i < values.len() ==> fits_word(#[trigger] values[i], width, signed),
    ensures
        le_values(le_bytes(values, width), width, signed) == values,
{
    let w = width as int;
    let n = values.len() as int;
    let bytes = le_bytes(values, width);
    assert(bytes.len() / width == n) by {
        vstd::arithmetic::div_mod::lemma_fundamental_div_mod_converse(n * w, w, n, 0);
    }
    assert forall|i: int| 0 <= i < n implies #[trigger] le_values(bytes, width, signed)[i]
        == values[i] by {
        let x = values[i];
        lemma_stored_word_read_back(x, width, signed);
        let u = stored_word(x, width);
        let image = Seq::new(width, |k: int| ((u / byte_weight(k)) % 256) as u8);
        lemma_word_from_bounds_start(n, w, i);
        assert forall|k: int| 0 <= k < w implies bytes[i * w + k] == #[trigger] image[k] by {
            vstd::arithmetic::div_mod::lemma_fundamental_div_mod_converse(i * w + k, w, i, k);
        }
        lemma_word_from_bytes(u, width);
        assert(le_word(bytes, i * w, width) == le_word(image, 0, width));
    }
    assert(le_values(bytes, width, signed) =~= values);
}

/// Word `i` of `n` words of `w` bytes starts within the image.
proof fn lemma_word_from_bounds_start(n: int, w: int, i: int)
    requires
        1 <= w,
        0 <= i < n,
    ensures
        0 <= i * w,
        i * w + w <= n * w,
{
    assert(0 <= i * w) by (nonlinear_arith)
        requires
            1 <= w,
            0 <= i,
    ;
    assert(i * w + w <= n * w) by (nonlinear_arith)
        requires
            1 <= w,
            0 <= i < n,
    ;
}

/// Written back as words of `width` bytes, the values read from `bytes` give back
/// `bytes` up to its last whole word.
pub proof fn lemma_le_bytes_of_le_values(bytes: Seq<u8>, width: nat, signed: bool)
    requires
        1 <= width <= 4,
    ensures
        le_bytes(le_values(bytes, width, signed), width) == bytes.take(
            ((bytes.len() / width) * width) as int,
        ),
{
    let w = width as int;
    let len = bytes.len() as int;
    let n = len / w;
    let values = le_values(bytes, width, signed);
    assert(n * w <= len) by (nonlinear_arith)
        requires
            1 <= w,
            0 <= len,
            n == len / w,
    ;
    assert(0 <= n * w) by (nonlinear_arith)
        requires
            1 <= w,
            0 <= len,
            n == len / w,
    ;
    assert forall|j: int| 0 <= j < n * w implies #[trigger] le_bytes(values, width)[j]
        == bytes[j] by {
        let i = j / w;
        let k = j % w;
        assert(j == i * w + k && 0 <= k < w) by (nonlinear_arith)
            requires
                w >= 1,
                i == j / w,
                k == j % w,
        ;
        assert(0 <= i < n) by (nonlinear_arith)
            requires
                j == i * w + k,
                0 <= k < w,
                0 <= j < n * w,
                w >= 1,
        ;
        lemma_word_from_bounds_start(n, w, i);
        lemma_bytes_from_word(bytes, i * w, width, k);
        let u = le_word(bytes, i * w, width);
        assert(stored_word(values[i], width) == u);
    }
    assert(le_bytes(values, width) =~= bytes.take(n * w));
}

} // verus!
