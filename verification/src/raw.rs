use vstd::prelude::*;

verus! {

/// The 32-bit quantity stored at offset `i` of `b`, big-endian when `be`
/// is true and little-endian otherwise.
pub open spec fn u32_at(b: Seq<u8>, i: int, be: bool) -> u32 {
    if be {
        ((b[i] as int) * 0x1000000 + (b[i + 1] as int) * 0x10000 + (b[i + 2] as int) * 0x100 + (b[
            i + 3
        ] as int)) as u32
    } else {
        ((b[i + 3] as int) * 0x1000000 + (b[i + 2] as int) * 0x10000 + (b[i + 1] as int) * 0x100 + (
        b[i] as int)) as u32
    }
}

/// Reads the 32-bit field at offset `i` with the given byte order.
pub fn read_u32(data: &Vec<u8>, i: usize, be: bool) -> (r: u32)
    requires
        i + 4 <= data@.len(),
    ensures
        r == u32_at(data@, i as int, be),
{
    let n = data.len();
    assert(i + 4 <= n);
    let b0 = data[i] as u32;
    let b1 = data[i + 1] as u32;
    let b2 = data[i + 2] as u32;
    let b3 = data[i + 3] as u32;
    if be {
        b0 * 0x1000000 + b1 * 0x10000 + b2 * 0x100 + b3
    } else {
        b3 * 0x1000000 + b2 * 0x10000 + b1 * 0x100 + b0
    }
}

/// Appends one character to a string.
///
/// Relies on `String::push`, which appends the given `char` to the end of
/// the string.
#[verifier::external_body]
pub(crate) fn push_char(s: &mut String, c: char)
    ensures
        final(s)@ == old(s)@.push(c),
{
    s.push(c);
}

/// The lower-case hexadecimal digit for a value below sixteen.
pub open spec fn hex_digit(n: int) -> char {
    if n == 0 {
        '0'
    } else if n == 1 {
        '1'
    } else if n == 2 {
        '2'
    } else if n == 3 {
        '3'
    } else if n == 4 {
        '4'
    } else if n == 5 {
        '5'
    } else if n == 6 {
        '6'
    } else if n == 7 {
        '7'
    } else if n == 8 {
        '8'
    } else if n == 9 {
        '9'
    } else if n == 10 {
        'a'
    } else if n == 11 {
        'b'
    } else if n == 12 {
        'c'
    } else if n == 13 {
        'd'
    } else if n == 14 {
        'e'
    } else {
        'f'
    }
}

/// Two hexadecimal digits for one byte, high nibble first.
pub open spec fn byte_hex(b: u8) -> Seq<char> {
    seq![hex_digit(b as int / 16), hex_digit(b as int % 16)]
}

/// The lower-case hexadecimal rendering of a byte sequence.
pub open spec fn bytes_hex(s: Seq<u8>) -> Seq<char>
    decreases s.len(),
{
    if s.len() == 0 {
        Seq::empty()
    } else {
        bytes_hex(s.drop_last()) + byte_hex(s.last())
    }
}

pub proof fn lemma_bytes_hex_push(s: Seq<u8>, x: u8)
    ensures
        bytes_hex(s.push(x)) == bytes_hex(s) + byte_hex(x),
{
    assert(s.push(x).drop_last() =~= s);
    assert(s.push(x).last() == x);
}

fn hex_digit_char(n: u8) -> (c: char)
    requires
        n < 16,
    ensures
        c == hex_digit(n as int),
{
    match n {
        0 => '0',
        1 => '1',
        2 => '2',
        3 => '3',
        4 => '4',
        5 => '5',
        6 => '6',
        7 => '7',
        8 => '8',
        9 => '9',
        10 => 'a',
        11 => 'b',
        12 => 'c',
        13 => 'd',
        14 => 'e',
        _ => 'f',
    }
}

/// Appends the hexadecimal rendering of `data[from..to]` to `s`.
pub fn append_hex(s: &mut String, data: &Vec<u8>, from: usize, to: usize)
    requires
        from <= to <= data@.len(),
    ensures
        final(s)@ == old(s)@ + bytes_hex(data@.subrange(from as int, to as int)),
{
    let ghost base = s@;
    let mut i: usize = from;
    proof {
        assert(data@.subrange(from as int, from as int) =~= Seq::<u8>::empty());
        assert(s@ =~= base + bytes_hex(data@.subrange(from as int, from as int)));
    }
    while i < to
        invariant
            from <= i <= to <= data@.len(),
            s@ == base + bytes_hex(data@.subrange(from as int, i as int)),
        decreases to - i,
    {
        let b = data[i];
        let hi = hex_digit_char(b / 16);
        let lo = hex_digit_char(b % 16);
        push_char(s, hi);
        push_char(s, lo);
        proof {
            let pre = data@.subrange(from as int, i as int);
            let post = data@.subrange(from as int, i as int + 1);
            assert(post =~= pre.push(data@[i as int]));
            lemma_bytes_hex_push(pre, data@[i as int]);
            assert(s@ =~= base + bytes_hex(post));
        }
        i = i + 1;
    }
}

/// The position of the first line-feed byte at or after `i`, or the length
/// of `b` when the line runs to the end of the input.
pub open spec fn line_end(b: Seq<u8>, i: int) -> int
    decreases b.len() - i,
{
    if i < 0 || i >= b.len() {
        b.len() as int
    } else if b[i] == 10u8 {
        i
    } else {
        line_end(b, i + 1)
    }
}

pub proof fn lemma_line_end_bounds(b: Seq<u8>, i: int)
    requires
        0 <= i <= b.len(),
    ensures
        i <= line_end(b, i) <= b.len(),
    decreases b.len() - i,
{
    if i < b.len() && b[i] != 10u8 {
        lemma_line_end_bounds(b, i + 1);
    }
}

/// Finds the end of the line that starts at `i`.
pub fn find_line_end(data: &Vec<u8>, i: usize) -> (j: usize)
    requires
        i <= data@.len(),
    ensures
        j == line_end(data@, i as int),
        i <= j <= data@.len(),
{
    let mut k: usize = i;
    while k < data.len()
        invariant
            i <= k <= data@.len(),
            line_end(data@, i as int) == line_end(data@, k as int),
        decreases data@.len() - k,
    {
        if data[k] == 10 {
            proof {
                lemma_line_end_bounds(data@, i as int);
            }
            return k;
        }
        k = k + 1;
    }
    proof {
        lemma_line_end_bounds(data@, i as int);
    }
    k
}

/// The position of the first space byte in `[i, j)`, or `j` when the token
/// runs to the end of that window.
pub open spec fn token_end(b: Seq<u8>, i: int, j: int) -> int
    decreases j - i,
{
    if i < 0 || i >= j || j > b.len() {
        j
    } else if b[i] == 32u8 {
        i
    } else {
        token_end(b, i + 1, j)
    }
}

pub proof fn lemma_token_end_bounds(b: Seq<u8>, i: int, j: int)
    requires
        0 <= i <= j <= b.len(),
    ensures
        i <= token_end(b, i, j) <= j,
    decreases j - i,
{
    if i < j && b[i] != 32u8 {
        lemma_token_end_bounds(b, i + 1, j);
    }
}

/// Finds the end of the space-delimited token that starts at `i`, looking no
/// further than `j`.
pub fn find_token_end(data: &Vec<u8>, i: usize, j: usize) -> (r: usize)
    requires
        i <= j,
        j <= data@.len(),
    ensures
        r == token_end(data@, i as int, j as int),
        i <= r <= j,
{
    let mut k: usize = i;
    while k < j
        invariant
            i <= k <= j <= data@.len(),
            token_end(data@, i as int, j as int) == token_end(data@, k as int, j as int),
        decreases j - k,
    {
        if data[k] == 32 {
            proof {
                lemma_token_end_bounds(data@, i as int, j as int);
            }
            return k;
        }
        k = k + 1;
    }
    proof {
        lemma_token_end_bounds(data@, i as int, j as int);
    }
    k
}

/// The characters obtained by reading each byte as the character with the
/// same code point.
pub open spec fn latin1(s: Seq<u8>) -> Seq<char> {
    s.map_values(|b: u8| b as char)
}

/// Builds the string whose characters are the bytes of `data[from..to]`,
/// each read as the character with the same code point.
pub fn latin1_string(data: &Vec<u8>, from: usize, to: usize) -> (r: String)
    requires
        from <= to <= data@.len(),
    ensures
        r@ == latin1(data@.subrange(from as int, to as int)),
{
    let mut s = String::new();
    let mut i: usize = from;
    proof {
        assert(s@ =~= latin1(data@.subrange(from as int, from as int)));
    }
    while i < to
        invariant
            from <= i <= to <= data@.len(),
            s@ == latin1(data@.subrange(from as int, i as int)),
        decreases to - i,
    {
        push_char(&mut s, data[i] as char);
        proof {
            let pre = data@.subrange(from as int, i as int);
            let post = data@.subrange(from as int, i as int + 1);
            assert(post =~= pre.push(data@[i as int]));
            assert(s@ =~= latin1(post));
        }
        i = i + 1;
    }
    s
}

} // verus!
