//! Byte-level helpers shared by the engine: clamped slicing, equality,
//! decimal rendering, and percent-decoding of URL path segments.
use vstd::prelude::*;
use vstd::string::StringExecFns;

verus! {

/// The slice of `data` between `lo` and `hi`, with both bounds clamped to the
/// data that is actually there, so that the slice is always well defined.
pub open spec fn clamp_slice(data: Seq<u8>, lo: int, hi: int) -> Seq<u8> {
    let l = if lo < 0 {
        0
    } else if lo > data.len() {
        data.len() as int
    } else {
        lo
    };
    let h = if hi < l {
        l
    } else if hi > data.len() {
        data.len() as int
    } else {
        hi
    };
    data.subrange(l, h)
}

/// Copies `data[lo..hi]`, clamping both bounds to the available bytes.
pub fn slice_bytes(data: &Vec<u8>, lo: u64, hi: u64) -> (r: Vec<u8>)
    ensures
        r@ == clamp_slice(data@, lo as int, hi as int),
{
    let len: usize = data.len();
    let l: usize = if lo >= len as u64 {
        len
    } else {
        #[verifier::truncate] (lo as usize)
    };
    let mut h: usize = if hi >= len as u64 {
        len
    } else {
        #[verifier::truncate] (hi as usize)
    };
    if h < l {
        h = l;
    }
    let mut out: Vec<u8> = Vec::new();
    let mut i: usize = l;
    while i < h
        invariant
            l <= i <= h <= data@.len(),
            out@ == data@.subrange(l as int, i as int),
        decreases h - i,
    {
        out.push(data[i]);
        assert(out@ =~= data@.subrange(l as int, i as int + 1));
        i = i + 1;
    }
    assert(out@ =~= clamp_slice(data@, lo as int, hi as int));
    out
}

/// Byte-for-byte equality of two byte strings.
pub fn bytes_eq(a: &[u8], b: &[u8]) -> (r: bool)
    ensures
        r == (a@ == b@),
{
    if a.len() != b.len() {
        assert(a@.len() != b@.len());
        return false;
    }
    let n: usize = a.len();
    let mut i: usize = 0;
    while i < n
        invariant
            0 <= i <= n,
            n == a@.len() && n == b@.len(),
            forall|k: int| 0 <= k < i ==> a@[k] == b@[k],
        decreases n - i,
    {
        if a[i] != b[i] {
            return false;
        }
        i = i + 1;
    }
    assert(a@ =~= b@);
    true
}

/// Copies a byte string.
pub fn clone_bytes(src: &Vec<u8>) -> (r: Vec<u8>)
    ensures
        r@ == src@,
{
    let r = slice_bytes(src, 0, src.len() as u64);
    assert(r@ =~= src@);
    r
}

/// The decimal digit `d` as a character.
pub open spec fn digit_char(d: nat) -> char {
    if d == 0 {
        '0'
    } else if d == 1 {
        '1'
    } else if d == 2 {
        '2'
    } else if d == 3 {
        '3'
    } else if d == 4 {
        '4'
    } else if d == 5 {
        '5'
    } else if d == 6 {
        '6'
    } else if d == 7 {
        '7'
    } else if d == 8 {
        '8'
    } else {
        '9'
    }
}

/// The usual decimal rendering of `n`, without a sign and without leading
/// zeros (except for `n == 0`, which renders as `"0"`).
pub open spec fn dec_str(n: nat) -> Seq<char>
    decreases n,
{
    if n < 10 {
        seq![digit_char(n)]
    } else {
        dec_str(n / 10).push(digit_char(n % 10))
    }
}

fn push_digit(s: &mut String, d: u64)
    requires
        d < 10,
    ensures
        final(s)@ == old(s)@.push(digit_char(d as nat)),
{
    if d == 0 {
        proof {
            reveal_strlit("0");
        }
        s.append("0");
    } else if d == 1 {
        proof {
            reveal_strlit("1");
        }
        s.append("1");
    } else if d == 2 {
        proof {
            reveal_strlit("2");
        }
        s.append("2");
    } else if d == 3 {
        proof {
            reveal_strlit("3");
        }
        s.append("3");
    } else if d == 4 {
        proof {
            reveal_strlit("4");
        }
        s.append("4");
    } else if d == 5 {
        proof {
            reveal_strlit("5");
        }
        s.append("5");
    } else if d == 6 {
        proof {
            reveal_strlit("6");
        }
        s.append("6");
    } else if d == 7 {
        proof {
            reveal_strlit("7");
        }
        s.append("7");
    } else if d == 8 {
        proof {
            reveal_strlit("8");
        }
        s.append("8");
    } else {
        proof {
            reveal_strlit("9");
        }
        s.append("9");
    }
    assert(s@ =~= old(s)@.push(digit_char(d as nat)));
}

/// Appends the decimal rendering of `n` to `s`.
pub fn append_dec(s: &mut String, n: u64)
    ensures
        final(s)@ == old(s)@ + dec_str(n as nat),
    decreases n,
{
    if n >= 10 {
        append_dec(s, n / 10);
        push_digit(s, n % 10);
    } else {
        push_digit(s, n);
    }
    assert(s@ =~= old(s)@ + dec_str(n as nat));
}

/// The value of an ASCII hexadecimal digit, or `-1` for any other byte.
pub open spec fn hex_digit_val(b: u8) -> int {
    if 48 <= b && b <= 57 {
        b - 48
    } else if 65 <= b && b <= 70 {
        b - 55
    } else if 97 <= b && b <= 102 {
        b - 87
    } else {
        -1
    }
}

pub open spec fn is_hex_digit(b: u8) -> bool {
    hex_digit_val(b) >= 0
}

/// Percent-decoding of a byte string: each `%XX` with two hexadecimal digits
/// becomes the byte `XX`; every other byte is passed through unchanged.
pub open spec fn percent_decode(s: Seq<u8>) -> Seq<u8>
    decreases s.len(),
{
    if s.len() == 0 {
        Seq::empty()
    } else if s[0] == 37 && s.len() >= 3 && is_hex_digit(s[1]) && is_hex_digit(s[2]) {
        seq![(hex_digit_val(s[1]) * 16 + hex_digit_val(s[2])) as u8] + percent_decode(s.skip(3))
    } else {
        seq![s[0]] + percent_decode(s.skip(1))
    }
}

fn is_hex_byte(b: u8) -> (r: bool)
    ensures
        r == is_hex_digit(b),
{
    (48 <= b && b <= 57) || (65 <= b && b <= 70) || (97 <= b && b <= 102)
}

fn hex_byte_val(b: u8) -> (r: u8)
    requires
        is_hex_digit(b),
    ensures
        r as int == hex_digit_val(b),
        r < 16,
{
    if b <= 57 {
        b - 48
    } else if b <= 70 {
        b - 55
    } else {
        b - 87
    }
}

/// Percent-decodes a byte string.
pub fn percent_decode_bytes(src: &Vec<u8>) -> (r: Vec<u8>)
    ensures
        r@ == percent_decode(src@),
{
    let n: usize = src.len();
    let mut out: Vec<u8> = Vec::new();
    let mut i: usize = 0;
    proof {
        assert(src@.skip(0) =~= src@);
        assert(Seq::<u8>::empty() + percent_decode(src@) =~= percent_decode(src@));
    }
    while i < n
        invariant
            i <= n,
            n == src@.len(),
            out@ + percent_decode(src@.skip(i as int)) == percent_decode(src@),
        decreases n - i,
    {
        let b = src[i];
        proof {
            assert(src@.skip(i as int)[0] == src@[i as int]);
        }
        if b == 37 && n - i >= 3 && is_hex_byte(src[i + 1]) && is_hex_byte(src[i + 2]) {
            let hi = hex_byte_val(src[i + 1]);
            let lo = hex_byte_val(src[i + 2]);
            proof {
                assert(src@.skip(i as int)[1] == src@[i as int + 1]);
                assert(src@.skip(i as int)[2] == src@[i as int + 2]);
                assert(src@.skip(i as int).skip(3) =~= src@.skip(i as int + 3));
            }
            out.push(hi * 16 + lo);
            proof {
                assert(out@ + percent_decode(src@.skip(i as int + 3)) =~= percent_decode(
                    src@,
                ));
            }
            i = i + 3;
        } else {
            proof {
                assert(src@.skip(i as int).skip(1) =~= src@.skip(i as int + 1));
            }
            out.push(b);
            proof {
                assert(out@ + percent_decode(src@.skip(i as int + 1)) =~= percent_decode(
                    src@,
                ));
            }
            i = i + 1;
        }
    }
    proof {
        assert(src@.skip(n as int) =~= Seq::<u8>::empty());
        assert(out@ =~= percent_decode(src@));
    }
    out
}

/// Where the basename of a path starts: one past the last `/`, or `0` when
/// the path has no `/` at all.
pub open spec fn basename_start(s: Seq<u8>) -> int
    decreases s.len(),
{
    if s.len() == 0 {
        0
    } else if s[s.len() - 1] == 47 {
        s.len() as int
    } else {
        basename_start(s.drop_last())
    }
}

pub proof fn lemma_basename_start_bounds(s: Seq<u8>)
    ensures
        0 <= basename_start(s) <= s.len(),
    decreases s.len(),
{
    if s.len() > 0 && s[s.len() - 1] != 47 {
        lemma_basename_start_bounds(s.drop_last());
    }
}

/// The basename of a `/`-separated path: everything after the last `/`.
pub open spec fn basename(s: Seq<u8>) -> Seq<u8> {
    s.subrange(basename_start(s), s.len() as int)
}

/// Extracts the basename of a `/`-separated path.
pub fn basename_bytes(src: &Vec<u8>) -> (r: Vec<u8>)
    ensures
        r@ == basename(src@),
{
    let n: usize = src.len();
    let mut cut: usize = 0;
    let mut i: usize = 0;
    proof {
        assert(src@.take(0) =~= Seq::<u8>::empty());
    }
    while i < n
        invariant
            cut <= i <= n,
            n == src@.len(),
            basename_start(src@.take(i as int)) == cut as int,
        decreases n - i,
    {
        proof {
            assert(src@.take(i as int + 1).drop_last() =~= src@.take(i as int));
            assert(src@.take(i as int + 1)[i as int] == src@[i as int]);
        }
        if src[i] == 47 {
            cut = i + 1;
        }
        i = i + 1;
    }
    proof {
        assert(src@.take(n as int) =~= src@);
        lemma_basename_start_bounds(src@);
    }
    let r = slice_bytes(src, cut as u64, n as u64);
    assert(r@ =~= basename(src@));
    r
}

} // verus!
