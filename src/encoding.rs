//! Decoding a request file's content into the bytes written to disk.
use vstd::prelude::*;
use crate::models::FileRequest;
use crate::cache::utf8;

verus! {

/// The value of a hexadecimal digit byte (either case).
pub open spec fn hex_value(c: u8) -> Option<u8> {
    if 0x30 <= c && c <= 0x39 {
        Some((c - 0x30) as u8)
    } else if 0x61 <= c && c <= 0x66 {
        Some((c - 0x61 + 10) as u8)
    } else if 0x41 <= c && c <= 0x46 {
        Some((c - 0x41 + 10) as u8)
    } else {
        None
    }
}

/// The bytes that a hexadecimal text stands for: two digits per byte, high
/// nibble first; `None` for an odd length or a byte that is no digit.
pub open spec fn hex_decode_spec(s: Seq<u8>) -> Option<Seq<u8>>
    decreases s.len(),
{
    if s.len() == 0 {
        Some(Seq::empty())
    } else if s.len() < 2 {
        None
    } else {
        match (hex_value(s[0]), hex_value(s[1]), hex_decode_spec(s.skip(2))) {
            (Some(h), Some(l), Some(rest)) => Some(seq![(h * 16 + l) as u8] + rest),
            _ => None,
        }
    }
}

fn hex_digit_value(c: u8) -> (r: Option<u8>)
    ensures
        r == hex_value(c),
{
    if 0x30 <= c && c <= 0x39 {
        Some(c - 0x30)
    } else if 0x61 <= c && c <= 0x66 {
        Some(c - 0x61 + 10)
    } else if 0x41 <= c && c <= 0x46 {
        Some(c - 0x41 + 10)
    } else {
        None
    }
}

/// Decodes a hexadecimal text.
pub fn hex_decode(s: &[u8]) -> (r: Option<Vec<u8>>)
    ensures
        r is Some <==> hex_decode_spec(s@) is Some,
        r is Some ==> r->0@ == hex_decode_spec(s@)->0,
{
    let mut out: Vec<u8> = Vec::new();
    let mut i: usize = 0;
    assert(s@.skip(0) =~= s@);
    while i < s.len()
        invariant
            i <= s@.len(),
            hex_decode_spec(s@) == match hex_decode_spec(s@.skip(i as int)) {
                Some(rest) => Some(out@ + rest),
                None => None::<Seq<u8>>,
            },
        decreases s@.len() - i,
    {
        let ghost t = s@.skip(i as int);
        if s.len() - i < 2 {
            return None;
        }
        assert(t[0] == s@[i as int] && t[1] == s@[i + 1]);
        let (h, l) = match (hex_digit_value(s[i]), hex_digit_value(s[i + 1])) {
            (Some(h), Some(l)) => (h, l),
            _ => return None,
        };
        let byte = (h as u32 * 16 + l as u32) as u8;
        let ghost before = out@;
        out.push(byte);
        proof {
            assert(t.skip(2) =~= s@.skip(i + 2));
            match hex_decode_spec(s@.skip(i + 2)) {
                Some(rest) => {
                    assert(before + (seq![byte] + rest) =~= out@ + rest);
                },
                None => {},
            }
        }
        i = i + 2;
    }
    assert(s@.skip(i as int) =~= Seq::<u8>::empty());
    assert(out@ + Seq::<u8>::empty() =~= out@);
    Some(out)
}

/// The value of a base64 digit (standard alphabet).
pub open spec fn b64_value(c: u8) -> Option<u8> {
    if 0x41 <= c && c <= 0x5a {
        Some((c - 0x41) as u8)
    } else if 0x61 <= c && c <= 0x7a {
        Some((c - 0x61 + 26) as u8)
    } else if 0x30 <= c && c <= 0x39 {
        Some((c - 0x30 + 52) as u8)
    } else if c == 0x2b {
        Some(62u8)
    } else if c == 0x2f {
        Some(63u8)
    } else {
        None
    }
}

/// The first byte a group of base64 digits stands for.
pub open spec fn b64_first(a: u8, b: u8) -> u8 {
    (a * 4 + b / 16) as u8
}

/// The second byte a group of base64 digits stands for.
pub open spec fn b64_second(b: u8, c: u8) -> u8 {
    ((b % 16) * 16 + c / 4) as u8
}

/// The third byte a group of base64 digits stands for.
pub open spec fn b64_third(c: u8, d: u8) -> u8 {
    ((c % 4) * 64 + d) as u8
}

/// The bytes that a base64 text stands for: groups of four digits, three
/// bytes each; the last group may end in `==` (one byte) or `=` (two
/// bytes). `None` for anything else.
pub open spec fn b64_decode_spec(s: Seq<u8>) -> Option<Seq<u8>>
    decreases s.len(),
{
    if s.len() == 0 {
        Some(Seq::empty())
    } else if s.len() < 4 {
        None
    } else {
        let a = b64_value(s[0]);
        let b = b64_value(s[1]);
        let c = b64_value(s[2]);
        let d = b64_value(s[3]);
        if a is None || b is None {
            None
        } else if s.len() == 4 && s[2] == 0x3d && s[3] == 0x3d {
            Some(seq![b64_first(a->0, b->0)])
        } else if c is None {
            None
        } else if s.len() == 4 && s[3] == 0x3d {
            Some(seq![b64_first(a->0, b->0), b64_second(b->0, c->0)])
        } else if d is None {
            None
        } else {
            match b64_decode_spec(s.skip(4)) {
                Some(rest) => Some(
                    seq![b64_first(a->0, b->0), b64_second(b->0, c->0), b64_third(c->0, d->0)] + rest,
                ),
                None => None,
            }
        }
    }
}

fn b64_digit(c: u8) -> (r: Option<u8>)
    ensures
        r == b64_value(c),
{
    if 0x41 <= c && c <= 0x5a {
        Some(c - 0x41)
    } else if 0x61 <= c && c <= 0x7a {
        Some(c - 0x61 + 26)
    } else if 0x30 <= c && c <= 0x39 {
        Some(c - 0x30 + 52)
    } else if c == 0x2b {
        Some(62)
    } else if c == 0x2f {
        Some(63)
    } else {
        None
    }
}

/// Decodes a base64 text.
pub fn b64_decode(s: &[u8]) -> (r: Option<Vec<u8>>)
    ensures
        r is Some <==> b64_decode_spec(s@) is Some,
        r is Some ==> r->0@ == b64_decode_spec(s@)->0,
{
    let mut out: Vec<u8> = Vec::new();
    let mut i: usize = 0;
    assert(s@.skip(0) =~= s@);
    while i < s.len()
        invariant
            i <= s@.len(),
            b64_decode_spec(s@) == match b64_decode_spec(s@.skip(i as int)) {
                Some(rest) => Some(out@ + rest),
                None => None::<Seq<u8>>,
            },
        decreases s@.len() - i,
    {
        let ghost t = s@.skip(i as int);
        if s.len() - i < 4 {
            return None;
        }
        assert(t[0] == s@[i as int] && t[1] == s@[i + 1] && t[2] == s@[i + 2] && t[3] == s@[i + 3]);
        let a = b64_digit(s[i]);
        let b = b64_digit(s[i + 1]);
        let (a, b) = match (a, b) {
            (Some(a), Some(b)) => (a, b),
            _ => return None,
        };
        let last = s.len() - i == 4;
        let first = (a as u32 * 4 + b as u32 / 16) as u8;
        if last && s[i + 2] == 0x3d && s[i + 3] == 0x3d {
            out.push(first);
            assert(out@ + Seq::<u8>::empty() =~= out@);
            return Some(out);
        }
        let c = match b64_digit(s[i + 2]) {
            Some(c) => c,
            None => return None,
        };
        let second = ((b as u32 % 16) * 16 + c as u32 / 4) as u8;
        if last && s[i + 3] == 0x3d {
            let ghost before = out@;
            out.push(first);
            out.push(second);
            assert(out@ =~= before + seq![first, second]);
            return Some(out);
        }
        let d = match b64_digit(s[i + 3]) {
            Some(d) => d,
            None => return None,
        };
        let third = ((c as u32 % 4) * 64 + d as u32) as u8;
        let ghost before = out@;
        out.push(first);
        out.push(second);
        out.push(third);
        proof {
            assert(t.skip(4) =~= s@.skip(i + 4));
            assert(out@ =~= before + seq![first, second, third]);
            match b64_decode_spec(s@.skip(i + 4)) {
                Some(rest) => {
                    assert(before + (seq![first, second, third] + rest) =~= out@ + rest);
                },
                None => {},
            }
        }
        i = i + 4;
    }
    assert(s@.skip(i as int) =~= Seq::<u8>::empty());
    assert(out@ + Seq::<u8>::empty() =~= out@);
    Some(out)
}

/// The encoding a file declares.
pub open spec fn declared(f: FileRequest, name: Seq<char>) -> bool {
    f.encoding is Some && f.encoding->0@ == name
}

/// The bytes written for a file: its content as UTF-8 when it declares no
/// encoding or `utf8`, decoded when it declares `hex` or `base64`; `None` when decoding
/// fails or the encoding is not known.
pub open spec fn file_bytes_spec(f: FileRequest) -> Option<Seq<u8>> {
    if f.encoding is None || declared(f, "utf8"@) {
        Some(utf8(f.content@))
    } else if declared(f, "hex"@) {
        hex_decode_spec(utf8(f.content@))
    } else if declared(f, "base64"@) {
        b64_decode_spec(utf8(f.content@))
    } else {
        None
    }
}

/// Decodes a file's content into the bytes to write.
pub fn file_bytes(f: &FileRequest) -> (r: Option<Vec<u8>>)
    ensures
        r is Some <==> file_bytes_spec(*f) is Some,
        r is Some ==> r->0@ == file_bytes_spec(*f)->0,
{
    let content = f.content.as_str().as_bytes();
    match &f.encoding {
        None => Some(slice_to_vec(content)),
        Some(e) => {
            let utf = String::from_str("utf8");
            let hex = String::from_str("hex");
            let b64 = String::from_str("base64");
            if *e == utf {
                Some(slice_to_vec(content))
            } else if *e == hex {
                hex_decode(content)
            } else if *e == b64 {
                b64_decode(content)
            } else {
                None
            }
        },
    }
}

fn slice_to_vec(s: &[u8]) -> (r: Vec<u8>)
    ensures
        r@ == s@,
{
    let mut v: Vec<u8> = Vec::new();
    let mut i: usize = 0;
    while i < s.len()
        invariant
            i <= s@.len(),
            v@ == s@.take(i as int),
        decreases s@.len() - i,
    {
        v.push(s[i]);
        i = i + 1;
        assert(s@.take(i as int) =~= s@.take(i - 1) + seq![s@[i - 1]]);
    }
    assert(s@.take(i as int) =~= s@);
    v
}

} // verus!
