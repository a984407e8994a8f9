//! Base64 decoding: the standard alphabet with optional `=` padding, and
//! the URL-safe variant (`-` and `_`, padding optional) decoded by the same
//! group rule.

use vstd::prelude::*;

verus! {

use vstd::string::StringSliceAdditionalSpecFns;
use crate::text::push_char;

/// The value of one alphabet byte, or `None` where the byte is not in the
/// alphabet. The URL-safe variant also accepts `-` for 62 and `_` for 63 on
/// top of `+` and `/`.
pub open spec fn b64_char_value(b: u8, url: bool) -> Option<u8> {
    if 65 <= b && b <= 90 {  // 'A'..='Z'
        Some((b - 65) as u8)
    } else if 97 <= b && b <= 122 {  // 'a'..='z'
        Some((b - 71) as u8)
    } else if 48 <= b && b <= 57 {  // '0'..='9'
        Some((b + 4) as u8)
    } else if b == 43 {  // '+'
        Some(62u8)
    } else if b == 47 {  // '/'
        Some(63u8)
    } else if url && b == 45 {  // '-'
        Some(62u8)
    } else if url && b == 95 {  // '_'
        Some(63u8)
    } else {
        None
    }
}

/// Reads one group of up to four alphabet bytes starting at `i + j`,
/// accumulating their 6-bit values into `buf`. Reading stops at the group
/// boundary, the end of the input, or a padding byte `=`; the first byte
/// outside the alphabet is the error.
pub open spec fn read_group(s: Seq<u8>, i: int, j: int, buf: u32, url: bool) -> Result<
    (int, u32),
    u8,
>
    decreases 4 - j,
{
    if j >= 4 || i + j >= s.len() || s[i + j] == 61 {
        Ok((j, buf))
    } else {
        match b64_char_value(s[i + j], url) {
            Some(v) => read_group(s, i, j + 1, (buf << 6) | (v as u32), url),
            None => Err(s[i + j]),
        }
    }
}

/// The bytes one group of `count` alphabet characters decodes to.
pub open spec fn group_bytes(count: int, buf: u32) -> Seq<u8> {
    if count == 4 {
        seq![((buf >> 16) & 0xff) as u8, ((buf >> 8) & 0xff) as u8, (buf & 0xff) as u8]
    } else if count == 3 {
        seq![((buf >> 10) & 0xff) as u8, ((buf >> 2) & 0xff) as u8]
    } else if count == 2 {
        seq![((buf >> 4) & 0xff) as u8]
    } else {
        Seq::empty()
    }
}

/// Decodes the groups of `s` from position `i` on; an `Err` carries the
/// first byte outside the alphabet.
pub open spec fn spec_decode_groups(s: Seq<u8>, i: int, url: bool) -> Result<Seq<u8>, u8>
    decreases s.len() + 4 - i,
{
    if i >= s.len() || i < 0 {
        Ok(Seq::empty())
    } else {
        match read_group(s, i, 0, 0, url) {
            Ok((count, buf)) => match spec_decode_groups(s, i + 4, url) {
                Ok(rest) => Ok(group_bytes(count, buf) + rest),
                Err(c) => Err(c),
            },
            Err(c) => Err(c),
        }
    }
}

/// What decoding the whole input yields.
pub open spec fn spec_decode(s: Seq<u8>, url: bool) -> Result<Seq<u8>, u8> {
    spec_decode_groups(s, 0, url)
}

/// The error message reported for a byte outside the alphabet.
pub open spec fn invalid_char_message(c: u8) -> Seq<char> {
    "invalid base64 character: '"@ + seq![c as char] + "'"@
}

fn b64_digit(b: u8, url: bool) -> (r: Option<u8>)
    ensures
        r == b64_char_value(b, url),
{
    if b >= 65 && b <= 90 {
        Some(b - 65)
    } else if b >= 97 && b <= 122 {
        Some(b - 71)
    } else if b >= 48 && b <= 57 {
        Some(b + 4)
    } else if b == 43 {
        Some(62)
    } else if b == 47 {
        Some(63)
    } else if url && b == 45 {
        Some(62)
    } else if url && b == 95 {
        Some(63)
    } else {
        None
    }
}

fn decode_with(input: &str, url: bool) -> (r: Result<Vec<u8>, String>)
    ensures
        r matches Ok(v) ==> (spec_decode(input.spec_bytes(), url) matches Ok(w) && v@ == w),
        r matches Err(m) ==> (spec_decode(input.spec_bytes(), url) matches Err(c) && m@
            == invalid_char_message(c)),
        r is Ok <==> spec_decode(input.spec_bytes(), url) is Ok,
{
    let bytes: &[u8] = input.as_bytes();
    let n = bytes.len();
    let ghost s = input.spec_bytes();
    let mut result: Vec<u8> = Vec::new();
    let mut i: usize = 0;
    while i < n
        invariant
            0 <= i <= n,
            n == s.len(),
            bytes@ == s,
            s == input.spec_bytes(),
            (match spec_decode_groups(s, i as int, url) {
                Ok(rest) => spec_decode(s, url) == Ok::<Seq<u8>, u8>(result@ + rest),
                Err(c) => spec_decode(s, url) == Err::<Seq<u8>, u8>(c),
            }),
        decreases n - i,
    {
        let mut buf: u32 = 0;
        let mut j: usize = 0;
        let mut k: usize = i;
        while j < 4 && k < n && bytes[k] != 61
            invariant
                0 <= j <= 4,
                k == i + j,
                i <= k <= n,
                i < n,
                n == s.len(),
                bytes@ == s,
                s == input.spec_bytes(),
                read_group(s, i as int, j as int, buf, url) == read_group(s, i as int, 0, 0, url),
                (match spec_decode_groups(s, i as int, url) {
                    Ok(rest) => spec_decode(s, url) == Ok::<Seq<u8>, u8>(result@ + rest),
                    Err(c) => spec_decode(s, url) == Err::<Seq<u8>, u8>(c),
                }),
            decreases 4 - j,
        {
            let ch = bytes[k];
            match b64_digit(ch, url) {
                Some(v) => {
                    buf = (buf << 6) | (v as u32);
                    j = j + 1;
                    k = k + 1;
                },
                None => {
                    proof {
                        assert(read_group(s, i as int, 0, 0, url) == Err::<(int, u32), u8>(ch));
                        assert(spec_decode_groups(s, i as int, url) == Err::<Seq<u8>, u8>(ch));
                    }
                    let mut msg: String = "invalid base64 character: '".to_owned();
                    push_char(&mut msg, ch as char);
                    push_char(&mut msg, '\'');
                    proof {
                        reveal_strlit("'");
                        assert(msg@ =~= invalid_char_message(ch));
                    }
                    return Err(msg);
                },
            }
        }
        proof {
            assert(read_group(s, i as int, 0, 0, url) == Ok::<(int, u32), u8>((j as int, buf)));
        }
        let ghost before = result@;
        proof {
            assert((buf >> 16) & 0xff < 256 && (buf >> 8) & 0xff < 256 && buf & 0xff < 256 && (buf
                >> 10) & 0xff < 256 && (buf >> 2) & 0xff < 256 && (buf >> 4) & 0xff < 256)
                by (bit_vector);
        }
        if j == 4 {
            result.push(((buf >> 16) & 0xff) as u8);
            result.push(((buf >> 8) & 0xff) as u8);
            result.push((buf & 0xff) as u8);
        } else if j == 3 {
            result.push(((buf >> 10) & 0xff) as u8);
            result.push(((buf >> 2) & 0xff) as u8);
        } else if j == 2 {
            result.push(((buf >> 4) & 0xff) as u8);
        }
        proof {
            assert(result@ =~= before + group_bytes(j as int, buf));
        }
        let remaining = n - i;
        let step: usize = if remaining > 4 {
            4
        } else {
            remaining
        };
        proof {
            let next = i as int + 4;
            assert(spec_decode_groups(s, i + step, url) == spec_decode_groups(s, next, url));
            if spec_decode_groups(s, next, url) is Ok {
                let rest = spec_decode_groups(s, next, url)->Ok_0;
                assert((before + group_bytes(j as int, buf)) + rest =~= before + (group_bytes(
                    j as int,
                    buf,
                ) + rest));
            }
        }
        i = i + step;
    }
    proof {
        assert(result@ + Seq::<u8>::empty() =~= result@);
    }
    Ok(result)
}

/// Decodes standard base64 (the `+` / `/` alphabet, `=` padding allowed).
/// Fails on the first character outside the alphabet, naming it.
pub fn decode_base64(input: &str) -> (r: Result<Vec<u8>, String>)
    ensures
        r matches Ok(v) ==> (spec_decode(input.spec_bytes(), false) matches Ok(w) && v@ == w),
        r matches Err(m) ==> (spec_decode(input.spec_bytes(), false) matches Err(c) && m@
            == invalid_char_message(c)),
        r is Ok <==> spec_decode(input.spec_bytes(), false) is Ok,
{
    decode_with(input, false)
}

/// Decodes URL-safe base64: `-` and `_` stand for 62 and 63 and padding may
/// be omitted, exactly as if `-` and `_` were first rewritten to `+` and
/// `/` and the input padded to a multiple of four.
pub fn decode_base64url(base64url: &str) -> (r: Result<Vec<u8>, String>)
    ensures
        r matches Ok(v) ==> (spec_decode(base64url.spec_bytes(), true) matches Ok(w) && v@ == w),
        r matches Err(m) ==> (spec_decode(base64url.spec_bytes(), true) matches Err(c) && m@
            == invalid_char_message(c)),
        r is Ok <==> spec_decode(base64url.spec_bytes(), true) is Ok,
{
    decode_with(base64url, true)
}

} // verus!
