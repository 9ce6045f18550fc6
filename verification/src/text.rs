//! Text handling: decoding entry names and comments, and sanitizing names.

use crate::cp437::cp437_char;
use crate::cp437::decode_cp437;
use vstd::prelude::*;
use vstd::string::StrSliceExecFns;

verus! {

/// The text that lossy UTF-8 decoding yields for a given byte string
/// (invalid sequences become replacement characters).
pub uninterp spec fn utf8_lossy_of(bytes: Seq<u8>) -> Seq<char>;

/// Relies on `String::from_utf8_lossy`: the decoded text is a function of
/// the input bytes alone.
#[verifier::external_body]
fn utf8_lossy(bytes: &Vec<u8>) -> (r: String)
    ensures
        r@ == utf8_lossy_of(bytes@),
{
    String::from_utf8_lossy(bytes.as_slice()).into_owned()
}

/// Relies on `String`'s `FromIterator<char>`: collecting characters builds
/// exactly the string holding them.
#[verifier::external_body]
fn string_from_chars(chars: &Vec<char>) -> (r: String)
    ensures
        r@ == chars@,
{
    chars.iter().copied().collect()
}

/// The text a name or comment field decodes to, depending on the entry's
/// UTF-8 flag bit.
pub open spec fn spec_decode_text(bytes: Seq<u8>, is_utf8: bool) -> Seq<char> {
    if is_utf8 {
        utf8_lossy_of(bytes)
    } else {
        bytes.map_values(|b: u8| cp437_char(b))
    }
}

/// Decodes a name or comment field.
pub fn decode_text(bytes: &Vec<u8>, is_utf8: bool) -> (r: String)
    ensures
        r@ == spec_decode_text(bytes@, is_utf8),
{
    if is_utf8 {
        utf8_lossy(bytes)
    } else {
        let chars = decode_cp437(bytes);
        string_from_chars(&chars)
    }
}

/// True of path segments that survive sanitization: non-empty and neither
/// the current- nor the parent-directory marker.
pub open spec fn seg_keep(seg: Seq<char>) -> bool {
    seg.len() > 0 && seg != seq!['.'] && seg != seq!['.', '.']
}

/// Appends one segment to an already sanitized prefix.
pub open spec fn san_flush(out: Seq<char>, seg: Seq<char>) -> Seq<char> {
    if !seg_keep(seg) {
        out
    } else if out.len() == 0 {
        seg
    } else {
        out + seq!['/'] + seg
    }
}

/// One pass over the name: segments are cut at `'/'`, the scan stops at the
/// first NUL, and kept segments are joined with `'/'`.
pub open spec fn san_scan(s: Seq<char>, i: int, out: Seq<char>, seg: Seq<char>) -> Seq<char>
    decreases s.len() - i,
{
    if i < 0 || i >= s.len() {
        san_flush(out, seg)
    } else if s[i] == '\0' {
        san_flush(out, seg)
    } else if s[i] == '/' {
        san_scan(s, i + 1, san_flush(out, seg), Seq::empty())
    } else {
        san_scan(s, i + 1, out, seg.push(s[i]))
    }
}

/// The sanitized form of an entry name: truncated at the first NUL, split
/// at `'/'`, with empty, `.` and `..` segments removed.
pub open spec fn spec_sanitized(s: Seq<char>) -> Seq<char> {
    san_scan(s, 0, Seq::empty(), Seq::empty())
}

/// Appends `seg` to `out` with a separator, unless the segment is dropped
/// by sanitization.
fn flush_segment(out: &mut Vec<char>, seg: &Vec<char>)
    ensures
        final(out)@ == san_flush(old(out)@, seg@),
{
    let keep: bool = if seg.len() == 0 {
        false
    } else if seg.len() == 1 && seg[0] == '.' {
        proof {
            assert(seg@ =~= seq!['.']);
        }
        false
    } else if seg.len() == 2 && seg[0] == '.' && seg[1] == '.' {
        proof {
            assert(seg@ =~= seq!['.', '.']);
        }
        false
    } else {
        proof {
            if seg@ == seq!['.'] {
                assert(seg@.len() == 1 && seg@[0] == '.');
            }
            if seg@ == seq!['.', '.'] {
                assert(seg@.len() == 2 && seg@[0] == '.' && seg@[1] == '.');
            }
        }
        true
    };
    if keep {
        if out.len() > 0 {
            out.push('/');
        }
        let ghost mid = out@;
        let n = seg.len();
        for i in 0..n
            invariant
                n == seg@.len(),
                out@ == mid + seg@.subrange(0, i as int),
        {
            out.push(seg[i]);
            proof {
                assert(mid + seg@.subrange(0, i as int) + seq![seg@[i as int]] =~= mid
                    + seg@.subrange(0, i + 1));
            }
        }
        proof {
            assert(seg@.subrange(0, seg@.len() as int) =~= seg@);
            assert(out@ =~= san_flush(old(out)@, seg@));
        }
    }
}

/// Sanitizes an entry name: truncates at the first NUL and removes empty,
/// `.` and `..` path segments as well as any leading or doubled `/`.
pub fn sanitize_name(name: &str) -> (r: String)
    ensures
        r@ == spec_sanitized(name@),
{
    let n = name.unicode_len();
    let mut out: Vec<char> = Vec::new();
    let mut seg: Vec<char> = Vec::new();
    let mut i: usize = 0;
    loop
        invariant
            0 <= i <= n,
            n == name@.len(),
            san_scan(name@, i as int, out@, seg@) == spec_sanitized(name@),
        ensures
            san_flush(out@, seg@) == spec_sanitized(name@),
        decreases n - i,
    {
        if i >= n {
            break;
        }
        let c = name.get_char(i);
        if c == '\0' {
            break;
        }
        if c == '/' {
            flush_segment(&mut out, &seg);
            seg = Vec::new();
        } else {
            seg.push(c);
        }
        i = i + 1;
    }
    flush_segment(&mut out, &seg);
    string_from_chars(&out)
}

} // verus!
