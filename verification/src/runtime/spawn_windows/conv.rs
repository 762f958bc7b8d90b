//! Various type conversion routines.

use vstd::prelude::*;
use vstd::string::StrSliceExecFns;

verus! {

/// A text of ASCII characters as UTF-16 code units.
pub open spec fn wide_text(text: Seq<char>) -> Seq<u16> {
    Seq::new(text.len(), |i: int| text[i] as u16)
}

/// Convert the string into a null-terminated wide (16-bit) C string.
pub fn as_c_str_w(s: &Vec<u16>) -> (w: Vec<u16>)
    ensures
        w@ == s@.push(0u16),
{
    let mut w: Vec<u16> = Vec::with_capacity(s.len());
    let mut i: usize = 0;
    while i < s.len()
        invariant
            i <= s@.len(),
            w@ == s@.take(i as int),
        decreases s@.len() - i,
    {
        w.push(s[i]);
        i += 1;
        assert(w@ =~= s@.take(i as int));
    }
    assert(s@.take(i as int) =~= s@);
    w.push(0);
    w
}

/// The UTF-16 code units of a text of ASCII characters.
pub(crate) fn wide(text: &str) -> (w: Vec<u16>)
    requires
        text.is_ascii(),
    ensures
        w@ == wide_text(text@),
{
    let len = text.unicode_len();
    let mut w: Vec<u16> = Vec::with_capacity(len);
    let mut i: usize = 0;
    while i < len
        invariant
            i <= len,
            len == text@.len(),
            text.is_ascii(),
            w@ == wide_text(text@.take(i as int)),
        decreases len - i,
    {
        let b = text.get_ascii(i);
        w.push(b as u16);
        i += 1;
        assert(w@ =~= wide_text(text@.take(i as int)));
    }
    assert(text@.take(i as int) =~= text@);
    w
}

/// Appends the code units of a string.
pub fn append_units(out: &mut Vec<u16>, units: &Vec<u16>)
    ensures
        final(out)@ == old(out)@ + units@,
{
    let mut i: usize = 0;
    while i < units.len()
        invariant
            i <= units@.len(),
            out@ == old(out)@ + units@.take(i as int),
        decreases units@.len() - i,
    {
        out.push(units[i]);
        i += 1;
        assert(out@ =~= old(out)@ + units@.take(i as int));
    }
    assert(units@.take(units@.len() as int) =~= units@);
}

/// A copy of a string.
pub fn copy_units(units: &Vec<u16>) -> (r: Vec<u16>)
    ensures
        r@ == units@,
{
    let mut r: Vec<u16> = Vec::with_capacity(units.len());
    append_units(&mut r, units);
    assert(r@ =~= units@);
    r
}

/// The mark of an extended-length path: `\\?\`.
pub open spec fn extended_prefix() -> Seq<u16> {
    seq![0x5cu16, 0x5cu16, 0x3fu16, 0x5cu16]
}

/// A path without the mark of an extended-length path at its head.
pub open spec fn plain_path(path: Seq<u16>) -> Seq<u16> {
    if path.len() >= 4 && path.take(4) == extended_prefix() {
        path.skip(4)
    } else {
        path
    }
}

/// The canonical Win32 form of a full path: the extended-length form that the
/// system hands out, without the mark at its head.
pub fn strip_extended_prefix(path: &Vec<u16>) -> (r: Vec<u16>)
    ensures
        r@ == plain_path(path@),
{
    let marked = path.len() >= 4 && path[0] == 0x5c && path[1] == 0x5c && path[2] == 0x3f
        && path[3] == 0x5c;
    proof {
        if path@.len() >= 4 {
            assert(marked <==> path@.take(4) =~= extended_prefix()) by {
                if path@.take(4) == extended_prefix() {
                    assert(path@.take(4)[0] == 0x5c);
                    assert(path@.take(4)[1] == 0x5c);
                    assert(path@.take(4)[2] == 0x3f);
                    assert(path@.take(4)[3] == 0x5c);
                }
            }
        }
    }
    if !marked {
        return copy_units(path);
    }
    let mut r: Vec<u16> = Vec::with_capacity(path.len() - 4);
    let mut i: usize = 4;
    while i < path.len()
        invariant
            4 <= i <= path@.len(),
            r@ == path@.subrange(4, i as int),
        decreases path@.len() - i,
    {
        r.push(path[i]);
        i += 1;
        assert(r@ =~= path@.subrange(4, i as int));
    }
    assert(path@.subrange(4, path@.len() as int) =~= path@.skip(4));
    r
}

} // verus!
