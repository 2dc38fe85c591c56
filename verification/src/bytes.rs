use vstd::prelude::*;

verus! {

/// The views of a sequence of byte vectors.
pub open spec fn seqs_model(v: Seq<Vec<u8>>) -> Seq<Seq<u8>> {
    Seq::new(v.len(), |i: int| v[i]@)
}

/// `s` ends in `suffix`.
pub open spec fn has_suffix(s: Seq<u8>, suffix: Seq<u8>) -> bool {
    s.len() >= suffix.len() && s.subrange(s.len() - suffix.len(), s.len() as int) == suffix
}

pub fn ends_with_bytes(s: &Vec<u8>, suffix: &Vec<u8>) -> (r: bool)
    ensures
        r == has_suffix(s@, suffix@),
{
    let slen = s.len();
    let sulen = suffix.len();
    if slen < sulen {
        return false;
    }
    let off = slen - sulen;
    let mut j: usize = 0;
    while j < sulen
        invariant
            slen == s@.len(),
            sulen == suffix@.len(),
            j <= suffix@.len() <= s@.len(),
            off == s@.len() - suffix@.len(),
            forall|k: int| 0 <= k < j ==> s@[off + k] == suffix@[k],
        decreases suffix@.len() - j,
    {
        if s[off + j] != suffix[j] {
            assert(!has_suffix(s@, suffix@)) by {
                assert(s@.subrange(s@.len() - suffix@.len(), s@.len() as int)[j as int]
                    == s@[off + j]);
            }
            return false;
        }
        j += 1;
    }
    assert(s@.subrange(s@.len() - suffix@.len(), s@.len() as int) =~= suffix@);
    true
}

/// A fresh copy of the bytes `s[from..to]`.
pub fn vec_subrange(s: &Vec<u8>, from: usize, to: usize) -> (r: Vec<u8>)
    requires
        from <= to <= s@.len(),
    ensures
        r@ == s@.subrange(from as int, to as int),
{
    let mut r: Vec<u8> = Vec::new();
    let mut j: usize = from;
    while j < to
        invariant
            from <= j <= to <= s@.len(),
            r@ == s@.subrange(from as int, j as int),
        decreases to - j,
    {
        r.push(s[j]);
        assert(r@ =~= s@.subrange(from as int, (j + 1) as int));
        j += 1;
    }
    r
}

/// The bytes of ".class".
pub open spec fn class_suffix() -> Seq<u8> {
    seq![46u8, 99u8, 108u8, 97u8, 115u8, 115u8]
}

/// The bytes of ".jar".
pub open spec fn jar_suffix() -> Seq<u8> {
    seq![46u8, 106u8, 97u8, 114u8]
}

/// The bytes of ".properties".
pub open spec fn properties_suffix() -> Seq<u8> {
    seq![46u8, 112u8, 114u8, 111u8, 112u8, 101u8, 114u8, 116u8, 105u8, 101u8, 115u8]
}

pub fn class_suffix_vec() -> (r: Vec<u8>)
    ensures
        r@ == class_suffix(),
{
    let mut r: Vec<u8> = Vec::new();
    r.push(46);
    r.push(99);
    r.push(108);
    r.push(97);
    r.push(115);
    r.push(115);
    assert(r@ =~= class_suffix());
    r
}

pub fn jar_suffix_vec() -> (r: Vec<u8>)
    ensures
        r@ == jar_suffix(),
{
    let mut r: Vec<u8> = Vec::new();
    r.push(46);
    r.push(106);
    r.push(97);
    r.push(114);
    assert(r@ =~= jar_suffix());
    r
}

pub fn properties_suffix_vec() -> (r: Vec<u8>)
    ensures
        r@ == properties_suffix(),
{
    let mut r: Vec<u8> = Vec::new();
    r.push(46);
    r.push(112);
    r.push(114);
    r.push(111);
    r.push(112);
    r.push(101);
    r.push(114);
    r.push(116);
    r.push(105);
    r.push(101);
    r.push(115);
    assert(r@ =~= properties_suffix());
    r
}

} // verus!
