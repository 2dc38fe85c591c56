use vstd::prelude::*;

use crate::bytes::seqs_model;

verus! {

/// A properties text failed to parse; the whole file yields nothing.
#[derive(Clone, Copy, Debug, PartialEq, Eq, Structural)]
pub struct PropError;

/// The key/value pairs of a properties text, as the resource-bundle format
/// reads it: `Some` pairs in file order when the text parses, `None` when any
/// line is malformed. The parse is a function of the bytes alone.
pub uninterp spec fn properties_of(b: Seq<u8>) -> Option<Seq<(Seq<u8>, Seq<u8>)>>;

/// The views of parsed pairs.
pub open spec fn pairs_model(p: Seq<(Vec<u8>, Vec<u8>)>) -> Seq<(Seq<u8>, Seq<u8>)> {
    Seq::new(p.len(), |i: int| (p[i].0@, p[i].1@))
}

/// Relies on java_properties::PropertiesIter::read_into: it walks the
/// `key = value` lines of the text (comments, continuations and unicode
/// escapes included), hands each pair to the closure in file order, and fails
/// for the whole text on the first malformed line.
#[verifier::external_body]
fn parse_properties_raw(bytes: &Vec<u8>) -> (r: Result<Vec<(Vec<u8>, Vec<u8>)>, PropError>)
    ensures
        match r {
            Ok(pairs) => properties_of(bytes@) == Some(pairs_model(pairs@)),
            Err(_) => properties_of(bytes@) is None,
        },
{
    let mut out: Vec<(Vec<u8>, Vec<u8>)> = Vec::new();
    let mut it = java_properties::PropertiesIter::new(&bytes[..]);
    let res = it.read_into(|k: String, v: String| {
        out.push((k.into_bytes(), v.into_bytes()));
    });
    match res {
        Ok(()) => Ok(out),
        Err(_) => Err(PropError),
    }
}

/// The values of parsed pairs, keys discarded.
pub open spec fn spec_values(pairs: Seq<(Seq<u8>, Seq<u8>)>) -> Seq<Seq<u8>> {
    Seq::new(pairs.len(), |i: int| pairs[i].1)
}

/// Keep only the values of the parsed pairs, in order.
pub fn property_values(pairs: &Vec<(Vec<u8>, Vec<u8>)>) -> (r: Vec<Vec<u8>>)
    ensures
        seqs_model(r@) == spec_values(pairs_model(pairs@)),
{
    let n = pairs.len();
    let mut r: Vec<Vec<u8>> = Vec::new();
    let mut i: usize = 0;
    while i < n
        invariant
            n == pairs@.len(),
            i <= n,
            seqs_model(r@) == spec_values(pairs_model(pairs@)).subrange(0, i as int),
        decreases n - i,
    {
        let ghost prev = r@;
        let v = crate::bytes::vec_subrange(&pairs[i].1, 0, pairs[i].1.len());
        assert(v@ =~= pairs@[i as int].1@);
        r.push(v);
        proof {
            assert(seqs_model(r@) =~= seqs_model(prev).push(pairs@[i as int].1@));
            assert(spec_values(pairs_model(pairs@)).subrange(0, i + 1) =~= spec_values(
                pairs_model(pairs@),
            ).subrange(0, i as int).push(pairs@[i as int].1@));
        }
        i += 1;
    }
    assert(spec_values(pairs_model(pairs@)).subrange(0, n as int) =~= spec_values(
        pairs_model(pairs@),
    ));
    r
}

/// Parse a properties text and keep only its values: the extracted strings of
/// a `.properties` resource. Fails exactly when the text does not parse.
pub fn process_properties_bytes(bytes: &Vec<u8>) -> (r: Result<Vec<Vec<u8>>, PropError>)
    ensures
        match r {
            Ok(vals) => properties_of(bytes@) is Some && seqs_model(vals@) == spec_values(
                properties_of(bytes@)->Some_0,
            ),
            Err(_) => properties_of(bytes@) is None,
        },
{
    match parse_properties_raw(bytes) {
        Ok(pairs) => Ok(property_values(&pairs)),
        Err(e) => Err(e),
    }
}

} // verus!
