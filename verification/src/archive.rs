use vstd::prelude::*;

use crate::bytes::{
    class_suffix, class_suffix_vec, ends_with_bytes, has_suffix, properties_suffix,
    properties_suffix_vec, seqs_model,
};
use crate::classfile::{extract_strings, spec_extract};
use crate::decode::{decode_class, spec_decode};
use crate::props::{process_properties_bytes, properties_of, spec_values};

verus! {

/// A container could not be opened as a ZIP archive.
#[derive(Clone, Copy, Debug, PartialEq, Eq, Structural)]
pub struct JarError;

/// An open JAR container, held through the zip crate. Verified code sees it
/// only through `jar_model`.
#[verifier::external_body]
pub struct JarArchive {
    inner: zip::ZipArchive<std::io::Cursor<Vec<u8>>>,
}

/// What the container holds: for each member, in central-directory order, its
/// name and, when the member's bytes can be read and decompressed at all,
/// those bytes. Both are functions of the archive alone.
pub uninterp spec fn jar_model(a: JarArchive) -> Seq<(Seq<u8>, Option<Seq<u8>>)>;

/// Relies on zip::ZipArchive::new: reads the central directory of a ZIP held
/// in memory, or fails for the whole archive.
#[verifier::external_body]
pub fn open_jar(bytes: Vec<u8>) -> (r: Result<JarArchive, JarError>) {
    match zip::ZipArchive::new(std::io::Cursor::new(bytes)) {
        Ok(z) => Ok(JarArchive { inner: z }),
        Err(_) => Err(JarError),
    }
}

/// Relies on zip::ZipArchive::len: the number of members.
#[verifier::external_body]
fn jar_len(a: &JarArchive) -> (n: usize)
    ensures
        n == jar_model(*a).len(),
{
    a.inner.len()
}

/// Relies on zip::ZipArchive::name_for_index: the name of member `i`, which
/// the central directory holds for every index below the member count.
#[verifier::external_body]
fn jar_entry_name(a: &JarArchive, i: usize) -> (r: Vec<u8>)
    requires
        i < jar_model(*a).len(),
    ensures
        r@ == jar_model(*a)[i as int].0,
{
    match a.inner.name_for_index(i) {
        Some(s) => s.as_bytes().to_vec(),
        None => Vec::new(),
    }
}

/// Relies on zip::ZipArchive::by_index and std::io::Read::read_to_end: the
/// decompressed bytes of member `i`, exactly when the member can be read at
/// all. Reading seeks inside the container but leaves its contents as they
/// were.
#[verifier::external_body]
fn jar_entry_bytes(a: &mut JarArchive, i: usize) -> (r: Result<Vec<u8>, JarError>)
    requires
        i < jar_model(*old(a)).len(),
    ensures
        jar_model(*final(a)) == jar_model(*old(a)),
        match r {
            Ok(v) => jar_model(*old(a))[i as int].1 == Some(v@),
            Err(_) => jar_model(*old(a))[i as int].1 is None,
        },
{
    let mut buf: Vec<u8> = Vec::new();
    match a.inner.by_index(i) {
        Ok(mut f) => match std::io::Read::read_to_end(&mut f, &mut buf) {
            Ok(_) => Ok(buf),
            Err(_) => Err(JarError),
        },
        Err(_) => Err(JarError),
    }
}

/// The strings one member contributes: a `.class` member that decodes yields
/// its pool strings, a `.properties` member that parses yields its values, and
/// every other member — unreadable, malformed, or with another name — yields
/// nothing.
pub open spec fn entry_strings(name: Seq<u8>, data: Option<Seq<u8>>) -> Seq<Seq<u8>> {
    match data {
        Some(d) => if has_suffix(name, class_suffix()) {
            match spec_decode(d) {
                Ok(pool) => spec_extract(pool),
                Err(_) => seq![],
            }
        } else if has_suffix(name, properties_suffix()) {
            match properties_of(d) {
                Some(pairs) => spec_values(pairs),
                None => seq![],
            }
        } else {
            seq![]
        },
        None => seq![],
    }
}

pub open spec fn jar_strings_from(m: Seq<(Seq<u8>, Option<Seq<u8>>)>, i: int) -> Seq<Seq<u8>>
    decreases m.len() - i,
{
    if i < 0 || i >= m.len() {
        seq![]
    } else {
        entry_strings(m[i].0, m[i].1) + jar_strings_from(m, i + 1)
    }
}

/// Every string an archive walk yields, member by member in container order.
pub open spec fn jar_strings(m: Seq<(Seq<u8>, Option<Seq<u8>>)>) -> Seq<Seq<u8>> {
    jar_strings_from(m, 0)
}

/// Walk the members of a JAR: decode each `.class` member and parse each
/// `.properties` member, collect their strings in container order, and skip a
/// member that is unreadable or malformed without giving up the walk.
pub fn walk_jar(a: &mut JarArchive) -> (r: Vec<Vec<u8>>)
    ensures
        jar_model(*final(a)) == jar_model(*old(a)),
        seqs_model(r@) == jar_strings(jar_model(*old(a))),
{
    let n = jar_len(a);
    let class_suf = class_suffix_vec();
    let props_suf = properties_suffix_vec();
    let mut out: Vec<Vec<u8>> = Vec::new();
    let mut i: usize = 0;
    assert(seqs_model(out@) + jar_strings_from(jar_model(*a), 0) =~= jar_strings(jar_model(*a)));
    while i < n
        invariant
            jar_model(*a) == jar_model(*old(a)),
            n == jar_model(*a).len(),
            i <= n,
            class_suf@ == class_suffix(),
            props_suf@ == properties_suffix(),
            seqs_model(out@) + jar_strings_from(jar_model(*a), i as int) == jar_strings(
                jar_model(*a),
            ),
        decreases n - i,
    {
        let ghost m = jar_model(*a);
        let ghost prev = out@;
        let ghost contributed = entry_strings(m[i as int].0, m[i as int].1);
        let name = jar_entry_name(a, i);
        if ends_with_bytes(&name, &class_suf) {
            match jar_entry_bytes(a, i) {
                Ok(data) => match decode_class(&data) {
                    Ok(c) => {
                        let mut strs = extract_strings(&c);
                        out.append(&mut strs);
                        assert(seqs_model(out@) =~= seqs_model(prev) + contributed);
                    },
                    Err(_) => {
                        assert(contributed =~= Seq::<Seq<u8>>::empty());
                    },
                },
                Err(_) => {
                    assert(contributed =~= Seq::<Seq<u8>>::empty());
                },
            }
        } else if ends_with_bytes(&name, &props_suf) {
            match jar_entry_bytes(a, i) {
                Ok(data) => match process_properties_bytes(&data) {
                    Ok(mut vals) => {
                        out.append(&mut vals);
                        assert(seqs_model(out@) =~= seqs_model(prev) + contributed);
                    },
                    Err(_) => {
                        assert(contributed =~= Seq::<Seq<u8>>::empty());
                    },
                },
                Err(_) => {
                    assert(contributed =~= Seq::<Seq<u8>>::empty());
                },
            }
        } else {
            assert(contributed =~= Seq::<Seq<u8>>::empty());
        }
        proof {
            assert(seqs_model(out@) =~= seqs_model(prev) + contributed);
            assert(jar_strings_from(m, i as int) == contributed + jar_strings_from(m, i + 1));
            assert(seqs_model(out@) + jar_strings_from(m, i + 1) =~= (seqs_model(prev)
                + contributed) + jar_strings_from(m, i + 1));
            assert((seqs_model(prev) + contributed) + jar_strings_from(m, i + 1) =~= seqs_model(
                prev,
            ) + (contributed + jar_strings_from(m, i + 1)));
        }
        i += 1;
    }
    assert(seqs_model(out@) =~= seqs_model(out@) + jar_strings_from(jar_model(*a), n as int));
    out
}

} // verus!
