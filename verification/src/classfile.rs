use vstd::prelude::*;

use crate::bytes::seqs_model;

verus! {

/// One slot of a class file's constant pool, kept only as far as string
/// extraction cares: `Utf8` text, a `StringRef` into the pool, or any other
/// tag held as an opaque slot.
pub enum CpEntry {
    Utf8(Vec<u8>),
    StringRef(u16),
    Opaque,
}

/// The mathematical shape of a pool slot: the same three variants over `Seq<u8>`.
pub enum CpEntryModel {
    Utf8(Seq<u8>),
    StringRef(u16),
    Opaque,
}

impl CpEntry {
    pub open spec fn model(&self) -> CpEntryModel {
        match self {
            CpEntry::Utf8(b) => CpEntryModel::Utf8(b@),
            CpEntry::StringRef(i) => CpEntryModel::StringRef(*i),
            CpEntry::Opaque => CpEntryModel::Opaque,
        }
    }
}

/// The pool as a sequence of slot models; the slot the JVM calls `i` lives at
/// position `i - 1`.
pub open spec fn pool_model(p: Seq<CpEntry>) -> Seq<CpEntryModel> {
    Seq::new(p.len(), |i: int| p[i].model())
}

/// A decoded class file: the magic number and its constant pool.
pub struct ClassFile {
    pub magic: u32,
    pub constant_pool: Vec<CpEntry>,
}

impl ClassFile {
    pub open spec fn pool(&self) -> Seq<CpEntryModel> {
        pool_model(self.constant_pool@)
    }
}

/// The placeholder a dangling or mistyped `StringRef` resolves to: "?".
pub open spec fn placeholder() -> Seq<u8> {
    seq![63u8]
}

/// Resolution of a 1-based pool index: the text of `pool[i - 1]` when that
/// slot holds `Utf8` text, and the placeholder "?" when `i` is out of range or
/// the slot holds anything else.
pub open spec fn spec_resolve(pool: Seq<CpEntryModel>, index: u16) -> Seq<u8> {
    if 1 <= index && index <= pool.len() && pool[index - 1] is Utf8 {
        pool[index - 1]->Utf8_0
    } else {
        placeholder()
    }
}

/// Resolving index `i` yields exactly the `Utf8` text at slot `i - 1` when
/// that slot exists and holds text; every other resolution — an index out of
/// range or a slot of another variant — yields the placeholder "?".
pub proof fn lemma_resolution(pool: Seq<CpEntryModel>, i: u16)
    ensures
        (1 <= i <= pool.len() && pool[i - 1] is Utf8) ==> spec_resolve(pool, i) == pool[i
            - 1]->Utf8_0,
        !(1 <= i <= pool.len() && pool[i - 1] is Utf8) ==> spec_resolve(pool, i) == placeholder(),
{
}

/// Fetch pool slot `i`, correcting for the JVM's 1-based indexing. Every read
/// of the pool goes through this accessor.
pub fn get_const(class: &ClassFile, i: usize) -> (r: &CpEntry)
    requires
        1 <= i <= class.constant_pool@.len(),
    ensures
        r.model() == class.pool()[i - 1],
{
    &class.constant_pool[i - 1]
}

/// Resolve a `StringRef` index to its text, or to the "?" placeholder when the
/// index is out of range or its target is not `Utf8` text.
pub fn get_string(class: &ClassFile, index: u16) -> (r: Vec<u8>)
    ensures
        r@ == spec_resolve(class.pool(), index),
{
    let i = index as usize;
    if 1 <= i && i <= class.constant_pool.len() {
        match get_const(class, i) {
            CpEntry::Utf8(b) => {
                let r = crate::bytes::vec_subrange(b, 0, b.len());
                assert(r@ =~= b@);
                r
            },
            _ => {
                let mut r: Vec<u8> = Vec::new();
                r.push(63);
                assert(r@ =~= placeholder());
                r
            },
        }
    } else {
        let mut r: Vec<u8> = Vec::new();
        r.push(63);
        assert(r@ =~= placeholder());
        r
    }
}

/// The strings the pool yields from position `k` on: one per `StringRef` slot,
/// in pool order, each resolved against the whole pool.
pub open spec fn spec_extract_from(pool: Seq<CpEntryModel>, k: int) -> Seq<Seq<u8>>
    decreases pool.len() - k,
{
    if k < 0 || k >= pool.len() {
        seq![]
    } else if pool[k] is StringRef {
        seq![spec_resolve(pool, pool[k]->StringRef_0)] + spec_extract_from(pool, k + 1)
    } else {
        spec_extract_from(pool, k + 1)
    }
}

/// Every string a decoded class yields: one per `StringRef` slot, in pool order.
pub open spec fn spec_extract(pool: Seq<CpEntryModel>) -> Seq<Seq<u8>> {
    spec_extract_from(pool, 0)
}

/// Walk the pool and resolve each `StringRef`, in order.
pub fn extract_strings(class: &ClassFile) -> (r: Vec<Vec<u8>>)
    ensures
        seqs_model(r@) == spec_extract(class.pool()),
{
    let mut out: Vec<Vec<u8>> = Vec::new();
    let mut k: usize = 0;
    assert(seqs_model(out@) + spec_extract_from(class.pool(), 0) =~= spec_extract(class.pool()));
    while k < class.constant_pool.len()
        invariant
            k <= class.constant_pool@.len(),
            seqs_model(out@) + spec_extract_from(class.pool(), k as int) == spec_extract(
                class.pool(),
            ),
        decreases class.constant_pool@.len() - k,
    {
        let ghost prev = out@;
        match get_const(class, k + 1) {
            CpEntry::StringRef(idx) => {
                let s = get_string(class, *idx);
                out.push(s);
                assert(seqs_model(out@) =~= seqs_model(prev).push(
                    spec_resolve(class.pool(), class.pool()[k as int]->StringRef_0),
                ));
                assert(seqs_model(out@) + spec_extract_from(class.pool(), k + 1) =~= seqs_model(
                    prev,
                ) + spec_extract_from(class.pool(), k as int));
            },
            _ => {
                assert(spec_extract_from(class.pool(), k as int) == spec_extract_from(
                    class.pool(),
                    k + 1,
                ));
            },
        }
        k += 1;
    }
    assert(seqs_model(out@) =~= seqs_model(out@) + spec_extract_from(
        class.pool(),
        class.constant_pool@.len() as int,
    ));
    out
}

} // verus!
