use vstd::prelude::*;

use crate::bytes::{
    class_suffix, class_suffix_vec, ends_with_bytes, has_suffix, jar_suffix, jar_suffix_vec,
    properties_suffix, properties_suffix_vec,
};

verus! {

/// Where the pipeline routes an input, judged by the trailing suffix of its
/// name alone: `.class` files are decoded, `.jar` containers walked,
/// `.properties` resources parsed, and everything else silently skipped.
#[derive(Clone, Copy, Debug, PartialEq, Eq, Structural)]
pub enum InputKind {
    Class,
    Jar,
    Properties,
    Other,
}

/// The routing rule, with the suffixes tried in the pipeline's order.
pub open spec fn spec_classify(name: Seq<u8>) -> InputKind {
    if has_suffix(name, class_suffix()) {
        InputKind::Class
    } else if has_suffix(name, jar_suffix()) {
        InputKind::Jar
    } else if has_suffix(name, properties_suffix()) {
        InputKind::Properties
    } else {
        InputKind::Other
    }
}

/// Classify an input by the suffix of its name.
pub fn classify_input(name: &Vec<u8>) -> (r: InputKind)
    ensures
        r == spec_classify(name@),
{
    let class_suf = class_suffix_vec();
    let jar_suf = jar_suffix_vec();
    let props_suf = properties_suffix_vec();
    if ends_with_bytes(name, &class_suf) {
        InputKind::Class
    } else if ends_with_bytes(name, &jar_suf) {
        InputKind::Jar
    } else if ends_with_bytes(name, &props_suf) {
        InputKind::Properties
    } else {
        InputKind::Other
    }
}

} // verus!
