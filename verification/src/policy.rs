use vstd::prelude::*;

verus! {

/// How an extracted string is emitted. Scores are carried in centibits: one
/// hundredth of a bit of entropy per symbol, so that two decimal places of the
/// rendered score are exact.
///
/// - `Plain` emits every string unchanged.
/// - `Annotated` prefixes every string with its rendered average score.
/// - `Thresholded(t)` emits the annotated form only when the score reaches `t`.
#[derive(Clone, Copy, Debug, PartialEq, Eq, Structural)]
pub enum Mode {
    Plain,
    Annotated,
    Thresholded(u32),
}

/// The decimal digits of `n`, most significant first.
pub open spec fn dec_digits(n: nat) -> Seq<u8>
    decreases n,
{
    if n < 10 {
        seq![(48 + n) as u8]
    } else {
        dec_digits(n / 10).push((48 + n % 10) as u8)
    }
}

/// `k` spaces (none for `k <= 0`).
pub open spec fn spaces(k: int) -> Seq<u8> {
    Seq::new(if k < 0 {
        0nat
    } else {
        k as nat
    }, |i: int| 32u8)
}

/// A centibit score rendered as a fixed-point decimal: the integer part, a
/// point, two fraction digits, padded on the left with spaces to at least six
/// characters. 310 centibits render as "  3.10".
pub open spec fn spec_format_score(c: nat) -> Seq<u8> {
    let digits = dec_digits(c / 100) + seq![
        46u8,
        (48 + (c % 100) / 10) as u8,
        (48 + c % 10) as u8,
    ];
    spaces(6 - digits.len()) + digits
}

/// An annotated output line: the rendered score, one space, the string itself.
pub open spec fn spec_annotated(c: nat, s: Seq<u8>) -> Seq<u8> {
    spec_format_score(c) + seq![32u8] + s
}

/// What the policy does with one string `s` of average score `c`: emit it
/// unchanged, emit it annotated, or emit it annotated only when `c` reaches
/// the threshold.
pub open spec fn spec_apply(mode: Mode, s: Seq<u8>, c: nat) -> Option<Seq<u8>> {
    match mode {
        Mode::Plain => Some(s),
        Mode::Annotated => Some(spec_annotated(c, s)),
        Mode::Thresholded(t) => if c >= t {
            Some(spec_annotated(c, s))
        } else {
            None
        },
    }
}

/// Whether the mode asks for a score at all; `Plain` never does.
pub open spec fn spec_needs_score(mode: Mode) -> bool {
    !(mode is Plain)
}

/// Thresholded emission is boundary-inclusive: a string is emitted exactly
/// when its average score reaches the threshold, and then in annotated form.
pub proof fn lemma_threshold_boundary(s: Seq<u8>, c: nat, t: u32)
    ensures
        spec_apply(Mode::Thresholded(t), s, c) is Some <==> c >= t,
        c >= t ==> spec_apply(Mode::Thresholded(t), s, c) == Some(spec_annotated(c, s)),
{
}

pub fn needs_score(mode: &Mode) -> (r: bool)
    ensures
        r == spec_needs_score(*mode),
{
    match mode {
        Mode::Plain => false,
        _ => true,
    }
}

/// Render a centibit score as its fixed-width decimal form.
pub fn format_score(c: u32) -> (r: Vec<u8>)
    ensures
        r@ == spec_format_score(c as nat),
{
    let whole = c / 100;
    let mut rev: Vec<u8> = Vec::new();
    let mut m = whole;
    loop
        invariant_except_break
            dec_digits(whole as nat) == dec_digits(m as nat) + rev@.reverse(),
        ensures
            dec_digits(whole as nat) == rev@.reverse(),
        decreases m,
    {
        let ghost prev = rev@;
        let d = (m % 10) as u8 + 48;
        rev.push(d);
        proof {
            assert(rev@.reverse() =~= seq![d] + prev.reverse());
        }
        m = m / 10;
        if m == 0 {
            proof {
                assert(dec_digits(whole as nat) =~= rev@.reverse());
            }
            break;
        }
        proof {
            assert(dec_digits(m as nat).push(d) =~= dec_digits(m as nat) + seq![d]);
            assert(dec_digits(m as nat) + (seq![d] + prev.reverse()) =~= (dec_digits(m as nat)
                + seq![d]) + prev.reverse());
        }
    }
    let mut digits: Vec<u8> = Vec::new();
    let rlen = rev.len();
    let mut k: usize = 0;
    while k < rlen
        invariant
            rlen == rev@.len(),
            k <= rlen,
            digits@ == rev@.reverse().subrange(0, k as int),
        decreases rlen - k,
    {
        digits.push(rev[rlen - 1 - k]);
        assert(digits@ =~= rev@.reverse().subrange(0, k + 1));
        k += 1;
    }
    assert(rev@.reverse().subrange(0, rlen as int) =~= rev@.reverse());
    let frac = c % 100;
    digits.push(46);
    digits.push((frac / 10) as u8 + 48);
    digits.push((frac % 10) as u8 + 48);
    assert(digits@ =~= dec_digits((c as nat) / 100) + seq![
        46u8,
        (48 + ((c as nat) % 100) / 10) as u8,
        (48 + (c as nat) % 10) as u8,
    ]);
    let mut out: Vec<u8> = Vec::new();
    let dlen = digits.len();
    let pad = if dlen < 6 {
        6 - dlen
    } else {
        0
    };
    let mut j: usize = 0;
    while j < pad
        invariant
            j <= pad,
            out@ == spaces(j as int),
        decreases pad - j,
    {
        out.push(32);
        assert(out@ =~= spaces(j + 1));
        j += 1;
    }
    let mut t: usize = 0;
    let ghost padded = out@;
    while t < dlen
        invariant
            dlen == digits@.len(),
            t <= dlen,
            out@ == padded + digits@.subrange(0, t as int),
        decreases dlen - t,
    {
        out.push(digits[t]);
        assert(out@ =~= padded + digits@.subrange(0, t + 1));
        t += 1;
    }
    assert(digits@.subrange(0, dlen as int) =~= digits@);
    assert(out@ =~= spec_format_score(c as nat));
    out
}

/// Apply the output policy to one string and its average score.
pub fn apply(mode: &Mode, s: &Vec<u8>, score: u32) -> (r: Option<Vec<u8>>)
    ensures
        match r {
            Some(line) => spec_apply(*mode, s@, score as nat) == Some(line@),
            None => spec_apply(*mode, s@, score as nat) is None,
        },
{
    match mode {
        Mode::Plain => {
            let line = crate::bytes::vec_subrange(s, 0, s.len());
            assert(line@ =~= s@);
            Some(line)
        },
        Mode::Annotated => Some(annotated_line(s, score)),
        Mode::Thresholded(t) => {
            if score >= *t {
                Some(annotated_line(s, score))
            } else {
                None
            }
        },
    }
}

/// Build the annotated form: rendered score, one space, the string.
pub fn annotated_line(s: &Vec<u8>, score: u32) -> (r: Vec<u8>)
    ensures
        r@ == spec_annotated(score as nat, s@),
{
    let mut out = format_score(score);
    out.push(32);
    let slen = s.len();
    let mut i: usize = 0;
    let ghost head = out@;
    while i < slen
        invariant
            slen == s@.len(),
            i <= slen,
            out@ == head + s@.subrange(0, i as int),
        decreases slen - i,
    {
        out.push(s[i]);
        assert(out@ =~= head + s@.subrange(0, i + 1));
        i += 1;
    }
    assert(s@.subrange(0, slen as int) =~= s@);
    assert(out@ =~= spec_annotated(score as nat, s@));
    out
}

} // verus!
