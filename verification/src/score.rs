use vstd::prelude::*;

use crate::bytes::seqs_model;
use crate::is_ascii_ws;

verus! {

/// The words of `s[i..]`, given the word in progress `cur` read just before
/// `i`: maximal runs of non-whitespace bytes, in order.
pub open spec fn words_acc(s: Seq<u8>, i: int, cur: Seq<u8>) -> Seq<Seq<u8>>
    decreases s.len() - i,
{
    if i < 0 || i >= s.len() {
        if cur.len() == 0 {
            seq![]
        } else {
            seq![cur]
        }
    } else if is_ascii_ws(s[i]) {
        if cur.len() == 0 {
            words_acc(s, i + 1, seq![])
        } else {
            seq![cur] + words_acc(s, i + 1, seq![])
        }
    } else {
        words_acc(s, i + 1, cur.push(s[i]))
    }
}

/// The words of `s`: its maximal runs of non-whitespace bytes, in order.
pub open spec fn spec_words(s: Seq<u8>) -> Seq<Seq<u8>> {
    words_acc(s, 0, seq![])
}

/// Split a string into its whitespace-separated words.
pub fn split_words(s: &Vec<u8>) -> (r: Vec<Vec<u8>>)
    ensures
        seqs_model(r@) == spec_words(s@),
{
    let slen = s.len();
    let mut out: Vec<Vec<u8>> = Vec::new();
    let mut cur: Vec<u8> = Vec::new();
    let mut i: usize = 0;
    assert(seqs_model(out@) + words_acc(s@, 0, cur@) =~= spec_words(s@));
    while i < slen
        invariant
            slen == s@.len(),
            i <= slen,
            seqs_model(out@) + words_acc(s@, i as int, cur@) == spec_words(s@),
        decreases slen - i,
    {
        let ghost prev_out = out@;
        let ghost prev_cur = cur@;
        let b = s[i];
        if crate::byte_is_ws(b) {
            if cur.len() > 0 {
                out.push(cur);
                cur = Vec::new();
                proof {
                    assert(words_acc(s@, i as int, prev_cur) == seq![prev_cur] + words_acc(
                        s@,
                        i + 1,
                        seq![],
                    ));
                    assert(cur@ =~= Seq::<u8>::empty());
                    assert(seqs_model(out@) =~= seqs_model(prev_out).push(prev_cur));
                    assert(seqs_model(out@) + words_acc(s@, i + 1, cur@) =~= seqs_model(prev_out)
                        + (seq![prev_cur] + words_acc(s@, i + 1, seq![])));
                }
            } else {
                proof {
                    assert(prev_cur =~= seq![]);
                    assert(words_acc(s@, i as int, prev_cur) == words_acc(s@, i + 1, seq![]));
                    assert(cur@ =~= seq![]);
                }
            }
        } else {
            cur.push(b);
            proof {
                assert(words_acc(s@, i as int, prev_cur) == words_acc(
                    s@,
                    i + 1,
                    prev_cur.push(s@[i as int]),
                ));
                assert(cur@ =~= prev_cur.push(s@[i as int]));
            }
        }
        i += 1;
    }
    if cur.len() > 0 {
        let ghost prev_out = out@;
        let ghost prev_cur = cur@;
        out.push(cur);
        assert(seqs_model(out@) =~= seqs_model(prev_out).push(prev_cur));
        assert(seqs_model(out@) =~= seqs_model(prev_out) + seq![prev_cur]);
    } else {
        assert(seqs_model(out@) =~= seqs_model(out@) + words_acc(s@, slen as int, cur@));
    }
    out
}

/// The sum of a sequence of scores.
pub open spec fn seq_sum(s: Seq<u32>) -> nat
    decreases s.len(),
{
    if s.len() == 0 {
        0nat
    } else {
        (seq_sum(s.drop_last()) + s.last()) as nat
    }
}

/// The mean of the word scores, rounded down; zero when there are no words,
/// the guarded answer for all-whitespace input.
pub open spec fn spec_average(s: Seq<u32>) -> nat {
    if s.len() == 0 {
        0nat
    } else {
        seq_sum(s) / s.len()
    }
}

/// The average of the scores of exactly two words is their mean.
pub proof fn lemma_average_two(a: u32, b: u32)
    ensures
        spec_average(seq![a, b]) == ((a + b) as nat) / 2,
{
    assert(seq![a, b].drop_last() =~= seq![a]);
    assert(seq![a].drop_last() =~= Seq::<u32>::empty());
    assert(seq_sum(Seq::<u32>::empty()) == 0);
    assert(seq_sum(seq![a]) == a);
    assert(seq_sum(seq![a, b]) == a + b);
}

/// Average the per-word scores of a string: their sum divided by their count,
/// rounded down, and zero when there are no words at all.
pub fn average_score(scores: &Vec<u32>) -> (r: u32)
    ensures
        r as nat == spec_average(scores@),
{
    let n = scores.len();
    if n == 0 {
        return 0;
    }
    let mut sum: u128 = 0;
    let mut i: usize = 0;
    while i < n
        invariant
            n == scores@.len(),
            i <= n,
            sum == seq_sum(scores@.subrange(0, i as int)),
            sum <= i * 0xffff_ffffu128,
        decreases n - i,
    {
        let ghost pre = scores@.subrange(0, i as int);
        assert(scores@.subrange(0, i + 1).drop_last() =~= pre);
        assert(scores@.subrange(0, i + 1).last() == scores@[i as int]);
        sum = sum + scores[i] as u128;
        i += 1;
    }
    assert(scores@.subrange(0, n as int) =~= scores@);
    assert(sum / (n as u128) <= 0xffff_ffffu128) by (nonlinear_arith)
        requires
            sum <= n * 0xffff_ffffu128,
            n > 0,
    ;
    (sum / (n as u128)) as u32
}

} // verus!
