//! Evaluation counts: per-pixel confusion between a predicted foreground
//! mask and a ground-truth mask.

use vstd::prelude::*;

verus! {

/// A mask value marks foreground when it is above 128.
pub open spec fn is_foreground(v: u8) -> bool {
    v > 128
}

/// `(true positives, false positives, false negatives, true negatives)`
/// over the first `n` pixel pairs.
pub open spec fn confusion_upto(p: Seq<u8>, g: Seq<u8>, n: nat) -> (nat, nat, nat, nat)
    decreases n,
{
    if n == 0 {
        (0, 0, 0, 0)
    } else {
        let (tp, fp, fneg, tn) = confusion_upto(p, g, (n - 1) as nat);
        let pf = is_foreground(p[n - 1]);
        let gf = is_foreground(g[n - 1]);
        if pf && gf {
            (tp + 1, fp, fneg, tn)
        } else if pf && !gf {
            (tp, fp + 1, fneg, tn)
        } else if !pf && gf {
            (tp, fp, fneg + 1, tn)
        } else {
            (tp, fp, fneg, tn + 1)
        }
    }
}

/// Number of pixel pairs compared: pairs are formed up to the shorter mask.
pub open spec fn paired_len(p: Seq<u8>, g: Seq<u8>) -> nat {
    if p.len() <= g.len() {
        p.len()
    } else {
        g.len()
    }
}

/// The confusion counts of two masks.
pub open spec fn confusion(p: Seq<u8>, g: Seq<u8>) -> (nat, nat, nat, nat) {
    confusion_upto(p, g, paired_len(p, g))
}

/// Per-pixel background subtraction evaluation: compares a predicted
/// foreground mask with a ground-truth mask and returns
/// `(true_positives, false_positives, false_negatives, true_negatives)`.
pub fn pixel_confusion(predicted: &[u8], ground_truth: &[u8]) -> (r: (u64, u64, u64, u64))
    ensures
        (r.0 as nat, r.1 as nat, r.2 as nat, r.3 as nat) == confusion(predicted@, ground_truth@),
{
    let n: usize = if predicted.len() <= ground_truth.len() {
        predicted.len()
    } else {
        ground_truth.len()
    };
    let mut tp: u64 = 0;
    let mut fp: u64 = 0;
    let mut fneg: u64 = 0;
    let mut tn: u64 = 0;
    let mut i: usize = 0;
    while i < n
        invariant
            n == paired_len(predicted@, ground_truth@),
            n <= predicted@.len(),
            n <= ground_truth@.len(),
            i <= n,
            (tp as nat, fp as nat, fneg as nat, tn as nat) == confusion_upto(
                predicted@,
                ground_truth@,
                i as nat,
            ),
            tp + fp + fneg + tn == i,
        decreases n - i,
    {
        let pred_fg = predicted[i] > 128;
        let gt_fg = ground_truth[i] > 128;
        if pred_fg && gt_fg {
            tp = tp + 1;
        } else if pred_fg && !gt_fg {
            fp = fp + 1;
        } else if !pred_fg && gt_fg {
            fneg = fneg + 1;
        } else {
            tn = tn + 1;
        }
        i = i + 1;
    }
    (tp, fp, fneg, tn)
}

/// Law: every compared pixel pair falls in exactly one of the four counts.
pub proof fn lemma_confusion_total(p: Seq<u8>, g: Seq<u8>)
    ensures
        ({
            let (tp, fp, fneg, tn) = confusion(p, g);
            tp + fp + fneg + tn == paired_len(p, g)
        }),
{
    lemma_confusion_upto_total(p, g, paired_len(p, g));
}

proof fn lemma_confusion_upto_total(p: Seq<u8>, g: Seq<u8>, n: nat)
    ensures
        ({
            let (tp, fp, fneg, tn) = confusion_upto(p, g, n);
            tp + fp + fneg + tn == n
        }),
    decreases n,
{
    if n > 0 {
        lemma_confusion_upto_total(p, g, (n - 1) as nat);
    }
}

/// Law: a prediction identical to the ground truth has no false positives
/// and no false negatives.
pub proof fn lemma_confusion_perfect_match(p: Seq<u8>)
    ensures
        confusion(p, p).1 == 0,
        confusion(p, p).2 == 0,
{
    lemma_confusion_upto_perfect(p, p.len());
}

proof fn lemma_confusion_upto_perfect(p: Seq<u8>, n: nat)
    ensures
        confusion_upto(p, p, n).1 == 0,
        confusion_upto(p, p, n).2 == 0,
    decreases n,
{
    if n > 0 {
        lemma_confusion_upto_perfect(p, (n - 1) as nat);
    }
}

/// Number of positions `i < n` at which the predicted value is above 128
/// exactly when `pred_fg` holds and the ground-truth value is above 128
/// exactly when `truth_fg` holds.
pub open spec fn pairs_where(p: Seq<u8>, g: Seq<u8>, n: nat, pred_fg: bool, truth_fg: bool) -> nat {
    Seq::new(n, |i: int| i).filter(|i: int| (p[i] > 128) == pred_fg && (g[i] > 128) == truth_fg).len()
}

proof fn lemma_pairs_where_step(p: Seq<u8>, g: Seq<u8>, n: nat, pred_fg: bool, truth_fg: bool)
    requires
        n > 0,
    ensures
        pairs_where(p, g, n, pred_fg, truth_fg) == pairs_where(p, g, (n - 1) as nat, pred_fg, truth_fg)
            + (if (p[n - 1] > 128) == pred_fg && (g[n - 1] > 128) == truth_fg {
            1int
        } else {
            0int
        }),
{
    let f = |i: int| i;
    let pr = |i: int| (p[i] > 128) == pred_fg && (g[i] > 128) == truth_fg;
    assert(Seq::new(n, f) =~= Seq::new((n - 1) as nat, f).push(n - 1));
    Seq::new((n - 1) as nat, f).lemma_filter_len_push(pr, n - 1);
}

proof fn lemma_confusion_upto_counts(p: Seq<u8>, g: Seq<u8>, n: nat)
    ensures
        confusion_upto(p, g, n) == (
            pairs_where(p, g, n, true, true),
            pairs_where(p, g, n, true, false),
            pairs_where(p, g, n, false, true),
            pairs_where(p, g, n, false, false),
        ),
    decreases n,
{
    if n == 0 {
        assert(Seq::new(0, |i: int| i).filter(|i: int| (p[i] > 128) == true && (g[i] > 128) == true)
            =~= Seq::<int>::empty()) by {
            reveal(Seq::filter);
        }
        assert(Seq::new(0, |i: int| i).filter(|i: int| (p[i] > 128) == true && (g[i] > 128) == false)
            =~= Seq::<int>::empty()) by {
            reveal(Seq::filter);
        }
        assert(Seq::new(0, |i: int| i).filter(|i: int| (p[i] > 128) == false && (g[i] > 128) == true)
            =~= Seq::<int>::empty()) by {
            reveal(Seq::filter);
        }
        assert(Seq::new(0, |i: int| i).filter(|i: int| (p[i] > 128) == false && (g[i] > 128) == false)
            =~= Seq::<int>::empty()) by {
            reveal(Seq::filter);
        }
    } else {
        lemma_confusion_upto_counts(p, g, (n - 1) as nat);
        lemma_pairs_where_step(p, g, n, true, true);
        lemma_pairs_where_step(p, g, n, true, false);
        lemma_pairs_where_step(p, g, n, false, true);
        lemma_pairs_where_step(p, g, n, false, false);
    }
}

/// Law: over the pixel pairs compared (up to the shorter mask), the counts
/// are, in order, the pairs where both values are above 128 (true
/// positives), where only the prediction is (false positives), where only
/// the ground truth is (false negatives), and where neither is (true
/// negatives).
pub proof fn lemma_confusion_counts(p: Seq<u8>, g: Seq<u8>)
    ensures
        ({
            let n = if p.len() <= g.len() { p.len() } else { g.len() };
            confusion(p, g) == (
                pairs_where(p, g, n, true, true),
                pairs_where(p, g, n, true, false),
                pairs_where(p, g, n, false, true),
                pairs_where(p, g, n, false, false),
            )
        }),
{
    lemma_confusion_upto_counts(p, g, paired_len(p, g));
}

} // verus!
