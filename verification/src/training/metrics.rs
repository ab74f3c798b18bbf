use vstd::prelude::*;

verus! {

/// Rows `i < n` predicted as `class_id` and truly of `class_id`.
pub open spec fn count_tp(pred: Seq<usize>, truth: Seq<usize>, class_id: usize, n: int) -> nat
    decreases n,
{
    if n <= 0 {
        0
    } else {
        count_tp(pred, truth, class_id, n - 1) + if pred[n - 1] == class_id && truth[n - 1]
            == class_id {
            1nat
        } else {
            0nat
        }
    }
}

/// Rows `i < n` predicted as `class_id` but of another class.
pub open spec fn count_fp(pred: Seq<usize>, truth: Seq<usize>, class_id: usize, n: int) -> nat
    decreases n,
{
    if n <= 0 {
        0
    } else {
        count_fp(pred, truth, class_id, n - 1) + if pred[n - 1] == class_id && truth[n - 1]
            != class_id {
            1nat
        } else {
            0nat
        }
    }
}

/// Rows `i < n` of class `class_id` predicted as another class.
pub open spec fn count_fn(pred: Seq<usize>, truth: Seq<usize>, class_id: usize, n: int) -> nat
    decreases n,
{
    if n <= 0 {
        0
    } else {
        count_fn(pred, truth, class_id, n - 1) + if pred[n - 1] != class_id && truth[n - 1]
            == class_id {
            1nat
        } else {
            0nat
        }
    }
}

/// Rows `i < n` whose prediction is right.
pub open spec fn count_correct(pred: Seq<usize>, truth: Seq<usize>, n: int) -> nat
    decreases n,
{
    if n <= 0 {
        0
    } else {
        count_correct(pred, truth, n - 1) + if pred[n - 1] == truth[n - 1] {
            1nat
        } else {
            0nat
        }
    }
}

/// Rows `i < n` of `labels` equal to `value`.
pub open spec fn count_value(labels: Seq<usize>, value: usize, n: int) -> nat
    decreases n,
{
    if n <= 0 {
        0
    } else {
        count_value(labels, value, n - 1) + if labels[n - 1] == value {
            1nat
        } else {
            0nat
        }
    }
}

/// Number of rows that predictions and labels are compared on (`zip`).
pub open spec fn paired_len(pred: Seq<usize>, truth: Seq<usize>) -> int {
    if pred.len() <= truth.len() {
        pred.len() as int
    } else {
        truth.len() as int
    }
}

pub open spec fn strictly_increasing(s: Seq<usize>) -> bool {
    forall|i: int, j: int| 0 <= i < j < s.len() ==> s[i] < s[j]
}

proof fn lemma_counts_bounded(pred: Seq<usize>, truth: Seq<usize>, class_id: usize, n: int)
    requires
        0 <= n,
    ensures
        count_tp(pred, truth, class_id, n) + count_fp(pred, truth, class_id, n) + count_fn(
            pred,
            truth,
            class_id,
            n,
        ) <= n,
        count_correct(pred, truth, n) <= n,
    decreases n,
{
    if n > 0 {
        lemma_counts_bounded(pred, truth, class_id, n - 1);
    }
}

/// True positives, false positives and false negatives of `class_id`, over
/// the rows where both label lists have an entry.
pub fn class_outcomes(pred_labels: &[usize], true_labels: &[usize], class_id: usize) -> (r: (
    usize,
    usize,
    usize,
))
    ensures
        r.0 == count_tp(pred_labels@, true_labels@, class_id, paired_len(pred_labels@, true_labels@)),
        r.1 == count_fp(pred_labels@, true_labels@, class_id, paired_len(pred_labels@, true_labels@)),
        r.2 == count_fn(pred_labels@, true_labels@, class_id, paired_len(pred_labels@, true_labels@)),
{
    let n = if pred_labels.len() <= true_labels.len() {
        pred_labels.len()
    } else {
        true_labels.len()
    };
    let (mut tp, mut fp, mut fn_) = (0usize, 0usize, 0usize);
    let mut i: usize = 0;
    while i < n
        invariant
            i <= n,
            n == paired_len(pred_labels@, true_labels@),
            tp == count_tp(pred_labels@, true_labels@, class_id, i as int),
            fp == count_fp(pred_labels@, true_labels@, class_id, i as int),
            fn_ == count_fn(pred_labels@, true_labels@, class_id, i as int),
        decreases n - i,
    {
        proof {
            lemma_counts_bounded(pred_labels@, true_labels@, class_id, i as int);
        }
        let pred = pred_labels[i];
        let truth = true_labels[i];
        if pred == class_id && truth == class_id {
            tp = tp + 1;
        } else if pred == class_id {
            fp = fp + 1;
        } else if truth == class_id {
            fn_ = fn_ + 1;
        }
        i = i + 1;
    }
    (tp, fp, fn_)
}

/// Number of rows whose predicted label equals the true label.
pub fn correct_count(pred_labels: &[usize], true_labels: &[usize]) -> (r: usize)
    ensures
        r == count_correct(pred_labels@, true_labels@, paired_len(pred_labels@, true_labels@)),
{
    let n = if pred_labels.len() <= true_labels.len() {
        pred_labels.len()
    } else {
        true_labels.len()
    };
    let mut correct: usize = 0;
    let mut i: usize = 0;
    while i < n
        invariant
            i <= n,
            n == paired_len(pred_labels@, true_labels@),
            correct == count_correct(pred_labels@, true_labels@, i as int),
        decreases n - i,
    {
        proof {
            lemma_counts_bounded(pred_labels@, true_labels@, 0, i as int);
        }
        if pred_labels[i] == true_labels[i] {
            correct = correct + 1;
        }
        i = i + 1;
    }
    correct
}

fn insert_sorted(classes: &mut Vec<usize>, value: usize)
    requires
        strictly_increasing(old(classes)@),
    ensures
        strictly_increasing(final(classes)@),
        final(classes)@.to_set() == old(classes)@.to_set().insert(value),
{
    let mut pos: usize = 0;
    while pos < classes.len() && classes[pos] < value
        invariant
            pos <= classes@.len(),
            forall|k: int| 0 <= k < pos ==> classes@[k] < value,
        decreases classes@.len() - pos,
    {
        pos = pos + 1;
    }
    if pos < classes.len() && classes[pos] == value {
        assert(classes@.to_set().insert(value) =~= classes@.to_set());
        return;
    }
    let ghost before = classes@;
    classes.insert(pos, value);
    assert(classes@ == before.insert(pos as int, value));
    assert forall|i: int, j: int| 0 <= i < j < classes@.len() implies classes@[i] < classes@[j] by {
        if j < pos {
        } else if j == pos {
        } else if i < pos {
        } else if i == pos {
            assert(before[j - 1] > value || before[j - 1] == value || before[j - 1] < value);
            if j - 1 > pos {
                assert(before[pos as int] < before[j - 1]);
            }
        } else {
        }
    }
    assert forall|x: usize| classes@.to_set().contains(x) <==> before.to_set().insert(value).contains(
        x,
    ) by {
        if classes@.to_set().contains(x) {
            let k = choose|k: int| 0 <= k < classes@.len() && classes@[k] == x;
            if k < pos {
                assert(before[k] == x);
            } else if k > pos {
                assert(before[k - 1] == x);
            }
        }
        if before.to_set().contains(x) {
            let k = choose|k: int| 0 <= k < before.len() && before[k] == x;
            if k < pos {
                assert(classes@[k] == x);
            } else {
                assert(classes@[k + 1] == x);
            }
        }
        if x == value {
            assert(classes@[pos as int] == x);
        }
    }
    assert(classes@.to_set() =~= before.to_set().insert(value));
}

fn insert_all(classes: &mut Vec<usize>, labels: &[usize])
    requires
        strictly_increasing(old(classes)@),
    ensures
        strictly_increasing(final(classes)@),
        final(classes)@.to_set() == old(classes)@.to_set() + labels@.to_set(),
{
    let ghost start = classes@.to_set();
    let mut i: usize = 0;
    while i < labels.len()
        invariant
            i <= labels@.len(),
            strictly_increasing(classes@),
            classes@.to_set() == start + labels@.subrange(0, i as int).to_set(),
        decreases labels@.len() - i,
    {
        insert_sorted(classes, labels[i]);
        assert(labels@.subrange(0, i + 1) =~= labels@.subrange(0, i as int).push(labels@[i as int]));
        proof {
            labels@.subrange(0, i as int).lemma_push_to_set_commute(labels@[i as int]);
        }
        assert(labels@.subrange(0, i + 1).to_set() =~= labels@.subrange(0, i as int).to_set().insert(
            labels@[i as int],
        ));
        assert(classes@.to_set() =~= start + labels@.subrange(0, i + 1).to_set());
        i = i + 1;
    }
    assert(labels@.subrange(0, labels@.len() as int) =~= labels@);
}

/// Every label that occurs in either list, once each, in increasing order.
pub fn class_ids(pred_labels: &[usize], true_labels: &[usize]) -> (r: Vec<usize>)
    ensures
        strictly_increasing(r@),
        r@.to_set() == pred_labels@.to_set() + true_labels@.to_set(),
{
    let mut classes: Vec<usize> = Vec::new();
    assert(classes@.to_set() =~= Set::<usize>::empty());
    insert_all(&mut classes, pred_labels);
    insert_all(&mut classes, true_labels);
    assert(classes@.to_set() =~= pred_labels@.to_set() + true_labels@.to_set());
    classes
}

/// Per class, true positives plus false negatives are the rows of that class
/// (its support), and true plus false positives are the rows predicted as
/// that class.
pub proof fn lemma_outcomes_partition_rows(
    pred: Seq<usize>,
    truth: Seq<usize>,
    class_id: usize,
    n: int,
)
    requires
        0 <= n <= pred.len(),
        n <= truth.len(),
    ensures
        count_tp(pred, truth, class_id, n) + count_fn(pred, truth, class_id, n) == count_value(
            truth,
            class_id,
            n,
        ),
        count_tp(pred, truth, class_id, n) + count_fp(pred, truth, class_id, n) == count_value(
            pred,
            class_id,
            n,
        ),
    decreases n,
{
    if n > 0 {
        lemma_outcomes_partition_rows(pred, truth, class_id, n - 1);
    }
}

} // verus!
