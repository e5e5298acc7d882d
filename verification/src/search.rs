use vstd::prelude::*;

verus! {

/// The smallest index `i < len` at which `pred` holds, or `len` where it holds nowhere.
pub open spec fn first_index(len: nat, pred: spec_fn(int) -> bool) -> int
    decreases len,
{
    if len == 0 {
        0
    } else {
        let f = first_index((len - 1) as nat, pred);
        if f < len - 1 {
            f
        } else if pred(len - 1) {
            len - 1
        } else {
            len as int
        }
    }
}

/// The largest index `i < len` at which `pred` holds, or `-1` where it holds nowhere.
pub open spec fn last_index(len: nat, pred: spec_fn(int) -> bool) -> int
    decreases len,
{
    if len == 0 {
        -1
    } else if pred(len - 1) {
        len - 1
    } else {
        last_index((len - 1) as nat, pred)
    }
}

pub proof fn lemma_first_index_props(len: nat, pred: spec_fn(int) -> bool)
    ensures
        0 <= first_index(len, pred) <= len,
        forall|j: int| 0 <= j < first_index(len, pred) ==> !#[trigger] pred(j),
        first_index(len, pred) < len ==> pred(first_index(len, pred)),
    decreases len,
{
    if len > 0 {
        lemma_first_index_props((len - 1) as nat, pred);
    }
}

pub proof fn lemma_first_index(len: nat, pred: spec_fn(int) -> bool, i: int)
    requires
        0 <= i <= len,
        forall|j: int| 0 <= j < i ==> !#[trigger] pred(j),
        i == len || pred(i),
    ensures
        first_index(len, pred) == i,
{
    lemma_first_index_props(len, pred);
    let f = first_index(len, pred);
    if f < i {
        assert(pred(f));
    } else if i < f {
        assert(!pred(i));
    }
}

pub proof fn lemma_last_index_props(len: nat, pred: spec_fn(int) -> bool)
    ensures
        -1 <= last_index(len, pred) < len,
        forall|j: int| last_index(len, pred) < j < len ==> !#[trigger] pred(j),
        last_index(len, pred) >= 0 ==> pred(last_index(len, pred)),
    decreases len,
{
    if len > 0 {
        lemma_last_index_props((len - 1) as nat, pred);
    }
}

pub proof fn lemma_last_index(len: nat, pred: spec_fn(int) -> bool, i: int)
    requires
        -1 <= i < len,
        forall|j: int| i < j < len ==> !#[trigger] pred(j),
        i == -1 || pred(i),
    ensures
        last_index(len, pred) == i,
{
    lemma_last_index_props(len, pred);
    let f = last_index(len, pred);
    if f > i {
        assert(pred(f));
    } else if i > f {
        assert(!pred(i));
    }
}

} // verus!
