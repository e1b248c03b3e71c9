//! Edit scripts: what the edit distances are the least cost of. A script
//! lists, from left to right, what becomes of each character on the way from
//! one string to another; its cost is the number of edits in it.

use vstd::prelude::*;
use crate::levenshtein::{lev, lev_prefix, osa, osa_prefix, subst_cost, swapped_tail};

verus! {

/// One step of an edit script.
pub enum Edit {
    /// A character that both strings have is passed over.
    Keep,
    /// A character of the first string is replaced by one of the second.
    Substitute,
    /// A character of the second string is put in.
    Insert,
    /// A character of the first string is taken out.
    Delete,
    /// Two neighbouring characters of the first string change places.
    Swap,
}

/// The number of edits in a script: every step but `Keep` is one.
pub open spec fn cost(script: Seq<Edit>) -> nat
    decreases script.len(),
{
    if script.len() == 0 {
        0
    } else {
        cost(script.drop_last()) + (if script.last() is Keep { 0nat } else { 1nat })
    }
}

/// True where `script` turns the first `i` characters of `a` into the first
/// `j` characters of `b`: its last step accounts for the last characters of
/// the two prefixes, and the steps before it for what stands before them.
/// `Swap` is accepted only where `swaps` is set.
pub open spec fn turns_into(
    script: Seq<Edit>,
    a: Seq<char>,
    b: Seq<char>,
    i: nat,
    j: nat,
    swaps: bool,
) -> bool
    decreases script.len(),
{
    if script.len() == 0 {
        i == 0 && j == 0
    } else {
        let before = script.drop_last();
        match script.last() {
            Edit::Keep => i >= 1 && j >= 1 && a[i - 1] == b[j - 1] && turns_into(
                before,
                a,
                b,
                (i - 1) as nat,
                (j - 1) as nat,
                swaps,
            ),
            Edit::Substitute => i >= 1 && j >= 1 && turns_into(
                before,
                a,
                b,
                (i - 1) as nat,
                (j - 1) as nat,
                swaps,
            ),
            Edit::Insert => j >= 1 && turns_into(before, a, b, i, (j - 1) as nat, swaps),
            Edit::Delete => i >= 1 && turns_into(before, a, b, (i - 1) as nat, j, swaps),
            Edit::Swap => swaps && swapped_tail(a, b, i, j) && turns_into(
                before,
                a,
                b,
                (i - 2) as nat,
                (j - 2) as nat,
                swaps,
            ),
        }
    }
}

/// One more deletion or insertion is always enough for one more character.
pub proof fn lemma_lev_step(a: Seq<char>, b: Seq<char>, i: nat, j: nat)
    ensures
        i >= 1 ==> lev_prefix(a, b, i, j) <= lev_prefix(a, b, (i - 1) as nat, j) + 1,
        j >= 1 ==> lev_prefix(a, b, i, j) <= lev_prefix(a, b, i, (j - 1) as nat) + 1,
        i >= 1 && j >= 1 ==> lev_prefix(a, b, i, j) <= lev_prefix(
            a,
            b,
            (i - 1) as nat,
            (j - 1) as nat,
        ) + subst_cost(a, b, i - 1, j - 1),
{
    if i >= 1 && j == 0 {
        assert(lev_prefix(a, b, (i - 1) as nat, j) == i - 1);
    }
    if j >= 1 && i == 0 {
        assert(lev_prefix(a, b, i, (j - 1) as nat) == j - 1);
    }
}

/// The same for the restricted Damerau-Levenshtein distance, with the swap.
pub proof fn lemma_osa_step(a: Seq<char>, b: Seq<char>, i: nat, j: nat)
    ensures
        i >= 1 ==> osa_prefix(a, b, i, j) <= osa_prefix(a, b, (i - 1) as nat, j) + 1,
        j >= 1 ==> osa_prefix(a, b, i, j) <= osa_prefix(a, b, i, (j - 1) as nat) + 1,
        i >= 1 && j >= 1 ==> osa_prefix(a, b, i, j) <= osa_prefix(
            a,
            b,
            (i - 1) as nat,
            (j - 1) as nat,
        ) + subst_cost(a, b, i - 1, j - 1),
        swapped_tail(a, b, i, j) ==> osa_prefix(a, b, i, j) <= osa_prefix(
            a,
            b,
            (i - 2) as nat,
            (j - 2) as nat,
        ) + 1,
{
    if i >= 1 && j == 0 {
        assert(osa_prefix(a, b, (i - 1) as nat, j) == i - 1);
    }
    if j >= 1 && i == 0 {
        assert(osa_prefix(a, b, i, (j - 1) as nat) == j - 1);
    }
}

/// No script without swaps is cheaper than the Levenshtein distance.
pub proof fn lemma_lev_is_lower_bound(script: Seq<Edit>, a: Seq<char>, b: Seq<char>, i: nat, j: nat)
    requires
        turns_into(script, a, b, i, j, false),
    ensures
        lev_prefix(a, b, i, j) <= cost(script),
    decreases script.len(),
{
    if script.len() > 0 {
        let before = script.drop_last();
        lemma_lev_step(a, b, i, j);
        match script.last() {
            Edit::Keep => {
                lemma_lev_is_lower_bound(before, a, b, (i - 1) as nat, (j - 1) as nat);
            },
            Edit::Substitute => {
                lemma_lev_is_lower_bound(before, a, b, (i - 1) as nat, (j - 1) as nat);
            },
            Edit::Insert => {
                lemma_lev_is_lower_bound(before, a, b, i, (j - 1) as nat);
            },
            Edit::Delete => {
                lemma_lev_is_lower_bound(before, a, b, (i - 1) as nat, j);
            },
            Edit::Swap => {},
        }
    }
}

/// No script is cheaper than the restricted Damerau-Levenshtein distance.
pub proof fn lemma_osa_is_lower_bound(script: Seq<Edit>, a: Seq<char>, b: Seq<char>, i: nat, j: nat)
    requires
        turns_into(script, a, b, i, j, true),
    ensures
        osa_prefix(a, b, i, j) <= cost(script),
    decreases script.len(),
{
    if script.len() > 0 {
        let before = script.drop_last();
        lemma_osa_step(a, b, i, j);
        match script.last() {
            Edit::Keep => {
                lemma_osa_is_lower_bound(before, a, b, (i - 1) as nat, (j - 1) as nat);
            },
            Edit::Substitute => {
                lemma_osa_is_lower_bound(before, a, b, (i - 1) as nat, (j - 1) as nat);
            },
            Edit::Insert => {
                lemma_osa_is_lower_bound(before, a, b, i, (j - 1) as nat);
            },
            Edit::Delete => {
                lemma_osa_is_lower_bound(before, a, b, (i - 1) as nat, j);
            },
            Edit::Swap => {
                lemma_osa_is_lower_bound(before, a, b, (i - 2) as nat, (j - 2) as nat);
            },
        }
    }
}

/// A cheapest script without swaps for the first `i` characters of `a` and
/// the first `j` of `b`.
pub open spec fn lev_script(a: Seq<char>, b: Seq<char>, i: nat, j: nat) -> Seq<Edit>
    decreases i + j,
{
    if i == 0 && j == 0 {
        Seq::empty()
    } else if i == 0 {
        lev_script(a, b, i, (j - 1) as nat).push(Edit::Insert)
    } else if j == 0 {
        lev_script(a, b, (i - 1) as nat, j).push(Edit::Delete)
    } else {
        let d = lev_prefix(a, b, i, j);
        if d == lev_prefix(a, b, (i - 1) as nat, (j - 1) as nat) + subst_cost(a, b, i - 1, j - 1) {
            lev_script(a, b, (i - 1) as nat, (j - 1) as nat).push(
                if a[i - 1] == b[j - 1] {
                    Edit::Keep
                } else {
                    Edit::Substitute
                },
            )
        } else if d == lev_prefix(a, b, (i - 1) as nat, j) + 1 {
            lev_script(a, b, (i - 1) as nat, j).push(Edit::Delete)
        } else {
            lev_script(a, b, i, (j - 1) as nat).push(Edit::Insert)
        }
    }
}

/// A cheapest script for the first `i` characters of `a` and the first `j`
/// of `b`, swaps allowed.
pub open spec fn osa_script(a: Seq<char>, b: Seq<char>, i: nat, j: nat) -> Seq<Edit>
    decreases i + j,
{
    if i == 0 && j == 0 {
        Seq::empty()
    } else if i == 0 {
        osa_script(a, b, i, (j - 1) as nat).push(Edit::Insert)
    } else if j == 0 {
        osa_script(a, b, (i - 1) as nat, j).push(Edit::Delete)
    } else {
        let d = osa_prefix(a, b, i, j);
        if d == osa_prefix(a, b, (i - 1) as nat, (j - 1) as nat) + subst_cost(a, b, i - 1, j - 1) {
            osa_script(a, b, (i - 1) as nat, (j - 1) as nat).push(
                if a[i - 1] == b[j - 1] {
                    Edit::Keep
                } else {
                    Edit::Substitute
                },
            )
        } else if d == osa_prefix(a, b, (i - 1) as nat, j) + 1 {
            osa_script(a, b, (i - 1) as nat, j).push(Edit::Delete)
        } else if d == osa_prefix(a, b, i, (j - 1) as nat) + 1 {
            osa_script(a, b, i, (j - 1) as nat).push(Edit::Insert)
        } else {
            osa_script(a, b, (i - 2) as nat, (j - 2) as nat).push(Edit::Swap)
        }
    }
}

/// A script with one more step at its end: what it costs, and what it was before.
pub proof fn lemma_push_step(script: Seq<Edit>, e: Edit)
    ensures
        script.push(e).drop_last() == script,
        script.push(e).last() == e,
        cost(script.push(e)) == cost(script) + (if e is Keep { 0nat } else { 1nat }),
{
    assert(script.push(e).drop_last() =~= script);
}

/// The script `lev_script` turns one prefix into the other, without swaps,
/// at the cost of the Levenshtein distance.
pub proof fn lemma_lev_is_reached(a: Seq<char>, b: Seq<char>, i: nat, j: nat)
    requires
        i <= a.len(),
        j <= b.len(),
    ensures
        turns_into(lev_script(a, b, i, j), a, b, i, j, false),
        cost(lev_script(a, b, i, j)) == lev_prefix(a, b, i, j),
    decreases i + j,
{
    if i == 0 && j == 0 {
    } else if i == 0 {
        lemma_lev_is_reached(a, b, i, (j - 1) as nat);
        lemma_push_step(lev_script(a, b, i, (j - 1) as nat), Edit::Insert);
    } else if j == 0 {
        lemma_lev_is_reached(a, b, (i - 1) as nat, j);
        lemma_push_step(lev_script(a, b, (i - 1) as nat, j), Edit::Delete);
    } else {
        let d = lev_prefix(a, b, i, j);
        lemma_lev_is_reached(a, b, (i - 1) as nat, (j - 1) as nat);
        lemma_lev_is_reached(a, b, (i - 1) as nat, j);
        lemma_lev_is_reached(a, b, i, (j - 1) as nat);
        lemma_push_step(lev_script(a, b, (i - 1) as nat, (j - 1) as nat), Edit::Keep);
        lemma_push_step(lev_script(a, b, (i - 1) as nat, (j - 1) as nat), Edit::Substitute);
        lemma_push_step(lev_script(a, b, (i - 1) as nat, j), Edit::Delete);
        lemma_push_step(lev_script(a, b, i, (j - 1) as nat), Edit::Insert);
    }
}

/// The script `osa_script` turns one prefix into the other at the cost of
/// the restricted Damerau-Levenshtein distance.
pub proof fn lemma_osa_is_reached(a: Seq<char>, b: Seq<char>, i: nat, j: nat)
    requires
        i <= a.len(),
        j <= b.len(),
    ensures
        turns_into(osa_script(a, b, i, j), a, b, i, j, true),
        cost(osa_script(a, b, i, j)) == osa_prefix(a, b, i, j),
    decreases i + j,
{
    if i == 0 && j == 0 {
    } else if i == 0 {
        lemma_osa_is_reached(a, b, i, (j - 1) as nat);
        lemma_push_step(osa_script(a, b, i, (j - 1) as nat), Edit::Insert);
    } else if j == 0 {
        lemma_osa_is_reached(a, b, (i - 1) as nat, j);
        lemma_push_step(osa_script(a, b, (i - 1) as nat, j), Edit::Delete);
    } else {
        lemma_osa_is_reached(a, b, (i - 1) as nat, (j - 1) as nat);
        lemma_osa_is_reached(a, b, (i - 1) as nat, j);
        lemma_osa_is_reached(a, b, i, (j - 1) as nat);
        lemma_push_step(osa_script(a, b, (i - 1) as nat, (j - 1) as nat), Edit::Keep);
        lemma_push_step(osa_script(a, b, (i - 1) as nat, (j - 1) as nat), Edit::Substitute);
        lemma_push_step(osa_script(a, b, (i - 1) as nat, j), Edit::Delete);
        lemma_push_step(osa_script(a, b, i, (j - 1) as nat), Edit::Insert);
        if i >= 2 && j >= 2 {
            lemma_osa_is_reached(a, b, (i - 2) as nat, (j - 2) as nat);
            lemma_push_step(osa_script(a, b, (i - 2) as nat, (j - 2) as nat), Edit::Swap);
        }
    }
}

/// The Levenshtein distance is the least number of insertions, deletions and
/// substitutions that turn `a` into `b`: some script without swaps has that
/// cost, and none has less.
pub proof fn lemma_lev_is_least(a: Seq<char>, b: Seq<char>)
    ensures
        exists|script: Seq<Edit>| #[trigger]
            turns_into(script, a, b, a.len(), b.len(), false) && cost(script) == lev(a, b),
        forall|script: Seq<Edit>| #[trigger]
            turns_into(script, a, b, a.len(), b.len(), false) ==> lev(a, b) <= cost(script),
{
    lemma_lev_is_reached(a, b, a.len(), b.len());
    assert forall|script: Seq<Edit>| #[trigger]
        turns_into(script, a, b, a.len(), b.len(), false) implies lev(a, b) <= cost(script) by {
        lemma_lev_is_lower_bound(script, a, b, a.len(), b.len());
    }
}

/// The restricted Damerau-Levenshtein distance is the least number of
/// insertions, deletions, substitutions and swaps of neighbours that turn `a`
/// into `b`, no character edited twice: some script has that cost, and none
/// has less.
pub proof fn lemma_osa_is_least(a: Seq<char>, b: Seq<char>)
    ensures
        exists|script: Seq<Edit>| #[trigger]
            turns_into(script, a, b, a.len(), b.len(), true) && cost(script) == osa(a, b),
        forall|script: Seq<Edit>| #[trigger]
            turns_into(script, a, b, a.len(), b.len(), true) ==> osa(a, b) <= cost(script),
{
    lemma_osa_is_reached(a, b, a.len(), b.len());
    assert forall|script: Seq<Edit>| #[trigger]
        turns_into(script, a, b, a.len(), b.len(), true) implies osa(a, b) <= cost(script) by {
        lemma_osa_is_lower_bound(script, a, b, a.len(), b.len());
    }
}

} // verus!
