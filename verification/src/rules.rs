//! Rule sets: which neighbor counts let a live cell survive and a dead cell
//! be born, and the lookup tables compiled from them.

use vstd::prelude::*;

verus! {

/// The largest number of neighbors a cell can have.
pub const MAX_NEIGHBORS: usize = 8;

/// The counts that occur in a list of rule thresholds, as a set.
pub open spec fn count_set(rules: Seq<usize>) -> Set<int> {
    Set::new(|c: int| exists|i: int| 0 <= i < rules.len() && rules[i] == c)
}

/// Every threshold in the set is a number of neighbors that a cell can have.
pub open spec fn counts_in_range(counts: Set<int>) -> bool {
    forall|c: int| counts.contains(c) ==> 0 <= c <= MAX_NEIGHBORS
}

/// Every threshold in the list is a number of neighbors that a cell can have.
pub open spec fn rules_in_range(rules: Seq<usize>) -> bool {
    forall|i: int| 0 <= i < rules.len() ==> rules[i] <= MAX_NEIGHBORS
}

/// The survive lookup table for a rule set: ten entries, where entry `c + 1`
/// tells whether `c` is a survive threshold and entry 0 is always false.
pub open spec fn survive_table_of(counts: Set<int>) -> Seq<bool> {
    Seq::new(10, |i: int| i >= 1 && counts.contains(i - 1))
}

/// The birth lookup table for a rule set: nine entries, where entry `c`
/// tells whether `c` is a birth threshold.
pub open spec fn born_table_of(counts: Set<int>) -> Seq<bool> {
    Seq::new(9, |i: int| counts.contains(i))
}

/// A list of thresholds is in range exactly when its set of counts is.
pub proof fn lemma_rules_in_range(rules: Seq<usize>)
    ensures
        rules_in_range(rules) <==> counts_in_range(count_set(rules)),
{
    if rules_in_range(rules) {
        assert forall|c: int| count_set(rules).contains(c) implies 0 <= c <= MAX_NEIGHBORS by {
            let i = choose|i: int| 0 <= i < rules.len() && rules[i] == c;
            assert(rules[i] <= MAX_NEIGHBORS);
        }
    }
    if counts_in_range(count_set(rules)) {
        assert forall|i: int| 0 <= i < rules.len() implies rules[i] <= MAX_NEIGHBORS by {
            assert(count_set(rules).contains(rules[i] as int));
        }
    }
}

/// Appending a threshold to a list adds it to the list's set of counts.
pub proof fn lemma_count_set_push(rules: Seq<usize>, count: usize)
    ensures
        count_set(rules.push(count)) == count_set(rules).insert(count as int),
{
    let longer = rules.push(count);
    assert forall|c: int| count_set(longer).contains(c) <==> count_set(rules).insert(
        count as int,
    ).contains(c) by {
        if count_set(longer).contains(c) {
            let i = choose|i: int| 0 <= i < longer.len() && longer[i] == c;
            if i < rules.len() {
                assert(rules[i] == c);
            }
        }
        if count_set(rules).contains(c) {
            let i = choose|i: int| 0 <= i < rules.len() && rules[i] == c;
            assert(longer[i] == c);
        }
        if c == count {
            assert(longer[rules.len() as int] == c);
        }
    }
    assert(count_set(longer) =~= count_set(rules).insert(count as int));
}

/// The test that keeps every threshold but `count`.
pub open spec fn other_than(count: usize) -> spec_fn(usize) -> bool {
    |c: usize| c != count
}

/// The list of thresholds after one of them has been switched on or off.
/// Switching `count` off removes every occurrence of it; switching it on
/// appends it unless it is already there.
pub open spec fn updated(rules: Seq<usize>, count: usize, alive: bool) -> Seq<usize> {
    if !alive {
        rules.filter(other_than(count))
    } else if rules.contains(count) {
        rules
    } else {
        rules.push(count)
    }
}

/// The set of thresholds after one of them has been switched on or off.
pub open spec fn toggled(counts: Set<int>, count: int, enabled: bool) -> Set<int> {
    if enabled {
        counts.insert(count)
    } else {
        counts.remove(count)
    }
}

/// Filtering a list that ends in `last` filters the front and then decides on `last`.
proof fn lemma_filter_push(front: Seq<usize>, last: usize, pred: spec_fn(usize) -> bool)
    ensures
        front.push(last).filter(pred) == if pred(last) {
            front.filter(pred).push(last)
        } else {
            front.filter(pred)
        },
{
    reveal(Seq::filter);
    assert(front.push(last).drop_last() =~= front);
}

/// A list without `count` holds exactly the other thresholds of the list.
proof fn lemma_filter_members(rules: Seq<usize>, count: usize, c: usize)
    ensures
        rules.filter(other_than(count)).contains(c) <==> (rules.contains(c) && c != count),
    decreases rules.len(),
{
    let pred = other_than(count);
    let out = rules.filter(pred);
    if rules.len() == 0 {
        reveal(Seq::filter);
    } else {
        let front = rules.drop_last();
        let last = rules.last();
        let kept = front.filter(pred);
        lemma_filter_members(front, count, c);
        assert(rules =~= front.push(last));
        lemma_filter_push(front, last, pred);
        if out.contains(c) {
            let j = choose|j: int| 0 <= j < out.len() && out[j] == c;
            if j < kept.len() {
                assert(kept[j] == c);
                assert(kept.contains(c));
                let k = choose|k: int| 0 <= k < front.len() && front[k] == c;
                assert(rules[k] == c);
            } else {
                assert(c == last);
                assert(rules[rules.len() - 1] == c);
            }
        }
        if rules.contains(c) && c != count {
            let k = choose|k: int| 0 <= k < rules.len() && rules[k] == c;
            if k < front.len() {
                assert(front[k] == c);
                assert(front.contains(c));
                let j = choose|j: int| 0 <= j < kept.len() && kept[j] == c;
                assert(out[j] == c);
            } else {
                assert(out[kept.len() as int] == c);
            }
        }
    }
}

/// Switching a threshold in a list switches it in the list's set of counts,
/// and leaves a list in range when the threshold is itself in range.
pub proof fn lemma_updated_counts(rules: Seq<usize>, count: usize, alive: bool)
    ensures
        count_set(updated(rules, count, alive)) == toggled(count_set(rules), count as int, alive),
        rules_in_range(rules) && count <= MAX_NEIGHBORS ==> rules_in_range(
            updated(rules, count, alive),
        ),
{
    let new_rules = updated(rules, count, alive);
    let expected = toggled(count_set(rules), count as int, alive);
    assert forall|c: int| count_set(new_rules).contains(c) <==> expected.contains(c) by {
        if count_set(new_rules).contains(c) {
            let i = choose|i: int| 0 <= i < new_rules.len() && new_rules[i] == c;
            assert(new_rules.contains(new_rules[i]));
            if alive {
                if !rules.contains(count) && i == rules.len() {
                } else {
                    assert(rules[i] == c);
                }
            } else {
                lemma_filter_members(rules, count, new_rules[i]);
                let k = choose|k: int| 0 <= k < rules.len() && rules[k] == new_rules[i];
                assert(rules[k] == c);
            }
        }
        if expected.contains(c) {
            if alive {
                if c == count {
                    if rules.contains(count) {
                        let k = choose|k: int| 0 <= k < rules.len() && rules[k] == count;
                        assert(new_rules[k] == c);
                    } else {
                        assert(new_rules[rules.len() as int] == c);
                    }
                } else {
                    let k = choose|k: int| 0 <= k < rules.len() && rules[k] == c;
                    assert(new_rules[k] == c);
                }
            } else {
                let k = choose|k: int| 0 <= k < rules.len() && rules[k] == c;
                assert(rules.contains(rules[k]));
                lemma_filter_members(rules, count, rules[k]);
                let j = choose|j: int| 0 <= j < new_rules.len() && new_rules[j] == rules[k];
                assert(new_rules[j] == c);
            }
        }
    }
    assert(count_set(new_rules) =~= expected);
    if rules_in_range(rules) && count <= MAX_NEIGHBORS {
        lemma_rules_in_range(rules);
        lemma_rules_in_range(new_rules);
    }
}

/// Whether `count` occurs in the list of thresholds.
pub fn has_rule(rules: &Vec<usize>, count: usize) -> (found: bool)
    ensures
        found == rules@.contains(count),
        found == count_set(rules@).contains(count as int),
{
    let mut i: usize = 0;
    while i < rules.len()
        invariant
            i <= rules.len(),
            forall|j: int| 0 <= j < i ==> rules@[j] != count,
        decreases rules.len() - i,
    {
        if rules[i] == count {
            return true;
        }
        i = i + 1;
    }
    false
}

/// The list of thresholds with `neighbor_count` switched on (`alive`) or off.
pub fn updated_rules(rules: &Vec<usize>, neighbor_count: usize, alive: bool) -> (new_rules: Vec<
    usize,
>)
    ensures
        new_rules@ == updated(rules@, neighbor_count, alive),
        count_set(new_rules@) == toggled(count_set(rules@), neighbor_count as int, alive),
        rules_in_range(rules@) && neighbor_count <= MAX_NEIGHBORS ==> rules_in_range(new_rules@),
{
    let mut new_rules: Vec<usize> = Vec::new();
    let mut i: usize = 0;
    while i < rules.len()
        invariant
            i <= rules.len(),
            alive ==> new_rules@ == rules@.take(i as int),
            !alive ==> new_rules@ == rules@.take(i as int).filter(other_than(neighbor_count)),
        decreases rules.len() - i,
    {
        let count = rules[i];
        proof {
            assert(rules@.take(i + 1) =~= rules@.take(i as int).push(count));
            lemma_filter_push(rules@.take(i as int), count, other_than(neighbor_count));
        }
        if alive || count != neighbor_count {
            new_rules.push(count);
        }
        i = i + 1;
    }
    assert(rules@.take(i as int) =~= rules@);
    if alive && !has_rule(rules, neighbor_count) {
        new_rules.push(neighbor_count);
    }
    proof {
        lemma_updated_counts(rules@, neighbor_count, alive);
    }
    new_rules
}

/// Conway's rules as sets: survival on two or three neighbors, birth on three.
pub proof fn lemma_conway_counts()
    ensures
        count_set(seq![2usize, 3usize]) == set![2int, 3int],
        count_set(seq![3usize]) == set![3int],
        rules_in_range(seq![2usize, 3usize]),
        rules_in_range(seq![3usize]),
{
    let survives = seq![2usize, 3usize];
    let borns = seq![3usize];
    assert(survives[0] == 2 && survives[1] == 3 && borns[0] == 3);
    assert(count_set(survives) =~= set![2int, 3int]);
    assert(count_set(borns) =~= set![3int]);
}

/// Conway's survive rule: a live cell with two or three live neighbors lives on.
pub fn conway_survives() -> (rules: Vec<usize>)
    ensures
        rules@ == seq![2usize, 3usize],
        count_set(rules@) == set![2int, 3int],
        rules_in_range(rules@),
{
    proof {
        lemma_conway_counts();
    }
    vec![2, 3]
}

/// Conway's birth rule: a dead cell with exactly three live neighbors comes alive.
pub fn conway_borns() -> (rules: Vec<usize>)
    ensures
        rules@ == seq![3usize],
        count_set(rules@) == set![3int],
        rules_in_range(rules@),
{
    proof {
        lemma_conway_counts();
    }
    vec![3]
}

} // verus!
