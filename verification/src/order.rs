//! The ordering corrector: the render endpoint is known, empirically, to fail
//! for one topic when one specific exercise identifier stands anywhere but
//! last in the submitted ordering. While collecting a topic's exercises, any
//! exercise whose identifier exactly equals that literal is moved to the end;
//! all other exercises keep their relative document order. Abstractly this is
//! a stable partition: non-matches first, matches appended after.

use vstd::prelude::*;
use vstd::string::*;
use vstd::seq_lib::*;
use crate::model::{Exercise, ExerciseView};

verus! {

/// The one identifier the workaround targets, exactly.
pub open spec fn problem_id() -> Seq<char> {
    "teilb1;Liftgesellschaft (2) *;a;B_435;592"@
}

pub fn problem_id_str() -> (r: &'static str)
    ensures
        r@ == problem_id(),
{
    "teilb1;Liftgesellschaft (2) *;a;B_435;592"
}

/// Whether an exercise is the one the workaround targets. Exact identifier
/// match only — never a partial match or a pattern.
pub open spec fn is_problem(e: ExerciseView) -> bool {
    e.id == problem_id()
}

/// The corrected ordering: the stable partition that keeps every
/// non-matching exercise in place and appends the matching ones, in their own
/// relative order, at the end.
pub open spec fn corrected(s: Seq<ExerciseView>) -> Seq<ExerciseView> {
    s.filter(|e: ExerciseView| !is_problem(e)) + s.filter(|e: ExerciseView| is_problem(e))
}

proof fn lemma_filter_push<A>(s: Seq<A>, pred: spec_fn(A) -> bool, x: A)
    ensures
        s.push(x).filter(pred) == if pred(x) {
            s.filter(pred).push(x)
        } else {
            s.filter(pred)
        },
{
    reveal(Seq::filter);
    assert(s.push(x).drop_last() =~= s);
    assert(s.push(x).last() == x);
}

/// Applies the ordering correction to a finished exercise list.
pub fn correct_order(exercises: Vec<Exercise>) -> (r: Vec<Exercise>)
    ensures
        r@.map_values(|e: Exercise| e@) == corrected(exercises@.map_values(|e: Exercise| e@)),
{
    let ghost all = exercises@.map_values(|e: Exercise| e@);
    let problem = String::from_str(problem_id_str());
    let mut main: Vec<Exercise> = Vec::new();
    let mut fix: Vec<Exercise> = Vec::new();
    let mut i: usize = 0;
    proof {
        reveal(Seq::filter);
    }
    while i < exercises.len()
        invariant
            i <= exercises.len(),
            all == exercises@.map_values(|e: Exercise| e@),
            problem@ == problem_id(),
            main@.map_values(|e: Exercise| e@) == all.take(i as int).filter(
                |e: ExerciseView| !is_problem(e),
            ),
            fix@.map_values(|e: Exercise| e@) == all.take(i as int).filter(
                |e: ExerciseView| is_problem(e),
            ),
        decreases exercises.len() - i,
    {
        let x = exercises[i].clone();
        proof {
            assert(all.take(i + 1) =~= all.take(i as int).push(all[i as int]));
            lemma_filter_push(all.take(i as int), |e: ExerciseView| !is_problem(e), all[i as int]);
            lemma_filter_push(all.take(i as int), |e: ExerciseView| is_problem(e), all[i as int]);
        }
        if x.id == problem {
            fix.push(x);
            proof {
                assert(fix@.map_values(|e: Exercise| e@) =~= fix@.drop_last().map_values(
                    |e: Exercise| e@,
                ).push(all[i as int]));
            }
        } else {
            main.push(x);
            proof {
                assert(main@.map_values(|e: Exercise| e@) =~= main@.drop_last().map_values(
                    |e: Exercise| e@,
                ).push(all[i as int]));
            }
        }
        i = i + 1;
    }
    proof {
        assert(all.take(exercises@.len() as int) =~= all);
    }
    let mut r = main;
    r.append(&mut fix);
    proof {
        assert(r@.map_values(|e: Exercise| e@) =~= corrected(all));
    }
    r
}

proof fn lemma_filter_no_problem(s: Seq<ExerciseView>)
    requires
        forall|i: int| 0 <= i < s.len() ==> !is_problem(#[trigger] s[i]),
    ensures
        s.filter(|e: ExerciseView| is_problem(e)) == Seq::<ExerciseView>::empty(),
        s.filter(|e: ExerciseView| !is_problem(e)) == s,
    decreases s.len(),
{
    reveal(Seq::filter);
    if s.len() == 0 {
        assert(s.filter(|e: ExerciseView| is_problem(e)) =~= Seq::<ExerciseView>::empty());
        assert(s.filter(|e: ExerciseView| !is_problem(e)) =~= s);
    } else {
        lemma_filter_no_problem(s.drop_last());
        assert(!is_problem(s[s.len() - 1]));
        assert(s.filter(|e: ExerciseView| is_problem(e)) =~= Seq::<ExerciseView>::empty());
        assert(s.filter(|e: ExerciseView| !is_problem(e)) =~= s);
    }
}

proof fn lemma_filter_one_problem(s: Seq<ExerciseView>, k: int)
    requires
        0 <= k < s.len(),
        is_problem(s[k]),
        forall|i: int| 0 <= i < s.len() && i != k ==> !is_problem(#[trigger] s[i]),
    ensures
        s.filter(|e: ExerciseView| is_problem(e)) == seq![s[k]],
        s.filter(|e: ExerciseView| !is_problem(e)) == s.remove(k),
    decreases s.len(),
{
    reveal(Seq::filter);
    if k == s.len() - 1 {
        lemma_filter_no_problem(s.drop_last());
        assert(s.filter(|e: ExerciseView| is_problem(e)) =~= seq![s[k]]);
        assert(s.remove(k) =~= s.drop_last());
        assert(s.filter(|e: ExerciseView| !is_problem(e)) =~= s.remove(k));
    } else {
        lemma_filter_one_problem(s.drop_last(), k);
        assert(!is_problem(s[s.len() - 1]));
        assert(s.filter(|e: ExerciseView| is_problem(e)) =~= seq![s[k]]);
        assert(s.remove(k) =~= s.drop_last().remove(k).push(s.last()));
        assert(s.filter(|e: ExerciseView| !is_problem(e)) =~= s.remove(k));
    }
}

/// *No false trigger*: a list in which no exercise carries the problematic
/// identifier is left exactly as it came.
pub proof fn lemma_corrected_without_problem(s: Seq<ExerciseView>)
    requires
        forall|i: int| 0 <= i < s.len() ==> !is_problem(#[trigger] s[i]),
    ensures
        corrected(s) == s,
{
    lemma_filter_no_problem(s);
    assert(corrected(s) =~= s);
}

/// *Single relocation*: a list that carries the problematic identifier at
/// exactly one position equals, after correction, the same list with that
/// element removed and re-appended at the end; every other element keeps its
/// relative order.
pub proof fn lemma_corrected_with_one_problem(s: Seq<ExerciseView>, k: int)
    requires
        0 <= k < s.len(),
        is_problem(s[k]),
        forall|i: int| 0 <= i < s.len() && i != k ==> !is_problem(#[trigger] s[i]),
    ensures
        corrected(s) == s.remove(k).push(s[k]),
{
    lemma_filter_one_problem(s, k);
    assert(corrected(s) =~= s.remove(k).push(s[k]));
}

} // verus!
