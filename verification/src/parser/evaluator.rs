//! The evaluator of sums: integers are added while the program is compiled,
//! registers are left to be added while it runs.

use super::types::{Type, TypeError, TypeErrorView, TypeView, Width};
use crate::text::{chars_of, same_text};
use vstd::prelude::*;

verus! {

/// Whether an operand of a sum is added when the program runs: it is a
/// reference, and not the one to the zero register, `%zero`.
pub open spec fn is_deferred(operand: TypeView) -> bool {
    operand matches TypeView::Value(name) && name != "%zero"@
}

/// How many operands of a sum are added when the program runs.
pub open spec fn deferred_count(operands: Seq<TypeView>) -> nat
    decreases operands.len(),
{
    if operands.len() == 0 {
        0
    } else {
        deferred_count(operands.drop_last()) + if is_deferred(operands.last()) {
            1nat
        } else {
            0nat
        }
    }
}

/// No more operands are deferred than there are operands.
pub proof fn lemma_deferred_count_bound(operands: Seq<TypeView>)
    ensures
        deferred_count(operands) <= operands.len(),
    decreases operands.len(),
{
    if operands.len() > 0 {
        lemma_deferred_count_bound(operands.drop_last());
    }
}

/// A name without the `%` signs in it.
pub open spec fn without_sigil(name: Seq<char>) -> Seq<char>
    decreases name.len(),
{
    if name.len() == 0 {
        name
    } else if name.last() == '%' {
        without_sigil(name.drop_last())
    } else {
        without_sigil(name.drop_last()).push(name.last())
    }
}

/// What a list of operands adds to a total and to the registers deferred so
/// far. An integer of the total's width is added to it; the zero register,
/// `%zero`, adds nothing; any other reference is deferred, under its name
/// without the `%`. The first integer that does not add ends the folding.
pub open spec fn folded(total: TypeView, deferred: Seq<Seq<char>>, operands: Seq<TypeView>) -> Result<
    (TypeView, Seq<Seq<char>>),
    TypeErrorView,
>
    decreases operands.len(),
{
    if operands.len() == 0 {
        Ok((total, deferred))
    } else {
        match operands.first() {
            TypeView::Value(name) => if name == "%zero"@ {
                folded(total, deferred, operands.drop_first())
            } else {
                folded(total, deferred.push(without_sigil(name)), operands.drop_first())
            },
            number => match total.sum(number) {
                Ok(sum) => folded(sum, deferred, operands.drop_first()),
                Err(e) => Err(e),
            },
        }
    }
}

/// The value of a sum of the given width: the total of its integers, from
/// zero on, and the registers left to be added, in their order.
pub open spec fn evaluated(width: Width, operands: Seq<TypeView>) -> Result<
    (TypeView, Seq<Seq<char>>),
    TypeErrorView,
> {
    folded(TypeView::Int { width, value: 0 }, Seq::empty(), operands)
}

/// How many operands of a sum are added when the program runs.
pub fn count_deferred(operands: &Vec<Type>) -> (count: usize)
    ensures
        count == deferred_count(operands.deep_view()),
{
    let ghost views = operands.deep_view();
    let mut count: usize = 0;
    let mut i: usize = 0;
    while i < operands.len()
        invariant
            i <= operands@.len(),
            views == operands.deep_view(),
            count <= i,
            count == deferred_count(views.take(i as int)),
        decreases operands@.len() - i,
    {
        assert(views.take(i + 1).drop_last() =~= views.take(i as int));
        assert(views.take(i + 1).last() == operands@[i as int]@);
        match &operands[i] {
            Type::Value(name) => {
                if !same_text(name.as_str(), "%zero") {
                    count += 1;
                }
            },
            _ => {},
        }
        i += 1;
    }
    assert(views.take(i as int) =~= views);
    count
}

/// The deferred operands of a list can be counted from either end.
pub proof fn lemma_deferred_count_first(operands: Seq<TypeView>)
    requires
        operands.len() > 0,
    ensures
        deferred_count(operands) == deferred_count(operands.drop_first()) + if is_deferred(
            operands.first(),
        ) {
            1nat
        } else {
            0nat
        },
    decreases operands.len(),
{
    if operands.len() == 1 {
        assert(operands.drop_last() =~= Seq::<TypeView>::empty());
        assert(operands.drop_first() =~= Seq::<TypeView>::empty());
    } else {
        lemma_deferred_count_first(operands.drop_last());
        assert(operands.drop_last().drop_first() =~= operands.drop_first().drop_last());
    }
}

/// Folding defers exactly the operands that count as deferred.
pub proof fn lemma_folded_defers(
    total: TypeView,
    deferred: Seq<Seq<char>>,
    operands: Seq<TypeView>,
)
    ensures
        folded(total, deferred, operands) matches Ok((_, all)) ==> all.len() == deferred.len()
            + deferred_count(operands),
    decreases operands.len(),
{
    if operands.len() > 0 {
        lemma_deferred_count_first(operands);
        match operands.first() {
            TypeView::Value(name) => {
                if name == "%zero"@ {
                    lemma_folded_defers(total, deferred, operands.drop_first());
                } else {
                    lemma_folded_defers(
                        total,
                        deferred.push(without_sigil(name)),
                        operands.drop_first(),
                    );
                }
            },
            number => {
                match total.sum(number) {
                    Ok(sum) => {
                        lemma_folded_defers(sum, deferred, operands.drop_first());
                    },
                    Err(_) => {},
                }
            },
        }
    }
}

/// A sum leaves as many registers to be added as the parser counted when it
/// gave the sum its room in the address space.
pub proof fn lemma_evaluated_defers(width: Width, operands: Seq<TypeView>)
    ensures
        evaluated(width, operands) matches Ok((_, deferred)) ==> deferred.len() == deferred_count(
            operands,
        ),
{
    lemma_folded_defers(TypeView::Int { width, value: 0 }, Seq::empty(), operands);
}

/// The total of a sum is an integer of the sum's width.
pub proof fn lemma_folded_width(
    total: TypeView,
    deferred: Seq<Seq<char>>,
    operands: Seq<TypeView>,
    width: Width,
)
    requires
        total matches TypeView::Int { width: w, .. } && w == width,
        total.well_formed(),
    ensures
        folded(total, deferred, operands) matches Ok((sum, _)) ==> sum.well_formed() && (
        sum matches TypeView::Int { width: w, .. } && w == width),
    decreases operands.len(),
{
    if operands.len() > 0 {
        match operands.first() {
            TypeView::Value(name) => {
                if name == "%zero"@ {
                    lemma_folded_width(total, deferred, operands.drop_first(), width);
                } else {
                    lemma_folded_width(
                        total,
                        deferred.push(without_sigil(name)),
                        operands.drop_first(),
                        width,
                    );
                }
            },
            number => {
                match total.sum(number) {
                    Ok(sum) => {
                        lemma_folded_width(sum, deferred, operands.drop_first(), width);
                    },
                    Err(_) => {},
                }
            },
        }
    }
}

/// A name without the `%` signs in it.
pub fn strip_sigil(name: &str) -> (bare: String)
    ensures
        bare@ == without_sigil(name@),
{
    let chars = chars_of(name);
    let mut bare = String::new();
    let mut i: usize = 0;
    assert(chars@.take(0) =~= Seq::<char>::empty());
    while i < chars.len()
        invariant
            i <= chars@.len(),
            bare@ == without_sigil(chars@.take(i as int)),
        decreases chars@.len() - i,
    {
        assert(chars@.take(i + 1).drop_last() =~= chars@.take(i as int));
        if chars[i] != '%' {
            bare.push(chars[i]);
        }
        i += 1;
    }
    assert(chars@.take(i as int) =~= chars@);
    bare
}

/// Evaluates a sum of the given width: adds up the integers among the
/// operands and lists the registers that are left to be added when the
/// program runs.
pub fn evaluate(width: Width, operands: &Vec<Type>) -> (r: Result<(Type, Vec<String>), TypeError>)
    ensures
        match evaluated(width, operands.deep_view()) {
            Ok((total, deferred)) => r is Ok && r->Ok_0.0@ == total && r->Ok_0.1.deep_view()
                == deferred,
            Err(e) => r is Err && r->Err_0@ == e,
        },
{
    let ghost views = operands.deep_view();
    let mut total = Type::zero(width);
    let mut deferred: Vec<String> = Vec::new();
    let mut i: usize = 0;
    assert(views.skip(0) =~= views);
    assert(deferred.deep_view() =~= Seq::<Seq<char>>::empty());
    while i < operands.len()
        invariant
            i <= operands@.len(),
            views == operands.deep_view(),
            evaluated(width, views) == folded(total@, deferred.deep_view(), views.skip(i as int)),
        decreases operands@.len() - i,
    {
        assert(views.skip(i as int).first() == operands@[i as int]@);
        assert(views.skip(i as int).drop_first() =~= views.skip(i + 1));
        match &operands[i] {
            Type::Value(name) => {
                if !same_text(name.as_str(), "%zero") {
                    let bare = strip_sigil(name.as_str());
                    let ghost before = deferred.deep_view();
                    let ghost added = bare@;
                    deferred.push(bare);
                    assert(deferred.deep_view() =~= before.push(added));
                }
            },
            number => {
                match total.try_add(number.clone()) {
                    Ok(()) => {},
                    Err(e) => {
                        return Err(e);
                    },
                }
            },
        }
        i += 1;
    }
    Ok((total, deferred))
}

} // verus!
