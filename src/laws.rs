//! Properties of recording and rendering directives, proved over the
//! specifications that `Repr::record_item` and `Repr::render` meet. Each item
//! is paired with a flag that says whether its arguments are exactly one
//! integer literal.

use proc_macro2::Span;
use vstd::prelude::*;

use crate::repr::{
    directive_of, empty_repr, recorded_all, rendered, step, Directive, DirectiveError,
    DirectiveItem, ErrorKind, Repr,
};
use crate::vocab::{base_repr_for, base_repr_name, BaseRepr, Modifier};

verus! {

/// Whether the item is a well-formed base representation.
pub open spec fn is_base_item(item: DirectiveItem, literal: bool) -> bool {
    directive_of(item, literal) matches Ok(Directive::Base(_))
}

/// Whether the item is a well-formed modifier.
pub open spec fn is_modifier_item(item: DirectiveItem, literal: bool) -> bool {
    directive_of(item, literal) matches Ok(Directive::Modifier(_))
}

/// The first base representation among the items, with its location.
pub open spec fn base_choice(items: Seq<DirectiveItem>, literals: Seq<bool>) -> Option<
    (BaseRepr, Span),
>
    decreases items.len(),
{
    if items.len() == 0 || literals.len() == 0 {
        None
    } else {
        match directive_of(items[0], literals[0]) {
            Ok(Directive::Base(b)) => Some((b, items[0].span)),
            _ => base_choice(items.drop_first(), literals.drop_first()),
        }
    }
}

/// The first modifier among the items, with its location.
pub open spec fn modifier_choice(items: Seq<DirectiveItem>, literals: Seq<bool>) -> Option<
    (Modifier, Span),
>
    decreases items.len(),
{
    if items.len() == 0 || literals.len() == 0 {
        None
    } else {
        match directive_of(items[0], literals[0]) {
            Ok(Directive::Modifier(m)) => Some((m, items[0].span)),
            _ => modifier_choice(items.drop_first(), literals.drop_first()),
        }
    }
}

proof fn lemma_no_base_choice(items: Seq<DirectiveItem>, literals: Seq<bool>)
    requires
        items.len() == literals.len(),
        forall|i: int| 0 <= i < items.len() ==> !is_base_item(#[trigger] items[i], literals[i]),
    ensures
        base_choice(items, literals) is None,
    decreases items.len(),
{
    if items.len() > 0 {
        assert(!is_base_item(items[0], literals[0]));
        let (rest, lits) = (items.drop_first(), literals.drop_first());
        assert forall|i: int| 0 <= i < rest.len() implies !is_base_item(
            #[trigger] rest[i],
            lits[i],
        ) by {
            assert(rest[i] == items[i + 1] && lits[i] == literals[i + 1]);
        }
        lemma_no_base_choice(rest, lits);
    }
}

proof fn lemma_no_modifier_choice(items: Seq<DirectiveItem>, literals: Seq<bool>)
    requires
        items.len() == literals.len(),
        forall|i: int|
            0 <= i < items.len() ==> !is_modifier_item(#[trigger] items[i], literals[i]),
    ensures
        modifier_choice(items, literals) is None,
    decreases items.len(),
{
    if items.len() > 0 {
        assert(!is_modifier_item(items[0], literals[0]));
        let (rest, lits) = (items.drop_first(), literals.drop_first());
        assert forall|i: int| 0 <= i < rest.len() implies !is_modifier_item(
            #[trigger] rest[i],
            lits[i],
        ) by {
            assert(rest[i] == items[i + 1] && lits[i] == literals[i + 1]);
        }
        lemma_no_modifier_choice(rest, lits);
    }
}

proof fn lemma_fold_distinct(r: Repr, items: Seq<DirectiveItem>, literals: Seq<bool>)
    requires
        items.len() == literals.len(),
        forall|i: int| 0 <= i < items.len() ==> (#[trigger] directive_of(items[i], literals[i])) is Ok,
        forall|i: int, j: int|
            0 <= i < j < items.len() && is_base_item(#[trigger] items[i], literals[i])
                ==> !is_base_item(#[trigger] items[j], literals[j]),
        forall|i: int, j: int|
            0 <= i < j < items.len() && is_modifier_item(#[trigger] items[i], literals[i])
                ==> !is_modifier_item(#[trigger] items[j], literals[j]),
        r.base_repr is Some ==> forall|i: int|
            0 <= i < items.len() ==> !is_base_item(#[trigger] items[i], literals[i]),
        r.modifier is Some ==> forall|i: int|
            0 <= i < items.len() ==> !is_modifier_item(#[trigger] items[i], literals[i]),
    ensures
        recorded_all(r, items, literals) == Ok::<Repr, DirectiveError>(
            Repr {
                base_repr: if base_choice(items, literals) is Some {
                    base_choice(items, literals)
                } else {
                    r.base_repr
                },
                modifier: if modifier_choice(items, literals) is Some {
                    modifier_choice(items, literals)
                } else {
                    r.modifier
                },
            },
        ),
    decreases items.len(),
{
    if items.len() == 0 {
        return;
    }
    let first = items[0];
    let rest = items.drop_first();
    let lits = literals.drop_first();
    assert forall|i: int| 0 <= i < rest.len() implies #[trigger] rest[i] == items[i + 1] && lits[i]
        == literals[i + 1] by {}
    assert(directive_of(items[0], literals[0]) is Ok);
    assert forall|i: int| 0 <= i < rest.len() implies (#[trigger] directive_of(
        rest[i],
        lits[i],
    )) is Ok by {
        assert(directive_of(items[i + 1], literals[i + 1]) is Ok);
    }
    assert forall|i: int, j: int|
        0 <= i < j < rest.len() && is_base_item(#[trigger] rest[i], lits[i]) implies !is_base_item(
        #[trigger] rest[j],
        lits[j],
    ) by {
        assert(is_base_item(items[i + 1], literals[i + 1]) ==> !is_base_item(
            items[j + 1],
            literals[j + 1],
        ));
    }
    assert forall|i: int, j: int|
        0 <= i < j < rest.len() && is_modifier_item(#[trigger] rest[i], lits[i])
            implies !is_modifier_item(#[trigger] rest[j], lits[j]) by {
        assert(is_modifier_item(items[i + 1], literals[i + 1]) ==> !is_modifier_item(
            items[j + 1],
            literals[j + 1],
        ));
    }
    match directive_of(first, literals[0]) {
        Ok(Directive::Base(b)) => {
            assert(is_base_item(items[0], literals[0]));
            let next = Repr { base_repr: Some((b, first.span)), ..r };
            assert forall|i: int| 0 <= i < rest.len() implies !is_base_item(
                #[trigger] rest[i],
                lits[i],
            ) by {
                assert(is_base_item(items[0], literals[0]) ==> !is_base_item(
                    items[i + 1],
                    literals[i + 1],
                ));
            }
            if r.modifier is Some {
                assert forall|i: int| 0 <= i < rest.len() implies !is_modifier_item(
                    #[trigger] rest[i],
                    lits[i],
                ) by {
                    assert(!is_modifier_item(items[i + 1], literals[i + 1]));
                }
            }
            lemma_no_base_choice(rest, lits);
            lemma_fold_distinct(next, rest, lits);
        },
        Ok(Directive::Modifier(m)) => {
            assert(is_modifier_item(items[0], literals[0]));
            let next = Repr { modifier: Some((m, first.span)), ..r };
            assert forall|i: int| 0 <= i < rest.len() implies !is_modifier_item(
                #[trigger] rest[i],
                lits[i],
            ) by {
                assert(is_modifier_item(items[0], literals[0]) ==> !is_modifier_item(
                    items[i + 1],
                    literals[i + 1],
                ));
            }
            if r.base_repr is Some {
                assert forall|i: int| 0 <= i < rest.len() implies !is_base_item(
                    #[trigger] rest[i],
                    lits[i],
                ) by {
                    assert(!is_base_item(items[i + 1], literals[i + 1]));
                }
            }
            lemma_no_modifier_choice(rest, lits);
            lemma_fold_distinct(next, rest, lits);
        },
        Err(_) => {},
    }
}

/// Recording well-formed items of which at most one is a base representation
/// and at most one a modifier succeeds for every item, and the model then
/// holds exactly the base representation and the modifier among them.
pub proof fn lemma_one_of_each_succeeds(items: Seq<DirectiveItem>, literals: Seq<bool>)
    requires
        items.len() == literals.len(),
        forall|i: int| 0 <= i < items.len() ==> (#[trigger] directive_of(items[i], literals[i])) is Ok,
        forall|i: int, j: int|
            0 <= i < j < items.len() && is_base_item(#[trigger] items[i], literals[i])
                ==> !is_base_item(#[trigger] items[j], literals[j]),
        forall|i: int, j: int|
            0 <= i < j < items.len() && is_modifier_item(#[trigger] items[i], literals[i])
                ==> !is_modifier_item(#[trigger] items[j], literals[j]),
    ensures
        recorded_all(empty_repr(), items, literals) == Ok::<Repr, DirectiveError>(
            Repr {
                base_repr: base_choice(items, literals),
                modifier: modifier_choice(items, literals),
            },
        ),
{
    lemma_fold_distinct(empty_repr(), items, literals);
}

/// Once a base representation is recorded, a second one is rejected with
/// `DuplicateBaseRepr` at the second item, whichever two spellings they are,
/// and the model keeps the first.
pub proof fn lemma_second_base_rejected(
    r: Repr,
    first: DirectiveItem,
    first_literal: bool,
    second: DirectiveItem,
    second_literal: bool,
)
    requires
        r.base_repr is None,
        is_base_item(first, first_literal),
        is_base_item(second, second_literal),
    ensures
        step(r, first, first_literal) is Ok,
        step(r, first, first_literal)->Ok_0.base_repr == Some(
            (directive_of(first, first_literal)->Ok_0->Base_0, first.span),
        ),
        step(step(r, first, first_literal)->Ok_0, second, second_literal) == Err::<
            Repr,
            DirectiveError,
        >(
            DirectiveError {
                kind: ErrorKind::DuplicateBaseRepr,
                too_many_args: false,
                span: second.span,
            },
        ),
{
}

/// Once a modifier is recorded, a second one (`packed` or `align`, in any
/// combination) is rejected with `DuplicateModifier` at the second item,
/// and the model keeps the first.
pub proof fn lemma_second_modifier_rejected(
    r: Repr,
    first: DirectiveItem,
    first_literal: bool,
    second: DirectiveItem,
    second_literal: bool,
)
    requires
        r.modifier is None,
        is_modifier_item(first, first_literal),
        is_modifier_item(second, second_literal),
    ensures
        step(r, first, first_literal) is Ok,
        step(r, first, first_literal)->Ok_0.modifier == Some(
            (directive_of(first, first_literal)->Ok_0->Modifier_0, first.span),
        ),
        step(step(r, first, first_literal)->Ok_0, second, second_literal) == Err::<
            Repr,
            DirectiveError,
        >(
            DirectiveError {
                kind: ErrorKind::DuplicateModifier,
                too_many_args: false,
                span: second.span,
            },
        ),
{
}

/// `align` without exactly one argument, or with one that is not an integer
/// literal, is rejected with `MalformedAlignArgument`, whatever was recorded
/// before, and the error says when there were too many arguments; with one
/// integer literal it records that literal.
pub proof fn lemma_align_argument(r: Repr, item: DirectiveItem, literal: bool)
    requires
        item.ident@ == "align"@,
    ensures
        item.args@.len() != 1 || !literal ==> step(r, item, literal) == Err::<Repr, DirectiveError>(
            DirectiveError {
                kind: ErrorKind::MalformedAlignArgument,
                too_many_args: item.args@.len() > 1,
                span: item.span,
            },
        ),
        item.args@.len() == 1 && literal && r.modifier is None ==> step(r, item, literal) == Ok::<
            Repr,
            DirectiveError,
        >(Repr { modifier: Some((Modifier::Align(item.args@[0]), item.span)), ..r }),
{
    reveal_strlit("align");
    reveal_strlit("packed");
    assert("align"@.len() != "packed"@.len());
}

/// An identifier that is neither `packed`, `align` nor a base spelling is
/// rejected with `UnrecognizedDirective` at that item, whatever was
/// recorded before.
pub proof fn lemma_unrecognized(r: Repr, item: DirectiveItem, literal: bool)
    requires
        item.ident@ != "packed"@,
        item.ident@ != "align"@,
        base_repr_for(item.ident@) is None,
    ensures
        step(r, item, literal) == Err::<Repr, DirectiveError>(
            DirectiveError {
                kind: ErrorKind::UnrecognizedDirective,
                too_many_args: false,
                span: item.span,
            },
        ),
{
}

/// Rendering a model that holds one recorded base representation gives back
/// its identifier followed by a comma; one that holds one recorded modifier
/// gives `packed,` or `align(n),` with the literal as written.
pub proof fn lemma_render_round_trip(item: DirectiveItem, literal: bool)
    requires
        directive_of(item, literal) is Ok,
    ensures
        step(empty_repr(), item, literal) is Ok,
        is_base_item(item, literal) ==> rendered(step(empty_repr(), item, literal)->Ok_0)
            == item.ident@ + ","@,
        item.ident@ == "packed"@ ==> rendered(step(empty_repr(), item, literal)->Ok_0)
            == "packed"@ + ","@,
        item.ident@ == "align"@ ==> rendered(step(empty_repr(), item, literal)->Ok_0) == "align("@
            + item.args@[0]@ + ")"@ + ","@,
{
    reveal_strlit("align");
    reveal_strlit("packed");
    assert("align"@.len() != "packed"@.len());
    if is_base_item(item, literal) {
        assert(base_repr_name(base_repr_for(item.ident@)->Some_0) == item.ident@);
    }
}

/// Recording a base representation and a modifier succeeds in either order
/// and leaves the same model.
pub proof fn lemma_order_independent(
    base: DirectiveItem,
    base_literal: bool,
    modifier: DirectiveItem,
    modifier_literal: bool,
)
    requires
        is_base_item(base, base_literal),
        is_modifier_item(modifier, modifier_literal),
    ensures
        recorded_all(
            empty_repr(),
            seq![modifier, base],
            seq![modifier_literal, base_literal],
        ) is Ok,
        recorded_all(empty_repr(), seq![modifier, base], seq![modifier_literal, base_literal])
            == recorded_all(empty_repr(), seq![base, modifier], seq![base_literal, modifier_literal]),
{
    reveal_with_fuel(recorded_all, 3);
    assert(seq![modifier, base].drop_first() == seq![base]);
    assert(seq![base, modifier].drop_first() == seq![modifier]);
    assert(seq![modifier_literal, base_literal].drop_first() == seq![base_literal]);
    assert(seq![base_literal, modifier_literal].drop_first() == seq![modifier_literal]);
    assert(seq![base].drop_first() == Seq::<DirectiveItem>::empty());
    assert(seq![modifier].drop_first() == Seq::<DirectiveItem>::empty());
}

} // verus!
