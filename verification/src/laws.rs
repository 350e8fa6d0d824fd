//! What holds of generation on every declaration, for every way its tags can
//! read.
//!
//! The readings are parameters of each law: `readings[i]` is what the tag of
//! variant `i` read as. The laws hold of any readings, so they hold of the
//! ones that a run got.

use crate::declaration::{BodyView, Declaration, DeclarationView, VariantView};
use crate::diagnostic::{Diagnostic, DiagnosticView};
use crate::generator::{
    diagnostics_in, generated, lemma_all_arms, lemma_diagnostic_is_collected, outcome_view,
    verdicts_on,
};
use crate::implementation::{ArmView, Implementation, ImplementationView};
use vstd::prelude::*;

verus! {

/// Where exactly one verdict is a diagnostic, it is the only one collected.
proof fn lemma_single_diagnostic(verdicts: Seq<Result<ArmView, DiagnosticView>>, k: int)
    requires
        0 <= k < verdicts.len(),
        verdicts[k] is Err,
        forall|i: int| 0 <= i < verdicts.len() && i != k ==> (#[trigger] verdicts[i]) is Ok,
    ensures
        diagnostics_in(verdicts) == seq![verdicts[k]->Err_0],
    decreases verdicts.len(),
{
    let rest = verdicts.drop_last();
    if k == verdicts.len() - 1 {
        lemma_all_arms(rest);
    } else {
        lemma_single_diagnostic(rest, k);
    }
}

/// A tagged variant whose tag reads as a key gets the arm with that key.
proof fn lemma_key_gets_its_arm(variant: VariantView, position: int, key: Seq<char>)
    requires
        variant.is_tagged(),
    ensures
        variant.verdict(position, Ok(key)) == Ok::<ArmView, DiagnosticView>(
            ArmView { variant: variant.name, key },
        ),
{
    let j = choose|j: int| 0 <= j < variant.annotations.len() && (#[trigger] variant.annotations[j]).is_tag();
    variant.lemma_tagged_has_a_tag(j);
}

/// Generation succeeds on a valid declaration, and `key` then returns for
/// every variant exactly the string literal of its tag.
///
/// A declaration is valid when it is an enum and each of its variants has a
/// tag that reads as a string literal; `keys[i]` is the value that the tag
/// of variant `i` read as. The implementation is made for the declared type
/// and has one arm for each variant, in declaration order, which names the
/// variant and holds its key unchanged.
pub proof fn lemma_valid_declaration_generates(
    declaration: DeclarationView,
    variants: Seq<VariantView>,
    readings: Seq<Result<Seq<char>, Seq<char>>>,
    keys: Seq<Seq<char>>,
)
    requires
        declaration.body == BodyView::Enum(variants),
        keys.len() == variants.len(),
        forall|i: int|
            0 <= i < variants.len() ==> (#[trigger] variants[i]).is_tagged() && readings[i] == Ok::<
                Seq<char>,
                Seq<char>,
            >(keys[i]),
    ensures
        generated(declaration, readings) is Ok,
        generated(declaration, readings)->Ok_0.name == declaration.name,
        generated(declaration, readings)->Ok_0.arms.len() == variants.len(),
        forall|i: int|
            0 <= i < variants.len() ==> #[trigger] generated(declaration, readings)->Ok_0.arms[i]
                == (ArmView { variant: variants[i].name, key: keys[i] }),
        forall|i: int|
            0 <= i < variants.len() ==> #[trigger] generated(declaration, readings)->Ok_0.key(i)
                == Some(keys[i]),
{
    let verdicts = verdicts_on(variants, readings);
    assert forall|i: int| 0 <= i < verdicts.len() implies #[trigger] verdicts[i] == Ok::<
        ArmView,
        DiagnosticView,
    >(ArmView { variant: variants[i].name, key: keys[i] }) by {
        assert(variants[i].is_tagged());
        lemma_key_gets_its_arm(variants[i], i, keys[i]);
    }
    lemma_all_arms(verdicts);
}

/// `key` is exhaustive and total on whatever generation produces: the
/// implementation has exactly one arm for each variant of the enum, arm `i`
/// belongs to variant `i` and holds the key that the tag of this variant
/// read as, and `key` answers for the positions of the variants and for no
/// other.
pub proof fn lemma_implementation_covers_every_variant(
    declaration: DeclarationView,
    readings: Seq<Result<Seq<char>, Seq<char>>>,
    implementation: ImplementationView,
)
    requires
        generated(declaration, readings) == Ok::<ImplementationView, Seq<DiagnosticView>>(
            implementation,
        ),
    ensures
        declaration.body is Enum,
        implementation.name == declaration.name,
        implementation.arms.len() == declaration.body->Enum_0.len(),
        forall|i: int|
            0 <= i < implementation.arms.len() ==> {
                &&& (#[trigger] implementation.arms[i]).variant == declaration.body->Enum_0[i].name
                &&& declaration.body->Enum_0[i].is_tagged()
                &&& readings[i] == Ok::<Seq<char>, Seq<char>>(implementation.arms[i].key)
            },
        forall|i: int| implementation.key(i) is Some <==> 0 <= i < declaration.body->Enum_0.len(),
        declaration.admits(readings) ==> declaration.can_succeed(),
{
    let variants = declaration.body->Enum_0;
    let verdicts = verdicts_on(variants, readings);
    assert forall|i: int| 0 <= i < verdicts.len() implies (#[trigger] verdicts[i]) is Ok by {
        if verdicts[i] is Err {
            lemma_diagnostic_is_collected(verdicts, i);
        }
    }
    lemma_all_arms(verdicts);
    assert forall|i: int| 0 <= i < implementation.arms.len() implies {
        &&& (#[trigger] implementation.arms[i]).variant == variants[i].name
        &&& variants[i].is_tagged()
        &&& readings[i] == Ok::<Seq<char>, Seq<char>>(implementation.arms[i].key)
        &&& variants[i].admits(readings[i]) ==> variants[i].has_arguments()
    } by {
        variants[i].lemma_arm_is_of_a_key(i, readings[i], implementation.arms[i]);
    }
    if declaration.admits(readings) {
        assert forall|i: int| 0 <= i < variants.len() implies (#[trigger] variants[i]).has_arguments() by {
            assert(variants[i].admits(readings[i]));
            assert(implementation.arms[i].variant == variants[i].name);
        }
    }
}

/// A declaration that cannot succeed gets no implementation, however its
/// tags read: it is no enum, or one of its variants has no tag, or a tag
/// without arguments.
pub proof fn lemma_hopeless_declaration_fails(
    declaration: DeclarationView,
    readings: Seq<Result<Seq<char>, Seq<char>>>,
)
    requires
        !declaration.can_succeed(),
        declaration.admits(readings),
    ensures
        generated(declaration, readings) is Err,
        generated(declaration, readings)->Err_0.len() >= 1,
{
    if generated(declaration, readings) is Ok {
        lemma_implementation_covers_every_variant(
            declaration,
            readings,
            generated(declaration, readings)->Ok_0,
        );
    }
}

/// A declaration that is not an enum gets the one diagnostic that says so,
/// and no implementation.
pub proof fn lemma_non_enum_is_refused(
    declaration: DeclarationView,
    readings: Seq<Result<Seq<char>, Seq<char>>>,
)
    requires
        !(declaration.body is Enum),
    ensures
        generated(declaration, readings) == Err::<ImplementationView, Seq<DiagnosticView>>(
            seq![DiagnosticView::wrong_kind()],
        ),
{
}

/// Where exactly one variant of an enum lacks its tag and the tag of every
/// other variant reads as a key, generation fails with exactly one
/// diagnostic: the missing annotation of that variant, whose message names
/// it.
pub proof fn lemma_single_missing_annotation(
    declaration: DeclarationView,
    variants: Seq<VariantView>,
    readings: Seq<Result<Seq<char>, Seq<char>>>,
    k: int,
)
    requires
        declaration.body == BodyView::Enum(variants),
        0 <= k < variants.len(),
        !variants[k].is_tagged(),
        forall|i: int|
            0 <= i < variants.len() && i != k ==> (#[trigger] variants[i]).is_tagged()
                && readings[i] is Ok,
    ensures
        generated(declaration, readings) == Err::<ImplementationView, Seq<DiagnosticView>>(
            seq![DiagnosticView::missing_annotation(k, variants[k].name)],
        ),
{
    let verdicts = verdicts_on(variants, readings);
    variants[k].lemma_untagged_has_no_tag();
    assert forall|i: int| 0 <= i < verdicts.len() && i != k implies (#[trigger] verdicts[i]) is Ok by {
        assert(variants[i].is_tagged());
        lemma_key_gets_its_arm(variants[i], i, readings[i]->Ok_0);
    }
    lemma_single_diagnostic(verdicts, k);
}

/// Every variant that lacks its tag is reported by the same failing run,
/// whatever else is wrong with the enum and however the other tags read:
/// generation fails, and the missing annotation of that variant is among
/// its diagnostics.
pub proof fn lemma_every_missing_annotation_is_reported(
    declaration: DeclarationView,
    variants: Seq<VariantView>,
    readings: Seq<Result<Seq<char>, Seq<char>>>,
    k: int,
)
    requires
        declaration.body == BodyView::Enum(variants),
        0 <= k < variants.len(),
        !variants[k].is_tagged(),
    ensures
        generated(declaration, readings) is Err,
        generated(declaration, readings)->Err_0.contains(
            DiagnosticView::missing_annotation(k, variants[k].name),
        ),
{
    variants[k].lemma_untagged_has_no_tag();
    lemma_diagnostic_is_collected(verdicts_on(variants, readings), k);
}

/// A tag that does not read as a single string literal is reported:
/// generation fails, and among its diagnostics is the malformed annotation,
/// placed at that annotation and carrying the message of the failed reading.
pub proof fn lemma_every_malformed_annotation_is_reported(
    declaration: DeclarationView,
    variants: Seq<VariantView>,
    readings: Seq<Result<Seq<char>, Seq<char>>>,
    k: int,
    j: int,
    message: Seq<char>,
)
    requires
        declaration.body == BodyView::Enum(variants),
        0 <= k < variants.len(),
        variants[k].tag_at(j),
        readings[k] == Err::<Seq<char>, Seq<char>>(message),
    ensures
        generated(declaration, readings) is Err,
        generated(declaration, readings)->Err_0.contains(
            DiagnosticView::MalformedAnnotation { variant: k, annotation: j, message },
        ),
{
    variants[k].lemma_tag_is_unique(j);
    lemma_diagnostic_is_collected(verdicts_on(variants, readings), k);
}

/// A tag without arguments is always reported: it has nothing to read, so
/// generation fails, and among its diagnostics is the malformed annotation
/// with the message that the form of the tag fixes.
pub proof fn lemma_tag_without_arguments_is_reported(
    declaration: DeclarationView,
    variants: Seq<VariantView>,
    readings: Seq<Result<Seq<char>, Seq<char>>>,
    k: int,
    j: int,
)
    requires
        declaration.body == BodyView::Enum(variants),
        declaration.admits(readings),
        0 <= k < variants.len(),
        variants[k].tag_at(j),
        !(variants[k].annotations[j].payload is Arguments),
    ensures
        variants[k].annotations[j].fixed_reading() is Some,
        variants[k].annotations[j].fixed_reading()->Some_0 is Err,
        generated(declaration, readings) is Err,
        generated(declaration, readings)->Err_0.contains(
            DiagnosticView::MalformedAnnotation {
                variant: k,
                annotation: j,
                message: variants[k].annotations[j].fixed_reading()->Some_0->Err_0,
            },
        ),
{
    variants[k].lemma_tag_is_unique(j);
    assert(variants[k].admits(readings[k]));
    lemma_every_malformed_annotation_is_reported(
        declaration,
        variants,
        readings,
        k,
        j,
        variants[k].annotations[j].fixed_reading()->Some_0->Err_0,
    );
}

/// Where no variant has a tag with arguments, nothing is left to the parser
/// and the outcome is fixed by the declaration alone: any two runs agree.
pub proof fn lemma_outcome_without_arguments_is_fixed(
    declaration: DeclarationView,
    first: Seq<Result<Seq<char>, Seq<char>>>,
    second: Seq<Result<Seq<char>, Seq<char>>>,
)
    requires
        declaration.admits(first),
        declaration.admits(second),
        declaration.body is Enum ==> forall|i: int|
            0 <= i < declaration.body->Enum_0.len() ==> !(
            #[trigger] declaration.body->Enum_0[i]).has_arguments(),
    ensures
        generated(declaration, first) == generated(declaration, second),
{
    if declaration.body is Enum {
        let variants = declaration.body->Enum_0;
        assert forall|i: int| 0 <= i < variants.len() implies variants[i].verdict(i, first[i])
            == variants[i].verdict(i, second[i]) by {
            assert(!variants[i].has_arguments());
            assert(variants[i].admits(first[i]) && variants[i].admits(second[i]));
            if variants[i].tag_position() is Some {
                let j = variants[i].tag_position()->Some_0;
                assert(variants[i].tag_at(j));
                assert(!(variants[i].annotations[j].payload is Arguments));
            }
        }
        assert(verdicts_on(variants, first) == verdicts_on(variants, second));
    }
}

/// Generating twice from the same input, with the tags reading the same,
/// yields the same output: the same implementation with its arms in the
/// same order, or the same diagnostics in the same order.
pub proof fn lemma_generation_is_repeatable(
    first_input: Declaration,
    second_input: Declaration,
    readings: Seq<Result<Seq<char>, Seq<char>>>,
    first: Result<Implementation, Vec<Diagnostic>>,
    second: Result<Implementation, Vec<Diagnostic>>,
)
    requires
        first_input@ == second_input@,
        outcome_view(first) == generated(first_input@, readings),
        outcome_view(second) == generated(second_input@, readings),
    ensures
        outcome_view(first) == outcome_view(second),
{
}

} // verus!
