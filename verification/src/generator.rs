//! From a declaration to its key table, or to everything that is wrong with it.
//!
//! What the tag of a variant reads as is not decided here. The outcome is
//! therefore stated over the readings: [`generated`] says what comes out for
//! each way the tags can read, and [`localized_derive`] returns what
//! `generated` gives for the readings that it got.

use crate::declaration::{Body, BodyView, Declaration, DeclarationView, Variant, VariantView};
use crate::diagnostic::{diagnostic_views, Diagnostic, DiagnosticView};
use crate::implementation::{arm_views, Arm, ArmView, Implementation, ImplementationView};
use crate::reading::reading_view;
use vstd::prelude::*;
use vstd::string::StringExecFns;

verus! {

/// The mathematical value of a verdict on one variant.
pub open spec fn verdict_view(verdict: Result<Arm, Diagnostic>) -> Result<ArmView, DiagnosticView> {
    match verdict {
        Ok(arm) => Ok(arm@),
        Err(diagnostic) => Err(diagnostic@),
    }
}

/// The mathematical values of a list of verdicts, in order.
pub open spec fn verdict_views(verdicts: Seq<Result<Arm, Diagnostic>>) -> Seq<
    Result<ArmView, DiagnosticView>,
> {
    Seq::new(verdicts.len(), |i: int| verdict_view(verdicts[i]))
}

/// The mathematical value of what generation returns.
pub open spec fn outcome_view(outcome: Result<Implementation, Vec<Diagnostic>>) -> Result<
    ImplementationView,
    Seq<DiagnosticView>,
> {
    match outcome {
        Ok(implementation) => Ok(implementation@),
        Err(diagnostics) => Err(diagnostic_views(diagnostics@)),
    }
}

/// The verdict on a tagged variant: an arm with the key that its tag read
/// as, or the tag's parse failure as a diagnostic on the annotation.
pub open spec fn settled(
    name: Seq<char>,
    position: int,
    annotation: int,
    reading: Result<Seq<char>, Seq<char>>,
) -> Result<ArmView, DiagnosticView> {
    match reading {
        Ok(key) => Ok(ArmView { variant: name, key }),
        Err(message) => Err(
            DiagnosticView::MalformedAnnotation { variant: position, annotation, message },
        ),
    }
}

/// Turns what the tag of the variant `name` read as into the verdict on that
/// variant. `position` is the variant's place in the declaration and
/// `annotation` the tag's place among the variant's annotations.
pub fn settle(name: &str, position: usize, annotation: usize, reading: Result<String, String>) -> (verdict:
    Result<Arm, Diagnostic>)
    ensures
        verdict_view(verdict) == settled(
            name@,
            position as int,
            annotation as int,
            reading_view(reading),
        ),
{
    match reading {
        Ok(key) => Ok(Arm { variant: String::from_str(name), key }),
        Err(message) => Err(Diagnostic::MalformedAnnotation { variant: position, annotation, message }),
    }
}

impl VariantView {
    /// The variant has a tag, and the tag has arguments: only such a variant
    /// can get an arm.
    pub open spec fn has_arguments(self) -> bool {
        exists|j: int| self.tag_at(j) && (#[trigger] self.annotations[j]).payload is Arguments
    }

    /// `reading` is one that the tag of this variant can have. A variant
    /// without a tag has nothing to read, and admits any.
    pub open spec fn admits(self, reading: Result<Seq<char>, Seq<char>>) -> bool {
        match self.tag_position() {
            Some(annotation) => self.annotations[annotation].admits(reading),
            None => true,
        }
    }

    /// The verdict on the variant at `position` when its tag reads as
    /// `reading`: its arm, or what is wrong with it. Without a tag the
    /// variant is a missing annotation, whatever `reading` is.
    pub open spec fn verdict(self, position: int, reading: Result<Seq<char>, Seq<char>>) -> Result<
        ArmView,
        DiagnosticView,
    > {
        match self.tag_position() {
            Some(annotation) => settled(self.name, position, annotation, reading),
            None => Err(DiagnosticView::missing_annotation(position, self.name)),
        }
    }

    /// An arm is the verdict only on a variant whose tag has arguments that
    /// read as a key, and it names the variant and holds that key.
    pub proof fn lemma_arm_is_of_a_key(
        self,
        position: int,
        reading: Result<Seq<char>, Seq<char>>,
        arm: ArmView,
    )
        requires
            self.verdict(position, reading) == Ok::<ArmView, DiagnosticView>(arm),
        ensures
            self.is_tagged(),
            reading == Ok::<Seq<char>, Seq<char>>(arm.key),
            arm.variant == self.name,
            self.admits(reading) ==> self.has_arguments(),
    {
        let j = self.tag_position()->Some_0;
        assert(self.tag_at(j));
        assert(self.annotations[j].is_tag());
    }
}

impl Variant {
    /// Examines the variant at `position`: finds its tag and reads the key
    /// out of it.
    ///
    /// A variant without a tag is a missing annotation, placed at the
    /// variant. Of a tagged variant the verdict is [`settled`] from what the
    /// tag read as: an arm with the key, or a malformed annotation, placed at
    /// the tag, with the message of the failed reading. A tag without
    /// arguments has only one reading, so its verdict is fixed; for a tag
    /// with arguments the verdict is the one that belongs to the reading
    /// that came back.
    pub fn examine(&self, position: usize) -> (verdict: Result<Arm, Diagnostic>)
        ensures
            exists|reading: Result<Seq<char>, Seq<char>>|
                self@.admits(reading) && verdict_view(verdict) == #[trigger] self@.verdict(
                    position as int,
                    reading,
                ),
            !self@.is_tagged() ==> verdict_view(verdict) == Err::<ArmView, DiagnosticView>(
                DiagnosticView::missing_annotation(position as int, self@.name),
            ),
            verdict is Ok ==> self@.has_arguments(),
    {
        match self.tag_position() {
            Some(annotation) => {
                let reading = self.annotations[annotation].read();
                let verdict = settle(self.name.as_str(), position, annotation, reading);
                proof {
                    let read = reading_view(reading);
                    assert(self@.admits(read) && verdict_view(verdict) == self@.verdict(
                        position as int,
                        read,
                    ));
                    if verdict is Ok {
                        self@.lemma_arm_is_of_a_key(position as int, read, verdict_view(verdict)->Ok_0);
                    }
                }
                verdict
            },
            None => {
                let verdict = Err(Diagnostic::missing_annotation(position, self.name.as_str()));
                proof {
                    let any = Err::<Seq<char>, Seq<char>>(Seq::empty());
                    assert(self@.admits(any) && verdict_view(verdict) == self@.verdict(
                        position as int,
                        any,
                    ));
                }
                verdict
            },
        }
    }
}

/// The arm of a verdict, if it has one.
pub open spec fn arm_of(verdict: Result<ArmView, DiagnosticView>) -> Option<ArmView> {
    match verdict {
        Ok(arm) => Some(arm),
        Err(_) => None,
    }
}

/// The diagnostic of a verdict, if it has one.
pub open spec fn diagnostic_of(verdict: Result<ArmView, DiagnosticView>) -> Option<DiagnosticView> {
    match verdict {
        Ok(_) => None,
        Err(diagnostic) => Some(diagnostic),
    }
}

/// The arms among `verdicts`, in order.
pub open spec fn arms_in(verdicts: Seq<Result<ArmView, DiagnosticView>>) -> Seq<ArmView> {
    verdicts.filter_map(|verdict: Result<ArmView, DiagnosticView>| arm_of(verdict))
}

/// The diagnostics among `verdicts`, in order.
pub open spec fn diagnostics_in(verdicts: Seq<Result<ArmView, DiagnosticView>>) -> Seq<
    DiagnosticView,
> {
    verdicts.filter_map(|verdict: Result<ArmView, DiagnosticView>| diagnostic_of(verdict))
}

/// All or nothing: the implementation of the type `name` when no verdict is
/// a diagnostic, else every diagnostic and no implementation.
pub open spec fn collected(name: Seq<char>, verdicts: Seq<Result<ArmView, DiagnosticView>>) -> Result<
    ImplementationView,
    Seq<DiagnosticView>,
> {
    if diagnostics_in(verdicts).len() == 0 {
        Ok(ImplementationView { name, arms: arms_in(verdicts) })
    } else {
        Err(diagnostics_in(verdicts))
    }
}

/// Verdicts that are all arms yield no diagnostic and every arm, in place.
pub proof fn lemma_all_arms(verdicts: Seq<Result<ArmView, DiagnosticView>>)
    requires
        forall|i: int| 0 <= i < verdicts.len() ==> (#[trigger] verdicts[i]) is Ok,
    ensures
        diagnostics_in(verdicts).len() == 0,
        arms_in(verdicts).len() == verdicts.len(),
        forall|i: int|
            0 <= i < verdicts.len() ==> Ok::<ArmView, DiagnosticView>(
                #[trigger] arms_in(verdicts)[i],
            ) == verdicts[i],
    decreases verdicts.len(),
{
    if verdicts.len() > 0 {
        lemma_all_arms(verdicts.drop_last());
    }
}

/// There are no more diagnostics than verdicts.
pub proof fn lemma_diagnostics_are_bounded(verdicts: Seq<Result<ArmView, DiagnosticView>>)
    ensures
        diagnostics_in(verdicts).len() <= verdicts.len(),
    decreases verdicts.len(),
{
    if verdicts.len() > 0 {
        lemma_diagnostics_are_bounded(verdicts.drop_last());
    }
}

/// A diagnostic among the verdicts is among the collected diagnostics.
pub proof fn lemma_diagnostic_is_collected(verdicts: Seq<Result<ArmView, DiagnosticView>>, k: int)
    requires
        0 <= k < verdicts.len(),
        verdicts[k] is Err,
    ensures
        diagnostics_in(verdicts).contains(verdicts[k]->Err_0),
    decreases verdicts.len(),
{
    let rest = verdicts.drop_last();
    if k == verdicts.len() - 1 {
        let found = diagnostics_in(rest) + seq![verdicts[k]->Err_0];
        assert(found[found.len() - 1] == verdicts[k]->Err_0);
    } else {
        lemma_diagnostic_is_collected(rest, k);
        let diagnostic = verdicts[k]->Err_0;
        let i = choose|i: int|
            0 <= i < diagnostics_in(rest).len() && diagnostics_in(rest)[i] == diagnostic;
        assert(diagnostics_in(verdicts)[i] == diagnostic);
    }
}

/// Gathers the verdicts on the variants of the enum `name` into the outcome
/// of generation. One diagnostic is enough to withhold the implementation,
/// and then all of them are returned, in the order of the variants.
pub fn collect(name: String, verdicts: Vec<Result<Arm, Diagnostic>>) -> (outcome: Result<
    Implementation,
    Vec<Diagnostic>,
>)
    ensures
        outcome_view(outcome) == collected(name@, verdict_views(verdicts@)),
        outcome is Ok <==> forall|i: int|
            0 <= i < verdicts@.len() ==> (#[trigger] verdicts@[i]) is Ok,
        match outcome {
            Ok(implementation) => {
                &&& implementation.name@ == name@
                &&& implementation.arms@.len() == verdicts@.len()
                &&& forall|i: int|
                    0 <= i < verdicts@.len() ==> Ok::<ArmView, DiagnosticView>(
                        (#[trigger] implementation.arms@[i])@,
                    ) == verdict_view(verdicts@[i])
            },
            Err(diagnostics) => {
                &&& 1 <= diagnostics@.len() <= verdicts@.len()
                &&& diagnostics@.len() == diagnostics_in(verdict_views(verdicts@)).len()
            },
        },
{
    let ghost all = verdict_views(verdicts@);
    let mut arms: Vec<Arm> = Vec::new();
    let mut diagnostics: Vec<Diagnostic> = Vec::new();
    for verdict in it: verdicts
        invariant
            all == verdict_views(it.seq()),
            arm_views(arms@) == arms_in(all.take(it.index() as int)),
            diagnostic_views(diagnostics@) == diagnostics_in(all.take(it.index() as int)),
    {
        proof {
            all.lemma_filter_map_take_succ(
                |verdict: Result<ArmView, DiagnosticView>| arm_of(verdict),
                it.index() as int,
            );
            all.lemma_filter_map_take_succ(
                |verdict: Result<ArmView, DiagnosticView>| diagnostic_of(verdict),
                it.index() as int,
            );
        }
        match verdict {
            Ok(arm) => arms.push(arm),
            Err(diagnostic) => diagnostics.push(diagnostic),
        }
    }
    proof {
        assert(all.take(all.len() as int) == all);
        lemma_diagnostics_are_bounded(all);
        if forall|i: int| 0 <= i < all.len() ==> (#[trigger] all[i]) is Ok {
            lemma_all_arms(all);
            assert forall|i: int| 0 <= i < arms@.len() implies Ok::<ArmView, DiagnosticView>(
                (#[trigger] arms@[i])@,
            ) == all[i] by {
                assert(arm_views(arms@)[i] == arms_in(all)[i]);
            }
        } else {
            let k = choose|k: int| 0 <= k < all.len() && !((#[trigger] all[k]) is Ok);
            lemma_diagnostic_is_collected(all, k);
        }
        assert forall|i: int| 0 <= i < verdicts@.len() implies ((#[trigger] verdicts@[i]) is Ok
            <==> all[i] is Ok) by {}
    }
    if diagnostics.len() == 0 {
        Ok(Implementation { name, arms })
    } else {
        Err(diagnostics)
    }
}

/// The verdicts on the variants of an enum, one for each, in declaration
/// order, when the tag of variant `i` reads as `readings[i]`.
pub open spec fn verdicts_on(
    variants: Seq<VariantView>,
    readings: Seq<Result<Seq<char>, Seq<char>>>,
) -> Seq<Result<ArmView, DiagnosticView>> {
    Seq::new(variants.len(), |i: int| variants[i].verdict(i, readings[i]))
}

/// What generation makes of a declaration when the tag of variant `i` reads
/// as `readings[i]`. A declaration that is not an enum has nothing to read,
/// and gets the one diagnostic that says so.
pub open spec fn generated(
    declaration: DeclarationView,
    readings: Seq<Result<Seq<char>, Seq<char>>>,
) -> Result<ImplementationView, Seq<DiagnosticView>> {
    match declaration.body {
        BodyView::Enum(variants) => collected(declaration.name, verdicts_on(variants, readings)),
        _ => Err(seq![DiagnosticView::wrong_kind()]),
    }
}

impl DeclarationView {
    /// `readings` are ones that the tags of this declaration can have: one
    /// for each variant of an enum, each admitted by its variant.
    pub open spec fn admits(self, readings: Seq<Result<Seq<char>, Seq<char>>>) -> bool {
        self.body is Enum ==> {
            &&& readings.len() == self.body->Enum_0.len()
            &&& forall|i: int|
                0 <= i < readings.len() ==> (#[trigger] self.body->Enum_0[i]).admits(readings[i])
        }
    }

    /// The declaration can get an implementation: it is an enum, and each of
    /// its variants has a tag with arguments.
    pub open spec fn can_succeed(self) -> bool {
        &&& self.body is Enum
        &&& forall|i: int|
            0 <= i < self.body->Enum_0.len() ==> (#[trigger] self.body->Enum_0[i]).has_arguments()
    }
}

/// Generates the key table of a declaration.
///
/// A declaration that is not an enum is refused outright, with the one
/// diagnostic that says so. Of an enum every variant is examined, whatever
/// was found on the ones before it: the result is the implementation, with
/// one arm for each variant in declaration order, when every variant has a
/// tag that reads as a single string literal, and otherwise the diagnostics
/// of all the variants that do not.
///
/// What a tag with arguments reads as is the parser's answer, so the outcome
/// is stated for the readings that came back: it is [`generated`] from the
/// declaration and some readings that the declaration admits. Where no tag
/// has arguments that fixes the outcome: an enum without variants gets the
/// empty implementation, and a declaration that cannot succeed fails.
pub fn localized_derive(input: &Declaration) -> (outcome: Result<Implementation, Vec<Diagnostic>>)
    ensures
        exists|readings: Seq<Result<Seq<char>, Seq<char>>>|
            input@.admits(readings) && outcome_view(outcome) == #[trigger] generated(
                input@,
                readings,
            ),
        !(input@.body is Enum) ==> outcome_view(outcome) == Err::<
            ImplementationView,
            Seq<DiagnosticView>,
        >(seq![DiagnosticView::wrong_kind()]),
        outcome is Ok ==> input@.can_succeed(),
        input@.body is Enum && input@.body->Enum_0.len() == 0 ==> outcome is Ok,
        match outcome {
            Ok(implementation) => {
                &&& implementation@.name == input@.name
                &&& implementation@.arms.len() == input@.body->Enum_0.len()
                &&& forall|i: int|
                    0 <= i < implementation@.arms.len() ==> (#[trigger] implementation@.arms[i]).variant
                        == input@.body->Enum_0[i].name
            },
            Err(diagnostics) => diagnostics@.len() >= 1,
        },
{
    match &input.body {
        Body::Enum(variants) => {
            let count: usize = variants.len();
            let mut verdicts: Vec<Result<Arm, Diagnostic>> = Vec::new();
            let ghost mut readings: Seq<Result<Seq<char>, Seq<char>>> = Seq::empty();
            let mut position: usize = 0;
            while position < count
                invariant
                    count == variants@.len(),
                    position <= count,
                    verdicts@.len() == position,
                    readings.len() == position,
                    forall|i: int|
                        0 <= i < position ==> variants@[i]@.admits(#[trigger] readings[i]),
                    forall|i: int|
                        0 <= i < position ==> verdict_view(#[trigger] verdicts@[i])
                            == variants@[i]@.verdict(i, readings[i]),
                    forall|i: int|
                        0 <= i < position ==> ((#[trigger] verdicts@[i]) is Ok
                            ==> variants@[i]@.has_arguments()),
                decreases count - position,
            {
                let verdict = variants[position].examine(position);
                proof {
                    let variant = variants@[position as int]@;
                    let reading = choose|reading: Result<Seq<char>, Seq<char>>|
                        variant.admits(reading) && verdict_view(verdict) == #[trigger] variant.verdict(
                            position as int,
                            reading,
                        );
                    readings = readings.push(reading);
                }
                verdicts.push(verdict);
                position += 1;
            }
            let outcome = collect(input.name.clone(), verdicts);
            proof {
                let declared = input@.body->Enum_0;
                assert(verdict_views(verdicts@) == verdicts_on(declared, readings));
                assert(input@.admits(readings) && outcome_view(outcome) == generated(
                    input@,
                    readings,
                ));
                if outcome is Ok {
                    let implementation = outcome->Ok_0;
                    assert forall|i: int| 0 <= i < declared.len() implies (
                    #[trigger] declared[i]).has_arguments() by {
                        assert(verdicts@[i] is Ok);
                    }
                    assert forall|i: int| 0 <= i < implementation@.arms.len() implies (
                    #[trigger] implementation@.arms[i]).variant == declared[i].name by {
                        assert(Ok::<ArmView, DiagnosticView>(implementation.arms@[i]@)
                            == verdict_view(verdicts@[i]));
                        declared[i].lemma_arm_is_of_a_key(i, readings[i], implementation@.arms[i]);
                    }
                }
            }
            outcome
        },
        _ => {
            let mut diagnostics: Vec<Diagnostic> = Vec::new();
            diagnostics.push(Diagnostic::wrong_kind());
            let outcome = Err(diagnostics);
            proof {
                let none: Seq<Result<Seq<char>, Seq<char>>> = Seq::empty();
                assert(diagnostic_views(diagnostics@) == seq![DiagnosticView::wrong_kind()]);
                assert(input@.admits(none) && outcome_view(outcome) == generated(input@, none));
            }
            outcome
        },
    }
}

} // verus!
