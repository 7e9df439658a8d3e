//! What is emitted for an enum: its names, and for each message enum the mapping of the
//! variants by name.

use vstd::prelude::*;

use crate::codegen::types::{clone_text, clone_texts, distinct_names, is_new_name};
use crate::codegen::types::{text_view, text_views};
use crate::codegen::types::{Data, DeriveInput, DescriptorError, Paths, Style};
use crate::codegen::types::{Variant, VariantReceiver};

verus! {

/// One variant of a mapped enum: its name, and the name of the message enum's variant where
/// that differs.
pub struct VariantDescriptor {
    pub ident: Seq<char>,
    pub rename: Option<Seq<char>>,
}

/// A mapped enum: its name, its variants in the order of their declaration, and the
/// message enums it is mapped to.
pub struct EnumDescriptor {
    pub ident: Seq<char>,
    pub variants: Seq<VariantDescriptor>,
    pub targets: Seq<Seq<char>>,
}

impl VariantDescriptor {
    /// The name of the variant on the message side.
    pub open spec fn proto_ident(self) -> Seq<char> {
        match self.rename {
            Some(name) => name,
            None => self.ident,
        }
    }
}

impl EnumDescriptor {
    /// The names of the variants.
    pub open spec fn idents(self) -> Seq<Seq<char>> {
        Seq::new(self.variants.len(), |i: int| self.variants[i].ident)
    }

    /// The names of the variants on the message side.
    pub open spec fn proto_idents(self) -> Seq<Seq<char>> {
        Seq::new(self.variants.len(), |i: int| self.variants[i].proto_ident())
    }

    /// A target is named, and no two variants share a name on either side.
    pub open spec fn well_formed(self) -> bool {
        &&& self.targets.len() > 0
        &&& distinct_names(self.idents(), self.variants.len() as int)
        &&& distinct_names(self.proto_idents(), self.variants.len() as int)
    }

    /// The arms that map each variant to the message side, in the order of declaration.
    pub open spec fn arms(self) -> Seq<VariantArmView> {
        Seq::new(
            self.variants.len(),
            |i: int|
                VariantArmView {
                    variant: self.variants[i].ident,
                    proto_variant: self.variants[i].proto_ident(),
                },
        )
    }

    /// The implementations that are emitted for the enum: its names; packing to and
    /// unpacking from an integer by way of the first target; and the mapping for each
    /// target.
    pub open spec fn impls(self) -> Seq<EnumImplView> {
        seq![
            EnumImplView::Meta { ident: self.ident, name: self.ident, variant_names: self.idents() },
            EnumImplView::PackI32 { ident: self.ident, proto_enum_type: self.targets[0] },
            EnumImplView::UnpackI32 { ident: self.ident, proto_enum_type: self.targets[0] },
        ] + Seq::new(
            self.targets.len(),
            |i: int|
                EnumImplView::ProtoEnum {
                    ident: self.ident,
                    proto_enum_type: self.targets[i],
                    arms: self.arms(),
                },
        )
    }
}

/// An arm of the emitted mapping: a variant of the model and the variant that stands for it
/// in the message.
#[derive(Clone, Debug, PartialEq, Eq)]
pub struct VariantArm {
    pub variant: String,
    pub proto_variant: String,
}

/// What an arm holds.
pub struct VariantArmView {
    pub variant: Seq<char>,
    pub proto_variant: Seq<char>,
}

impl View for VariantArm {
    type V = VariantArmView;

    open spec fn view(&self) -> VariantArmView {
        VariantArmView { variant: self.variant@, proto_variant: self.proto_variant@ }
    }
}

/// What each of a list of arms holds.
pub open spec fn arm_views(arms: Seq<VariantArm>) -> Seq<VariantArmView> {
    Seq::new(arms.len(), |i: int| arms[i]@)
}

/// One implementation that is emitted for a mapped enum `ident`.
#[derive(Clone, Debug, PartialEq, Eq)]
pub enum EnumImpl {
    /// The enum's name `name` and, for each variant, its own name.
    Meta { ident: String, name: String, variant_names: Vec<String> },
    /// Packing to an integer: the variant's counterpart in `proto_enum_type`, as its code.
    PackI32 { ident: String, proto_enum_type: String },
    /// Unpacking from an integer that must be a code of `proto_enum_type`.
    UnpackI32 { ident: String, proto_enum_type: String },
    /// The mapping to and from `proto_enum_type`, by the names in `arms`.
    ProtoEnum { ident: String, proto_enum_type: String, arms: Vec<VariantArm> },
}

/// What an emitted implementation holds.
pub enum EnumImplView {
    Meta { ident: Seq<char>, name: Seq<char>, variant_names: Seq<Seq<char>> },
    PackI32 { ident: Seq<char>, proto_enum_type: Seq<char> },
    UnpackI32 { ident: Seq<char>, proto_enum_type: Seq<char> },
    ProtoEnum { ident: Seq<char>, proto_enum_type: Seq<char>, arms: Seq<VariantArmView> },
}

impl View for EnumImpl {
    type V = EnumImplView;

    open spec fn view(&self) -> EnumImplView {
        match self {
            EnumImpl::Meta { ident, name, variant_names } => EnumImplView::Meta {
                ident: ident@,
                name: name@,
                variant_names: text_views(variant_names@),
            },
            EnumImpl::PackI32 { ident, proto_enum_type } => EnumImplView::PackI32 {
                ident: ident@,
                proto_enum_type: proto_enum_type@,
            },
            EnumImpl::UnpackI32 { ident, proto_enum_type } => EnumImplView::UnpackI32 {
                ident: ident@,
                proto_enum_type: proto_enum_type@,
            },
            EnumImpl::ProtoEnum { ident, proto_enum_type, arms } => EnumImplView::ProtoEnum {
                ident: ident@,
                proto_enum_type: proto_enum_type@,
                arms: arm_views(arms@),
            },
        }
    }
}

/// What each of a list of emitted implementations holds.
pub open spec fn enum_impl_views(impls: Seq<EnumImpl>) -> Seq<EnumImplView> {
    Seq::new(impls.len(), |i: int| impls[i]@)
}

/// The message variant that the first arm for `variant` names, if there is such an arm.
pub open spec fn arm_for_variant(arms: Seq<VariantArmView>, variant: Seq<char>) -> Option<
    Seq<char>,
>
    decreases arms.len(),
{
    if arms.len() == 0 {
        None
    } else if arms[0].variant == variant {
        Some(arms[0].proto_variant)
    } else {
        arm_for_variant(arms.drop_first(), variant)
    }
}

/// The model variant that the first arm for `proto_variant` names, if there is such an arm.
pub open spec fn arm_for_proto(arms: Seq<VariantArmView>, proto_variant: Seq<char>) -> Option<
    Seq<char>,
>
    decreases arms.len(),
{
    if arms.len() == 0 {
        None
    } else if arms[0].proto_variant == proto_variant {
        Some(arms[0].variant)
    } else {
        arm_for_proto(arms.drop_first(), proto_variant)
    }
}

/// What a declared variant says of the mapping.
pub open spec fn variant_descriptor(v: VariantReceiver) -> VariantDescriptor {
    VariantDescriptor { ident: v.ident@, rename: text_view(v.rename) }
}

/// The descriptor that a declaration asks for, if it is accepted.
pub open spec fn enum_descriptor(input: DeriveInput) -> EnumDescriptor {
    EnumDescriptor {
        ident: input.ident@,
        variants: match input.data {
            Data::Enum { variants } => Seq::new(
                variants@.len(),
                |i: int| variant_descriptor(variants@[i].receiver),
            ),
            Data::Struct { .. } => Seq::empty(),
        },
        targets: text_views(input.proto_enum_type.paths@),
    }
}

/// The declaration is an enum whose variants have no fields.
pub open spec fn is_unit_enum(input: DeriveInput) -> bool {
    input.data matches Data::Enum { variants } && forall|i: int|
        0 <= i < variants@.len() ==> (#[trigger] variants@[i]).style == Style::Unit
}

/// The variant at `index` takes a name, on one side or the other, that a variant before it
/// has.
pub open spec fn is_ambiguous_variant(d: EnumDescriptor, index: int) -> bool {
    !is_new_name(d.idents(), index) || !is_new_name(d.proto_idents(), index)
}

/// The answer to a declaration: the descriptor where it is accepted, and else the first
/// reason to refuse it.
pub open spec fn enum_input_result(
    input: DeriveInput,
    r: Result<EnumDescriptor, DescriptorError>,
) -> bool {
    let d = enum_descriptor(input);
    if !is_unit_enum(input) {
        r == Err::<EnumDescriptor, DescriptorError>(DescriptorError::UnsupportedShape)
    } else if d.targets.len() == 0 {
        r == Err::<EnumDescriptor, DescriptorError>(DescriptorError::MissingTargetType)
    } else {
        match r {
            Ok(accepted) => accepted == d && d.well_formed(),
            Err(DescriptorError::AmbiguousName { index }) => {
                &&& index < d.variants.len()
                &&& is_ambiguous_variant(d, index as int)
                &&& forall|j: int| 0 <= j < index ==> !is_ambiguous_variant(d, j)
            },
            Err(_) => false,
        }
    }
}

/// The descriptor of a mapped enum, checked.
#[derive(Debug)]
pub struct InputReceiver {
    ident: String,
    variants: Vec<VariantReceiver>,
    proto_enum_type: Paths,
}

impl View for InputReceiver {
    type V = EnumDescriptor;

    closed spec fn view(&self) -> EnumDescriptor {
        EnumDescriptor {
            ident: self.ident@,
            variants: Seq::new(self.variants@.len(), |i: int| variant_descriptor(self.variants@[i])),
            targets: text_views(self.proto_enum_type.paths@),
        }
    }
}

/// The name of a variant on the message side.
fn proto_ident(v: &VariantReceiver) -> (r: &String)
    ensures
        r@ == variant_descriptor(*v).proto_ident(),
{
    match &v.rename {
        Some(name) => name,
        None => &v.ident,
    }
}

impl InputReceiver {
    #[verifier::type_invariant]
    spec fn valid(self) -> bool {
        self@.well_formed()
    }

    /// Checks a declaration and makes its descriptor.
    pub fn from_derive_input(input: &DeriveInput) -> (r: Result<InputReceiver, DescriptorError>)
        ensures
            enum_input_result(
                *input,
                match r {
                    Ok(receiver) => Ok(receiver@),
                    Err(e) => Err(e),
                },
            ),
    {
        let declared = match &input.data {
            Data::Enum { variants } => variants,
            Data::Struct { .. } => {
                return Err(DescriptorError::UnsupportedShape);
            },
        };
        let ghost d = enum_descriptor(*input);
        let mut variants: Vec<VariantReceiver> = Vec::new();
        let mut i: usize = 0;
        while i < declared.len()
            invariant
                i <= declared.len(),
                input.data == (Data::Enum { variants: *declared }),
                variants@.len() == i,
                forall|j: int| 0 <= j < i ==> (#[trigger] declared@[j]).style == Style::Unit,
                forall|j: int|
                    0 <= j < i ==> variant_descriptor(#[trigger] variants@[j]) == variant_descriptor(
                        declared@[j].receiver,
                    ),
            decreases declared.len() - i,
        {
            match declared[i].style {
                Style::Unit => {},
                _ => {
                    return Err(DescriptorError::UnsupportedShape);
                },
            }
            let rename = match &declared[i].receiver.rename {
                Some(name) => Some(clone_text(name)),
                None => None,
            };
            variants.push(VariantReceiver { ident: clone_text(&declared[i].receiver.ident), rename });
            i = i + 1;
        }
        if input.proto_enum_type.paths.len() == 0 {
            return Err(DescriptorError::MissingTargetType);
        }
        let mut j: usize = 0;
        while j < variants.len()
            invariant
                j <= variants.len(),
                is_unit_enum(*input),
                d.targets.len() > 0,
                variants@.len() == d.variants.len(),
                d == enum_descriptor(*input),
                forall|k: int|
                    0 <= k < variants@.len() ==> variant_descriptor(#[trigger] variants@[k])
                        == d.variants[k],
                forall|k: int| 0 <= k < j ==> !is_ambiguous_variant(d, k),
            decreases variants.len() - j,
        {
            let mut i: usize = 0;
            while i < j
                invariant
                    i <= j < variants.len(),
                    is_unit_enum(*input),
                    d == enum_descriptor(*input),
                    d.targets.len() > 0,
                    forall|k: int| 0 <= k < j ==> !is_ambiguous_variant(d, k),
                    variants@.len() == d.variants.len(),
                    forall|k: int|
                        0 <= k < variants@.len() ==> variant_descriptor(#[trigger] variants@[k])
                            == d.variants[k],
                    forall|k: int| 0 <= k < i ==> d.idents()[k] != d.idents()[j as int],
                    forall|k: int| 0 <= k < i ==> d.proto_idents()[k] != d.proto_idents()[j as int],
                decreases j - i,
            {
                assert(variant_descriptor(variants@[i as int]) == d.variants[i as int]);
                assert(variant_descriptor(variants@[j as int]) == d.variants[j as int]);
                if variants[i].ident == variants[j].ident || *proto_ident(&variants[i])
                    == *proto_ident(&variants[j]) {
                    assert(d.idents()[i as int] == d.idents()[j as int] || d.proto_idents()[i as int]
                        == d.proto_idents()[j as int]);
                    assert(is_ambiguous_variant(d, j as int));
                    return Err(DescriptorError::AmbiguousName { index: j });
                }
                i = i + 1;
            }
            assert(!is_ambiguous_variant(d, j as int));
            j = j + 1;
        }
        let ident = clone_text(&input.ident);
        let paths = clone_texts(&input.proto_enum_type.paths);
        proof {
            let made = EnumDescriptor {
                ident: ident@,
                variants: Seq::new(variants@.len(), |i: int| variant_descriptor(variants@[i])),
                targets: text_views(paths@),
            };
            assert(made.variants =~= d.variants);
            assert(made == d);
            assert forall|k: int| 0 <= k < d.variants.len() implies is_new_name(d.idents(), k)
                && is_new_name(d.proto_idents(), k) by {
                assert(!is_ambiguous_variant(d, k));
            }
        }
        let receiver = InputReceiver { ident, variants, proto_enum_type: Paths { paths } };
        Ok(receiver)
    }

    /// The name of the enum.
    pub fn ident(&self) -> (r: &String)
        ensures
            r@ == self@.ident,
    {
        &self.ident
    }

    /// The variants, in the order of their declaration.
    pub fn variants(&self) -> (r: &Vec<VariantReceiver>)
        ensures
            r@.len() == self@.variants.len(),
            forall|i: int|
                0 <= i < r@.len() ==> variant_descriptor(#[trigger] r@[i]) == self@.variants[i],
    {
        &self.variants
    }

    /// The message enums that the enum is mapped to; there is at least one.
    pub fn proto_enum_type(&self) -> (r: &Paths)
        ensures
            text_views(r.paths@) == self@.targets,
            r.paths@.len() > 0,
    {
        proof {
            use_type_invariant(self);
        }
        &self.proto_enum_type
    }

    /// The names of the variants.
    fn variant_names(&self) -> (r: Vec<String>)
        ensures
            text_views(r@) == self@.idents(),
    {
        let mut names: Vec<String> = Vec::new();
        let mut i: usize = 0;
        while i < self.variants.len()
            invariant
                i <= self.variants.len(),
                names@.len() == i,
                forall|j: int| 0 <= j < i ==> names@[j]@ == self.variants@[j].ident@,
            decreases self.variants.len() - i,
        {
            names.push(clone_text(&self.variants[i].ident));
            i = i + 1;
        }
        names
    }

    /// The arms of the mapping, one for each variant.
    fn arms(&self) -> (r: Vec<VariantArm>)
        ensures
            arm_views(r@) == self@.arms(),
    {
        let mut arms: Vec<VariantArm> = Vec::new();
        let mut i: usize = 0;
        while i < self.variants.len()
            invariant
                i <= self.variants.len(),
                arms@.len() == i,
                forall|j: int| 0 <= j < i ==> (#[trigger] arms@[j])@ == self@.arms()[j],
            decreases self.variants.len() - i,
        {
            let v = &self.variants[i];
            arms.push(
                VariantArm { variant: clone_text(&v.ident), proto_variant: clone_text(proto_ident(v)) },
            );
            i = i + 1;
        }
        arms
    }

    /// Emits the implementations for the enum, behind what `tokens` holds already.
    pub fn to_tokens(&self, tokens: &mut Vec<EnumImpl>)
        ensures
            enum_impl_views(final(tokens)@) == enum_impl_views(old(tokens)@) + self@.impls(),
    {
        proof {
            use_type_invariant(self);
        }
        let ghost before = tokens@;
        let ghost d = self@;
        tokens.push(
            EnumImpl::Meta {
                ident: clone_text(&self.ident),
                name: clone_text(&self.ident),
                variant_names: self.variant_names(),
            },
        );
        let first = &self.proto_enum_type.paths[0];
        tokens.push(
            EnumImpl::PackI32 { ident: clone_text(&self.ident), proto_enum_type: clone_text(first) },
        );
        tokens.push(
            EnumImpl::UnpackI32 { ident: clone_text(&self.ident), proto_enum_type: clone_text(first) },
        );
        let mut i: usize = 0;
        while i < self.proto_enum_type.paths.len()
            invariant
                i <= self.proto_enum_type.paths.len(),
                d == self@,
                d.targets.len() == self.proto_enum_type.paths@.len(),
                tokens@.len() == before.len() + 3 + i,
                forall|j: int| 0 <= j < before.len() ==> tokens@[j] == before[j],
                forall|k: int|
                    before.len() <= k < tokens@.len() ==> (#[trigger] tokens@[k])@ == d.impls()[k
                        - before.len()],
            decreases self.proto_enum_type.paths.len() - i,
        {
            tokens.push(
                EnumImpl::ProtoEnum {
                    ident: clone_text(&self.ident),
                    proto_enum_type: clone_text(&self.proto_enum_type.paths[i]),
                    arms: self.arms(),
                },
            );
            i = i + 1;
        }
        assert(enum_impl_views(tokens@) =~= enum_impl_views(before) + d.impls());
    }

    /// The message variant that the emitted mapping gives for the model variant `variant`;
    /// `None` where the enum has no such variant.
    pub fn into_proto_enum(&self, variant: &str) -> (r: Option<String>)
        ensures
            text_view(r) == arm_for_variant(self@.arms(), variant@),
    {
        let ghost arms = self@.arms();
        let wanted = variant.to_owned();
        let mut i: usize = 0;
        assert(arms.skip(0) =~= arms);
        while i < self.variants.len()
            invariant
                i <= self.variants.len(),
                arms == self@.arms(),
                wanted@ == variant@,
                arm_for_variant(arms, variant@) == arm_for_variant(arms.skip(i as int), variant@),
            decreases self.variants.len() - i,
        {
            let v = &self.variants[i];
            proof {
                let rest = arms.skip(i as int);
                assert(rest[0] == arms[i as int]);
                assert(rest.drop_first() =~= arms.skip(i + 1));
                assert(arms[i as int].variant == v.ident@);
                assert(arms[i as int].proto_variant == variant_descriptor(*v).proto_ident());
            }
            if v.ident == wanted {
                return Some(clone_text(proto_ident(v)));
            }
            i = i + 1;
        }
        assert(arms.skip(i as int).len() == 0);
        None
    }

    /// The model variant that the emitted mapping gives for the message variant
    /// `proto_variant`; `None` where no variant is mapped to it.
    pub fn unpack_enum(&self, proto_variant: &str) -> (r: Option<String>)
        ensures
            text_view(r) == arm_for_proto(self@.arms(), proto_variant@),
    {
        let ghost arms = self@.arms();
        let wanted = proto_variant.to_owned();
        let mut i: usize = 0;
        assert(arms.skip(0) =~= arms);
        while i < self.variants.len()
            invariant
                i <= self.variants.len(),
                arms == self@.arms(),
                wanted@ == proto_variant@,
                arm_for_proto(arms, proto_variant@) == arm_for_proto(
                    arms.skip(i as int),
                    proto_variant@,
                ),
            decreases self.variants.len() - i,
        {
            let v = &self.variants[i];
            proof {
                let rest = arms.skip(i as int);
                assert(rest[0] == arms[i as int]);
                assert(rest.drop_first() =~= arms.skip(i + 1));
                assert(arms[i as int].variant == v.ident@);
                assert(arms[i as int].proto_variant == variant_descriptor(*v).proto_ident());
            }
            if *proto_ident(v) == wanted {
                return Some(clone_text(&v.ident));
            }
            i = i + 1;
        }
        assert(arms.skip(i as int).len() == 0);
        None
    }
}

/// The first arm for a variant is the arm at `i` where no arm before it is for the same
/// variant.
pub proof fn lemma_arm_for_variant(arms: Seq<VariantArmView>, i: int)
    requires
        0 <= i < arms.len(),
        forall|j: int| 0 <= j < i ==> (#[trigger] arms[j]).variant != arms[i].variant,
    ensures
        arm_for_variant(arms, arms[i].variant) == Some(arms[i].proto_variant),
    decreases i,
{
    if i > 0 {
        let rest = arms.drop_first();
        assert forall|j: int| 0 <= j < i - 1 implies (#[trigger] rest[j]).variant != rest[i
            - 1].variant by {
            assert(rest[j] == arms[j + 1]);
        }
        lemma_arm_for_variant(rest, i - 1);
    }
}

/// The first arm for a message variant is the arm at `i` where no arm before it is for the
/// same message variant.
pub proof fn lemma_arm_for_proto(arms: Seq<VariantArmView>, i: int)
    requires
        0 <= i < arms.len(),
        forall|j: int| 0 <= j < i ==> (#[trigger] arms[j]).proto_variant != arms[i].proto_variant,
    ensures
        arm_for_proto(arms, arms[i].proto_variant) == Some(arms[i].variant),
    decreases i,
{
    if i > 0 {
        let rest = arms.drop_first();
        assert forall|j: int| 0 <= j < i - 1 implies (#[trigger] rest[j]).proto_variant != rest[i
            - 1].proto_variant by {
            assert(rest[j] == arms[j + 1]);
        }
        lemma_arm_for_proto(rest, i - 1);
    }
}

/// The emitted mapping is a bijection between the variants of the enum and the message
/// variants that stand for them: a variant that is mapped to the message side and back is
/// the same variant again, and so is a message variant that is mapped to the model and back.
pub proof fn lemma_enum_round_trip(d: EnumDescriptor, i: int)
    requires
        d.well_formed(),
        0 <= i < d.variants.len(),
    ensures
        arm_for_variant(d.arms(), d.variants[i].ident) == Some(d.variants[i].proto_ident()),
        arm_for_proto(d.arms(), d.variants[i].proto_ident()) == Some(d.variants[i].ident),
{
    let arms = d.arms();
    assert(is_new_name(d.idents(), i));
    assert(is_new_name(d.proto_idents(), i));
    assert forall|j: int| 0 <= j < i implies (#[trigger] arms[j]).variant != arms[i].variant by {
        assert(d.idents()[j] != d.idents()[i]);
    }
    assert forall|j: int| 0 <= j < i implies (#[trigger] arms[j]).proto_variant
        != arms[i].proto_variant by {
        assert(d.proto_idents()[j] != d.proto_idents()[i]);
    }
    lemma_arm_for_variant(arms, i);
    lemma_arm_for_proto(arms, i);
}

} // verus!
