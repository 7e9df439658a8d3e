//! A declaration as the emitting rules read it, and the reasons to refuse one.

use vstd::prelude::*;

verus! {

/// The type paths that an attribute names, in the order in which it names them.
#[derive(Clone, Debug, PartialEq, Eq)]
pub struct Paths {
    pub paths: Vec<String>,
}

/// How the fields of a struct or of an enum variant are written.
#[derive(Clone, Copy, Debug, PartialEq, Eq, Structural)]
pub enum Style {
    /// `{ name: Type, .. }`
    Named,
    /// `(Type, ..)`
    Tuple,
    /// No fields at all.
    Unit,
}

/// One field of a model struct with what its attributes say.
#[derive(Clone, Debug, PartialEq, Eq)]
pub struct FieldReceiver {
    /// The field's name; a field of a tuple struct has none.
    pub ident: Option<String>,
    /// The field's type.
    pub ty: String,
    /// The name of the message field, where it differs from the model's.
    pub rename: Option<String>,
    /// A function that is applied to the value in place of the ordinary conversion.
    pub map_fn: Option<String>,
    /// The field is an enum that the message reads and writes through accessors.
    pub proto_enum: bool,
    /// The field is left out when the model is packed.
    pub skip_pack: bool,
}

/// One variant of a model enum with what its attributes say.
#[derive(Clone, Debug, PartialEq, Eq)]
pub struct VariantReceiver {
    /// The variant's name.
    pub ident: String,
    /// The name of the message enum's variant, where it differs from the model's.
    pub rename: Option<String>,
}

/// A variant as it was declared: with its fields' style.
#[derive(Clone, Debug, PartialEq, Eq)]
pub struct Variant {
    pub style: Style,
    pub receiver: VariantReceiver,
}

/// The body of a type declaration.
#[derive(Clone, Debug, PartialEq, Eq)]
pub enum Data {
    Struct { style: Style, fields: Vec<FieldReceiver> },
    Enum { variants: Vec<Variant> },
}

/// A type declaration with the attributes that ask for a mapping.
#[derive(Clone, Debug, PartialEq, Eq)]
pub struct DeriveInput {
    /// The name of the model type.
    pub ident: String,
    pub data: Data,
    /// The message types that a struct is mapped to.
    pub message_type: Paths,
    /// The message enums that an enum is mapped to.
    pub proto_enum_type: Paths,
}

/// Why a declaration is refused.
#[derive(Clone, Copy, Debug, PartialEq, Eq, Structural)]
pub enum DescriptorError {
    /// The mapping is not defined for a declaration of this kind.
    UnsupportedShape,
    /// No message type is named to map to.
    MissingTargetType,
    /// The name of the field or variant at `index` on the message side is already taken
    /// by one before it.
    AmbiguousName { index: usize },
}

/// What an optional text holds.
pub open spec fn text_view(text: Option<String>) -> Option<Seq<char>> {
    match text {
        Some(t) => Some(t@),
        None => None,
    }
}

/// What each of a list of texts holds.
pub open spec fn text_views(texts: Seq<String>) -> Seq<Seq<char>> {
    Seq::new(texts.len(), |i: int| texts[i]@)
}

/// No text of `names` before `index` equals the one at `index`.
pub open spec fn is_new_name(names: Seq<Seq<char>>, index: int) -> bool {
    forall|i: int| 0 <= i < index ==> names[i] != names[index]
}

/// No text occurs twice among the first `len` of `names`.
pub open spec fn distinct_names(names: Seq<Seq<char>>, len: int) -> bool {
    forall|j: int| 0 <= j < len ==> is_new_name(names, j)
}

/// Copies a text.
pub(crate) fn clone_text(text: &String) -> (r: String)
    ensures
        r@ == text@,
{
    text.clone()
}

/// Copies a list of texts.
pub(crate) fn clone_texts(texts: &Vec<String>) -> (r: Vec<String>)
    ensures
        text_views(r@) == text_views(texts@),
{
    let mut r: Vec<String> = Vec::new();
    let mut i: usize = 0;
    while i < texts.len()
        invariant
            i <= texts.len(),
            r@.len() == i,
            forall|j: int| 0 <= j < i ==> r@[j]@ == texts@[j]@,
        decreases texts.len() - i,
    {
        r.push(clone_text(&texts[i]));
        i = i + 1;
    }
    r
}

} // verus!
