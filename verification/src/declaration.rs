//! The declaration a key table is worked out from: a named type, its variants
//! in the order they were written, and the annotations on each variant.

use vstd::prelude::*;
use vstd::string::StringExecFns;

verus! {

/// What follows the name inside an annotation.
#[derive(Debug, Clone, PartialEq, Eq)]
pub enum Payload {
    /// Nothing: `#[tag]`.
    Absent,
    /// An assignment: `#[tag = "a.key"]`.
    Assigned,
    /// A delimited group, held as the text of the tokens between the
    /// delimiters: `"a.key"` for `#[tag("a.key")]`.
    Arguments(String),
}

/// The mathematical value of a [`Payload`].
pub enum PayloadView {
    Absent,
    Assigned,
    Arguments(Seq<char>),
}

impl View for Payload {
    type V = PayloadView;

    open spec fn view(&self) -> PayloadView {
        match self {
            Payload::Absent => PayloadView::Absent,
            Payload::Assigned => PayloadView::Assigned,
            Payload::Arguments(tokens) => PayloadView::Arguments(tokens@),
        }
    }
}

/// One annotation on a variant.
#[derive(Debug, Clone, PartialEq, Eq)]
pub struct Annotation {
    /// The path that names the annotation, as text: `tag`, `serde::rename`.
    pub name: String,
    pub payload: Payload,
}

/// The mathematical value of an [`Annotation`].
pub struct AnnotationView {
    pub name: Seq<char>,
    pub payload: PayloadView,
}

impl View for Annotation {
    type V = AnnotationView;

    open spec fn view(&self) -> AnnotationView {
        AnnotationView { name: self.name@, payload: self.payload@ }
    }
}

impl AnnotationView {
    /// Whether this is the annotation that carries a variant's key.
    pub open spec fn is_tag(self) -> bool {
        self.name == "tag"@
    }
}

impl Annotation {
    /// Whether this is the annotation that carries a variant's key: the one
    /// whose name is the single identifier `tag`.
    pub fn is_tag(&self) -> (tagged: bool)
        ensures
            tagged == self@.is_tag(),
    {
        self.name == String::from_str("tag")
    }
}

/// One variant of an enum, with its annotations in the order they were written.
#[derive(Debug, Clone, PartialEq, Eq)]
pub struct Variant {
    pub name: String,
    pub annotations: Vec<Annotation>,
}

/// The mathematical value of a [`Variant`].
pub struct VariantView {
    pub name: Seq<char>,
    pub annotations: Seq<AnnotationView>,
}

impl View for Variant {
    type V = VariantView;

    open spec fn view(&self) -> VariantView {
        VariantView {
            name: self.name@,
            annotations: Seq::new(self.annotations@.len(), |j: int| self.annotations@[j]@),
        }
    }
}

impl VariantView {
    /// Annotation `j` is the variant's tag: it is named `tag`, and no
    /// annotation before it is.
    pub open spec fn tag_at(self, j: int) -> bool {
        &&& 0 <= j < self.annotations.len()
        &&& self.annotations[j].is_tag()
        &&& forall|k: int| 0 <= k < j ==> !(#[trigger] self.annotations[k]).is_tag()
    }

    /// Some annotation of the variant is named `tag`.
    pub open spec fn is_tagged(self) -> bool {
        exists|j: int| 0 <= j < self.annotations.len() && (#[trigger] self.annotations[j]).is_tag()
    }

    /// The position of the variant's tag among its annotations.
    pub open spec fn tag_position(self) -> Option<int> {
        if exists|j: int| self.tag_at(j) {
            Some(choose|j: int| self.tag_at(j))
        } else {
            None
        }
    }

    /// A variant has at most one tag, so naming it fixes `tag_position`.
    pub proof fn lemma_tag_is_unique(self, j: int)
        requires
            self.tag_at(j),
        ensures
            self.tag_position() == Some(j),
    {
        let chosen = choose|j: int| self.tag_at(j);
        if chosen < j {
            assert(!self.annotations[chosen].is_tag());
        } else if j < chosen {
            assert(!self.annotations[j].is_tag());
        }
    }

    /// Before any annotation named `tag` stands the variant's tag, or it is
    /// the tag itself.
    pub proof fn lemma_tagged_has_a_tag(self, j: int)
        requires
            0 <= j < self.annotations.len(),
            self.annotations[j].is_tag(),
        ensures
            self.tag_position() is Some,
            self.tag_at(self.tag_position()->Some_0),
            self.tag_position()->Some_0 <= j,
        decreases j,
    {
        if exists|k: int| 0 <= k < j && (#[trigger] self.annotations[k]).is_tag() {
            let k = choose|k: int| 0 <= k < j && (#[trigger] self.annotations[k]).is_tag();
            self.lemma_tagged_has_a_tag(k);
        } else {
            assert(self.tag_at(j));
            self.lemma_tag_is_unique(j);
        }
    }

    /// Without an annotation named `tag` there is no tag position.
    pub proof fn lemma_untagged_has_no_tag(self)
        requires
            !self.is_tagged(),
        ensures
            self.tag_position().is_none(),
    {
        if exists|j: int| self.tag_at(j) {
            let j = choose|j: int| self.tag_at(j);
            assert(self.annotations[j].is_tag());
        }
    }
}

impl Variant {
    /// Finds the variant's tag: the first annotation named `tag`. Later
    /// annotations of that name are not looked at.
    pub fn tag_position(&self) -> (position: Option<usize>)
        ensures
            match position {
                Some(j) => self@.tag_at(j as int),
                None => !self@.is_tagged(),
            },
            match position {
                Some(j) => self@.tag_position() == Some(j as int),
                None => self@.tag_position().is_none(),
            },
    {
        let count: usize = self.annotations.len();
        let mut j: usize = 0;
        while j < count
            invariant
                count == self.annotations@.len(),
                j <= count,
                forall|k: int| 0 <= k < j ==> !(#[trigger] self@.annotations[k]).is_tag(),
            decreases count - j,
        {
            if self.annotations[j].is_tag() {
                proof {
                    self@.lemma_tag_is_unique(j as int);
                }
                return Some(j);
            }
            j += 1;
        }
        proof {
            self@.lemma_untagged_has_no_tag();
        }
        None
    }
}

/// The shape of a declared type.
#[derive(Debug, Clone, PartialEq, Eq)]
pub enum Body {
    /// An enum, with its variants in declaration order.
    Enum(Vec<Variant>),
    Struct,
    Union,
}

/// The mathematical value of a [`Body`].
pub enum BodyView {
    Enum(Seq<VariantView>),
    Struct,
    Union,
}

impl View for Body {
    type V = BodyView;

    open spec fn view(&self) -> BodyView {
        match self {
            Body::Enum(variants) => BodyView::Enum(Seq::new(variants@.len(), |i: int| variants@[i]@)),
            Body::Struct => BodyView::Struct,
            Body::Union => BodyView::Union,
        }
    }
}

/// A type declaration: the input of key generation.
#[derive(Debug, Clone, PartialEq, Eq)]
pub struct Declaration {
    pub name: String,
    pub body: Body,
}

/// The mathematical value of a [`Declaration`].
pub struct DeclarationView {
    pub name: Seq<char>,
    pub body: BodyView,
}

impl View for Declaration {
    type V = DeclarationView;

    open spec fn view(&self) -> DeclarationView {
        DeclarationView { name: self.name@, body: self.body@ }
    }
}

} // verus!
