//! Descriptive attributes that a token carries, among them its royalty terms.

use vstd::prelude::*;

verus! {

/// One descriptive attribute of a token.
#[derive(Debug, PartialEq, Eq)]
pub struct Trait {
    pub display_type: Option<String>,
    pub trait_type: String,
    pub value: String,
}

/// What a `Trait` holds.
pub struct TraitView {
    pub display_type: Option<Seq<char>>,
    pub trait_type: Seq<char>,
    pub value: Seq<char>,
}

impl View for Trait {
    type V = TraitView;

    open spec fn view(&self) -> TraitView {
        TraitView {
            display_type: self.display_type.deep_view(),
            trait_type: self.trait_type@,
            value: self.value@,
        }
    }
}

impl DeepView for Trait {
    type V = TraitView;

    open spec fn deep_view(&self) -> TraitView {
        self@
    }
}

impl Clone for Trait {
    fn clone(&self) -> (copy: Self)
        ensures
            copy@ == self@,
    {
        Trait {
            display_type: self.display_type.clone(),
            trait_type: self.trait_type.clone(),
            value: self.value.clone(),
        }
    }
}

/// The attributes of a token. All of them are optional.
#[derive(Debug, PartialEq, Eq)]
pub struct Metadata {
    pub image: Option<String>,
    pub image_data: Option<String>,
    pub external_url: Option<String>,
    pub description: Option<String>,
    pub name: Option<String>,
    pub attributes: Option<Vec<Trait>>,
    pub background_color: Option<String>,
    pub animation_url: Option<String>,
    pub youtube_url: Option<String>,
    /// Share of a sale price owed as royalty, in percent.
    pub royalty_percentage: Option<u64>,
    /// Who receives the royalty.
    pub royalty_payment_address: Option<String>,
}

/// What a `Metadata` holds.
pub struct MetadataView {
    pub image: Option<Seq<char>>,
    pub image_data: Option<Seq<char>>,
    pub external_url: Option<Seq<char>>,
    pub description: Option<Seq<char>>,
    pub name: Option<Seq<char>>,
    pub attributes: Option<Seq<TraitView>>,
    pub background_color: Option<Seq<char>>,
    pub animation_url: Option<Seq<char>>,
    pub youtube_url: Option<Seq<char>>,
    pub royalty_percentage: Option<u64>,
    pub royalty_payment_address: Option<Seq<char>>,
}

impl View for Metadata {
    type V = MetadataView;

    open spec fn view(&self) -> MetadataView {
        MetadataView {
            image: self.image.deep_view(),
            image_data: self.image_data.deep_view(),
            external_url: self.external_url.deep_view(),
            description: self.description.deep_view(),
            name: self.name.deep_view(),
            attributes: self.attributes.deep_view(),
            background_color: self.background_color.deep_view(),
            animation_url: self.animation_url.deep_view(),
            youtube_url: self.youtube_url.deep_view(),
            royalty_percentage: self.royalty_percentage,
            royalty_payment_address: self.royalty_payment_address.deep_view(),
        }
    }
}

impl DeepView for Metadata {
    type V = MetadataView;

    open spec fn deep_view(&self) -> MetadataView {
        self@
    }
}

/// A copy of a list of attributes.
pub fn clone_traits(traits: &Vec<Trait>) -> (copy: Vec<Trait>)
    ensures
        copy.deep_view() == traits.deep_view(),
{
    let mut copy: Vec<Trait> = Vec::new();
    let mut i: usize = 0;
    while i < traits.len()
        invariant
            i <= traits.len(),
            copy.len() == i,
            forall|j: int| 0 <= j < i ==> copy[j]@ == traits[j]@,
        decreases traits.len() - i,
    {
        copy.push(traits[i].clone());
        i += 1;
    }
    assert(copy.deep_view() =~= traits.deep_view());
    copy
}

impl Default for Metadata {
    fn default() -> (empty: Self)
        ensures
            empty@ == MetadataView::empty(),
    {
        Metadata {
            image: None,
            image_data: None,
            external_url: None,
            description: None,
            name: None,
            attributes: None,
            background_color: None,
            animation_url: None,
            youtube_url: None,
            royalty_percentage: None,
            royalty_payment_address: None,
        }
    }
}

impl MetadataView {
    /// Metadata with no attribute set.
    pub open spec fn empty() -> MetadataView {
        MetadataView {
            image: None,
            image_data: None,
            external_url: None,
            description: None,
            name: None,
            attributes: None,
            background_color: None,
            animation_url: None,
            youtube_url: None,
            royalty_percentage: None,
            royalty_payment_address: None,
        }
    }
}

impl Clone for Metadata {
    fn clone(&self) -> (copy: Self)
        ensures
            copy@ == self@,
    {
        let attributes = match &self.attributes {
            Some(traits) => Some(clone_traits(traits)),
            None => None,
        };
        Metadata {
            image: self.image.clone(),
            image_data: self.image_data.clone(),
            external_url: self.external_url.clone(),
            description: self.description.clone(),
            name: self.name.clone(),
            attributes,
            background_color: self.background_color.clone(),
            animation_url: self.animation_url.clone(),
            youtube_url: self.youtube_url.clone(),
            royalty_percentage: self.royalty_percentage,
            royalty_payment_address: self.royalty_payment_address.clone(),
        }
    }
}

/// What a token carries beside its owner and address: optional metadata.
pub type Extension = Option<Metadata>;

/// A copy of optional metadata.
pub fn clone_extension(extension: &Extension) -> (copy: Extension)
    ensures
        copy.deep_view() == extension.deep_view(),
{
    match extension {
        Some(metadata) => Some(metadata.clone()),
        None => None,
    }
}

} // verus!
