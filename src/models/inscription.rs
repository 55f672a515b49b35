use vstd::prelude::*;

verus! {

/// One publishable record: an identifier and the metadata shown for it.
#[derive(Debug, Clone)]
pub struct Inscription {
    pub id: String,
    pub meta: Option<InscriptionMeta>,
}

/// Display name and attributes of an inscription.
#[derive(Debug, Clone)]
pub struct InscriptionMeta {
    pub name: Option<String>,
    pub attributes: Option<Vec<InscriptionMetaAttribute>>,
}

/// One `(trait_type, value)` attribute pair.
#[derive(Debug, Clone)]
pub struct InscriptionMetaAttribute {
    pub trait_type: String,
    pub value: String,
}

/// The body of a primary publish request: the whole batch with the
/// creator's credentials and the collection slug.
#[derive(Debug, Clone)]
pub struct NewInscriptions {
    pub new_inscriptions: Vec<Inscription>,
    pub creator_address: String,
    pub creator_signature: String,
    pub slug: String,
}

impl Inscription {
    /// An inscription named `domain`, carrying `attributes`.
    pub fn new(id: String, domain: String, attributes: Vec<InscriptionMetaAttribute>) -> (r: Self)
        ensures
            r.id == id,
            r.meta == Some(InscriptionMeta { name: Some(domain), attributes: Some(attributes) }),
    {
        let meta = InscriptionMeta { name: Some(domain), attributes: Some(attributes) };
        Inscription { id, meta: Some(meta) }
    }
}

impl InscriptionMetaAttribute {
    pub fn new(trait_type: String, value: String) -> (r: Self)
        ensures
            r.trait_type == trait_type,
            r.value == value,
    {
        InscriptionMetaAttribute { trait_type, value }
    }
}

impl NewInscriptions {
    pub fn new(
        new_inscriptions: Vec<Inscription>,
        creator_address: String,
        creator_signature: String,
        slug: String,
    ) -> (r: Self)
        ensures
            r.new_inscriptions == new_inscriptions,
            r.creator_address == creator_address,
            r.creator_signature == creator_signature,
            r.slug == slug,
    {
        NewInscriptions { new_inscriptions, creator_address, creator_signature, slug }
    }
}

} // verus!
