use xiler_sync::models::inscription::{Inscription, InscriptionMetaAttribute, NewInscriptions};

const INSCRIPITON_ID: &'static str =
    "bd3bfa98c592fdb6ee81d4655082c43f27b63b05c706bd47bac4e1b715eab7a6i0";

#[test]
fn inscription_new() {
    let inscription = Inscription::new(
        INSCRIPITON_ID.to_string(),
        "domain".to_string(),
        vec![InscriptionMetaAttribute::new(
            "trait_type".to_string(),
            "value".to_string(),
        )],
    );

    let meta = inscription
        .meta
        .expect("inscription.meta should not be None");

    let attributes = meta
        .attributes
        .expect("inscription.meta.attributes should not be None");

    assert_eq!(inscription.id, INSCRIPITON_ID);
    assert_eq!(meta.name.unwrap(), "domain");
    assert_eq!(attributes[0].trait_type, "trait_type");
    assert_eq!(attributes[0].value, "value");
}

#[test]
fn inscription_new_no_attributes() {
    let inscription = Inscription::new(INSCRIPITON_ID.to_string(), "domain".to_string(), vec![]);

    let meta = inscription
        .meta
        .expect("inscription.meta should not be None");

    assert_eq!(inscription.id, INSCRIPITON_ID);
    assert_eq!(meta.name.unwrap(), "domain");
}

#[test]
fn inscription_meta_attribute_new() {
    let attribute = InscriptionMetaAttribute::new("trait_type".to_string(), "value".to_string());

    assert_eq!(attribute.trait_type, "trait_type");
    assert_eq!(attribute.value, "value");
}

#[test]
fn new_inscriptions_new() {
    let new_inscriptions = NewInscriptions::new(
        vec![Inscription::new(
            INSCRIPITON_ID.to_string(),
            "domain".to_string(),
            vec![InscriptionMetaAttribute::new(
                "trait_type".to_string(),
                "value".to_string(),
            )],
        )],
        "creator_address".to_string(),
        "creator_signature".to_string(),
        "xiler-dns".to_string(),
    );

    assert_eq!(new_inscriptions.new_inscriptions.len(), 1);
    assert_eq!(new_inscriptions.creator_address, "creator_address");
    assert_eq!(new_inscriptions.creator_signature, "creator_signature");
    assert_eq!(new_inscriptions.slug, "xiler-dns");
}
