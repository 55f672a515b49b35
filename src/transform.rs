use crate::domain_length::{classify, classify_spec, lower_of, DomainError, DomainLength};
use crate::models::inscription::{Inscription, InscriptionMetaAttribute};
use vstd::prelude::*;
use vstd::string::*;

verus! {

/// `u` is the publishable form of the record `(domain, proof)` whose domain
/// falls in bucket `b`: its id is the proof reference followed by `i0`, its
/// name is the domain, and its one attribute is `("length", b)`.
pub open spec fn describes(u: Inscription, domain: Seq<char>, proof: Seq<char>, b: DomainLength) -> bool {
    &&& u.id@ == proof + "i0"@
    &&& u.meta is Some
    &&& u.meta->Some_0.name is Some
    &&& u.meta->Some_0.name->Some_0@ == domain
    &&& u.meta->Some_0.attributes is Some
    &&& u.meta->Some_0.attributes->Some_0@.len() == 1
    &&& u.meta->Some_0.attributes->Some_0@[0].trait_type@ == "length"@
    &&& u.meta->Some_0.attributes->Some_0@[0].value@ == b.name()
}

/// Builds the publishable unit of one `(domain, proof reference)` record, or
/// tells why the domain cannot be classified.
pub fn transform(domain: String, proof_reference: String) -> (r: Result<Inscription, DomainError>)
    ensures
        match classify_spec(lower_of(domain@)) {
            Ok(b) => r is Ok && describes(r->Ok_0, domain@, proof_reference@, b),
            Err(e) => r == Err::<Inscription, DomainError>(e),
        },
{
    match classify(domain.as_str()) {
        Err(e) => Err(e),
        Ok(b) => {
            let ghost d = domain@;
            let mut id = proof_reference;
            id.append("i0");
            let mut attributes: Vec<InscriptionMetaAttribute> = Vec::new();
            attributes.push(InscriptionMetaAttribute::new(String::from_str("length"), b.to_string()));
            let u = Inscription::new(id, domain, attributes);
            Ok(u)
        },
    }
}

/// The records that classify, in order, each with its domain, proof
/// reference and bucket.
pub open spec fn accepted(records: Seq<(String, String)>) -> Seq<(Seq<char>, Seq<char>, DomainLength)>
    decreases records.len(),
{
    if records.len() == 0 {
        Seq::empty()
    } else {
        let prev = accepted(records.drop_last());
        let d = records.last().0@;
        match classify_spec(lower_of(d)) {
            Ok(b) => prev.push((d, records.last().1@, b)),
            Err(_) => prev,
        }
    }
}

/// The domains of the records that do not classify, in order.
pub open spec fn rejected(records: Seq<(String, String)>) -> Seq<Seq<char>>
    decreases records.len(),
{
    if records.len() == 0 {
        Seq::empty()
    } else {
        let prev = rejected(records.drop_last());
        let d = records.last().0@;
        match classify_spec(lower_of(d)) {
            Ok(_) => prev,
            Err(_) => prev.push(d),
        }
    }
}

/// `units` are the publishable units of the records that classify, in
/// order, and `skipped` the domains of the records that do not.
pub open spec fn transformed(units: Seq<Inscription>, skipped: Seq<String>, records: Seq<(String, String)>) -> bool {
    &&& units.len() == accepted(records).len()
    &&& forall|i: int|
        0 <= i < units.len() ==> describes(
            #[trigger] units[i],
            accepted(records)[i].0,
            accepted(records)[i].1,
            accepted(records)[i].2,
        )
    &&& skipped.len() == rejected(records).len()
    &&& forall|i: int| 0 <= i < skipped.len() ==> (#[trigger] skipped[i])@ == rejected(records)[i]
}

/// Transforms a fetched batch: the units of the records that classify, in
/// order, and the domains of those skipped because they do not.
pub fn transform_all(records: &Vec<(String, String)>) -> (r: (Vec<Inscription>, Vec<String>))
    ensures
        transformed(r.0@, r.1@, records@),
{
    let mut units: Vec<Inscription> = Vec::new();
    let mut skipped: Vec<String> = Vec::new();
    let mut i: usize = 0;
    while i < records.len()
        invariant
            i <= records@.len(),
            transformed(units@, skipped@, records@.subrange(0, i as int)),
        decreases records@.len() - i,
    {
        let ghost prefix = records@.subrange(0, i as int);
        let ghost next = records@.subrange(0, i + 1);
        assert(next.drop_last() =~= prefix);
        assert(next.last() == records@[i as int]);
        let domain = records[i].0.clone();
        let proof_reference = records[i].1.clone();
        match transform(domain, proof_reference) {
            Ok(u) => {
                units.push(u);
            },
            Err(_) => {
                skipped.push(records[i].0.clone());
            },
        }
        i = i + 1;
    }
    assert(records@.subrange(0, records@.len() as int) =~= records@);
    (units, skipped)
}

} // verus!
